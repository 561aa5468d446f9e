use frgb::led_page::EditorColors;
use frgb::model::Rgb;
use frgb::rgb::FanLedAssignment;
use frgb::GroupId;

fn colors(inner: Rgb, outer: Rgb) -> FanLedAssignment {
    FanLedAssignment { inner: vec![inner; 2], outer: vec![outer; 3] }
}

const RED: Rgb = Rgb { r: 255, g: 0, b: 0 };
const BLUE: Rgb = Rgb { r: 0, g: 0, b: 255 };

#[test]
fn preset_takes_edited_fans_and_leaves_others_empty() {
    let mut ed = EditorColors::new();
    ed.set((GroupId(1), 0), colors(RED, BLUE));
    ed.set((GroupId(1), 2), colors(BLUE, RED));
    ed.set((GroupId(2), 1), colors(RED, RED));
    let a = ed.preset_assignments(GroupId(1), 3);
    assert_eq!(a.len(), 3);
    assert_eq!(a[0].inner, vec![RED; 2]);
    assert_eq!(a[0].outer, vec![BLUE; 3]);
    assert!(a[1].inner.is_empty() && a[1].outer.is_empty());
    assert_eq!(a[2].inner, vec![BLUE; 2]);
}

#[test]
fn setting_a_fan_twice_keeps_one_entry() {
    let mut ed = EditorColors::new();
    ed.set((GroupId(1), 0), colors(RED, BLUE));
    ed.set((GroupId(1), 0), colors(BLUE, BLUE));
    assert_eq!(ed.entries.len(), 1);
    assert_eq!(ed.preset_assignments(GroupId(1), 1)[0].inner, vec![BLUE; 2]);
}

#[test]
fn loading_a_saved_preset_restores_its_fans() {
    let mut ed = EditorColors::new();
    ed.set((GroupId(3), 0), colors(RED, RED));
    ed.set((GroupId(3), 1), colors(BLUE, BLUE));
    ed.set((GroupId(4), 0), colors(RED, BLUE));
    let saved = ed.preset_assignments(GroupId(3), 2);
    ed.set((GroupId(3), 0), colors(BLUE, RED));
    ed.load_preset(GroupId(3), &saved);
    let again = ed.preset_assignments(GroupId(3), 2);
    assert_eq!(again[0].inner, vec![RED; 2]);
    assert_eq!(again[1].outer, vec![BLUE; 3]);
    assert_eq!(ed.preset_assignments(GroupId(4), 1)[0].outer, vec![BLUE; 3]);
}
