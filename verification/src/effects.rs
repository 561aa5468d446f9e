//! Lighting effects and their display names.
//!
//! The display table holds the 47 effects the UI offers; it omits Voice and
//! the six effects that only the wired hub's own UI drives (Cover Cycle,
//! Wave, Meteor Shower, Paint, Snooker, Blow Up).

use vstd::prelude::*;

use crate::text::{ci_fingerprint, eq_ascii_ci, eq_ignore_ascii_case, fingerprint_of, lemma_fingerprint_ci, same_text};

verus! {

/// Number of effects in the display table.
pub const EFFECT_TABLE_LEN: usize = 47;

/// A lighting effect.
#[derive(Clone, Copy, Debug, PartialEq, Eq, Structural)]
pub enum Effect {
    Rainbow,
    RainbowMorph,
    StaticColor,
    Breathing,
    Runway,
    Meteor,
    Twinkle,
    ColorCycle,
    Mixing,
    Tide,
    ElectricCurrent,
    Reflect,
    GradientRibbon,
    Disco,
    Warning,
    MopUp,
    Hourglass,
    Taichi,
    MeteorRainbow,
    ColorfulMeteor,
    Lottery,
    Scan,
    DoubleMeteor,
    MeteorContest,
    MeteorMix,
    ReturnArc,
    DoubleArc,
    Door,
    HeartBeat,
    HeartBeatRunway,
    Wing,
    Drumming,
    Boomerang,
    CandyBox,
    Staggered,
    Render,
    PingPong,
    Stack,
    Ripple,
    Collide,
    Endless,
    River,
    Duel,
    Pioneer,
    ShuttleRun,
    Pump,
    Bounce,
    Voice,
    CoverCycle,
    Wave,
    MeteorShower,
    Paint,
    Snooker,
    BlowUp,
}

/// Direction of an effect's motion.
#[derive(Clone, Copy, Debug, PartialEq, Eq, Structural)]
pub enum EffectDirection {
    Cw,
    Ccw,
    Out,
    In,
}

/// The display table: each displayable effect with its name, in UI order.
pub open spec fn effect_table() -> Seq<(Effect, &'static str)> {
    seq![
        (Effect::Rainbow, "Rainbow"),
        (Effect::RainbowMorph, "Rainbow Morph"),
        (Effect::StaticColor, "Static Color"),
        (Effect::Breathing, "Breathing"),
        (Effect::Runway, "Runway"),
        (Effect::Meteor, "Meteor"),
        (Effect::Twinkle, "Twinkle"),
        (Effect::ColorCycle, "Color Cycle"),
        (Effect::Mixing, "Mixing"),
        (Effect::Tide, "Tide"),
        (Effect::ElectricCurrent, "Electric Current"),
        (Effect::Reflect, "Reflect"),
        (Effect::GradientRibbon, "Gradient Ribbon"),
        (Effect::Disco, "Disco"),
        (Effect::Warning, "Warning"),
        (Effect::MopUp, "Mop Up"),
        (Effect::Hourglass, "Hourglass"),
        (Effect::Taichi, "Taichi"),
        (Effect::MeteorRainbow, "Meteor Rainbow"),
        (Effect::ColorfulMeteor, "Colorful Meteor"),
        (Effect::Lottery, "Lottery"),
        (Effect::Scan, "Scan"),
        (Effect::DoubleMeteor, "Double Meteor"),
        (Effect::MeteorContest, "Meteor Contest"),
        (Effect::MeteorMix, "Meteor Mix"),
        (Effect::ReturnArc, "Return Arc"),
        (Effect::DoubleArc, "Double Arc"),
        (Effect::Door, "Door"),
        (Effect::HeartBeat, "Heart Beat"),
        (Effect::HeartBeatRunway, "Heart Beat Runway"),
        (Effect::Wing, "Wing"),
        (Effect::Drumming, "Drumming"),
        (Effect::Boomerang, "Boomerang"),
        (Effect::CandyBox, "Candy Box"),
        (Effect::Staggered, "Staggered"),
        (Effect::Render, "Render"),
        (Effect::PingPong, "Ping Pong"),
        (Effect::Stack, "Stack"),
        (Effect::Ripple, "Ripple"),
        (Effect::Collide, "Collide"),
        (Effect::Endless, "Endless"),
        (Effect::River, "River"),
        (Effect::Duel, "Duel"),
        (Effect::Pioneer, "Pioneer"),
        (Effect::ShuttleRun, "Shuttle Run"),
        (Effect::Pump, "Pump"),
        (Effect::Bounce, "Bounce"),
    ]
}

impl Effect {
    /// The effect's identifier.
    pub open spec fn name_spec(self) -> &'static str {
        match self {
            Effect::Rainbow => "Rainbow",
            Effect::RainbowMorph => "RainbowMorph",
            Effect::StaticColor => "StaticColor",
            Effect::Breathing => "Breathing",
            Effect::Runway => "Runway",
            Effect::Meteor => "Meteor",
            Effect::Twinkle => "Twinkle",
            Effect::ColorCycle => "ColorCycle",
            Effect::Mixing => "Mixing",
            Effect::Tide => "Tide",
            Effect::ElectricCurrent => "ElectricCurrent",
            Effect::Reflect => "Reflect",
            Effect::GradientRibbon => "GradientRibbon",
            Effect::Disco => "Disco",
            Effect::Warning => "Warning",
            Effect::MopUp => "MopUp",
            Effect::Hourglass => "Hourglass",
            Effect::Taichi => "Taichi",
            Effect::MeteorRainbow => "MeteorRainbow",
            Effect::ColorfulMeteor => "ColorfulMeteor",
            Effect::Lottery => "Lottery",
            Effect::Scan => "Scan",
            Effect::DoubleMeteor => "DoubleMeteor",
            Effect::MeteorContest => "MeteorContest",
            Effect::MeteorMix => "MeteorMix",
            Effect::ReturnArc => "ReturnArc",
            Effect::DoubleArc => "DoubleArc",
            Effect::Door => "Door",
            Effect::HeartBeat => "HeartBeat",
            Effect::HeartBeatRunway => "HeartBeatRunway",
            Effect::Wing => "Wing",
            Effect::Drumming => "Drumming",
            Effect::Boomerang => "Boomerang",
            Effect::CandyBox => "CandyBox",
            Effect::Staggered => "Staggered",
            Effect::Render => "Render",
            Effect::PingPong => "PingPong",
            Effect::Stack => "Stack",
            Effect::Ripple => "Ripple",
            Effect::Collide => "Collide",
            Effect::Endless => "Endless",
            Effect::River => "River",
            Effect::Duel => "Duel",
            Effect::Pioneer => "Pioneer",
            Effect::ShuttleRun => "ShuttleRun",
            Effect::Pump => "Pump",
            Effect::Bounce => "Bounce",
            Effect::Voice => "Voice",
            Effect::CoverCycle => "CoverCycle",
            Effect::Wave => "Wave",
            Effect::MeteorShower => "MeteorShower",
            Effect::Paint => "Paint",
            Effect::Snooker => "Snooker",
            Effect::BlowUp => "BlowUp",
        }
    }

    /// The effect's identifier.
    pub fn name(&self) -> (r: &'static str)
        ensures
            r == self.name_spec(),
    {
        match self {
            Effect::Rainbow => "Rainbow",
            Effect::RainbowMorph => "RainbowMorph",
            Effect::StaticColor => "StaticColor",
            Effect::Breathing => "Breathing",
            Effect::Runway => "Runway",
            Effect::Meteor => "Meteor",
            Effect::Twinkle => "Twinkle",
            Effect::ColorCycle => "ColorCycle",
            Effect::Mixing => "Mixing",
            Effect::Tide => "Tide",
            Effect::ElectricCurrent => "ElectricCurrent",
            Effect::Reflect => "Reflect",
            Effect::GradientRibbon => "GradientRibbon",
            Effect::Disco => "Disco",
            Effect::Warning => "Warning",
            Effect::MopUp => "MopUp",
            Effect::Hourglass => "Hourglass",
            Effect::Taichi => "Taichi",
            Effect::MeteorRainbow => "MeteorRainbow",
            Effect::ColorfulMeteor => "ColorfulMeteor",
            Effect::Lottery => "Lottery",
            Effect::Scan => "Scan",
            Effect::DoubleMeteor => "DoubleMeteor",
            Effect::MeteorContest => "MeteorContest",
            Effect::MeteorMix => "MeteorMix",
            Effect::ReturnArc => "ReturnArc",
            Effect::DoubleArc => "DoubleArc",
            Effect::Door => "Door",
            Effect::HeartBeat => "HeartBeat",
            Effect::HeartBeatRunway => "HeartBeatRunway",
            Effect::Wing => "Wing",
            Effect::Drumming => "Drumming",
            Effect::Boomerang => "Boomerang",
            Effect::CandyBox => "CandyBox",
            Effect::Staggered => "Staggered",
            Effect::Render => "Render",
            Effect::PingPong => "PingPong",
            Effect::Stack => "Stack",
            Effect::Ripple => "Ripple",
            Effect::Collide => "Collide",
            Effect::Endless => "Endless",
            Effect::River => "River",
            Effect::Duel => "Duel",
            Effect::Pioneer => "Pioneer",
            Effect::ShuttleRun => "ShuttleRun",
            Effect::Pump => "Pump",
            Effect::Bounce => "Bounce",
            Effect::Voice => "Voice",
            Effect::CoverCycle => "CoverCycle",
            Effect::Wave => "Wave",
            Effect::MeteorShower => "MeteorShower",
            Effect::Paint => "Paint",
            Effect::Snooker => "Snooker",
            Effect::BlowUp => "BlowUp",
        }
    }
}

/// Entry `i` of the display table.
pub fn effect_table_entry(i: usize) -> (r: (Effect, &'static str))
    requires
        i < EFFECT_TABLE_LEN,
    ensures
        r == effect_table()[i as int],
{
    match i {
        0 => (Effect::Rainbow, "Rainbow"),
        1 => (Effect::RainbowMorph, "Rainbow Morph"),
        2 => (Effect::StaticColor, "Static Color"),
        3 => (Effect::Breathing, "Breathing"),
        4 => (Effect::Runway, "Runway"),
        5 => (Effect::Meteor, "Meteor"),
        6 => (Effect::Twinkle, "Twinkle"),
        7 => (Effect::ColorCycle, "Color Cycle"),
        8 => (Effect::Mixing, "Mixing"),
        9 => (Effect::Tide, "Tide"),
        10 => (Effect::ElectricCurrent, "Electric Current"),
        11 => (Effect::Reflect, "Reflect"),
        12 => (Effect::GradientRibbon, "Gradient Ribbon"),
        13 => (Effect::Disco, "Disco"),
        14 => (Effect::Warning, "Warning"),
        15 => (Effect::MopUp, "Mop Up"),
        16 => (Effect::Hourglass, "Hourglass"),
        17 => (Effect::Taichi, "Taichi"),
        18 => (Effect::MeteorRainbow, "Meteor Rainbow"),
        19 => (Effect::ColorfulMeteor, "Colorful Meteor"),
        20 => (Effect::Lottery, "Lottery"),
        21 => (Effect::Scan, "Scan"),
        22 => (Effect::DoubleMeteor, "Double Meteor"),
        23 => (Effect::MeteorContest, "Meteor Contest"),
        24 => (Effect::MeteorMix, "Meteor Mix"),
        25 => (Effect::ReturnArc, "Return Arc"),
        26 => (Effect::DoubleArc, "Double Arc"),
        27 => (Effect::Door, "Door"),
        28 => (Effect::HeartBeat, "Heart Beat"),
        29 => (Effect::HeartBeatRunway, "Heart Beat Runway"),
        30 => (Effect::Wing, "Wing"),
        31 => (Effect::Drumming, "Drumming"),
        32 => (Effect::Boomerang, "Boomerang"),
        33 => (Effect::CandyBox, "Candy Box"),
        34 => (Effect::Staggered, "Staggered"),
        35 => (Effect::Render, "Render"),
        36 => (Effect::PingPong, "Ping Pong"),
        37 => (Effect::Stack, "Stack"),
        38 => (Effect::Ripple, "Ripple"),
        39 => (Effect::Collide, "Collide"),
        40 => (Effect::Endless, "Endless"),
        41 => (Effect::River, "River"),
        42 => (Effect::Duel, "Duel"),
        43 => (Effect::Pioneer, "Pioneer"),
        44 => (Effect::ShuttleRun, "Shuttle Run"),
        45 => (Effect::Pump, "Pump"),
        _ => (Effect::Bounce, "Bounce"),
    }
}

/// Entries of the effect `e`.
pub open spec fn is_effect(e: Effect) -> spec_fn((Effect, &'static str)) -> bool {
    |x: (Effect, &'static str)| x.0 == e
}

/// Entries whose name equals `name` up to ASCII case.
pub open spec fn named_ci(name: Seq<char>) -> spec_fn((Effect, &'static str)) -> bool {
    |x: (Effect, &'static str)| eq_ascii_ci(x.1@, name)
}

/// Entries whose name is exactly `name`.
pub open spec fn named(name: Seq<char>) -> spec_fn((Effect, &'static str)) -> bool {
    |x: (Effect, &'static str)| x.1@ == name
}

/// Index of the first of the first `n` table entries that satisfies `p`.
pub open spec fn first_in_table(p: spec_fn((Effect, &'static str)) -> bool, n: int) -> Option<int>
    decreases n,
{
    if n <= 0 {
        None
    } else {
        match first_in_table(p, n - 1) {
            Some(i) => Some(i),
            None => if p(effect_table()[n - 1]) {
                Some(n - 1)
            } else {
                None
            },
        }
    }
}

proof fn lemma_first_in_table_stable(p: spec_fn((Effect, &'static str)) -> bool, k: int, n: int)
    requires
        0 <= k <= n,
        first_in_table(p, k) is Some,
    ensures
        first_in_table(p, n) == first_in_table(p, k),
    decreases n - k,
{
    if n > k {
        lemma_first_in_table_stable(p, k, n - 1);
    }
}

proof fn lemma_first_in_table_range(p: spec_fn((Effect, &'static str)) -> bool, n: int)
    ensures
        first_in_table(p, n) matches Some(i) ==> 0 <= i < n && p(effect_table()[i]),
    decreases n,
{
    if n > 0 {
        lemma_first_in_table_range(p, n - 1);
    }
}

/// Position in the table of the first entry satisfying `p`, searched in order.
fn search_table(Ghost(p): Ghost<spec_fn((Effect, &'static str)) -> bool>, key: &str, by_effect: Option<Effect>, ci: bool) -> (r: Option<usize>)
    requires
        by_effect matches Some(e) ==> p == is_effect(e),
        by_effect is None && ci ==> p == named_ci(key@),
        by_effect is None && !ci ==> p == named(key@),
    ensures
        match r {
            Some(i) => first_in_table(p, EFFECT_TABLE_LEN as int) == Some(i as int),
            None => first_in_table(p, EFFECT_TABLE_LEN as int) is None,
        },
{
    let mut i: usize = 0;
    while i < EFFECT_TABLE_LEN
        invariant
            i <= EFFECT_TABLE_LEN,
            first_in_table(p, i as int) is None,
            by_effect matches Some(e) ==> p == is_effect(e),
            by_effect is None && ci ==> p == named_ci(key@),
            by_effect is None && !ci ==> p == named(key@),
        decreases EFFECT_TABLE_LEN - i,
    {
        let (e, d) = effect_table_entry(i);
        let hit = match by_effect {
            Some(want) => e == want,
            None => if ci {
                eq_ignore_ascii_case(d, key)
            } else {
                same_text(d, key)
            },
        };
        assert(hit == p(effect_table()[i as int]));
        if hit {
            proof {
                lemma_first_in_table_stable(p, i + 1, EFFECT_TABLE_LEN as int);
        }
            return Some(i);
        }
        i = i + 1;
    }
    None
}

/// The first table effect whose display name equals `name` up to ASCII case.
pub open spec fn effect_by_name_spec(name: Seq<char>) -> Option<Effect> {
    match first_in_table(named_ci(name), EFFECT_TABLE_LEN as int) {
        Some(i) => Some(effect_table()[i].0),
        None => None,
    }
}

/// The table name of an effect, or its identifier when the table omits it.
pub open spec fn display_name_spec(effect: Effect) -> &'static str {
    match first_in_table(is_effect(effect), EFFECT_TABLE_LEN as int) {
        Some(i) => effect_table()[i].1,
        None => effect.name_spec(),
    }
}

/// Find an effect by its display name (ASCII case-insensitive).
pub fn effect_by_name(name: &str) -> (r: Option<Effect>)
    ensures
        r == effect_by_name_spec(name@),
{
    let ghost p = named_ci(name@);
    proof {
        lemma_first_in_table_range(p, EFFECT_TABLE_LEN as int);
    }
    match search_table(Ghost(p), name, None, true) {
        Some(i) => Some(effect_table_entry(i).0),
        None => None,
    }
}

/// Reverse lookup: find the effect with exactly this display name.
pub fn effect_from_display_name(name: &str) -> (r: Option<Effect>)
    ensures
        r == (match first_in_table(named(name@), EFFECT_TABLE_LEN as int) {
            Some(i) => Some(effect_table()[i].0),
            None => None,
        }),
{
    let ghost p = named(name@);
    proof {
        lemma_first_in_table_range(p, EFFECT_TABLE_LEN as int);
    }
    match search_table(Ghost(p), name, None, false) {
        Some(i) => Some(effect_table_entry(i).0),
        None => None,
    }
}

/// The human-readable display name of an effect: its table name, or its
/// identifier for the effects the table omits.
pub fn effect_display_name(effect: Effect) -> (r: &'static str)
    ensures
        r == display_name_spec(effect),
{
    let ghost p = is_effect(effect);
    proof {
        lemma_first_in_table_range(p, EFFECT_TABLE_LEN as int);
    }
    match search_table(Ghost(p), "", Some(effect), false) {
        Some(i) => effect_table_entry(i).1,
        None => effect.name(),
    }
}

/// All displayable effect names, in table order.
pub fn effect_display_names() -> (r: Vec<&'static str>)
    ensures
        r@ == effect_table().map_values(|x: (Effect, &'static str)| x.1),
{
    let mut r: Vec<&'static str> = Vec::new();
    let mut i: usize = 0;
    while i < EFFECT_TABLE_LEN
        invariant
            i <= EFFECT_TABLE_LEN,
            r@ == effect_table().map_values(|x: (Effect, &'static str)| x.1).subrange(0, i as int),
        decreases EFFECT_TABLE_LEN - i,
    {
        r.push(effect_table_entry(i).1);
        i = i + 1;
    }
    assert(effect_table().map_values(|x: (Effect, &'static str)| x.1).subrange(0, i as int)
        =~= effect_table().map_values(|x: (Effect, &'static str)| x.1));
    r
}

/// Direction of an index: 0 = Cw, 1 = Ccw, 2 = Out, 3 = In, others Cw.
pub open spec fn direction_of_index(idx: i32) -> EffectDirection {
    if idx == 1 {
        EffectDirection::Ccw
    } else if idx == 2 {
        EffectDirection::Out
    } else if idx == 3 {
        EffectDirection::In
    } else {
        EffectDirection::Cw
    }
}

/// Index of a direction.
pub open spec fn index_of_direction(dir: EffectDirection) -> i32 {
    match dir {
        EffectDirection::Cw => 0i32,
        EffectDirection::Ccw => 1,
        EffectDirection::Out => 2,
        EffectDirection::In => 3,
    }
}

/// Map a direction index to a direction: 0 = Cw, 1 = Ccw, 2 = Out, 3 = In, others Cw.
pub fn direction_from_index(idx: i32) -> (d: EffectDirection)
    ensures
        d == direction_of_index(idx),
{
    match idx {
        1 => EffectDirection::Ccw,
        2 => EffectDirection::Out,
        3 => EffectDirection::In,
        _ => EffectDirection::Cw,
    }
}

/// Map a direction to its index; inverse of `direction_from_index`.
pub fn direction_to_index(dir: EffectDirection) -> (i: i32)
    ensures
        i == index_of_direction(dir),
{
    match dir {
        EffectDirection::Cw => 0,
        EffectDirection::Ccw => 1,
        EffectDirection::Out => 2,
        EffectDirection::In => 3,
    }
}

/// A direction survives the round trip through its index.
pub proof fn law_direction_index_roundtrip(dir: EffectDirection)
    ensures
        direction_of_index(index_of_direction(dir)) == dir,
{
}

/// Fingerprint of the `i`-th table name.
spec fn table_fingerprint(i: int) -> int {
    if i == 0 {
        fingerprint_of(7, 'r', 'a', 'w')  // Rainbow
    } else if i == 1 {
        fingerprint_of(13, 'r', 'a', 'h')  // Rainbow Morph
    } else if i == 2 {
        fingerprint_of(12, 's', 't', 'r')  // Static Color
    } else if i == 3 {
        fingerprint_of(9, 'b', 'r', 'g')  // Breathing
    } else if i == 4 {
        fingerprint_of(6, 'r', 'u', 'y')  // Runway
    } else if i == 5 {
        fingerprint_of(6, 'm', 'e', 'r')  // Meteor
    } else if i == 6 {
        fingerprint_of(7, 't', 'w', 'e')  // Twinkle
    } else if i == 7 {
        fingerprint_of(11, 'c', 'o', 'e')  // Color Cycle
    } else if i == 8 {
        fingerprint_of(6, 'm', 'i', 'g')  // Mixing
    } else if i == 9 {
        fingerprint_of(4, 't', 'i', 'e')  // Tide
    } else if i == 10 {
        fingerprint_of(16, 'e', 'l', 't')  // Electric Current
    } else if i == 11 {
        fingerprint_of(7, 'r', 'e', 't')  // Reflect
    } else if i == 12 {
        fingerprint_of(15, 'g', 'r', 'n')  // Gradient Ribbon
    } else if i == 13 {
        fingerprint_of(5, 'd', 'i', 'o')  // Disco
    } else if i == 14 {
        fingerprint_of(7, 'w', 'a', 'g')  // Warning
    } else if i == 15 {
        fingerprint_of(6, 'm', 'o', 'p')  // Mop Up
    } else if i == 16 {
        fingerprint_of(9, 'h', 'o', 's')  // Hourglass
    } else if i == 17 {
        fingerprint_of(6, 't', 'a', 'i')  // Taichi
    } else if i == 18 {
        fingerprint_of(14, 'm', 'e', 'w')  // Meteor Rainbow
    } else if i == 19 {
        fingerprint_of(15, 'c', 'o', 'r')  // Colorful Meteor
    } else if i == 20 {
        fingerprint_of(7, 'l', 'o', 'y')  // Lottery
    } else if i == 21 {
        fingerprint_of(4, 's', 'c', 'n')  // Scan
    } else if i == 22 {
        fingerprint_of(13, 'd', 'o', 'r')  // Double Meteor
    } else if i == 23 {
        fingerprint_of(14, 'm', 'e', 't')  // Meteor Contest
    } else if i == 24 {
        fingerprint_of(10, 'm', 'e', 'x')  // Meteor Mix
    } else if i == 25 {
        fingerprint_of(10, 'r', 'e', 'c')  // Return Arc
    } else if i == 26 {
        fingerprint_of(10, 'd', 'o', 'c')  // Double Arc
    } else if i == 27 {
        fingerprint_of(4, 'd', 'o', 'r')  // Door
    } else if i == 28 {
        fingerprint_of(10, 'h', 'e', 't')  // Heart Beat
    } else if i == 29 {
        fingerprint_of(17, 'h', 'e', 'y')  // Heart Beat Runway
    } else if i == 30 {
        fingerprint_of(4, 'w', 'i', 'g')  // Wing
    } else if i == 31 {
        fingerprint_of(8, 'd', 'r', 'g')  // Drumming
    } else if i == 32 {
        fingerprint_of(9, 'b', 'o', 'g')  // Boomerang
    } else if i == 33 {
        fingerprint_of(9, 'c', 'a', 'x')  // Candy Box
    } else if i == 34 {
        fingerprint_of(9, 's', 't', 'd')  // Staggered
    } else if i == 35 {
        fingerprint_of(6, 'r', 'e', 'r')  // Render
    } else if i == 36 {
        fingerprint_of(9, 'p', 'i', 'g')  // Ping Pong
    } else if i == 37 {
        fingerprint_of(5, 's', 't', 'k')  // Stack
    } else if i == 38 {
        fingerprint_of(6, 'r', 'i', 'e')  // Ripple
    } else if i == 39 {
        fingerprint_of(7, 'c', 'o', 'e')  // Collide
    } else if i == 40 {
        fingerprint_of(7, 'e', 'n', 's')  // Endless
    } else if i == 41 {
        fingerprint_of(5, 'r', 'i', 'r')  // River
    } else if i == 42 {
        fingerprint_of(4, 'd', 'u', 'l')  // Duel
    } else if i == 43 {
        fingerprint_of(7, 'p', 'i', 'r')  // Pioneer
    } else if i == 44 {
        fingerprint_of(11, 's', 'h', 'n')  // Shuttle Run
    } else if i == 45 {
        fingerprint_of(4, 'p', 'u', 'p')  // Pump
    } else {
        fingerprint_of(6, 'b', 'o', 'e')  // Bounce
    }
}

/// Position of the table name with fingerprint `f`.
spec fn fingerprint_position(f: int) -> int {
    if f == fingerprint_of(7, 'r', 'a', 'w') {
        0
    } else if f == fingerprint_of(13, 'r', 'a', 'h') {
        1
    } else if f == fingerprint_of(12, 's', 't', 'r') {
        2
    } else if f == fingerprint_of(9, 'b', 'r', 'g') {
        3
    } else if f == fingerprint_of(6, 'r', 'u', 'y') {
        4
    } else if f == fingerprint_of(6, 'm', 'e', 'r') {
        5
    } else if f == fingerprint_of(7, 't', 'w', 'e') {
        6
    } else if f == fingerprint_of(11, 'c', 'o', 'e') {
        7
    } else if f == fingerprint_of(6, 'm', 'i', 'g') {
        8
    } else if f == fingerprint_of(4, 't', 'i', 'e') {
        9
    } else if f == fingerprint_of(16, 'e', 'l', 't') {
        10
    } else if f == fingerprint_of(7, 'r', 'e', 't') {
        11
    } else if f == fingerprint_of(15, 'g', 'r', 'n') {
        12
    } else if f == fingerprint_of(5, 'd', 'i', 'o') {
        13
    } else if f == fingerprint_of(7, 'w', 'a', 'g') {
        14
    } else if f == fingerprint_of(6, 'm', 'o', 'p') {
        15
    } else if f == fingerprint_of(9, 'h', 'o', 's') {
        16
    } else if f == fingerprint_of(6, 't', 'a', 'i') {
        17
    } else if f == fingerprint_of(14, 'm', 'e', 'w') {
        18
    } else if f == fingerprint_of(15, 'c', 'o', 'r') {
        19
    } else if f == fingerprint_of(7, 'l', 'o', 'y') {
        20
    } else if f == fingerprint_of(4, 's', 'c', 'n') {
        21
    } else if f == fingerprint_of(13, 'd', 'o', 'r') {
        22
    } else if f == fingerprint_of(14, 'm', 'e', 't') {
        23
    } else if f == fingerprint_of(10, 'm', 'e', 'x') {
        24
    } else if f == fingerprint_of(10, 'r', 'e', 'c') {
        25
    } else if f == fingerprint_of(10, 'd', 'o', 'c') {
        26
    } else if f == fingerprint_of(4, 'd', 'o', 'r') {
        27
    } else if f == fingerprint_of(10, 'h', 'e', 't') {
        28
    } else if f == fingerprint_of(17, 'h', 'e', 'y') {
        29
    } else if f == fingerprint_of(4, 'w', 'i', 'g') {
        30
    } else if f == fingerprint_of(8, 'd', 'r', 'g') {
        31
    } else if f == fingerprint_of(9, 'b', 'o', 'g') {
        32
    } else if f == fingerprint_of(9, 'c', 'a', 'x') {
        33
    } else if f == fingerprint_of(9, 's', 't', 'd') {
        34
    } else if f == fingerprint_of(6, 'r', 'e', 'r') {
        35
    } else if f == fingerprint_of(9, 'p', 'i', 'g') {
        36
    } else if f == fingerprint_of(5, 's', 't', 'k') {
        37
    } else if f == fingerprint_of(6, 'r', 'i', 'e') {
        38
    } else if f == fingerprint_of(7, 'c', 'o', 'e') {
        39
    } else if f == fingerprint_of(7, 'e', 'n', 's') {
        40
    } else if f == fingerprint_of(5, 'r', 'i', 'r') {
        41
    } else if f == fingerprint_of(4, 'd', 'u', 'l') {
        42
    } else if f == fingerprint_of(7, 'p', 'i', 'r') {
        43
    } else if f == fingerprint_of(11, 's', 'h', 'n') {
        44
    } else if f == fingerprint_of(4, 'p', 'u', 'p') {
        45
    } else if f == fingerprint_of(6, 'b', 'o', 'e') {
        46
    } else {
        -1
    }
}

/// The table names have the fingerprints `table_fingerprint` lists, and no
/// two of them the same one.
proof fn lemma_table_fingerprints()
    ensures
        forall|i: int|
            0 <= i < EFFECT_TABLE_LEN ==> {
                &&& (#[trigger] effect_table()[i]).1@.len() >= 2
                &&& ci_fingerprint(effect_table()[i].1@) == table_fingerprint(i)
                &&& fingerprint_position(table_fingerprint(i)) == i
            },
{
    reveal_strlit("Rainbow");
    reveal_strlit("Rainbow Morph");
    reveal_strlit("Static Color");
    reveal_strlit("Breathing");
    reveal_strlit("Runway");
    reveal_strlit("Meteor");
    reveal_strlit("Twinkle");
    reveal_strlit("Color Cycle");
    reveal_strlit("Mixing");
    reveal_strlit("Tide");
    reveal_strlit("Electric Current");
    reveal_strlit("Reflect");
    reveal_strlit("Gradient Ribbon");
    reveal_strlit("Disco");
    reveal_strlit("Warning");
    reveal_strlit("Mop Up");
    reveal_strlit("Hourglass");
    reveal_strlit("Taichi");
    reveal_strlit("Meteor Rainbow");
    reveal_strlit("Colorful Meteor");
    reveal_strlit("Lottery");
    reveal_strlit("Scan");
    reveal_strlit("Double Meteor");
    reveal_strlit("Meteor Contest");
    reveal_strlit("Meteor Mix");
    reveal_strlit("Return Arc");
    reveal_strlit("Double Arc");
    reveal_strlit("Door");
    reveal_strlit("Heart Beat");
    reveal_strlit("Heart Beat Runway");
    reveal_strlit("Wing");
    reveal_strlit("Drumming");
    reveal_strlit("Boomerang");
    reveal_strlit("Candy Box");
    reveal_strlit("Staggered");
    reveal_strlit("Render");
    reveal_strlit("Ping Pong");
    reveal_strlit("Stack");
    reveal_strlit("Ripple");
    reveal_strlit("Collide");
    reveal_strlit("Endless");
    reveal_strlit("River");
    reveal_strlit("Duel");
    reveal_strlit("Pioneer");
    reveal_strlit("Shuttle Run");
    reveal_strlit("Pump");
    reveal_strlit("Bounce");
    assert forall|i: int| 0 <= i < EFFECT_TABLE_LEN implies {
        &&& (#[trigger] effect_table()[i]).1@.len() >= 2
        &&& ci_fingerprint(effect_table()[i].1@) == table_fingerprint(i)
        &&& fingerprint_position(table_fingerprint(i)) == i
    } by {
        // One case per position, so that each entry is read at a known index.
        if i == 0 {
        } else if i == 1 {
        } else if i == 2 {
        } else if i == 3 {
        } else if i == 4 {
        } else if i == 5 {
        } else if i == 6 {
        } else if i == 7 {
        } else if i == 8 {
        } else if i == 9 {
        } else if i == 10 {
        } else if i == 11 {
        } else if i == 12 {
        } else if i == 13 {
        } else if i == 14 {
        } else if i == 15 {
        } else if i == 16 {
        } else if i == 17 {
        } else if i == 18 {
        } else if i == 19 {
        } else if i == 20 {
        } else if i == 21 {
        } else if i == 22 {
        } else if i == 23 {
        } else if i == 24 {
        } else if i == 25 {
        } else if i == 26 {
        } else if i == 27 {
        } else if i == 28 {
        } else if i == 29 {
        } else if i == 30 {
        } else if i == 31 {
        } else if i == 32 {
        } else if i == 33 {
        } else if i == 34 {
        } else if i == 35 {
        } else if i == 36 {
        } else if i == 37 {
        } else if i == 38 {
        } else if i == 39 {
        } else if i == 40 {
        } else if i == 41 {
        } else if i == 42 {
        } else if i == 43 {
        } else if i == 44 {
        } else if i == 45 {
        } else if i == 46 {
        }
    }
}

proof fn lemma_none_before(p: spec_fn((Effect, &'static str)) -> bool, m: int)
    requires
        forall|j: int| 0 <= j < m ==> !p(#[trigger] effect_table()[j]),
    ensures
        first_in_table(p, m) is None,
    decreases m,
{
    if m > 0 {
        lemma_none_before(p, m - 1);
    }
}

/// Looking up the display name of a table entry, exactly or up to ASCII
/// case, finds that entry's effect.
pub proof fn law_effect_name_lookup(i: int)
    requires
        0 <= i < EFFECT_TABLE_LEN,
    ensures
        effect_by_name_spec(effect_table()[i].1@) == Some(effect_table()[i].0),
        first_in_table(named(effect_table()[i].1@), EFFECT_TABLE_LEN as int) == Some(i),
{
    lemma_table_fingerprints();
    let d = effect_table()[i].1@;
    let p = named_ci(d);
    let q = named(d);
    assert forall|j: int| 0 <= j < i implies !p(#[trigger] effect_table()[j]) && !q(effect_table()[j]) by {
        if eq_ascii_ci(effect_table()[j].1@, d) {
            lemma_fingerprint_ci(effect_table()[j].1@, d);
            assert(fingerprint_position(table_fingerprint(j)) == j);
        }
        if effect_table()[j].1@ == d {
            assert(fingerprint_position(table_fingerprint(j)) == j);
        }
    }
    assert(p(effect_table()[i]));
    lemma_none_before(p, i);
    lemma_none_before(q, i);
    lemma_first_in_table_stable(p, i + 1, EFFECT_TABLE_LEN as int);
    lemma_first_in_table_stable(q, i + 1, EFFECT_TABLE_LEN as int);
}

/// Position of an effect in the display table; -1 for the effects it omits.
spec fn table_position(e: Effect) -> int {
    match e {
        Effect::Rainbow => 0,
        Effect::RainbowMorph => 1,
        Effect::StaticColor => 2,
        Effect::Breathing => 3,
        Effect::Runway => 4,
        Effect::Meteor => 5,
        Effect::Twinkle => 6,
        Effect::ColorCycle => 7,
        Effect::Mixing => 8,
        Effect::Tide => 9,
        Effect::ElectricCurrent => 10,
        Effect::Reflect => 11,
        Effect::GradientRibbon => 12,
        Effect::Disco => 13,
        Effect::Warning => 14,
        Effect::MopUp => 15,
        Effect::Hourglass => 16,
        Effect::Taichi => 17,
        Effect::MeteorRainbow => 18,
        Effect::ColorfulMeteor => 19,
        Effect::Lottery => 20,
        Effect::Scan => 21,
        Effect::DoubleMeteor => 22,
        Effect::MeteorContest => 23,
        Effect::MeteorMix => 24,
        Effect::ReturnArc => 25,
        Effect::DoubleArc => 26,
        Effect::Door => 27,
        Effect::HeartBeat => 28,
        Effect::HeartBeatRunway => 29,
        Effect::Wing => 30,
        Effect::Drumming => 31,
        Effect::Boomerang => 32,
        Effect::CandyBox => 33,
        Effect::Staggered => 34,
        Effect::Render => 35,
        Effect::PingPong => 36,
        Effect::Stack => 37,
        Effect::Ripple => 38,
        Effect::Collide => 39,
        Effect::Endless => 40,
        Effect::River => 41,
        Effect::Duel => 42,
        Effect::Pioneer => 43,
        Effect::ShuttleRun => 44,
        Effect::Pump => 45,
        Effect::Bounce => 46,
        _ => -1,
    }
}

proof fn lemma_table_positions()
    ensures
        forall|i: int|
            0 <= i < EFFECT_TABLE_LEN ==> table_position((#[trigger] effect_table()[i]).0) == i,
{
    assert forall|i: int| 0 <= i < EFFECT_TABLE_LEN implies table_position(
        (#[trigger] effect_table()[i]).0,
    ) == i by {
        // One case per position, so that each entry is read at a known index.
        if i == 0 {
        } else if i == 1 {
        } else if i == 2 {
        } else if i == 3 {
        } else if i == 4 {
        } else if i == 5 {
        } else if i == 6 {
        } else if i == 7 {
        } else if i == 8 {
        } else if i == 9 {
        } else if i == 10 {
        } else if i == 11 {
        } else if i == 12 {
        } else if i == 13 {
        } else if i == 14 {
        } else if i == 15 {
        } else if i == 16 {
        } else if i == 17 {
        } else if i == 18 {
        } else if i == 19 {
        } else if i == 20 {
        } else if i == 21 {
        } else if i == 22 {
        } else if i == 23 {
        } else if i == 24 {
        } else if i == 25 {
        } else if i == 26 {
        } else if i == 27 {
        } else if i == 28 {
        } else if i == 29 {
        } else if i == 30 {
        } else if i == 31 {
        } else if i == 32 {
        } else if i == 33 {
        } else if i == 34 {
        } else if i == 35 {
        } else if i == 36 {
        } else if i == 37 {
        } else if i == 38 {
        } else if i == 39 {
        } else if i == 40 {
        } else if i == 41 {
        } else if i == 42 {
        } else if i == 43 {
        } else if i == 44 {
        } else if i == 45 {
        } else if i == 46 {
        }
    }
}

/// The display name of a table effect is its table name, and looking that
/// name up gives the effect back.
pub proof fn law_display_name_roundtrip(i: int)
    requires
        0 <= i < EFFECT_TABLE_LEN,
    ensures
        display_name_spec(effect_table()[i].0) == effect_table()[i].1,
        effect_by_name_spec(display_name_spec(effect_table()[i].0)@) == Some(effect_table()[i].0),
{
    lemma_table_positions();
    let e = effect_table()[i].0;
    let p = is_effect(e);
    assert forall|j: int| 0 <= j < i implies !p(#[trigger] effect_table()[j]) by {
        assert(table_position(effect_table()[j].0) == j);
    }
    lemma_none_before(p, i);
    lemma_first_in_table_stable(p, i + 1, EFFECT_TABLE_LEN as int);
    law_effect_name_lookup(i);
}

/// The display names: 47 of them, pairwise different even up to ASCII
/// case, the first `Rainbow` and the last `Bounce`; each looks up to its
/// own table effect, whose display name it is; none belongs to Voice or
/// the hub-only effects the table omits.
pub proof fn law_display_names(names: Seq<&'static str>)
    requires
        names == effect_table().map_values(|x: (Effect, &'static str)| x.1),
    ensures
        names.len() == EFFECT_TABLE_LEN,
        names[0] == "Rainbow",
        names[EFFECT_TABLE_LEN - 1] == "Bounce",
        forall|i: int, j: int|
            0 <= i < j < EFFECT_TABLE_LEN ==> !eq_ascii_ci(#[trigger] names[i]@, #[trigger] names[j]@),
        forall|i: int|
            0 <= i < EFFECT_TABLE_LEN ==> effect_by_name_spec((#[trigger] names[i])@) == Some(
                effect_table()[i].0,
            ) && display_name_spec(effect_table()[i].0) == names[i],
        forall|i: int|
            0 <= i < EFFECT_TABLE_LEN ==> {
                let e = (#[trigger] effect_table()[i]).0;
                e != Effect::Voice && e != Effect::CoverCycle && e != Effect::Wave && e
                    != Effect::MeteorShower && e != Effect::Paint && e != Effect::Snooker && e
                    != Effect::BlowUp
            },
{
    lemma_table_fingerprints();
    lemma_table_positions();
    assert forall|i: int, j: int|
        0 <= i < j < EFFECT_TABLE_LEN implies !eq_ascii_ci(#[trigger] names[i]@, #[trigger] names[j]@) by {
        assert(names[i] == effect_table()[i].1);
        assert(names[j] == effect_table()[j].1);
        if eq_ascii_ci(names[i]@, names[j]@) {
            lemma_fingerprint_ci(names[i]@, names[j]@);
            assert(fingerprint_position(table_fingerprint(i)) == i);
            assert(fingerprint_position(table_fingerprint(j)) == j);
        }
    }
    assert forall|i: int| 0 <= i < EFFECT_TABLE_LEN implies effect_by_name_spec(
        (#[trigger] names[i])@,
    ) == Some(effect_table()[i].0) && display_name_spec(effect_table()[i].0) == names[i] by {
        law_display_name_roundtrip(i);
    }
    assert forall|i: int| 0 <= i < EFFECT_TABLE_LEN implies {
        let e = (#[trigger] effect_table()[i]).0;
        e != Effect::Voice && e != Effect::CoverCycle && e != Effect::Wave && e != Effect::MeteorShower
            && e != Effect::Paint && e != Effect::Snooker && e != Effect::BlowUp
    } by {
        assert(table_position(effect_table()[i].0) == i);
    }
    assert(effect_table()[0].1 == "Rainbow");
    assert(effect_table()[46].1 == "Bounce");
}

} // verus!
