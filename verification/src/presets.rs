//! The LCD animation presets found on disk: one directory per preset under
//! a directory per category, listed by category and then by name.

use vstd::prelude::*;

use crate::lcd::{LcdPreset, LcdPresetCategory};
use crate::text::chars_of;

verus! {

/// Fields read from a preset's `meta.json`; each is `None` when it is
/// missing or not of the expected kind.
pub struct PresetMeta {
    pub name: Option<String>,
    pub fps: Option<u64>,
    pub frame_count: Option<u64>,
}

/// What was read from one preset directory.
pub struct PresetDir {
    /// The directory's name.
    pub dir_name: String,
    /// Its `meta.json`, `None` when missing or not valid JSON.
    pub meta: Option<PresetMeta>,
    /// Number of image files (jpg, jpeg, png) in it.
    pub frame_files: usize,
    /// Thumbnail of its first frame, empty when none could be made.
    pub thumbnail: Vec<u8>,
}

/// The preset categories, in listing order.
pub fn preset_categories() -> (r: [LcdPresetCategory; 5])
    ensures
        r@ == seq![
            LcdPresetCategory::Cooler,
            LcdPresetCategory::Fan,
            LcdPresetCategory::Led,
            LcdPresetCategory::Ga2v,
            LcdPresetCategory::Legacy,
        ],
{
    let r = [
        LcdPresetCategory::Cooler,
        LcdPresetCategory::Fan,
        LcdPresetCategory::Led,
        LcdPresetCategory::Ga2v,
        LcdPresetCategory::Legacy,
    ];
    assert(r@ =~= seq![
        LcdPresetCategory::Cooler,
        LcdPresetCategory::Fan,
        LcdPresetCategory::Led,
        LcdPresetCategory::Ga2v,
        LcdPresetCategory::Legacy,
    ]);
    r
}

/// Name of a category's directory under the presets directory.
pub open spec fn category_dir_name(c: LcdPresetCategory) -> &'static str {
    match c {
        LcdPresetCategory::Cooler => "cooler",
        LcdPresetCategory::Fan => "fan",
        LcdPresetCategory::Led => "led",
        LcdPresetCategory::Ga2v => "ga2v",
        LcdPresetCategory::Legacy => "legacy",
    }
}

/// Name of a category's directory under the presets directory.
pub fn category_dir(c: LcdPresetCategory) -> (r: &'static str)
    ensures
        r == category_dir_name(c),
{
    match c {
        LcdPresetCategory::Cooler => "cooler",
        LcdPresetCategory::Fan => "fan",
        LcdPresetCategory::Led => "led",
        LcdPresetCategory::Ga2v => "ga2v",
        LcdPresetCategory::Legacy => "legacy",
    }
}

/// `a` comes strictly before `b` in the order of `String`: character by
/// character by code point, a proper prefix first.
pub open spec fn text_lt(a: Seq<char>, b: Seq<char>) -> bool
    decreases a.len(),
{
    if b.len() == 0 {
        false
    } else if a.len() == 0 {
        true
    } else if a[0] != b[0] {
        (a[0] as u32) < (b[0] as u32)
    } else {
        text_lt(a.drop_first(), b.drop_first())
    }
}

proof fn lemma_text_lt_skip(a: Seq<char>, b: Seq<char>, i: int)
    requires
        0 <= i <= a.len(),
        i <= b.len(),
        a.subrange(0, i) == b.subrange(0, i),
    ensures
        text_lt(a, b) == text_lt(a.subrange(i, a.len() as int), b.subrange(i, b.len() as int)),
    decreases i,
{
    if i > 0 {
        assert(a[0] == a.subrange(0, i)[0]);
        assert(b[0] == b.subrange(0, i)[0]);
        let a1 = a.drop_first();
        let b1 = b.drop_first();
        assert(a1.subrange(0, i - 1) =~= a.subrange(1, i));
        assert(b1.subrange(0, i - 1) =~= b.subrange(1, i));
        assert(a.subrange(1, i) =~= a.subrange(0, i).drop_first());
        assert(b.subrange(1, i) =~= b.subrange(0, i).drop_first());
        lemma_text_lt_skip(a1, b1, i - 1);
        assert(a1.subrange(i - 1, a1.len() as int) =~= a.subrange(i, a.len() as int));
        assert(b1.subrange(i - 1, b1.len() as int) =~= b.subrange(i, b.len() as int));
    } else {
        assert(a.subrange(0, a.len() as int) =~= a);
        assert(b.subrange(0, b.len() as int) =~= b);
    }
}

/// Whether `a` comes strictly before `b` in the order of `String`.
pub fn text_less(a: &str, b: &str) -> (r: bool)
    ensures
        r == text_lt(a@, b@),
{
    let x = chars_of(a);
    let y = chars_of(b);
    let mut i: usize = 0;
    while i < x.len() && i < y.len()
        invariant
            x@ == a@,
            y@ == b@,
            i <= x@.len(),
            i <= y@.len(),
            x@.subrange(0, i as int) == y@.subrange(0, i as int),
        decreases x@.len() - i,
    {
        if x[i] != y[i] {
            proof {
                lemma_text_lt_skip(x@, y@, i as int);
                assert(x@.subrange(i as int, x@.len() as int)[0] == x@[i as int]);
                assert(y@.subrange(i as int, y@.len() as int)[0] == y@[i as int]);
            }
            return (x[i] as u32) < (y[i] as u32);
        }
        proof {
            assert(x@.subrange(0, i + 1) =~= x@.subrange(0, i as int).push(x@[i as int]));
            assert(y@.subrange(0, i + 1) =~= y@.subrange(0, i as int).push(y@[i as int]));
        }
        i = i + 1;
    }
    proof {
        lemma_text_lt_skip(x@, y@, i as int);
    }
    i < y.len()
}

/// `s` with `x` put before its first entry whose name comes after `x`'s.
pub open spec fn insert_by_name(s: Seq<PresetDir>, x: PresetDir) -> Seq<PresetDir>
    decreases s.len(),
{
    if s.len() == 0 {
        seq![x]
    } else if text_lt(x.dir_name@, s[0].dir_name@) {
        seq![x] + s
    } else {
        seq![s[0]] + insert_by_name(s.drop_first(), x)
    }
}

/// The directories sorted by name; directories of equal names keep their order.
pub open spec fn sorted_by_name(s: Seq<PresetDir>) -> Seq<PresetDir>
    decreases s.len(),
{
    if s.len() == 0 {
        s
    } else {
        insert_by_name(sorted_by_name(s.drop_last()), s.last())
    }
}

proof fn lemma_insert_at(s: Seq<PresetDir>, x: PresetDir, p: int)
    requires
        0 <= p <= s.len(),
        forall|k: int| 0 <= k < p ==> !text_lt(x.dir_name@, (#[trigger] s[k]).dir_name@),
        p < s.len() ==> text_lt(x.dir_name@, s[p].dir_name@),
    ensures
        insert_by_name(s, x) == s.subrange(0, p).push(x) + s.subrange(p, s.len() as int),
    decreases p,
{
    if p == 0 {
        if s.len() == 0 {
            assert(s.subrange(0, 0).push(x) + s.subrange(0, 0) =~= seq![x]);
        } else {
            assert(s.subrange(0, 0).push(x) + s.subrange(0, s.len() as int) =~= seq![x] + s);
        }
    } else {
        let t = s.drop_first();
        assert forall|k: int| 0 <= k < p - 1 implies !text_lt(x.dir_name@, (#[trigger] t[k]).dir_name@) by {
            assert(t[k] == s[k + 1]);
        }
        if p < s.len() {
            assert(t[p - 1] == s[p]);
        }
        assert(!text_lt(x.dir_name@, s[0].dir_name@));
        lemma_insert_at(t, x, p - 1);
        assert(seq![s[0]] + (t.subrange(0, p - 1).push(x) + t.subrange(p - 1, t.len() as int))
            =~= s.subrange(0, p).push(x) + s.subrange(p, s.len() as int));
    }
}

/// Sorts the directories by name; directories of equal names keep their order.
pub fn sort_by_name(dirs: Vec<PresetDir>) -> (r: Vec<PresetDir>)
    ensures
        r@ == sorted_by_name(dirs@),
{
    let ghost orig = dirs@;
    let mut rest = dirs;
    let total = rest.len();
    let mut out: Vec<PresetDir> = Vec::new();
    let mut n: usize = 0;
    proof {
        assert(orig.subrange(0, 0) =~= Seq::<PresetDir>::empty());
    }
    while rest.len() > 0
        invariant
            n + rest@.len() == orig.len(),
            orig.len() == total,
            rest@ == orig.subrange(n as int, orig.len() as int),
            out@ == sorted_by_name(orig.subrange(0, n as int)),
        decreases rest@.len(),
    {
        let x = rest.remove(0);
        proof {
            assert(x == orig[n as int]);
        }
        let mut p: usize = 0;
        while p < out.len() && !text_less(x.dir_name.as_str(), out[p].dir_name.as_str())
            invariant
                p <= out@.len(),
                forall|k: int| 0 <= k < p ==> !text_lt(x.dir_name@, (#[trigger] out@[k]).dir_name@),
            decreases out@.len() - p,
        {
            p = p + 1;
        }
        let ghost before = out@;
        out.insert(p, x);
        proof {
            lemma_insert_at(before, x, p as int);
            assert(out@ =~= before.subrange(0, p as int).push(x) + before.subrange(p as int, before.len() as int));
            let pre = orig.subrange(0, n + 1);
            assert(pre.drop_last() =~= orig.subrange(0, n as int));
            assert(pre.last() == x);
            assert(rest@ =~= orig.subrange(n + 1, orig.len() as int));
        }
        n = n + 1;
    }
    proof {
        assert(orig.subrange(0, orig.len() as int) =~= orig);
    }
    out
}

/// Frame rate of a preset: the meta's, cut to a byte, else 24.
pub open spec fn meta_fps(d: PresetDir) -> u8 {
    match d.meta {
        Some(m) => match m.fps {
            Some(f) => f as u8,
            None => 24,
        },
        None => 24,
    }
}

/// Frame count a preset's meta gives, cut to 16 bits, else 0.
pub open spec fn meta_frames(d: PresetDir) -> u16 {
    match d.meta {
        Some(m) => match m.frame_count {
            Some(f) => f as u16,
            None => 0,
        },
        None => 0,
    }
}

/// Whether the meta gives a name that is not empty.
pub open spec fn has_meta_name(d: PresetDir) -> bool {
    d.meta matches Some(m) && m.name matches Some(n) && n@.len() > 0
}

/// The preset listed for a directory at position `index`: named by its meta
/// (else by the directory), with the meta's frame count (else the number of
/// image files, cut to 16 bits).
pub open spec fn preset_of(cat: LcdPresetCategory, index: u8, d: PresetDir) -> LcdPreset {
    LcdPreset {
        category: cat,
        index,
        name: if has_meta_name(d) {
            d.meta->0.name->0
        } else {
            d.dir_name
        },
        frame_count: if meta_frames(d) == 0 {
            d.frame_files as u16
        } else {
            meta_frames(d)
        },
        fps: meta_fps(d),
        thumbnail: d.thumbnail,
    }
}

pub(crate) fn preset_from(cat: LcdPresetCategory, index: u8, d: PresetDir) -> (p: LcdPreset)
    ensures
        p == preset_of(cat, index, d),
{
    let ghost d0 = d;
    let PresetDir { dir_name, meta, frame_files, thumbnail } = d;
    let (meta_name, fps, frames): (Option<String>, u8, u16) = match meta {
        Some(m) => {
            let fps: u8 = match m.fps {
                Some(f) => f as u8,
                None => 24,
            };
            let frames: u16 = match m.frame_count {
                Some(f) => f as u16,
                None => 0,
            };
            (m.name, fps, frames)
        },
        None => (None, 24, 0),
    };
    let name = match meta_name {
        Some(n) => if n.unicode_len() > 0 {
            n
        } else {
            dir_name
        },
        None => dir_name,
    };
    let frame_count: u16 = if frames == 0 {
        frame_files as u16
    } else {
        frames
    };
    LcdPreset { category: cat, index, name, frame_count, fps, thumbnail }
}

/// Position given to the `k`-th listed preset: `k`, held at 255.
pub open spec fn listed_index(k: int) -> u8 {
    if k < 255 {
        k as u8
    } else {
        255
    }
}

/// The directories of each category in listing order, each with its category.
pub open spec fn listing_entries(groups: Seq<(LcdPresetCategory, Vec<PresetDir>)>) -> Seq<(LcdPresetCategory, PresetDir)>
    decreases groups.len(),
{
    if groups.len() == 0 {
        Seq::empty()
    } else {
        let g = groups.last();
        listing_entries(groups.drop_last()) + sorted_by_name(g.1@).map_values(
            |d: PresetDir| (g.0, d),
        )
    }
}

/// The presets listed for the categories' directories: category by
/// category in the given order, each category's directories by name,
/// numbered from 0 (held at 255).
pub open spec fn listing(groups: Seq<(LcdPresetCategory, Vec<PresetDir>)>) -> Seq<LcdPreset> {
    let e = listing_entries(groups);
    Seq::new(e.len(), |k: int| preset_of(e[k].0, listed_index(k), e[k].1))
}

proof fn lemma_text_lt_irreflexive(a: Seq<char>)
    ensures
        !text_lt(a, a),
    decreases a.len(),
{
    if a.len() > 0 {
        lemma_text_lt_irreflexive(a.drop_first());
    }
}

proof fn lemma_text_lt_transitive(a: Seq<char>, b: Seq<char>, c: Seq<char>)
    requires
        text_lt(a, b),
        text_lt(b, c),
    ensures
        text_lt(a, c),
    decreases a.len(),
{
    if a.len() > 0 && a[0] == b[0] && b[0] == c[0] {
        lemma_text_lt_transitive(a.drop_first(), b.drop_first(), c.drop_first());
    }
}

/// Names in non-decreasing `String` order.
pub open spec fn names_ordered(s: Seq<PresetDir>) -> bool {
    forall|i: int, j: int| 0 <= i < j < s.len() ==> !text_lt((#[trigger] s[j]).dir_name@, (#[trigger] s[i]).dir_name@)
}

proof fn lemma_insert_ordered(s: Seq<PresetDir>, x: PresetDir)
    requires
        names_ordered(s),
    ensures
        names_ordered(insert_by_name(s, x)),
        insert_by_name(s, x).to_multiset() == s.to_multiset().insert(x),
    decreases s.len(),
{
    broadcast use vstd::seq_lib::group_to_multiset_ensures;
    broadcast use vstd::multiset::group_multiset_axioms;

    let r = insert_by_name(s, x);
    if s.len() == 0 {
        assert(r =~= Seq::<PresetDir>::empty().push(x));
    } else if text_lt(x.dir_name@, s[0].dir_name@) {
        assert(r =~= s.insert(0, x));
        assert forall|i: int, j: int| 0 <= i < j < r.len() implies !text_lt(
            (#[trigger] r[j]).dir_name@,
            (#[trigger] r[i]).dir_name@,
        ) by {
            if i == 0 {
                assert(r[j] == s[j - 1]);
                if text_lt(s[j - 1].dir_name@, x.dir_name@) {
                    lemma_text_lt_transitive(s[j - 1].dir_name@, x.dir_name@, s[0].dir_name@);
                    if j - 1 == 0 {
                        lemma_text_lt_irreflexive(s[0].dir_name@);
                    } else {
                        assert(!text_lt(s[j - 1].dir_name@, s[0].dir_name@));
                    }
                }
            } else {
                assert(r[i] == s[i - 1] && r[j] == s[j - 1]);
            }
        }
    } else {
        let rest = s.drop_first();
        assert forall|i: int, j: int| 0 <= i < j < rest.len() implies !text_lt(
            (#[trigger] rest[j]).dir_name@,
            (#[trigger] rest[i]).dir_name@,
        ) by {
            assert(rest[i] == s[i + 1] && rest[j] == s[j + 1]);
        }
        lemma_insert_ordered(rest, x);
        let r2 = insert_by_name(rest, x);
        assert(r =~= r2.insert(0, s[0]));
        assert(s =~= rest.insert(0, s[0]));
        assert(r.to_multiset() =~= s.to_multiset().insert(x));
        assert forall|i: int, j: int| 0 <= i < j < r.len() implies !text_lt(
            (#[trigger] r[j]).dir_name@,
            (#[trigger] r[i]).dir_name@,
        ) by {
            assert(r[j] == r2[j - 1]);
            if i == 0 {
                let e = r2[j - 1];
                assert(r2.contains(e));
                assert(r2.to_multiset().count(e) > 0);
                if e != x {
                    assert(rest.to_multiset().count(e) > 0);
                    assert(rest.contains(e));
                    let k = choose|k: int| 0 <= k < rest.len() && rest[k] == e;
                    assert(s[k + 1] == e);
                }
            } else {
                assert(r[i] == r2[i - 1]);
            }
        }
    }
}

/// Each category's presets are listed in name order, and none is lost or
/// added: the sorted directories are those given, in non-decreasing order
/// of their names.
pub proof fn law_presets_in_name_order(s: Seq<PresetDir>)
    ensures
        names_ordered(sorted_by_name(s)),
        sorted_by_name(s).to_multiset() == s.to_multiset(),
    decreases s.len(),
{
    broadcast use vstd::seq_lib::group_to_multiset_ensures;

    if s.len() > 0 {
        law_presets_in_name_order(s.drop_last());
        lemma_insert_ordered(sorted_by_name(s.drop_last()), s.last());
        assert(s =~= s.drop_last().push(s.last()));
    }
}


} // verus!
