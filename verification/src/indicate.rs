//! Identify flashes: a group flashes white for a few seconds, after which
//! its previous lighting mode is restored. Re-indicating a group replaces
//! its pending restore, extending the flash. Time is a monotonic
//! millisecond counter supplied by the caller.

use vstd::prelude::*;

use crate::model::{GroupId, Rgb, Ring};
use crate::rgb::RgbMode;

verus! {

/// Shortest flash, in seconds.
pub const INDICATE_MIN_SECS: u32 = 1;

/// Longest flash, in seconds.
pub const INDICATE_MAX_SECS: u32 = 10;

/// A pending restore: at `deadline_ms` the group gets `mode` back.
#[derive(Clone, Debug)]
pub struct IndicateRestore {
    pub deadline_ms: u64,
    pub group: GroupId,
    pub mode: RgbMode,
}

/// Restores of other groups.
pub open spec fn for_other_group(g: GroupId) -> spec_fn(IndicateRestore) -> bool {
    |r: IndicateRestore| r.group != g
}

/// Restores not yet due at `now`.
pub open spec fn not_due(now: u64) -> spec_fn(IndicateRestore) -> bool {
    |r: IndicateRestore| now < r.deadline_ms
}

/// Restores due at `now`.
pub open spec fn due(now: u64) -> spec_fn(IndicateRestore) -> bool {
    |r: IndicateRestore| now >= r.deadline_ms
}

/// Flash length in seconds: the requested duration clamped to 1..=10.
pub open spec fn flash_secs(duration_secs: u32) -> int {
    if duration_secs < INDICATE_MIN_SECS {
        INDICATE_MIN_SECS as int
    } else if duration_secs > INDICATE_MAX_SECS {
        INDICATE_MAX_SECS as int
    } else {
        duration_secs as int
    }
}

/// The mode that identifies a group: both rings white at full brightness.
pub fn flash_mode() -> (m: RgbMode)
    ensures
        m == (RgbMode::Static { ring: Ring::Both, color: Rgb { r: 255, g: 255, b: 255 }, brightness: 255 }),
{
    RgbMode::Static { ring: Ring::Both, color: Rgb { r: 255, g: 255, b: 255 }, brightness: 255 }
}

/// Record that `group` flashes from `now_ms` for the requested duration
/// (clamped to 1..=10 s) and then gets `prev` back; a pending restore of
/// the same group is dropped.
pub fn schedule_restore(
    restores: &mut Vec<IndicateRestore>,
    now_ms: u64,
    group: GroupId,
    duration_secs: u32,
    prev: RgbMode,
)
    requires
        now_ms + INDICATE_MAX_SECS * 1000 <= u64::MAX,
    ensures
        final(restores)@ == old(restores)@.filter(for_other_group(group)).push(
            IndicateRestore { deadline_ms: (now_ms + flash_secs(duration_secs) * 1000) as u64, group, mode: prev },
        ),
{
    let secs: u64 = if duration_secs < INDICATE_MIN_SECS {
        INDICATE_MIN_SECS as u64
    } else if duration_secs > INDICATE_MAX_SECS {
        INDICATE_MAX_SECS as u64
    } else {
        duration_secs as u64
    };
    let ghost r0 = restores@;
    let mut rest: Vec<IndicateRestore> = Vec::new();
    std::mem::swap(&mut rest, restores);
    let ghost p = for_other_group(group);
    let mut i: usize = 0;
    let total = rest.len();
    proof {
        reveal(Seq::filter);
        assert(r0.subrange(0, 0) =~= Seq::<IndicateRestore>::empty());
        assert(rest@ =~= r0.subrange(0, r0.len() as int));
    }
    while rest.len() > 0
        invariant
            total == r0.len(),
            i <= r0.len(),
            rest@ == r0.subrange(i as int, r0.len() as int),
            restores@ == r0.subrange(0, i as int).filter(p),
            p == for_other_group(group),
        decreases rest@.len(),
    {
        let r = rest.remove(0);
        proof {
            reveal(Seq::filter);
            assert(r == r0[i as int]);
            assert(rest@ =~= r0.subrange(i + 1, r0.len() as int));
            assert(r0.subrange(0, i + 1).drop_last() =~= r0.subrange(0, i as int));
            assert(r0.subrange(0, i + 1).last() == r0[i as int]);
        }
        if r.group != group {
            restores.push(r);
        }
        i = i + 1;
    }
    proof {
        assert(r0.subrange(0, i as int) =~= r0);
    }
    restores.push(IndicateRestore { deadline_ms: now_ms + secs * 1000, group, mode: prev });
}

/// Remove and return the restores due at `now_ms`, in order; those not
/// yet due stay, in order.
pub fn take_due_restores(restores: &mut Vec<IndicateRestore>, now_ms: u64) -> (r: Vec<IndicateRestore>)
    ensures
        r@ == old(restores)@.filter(due(now_ms)),
        final(restores)@ == old(restores)@.filter(not_due(now_ms)),
{
    let ghost r0 = restores@;
    let mut rest: Vec<IndicateRestore> = Vec::new();
    std::mem::swap(&mut rest, restores);
    let ghost keep = not_due(now_ms);
    let ghost take = due(now_ms);
    let mut out: Vec<IndicateRestore> = Vec::new();
    let mut i: usize = 0;
    let total = rest.len();
    proof {
        reveal(Seq::filter);
        assert(r0.subrange(0, 0) =~= Seq::<IndicateRestore>::empty());
        assert(rest@ =~= r0.subrange(0, r0.len() as int));
    }
    while rest.len() > 0
        invariant
            total == r0.len(),
            i <= r0.len(),
            rest@ == r0.subrange(i as int, r0.len() as int),
            restores@ == r0.subrange(0, i as int).filter(keep),
            out@ == r0.subrange(0, i as int).filter(take),
            keep == not_due(now_ms),
            take == due(now_ms),
        decreases rest@.len(),
    {
        let r = rest.remove(0);
        proof {
            reveal(Seq::filter);
            assert(r == r0[i as int]);
            assert(rest@ =~= r0.subrange(i + 1, r0.len() as int));
            assert(r0.subrange(0, i + 1).drop_last() =~= r0.subrange(0, i as int));
            assert(r0.subrange(0, i + 1).last() == r0[i as int]);
        }
        if now_ms >= r.deadline_ms {
            out.push(r);
        } else {
            restores.push(r);
        }
        i = i + 1;
    }
    proof {
        assert(r0.subrange(0, i as int) =~= r0);
    }
    out
}

/// After a flash is scheduled, the group has exactly one pending restore:
/// the new one, last in the list.
pub proof fn law_single_restore_per_group(restores: Seq<IndicateRestore>, entry: IndicateRestore)
    ensures
        ({
            let after = restores.filter(for_other_group(entry.group)).push(entry);
            &&& after.last() == entry
            &&& forall|i: int| 0 <= i < after.len() - 1 ==> (#[trigger] after[i]).group != entry.group
        }),
{
    let kept = restores.filter(for_other_group(entry.group));
    assert forall|i: int| 0 <= i < kept.len() implies (#[trigger] kept[i]).group != entry.group by {
        restores.lemma_filter_pred(for_other_group(entry.group), i);
    }
    let after = kept.push(entry);
    assert forall|i: int| 0 <= i < after.len() - 1 implies (#[trigger] after[i]).group != entry.group by {
        assert(after[i] == kept[i]);
    }
}

/// Taking the due restores splits the pending ones: each is either handed
/// out or kept, none is lost or duplicated.
pub proof fn law_restores_partitioned(restores: Seq<IndicateRestore>, now: u64)
    ensures
        restores.filter(due(now)).len() + restores.filter(not_due(now)).len() == restores.len(),
    decreases restores.len(),
{
    reveal(Seq::filter);
    if restores.len() > 0 {
        law_restores_partitioned(restores.drop_last(), now);
    }
}

} // verus!
