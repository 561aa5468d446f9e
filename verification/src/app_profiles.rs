//! App profile runner — auto-switches profiles based on the focused application.
//!
//! The caller finds the focused application's process name; the runner
//! compares it against configured app-profile mappings (case-insensitive
//! substring match) and says when the active profile should change.

use vstd::prelude::*;

use crate::text::{contains_text, lowercase, occurs_in, to_lower};

verus! {

/// Maps an application name (matched as a substring) to a profile.
#[derive(Clone, Debug)]
pub struct AppProfile {
    pub app_name: String,
    pub profile: String,
}

/// Monitors the focused application and triggers profile switches.
#[derive(Debug)]
pub struct AppProfileRunner {
    pub profiles: Vec<AppProfile>,
    pub last_matched: Option<String>,
}

/// Commands the engine should execute when an app profile matches.
#[derive(Debug)]
pub enum AppProfileCommand {
    SwitchProfile(String),
}

/// The profile matches the focused application name.
pub open spec fn profile_matches(p: AppProfile, focused: Seq<char>) -> bool {
    occurs_in(lowercase(focused), lowercase(p.app_name@))
}

/// Index of the first profile that matches, if any.
pub open spec fn first_match(ps: Seq<AppProfile>, focused: Seq<char>) -> Option<int>
    decreases ps.len(),
{
    if ps.len() == 0 {
        None
    } else {
        match first_match(ps.drop_last(), focused) {
            Some(i) => Some(i),
            None => if profile_matches(ps.last(), focused) {
                Some(ps.len() - 1)
            } else {
                None
            },
        }
    }
}

/// Index of the first needle that occurs in `hay`, if any.
pub open spec fn first_occurring(needles: Seq<Seq<char>>, hay: Seq<char>) -> Option<int>
    decreases needles.len(),
{
    if needles.len() == 0 {
        None
    } else {
        match first_occurring(needles.drop_last(), hay) {
            Some(i) => Some(i),
            None => if occurs_in(hay, needles.last()) {
                Some(needles.len() - 1)
            } else {
                None
            },
        }
    }
}

/// The profiles' application names in lower case.
pub open spec fn lowered_names(ps: Seq<AppProfile>) -> Seq<Seq<char>> {
    ps.map_values(|p: AppProfile| lowercase(p.app_name@))
}

proof fn lemma_first_match_lowered(ps: Seq<AppProfile>, focused: Seq<char>)
    ensures
        first_match(ps, focused) == first_occurring(lowered_names(ps), lowercase(focused)),
    decreases ps.len(),
{
    if ps.len() > 0 {
        lemma_first_match_lowered(ps.drop_last(), focused);
        assert(lowered_names(ps).drop_last() =~= lowered_names(ps.drop_last()));
    }
}

/// Index of the first lower-case application name that occurs in the
/// lower-case name `hay` of the focused application.
pub fn find_lowered(needles: &Vec<String>, hay: &str) -> (r: Option<usize>)
    ensures
        match r {
            Some(i) => first_occurring(needles@.map_values(|n: String| n@), hay@) == Some(i as int),
            None => first_occurring(needles@.map_values(|n: String| n@), hay@) is None,
        },
{
    let ghost all = needles@.map_values(|n: String| n@);
    let mut i: usize = 0;
    while i < needles.len()
        invariant
            i <= needles@.len(),
            all == needles@.map_values(|n: String| n@),
            first_occurring(all.subrange(0, i as int), hay@) is None,
        decreases needles@.len() - i,
    {
        let ghost pre = all.subrange(0, i as int);
        let ghost next = all.subrange(0, i + 1);
        assert(next.drop_last() =~= pre);
        assert(next.last() == needles@[i as int]@);
        if contains_text(hay, needles[i].as_str()) {
            proof {
                lemma_first_occurring_prefix(all, hay@, i as int + 1);
            }
            return Some(i);
        }
        i = i + 1;
    }
    assert(all.subrange(0, i as int) =~= all);
    None
}

proof fn lemma_first_occurring_prefix(ns: Seq<Seq<char>>, hay: Seq<char>, n: int)
    requires
        0 <= n <= ns.len(),
        first_occurring(ns.subrange(0, n), hay) is Some,
    ensures
        first_occurring(ns, hay) == first_occurring(ns.subrange(0, n), hay),
    decreases ns.len(),
{
    if n < ns.len() {
        assert(ns.drop_last().subrange(0, n) =~= ns.subrange(0, n));
        lemma_first_occurring_prefix(ns.drop_last(), hay, n);
    } else {
        assert(ns.subrange(0, n) =~= ns);
    }
}

/// Index of the first profile whose application name occurs,
/// case-insensitively, in the focused application's name.
pub fn find_app_profile(profiles: &[AppProfile], focused: &str) -> (r: Option<usize>)
    ensures
        match r {
            Some(i) => first_match(profiles@, focused@) == Some(i as int),
            None => first_match(profiles@, focused@) is None,
        },
{
    let hay = to_lower(focused);
    let mut needles: Vec<String> = Vec::new();
    let mut i: usize = 0;
    while i < profiles.len()
        invariant
            i <= profiles@.len(),
            needles@.map_values(|n: String| n@) =~= lowered_names(profiles@.subrange(0, i as int)),
        decreases profiles@.len() - i,
    {
        let lowered = to_lower(profiles[i].app_name.as_str());
        let ghost before = needles@;
        needles.push(lowered);
        proof {
            assert(needles@ =~= before.push(lowered));
            assert(needles@.map_values(|n: String| n@) =~= before.map_values(|n: String| n@).push(lowered@));
            assert(profiles@.subrange(0, i + 1) =~= profiles@.subrange(0, i as int).push(profiles@[i as int]));
        }
        i = i + 1;
    }
    proof {
        assert(profiles@.subrange(0, i as int) =~= profiles@);
        lemma_first_match_lowered(profiles@, focused@);
    }
    find_lowered(&needles, hay.as_str())
}

impl AppProfileRunner {
    pub fn new() -> (r: AppProfileRunner)
        ensures
            r.profiles@.len() == 0,
            r.last_matched is None,
    {
        AppProfileRunner { profiles: Vec::new(), last_matched: None }
    }

    /// Load app profile mappings from config.
    pub fn load(&mut self, profiles: Vec<AppProfile>)
        ensures
            final(self).profiles@ == profiles@,
            final(self).last_matched == old(self).last_matched,
    {
        self.profiles = profiles;
    }

    /// Act on the result of a profile search: switch to the matched
    /// profile unless it is the one switched to last; forget the last
    /// match when nothing matches.
    pub fn apply_match(&mut self, matched: Option<usize>) -> (r: Option<AppProfileCommand>)
        requires
            matched matches Some(i) ==> i < old(self).profiles@.len(),
        ensures
            final(self).profiles@ == old(self).profiles@,
            matched is None ==> r is None && final(self).last_matched is None,
            matched matches Some(i) ==> ({
                let p = old(self).profiles@[i as int].profile;
                if old(self).last_matched matches Some(l) && l@ == p@ {
                    r is None && final(self).last_matched == old(self).last_matched
                } else {
                    r == Some(AppProfileCommand::SwitchProfile(p)) && final(self).last_matched
                        == Some(p)
                }
            }),
    {
        match matched {
            None => {
                self.last_matched = None;
                None
            },
            Some(i) => {
                let profile = &self.profiles[i].profile;
                let same = match &self.last_matched {
                    Some(l) => *l == *profile,
                    None => false,
                };
                if same {
                    None
                } else {
                    let p = profile.clone();
                    self.last_matched = Some(profile.clone());
                    Some(AppProfileCommand::SwitchProfile(p))
                }
            },
        }
    }

    /// Evaluate the focused application (its process name, if one was
    /// found) against the configured profiles. Returns a command if the
    /// active profile should change; nothing happens without profiles.
    pub fn evaluate(&mut self, focused: Option<String>) -> (r: Option<AppProfileCommand>)
        ensures
            final(self).profiles@ == old(self).profiles@,
            old(self).profiles@.len() == 0 ==> r is None && final(self).last_matched == old(
                self,
            ).last_matched,
            old(self).profiles@.len() > 0 ==> ({
                let name = match focused {
                    Some(s) => s@,
                    None => Seq::<char>::empty(),
                };
                match first_match(old(self).profiles@, name) {
                    None => r is None && final(self).last_matched is None,
                    Some(i) => {
                        let p = old(self).profiles@[i].profile;
                        if old(self).last_matched matches Some(l) && l@ == p@ {
                            r is None && final(self).last_matched == old(self).last_matched
                        } else {
                            r == Some(AppProfileCommand::SwitchProfile(p))
                                && final(self).last_matched == Some(p)
                        }
                    },
                }
            }),
    {
        if self.profiles.len() == 0 {
            return None;
        }
        let name = match focused {
            Some(s) => s,
            None => String::new(),
        };
        let matched = find_app_profile(self.profiles.as_slice(), name.as_str());
        proof {
            if let Some(i) = first_match(self.profiles@, name@) {
                lemma_first_match_bound(self.profiles@, name@);
            }
        }
        self.apply_match(matched)
    }

    pub fn is_active(&self) -> (r: bool)
        ensures
            r == (self.profiles@.len() > 0),
    {
        self.profiles.len() > 0
    }
}

proof fn lemma_first_match_bound(ps: Seq<AppProfile>, focused: Seq<char>)
    ensures
        first_match(ps, focused) matches Some(i) ==> 0 <= i < ps.len(),
    decreases ps.len(),
{
    if ps.len() > 0 {
        lemma_first_match_bound(ps.drop_last(), focused);
    }
}

} // verus!
