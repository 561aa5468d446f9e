//! Power management runner — switches profiles based on AC/battery state.
//!
//! The power supply status comes from /sys/class/power_supply/; the caller
//! reads it and hands over one `PowerSupply` per supply entry. An AC adapter
//! that reports "online" means AC power; without one, a system with no
//! battery (a desktop) is also on AC.

use vstd::prelude::*;

verus! {

/// Commands the engine should execute on power state change.
#[derive(Debug)]
pub enum PowerCommand {
    SwitchProfile(String),
}

/// Profiles to switch to on AC and on battery power.
#[derive(Clone, Debug)]
pub struct PowerConfig {
    pub on_ac: Option<String>,
    pub on_battery: Option<String>,
}

/// One power supply entry: its trimmed `type` file and, for a supply whose
/// `online` file could be read, its trimmed content.
#[derive(Clone, Debug)]
pub struct PowerSupply {
    pub supply_type: String,
    pub online: Option<String>,
}

/// Monitors AC/battery state and triggers profile switches.
#[derive(Debug)]
pub struct PowerRunner {
    pub config: Option<PowerConfig>,
    pub last_on_ac: Option<bool>,
}

/// An AC adapter that reports being online.
pub open spec fn mains_online(s: PowerSupply) -> bool {
    s.supply_type@ == seq!['M', 'a', 'i', 'n', 's'] && s.online is Some && s.online->0@ == seq!['1']
}

/// A battery.
pub open spec fn is_battery(s: PowerSupply) -> bool {
    s.supply_type@ == seq!['B', 'a', 't', 't', 'e', 'r', 'y']
}

/// On AC power: no power-supply directory, an online AC adapter, or no battery.
pub open spec fn on_ac_spec(present: bool, supplies: Seq<PowerSupply>) -> bool {
    !present || (exists|i: int| 0 <= i < supplies.len() && mains_online(#[trigger] supplies[i]))
        || !(exists|i: int| 0 <= i < supplies.len() && is_battery(#[trigger] supplies[i]))
}

/// Whether the system is on AC power, from the power supply entries
/// (`present` is false when the power-supply directory is missing or unreadable).
pub fn on_ac_from_supplies(present: bool, supplies: &[PowerSupply]) -> (r: bool)
    ensures
        r == on_ac_spec(present, supplies@),
{
    if !present {
        return true;
    }
    let mains = "Mains".to_owned();
    let battery = "Battery".to_owned();
    let one = "1".to_owned();
    proof {
        reveal_strlit("Mains");
        reveal_strlit("Battery");
        reveal_strlit("1");
    }
    let mut has_battery = false;
    let mut i: usize = 0;
    while i < supplies.len()
        invariant
            i <= supplies@.len(),
            mains@ == seq!['M', 'a', 'i', 'n', 's'],
            battery@ == seq!['B', 'a', 't', 't', 'e', 'r', 'y'],
            one@ == seq!['1'],
            forall|j: int| 0 <= j < i ==> !mains_online(#[trigger] supplies@[j]),
            has_battery == exists|j: int| 0 <= j < i && is_battery(#[trigger] supplies@[j]),
        decreases supplies@.len() - i,
    {
        let s = &supplies[i];
        if s.supply_type == mains {
            match &s.online {
                Some(v) => {
                    if *v == one {
                        assert(mains_online(supplies@[i as int]));
                        return true;
                    }
                },
                None => {},
            }
            assert(!is_battery(supplies@[i as int]));
        } else if s.supply_type == battery {
            assert(is_battery(supplies@[i as int]));
            has_battery = true;
        }
        assert(!mains_online(supplies@[i as int]));
        i = i + 1;
    }
    !has_battery
}

impl PowerRunner {
    pub fn new() -> (r: PowerRunner)
        ensures
            r.config is None,
            r.last_on_ac is None,
    {
        PowerRunner { config: None, last_on_ac: None }
    }

    pub fn set_config(&mut self, config: PowerConfig)
        ensures
            final(self).config == Some(config),
            final(self).last_on_ac == old(self).last_on_ac,
    {
        self.config = Some(config);
    }

    /// Given the current power state, return a command if it changed and
    /// the configuration names a profile for the new state. Nothing happens
    /// without a configuration.
    pub fn evaluate(&mut self, on_ac: bool) -> (r: Option<PowerCommand>)
        ensures
            final(self).config == old(self).config,
            old(self).config is None ==> r is None && final(self).last_on_ac == old(
                self,
            ).last_on_ac,
            old(self).config is Some ==> final(self).last_on_ac == Some(on_ac),
            old(self).config is Some && old(self).last_on_ac == Some(on_ac) ==> r is None,
            old(self).config is Some && old(self).last_on_ac != Some(on_ac) ==> ({
                let profile = if on_ac {
                    old(self).config->0.on_ac
                } else {
                    old(self).config->0.on_battery
                };
                match profile {
                    Some(name) => r == Some(PowerCommand::SwitchProfile(name)),
                    None => r is None,
                }
            }),
    {
        match &self.config {
            None => None,
            Some(config) => {
                let changed = match self.last_on_ac {
                    Some(v) => v != on_ac,
                    None => true,
                };
                if !changed {
                    return None;
                }
                let profile = if on_ac {
                    &config.on_ac
                } else {
                    &config.on_battery
                };
                let r = match profile {
                    Some(name) => Some(PowerCommand::SwitchProfile(name.clone())),
                    None => None,
                };
                self.last_on_ac = Some(on_ac);
                r
            },
        }
    }

    pub fn is_active(&self) -> (r: bool)
        ensures
            r == self.config is Some,
    {
        self.config.is_some()
    }

    /// The last observed AC power state (true = AC, false = battery);
    /// true (the desktop assumption) if never evaluated.
    pub fn is_on_ac(&self) -> (r: bool)
        ensures
            r == match self.last_on_ac {
                Some(v) => v,
                None => true,
            },
    {
        match self.last_on_ac {
            Some(v) => v,
            None => true,
        }
    }
}

} // verus!
