//! How often a backup runs, and the choices of frequency that the schedule page offers.

use vstd::prelude::*;

verus! {

/// A day of the week.
#[derive(Clone, Copy, Debug, PartialEq, Eq, Structural)]
pub enum Weekday {
    Mon,
    Tue,
    Wed,
    Thu,
    Fri,
    Sat,
    Sun,
}

/// A time of day.
#[derive(Clone, Copy, Debug, PartialEq, Eq, Structural)]
pub struct TimeOfDay {
    pub hour: u32,
    pub minute: u32,
    pub second: u32,
}

/// How often a backup runs.
#[derive(Clone, Copy, Debug, PartialEq, Eq, Structural)]
pub enum Frequency {
    Hourly,
    Daily { preferred_time: TimeOfDay },
    Weekly { preferred_weekday: Weekday },
    Monthly { preferred_day: u8 },
}

/// When a configuration is backed up on its own.
#[derive(Clone, Copy, Debug, PartialEq, Eq, Structural)]
pub struct Schedule {
    /// Backups run on their own.
    pub enabled: bool,
    pub frequency: Frequency,
}

/// The schedule of a new configuration: no scheduled backups; when enabled, daily at midnight.
pub open spec fn default_schedule() -> Schedule {
    Schedule {
        enabled: false,
        frequency: Frequency::Daily { preferred_time: TimeOfDay { hour: 0, minute: 0, second: 0 } },
    }
}

impl Default for Schedule {
    fn default() -> (r: Self)
        ensures
            r == default_schedule(),
    {
        Schedule {
            enabled: false,
            frequency: Frequency::Daily { preferred_time: TimeOfDay { hour: 0, minute: 0, second: 0 } },
        }
    }
}

/// The frequencies to choose from, each with its default preference: hourly, daily at
/// midnight, weekly on Monday, monthly on the first.
pub fn list() -> (r: Vec<Frequency>)
    ensures
        r@ == seq![
            Frequency::Hourly,
            Frequency::Daily { preferred_time: TimeOfDay { hour: 0, minute: 0, second: 0 } },
            Frequency::Weekly { preferred_weekday: Weekday::Mon },
            Frequency::Monthly { preferred_day: 1 },
        ],
{
    let mut r = Vec::new();
    r.push(Frequency::Hourly);
    r.push(Frequency::Daily { preferred_time: TimeOfDay { hour: 0, minute: 0, second: 0 } });
    r.push(Frequency::Weekly { preferred_weekday: Weekday::Mon });
    r.push(Frequency::Monthly { preferred_day: 1 });
    r
}

} // verus!
