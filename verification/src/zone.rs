//! A time zone that the database knows.

use vstd::prelude::*;
use crate::clock::{dst_offset_at, dst_seconds, known_zone, zone_is_known, MAX_PROBE, MIN_PROBE};

verus! {

/// A zone name that has been looked up and found.
#[derive(Debug)]
pub struct Zone {
    name: String,
}

impl View for Zone {
    type V = Seq<char>;

    /// The zone's name.
    closed spec fn view(&self) -> Seq<char> {
        self.name@
    }
}

impl Zone {
    #[verifier::type_invariant]
    spec fn is_known(&self) -> bool {
        known_zone(self.name@)
    }

    /// Looks the name up. `None` where the database has no such zone.
    pub fn resolve(name: &str) -> (zone: Option<Zone>)
        ensures
            zone.is_some() == known_zone(name@),
            zone matches Some(z) ==> z@ == name@,
    {
        if zone_is_known(name) {
            Some(Zone { name: name.to_owned() })
        } else {
            None
        }
    }

    /// The name under which the zone was found.
    pub fn name(&self) -> (name: &str)
        ensures
            name@ == self@,
            known_zone(name@),
    {
        proof {
            use_type_invariant(self);
        }
        self.name.as_str()
    }

    /// The DST component of the zone's offset at `utc_seconds`, in seconds.
    pub fn dst_at(&self, utc_seconds: i64) -> (dst: i64)
        requires
            MIN_PROBE <= utc_seconds <= MAX_PROBE,
        ensures
            dst_seconds(self@, utc_seconds as int) == Some(dst),
            known_zone(self@),
    {
        proof {
            use_type_invariant(self);
        }
        match dst_offset_at(self.name.as_str(), utc_seconds) {
            Some(dst) => dst,
            None => vstd::pervasive::unreached(),
        }
    }
}

} // verus!
