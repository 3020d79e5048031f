//! What is kept of a resolved zone: its name and the two transitions as the
//! zone's wall clock shows them.

use vstd::prelude::*;
use crate::clock::{format_local, known_zone, local_text, MAX_PROBE, MIN_PROBE};
use crate::resolve::{ResolutionError, TransitionPair};

verus! {

/// One zone's entry, ready to be stored.
#[derive(Clone, Debug, PartialEq, Eq)]
pub struct ChangeRecord {
    pub zone_name: String,
    pub next_dst_change: String,
    pub second_dst_change: String,
}

impl View for ChangeRecord {
    type V = (Seq<char>, Seq<char>, Seq<char>);

    /// The name and the two texts.
    open spec fn view(&self) -> (Seq<char>, Seq<char>, Seq<char>) {
        (self.zone_name@, self.next_dst_change@, self.second_dst_change@)
    }
}

impl ChangeRecord {
    /// The record of the named zone with these two texts.
    pub open spec fn is(&self, zone: Seq<char>, next: Seq<char>, second: Seq<char>) -> bool {
        &&& self.zone_name@ == zone
        &&& self.next_dst_change@ == next
        &&& self.second_dst_change@ == second
    }

    /// Puts a record together from the name and the two texts, where both
    /// texts are there.
    pub fn assemble(zone_name: &str, next: Option<String>, second: Option<String>) -> (record: Option<
        ChangeRecord,
    >)
        ensures
            match (next, second) {
                (Some(a), Some(b)) => record matches Some(r) && r.is(zone_name@, a@, b@),
                _ => record.is_none(),
            },
    {
        match (next, second) {
            (Some(a), Some(b)) => Some(
                ChangeRecord {
                    zone_name: zone_name.to_owned(),
                    next_dst_change: a,
                    second_dst_change: b,
                },
            ),
            _ => None,
        }
    }
}

/// The two texts of a record: the local wall-clock time of each instant.
pub open spec fn record_texts(zone: Seq<char>, first: int, second: int) -> Option<
    (Seq<char>, Seq<char>),
> {
    match (local_text(zone, first), local_text(zone, second)) {
        (Some(a), Some(b)) => Some((a, b)),
        _ => None,
    }
}

/// The record of a pair. `None` where the pair's zone is unknown or one of its
/// instants cannot be represented, which no pair that a resolution gave does.
pub fn record_of(pair: &TransitionPair) -> (record: Option<ChangeRecord>)
    ensures
        match record_texts(pair.zone_name@, pair.first.instant as int, pair.second.instant as int) {
            Some((a, b)) => record matches Some(r) && r.is(pair.zone_name@, a, b),
            None => record.is_none(),
        },
        known_zone(pair.zone_name@) && MIN_PROBE <= pair.first.instant <= MAX_PROBE && MIN_PROBE
            <= pair.second.instant <= MAX_PROBE ==> record.is_some(),
{
    let next = format_local(pair.zone_name.as_str(), pair.first.instant);
    let second = format_local(pair.zone_name.as_str(), pair.second.instant);
    ChangeRecord::assemble(pair.zone_name.as_str(), next, second)
}

/// What is kept of one outcome: the record of a pair whose two texts exist,
/// nothing of a failure.
pub open spec fn kept(outcome: Result<TransitionPair, ResolutionError>) -> Option<
    (Seq<char>, Seq<char>, Seq<char>),
> {
    match outcome {
        Ok(pair) => match record_texts(
            pair.zone_name@,
            pair.first.instant as int,
            pair.second.instant as int,
        ) {
            Some((a, b)) => Some((pair.zone_name@, a, b)),
            None => None,
        },
        Err(_) => None,
    }
}

/// What is kept of a batch: of each outcome in turn what `kept` gives.
pub open spec fn kept_of_all(outcomes: Seq<Result<TransitionPair, ResolutionError>>) -> Seq<
    (Seq<char>, Seq<char>, Seq<char>),
>
    decreases outcomes.len(),
{
    if outcomes.len() == 0 {
        Seq::empty()
    } else {
        let before = kept_of_all(outcomes.drop_last());
        match kept(outcomes.last()) {
            Some(record) => before.push(record),
            None => before,
        }
    }
}

/// The records' names and texts, in order.
pub open spec fn views(records: Seq<ChangeRecord>) -> Seq<(Seq<char>, Seq<char>, Seq<char>)> {
    records.map_values(|record: ChangeRecord| record@)
}

/// The records of a batch: one for each resolved zone, in the order of the
/// outcomes; the failures leave none.
pub fn records_of(outcomes: &Vec<Result<TransitionPair, ResolutionError>>) -> (records: Vec<
    ChangeRecord,
>)
    ensures
        views(records@) == kept_of_all(outcomes@),
{
    let mut records: Vec<ChangeRecord> = Vec::new();
    let mut done: usize = 0;
    proof {
        assert(outcomes@.take(0) =~= Seq::empty());
        assert(views(records@) =~= Seq::empty());
    }
    while done < outcomes.len()
        invariant
            done <= outcomes.len(),
            views(records@) == kept_of_all(outcomes@.take(done as int)),
        decreases outcomes.len() - done,
    {
        proof {
            assert(outcomes@.take(done + 1).drop_last() =~= outcomes@.take(done as int));
        }
        let ghost before = records@;
        match &outcomes[done] {
            Ok(pair) => {
                match record_of(pair) {
                    Some(record) => {
                        let ghost added = record@;
                        records.push(record);
                        proof {
                            assert(views(records@) =~= views(before).push(added));
                        }
                    },
                    None => {},
                }
            },
            Err(_) => {},
        }
        done = done + 1;
    }
    proof {
        assert(outcomes@.take(done as int) =~= outcomes@);
    }
    records
}

} // verus!
