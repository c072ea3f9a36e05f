//! The schedule's data model: events and the plain timestamps they carry.

use vstd::prelude::*;

verus! {

/// Day of the week a timestamp falls on, used when a start time is read
/// out for a day other than today.
#[derive(Clone, Copy, Debug, PartialEq, Eq, Structural)]
pub enum Weekday {
    Monday,
    Tuesday,
    Wednesday,
    Thursday,
    Friday,
    Saturday,
    Sunday,
}

/// The kind of schedule entry, as the schedule source classifies it.
#[derive(Clone, Copy, Debug, PartialEq, Eq, Structural)]
pub enum Category {
    Talk,
    Workshop,
    YouthWorkshop,
    Performance,
    Other,
}

/// A point in time, carried as plain values: seconds since an epoch for
/// ordering and durations, and the calendar fields the narration reads.
///
/// `day` identifies the calendar day (a running day count), so two
/// timestamps fall on the same calendar day exactly when their `day`
/// fields are equal. The clock fields give the local wall-clock reading.
#[derive(Clone, Copy, Debug, PartialEq, Eq, Structural)]
pub struct Timestamp {
    pub secs: u64,
    pub day: u32,
    pub weekday: Weekday,
    pub hour: u8,
    pub minute: u8,
}

impl Timestamp {
    /// The clock fields are a valid wall-clock reading.
    pub open spec fn wf(self) -> bool {
        self.hour < 24 && self.minute < 60
    }
}

/// One schedule entry. Immutable once fetched; it has no identity beyond
/// its fields.
pub struct Event {
    pub title: String,
    pub speaker: String,
    pub venue: String,
    pub category: Category,
    pub start: Timestamp,
    pub end: Timestamp,
}

impl Event {
    /// An event is well formed when its timestamps are and it does not
    /// end before it starts.
    pub open spec fn wf(self) -> bool {
        self.start.wf() && self.end.wf() && self.start.secs <= self.end.secs
    }
}

impl Clone for Event {
    fn clone(&self) -> (res: Self)
        ensures
            res == *self,
    {
        let res = Event {
            title: self.title.clone(),
            speaker: self.speaker.clone(),
            venue: self.venue.clone(),
            category: self.category,
            start: self.start,
            end: self.end,
        };
        proof {
            assert(res == *self);
        }
        res
    }
}

/// Every event of a fetched snapshot is well formed.
pub open spec fn all_wf(events: Seq<Event>) -> bool {
    forall|i: int| 0 <= i < events.len() ==> (#[trigger] events[i]).wf()
}

} // verus!
