//! The narration formatter: turn a filtered, ordered event list into the
//! spoken instruction sequence, one utterance per event behind an intro,
//! or a single fallback utterance when nothing matched.

use vstd::prelude::*;
use vstd::string::*;

use crate::event::{Event, Timestamp};
use crate::jambonz::{is_default_say, Verb};
use crate::voice::{clock_text, duration_text};

verus! {

/// How one event is phrased: as in progress, as about to start (or just
/// started), or as upcoming at a clock time.
#[derive(Clone, Copy, Debug, PartialEq, Eq, Structural)]
pub enum Phrasing {
    InProgress,
    StartingSoon,
    UpcomingAt,
}

/// What a phrasing needs of an event: in-progress text reads elapsed and
/// remaining time, so `now` must lie within the event; clock text reads
/// the start's wall-clock fields, so they must be valid.
pub open spec fn phrasing_ok(p: Phrasing, e: Event, now: Timestamp) -> bool {
    match p {
        Phrasing::InProgress => e.start.secs <= now.secs <= e.end.secs,
        Phrasing::StartingSoon => true,
        Phrasing::UpcomingAt => e.start.wf(),
    }
}

/// The sentence spoken for one event.
pub open spec fn event_text_spec(e: Event, now: Timestamp, p: Phrasing) -> Seq<char> {
    match p {
        Phrasing::InProgress => "Started "@ + duration_text(now.secs - e.start.secs)
            + " ago and ending in "@ + duration_text(e.end.secs - now.secs) + " in "@ + e.venue@
            + ": "@ + e.title@ + " by "@ + e.speaker@ + "."@,
        Phrasing::StartingSoon => if e.start.secs < now.secs {
            "Started "@ + duration_text(now.secs - e.start.secs) + " ago in "@ + e.venue@ + ": "@
                + e.title@ + " by "@ + e.speaker@ + "."@
        } else {
            "Starting in "@ + duration_text(e.start.secs - now.secs) + " in "@ + e.venue@ + ": "@
                + e.title@ + " by "@ + e.speaker@ + "."@
        },
        Phrasing::UpcomingAt => "Starting "@ + clock_text(e.start, now) + " at "@ + e.venue@
            + ": "@ + e.title@ + "."@,
    }
}

/// Render the sentence spoken for one event.
pub fn event_text(e: &Event, now: Timestamp, p: Phrasing) -> (s: String)
    requires
        phrasing_ok(p, *e, now),
    ensures
        s@ == event_text_spec(*e, now, p),
{
    match p {
        Phrasing::InProgress => {
            let started = crate::voice::format_duration(now.secs - e.start.secs);
            let ending = crate::voice::format_duration(e.end.secs - now.secs);
            let s = String::from_str("Started ")
                .concat(started.as_str())
                .concat(" ago and ending in ")
                .concat(ending.as_str())
                .concat(" in ")
                .concat(e.venue.as_str())
                .concat(": ")
                .concat(e.title.as_str())
                .concat(" by ")
                .concat(e.speaker.as_str())
                .concat(".");
            proof {
                assert(s@ =~= event_text_spec(*e, now, p));
            }
            s
        },
        Phrasing::StartingSoon => {
            if e.start.secs < now.secs {
                let started = crate::voice::format_duration(now.secs - e.start.secs);
                let s = String::from_str("Started ")
                    .concat(started.as_str())
                    .concat(" ago in ")
                    .concat(e.venue.as_str())
                    .concat(": ")
                    .concat(e.title.as_str())
                    .concat(" by ")
                    .concat(e.speaker.as_str())
                    .concat(".");
                proof {
                    assert(s@ =~= event_text_spec(*e, now, p));
                }
                s
            } else {
                let starting = crate::voice::format_duration(e.start.secs - now.secs);
                let s = String::from_str("Starting in ")
                    .concat(starting.as_str())
                    .concat(" in ")
                    .concat(e.venue.as_str())
                    .concat(": ")
                    .concat(e.title.as_str())
                    .concat(" by ")
                    .concat(e.speaker.as_str())
                    .concat(".");
                proof {
                    assert(s@ =~= event_text_spec(*e, now, p));
                }
                s
            }
        },
        Phrasing::UpcomingAt => {
            let start = crate::voice::format_timestamp_relative_to(e.start, now);
            let s = String::from_str("Starting ")
                .concat(start.as_str())
                .concat(" at ")
                .concat(e.venue.as_str())
                .concat(": ")
                .concat(e.title.as_str())
                .concat(".");
            proof {
                assert(s@ =~= event_text_spec(*e, now, p));
            }
            s
        },
    }
}

/// The formatter's contract: a single fallback utterance for an empty
/// list; otherwise the intro followed by one utterance per event, in the
/// input order. Every reply is non-empty.
pub open spec fn narrated(
    verbs: Seq<Verb>,
    events: Seq<Event>,
    now: Timestamp,
    p: Phrasing,
    empty_phrase: Seq<char>,
    intro_phrase: Seq<char>,
) -> bool {
    if events.len() == 0 {
        verbs.len() == 1 && is_default_say(verbs[0], empty_phrase)
    } else {
        &&& verbs.len() == events.len() + 1
        &&& is_default_say(verbs[0], intro_phrase)
        &&& forall|i: int|
            0 <= i < events.len() ==> is_default_say(
                #[trigger] verbs[i + 1],
                event_text_spec(events[i], now, p),
            )
    }
}

/// Turn a filtered event list into the spoken instruction sequence.
pub fn narrate(
    events: &Vec<Event>,
    now: Timestamp,
    p: Phrasing,
    empty_phrase: &str,
    intro_phrase: &str,
) -> (verbs: Vec<Verb>)
    requires
        forall|i: int| 0 <= i < events@.len() ==> phrasing_ok(p, #[trigger] events@[i], now),
    ensures
        narrated(verbs@, events@, now, p, empty_phrase@, intro_phrase@),
        verbs@.len() >= 1,
{
    if events.len() == 0 {
        let mut verbs: Vec<Verb> = Vec::new();
        verbs.push(crate::voice::speak_verb(empty_phrase));
        verbs
    } else {
        let mut verbs: Vec<Verb> = Vec::new();
        verbs.push(crate::voice::speak_verb(intro_phrase));
        let mut i: usize = 0;
        while i < events.len()
            invariant
                i <= events@.len(),
                verbs@.len() == i + 1,
                is_default_say(verbs@[0], intro_phrase@),
                forall|k: int| 0 <= k < events@.len() ==> phrasing_ok(p, #[trigger] events@[k], now),
                forall|k: int|
                    0 <= k < i ==> is_default_say(
                        #[trigger] verbs@[k + 1],
                        event_text_spec(events@[k], now, p),
                    ),
            decreases events@.len() - i,
        {
            let text = event_text(&events[i], now, p);
            verbs.push(Verb::Say(crate::voice::speak(text.as_str())));
            i = i + 1;
        }
        verbs
    }
}

} // verus!
