//! The call-flow controller: one function per call step, each mapping
//! the step's inbound payload (and, for data-bearing steps, the fetched
//! schedule and the current time) to the ordered instruction sequence
//! the calling platform executes. Every path yields at least one
//! instruction.

use vstd::prelude::*;
use vstd::string::*;

use crate::event::{all_wf, Event, Timestamp};
use crate::filter::{
    stage_spec, CategoryQuery, FilterStage, apply_pipeline, pipeline_spec, sort_by_start,
};
use crate::guide::{collect_next, lemma_collect_next_elems, next_events_everywhere};
use crate::jambonz::{
    is_default_say, is_default_synth, is_redirect, Gather, GatherInputs, GatherResponse, Redirect,
    Verb,
};
use crate::narration::{narrate, narrated, Phrasing};

verus! {

/// The closed set of call-flow steps. Every request carries its step;
/// no session memory exists between requests.
#[derive(Clone, Copy, Debug, PartialEq, Eq, Structural)]
pub enum Step {
    Incoming,
    Menu,
    MenuSelection,
    EventsNow,
    EventsStartingSoon,
    NextEverywhere,
    TalksSummary,
    WorkshopsSummary,
    PerformancesSummary,
    StatusUpdate,
}

impl Step {
    /// The webhook path the platform posts to for this step.
    pub open spec fn hook(self) -> Seq<char> {
        match self {
            Step::Incoming => "/call/incoming"@,
            Step::Menu => "/call/menu"@,
            Step::MenuSelection => "/call/menu_selection"@,
            Step::EventsNow => "/call/events_now"@,
            Step::EventsStartingSoon => "/call/events_starting_soon"@,
            Step::NextEverywhere => "/call/next_events_everywhere"@,
            Step::TalksSummary => "/call/upcoming_talks_summary"@,
            Step::WorkshopsSummary => "/call/upcoming_workshops_summary"@,
            Step::PerformancesSummary => "/call/upcoming_performances_summary"@,
            Step::StatusUpdate => "/call_status"@,
        }
    }

    /// The webhook path the platform posts to for this step.
    pub fn action_hook(&self) -> (s: String)
        ensures
            s@ == self.hook(),
    {
        match self {
            Step::Incoming => String::from_str("/call/incoming"),
            Step::Menu => String::from_str("/call/menu"),
            Step::MenuSelection => String::from_str("/call/menu_selection"),
            Step::EventsNow => String::from_str("/call/events_now"),
            Step::EventsStartingSoon => String::from_str("/call/events_starting_soon"),
            Step::NextEverywhere => String::from_str("/call/next_events_everywhere"),
            Step::TalksSummary => String::from_str("/call/upcoming_talks_summary"),
            Step::WorkshopsSummary => String::from_str("/call/upcoming_workshops_summary"),
            Step::PerformancesSummary => String::from_str("/call/upcoming_performances_summary"),
            Step::StatusUpdate => String::from_str("/call_status"),
        }
    }
}

/// The digit-to-query dispatch: the six menu digits map to the six
/// query steps, and every other digit string maps to nothing.
pub open spec fn step_for_digits(d: Seq<char>) -> Option<Step> {
    if d.len() != 1 {
        None
    } else if d[0] == '1' {
        Some(Step::EventsNow)
    } else if d[0] == '2' {
        Some(Step::EventsStartingSoon)
    } else if d[0] == '3' {
        Some(Step::NextEverywhere)
    } else if d[0] == '4' {
        Some(Step::TalksSummary)
    } else if d[0] == '5' {
        Some(Step::WorkshopsSummary)
    } else if d[0] == '6' {
        Some(Step::PerformancesSummary)
    } else {
        None
    }
}

/// The dispatch is exclusive: no two digit strings reach the same query
/// step.
pub proof fn lemma_dispatch_exclusive(d1: Seq<char>, d2: Seq<char>)
    requires
        step_for_digits(d1) is Some,
        step_for_digits(d1) == step_for_digits(d2),
    ensures
        d1 == d2,
{
    assert(d1 =~= d2);
}

/// Map a digit string to the query step it selects, if any.
pub fn dispatch_digits(digits: &str) -> (r: Option<Step>)
    ensures
        r == step_for_digits(digits@),
{
    let n = digits.unicode_len();
    if n == 1 {
        let c = digits.get_char(0);
        match c {
            '1' => Some(Step::EventsNow),
            '2' => Some(Step::EventsStartingSoon),
            '3' => Some(Step::NextEverywhere),
            '4' => Some(Step::TalksSummary),
            '5' => Some(Step::WorkshopsSummary),
            '6' => Some(Step::PerformancesSummary),
            _ => None,
        }
    } else {
        None
    }
}

/// The greeting spoken when a call first connects.
pub open spec fn greeting_text() -> Seq<char> {
    "Hello, and welcome to Dial-a-Schedule."@
}

/// The menu options read to the caller while digits are gathered.
pub open spec fn menu_prompt_text() -> Seq<char> {
    "Dial 1 to hear what's going on right now. Need something to do? Dial 2 to hear what events are starting soon. Dial 3 to hear what is happening next at each venue. Dial 4 to get a summary of upcoming talks, dial 5 to get a summary of upcoming workshops, or dial 6 to get a summary of performances."@
}

/// The corrective message for a digit string outside the menu range.
pub open spec fn scold_text(d: Seq<char>) -> Seq<char> {
    "Yeah, so you know when I gave you those options? The intention is that you pick one of those. Not some nonsense number like "@
        + d
        + ". I am not angry, I am just disappointed. Try again."@
}

/// The fixed apology spoken whenever the schedule fetch has failed,
/// whatever the underlying error was.
pub open spec fn api_error_text() -> Seq<char> {
    "Oh no, something has gone very wrong. If this keeps happening, please feel free to shout at Dan until it is fixed. Be aware, Dan may shout back, or indeed shout at others as appropriate."@
}

/// A call has just connected: greet, then go to the menu.
pub fn call_incoming() -> (verbs: Vec<Verb>)
    ensures
        verbs@.len() == 2,
        is_default_say(verbs@[0], greeting_text()),
        is_redirect(verbs@[1], Step::Menu.hook()),
{
    let mut verbs: Vec<Verb> = Vec::new();
    verbs.push(crate::voice::speak_verb("Hello, and welcome to Dial-a-Schedule."));
    verbs.push(Verb::Redirect(Redirect { action_hook: Step::Menu.action_hook() }));
    verbs
}

/// The reply to the menu step is a single digit-gathering instruction
/// aimed at the menu-selection step.
pub open spec fn is_menu_gather(v: Verb) -> bool {
    match v {
        Verb::Gather(g) => {
            &&& g.action_hook@ == Step::MenuSelection.hook()
            &&& g.input@ == seq![GatherInputs::Digits]
            &&& g.num_digits == Some(1usize)
            &&& g.recognizer is None
            &&& match g.say {
                Some(s) => s.text@ == menu_prompt_text() && match s.synthesizer {
                    Some(c) => is_default_synth(c),
                    None => false,
                },
                None => false,
            }
        },
        _ => false,
    }
}

/// The menu step: read the options and collect exactly one digit.
pub fn call_menu() -> (verbs: Vec<Verb>)
    ensures
        verbs@.len() == 1,
        is_menu_gather(verbs@[0]),
{
    let mut input: Vec<GatherInputs> = Vec::new();
    input.push(GatherInputs::Digits);
    proof {
        assert(input@ =~= seq![GatherInputs::Digits]);
    }
    let say = crate::voice::speak(
        "Dial 1 to hear what's going on right now. Need something to do? Dial 2 to hear what events are starting soon. Dial 3 to hear what is happening next at each venue. Dial 4 to get a summary of upcoming talks, dial 5 to get a summary of upcoming workshops, or dial 6 to get a summary of performances.",
    );
    let gather = Gather {
        action_hook: Step::MenuSelection.action_hook(),
        input,
        num_digits: Some(1),
        recognizer: None,
        say: Some(say),
    };
    let mut verbs: Vec<Verb> = Vec::new();
    verbs.push(Verb::Gather(gather));
    verbs
}

/// The digits a gather payload carries; a missing field counts as an
/// empty entry.
pub open spec fn digits_view(payload: GatherResponse) -> Seq<char> {
    match payload.digits {
        Some(d) => d@,
        None => Seq::<char>::empty(),
    }
}

/// The menu-selection step: a valid digit redirects to its query step;
/// anything else is answered with the corrective message and a loop
/// back to the menu, never a failure.
pub fn call_menu_selection(payload: &GatherResponse) -> (verbs: Vec<Verb>)
    ensures
        match step_for_digits(digits_view(*payload)) {
            Some(step) => verbs@.len() == 1 && is_redirect(verbs@[0], step.hook()),
            None => {
                &&& verbs@.len() == 2
                &&& is_default_say(verbs@[0], scold_text(digits_view(*payload)))
                &&& is_redirect(verbs@[1], Step::Menu.hook())
            },
        },
{
    let choice = match &payload.digits {
        Some(d) => dispatch_digits(d.as_str()),
        None => None,
    };
    match choice {
        Some(step) => {
            let mut verbs: Vec<Verb> = Vec::new();
            verbs.push(Verb::Redirect(Redirect { action_hook: step.action_hook() }));
            verbs
        },
        None => {
            let digits_text = match &payload.digits {
                Some(d) => d.clone(),
                None => String::new(),
            };
            let msg = String::from_str(
                "Yeah, so you know when I gave you those options? The intention is that you pick one of those. Not some nonsense number like ",
            ).concat(digits_text.as_str()).concat(
                ". I am not angry, I am just disappointed. Try again.",
            );
            proof {
                assert(msg@ =~= scold_text(digits_view(*payload)));
            }
            let mut verbs: Vec<Verb> = Vec::new();
            verbs.push(crate::voice::speak_verb(msg.as_str()));
            verbs.push(Verb::Redirect(Redirect { action_hook: Step::Menu.action_hook() }));
            verbs
        },
    }
}

/// The status-update step records the call's progress for observability
/// only and yields no spoken instructions; this returns the label under
/// which the update is counted.
pub fn call_status(details: &crate::jambonz::CallStatusDetails) -> (label: String)
    ensures
        label@ == crate::jambonz::status_label(details.call_status),
{
    details.call_status.label()
}

/// The shared shape of every data-bearing step's reply: on a failed
/// fetch, exactly the fixed apology; otherwise the narration of the
/// pipeline's output over the fetched snapshot.
pub fn query_and_respond_with_a_list_of_events(
    schedule: Option<Vec<Event>>,
    stages: &Vec<FilterStage>,
    negative_response: &str,
    positive_response: &str,
    phrasing: Phrasing,
    now: Timestamp,
) -> (verbs: Vec<Verb>)
    requires
        match schedule {
            Some(events) => forall|i: int|
                0 <= i < pipeline_spec(stages@, events@).len() ==> crate::narration::phrasing_ok(
                    phrasing,
                    #[trigger] pipeline_spec(stages@, events@)[i],
                    now,
                ),
            None => true,
        },
    ensures
        match schedule {
            Some(events) => narrated(
                verbs@,
                pipeline_spec(stages@, events@),
                now,
                phrasing,
                negative_response@,
                positive_response@,
            ),
            None => verbs@.len() == 1 && is_default_say(verbs@[0], api_error_text()),
        },
        verbs@.len() >= 1,
{
    match schedule {
        Some(mut events) => {
            apply_pipeline(stages, &mut events);
            narrate(&events, now, phrasing, negative_response, positive_response)
        },
        None => {
            let mut verbs: Vec<Verb> = Vec::new();
            verbs.push(
                crate::voice::speak_verb(
                    "Oh no, something has gone very wrong. If this keeps happening, please feel free to shout at Dan until it is fixed. Be aware, Dan may shout back, or indeed shout at others as appropriate.",
                ),
            );
            verbs
        },
    }
}

/// What the events-now step narrates: the snapshot sorted by start,
/// narrowed to the events happening at `now`.
pub open spec fn events_now_filtered(s: Seq<Event>, now_secs: u64) -> Seq<Event> {
    stage_spec(FilterStage::HappeningNow(now_secs), stage_spec(FilterStage::SortByStart, s))
}

proof fn lemma_pipeline_two(a: FilterStage, b: FilterStage, s: Seq<Event>)
    ensures
        pipeline_spec(seq![a, b], s) == stage_spec(b, stage_spec(a, s)),
{
    let stages = seq![a, b];
    let mid = stage_spec(a, s);
    assert(stages[0] == a);
    assert(stages.drop_first() =~= seq![b]);
    assert(pipeline_spec(stages, s) == pipeline_spec(seq![b], mid));
    assert(seq![b].drop_first() =~= Seq::<FilterStage>::empty());
    assert(pipeline_spec(seq![b], mid) == pipeline_spec(
        Seq::<FilterStage>::empty(),
        stage_spec(b, mid),
    ));
    assert(pipeline_spec(Seq::<FilterStage>::empty(), stage_spec(b, mid)) == stage_spec(b, mid));
}

proof fn lemma_pipeline_three(a: FilterStage, b: FilterStage, c: FilterStage, s: Seq<Event>)
    ensures
        pipeline_spec(seq![a, b, c], s) == stage_spec(c, stage_spec(b, stage_spec(a, s))),
{
    let stages = seq![a, b, c];
    let mid = stage_spec(a, s);
    assert(stages[0] == a);
    assert(stages.drop_first() =~= seq![b, c]);
    assert(pipeline_spec(stages, s) == pipeline_spec(seq![b, c], mid));
    lemma_pipeline_two(b, c, mid);
}

/// The events-now step: what is happening right now, with elapsed and
/// remaining time for each event. `None` stands for a failed fetch.
pub fn call_events_now(schedule: Option<Vec<Event>>, now: Timestamp) -> (verbs: Vec<Verb>)
    ensures
        match schedule {
            Some(events) => narrated(
                verbs@,
                events_now_filtered(events@, now.secs),
                now,
                Phrasing::InProgress,
                "There are no events in progress. Sad, I know. Or maybe it is a silly time and you should be asleep."@,
                "The following events are in progress."@,
            ),
            None => verbs@.len() == 1 && is_default_say(verbs@[0], api_error_text()),
        },
        verbs@.len() >= 1,
{
    let mut stages: Vec<FilterStage> = Vec::new();
    stages.push(FilterStage::SortByStart);
    stages.push(FilterStage::HappeningNow(now.secs));
    proof {
        assert(stages@ =~= seq![FilterStage::SortByStart, FilterStage::HappeningNow(now.secs)]);
        lemma_pipeline_two(FilterStage::SortByStart, FilterStage::HappeningNow(now.secs), match &schedule {
            Some(events) => events@,
            None => Seq::<Event>::empty(),
        });
        if schedule is Some {
            let events = schedule->Some_0;
            let sorted = stage_spec(FilterStage::SortByStart, events@);
            let f = events_now_filtered(events@, now.secs);
            assert forall|i: int| 0 <= i < f.len() implies crate::narration::phrasing_ok(
                Phrasing::InProgress,
                #[trigger] f[i],
                now,
            ) by {
                sorted.lemma_filter_pred(
                    crate::filter::stage_pred(FilterStage::HappeningNow(now.secs)),
                    i,
                );
            }
        }
    }
    query_and_respond_with_a_list_of_events(
        schedule,
        &stages,
        "There are no events in progress. Sad, I know. Or maybe it is a silly time and you should be asleep.",
        "The following events are in progress.",
        Phrasing::InProgress,
        now,
    )
}

/// What the starting-soon step narrates: events whose start falls in the
/// half-open window from five minutes before `now` to fifteen minutes
/// after it, in snapshot order.
pub open spec fn starting_soon_filtered(s: Seq<Event>, now_secs: u64) -> Seq<Event> {
    stage_spec(
        FilterStage::StartsBefore((now_secs + 900) as u64),
        stage_spec(FilterStage::StartsAfter((now_secs - 300) as u64), s),
    )
}

/// The starting-soon step: events about to start, or started moments
/// ago. `None` stands for a failed fetch.
pub fn call_events_starting_soon(schedule: Option<Vec<Event>>, now: Timestamp) -> (verbs: Vec<
    Verb,
>)
    requires
        300 <= now.secs,
        now.secs + 900 <= u64::MAX,
    ensures
        match schedule {
            Some(events) => narrated(
                verbs@,
                starting_soon_filtered(events@, now.secs),
                now,
                Phrasing::StartingSoon,
                "There are no events starting soon. Sad, I know. Or maybe it is a silly time and you should be asleep."@,
                "The following events may be of interest."@,
            ),
            None => verbs@.len() == 1 && is_default_say(verbs@[0], api_error_text()),
        },
        verbs@.len() >= 1,
{
    let range_start = now.secs - 300;
    let range_end = now.secs + 900;
    let mut stages: Vec<FilterStage> = Vec::new();
    stages.push(FilterStage::StartsAfter(range_start));
    stages.push(FilterStage::StartsBefore(range_end));
    proof {
        assert(stages@ =~= seq![
            FilterStage::StartsAfter(range_start),
            FilterStage::StartsBefore(range_end),
        ]);
        lemma_pipeline_two(
            FilterStage::StartsAfter(range_start),
            FilterStage::StartsBefore(range_end),
            match &schedule {
                Some(events) => events@,
                None => Seq::<Event>::empty(),
            },
        );
    }
    query_and_respond_with_a_list_of_events(
        schedule,
        &stages,
        "There are no events starting soon. Sad, I know. Or maybe it is a silly time and you should be asleep.",
        "The following events may be of interest.",
        Phrasing::StartingSoon,
        now,
    )
}

/// What the next-everywhere step narrates: for each venue with an event
/// starting strictly after `now`, the next such event, sorted ascending
/// by start.
pub open spec fn next_everywhere_filtered(s: Seq<Event>, now_secs: u64) -> Seq<Event> {
    sort_by_start(collect_next(s, now_secs))
}

/// The next-everywhere step: the next event at each venue. `None`
/// stands for a failed fetch.
pub fn call_next_events_everywhere(schedule: Option<Vec<Event>>, now: Timestamp) -> (verbs: Vec<
    Verb,
>)
    requires
        match schedule {
            Some(events) => all_wf(events@),
            None => true,
        },
    ensures
        match schedule {
            Some(events) => narrated(
                verbs@,
                next_everywhere_filtered(events@, now.secs),
                now,
                Phrasing::UpcomingAt,
                "There are no more events in the schedule. EMF 2024 is over. Everyone is sad, everyone apart from the spiders, and maybe the ducks."@,
                "Here are the next events."@,
            ),
            None => verbs@.len() == 1 && is_default_say(verbs@[0], api_error_text()),
        },
        verbs@.len() >= 1,
{
    match schedule {
        Some(events) => {
            let next = next_events_everywhere(&events, now.secs);
            proof {
                lemma_collect_next_elems(events@, now.secs);
                crate::filter::lemma_sort_elems(collect_next(events@, now.secs));
                let collected = collect_next(events@, now.secs);
                assert forall|i: int| 0 <= i < next@.len() implies crate::narration::phrasing_ok(
                    Phrasing::UpcomingAt,
                    #[trigger] next@[i],
                    now,
                ) by {
                    assert(collected.contains(next@[i]));
                    let j = choose|j: int| 0 <= j < collected.len() && collected[j] == next@[i];
                    assert(events@.contains(collected[j]));
                    let k = choose|k: int| 0 <= k < events@.len() && events@[k] == collected[j];
                    assert(events@[k].wf());
                }
            }
            narrate(
                &next,
                now,
                Phrasing::UpcomingAt,
                "There are no more events in the schedule. EMF 2024 is over. Everyone is sad, everyone apart from the spiders, and maybe the ducks.",
                "Here are the next events.",
            )
        },
        None => {
            let mut verbs: Vec<Verb> = Vec::new();
            verbs.push(
                crate::voice::speak_verb(
                    "Oh no, something has gone very wrong. If this keeps happening, please feel free to shout at Dan until it is fixed. Be aware, Dan may shout back, or indeed shout at others as appropriate.",
                ),
            );
            verbs
        },
    }
}

/// What a summary step narrates: events of the queried category whose
/// start falls in the half-open window from `now` to three hours after
/// it, in snapshot order.
pub open spec fn upcoming_filtered(s: Seq<Event>, now_secs: u64, q: CategoryQuery) -> Seq<Event> {
    stage_spec(
        FilterStage::CategoryIs(q),
        stage_spec(
            FilterStage::StartsBefore((now_secs + 10800) as u64),
            stage_spec(FilterStage::StartsAfter(now_secs), s),
        ),
    )
}

/// The common body of the three summary steps.
fn call_upcoming_summary(
    schedule: Option<Vec<Event>>,
    now: Timestamp,
    q: CategoryQuery,
    negative_response: &str,
    positive_response: &str,
) -> (verbs: Vec<Verb>)
    requires
        now.secs + 10800 <= u64::MAX,
        match schedule {
            Some(events) => all_wf(events@),
            None => true,
        },
    ensures
        match schedule {
            Some(events) => narrated(
                verbs@,
                upcoming_filtered(events@, now.secs, q),
                now,
                Phrasing::UpcomingAt,
                negative_response@,
                positive_response@,
            ),
            None => verbs@.len() == 1 && is_default_say(verbs@[0], api_error_text()),
        },
        verbs@.len() >= 1,
{
    let until = now.secs + 10800;
    let mut stages: Vec<FilterStage> = Vec::new();
    stages.push(FilterStage::StartsAfter(now.secs));
    stages.push(FilterStage::StartsBefore(until));
    stages.push(FilterStage::CategoryIs(q));
    proof {
        assert(stages@ =~= seq![
            FilterStage::StartsAfter(now.secs),
            FilterStage::StartsBefore(until),
            FilterStage::CategoryIs(q),
        ]);
        lemma_pipeline_three(
            FilterStage::StartsAfter(now.secs),
            FilterStage::StartsBefore(until),
            FilterStage::CategoryIs(q),
            match &schedule {
                Some(events) => events@,
                None => Seq::<Event>::empty(),
            },
        );
        if schedule is Some {
            let events = schedule->Some_0;
            crate::filter::lemma_pipeline_preserves(
                stages@,
                events@,
                |e: Event| e.start.wf(),
            );
        }
    }
    query_and_respond_with_a_list_of_events(
        schedule,
        &stages,
        negative_response,
        positive_response,
        Phrasing::UpcomingAt,
        now,
    )
}

/// The talks summary: talks starting over the next three hours. `None`
/// stands for a failed fetch.
pub fn call_upcoming_talks_summary(schedule: Option<Vec<Event>>, now: Timestamp) -> (verbs: Vec<
    Verb,
>)
    requires
        now.secs + 10800 <= u64::MAX,
        match schedule {
            Some(events) => all_wf(events@),
            None => true,
        },
    ensures
        match schedule {
            Some(events) => narrated(
                verbs@,
                upcoming_filtered(events@, now.secs, CategoryQuery::Talks),
                now,
                Phrasing::UpcomingAt,
                "There are no talks starting in the next 3 hours. Maybe it is late and you should have a beer and enjoy some music. Sadly I can't join you, I am stuck in the telephone."@,
                "Here are the talks you can look forward to over the next 3 hours."@,
            ),
            None => verbs@.len() == 1 && is_default_say(verbs@[0], api_error_text()),
        },
        verbs@.len() >= 1,
{
    call_upcoming_summary(
        schedule,
        now,
        CategoryQuery::Talks,
        "There are no talks starting in the next 3 hours. Maybe it is late and you should have a beer and enjoy some music. Sadly I can't join you, I am stuck in the telephone.",
        "Here are the talks you can look forward to over the next 3 hours.",
    )
}

/// The workshops summary: workshops and youth workshops starting over
/// the next three hours. `None` stands for a failed fetch.
pub fn call_upcoming_workshops_summary(schedule: Option<Vec<Event>>, now: Timestamp) -> (verbs:
    Vec<Verb>)
    requires
        now.secs + 10800 <= u64::MAX,
        match schedule {
            Some(events) => all_wf(events@),
            None => true,
        },
    ensures
        match schedule {
            Some(events) => narrated(
                verbs@,
                upcoming_filtered(events@, now.secs, CategoryQuery::Workshops),
                now,
                Phrasing::UpcomingAt,
                "There are no workshops starting in the next 3 hours. Maybe it is late and you should have a beer and enjoy some music. Sadly I can't join you, I am stuck in the telephone."@,
                "Here are the workshops you can look forward to over the next 3 hours. Well, assuming you won the appropriate ticket lottery."@,
            ),
            None => verbs@.len() == 1 && is_default_say(verbs@[0], api_error_text()),
        },
        verbs@.len() >= 1,
{
    call_upcoming_summary(
        schedule,
        now,
        CategoryQuery::Workshops,
        "There are no workshops starting in the next 3 hours. Maybe it is late and you should have a beer and enjoy some music. Sadly I can't join you, I am stuck in the telephone.",
        "Here are the workshops you can look forward to over the next 3 hours. Well, assuming you won the appropriate ticket lottery.",
    )
}

/// The performances summary: performances starting over the next three
/// hours. `None` stands for a failed fetch.
pub fn call_upcoming_performances_summary(schedule: Option<Vec<Event>>, now: Timestamp) -> (verbs:
    Vec<Verb>)
    requires
        now.secs + 10800 <= u64::MAX,
        match schedule {
            Some(events) => all_wf(events@),
            None => true,
        },
    ensures
        match schedule {
            Some(events) => narrated(
                verbs@,
                upcoming_filtered(events@, now.secs, CategoryQuery::Performances),
                now,
                Phrasing::UpcomingAt,
                "There are no performances starting in the next 3 hours. Maybe you could find an interesting talk to pass the time?"@,
                "Here are the performances taking place over the next 3 hours."@,
            ),
            None => verbs@.len() == 1 && is_default_say(verbs@[0], api_error_text()),
        },
        verbs@.len() >= 1,
{
    call_upcoming_summary(
        schedule,
        now,
        CategoryQuery::Performances,
        "There are no performances starting in the next 3 hours. Maybe you could find an interesting talk to pass the time?",
        "Here are the performances taking place over the next 3 hours.",
    )
}

} // verus!
