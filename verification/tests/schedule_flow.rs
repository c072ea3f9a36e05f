use dial_a_schedule::event::{Category, Event, Timestamp, Weekday};
use dial_a_schedule::filter::{apply_pipeline, apply_stage, sort_events_by_start, FilterStage};
use dial_a_schedule::guide::next_events_everywhere;
use dial_a_schedule::handlers::{
    call_events_now, call_events_starting_soon, call_incoming, call_menu, call_menu_selection,
    call_next_events_everywhere, call_status, call_upcoming_performances_summary,
    call_upcoming_talks_summary, call_upcoming_workshops_summary, dispatch_digits, Step,
};
use dial_a_schedule::jambonz::{CallStatus, CallStatusDetails, GatherInputs, GatherResponse, Verb};
use dial_a_schedule::narration::{event_text, narrate, Phrasing};
use dial_a_schedule::voice::{
    format_duration, format_timestamp_relative_to, speak, speak_verb, two_digit_string,
    u64_to_string, weekday_name_text,
};

fn ts(secs: u64) -> Timestamp {
    Timestamp { secs, day: 10, weekday: Weekday::Friday, hour: 12, minute: 0 }
}

fn ts_clock(secs: u64, day: u32, weekday: Weekday, hour: u8, minute: u8) -> Timestamp {
    Timestamp { secs, day, weekday, hour, minute }
}

fn ev(title: &str, venue: &str, category: Category, start: u64, end: u64) -> Event {
    Event {
        title: title.to_string(),
        speaker: "Sam".to_string(),
        venue: venue.to_string(),
        category,
        start: ts(start),
        end: ts(end),
    }
}

fn say_text(v: &Verb) -> &str {
    match v {
        Verb::Say(s) => &s.text,
        _ => panic!("expected a Say verb"),
    }
}

fn redirect_hook(v: &Verb) -> &str {
    match v {
        Verb::Redirect(r) => &r.action_hook,
        _ => panic!("expected a Redirect verb"),
    }
}

const APOLOGY: &str = "Oh no, something has gone very wrong. If this keeps happening, please feel free to shout at Dan until it is fixed. Be aware, Dan may shout back, or indeed shout at others as appropriate.";

#[test]
fn happening_now_keeps_exactly_the_half_open_interval() {
    let now: u64 = 1000;
    let mut events = vec![
        ev("starts exactly now", "a", Category::Other, 1000, 2000),
        ev("ends exactly now", "a", Category::Other, 500, 1000),
        ev("in the middle", "a", Category::Other, 900, 1100),
        ev("already over", "a", Category::Other, 100, 200),
        ev("not yet", "a", Category::Other, 1500, 1600),
    ];
    apply_stage(&FilterStage::HappeningNow(now), &mut events);
    let titles: Vec<&str> = events.iter().map(|e| e.title.as_str()).collect();
    assert_eq!(titles, vec!["starts exactly now", "in the middle"]);
}

#[test]
fn start_window_is_half_open() {
    let lo: u64 = 1000;
    let hi: u64 = 2000;
    let mut events = vec![
        ev("at lower bound", "a", Category::Other, 1000, 9000),
        ev("at upper bound", "a", Category::Other, 2000, 9000),
        ev("inside", "a", Category::Other, 1500, 9000),
        ev("before", "a", Category::Other, 999, 9000),
    ];
    let stages = vec![FilterStage::StartsAfter(lo), FilterStage::StartsBefore(hi)];
    apply_pipeline(&stages, &mut events);
    let titles: Vec<&str> = events.iter().map(|e| e.title.as_str()).collect();
    assert_eq!(titles, vec!["at lower bound", "inside"]);
}

#[test]
fn sort_by_start_is_stable() {
    let mut events = vec![
        ev("late", "a", Category::Other, 300, 900),
        ev("tie first", "a", Category::Other, 100, 900),
        ev("early", "a", Category::Other, 50, 900),
        ev("tie second", "a", Category::Other, 100, 900),
    ];
    sort_events_by_start(&mut events);
    let titles: Vec<&str> = events.iter().map(|e| e.title.as_str()).collect();
    assert_eq!(titles, vec!["early", "tie first", "tie second", "late"]);
}

#[test]
fn narration_of_empty_list_is_one_fallback_utterance() {
    let events: Vec<Event> = Vec::new();
    let verbs = narrate(&events, ts(5000), Phrasing::StartingSoon, "nothing on", "coming up");
    assert_eq!(verbs.len(), 1);
    assert_eq!(say_text(&verbs[0]), "nothing on");
}

#[test]
fn narration_of_three_events_is_four_utterances_in_order() {
    let events = vec![
        ev("first", "v1", Category::Other, 100, 200),
        ev("second", "v2", Category::Other, 300, 400),
        ev("third", "v3", Category::Other, 500, 600),
    ];
    let verbs = narrate(&events, ts(5000), Phrasing::StartingSoon, "nothing on", "coming up");
    assert_eq!(verbs.len(), 4);
    assert_eq!(say_text(&verbs[0]), "coming up");
    assert!(say_text(&verbs[1]).contains("first"));
    assert!(say_text(&verbs[2]).contains("second"));
    assert!(say_text(&verbs[3]).contains("third"));
}

#[test]
fn each_menu_digit_reaches_its_query_step() {
    let expectations = [
        ("1", "/call/events_now"),
        ("2", "/call/events_starting_soon"),
        ("3", "/call/next_events_everywhere"),
        ("4", "/call/upcoming_talks_summary"),
        ("5", "/call/upcoming_workshops_summary"),
        ("6", "/call/upcoming_performances_summary"),
    ];
    for (digit, hook) in expectations {
        let verbs = call_menu_selection(&GatherResponse { digits: Some(digit.to_string()) });
        assert_eq!(verbs.len(), 1);
        assert_eq!(redirect_hook(&verbs[0]), hook);
    }
}

#[test]
fn invalid_digits_scold_and_loop_back_to_menu() {
    for bad in ["0", "7", "12", "abc", ""] {
        let verbs = call_menu_selection(&GatherResponse { digits: Some(bad.to_string()) });
        assert_eq!(verbs.len(), 2);
        let text = say_text(&verbs[0]);
        assert!(text.starts_with("Yeah, so you know when I gave you those options?"));
        assert!(text.contains(&format!("nonsense number like {bad}.")));
        assert_eq!(redirect_hook(&verbs[1]), "/call/menu");
    }
}

#[test]
fn missing_digits_scold_and_loop_back_to_menu() {
    let verbs = call_menu_selection(&GatherResponse { digits: None });
    assert_eq!(verbs.len(), 2);
    assert!(say_text(&verbs[0]).contains("nonsense number like . I am not angry"));
    assert_eq!(redirect_hook(&verbs[1]), "/call/menu");
}

#[test]
fn dispatch_is_exact_on_the_digit_strings() {
    assert_eq!(dispatch_digits("1"), Some(Step::EventsNow));
    assert_eq!(dispatch_digits("6"), Some(Step::PerformancesSummary));
    assert_eq!(dispatch_digits("0"), None);
    assert_eq!(dispatch_digits("11"), None);
    assert_eq!(dispatch_digits(""), None);
}

#[test]
fn clock_text_same_day_is_bare_hour_and_minute() {
    let now = ts_clock(10_000, 42, Weekday::Thursday, 9, 30);
    let stamp = ts_clock(20_000, 42, Weekday::Thursday, 14, 5);
    assert_eq!(format_timestamp_relative_to(stamp, now), "14:05");
}

#[test]
fn clock_text_other_day_names_the_weekday() {
    let now = ts_clock(10_000, 42, Weekday::Thursday, 9, 30);
    let stamp = ts_clock(200_000, 44, Weekday::Saturday, 8, 15);
    assert_eq!(format_timestamp_relative_to(stamp, now), "Saturday 08:15");
}

#[test]
fn duration_under_an_hour_has_no_hours_segment() {
    assert_eq!(format_duration(45 * 60), "45 minutes");
}

#[test]
fn duration_of_ninety_minutes_keeps_the_minute_remainder() {
    assert_eq!(format_duration(90 * 60), "1 hours30 minutes");
}

#[test]
fn duration_of_two_hours_reads_zero_minutes() {
    assert_eq!(format_duration(2 * 3600), "2 hours0 minutes");
}

#[test]
fn failed_fetch_yields_exactly_the_apology() {
    let verbs = call_events_now(None, ts(5000));
    assert_eq!(verbs.len(), 1);
    assert_eq!(say_text(&verbs[0]), APOLOGY);

    let verbs = call_upcoming_talks_summary(None, ts(5000));
    assert_eq!(verbs.len(), 1);
    assert_eq!(say_text(&verbs[0]), APOLOGY);
}

#[test]
fn next_everywhere_reads_one_future_event_per_venue_sorted() {
    let now = ts(1000);
    let schedule = vec![
        ev("main past one", "Main", Category::Other, 100, 200),
        ev("main past two", "Main", Category::Other, 300, 400),
        ev("main future", "Main", Category::Other, 5000, 6000),
        ev("tent past one", "Tent", Category::Other, 150, 250),
        ev("tent past two", "Tent", Category::Other, 350, 450),
        ev("tent future", "Tent", Category::Other, 3000, 4000),
        ev("field past one", "Field", Category::Other, 120, 220),
        ev("field past two", "Field", Category::Other, 320, 420),
        ev("field future", "Field", Category::Other, 4000, 4500),
    ];
    let verbs = call_next_events_everywhere(Some(schedule), now);
    assert_eq!(verbs.len(), 4);
    assert_eq!(say_text(&verbs[0]), "Here are the next events.");
    assert!(say_text(&verbs[1]).contains("tent future"));
    assert!(say_text(&verbs[2]).contains("field future"));
    assert!(say_text(&verbs[3]).contains("main future"));
}

#[test]
fn next_everywhere_prefers_the_earliest_event_at_a_venue() {
    let out = next_events_everywhere(
        &vec![
            ev("later", "Main", Category::Other, 9000, 9500),
            ev("sooner", "Main", Category::Other, 2000, 2500),
            ev("past", "Main", Category::Other, 100, 200),
        ],
        1000,
    );
    assert_eq!(out.len(), 1);
    assert_eq!(out[0].title, "sooner");
}

#[test]
fn events_now_reads_elapsed_and_remaining_time() {
    let now = ts(10_000);
    let schedule = vec![ev("Soldering", "Workshop Tent", Category::Workshop, 8_200, 12_700)];
    let verbs = call_events_now(Some(schedule), now);
    assert_eq!(verbs.len(), 2);
    assert_eq!(say_text(&verbs[0]), "The following events are in progress.");
    assert_eq!(
        say_text(&verbs[1]),
        "Started 30 minutes ago and ending in 45 minutes in Workshop Tent: Soldering by Sam."
    );
}

#[test]
fn events_now_with_no_match_reads_the_negative_phrase() {
    let verbs = call_events_now(
        Some(vec![ev("later", "a", Category::Other, 50_000, 60_000)]),
        ts(10_000),
    );
    assert_eq!(verbs.len(), 1);
    assert_eq!(
        say_text(&verbs[0]),
        "There are no events in progress. Sad, I know. Or maybe it is a silly time and you should be asleep."
    );
}

#[test]
fn starting_soon_distinguishes_started_from_starting() {
    let now = ts(10_000);
    let schedule = vec![
        ev("just started", "Stage A", Category::Other, 9_880, 20_000),
        ev("about to start", "Stage B", Category::Other, 10_600, 20_000),
        ev("too far out", "Stage C", Category::Other, 11_000, 20_000),
    ];
    let verbs = call_events_starting_soon(Some(schedule), now);
    assert_eq!(verbs.len(), 3);
    assert_eq!(say_text(&verbs[0]), "The following events may be of interest.");
    assert_eq!(
        say_text(&verbs[1]),
        "Started 2 minutes ago in Stage A: just started by Sam."
    );
    assert_eq!(
        say_text(&verbs[2]),
        "Starting in 10 minutes in Stage B: about to start by Sam."
    );
}

#[test]
fn starting_soon_window_spans_five_minutes_back_to_fifteen_ahead() {
    let now = ts(10_000);
    let schedule = vec![
        ev("at the lower edge", "a", Category::Other, 9_700, 20_000),
        ev("just before the lower edge", "a", Category::Other, 9_699, 20_000),
        ev("at the upper edge", "a", Category::Other, 10_900, 20_000),
        ev("just inside the upper edge", "a", Category::Other, 10_899, 20_000),
    ];
    let verbs = call_events_starting_soon(Some(schedule), now);
    assert_eq!(verbs.len(), 3);
    assert!(say_text(&verbs[1]).contains("at the lower edge"));
    assert!(say_text(&verbs[2]).contains("just inside the upper edge"));
}

#[test]
fn next_everywhere_breaks_start_ties_by_first_appearance() {
    let out = next_events_everywhere(
        &vec![
            ev("tent pick", "Tent", Category::Other, 2000, 2500),
            ev("main pick", "Main", Category::Other, 2000, 2500),
        ],
        1000,
    );
    assert_eq!(out.len(), 2);
    assert_eq!(out[0].title, "tent pick");
    assert_eq!(out[1].title, "main pick");
}

#[test]
fn zero_duration_reads_zero_minutes() {
    assert_eq!(format_duration(0), "0 minutes");
    assert_eq!(format_duration(59), "0 minutes");
}

#[test]
fn workshops_summary_includes_youth_workshops_only() {
    let now = ts_clock(10_000, 10, Weekday::Friday, 12, 0);
    let schedule = vec![
        ev("a talk", "Stage A", Category::Talk, 11_000, 12_000),
        ev("grown-up workshop", "Tent", Category::Workshop, 12_000, 13_000),
        ev("youth workshop", "Tent", Category::YouthWorkshop, 13_000, 14_000),
        ev("a performance", "Stage B", Category::Performance, 14_000, 15_000),
        ev("something else", "Bar", Category::Other, 15_000, 16_000),
    ];
    let verbs = call_upcoming_workshops_summary(Some(schedule), now);
    assert_eq!(verbs.len(), 3);
    assert!(say_text(&verbs[1]).contains("grown-up workshop"));
    assert!(say_text(&verbs[2]).contains("youth workshop"));
}

#[test]
fn talks_summary_is_limited_to_the_next_three_hours() {
    let now = ts_clock(10_000, 10, Weekday::Friday, 12, 0);
    let schedule = vec![
        ev("soon talk", "Stage A", Category::Talk, 11_000, 12_000),
        ev("talk at the bound", "Stage A", Category::Talk, 10_000 + 10_800, 30_000),
        ev("talk beyond", "Stage A", Category::Talk, 50_000, 60_000),
    ];
    let verbs = call_upcoming_talks_summary(Some(schedule), now);
    assert_eq!(verbs.len(), 2);
    assert_eq!(
        say_text(&verbs[0]),
        "Here are the talks you can look forward to over the next 3 hours."
    );
    assert!(say_text(&verbs[1]).contains("soon talk"));
}

#[test]
fn performances_summary_uses_its_own_phrases() {
    let now = ts_clock(10_000, 10, Weekday::Friday, 12, 0);
    let verbs = call_upcoming_performances_summary(Some(vec![]), now);
    assert_eq!(verbs.len(), 1);
    assert_eq!(
        say_text(&verbs[0]),
        "There are no performances starting in the next 3 hours. Maybe you could find an interesting talk to pass the time?"
    );
}

#[test]
fn incoming_call_greets_then_goes_to_the_menu() {
    let verbs = call_incoming();
    assert_eq!(verbs.len(), 2);
    assert_eq!(say_text(&verbs[0]), "Hello, and welcome to Dial-a-Schedule.");
    assert_eq!(redirect_hook(&verbs[1]), "/call/menu");
}

#[test]
fn menu_gathers_one_digit_for_the_selection_step() {
    let verbs = call_menu();
    assert_eq!(verbs.len(), 1);
    match &verbs[0] {
        Verb::Gather(g) => {
            assert_eq!(g.action_hook, "/call/menu_selection");
            assert_eq!(g.input, vec![GatherInputs::Digits]);
            assert_eq!(g.num_digits, Some(1));
            assert!(g.recognizer.is_none());
            let say = g.say.as_ref().expect("menu gather carries a prompt");
            assert!(say.text.starts_with("Dial 1 to hear what's going on right now."));
        }
        _ => panic!("expected a Gather verb"),
    }
}

#[test]
fn spoken_text_carries_the_fixed_voice() {
    let s = speak("hello");
    assert_eq!(s.text, "hello");
    let synth = s.synthesizer.expect("speak sets the synthesizer");
    assert_eq!(synth.vendor, "aws");
    assert_eq!(synth.language, "en-GB");
    assert_eq!(synth.gender, None);
    assert_eq!(synth.voice, "Amy");
    match speak_verb("again") {
        Verb::Say(s) => assert_eq!(s.text, "again"),
        _ => panic!("expected a Say verb"),
    }
}

#[test]
fn call_status_yields_the_observability_label() {
    let details = CallStatusDetails {
        call_id: "id".to_string(),
        call_sid: "sid".to_string(),
        call_status: CallStatus::InProgress,
        call_termination_by: None,
        duration: None,
        from: "caller".to_string(),
    };
    assert_eq!(call_status(&details), "InProgress");
    assert_eq!(CallStatus::NoAnswer.label(), "NoAnswer");
}

#[test]
fn numbers_render_in_decimal() {
    assert_eq!(u64_to_string(0), "0");
    assert_eq!(u64_to_string(7), "7");
    assert_eq!(u64_to_string(10), "10");
    assert_eq!(u64_to_string(1234), "1234");
}

#[test]
fn two_digit_rendering_pads_with_zero() {
    assert_eq!(two_digit_string(5), "05");
    assert_eq!(two_digit_string(59), "59");
    assert_eq!(two_digit_string(0), "00");
}

#[test]
fn weekday_names_render_in_english() {
    assert_eq!(weekday_name_text(Weekday::Monday), "Monday");
    assert_eq!(weekday_name_text(Weekday::Sunday), "Sunday");
}

#[test]
fn upcoming_event_text_uses_clock_rendering() {
    let now = ts_clock(10_000, 10, Weekday::Friday, 12, 0);
    let mut e = ev("Choir", "Stage B", Category::Performance, 20_000, 30_000);
    e.start = ts_clock(20_000, 10, Weekday::Friday, 14, 45);
    let text = event_text(&e, now, Phrasing::UpcomingAt);
    assert_eq!(text, "Starting 14:45 at Stage B: Choir.");
}
