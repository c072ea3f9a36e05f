//! The event filter pipeline: an ordered list of stages, each taking the
//! previous stage's output. Selection stages keep order; only the sort
//! stage reorders, stably, by start time.

use vstd::prelude::*;

use crate::event::{Category, Event};

verus! {

/// Which categories a category stage keeps.
#[derive(Clone, Copy, Debug, PartialEq, Eq, Structural)]
pub enum CategoryQuery {
    Talks,
    Workshops,
    Performances,
}

/// Whether a category answers a category query. Workshops and youth
/// workshops both count as workshops.
pub open spec fn category_matches(q: CategoryQuery, c: Category) -> bool {
    match q {
        CategoryQuery::Talks => c is Talk,
        CategoryQuery::Workshops => c is Workshop || c is YouthWorkshop,
        CategoryQuery::Performances => c is Performance,
    }
}

/// An event is happening at `now` when its half-open interval
/// `[start, end)` contains `now`.
pub open spec fn happening_at(e: Event, now: u64) -> bool {
    e.start.secs <= now < e.end.secs
}

/// One stage of the pipeline. Bounds are in seconds since the epoch.
#[derive(Clone, Copy, Debug, PartialEq, Eq, Structural)]
pub enum FilterStage {
    /// Stable sort ascending by start time.
    SortByStart,
    /// Keep events with `start >= bound`.
    StartsAfter(u64),
    /// Keep events with `start < bound`.
    StartsBefore(u64),
    /// Keep events whose `[start, end)` contains the given instant.
    HappeningNow(u64),
    /// Keep events whose category answers the query.
    CategoryIs(CategoryQuery),
}

/// Whether a selection stage keeps an event. The sort stage selects
/// nothing and keeps every event.
pub open spec fn stage_keeps(stage: FilterStage, e: Event) -> bool {
    match stage {
        FilterStage::SortByStart => true,
        FilterStage::StartsAfter(bound) => e.start.secs >= bound,
        FilterStage::StartsBefore(bound) => e.start.secs < bound,
        FilterStage::HappeningNow(now) => happening_at(e, now),
        FilterStage::CategoryIs(q) => category_matches(q, e.category),
    }
}

/// The keeping test of a stage, as a predicate value.
pub open spec fn stage_pred(stage: FilterStage) -> spec_fn(Event) -> bool {
    |e: Event| stage_keeps(stage, e)
}

/// Events start in ascending order.
pub open spec fn sorted_by_start(s: Seq<Event>) -> bool {
    forall|i: int, j: int| 0 <= i < j < s.len() ==> s[i].start.secs <= s[j].start.secs
}

/// Insert an event after every event that starts no later than it does.
pub open spec fn insert_by_start(s: Seq<Event>, e: Event) -> Seq<Event>
    decreases s.len(),
{
    if s.len() == 0 {
        seq![e]
    } else if s[0].start.secs <= e.start.secs {
        seq![s[0]] + insert_by_start(s.drop_first(), e)
    } else {
        seq![e] + s
    }
}

/// Stable insertion sort ascending by start time.
pub open spec fn sort_by_start(s: Seq<Event>) -> Seq<Event>
    decreases s.len(),
{
    if s.len() == 0 {
        Seq::<Event>::empty()
    } else {
        insert_by_start(sort_by_start(s.drop_last()), s.last())
    }
}

/// What a stage makes of an event sequence.
pub open spec fn stage_spec(stage: FilterStage, s: Seq<Event>) -> Seq<Event> {
    match stage {
        FilterStage::SortByStart => sort_by_start(s),
        _ => s.filter(stage_pred(stage)),
    }
}

/// What a pipeline makes of an event sequence: stages apply in order,
/// each to the previous stage's output.
pub open spec fn pipeline_spec(stages: Seq<FilterStage>, s: Seq<Event>) -> Seq<Event>
    decreases stages.len(),
{
    if stages.len() == 0 {
        s
    } else {
        pipeline_spec(stages.drop_first(), stage_spec(stages[0], s))
    }
}

proof fn lemma_filter_push<A>(s: Seq<A>, x: A, pred: spec_fn(A) -> bool)
    ensures
        s.push(x).filter(pred) == if pred(x) {
            s.filter(pred).push(x)
        } else {
            s.filter(pred)
        },
{
    reveal(Seq::filter);
    assert(s.push(x).drop_last() =~= s);
}

proof fn lemma_filter_empty<A>(pred: spec_fn(A) -> bool)
    ensures
        Seq::<A>::empty().filter(pred) == Seq::<A>::empty(),
{
    reveal(Seq::filter);
}

/// A filter keeps nothing when nothing satisfies the predicate.
proof fn lemma_filter_none<A>(s: Seq<A>, pred: spec_fn(A) -> bool)
    requires
        forall|i: int| 0 <= i < s.len() ==> !pred(#[trigger] s[i]),
    ensures
        s.filter(pred) == Seq::<A>::empty(),
    decreases s.len(),
{
    reveal(Seq::filter);
    if s.len() > 0 {
        lemma_filter_none(s.drop_last(), pred);
    }
}

/// Every element a filter keeps was in the input.
proof fn lemma_filter_sub<A>(s: Seq<A>, pred: spec_fn(A) -> bool)
    ensures
        forall|i: int|
            0 <= i < s.filter(pred).len() ==> s.contains(#[trigger] s.filter(pred)[i]),
    decreases s.len(),
{
    reveal(Seq::filter);
    if s.len() > 0 {
        lemma_filter_sub(s.drop_last(), pred);
        assert forall|i: int| 0 <= i < s.filter(pred).len() implies s.contains(
            #[trigger] s.filter(pred)[i],
        ) by {
            let x = s.filter(pred)[i];
            if i < s.drop_last().filter(pred).len() {
                assert(s.drop_last().contains(x));
                let j = choose|j: int| 0 <= j < s.drop_last().len() && s.drop_last()[j] == x;
                assert(s[j] == x);
            } else {
                assert(x == s.last());
                assert(s[s.len() - 1] == x);
            }
        }
    }
}

/// Inserting adds the new event and keeps the rest.
proof fn lemma_insert_by_start_elems(s: Seq<Event>, e: Event)
    ensures
        insert_by_start(s, e).len() == s.len() + 1,
        forall|i: int|
            0 <= i < insert_by_start(s, e).len() ==> insert_by_start(s, e)[i] == e || s.contains(
                #[trigger] insert_by_start(s, e)[i],
            ),
    decreases s.len(),
{
    if s.len() == 0 {
    } else if s[0].start.secs <= e.start.secs {
        lemma_insert_by_start_elems(s.drop_first(), e);
        assert forall|i: int| 0 <= i < insert_by_start(s, e).len() implies insert_by_start(s, e)[i]
            == e || s.contains(#[trigger] insert_by_start(s, e)[i]) by {
            let out = insert_by_start(s, e);
            if i == 0 {
                assert(out[0] == s[0]);
                assert(s.contains(s[0]));
            } else {
                let rest = insert_by_start(s.drop_first(), e);
                assert(out[i] == rest[i - 1]);
                if rest[i - 1] != e {
                    assert(s.drop_first().contains(rest[i - 1]));
                    let j = choose|j: int|
                        0 <= j < s.drop_first().len() && s.drop_first()[j] == rest[i - 1];
                    assert(s[j + 1] == rest[i - 1]);
                }
            }
        }
    } else {
        assert forall|i: int| 0 <= i < insert_by_start(s, e).len() implies insert_by_start(s, e)[i]
            == e || s.contains(#[trigger] insert_by_start(s, e)[i]) by {
            if i > 0 {
                assert(insert_by_start(s, e)[i] == s[i - 1]);
            }
        }
    }
}

/// Inserting into a sorted sequence keeps it sorted.
proof fn lemma_insert_by_start_sorted(s: Seq<Event>, e: Event)
    requires
        sorted_by_start(s),
    ensures
        sorted_by_start(insert_by_start(s, e)),
    decreases s.len(),
{
    if s.len() == 0 {
    } else if s[0].start.secs <= e.start.secs {
        assert(sorted_by_start(s.drop_first()));
        lemma_insert_by_start_sorted(s.drop_first(), e);
        lemma_insert_by_start_elems(s.drop_first(), e);
        let rest = insert_by_start(s.drop_first(), e);
        let out = insert_by_start(s, e);
        assert forall|i: int, j: int| 0 <= i < j < out.len() implies out[i].start.secs
            <= out[j].start.secs by {
            if i == 0 {
                if rest[j - 1] != e {
                    assert(s.drop_first().contains(rest[j - 1]));
                    let k = choose|k: int|
                        0 <= k < s.drop_first().len() && s.drop_first()[k] == rest[j - 1];
                    assert(s[k + 1] == rest[j - 1]);
                }
            } else {
                assert(out[i] == rest[i - 1] && out[j] == rest[j - 1]);
            }
        }
    } else {
        assert forall|i: int, j: int|
            0 <= i < j < insert_by_start(s, e).len() implies insert_by_start(s, e)[i].start.secs
            <= insert_by_start(s, e)[j].start.secs by {
            if i > 0 {
                assert(insert_by_start(s, e)[i] == s[i - 1]);
                assert(insert_by_start(s, e)[j] == s[j - 1]);
            } else {
                assert(insert_by_start(s, e)[j] == s[j - 1]);
                assert(s[0].start.secs <= s[j - 1].start.secs);
            }
        }
    }
}

/// The sort's output is sorted by start time.
pub proof fn lemma_sort_sorted(s: Seq<Event>)
    ensures
        sorted_by_start(sort_by_start(s)),
    decreases s.len(),
{
    if s.len() > 0 {
        lemma_sort_sorted(s.drop_last());
        lemma_insert_by_start_sorted(sort_by_start(s.drop_last()), s.last());
    }
}

/// Sorting neither invents nor loses events: every output event is an
/// input event.
pub proof fn lemma_sort_elems(s: Seq<Event>)
    ensures
        sort_by_start(s).len() == s.len(),
        forall|i: int|
            0 <= i < sort_by_start(s).len() ==> s.contains(#[trigger] sort_by_start(s)[i]),
    decreases s.len(),
{
    if s.len() > 0 {
        lemma_sort_elems(s.drop_last());
        lemma_insert_by_start_elems(sort_by_start(s.drop_last()), s.last());
        assert forall|i: int| 0 <= i < sort_by_start(s).len() implies s.contains(
            #[trigger] sort_by_start(s)[i],
        ) by {
            let x = sort_by_start(s)[i];
            if x == s.last() {
                assert(s[s.len() - 1] == x);
            } else {
                assert(sort_by_start(s.drop_last()).contains(x));
                let j = choose|j: int|
                    0 <= j < sort_by_start(s.drop_last()).len() && sort_by_start(s.drop_last())[j]
                        == x;
                assert(s.drop_last().contains(x));
                let k = choose|k: int| 0 <= k < s.drop_last().len() && s.drop_last()[k] == x;
                assert(s[k] == x);
            }
        }
    }
}

/// The events with a given start time, in order.
pub open spec fn with_start(s: Seq<Event>, t: u64) -> Seq<Event> {
    s.filter(start_is(t))
}

/// The predicate of starting exactly at `t`.
pub open spec fn start_is(t: u64) -> spec_fn(Event) -> bool {
    |e: Event| e.start.secs == t
}

proof fn lemma_insert_by_start_stable(s: Seq<Event>, e: Event, t: u64)
    requires
        sorted_by_start(s),
    ensures
        with_start(insert_by_start(s, e), t) == if e.start.secs == t {
            with_start(s, t).push(e)
        } else {
            with_start(s, t)
        },
    decreases s.len(),
{
    reveal(Seq::filter);
    let pred = start_is(t);
    if s.len() == 0 {
        lemma_filter_empty::<Event>(pred);
        lemma_filter_push(Seq::<Event>::empty(), e, pred);
        assert(Seq::<Event>::empty().push(e) =~= seq![e]);
        assert(insert_by_start(s, e) == seq![e]);
    } else if s[0].start.secs <= e.start.secs {
        assert(sorted_by_start(s.drop_first()));
        lemma_insert_by_start_stable(s.drop_first(), e, t);
        let head = seq![s[0]];
        let rest = insert_by_start(s.drop_first(), e);
        Seq::filter_distributes_over_add(head, rest, pred);
        Seq::filter_distributes_over_add(head, s.drop_first(), pred);
        assert(head + s.drop_first() =~= s);
        if e.start.secs == t {
            assert(head.filter(pred) + with_start(s.drop_first(), t).push(e) =~= (head.filter(pred)
                + with_start(s.drop_first(), t)).push(e));
        }
    } else {
        // The new event goes in front; nothing already present shares its
        // start time, since everything present starts strictly later.
        let head = seq![e];
        Seq::filter_distributes_over_add(head, s, pred);
        lemma_filter_push(Seq::<Event>::empty(), e, pred);
        lemma_filter_empty::<Event>(pred);
        assert(Seq::<Event>::empty().push(e) =~= head);
        if e.start.secs == t {
            assert forall|i: int| 0 <= i < s.len() implies !pred(#[trigger] s[i]) by {
                assert(s[0].start.secs <= s[i].start.secs);
            }
            lemma_filter_none(s, pred);
            assert(head + Seq::<Event>::empty() =~= head);
            assert(with_start(s, t).push(e) =~= head);
        } else {
            assert(head.filter(pred) + s.filter(pred) =~= s.filter(pred));
        }
    }
}

/// Sorting by start is stable: for every start time, the events with
/// that start keep their relative input order.
pub proof fn lemma_sort_stable(s: Seq<Event>, t: u64)
    ensures
        with_start(sort_by_start(s), t) == with_start(s, t),
    decreases s.len(),
{
    if s.len() > 0 {
        lemma_sort_stable(s.drop_last(), t);
        lemma_sort_sorted(s.drop_last());
        lemma_insert_by_start_stable(sort_by_start(s.drop_last()), s.last(), t);
        lemma_filter_push(s.drop_last(), s.last(), start_is(t));
        assert(s.drop_last().push(s.last()) =~= s);
    }
}

/// The happening-now stage keeps exactly the events whose half-open
/// interval `[start, end)` contains `now`.
pub proof fn lemma_happening_now_exact(s: Seq<Event>, now: u64, e: Event)
    ensures
        stage_spec(FilterStage::HappeningNow(now), s).contains(e) <==> s.contains(e)
            && e.start.secs <= now < e.end.secs,
{
    lemma_stage_keeps_exact(FilterStage::HappeningNow(now), s, e);
}

/// A starts-after stage followed by a starts-before stage keeps exactly
/// the events whose start lies in the half-open window `[lo, hi)`: a
/// start equal to the lower bound is kept, one equal to the upper bound
/// is not.
pub proof fn lemma_window_half_open(s: Seq<Event>, lo: u64, hi: u64, e: Event)
    ensures
        stage_spec(FilterStage::StartsBefore(hi), stage_spec(FilterStage::StartsAfter(lo), s))
            .contains(e) <==> s.contains(e) && lo <= e.start.secs < hi,
{
    let mid = stage_spec(FilterStage::StartsAfter(lo), s);
    lemma_stage_keeps_exact(FilterStage::StartsAfter(lo), s, e);
    lemma_stage_keeps_exact(FilterStage::StartsBefore(hi), mid, e);
}

/// A selection stage keeps exactly the input events its test accepts.
pub proof fn lemma_stage_keeps_exact(stage: FilterStage, s: Seq<Event>, e: Event)
    requires
        !(stage is SortByStart),
    ensures
        stage_spec(stage, s).contains(e) <==> s.contains(e) && stage_keeps(stage, e),
{
    let pred = stage_pred(stage);
    let out = s.filter(pred);
    if out.contains(e) {
        let i = choose|i: int| 0 <= i < out.len() && out[i] == e;
        lemma_filter_sub(s, pred);
        s.lemma_filter_pred(pred, i);
    }
    if s.contains(e) && stage_keeps(stage, e) {
        let i = choose|i: int| 0 <= i < s.len() && s[i] == e;
        s.lemma_filter_contains(pred, i);
    }
}

/// A selection stage keeps a property every input event has; the sort
/// stage does too, since it only reorders.
pub proof fn lemma_stage_preserves(stage: FilterStage, s: Seq<Event>, p: spec_fn(Event) -> bool)
    requires
        forall|i: int| 0 <= i < s.len() ==> p(#[trigger] s[i]),
    ensures
        forall|i: int|
            0 <= i < stage_spec(stage, s).len() ==> p(#[trigger] stage_spec(stage, s)[i]),
{
    let out = stage_spec(stage, s);
    if stage is SortByStart {
        lemma_sort_elems(s);
        assert forall|i: int| 0 <= i < out.len() implies p(#[trigger] out[i]) by {
            assert(s.contains(out[i]));
            let j = choose|j: int| 0 <= j < s.len() && s[j] == out[i];
        }
    } else {
        lemma_filter_sub(s, stage_pred(stage));
        assert forall|i: int| 0 <= i < out.len() implies p(#[trigger] out[i]) by {
            assert(s.contains(out[i]));
            let j = choose|j: int| 0 <= j < s.len() && s[j] == out[i];
        }
    }
}

/// A pipeline output keeps a property every input event has.
pub proof fn lemma_pipeline_preserves(
    stages: Seq<FilterStage>,
    s: Seq<Event>,
    p: spec_fn(Event) -> bool,
)
    requires
        forall|i: int| 0 <= i < s.len() ==> p(#[trigger] s[i]),
    ensures
        forall|i: int|
            0 <= i < pipeline_spec(stages, s).len() ==> p(
                #[trigger] pipeline_spec(stages, s)[i],
            ),
    decreases stages.len(),
{
    if stages.len() == 0 {
        assert(pipeline_spec(stages, s) == s);
    } else {
        lemma_stage_preserves(stages[0], s, p);
        lemma_pipeline_preserves(stages.drop_first(), stage_spec(stages[0], s), p);
        assert(pipeline_spec(stages, s) == pipeline_spec(
            stages.drop_first(),
            stage_spec(stages[0], s),
        ));
    }
}

/// Every stage turns an empty event list into an empty one, never an
/// error.
pub proof fn lemma_stage_empty(stage: FilterStage)
    ensures
        stage_spec(stage, Seq::<Event>::empty()) == Seq::<Event>::empty(),
{
    if !(stage is SortByStart) {
        lemma_filter_empty::<Event>(stage_pred(stage));
    }
}

/// Stable-sort a vector of events ascending by start time.
pub fn sort_events_by_start(events: &mut Vec<Event>)
    ensures
        final(events)@ == sort_by_start(old(events)@),
        sorted_by_start(final(events)@),
{
    proof {
        lemma_sort_sorted(events@);
    }
    let mut out: Vec<Event> = Vec::new();
    let mut i: usize = 0;
    while i < events.len()
        invariant
            i <= events@.len(),
            out@ == sort_by_start(events@.take(i as int)),
        decreases events@.len() - i,
    {
        let e = events[i].clone();
        insert_event(&mut out, e);
        proof {
            assert(events@.take(i + 1 as int).drop_last() =~= events@.take(i as int));
            assert(events@.take(i + 1 as int).last() == events@[i as int]);
        }
        i = i + 1;
    }
    proof {
        assert(events@.take(events@.len() as int) =~= events@);
    }
    *events = out;
}

/// Insert an event after every event that starts no later than it does.
fn insert_event(out: &mut Vec<Event>, e: Event)
    ensures
        final(out)@ == insert_by_start(old(out)@, e),
{
    let mut i: usize = 0;
    while i < out.len() && out[i].start.secs <= e.start.secs
        invariant
            i <= out@.len(),
            out@ == old(out)@,
            forall|j: int| 0 <= j < i ==> out@[j].start.secs <= e.start.secs,
        decreases out@.len() - i,
    {
        i = i + 1;
    }
    proof {
        lemma_insert_by_start_at(out@, e, i as int);
    }
    out.insert(i, e);
    proof {
        assert(old(out)@.insert(i as int, e) =~= old(out)@.take(i as int) + seq![e] + old(
            out,
        )@.skip(i as int));
    }
}

proof fn lemma_insert_by_start_at(s: Seq<Event>, e: Event, i: int)
    requires
        0 <= i <= s.len(),
        forall|j: int| 0 <= j < i ==> s[j].start.secs <= e.start.secs,
        i < s.len() ==> s[i].start.secs > e.start.secs,
    ensures
        insert_by_start(s, e) == s.take(i) + seq![e] + s.skip(i),
    decreases i,
{
    if i == 0 {
        if s.len() == 0 {
            assert(insert_by_start(s, e) =~= s.take(0) + seq![e] + s.skip(0));
        } else {
            assert(insert_by_start(s, e) =~= s.take(0) + seq![e] + s.skip(0));
        }
    } else {
        assert(s[0].start.secs <= e.start.secs);
        lemma_insert_by_start_at(s.drop_first(), e, i - 1);
        assert(insert_by_start(s, e) =~= s.take(i) + seq![e] + s.skip(i)) by {
            assert(insert_by_start(s, e) == seq![s[0]] + insert_by_start(s.drop_first(), e));
            assert(insert_by_start(s.drop_first(), e) == s.drop_first().take(i - 1) + seq![e]
                + s.drop_first().skip(i - 1));
        }
    }
}

/// Apply one stage to a vector of events.
pub fn apply_stage(stage: &FilterStage, events: &mut Vec<Event>)
    ensures
        final(events)@ == stage_spec(*stage, old(events)@),
{
    match stage {
        FilterStage::SortByStart => sort_events_by_start(events),
        _ => {
            let ghost pred = stage_pred(*stage);
            let mut out: Vec<Event> = Vec::new();
            let mut i: usize = 0;
            proof {
                lemma_filter_empty::<Event>(pred);
                assert(events@.take(0) =~= Seq::<Event>::empty());
            }
            while i < events.len()
                invariant
                    i <= events@.len(),
                    pred == stage_pred(*stage),
                    !(*stage is SortByStart),
                    out@ == events@.take(i as int).filter(pred),
                decreases events@.len() - i,
            {
                let keep = match stage {
                    FilterStage::StartsAfter(bound) => events[i].start.secs >= *bound,
                    FilterStage::StartsBefore(bound) => events[i].start.secs < *bound,
                    FilterStage::HappeningNow(now) => events[i].start.secs <= *now && *now
                        < events[i].end.secs,
                    FilterStage::CategoryIs(q) => match (q, events[i].category) {
                        (CategoryQuery::Talks, Category::Talk) => true,
                        (CategoryQuery::Workshops, Category::Workshop) => true,
                        (CategoryQuery::Workshops, Category::YouthWorkshop) => true,
                        (CategoryQuery::Performances, Category::Performance) => true,
                        _ => false,
                    },
                    FilterStage::SortByStart => false,
                };
                proof {
                    assert(keep == pred(events@[i as int]));
                    lemma_filter_push(events@.take(i as int), events@[i as int], pred);
                    assert(events@.take(i + 1 as int) =~= events@.take(i as int).push(
                        events@[i as int],
                    ));
                }
                if keep {
                    let e = events[i].clone();
                    out.push(e);
                }
                i = i + 1;
            }
            proof {
                assert(events@.take(events@.len() as int) =~= events@);
            }
            *events = out;
        },
    }
}

/// Apply a pipeline of stages, in order, to a vector of events.
pub fn apply_pipeline(stages: &Vec<FilterStage>, events: &mut Vec<Event>)
    ensures
        final(events)@ == pipeline_spec(stages@, old(events)@),
{
    let mut i: usize = 0;
    proof {
        assert(stages@.skip(0) =~= stages@);
    }
    while i < stages.len()
        invariant
            i <= stages@.len(),
            pipeline_spec(stages@, old(events)@) == pipeline_spec(
                stages@.skip(i as int),
                events@,
            ),
        decreases stages@.len() - i,
    {
        apply_stage(&stages[i], events);
        proof {
            assert(stages@.skip(i as int).drop_first() =~= stages@.skip(i + 1 as int));
            assert(stages@.skip(i as int)[0] == stages@[i as int]);
        }
        i = i + 1;
    }
    proof {
        assert(stages@.skip(stages@.len() as int) =~= Seq::<FilterStage>::empty());
    }
}

} // verus!
