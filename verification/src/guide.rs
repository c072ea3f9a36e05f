//! The next-everywhere query: for each venue that still has an upcoming
//! event, the single next event to start there after a given instant.

use vstd::prelude::*;

use crate::event::Event;
use crate::filter::sort_by_start;

verus! {

/// The first position in `acc` holding an event at venue `v`, or -1.
pub open spec fn find_venue(acc: Seq<Event>, v: Seq<char>) -> int
    decreases acc.len(),
{
    if acc.len() == 0 {
        -1
    } else if acc[0].venue@ == v {
        0
    } else {
        let r = find_venue(acc.drop_first(), v);
        if r == -1 {
            -1
        } else {
            r + 1
        }
    }
}

/// Fold one event into the per-venue table of next events: an event that
/// has already started is ignored; a new venue is appended; a known
/// venue keeps whichever event starts first, the earlier-seen one on a
/// tie.
pub open spec fn upsert_next(acc: Seq<Event>, e: Event, now: u64) -> Seq<Event> {
    if e.start.secs <= now {
        acc
    } else {
        let i = find_venue(acc, e.venue@);
        if i == -1 {
            acc.push(e)
        } else if e.start.secs < acc[i].start.secs {
            acc.update(i, e)
        } else {
            acc
        }
    }
}

/// The per-venue table of next events: one event per venue that has an
/// event starting strictly after `now`, in order of the venues' first
/// qualifying appearance.
pub open spec fn collect_next(s: Seq<Event>, now: u64) -> Seq<Event>
    decreases s.len(),
{
    if s.len() == 0 {
        Seq::<Event>::empty()
    } else {
        upsert_next(collect_next(s.drop_last(), now), s.last(), now)
    }
}

proof fn lemma_find_venue_props(acc: Seq<Event>, v: Seq<char>)
    ensures
        find_venue(acc, v) == -1 ==> forall|i: int| 0 <= i < acc.len() ==> (#[trigger] acc[i]).venue@ != v,
        find_venue(acc, v) != -1 ==> {
            let r = find_venue(acc, v);
            &&& 0 <= r < acc.len()
            &&& acc[r].venue@ == v
            &&& forall|i: int| 0 <= i < r ==> (#[trigger] acc[i]).venue@ != v
        },
    decreases acc.len(),
{
    if acc.len() > 0 && acc[0].venue@ != v {
        lemma_find_venue_props(acc.drop_first(), v);
        let r = find_venue(acc.drop_first(), v);
        if r == -1 {
            assert forall|i: int| 0 <= i < acc.len() implies (#[trigger] acc[i]).venue@ != v by {
                if i > 0 {
                    assert(acc.drop_first()[i - 1] == acc[i]);
                }
            }
        } else {
            assert(acc[r + 1] == acc.drop_first()[r]);
            assert forall|i: int| 0 <= i < r + 1 implies (#[trigger] acc[i]).venue@ != v by {
                if i > 0 {
                    assert(acc.drop_first()[i - 1] == acc[i]);
                }
            }
        }
    }
}

/// Collect, for each venue with an event starting strictly after `now`,
/// the single next such event, and return them sorted ascending by
/// start time.
pub fn next_events_everywhere(events: &Vec<Event>, now: u64) -> (out: Vec<Event>)
    ensures
        out@ == sort_by_start(collect_next(events@, now)),
        crate::filter::sorted_by_start(out@),
{
    let mut acc: Vec<Event> = Vec::new();
    let mut i: usize = 0;
    while i < events.len()
        invariant
            i <= events@.len(),
            acc@ == collect_next(events@.take(i as int), now),
        decreases events@.len() - i,
    {
        if events[i].start.secs > now {
            let ghost pre = acc@;
            let ghost v = events@[i as int].venue@;
            let mut j: usize = 0;
            let mut found: bool = false;
            while j < acc.len() && !found
                invariant
                    i < events@.len(),
                    v == events@[i as int].venue@,
                    j <= acc@.len(),
                    acc@ == pre,
                    !found ==> forall|k: int| 0 <= k < j ==> (#[trigger] acc@[k]).venue@ != v,
                    found ==> j < acc@.len() && acc@[j as int].venue@ == v && forall|k: int|
                        0 <= k < j ==> (#[trigger] acc@[k]).venue@ != v,
                decreases acc@.len() - j + (if found { 0int } else { 1int }),
            {
                if acc[j].venue == events[i].venue {
                    found = true;
                } else {
                    j = j + 1;
                }
            }
            proof {
                lemma_find_venue_props(pre, v);
            }
            if found {
                proof {
                    assert(find_venue(pre, v) == j as int) by {
                        let r = find_venue(pre, v);
                        if r == -1 {
                        } else if r < j as int {
                            assert(pre[r].venue@ == v);
                        } else if r > j as int {
                            assert(pre[j as int].venue@ != v);
                        }
                    }
                }
                if events[i].start.secs < acc[j].start.secs {
                    let e = events[i].clone();
                    acc.remove(j);
                    acc.insert(j, e);
                    proof {
                        assert(acc@ =~= pre.update(j as int, events@[i as int]));
                    }
                }
            } else {
                let e = events[i].clone();
                acc.push(e);
            }
            proof {
                assert(acc@ == upsert_next(pre, events@[i as int], now));
            }
        }
        proof {
            assert(events@.take(i + 1 as int).drop_last() =~= events@.take(i as int));
            assert(events@.take(i + 1 as int).last() == events@[i as int]);
        }
        i = i + 1;
    }
    proof {
        assert(events@.take(events@.len() as int) =~= events@);
    }
    crate::filter::sort_events_by_start(&mut acc);
    acc
}

/// Some event at venue `v` starts strictly after `now`.
pub open spec fn has_upcoming(s: Seq<Event>, v: Seq<char>, now: u64) -> bool {
    exists|i: int| 0 <= i < s.len() && (#[trigger] s[i]).venue@ == v && s[i].start.secs > now
}

/// The table is complete and minimal: a venue appears exactly when it
/// has an upcoming event, and its entry starts no later than any of the
/// venue's upcoming events.
pub proof fn lemma_collect_next_venue(s: Seq<Event>, now: u64, v: Seq<char>)
    ensures
        has_upcoming(s, v, now) <==> exists|i: int|
            0 <= i < collect_next(s, now).len() && (#[trigger] collect_next(s, now)[i]).venue@
                == v,
        forall|i: int, j: int|
            0 <= i < collect_next(s, now).len() && (#[trigger] collect_next(s, now)[i]).venue@
                == v && 0 <= j < s.len() && (#[trigger] s[j]).venue@ == v && s[j].start.secs > now
                ==> collect_next(s, now)[i].start.secs <= s[j].start.secs,
    decreases s.len(),
{
    if s.len() > 0 {
        lemma_collect_next_venue(s.drop_last(), now, v);
        let pre = collect_next(s.drop_last(), now);
        let e = s.last();
        let out = collect_next(s, now);
        lemma_find_venue_props(pre, e.venue@);
        assert(s[s.len() - 1] == e);
        assert(forall|j: int| 0 <= j < s.len() - 1 ==> s.drop_last()[j] == #[trigger] s[j]);
        if e.start.secs <= now {
            assert(out == pre);
            if has_upcoming(s, v, now) {
                let j = choose|j: int|
                    0 <= j < s.len() && (#[trigger] s[j]).venue@ == v && s[j].start.secs > now;
                assert(j < s.len() - 1);
                assert(has_upcoming(s.drop_last(), v, now));
            }
        } else {
            let r = find_venue(pre, e.venue@);
            if r == -1 {
                assert(out == pre.push(e));
                assert(forall|i: int| 0 <= i < pre.len() ==> out[i] == #[trigger] pre[i]);
                if e.venue@ == v {
                    // The venue was absent, so nothing earlier qualified
                    // there; the new entry is its only upcoming event.
                    assert(out[out.len() - 1].venue@ == v);
                    assert(!has_upcoming(s.drop_last(), v, now));
                    assert forall|i: int, j: int|
                        0 <= i < out.len() && (#[trigger] out[i]).venue@ == v && 0 <= j < s.len()
                            && (#[trigger] s[j]).venue@ == v && s[j].start.secs > now implies
                        out[i].start.secs <= s[j].start.secs by {
                        if i < pre.len() {
                            assert(has_upcoming(s.drop_last(), v, now));
                        } else {
                            assert(j == s.len() - 1);
                        }
                    }
                } else {
                    if has_upcoming(s, v, now) {
                        let j = choose|j: int|
                            0 <= j < s.len() && (#[trigger] s[j]).venue@ == v && s[j].start.secs
                                > now;
                        assert(j < s.len() - 1);
                        assert(has_upcoming(s.drop_last(), v, now));
                    }
                }
            } else {
                let kept = if e.start.secs < pre[r].start.secs {
                    pre.update(r, e)
                } else {
                    pre
                };
                assert(out == kept);
                assert(out.len() == pre.len());
                assert(forall|i: int|
                    0 <= i < pre.len() && i != r ==> out[i] == #[trigger] pre[i]);
                assert(out[r].venue@ == e.venue@);
                assert(out[r].start.secs <= pre[r].start.secs);
                assert(out[r].start.secs <= e.start.secs);
                if e.venue@ == v {
                    assert(has_upcoming(s.drop_last(), v, now) <==> exists|i: int|
                        0 <= i < pre.len() && (#[trigger] pre[i]).venue@ == v);
                    assert(pre[r].venue@ == v);
                    assert(has_upcoming(s.drop_last(), v, now));
                    assert forall|i: int, j: int|
                        0 <= i < out.len() && (#[trigger] out[i]).venue@ == v && 0 <= j < s.len()
                            && (#[trigger] s[j]).venue@ == v && s[j].start.secs > now implies
                        out[i].start.secs <= s[j].start.secs by {
                        if i != r {
                            assert(pre[i].venue@ == v);
                        }
                        if j < s.len() - 1 {
                            assert(s.drop_last()[j] == s[j]);
                            if i == r {
                                assert(pre[r].start.secs <= s[j].start.secs);
                            }
                        } else {
                            assert(s[j] == e);
                            if i != r {
                                // Two distinct entries of the table would
                                // share the venue.
                                lemma_collect_next_elems(s.drop_last(), now);
                                assert(pre[i].venue@ != pre[r].venue@);
                                assert(false);
                            }
                        }
                    }
                } else {
                    assert(forall|i: int|
                        0 <= i < out.len() && (#[trigger] out[i]).venue@ == v ==> i != r && out[i]
                            == pre[i]);
                    if has_upcoming(s, v, now) {
                        let j = choose|j: int|
                            0 <= j < s.len() && (#[trigger] s[j]).venue@ == v && s[j].start.secs
                                > now;
                        assert(j < s.len() - 1);
                        assert(has_upcoming(s.drop_last(), v, now));
                        let i0 = choose|i: int|
                            0 <= i < pre.len() && (#[trigger] pre[i]).venue@ == v;
                        if i0 == r {
                            assert(pre[r].venue@ == e.venue@);
                            assert(false);
                        }
                        assert(out[i0].venue@ == v);
                    }
                }
            }
        }
    }
}

/// Every collected event is an input event that starts strictly after
/// `now`, and venues appear at most once.
pub proof fn lemma_collect_next_elems(s: Seq<Event>, now: u64)
    ensures
        forall|i: int|
            0 <= i < collect_next(s, now).len() ==> s.contains(#[trigger] collect_next(s, now)[i])
                && collect_next(s, now)[i].start.secs > now,
        forall|i: int, j: int|
            0 <= i < j < collect_next(s, now).len() ==> (#[trigger] collect_next(s, now)[i]).venue@
                != (#[trigger] collect_next(s, now)[j]).venue@,
    decreases s.len(),
{
    if s.len() > 0 {
        lemma_collect_next_elems(s.drop_last(), now);
        let pre = collect_next(s.drop_last(), now);
        let e = s.last();
        let out = collect_next(s, now);
        assert(s[s.len() - 1] == e);
        assert forall|i: int| 0 <= i < pre.len() implies s.contains(#[trigger] pre[i]) by {
            assert(s.drop_last().contains(pre[i]));
            let k = choose|k: int| 0 <= k < s.drop_last().len() && s.drop_last()[k] == pre[i];
            assert(s[k] == pre[i]);
        }
        if e.start.secs <= now {
        } else {
            lemma_find_venue_props(pre, e.venue@);
            let r = find_venue(pre, e.venue@);
            if r == -1 {
                assert forall|i: int, j: int| 0 <= i < j < out.len() implies (#[trigger] out[i]).venue@
                    != (#[trigger] out[j]).venue@ by {
                    if j == out.len() - 1 {
                        assert(out[i] == pre[i]);
                    }
                }
            }
        }
    }
}

} // verus!
