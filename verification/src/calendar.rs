//! The day's agenda: events ordered by their time of day.

use vstd::prelude::*;

use crate::domain::{first_n, Event};
use crate::text::{
    lemma_text_le_reflexive, lemma_text_le_total, lemma_text_le_transitive, text_at_or_before,
    text_le,
};

verus! {

broadcast use vstd::string::group_string_axioms;

/// Every event of `s` comes no later than those after it.
pub open spec fn sorted_by_time(s: Seq<Event>) -> bool {
    forall|i: int, j: int| 0 <= i < j < s.len() ==> text_le(s[i].time@, s[j].time@)
}

/// The events of `s` whose time is `t`, in order.
pub open spec fn events_at(s: Seq<Event>, t: Seq<char>) -> Seq<Event>
    decreases s.len(),
{
    if s.len() == 0 {
        seq![]
    } else if s.last().time@ == t {
        events_at(s.drop_last(), t).push(s.last())
    } else {
        events_at(s.drop_last(), t)
    }
}

/// Where `e` goes in `r`: after the last event, counted from the end, whose
/// time is not later than that of `e`.
pub open spec fn insert_position(r: Seq<Event>, e: Event) -> nat
    decreases r.len(),
{
    if r.len() == 0 {
        0
    } else if text_le(r.last().time@, e.time@) {
        r.len()
    } else {
        insert_position(r.drop_last(), e)
    }
}

/// `r` with `e` put in its place.
pub open spec fn insert_by_time(r: Seq<Event>, e: Event) -> Seq<Event> {
    r.insert(insert_position(r, e) as int, e)
}

/// The events of `s`, ordered by time; events with the same time keep their
/// order.
pub open spec fn sort_by_time(s: Seq<Event>) -> Seq<Event>
    decreases s.len(),
{
    if s.len() == 0 {
        seq![]
    } else {
        insert_by_time(sort_by_time(s.drop_last()), s.last())
    }
}

proof fn lemma_insert_position(r: Seq<Event>, e: Event)
    ensures
        insert_position(r, e) <= r.len(),
        forall|k: int|
            insert_position(r, e) <= k < r.len() ==> !text_le(#[trigger] r[k].time@, e.time@),
        insert_position(r, e) > 0 ==> text_le(r[insert_position(r, e) - 1].time@, e.time@),
    decreases r.len(),
{
    if r.len() > 0 && !text_le(r.last().time@, e.time@) {
        let q = r.drop_last();
        lemma_insert_position(q, e);
        assert forall|k: int| insert_position(r, e) <= k < r.len() implies !text_le(
            #[trigger] r[k].time@,
            e.time@,
        ) by {
            if k < q.len() {
                assert(r[k] == q[k]);
            }
        }
    }
}

/// Filtering by time distributes over concatenation.
pub proof fn lemma_events_at_concat(a: Seq<Event>, b: Seq<Event>, t: Seq<char>)
    ensures
        events_at(a + b, t) == events_at(a, t) + events_at(b, t),
    decreases b.len(),
{
    if b.len() == 0 {
        assert(a + b =~= a);
        assert(events_at(a, t) + events_at(b, t) =~= events_at(a, t));
    } else {
        lemma_events_at_concat(a, b.drop_last(), t);
        assert((a + b).drop_last() =~= a + b.drop_last());
        assert((a + b).last() == b.last());
        if b.last().time@ == t {
            assert(events_at(a, t) + events_at(b.drop_last(), t).push(b.last()) =~= (events_at(
                a,
                t,
            ) + events_at(b.drop_last(), t)).push(b.last()));
        }
    }
}

/// Filtering a single event by time.
proof fn lemma_events_at_single(e: Event, t: Seq<char>)
    ensures
        events_at(seq![e], t) == (if e.time@ == t {
            seq![e]
        } else {
            Seq::<Event>::empty()
        }),
{
    let s = seq![e];
    assert(s.drop_last() =~= Seq::<Event>::empty());
    assert(events_at(Seq::<Event>::empty(), t) =~= Seq::<Event>::empty());
    assert(s.last() == e);
    assert(Seq::<Event>::empty().push(e) =~= seq![e]);
}

/// No event of `s` has time `t`: filtering by `t` leaves nothing.
proof fn lemma_events_at_none(s: Seq<Event>, t: Seq<char>)
    requires
        forall|k: int| 0 <= k < s.len() ==> (#[trigger] s[k]).time@ != t,
    ensures
        events_at(s, t) == Seq::<Event>::empty(),
    decreases s.len(),
{
    if s.len() > 0 {
        let q = s.drop_last();
        assert forall|k: int| 0 <= k < q.len() implies (#[trigger] q[k]).time@ != t by {
            assert(q[k] == s[k]);
        }
        lemma_events_at_none(q, t);
    }
}

/// Inserting into an ordered sequence keeps it ordered, and adds the event
/// after those with its time.
proof fn lemma_insert_by_time(r: Seq<Event>, e: Event, t: Seq<char>)
    requires
        sorted_by_time(r),
    ensures
        sorted_by_time(insert_by_time(r, e)),
        events_at(insert_by_time(r, e), t) == events_at(r.push(e), t),
        insert_by_time(r, e).len() == r.len() + 1,
{
    lemma_insert_position(r, e);
    let p = insert_position(r, e) as int;
    let n = insert_by_time(r, e);
    let a = r.take(p);
    let b = r.skip(p);
    assert(n =~= a + seq![e] + b);
    assert(r =~= a + b);
    assert forall|i: int, j: int| 0 <= i < j < n.len() implies text_le(
        n[i].time@,
        n[j].time@,
    ) by {
        if j < p {
            assert(n[i] == r[i] && n[j] == r[j]);
        } else if j == p {
            assert(n[j] == e);
            assert(n[i] == r[i]);
            if i < p - 1 {
                lemma_text_le_transitive(r[i].time@, r[p - 1].time@, e.time@);
            }
        } else if i < p {
            assert(n[i] == r[i] && n[j] == r[j - 1]);
        } else if i == p {
            assert(n[i] == e && n[j] == r[j - 1]);
            assert(!text_le(r[j - 1].time@, e.time@));
            lemma_text_le_total(r[j - 1].time@, e.time@);
        } else {
            assert(n[i] == r[i - 1] && n[j] == r[j - 1]);
        }
    }
    lemma_events_at_concat(a + seq![e], b, t);
    lemma_events_at_concat(a, seq![e], t);
    lemma_events_at_concat(a, b, t);
    lemma_events_at_single(e, t);
    assert(r.push(e).drop_last() =~= r);
    if e.time@ == t {
        assert forall|k: int| 0 <= k < b.len() implies (#[trigger] b[k]).time@ != t by {
            assert(b[k] == r[p + k]);
            lemma_text_le_reflexive(t);
        }
        lemma_events_at_none(b, t);
        assert(events_at(a, t) + events_at(b, t) =~= events_at(a, t));
        assert(events_at(a, t) + events_at(seq![e], t) + events_at(b, t) =~= events_at(
            a,
            t,
        ).push(e));
    } else {
        assert(events_at(a, t) + events_at(seq![e], t) =~= events_at(a, t));
    }
}

/// Ordering by time gives an ordered sequence of the same events: for every
/// time, the events with that time are the same and in the same order.
pub proof fn lemma_sort_by_time(s: Seq<Event>)
    ensures
        sorted_by_time(sort_by_time(s)),
        sort_by_time(s).len() == s.len(),
        forall|t: Seq<char>| events_at(#[trigger] sort_by_time(s), t) == events_at(s, t),
    decreases s.len(),
{
    if s.len() > 0 {
        let q = s.drop_last();
        lemma_sort_by_time(q);
        assert forall|t: Seq<char>| events_at(#[trigger] sort_by_time(s), t) == events_at(
            s,
            t,
        ) by {
            lemma_insert_by_time(sort_by_time(q), s.last(), t);
            lemma_events_at_concat(sort_by_time(q), seq![s.last()], t);
            lemma_events_at_concat(q, seq![s.last()], t);
            assert(q + seq![s.last()] =~= s);
            assert(q.push(s.last()) =~= s);
            assert(sort_by_time(q).push(s.last()) =~= sort_by_time(q) + seq![s.last()]);
            assert(events_at(sort_by_time(q), t) == events_at(q, t));
            lemma_events_at_single(s.last(), t);
        }
        lemma_insert_by_time(sort_by_time(q), s.last(), Seq::empty());
    }
}


/// Events already in order stay as they are: ordering them again changes
/// nothing.
pub proof fn lemma_sorted_events_unchanged(s: Seq<Event>)
    requires
        sorted_by_time(s),
    ensures
        sort_by_time(s) == s,
    decreases s.len(),
{
    if s.len() > 0 {
        let q = s.drop_last();
        assert(sorted_by_time(q)) by {
            assert forall|i: int, j: int| 0 <= i < j < q.len() implies text_le(
                q[i].time@,
                q[j].time@,
            ) by {
                assert(q[i] == s[i] && q[j] == s[j]);
            }
        }
        lemma_sorted_events_unchanged(q);
        if q.len() > 0 {
            assert(q.last() == s[s.len() - 2]);
        }
        assert(insert_position(q, s.last()) == q.len());
        assert(q.insert(q.len() as int, s.last()) =~= s);
    }
}

/// Ordering the day's events twice gives the same as ordering them once.
pub proof fn lemma_sort_by_time_idempotent(s: Seq<Event>)
    ensures
        sort_by_time(sort_by_time(s)) == sort_by_time(s),
{
    lemma_sort_by_time(s);
    lemma_sorted_events_unchanged(sort_by_time(s));
}

/// Events from the configuration, as the dashboard lists them.
pub struct LocalEventsProvider;

impl LocalEventsProvider {
    /// The events, ordered by their time; events with the same time keep
    /// the order they were given in.
    pub fn events_for_today(events: &[Event]) -> (sorted: Vec<Event>)
        ensures
            sorted@ == sort_by_time(events@),
            sorted_by_time(sorted@),
            sorted@.len() == events@.len(),
            forall|t: Seq<char>| events_at(sorted@, t) == #[trigger] events_at(events@, t),
    {
        let mut sorted: Vec<Event> = Vec::new();
        let mut i: usize = 0;
        while i < events.len()
            invariant
                0 <= i <= events@.len(),
                sorted@ == sort_by_time(events@.take(i as int)),
            decreases events@.len() - i,
        {
            let e = events[i].duplicate();
            let mut j = sorted.len();
            assert(sorted@.take(j as int) =~= sorted@);
            while j > 0 && !text_at_or_before(sorted[j - 1].time.as_str(), e.time.as_str())
                invariant
                    0 <= j <= sorted@.len(),
                    insert_position(sorted@, e) == insert_position(sorted@.take(j as int), e),
                decreases j,
            {
                assert(sorted@.take(j as int).drop_last() =~= sorted@.take(j - 1));
                j = j - 1;
            }
            assert(events@.take(i + 1).drop_last() =~= events@.take(i as int));
            sorted.insert(j, e);
            i = i + 1;
        }
        assert(events@.take(events@.len() as int) =~= events@);
        proof {
            lemma_sort_by_time(events@);
        }
        sorted
    }

    /// The first `limit` events of the day, in the order of
    /// `events_for_today`.
    pub fn next_events(events: &[Event], limit: usize) -> (next: Vec<Event>)
        ensures
            next@ == first_n(sort_by_time(events@), limit as nat),
    {
        let mut next = Self::events_for_today(events);
        next.truncate(limit);
        next
    }
}

} // verus!
