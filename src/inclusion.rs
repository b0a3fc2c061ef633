//! Cross-selection inclusion: calls chosen by call selections bring their
//! owning extrinsics with them, and events chosen by event selections bring
//! the calls and extrinsics that emitted them.
use crate::entities::{Call, Event, Extrinsic};
use crate::selection::{
    call_matches, call_selected, event_matches, event_selected, CallSelection, EventSelection,
};
use vstd::prelude::*;

verus! {

/// `link` is present and refers to `id`.
pub open spec fn names(link: Option<String>, id: Seq<char>) -> bool {
    match link {
        Some(x) => x@ == id,
        None => false,
    }
}

/// Some event of `events` that the selections choose was emitted by call `id`.
pub open spec fn emitted_selected_event_in_call(
    selections: Seq<EventSelection>,
    events: Seq<Event>,
    id: Seq<char>,
) -> bool {
    exists|i: int|
        0 <= i < events.len() && event_selected(selections, (#[trigger] events[i]).name@)
            && names(events[i].call_id, id)
}

/// Some event of `events` that the selections choose belongs to extrinsic `id`.
pub open spec fn emitted_selected_event_in_extrinsic(
    selections: Seq<EventSelection>,
    events: Seq<Event>,
    id: Seq<char>,
) -> bool {
    exists|i: int|
        0 <= i < events.len() && event_selected(selections, (#[trigger] events[i]).name@)
            && names(events[i].extrinsic_id, id)
}

/// A call is kept when it matches a call selection or emitted a kept event.
pub open spec fn call_kept(
    calls_sel: Seq<CallSelection>,
    events_sel: Seq<EventSelection>,
    events: Seq<Event>,
    c: Call,
) -> bool {
    call_selected(calls_sel, c.name@) || emitted_selected_event_in_call(events_sel, events, c.id@)
}

/// Some kept call of `calls` belongs to extrinsic `id`.
pub open spec fn owns_kept_call(
    calls_sel: Seq<CallSelection>,
    events_sel: Seq<EventSelection>,
    calls: Seq<Call>,
    events: Seq<Event>,
    id: Seq<char>,
) -> bool {
    exists|i: int|
        0 <= i < calls.len() && call_kept(calls_sel, events_sel, events, #[trigger] calls[i])
            && calls[i].extrinsic_id@ == id
}

/// An extrinsic is kept when it owns a kept call or a kept event.
pub open spec fn extrinsic_kept(
    calls_sel: Seq<CallSelection>,
    events_sel: Seq<EventSelection>,
    calls: Seq<Call>,
    events: Seq<Event>,
    e: Extrinsic,
) -> bool {
    owns_kept_call(calls_sel, events_sel, calls, events, e.id@)
        || emitted_selected_event_in_extrinsic(events_sel, events, e.id@)
}

/// Whether some event that the selections choose was emitted by call `id`.
fn emits_match(selections: &Vec<EventSelection>, events: &Vec<Event>, id: &String) -> (r: bool)
    ensures
        r == emitted_selected_event_in_call(selections@, events@, id@),
{
    let mut i: usize = 0;
    while i < events.len()
        invariant
            i <= events.len(),
            forall|j: int|
                0 <= j < i ==> !(event_selected(selections@, (#[trigger] events@[j]).name@)
                    && names(events@[j].call_id, id@)),
        decreases events.len() - i,
    {
        let hit = match &events[i].call_id {
            Some(c) => *c == *id,
            None => false,
        };
        if hit && event_matches(selections, &events[i].name) {
            return true;
        }
        i = i + 1;
    }
    false
}

/// Whether some event that the selections choose belongs to extrinsic `id`.
fn holds_event_match(selections: &Vec<EventSelection>, events: &Vec<Event>, id: &String) -> (r:
    bool)
    ensures
        r == emitted_selected_event_in_extrinsic(selections@, events@, id@),
{
    let mut i: usize = 0;
    while i < events.len()
        invariant
            i <= events.len(),
            forall|j: int|
                0 <= j < i ==> !(event_selected(selections@, (#[trigger] events@[j]).name@)
                    && names(events@[j].extrinsic_id, id@)),
        decreases events.len() - i,
    {
        let hit = match &events[i].extrinsic_id {
            Some(x) => *x == *id,
            None => false,
        };
        if hit && event_matches(selections, &events[i].name) {
            return true;
        }
        i = i + 1;
    }
    false
}

/// Whether some kept call belongs to extrinsic `id`.
fn owns_kept(
    calls_sel: &Vec<CallSelection>,
    events_sel: &Vec<EventSelection>,
    calls: &Vec<Call>,
    events: &Vec<Event>,
    id: &String,
) -> (r: bool)
    ensures
        r == owns_kept_call(calls_sel@, events_sel@, calls@, events@, id@),
{
    let mut i: usize = 0;
    while i < calls.len()
        invariant
            i <= calls.len(),
            forall|j: int|
                0 <= j < i ==> !(call_kept(calls_sel@, events_sel@, events@, #[trigger] calls@[j])
                    && calls@[j].extrinsic_id@ == id@),
        decreases calls.len() - i,
    {
        if calls[i].extrinsic_id == *id {
            if call_matches(calls_sel, &calls[i].name) || emits_match(
                events_sel,
                events,
                &calls[i].id,
            ) {
                return true;
            }
        }
        i = i + 1;
    }
    false
}

/// Keeps, of one block's records, the events that match an event
/// selection, the calls that match a call selection or emitted such an
/// event, and the extrinsics that own a kept call or a kept event, each in
/// its original order.
pub fn select_block(
    calls_sel: &Vec<CallSelection>,
    events_sel: &Vec<EventSelection>,
    extrinsics: Vec<Extrinsic>,
    calls: Vec<Call>,
    events: Vec<Event>,
) -> (r: (Vec<Extrinsic>, Vec<Call>, Vec<Event>))
    ensures
        r.0@ == extrinsics@.filter(
            |e: Extrinsic| extrinsic_kept(calls_sel@, events_sel@, calls@, events@, e),
        ),
        r.1@ == calls@.filter(|c: Call| call_kept(calls_sel@, events_sel@, events@, c)),
        r.2@ == events@.filter(|v: Event| event_selected(events_sel@, v.name@)),
{
    let ghost (ee, ce, ve) = (extrinsics@, calls@, events@);
    let ghost pe = |e: Extrinsic| extrinsic_kept(calls_sel@, events_sel@, ce, ve, e);
    let ghost pc = |c: Call| call_kept(calls_sel@, events_sel@, ve, c);
    let ghost pv = |v: Event| event_selected(events_sel@, v.name@);

    let mut kept_ext: Vec<Extrinsic> = Vec::new();
    let mut rest_ext = extrinsics;
    let mut k: usize = 0;
    let n: usize = rest_ext.len();
    proof {
        reveal(Seq::filter);
        assert(ee.take(0) =~= Seq::<Extrinsic>::empty());
        assert(ee.skip(0) =~= ee);
    }
    while rest_ext.len() > 0
        invariant
            k + rest_ext.len() == n,
            n == ee.len(),
            rest_ext@ == ee.skip(k as int),
            calls@ == ce,
            events@ == ve,
            pe == (|e: Extrinsic| extrinsic_kept(calls_sel@, events_sel@, ce, ve, e)),
            kept_ext@ == ee.take(k as int).filter(pe),
        decreases rest_ext.len(),
    {
        let e = rest_ext.remove(0);
        assert(rest_ext@ =~= ee.skip(k + 1));
        assert(e == ee[k as int]);
        proof {
            reveal(Seq::filter);
            assert(ee.take(k + 1).drop_last() =~= ee.take(k as int));
        }
        if owns_kept(calls_sel, events_sel, &calls, &events, &e.id) || holds_event_match(
            events_sel,
            &events,
            &e.id,
        ) {
            kept_ext.push(e);
        }
        k = k + 1;
    }
    assert(ee.take(n as int) =~= ee);

    let mut kept_calls: Vec<Call> = Vec::new();
    let mut rest_calls = calls;
    let mut m: usize = 0;
    let cn: usize = rest_calls.len();
    proof {
        reveal(Seq::filter);
        assert(ce.take(0) =~= Seq::<Call>::empty());
        assert(ce.skip(0) =~= ce);
    }
    while rest_calls.len() > 0
        invariant
            m + rest_calls.len() == cn,
            cn == ce.len(),
            rest_calls@ == ce.skip(m as int),
            events@ == ve,
            pc == (|c: Call| call_kept(calls_sel@, events_sel@, ve, c)),
            kept_calls@ == ce.take(m as int).filter(pc),
        decreases rest_calls.len(),
    {
        let c = rest_calls.remove(0);
        assert(rest_calls@ =~= ce.skip(m + 1));
        assert(c == ce[m as int]);
        proof {
            reveal(Seq::filter);
            assert(ce.take(m + 1).drop_last() =~= ce.take(m as int));
        }
        if call_matches(calls_sel, &c.name) || emits_match(events_sel, &events, &c.id) {
            kept_calls.push(c);
        }
        m = m + 1;
    }
    assert(ce.take(cn as int) =~= ce);

    let mut kept_events: Vec<Event> = Vec::new();
    let mut rest_events = events;
    let mut q: usize = 0;
    let vn: usize = rest_events.len();
    proof {
        reveal(Seq::filter);
        assert(ve.take(0) =~= Seq::<Event>::empty());
        assert(ve.skip(0) =~= ve);
    }
    while rest_events.len() > 0
        invariant
            q + rest_events.len() == vn,
            vn == ve.len(),
            rest_events@ == ve.skip(q as int),
            pv == (|v: Event| event_selected(events_sel@, v.name@)),
            kept_events@ == ve.take(q as int).filter(pv),
        decreases rest_events.len(),
    {
        let v = rest_events.remove(0);
        assert(rest_events@ =~= ve.skip(q + 1));
        assert(v == ve[q as int]);
        proof {
            reveal(Seq::filter);
            assert(ve.take(q + 1).drop_last() =~= ve.take(q as int));
        }
        if event_matches(events_sel, &v.name) {
            kept_events.push(v);
        }
        q = q + 1;
    }
    assert(ve.take(vn as int) =~= ve);
    (kept_ext, kept_calls, kept_events)
}

/// Selections combine by OR: a call that matches only the second of two
/// call selections is kept, and so is the extrinsic that owns it, though
/// no extrinsic was asked for.
pub proof fn lemma_call_selections_or(
    first: CallSelection,
    second: CallSelection,
    events_sel: Seq<EventSelection>,
    extrinsics: Seq<Extrinsic>,
    calls: Seq<Call>,
    events: Seq<Event>,
    c: int,
    e: int,
)
    requires
        0 <= c < calls.len(),
        0 <= e < extrinsics.len(),
        calls[c].name@ == second.name@,
        extrinsics[e].id@ == calls[c].extrinsic_id@,
    ensures
        calls.filter(|x: Call| call_kept(seq![first, second], events_sel, events, x)).contains(
            calls[c],
        ),
        extrinsics.filter(
            |x: Extrinsic| extrinsic_kept(seq![first, second], events_sel, calls, events, x),
        ).contains(extrinsics[e]),
{
    broadcast use vstd::seq_lib::group_filter_ensures;

    let s = seq![first, second];
    assert(s[1] == second);
    assert(call_selected(s, calls[c].name@));
    assert(call_kept(s, events_sel, events, calls[c]));
    assert(owns_kept_call(s, events_sel, calls, events, extrinsics[e].id@));
}

} // verus!
