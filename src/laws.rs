//! Properties that hold across events, proved over the engine's model.

use crate::cache::{icon_path_of, release_deletes, released, stored};
use crate::engine::{
    after_clear, after_close, after_create, after_return, asks_write, close_index, create_icon, deletes,
    emits, lemma_first_id, lemma_first_serial, make_room, step, valid,
    is_first_id, is_first_serial, with_id, EngineView,
};
use crate::notification::{created_record, CreateEvent, Event};
use vstd::prelude::*;

verus! {

/// No event takes the history beyond its capacity.
pub proof fn history_stays_bounded(s: EngineView, e: Event)
    requires
        valid(s),
    ensures
        valid(step(s, e)),
{
    match e {
        Event::Closed { id } => {
            let i = close_index(s, id);
            if i >= 0 {
                assert(make_room(s).len() < s.capacity);
            }
        },
        Event::RemoveFromHistory { id } => {
            lemma_first_id(s.history, id);
        },
        _ => {},
    }
}

/// A close into a full history drops the oldest record, and only it, before
/// the closed record is appended.
pub proof fn full_history_evicts_oldest(s: EngineView, id: u32)
    requires
        valid(s),
        close_index(s, id) >= 0,
        s.history.len() == s.capacity,
    ensures
        after_close(s, id).history == s.history.subrange(1, s.history.len() as int).push(
            s.pending[close_index(s, id)],
        ),
{
    assert(s.history.drop_first() =~= s.history.subrange(1, s.history.len() as int));
}

/// A creation with serial `serial`, its reply carrying `id`, then a close of
/// `id` append exactly one record to the history: the created one, with that id.
pub proof fn create_return_close_correlate(s: EngineView, ev: CreateEvent, serial: u32, id: u32)
    requires
        valid(s),
        ev.serial == Some(serial),
        id != 0,
        forall|j: int| 0 <= j < s.pending.len() ==> (#[trigger] s.pending[j]).serial != serial,
        forall|j: int| 0 <= j < s.pending.len() ==> (#[trigger] s.pending[j]).id != id,
    ensures
        ({
            let s1 = after_create(s, ev);
            let s3 = after_close(after_return(s1, serial, id), id);
            &&& s3.history == make_room(s).push(with_id(created_record(ev, serial, create_icon(s, ev.icon)), id))
            &&& s3.pending == s.pending
        }),
{
    let rec = created_record(ev, serial, create_icon(s, ev.icon));
    let s1 = after_create(s, ev);
    let n = s.pending.len() as int;
    assert(s1.pending == s.pending.push(rec));
    assert(is_first_serial(s1.pending, serial, n));
    lemma_first_serial(s1.pending, serial);
    let s2 = after_return(s1, serial, id);
    assert(s2.pending == s.pending.push(with_id(rec, id)));
    assert(is_first_id(s2.pending, id, n));
    lemma_first_id(s2.pending, id);
    assert(close_index(s2, id) == n);
    assert(s2.pending.remove(n) =~= s.pending);
}

/// A pending record that never got an id is never the one a close signal finalizes.
pub proof fn unreturned_record_never_closes(s: EngineView, id: u32, i: int)
    requires
        0 <= i < s.pending.len(),
        s.pending[i].id == 0,
    ensures
        close_index(s, id) != i,
{
    lemma_first_id(s.pending, id);
}

/// A reply, close or removal that matches no record changes nothing and emits nothing.
pub proof fn unmatched_events_are_no_ops(s: EngineView, e: Event)
    requires
        match e {
            Event::Return { reply_serial, id } => forall|j: int|
                0 <= j < s.pending.len() ==> (#[trigger] s.pending[j]).serial != reply_serial,
            Event::Closed { id } => forall|j: int|
                0 <= j < s.pending.len() ==> (#[trigger] s.pending[j]).id != id,
            Event::RemoveFromHistory { id } => forall|j: int|
                0 <= j < s.history.len() ==> (#[trigger] s.history[j]).id != id,
            _ => false,
        },
    ensures
        step(s, e) == s,
        !emits(s, e),
        forall|p: Seq<char>| !deletes(s, e, p),
{
    match e {
        Event::Return { reply_serial, id } => {
            lemma_first_serial(s.pending, reply_serial);
        },
        Event::Closed { id } => {
            lemma_first_id(s.pending, id);
        },
        Event::RemoveFromHistory { id } => {
            lemma_first_id(s.history, id);
        },
        _ => {},
    }
}

/// Two references to a new path count 2; one release leaves 1 and deletes
/// nothing; the second deletes the file and removes the entry.
pub proof fn icon_cache_counts_references(m: Map<Seq<char>, nat>, p: Seq<char>)
    requires
        !m.contains_key(p),
    ensures
        stored(stored(m, p), p).contains_key(p),
        stored(stored(m, p), p)[p] == 2,
        !release_deletes(stored(stored(m, p), p), p),
        released(stored(stored(m, p), p), p)[p] == 1,
        release_deletes(released(stored(stored(m, p), p), p), p),
        !released(released(stored(stored(m, p), p), p), p).contains_key(p),
        released(released(stored(stored(m, p), p), p), p) == m,
{
    assert(released(released(stored(stored(m, p), p), p), p) =~= m);
}

/// Two creations with the same raw bytes reference the same cache path, which
/// then counts two references; only the first asks for the file to be written.
pub proof fn same_raw_icon_shares_path(s: EngineView, ev1: CreateEvent, ev2: CreateEvent)
    requires
        ev1.serial is Some,
        ev2.serial is Some,
        ev1.icon is Raw,
        ev2.icon is Raw,
        ev1.icon->Raw_0.data@ == ev2.icon->Raw_0.data@,
        !s.cache.contains_key(icon_path_of(s.cache_dir, ev1.icon->Raw_0.data@)),
    ensures
        ({
            let path = icon_path_of(s.cache_dir, ev1.icon->Raw_0.data@);
            let s1 = after_create(s, ev1);
            let s2 = after_create(s1, ev2);
            &&& s1.pending.last().icon == path
            &&& s2.pending.last().icon == path
            &&& s2.cache[path] == 2
            &&& asks_write(s, Event::Create(ev1))
            &&& !asks_write(s1, Event::Create(ev2))
        }),
{
}

/// Clearing empties the history, the pending records and the cache index,
/// and deletes exactly the files the index held.
pub proof fn clear_is_total(s: EngineView)
    ensures
        after_clear(s).history.len() == 0,
        after_clear(s).pending.len() == 0,
        after_clear(s).cache == Map::<Seq<char>, nat>::empty(),
        forall|p: Seq<char>| deletes(s, Event::ClearHistory, p) <==> s.cache.contains_key(p),
        emits(s, Event::ClearHistory),
{
}

/// After a close, the newest-first history starts with the closed record,
/// followed by the earlier history, newest first.
pub proof fn closes_emit_newest_first(s: EngineView, id: u32)
    requires
        valid(s),
        close_index(s, id) >= 0,
    ensures
        after_close(s, id).history.reverse() == seq![s.pending[close_index(s, id)]] + make_room(s).reverse(),
{
    let h = make_room(s).push(s.pending[close_index(s, id)]);
    assert(h.reverse() =~= seq![s.pending[close_index(s, id)]] + make_room(s).reverse());
}

/// A creation that omits summary, body and urgency gets empty texts and
/// normal urgency.
pub proof fn absent_fields_default(s: EngineView, ev: CreateEvent, serial: u32)
    requires
        ev.serial == Some(serial),
        ev.summary is None,
        ev.body is None,
        ev.urgency is None,
    ensures
        after_create(s, ev).pending.last().summary == Seq::<char>::empty(),
        after_create(s, ev).pending.last().body == Seq::<char>::empty(),
        after_create(s, ev).pending.last().urgency == 1,
        after_create(s, ev).pending.last().id == 0,
{
}

} // verus!
