//! What holds of every run of a connection's streams, whatever its events.

use crate::http::headers::Header;
use crate::server::controller::{
    after_dispatch, after_tick, handled, idle_deadline, well_keyed, ConnectionEvent, Step, StreamTable,
};
use crate::types::error::ProtestError;
use vstd::prelude::*;

verus! {

/// Whether a step hands over a stream with this id.
pub open spec fn dispatches<B, S>(r: Result<Step<B, S>, ProtestError>, id: u64) -> bool {
    r matches Ok(Step::Dispatch(s)) && s.stream_id == id
}

/// Every event keeps each stream under its own id.
pub proof fn lemma_event_keeps_keys<B, S>(
    old: StreamTable<B, S>,
    ev: ConnectionEvent<B, S>,
    now: u64,
    new: StreamTable<B, S>,
    r: Result<Step<B, S>, ProtestError>,
)
    requires
        well_keyed(old),
        handled(old, ev, now, new, r),
    ensures
        well_keyed(new),
{
    match ev {
        ConnectionEvent::BodyBytes { stream_id, fin } => {
            if old.streams.contains_key(stream_id) && !fin {
                assert forall|k: u64| #[trigger] new.streams.contains_key(k) implies new.streams[k].stream_id
                    == k by {
                    if k != stream_id {
                        assert(old.streams.contains_key(k));
                    }
                }
            }
        },
        ConnectionEvent::Headers { stream_id, headers, read_fin, body, sender } => {
            assert forall|k: u64| #[trigger] new.streams.contains_key(k) implies new.streams[k].stream_id
                == k by {
                if k != stream_id {
                    assert(old.streams.contains_key(k));
                }
            }
        },
        _ => {},
    }
}

/// A tick keeps each stream under its own id.
pub proof fn lemma_tick_keeps_keys<B, S>(t: StreamTable<B, S>, now: u64)
    requires
        well_keyed(t),
    ensures
        well_keyed(after_tick(t, now)),
{
}

/// A stream that is handed over leaves the streams being received and is
/// marked dispatched.
pub proof fn lemma_dispatch_moves_stream<B, S>(
    old: StreamTable<B, S>,
    ev: ConnectionEvent<B, S>,
    now: u64,
    new: StreamTable<B, S>,
    r: Result<Step<B, S>, ProtestError>,
    id: u64,
)
    requires
        well_keyed(old),
        handled(old, ev, now, new, r),
        dispatches(r, id),
    ensures
        !new.streams.contains_key(id),
        new.dispatched.contains(id),
{
}

/// A stream is handed over at most once: once it is no longer being received,
/// no event but one that opens it anew hands it over again.
pub proof fn lemma_dispatch_at_most_once<B, S>(
    old: StreamTable<B, S>,
    ev: ConnectionEvent<B, S>,
    now: u64,
    new: StreamTable<B, S>,
    r: Result<Step<B, S>, ProtestError>,
    id: u64,
)
    requires
        well_keyed(old),
        handled(old, ev, now, new, r),
        !old.streams.contains_key(id),
        !(ev matches ConnectionEvent::Headers { stream_id, .. } && stream_id == id),
    ensures
        !dispatches(r, id),
{
}

/// Body bytes that arrive after their stream was handed over are ignored.
pub proof fn lemma_trailing_body_ignored<B, S>(
    old: StreamTable<B, S>,
    id: u64,
    fin: bool,
    now: u64,
    new: StreamTable<B, S>,
    r: Result<Step<B, S>, ProtestError>,
)
    requires
        handled(old, ConnectionEvent::BodyBytes { stream_id: id, fin }, now, new, r),
        !old.streams.contains_key(id),
        old.dispatched.contains(id),
    ensures
        new == old,
        r matches Ok(Step::Continue),
{
}

/// An event that fails changes nothing.
pub proof fn lemma_error_changes_nothing<B, S>(
    old: StreamTable<B, S>,
    ev: ConnectionEvent<B, S>,
    now: u64,
    new: StreamTable<B, S>,
    r: Result<Step<B, S>, ProtestError>,
)
    requires
        handled(old, ev, now, new, r),
        r is Err,
    ensures
        new == old,
{
}

/// A closed stream is forgotten: it is neither being received nor marked
/// dispatched.
pub proof fn lemma_closed_stream_forgotten<B, S>(
    old: StreamTable<B, S>,
    id: u64,
    now: u64,
    new: StreamTable<B, S>,
    r: Result<Step<B, S>, ProtestError>,
)
    requires
        handled(old, ConnectionEvent::StreamClosed { stream_id: id }, now, new, r),
    ensures
        !new.streams.contains_key(id),
        !new.dispatched.contains(id),
        new.last_activity == old.last_activity,
        forall|k: u64| k != id ==> (new.streams.contains_key(k) == old.streams.contains_key(k)),
{
}

/// A tick drops exactly the streams that have been idle too long and keeps
/// every other stream as it was.
pub proof fn lemma_tick_drops_idle_streams<B, S>(t: StreamTable<B, S>, now: u64, k: u64)
    ensures
        after_tick(t, now).streams.contains_key(k) <==> (t.streams.contains_key(k) && !(
        t.streams[k].idle_at < now)),
        after_tick(t, now).streams.contains_key(k) ==> after_tick(t, now).streams[k]
            == t.streams[k],
{
}

/// Header fields that end their stream get their request handed over at once.
pub proof fn lemma_complete_headers_dispatched<B, S>(
    old: StreamTable<B, S>,
    id: u64,
    headers: Vec<Header>,
    body: B,
    sender: S,
    now: u64,
    new: StreamTable<B, S>,
    r: Result<Step<B, S>, ProtestError>,
)
    requires
        handled(
            old,
            ConnectionEvent::Headers { stream_id: id, headers, read_fin: true, body, sender },
            now,
            new,
            r,
        ),
        r is Ok,
    ensures
        dispatches(r, id),
        new == after_dispatch(old, id),
{
}

/// Body bytes that do not end a stream being received keep it, with its
/// request, and push its idle time to [`idle_deadline`] of the time they came;
/// nothing is handed over and no other stream changes.
pub proof fn lemma_body_bytes_push_idle_time<B, S>(
    old: StreamTable<B, S>,
    id: u64,
    now: u64,
    new: StreamTable<B, S>,
    r: Result<Step<B, S>, ProtestError>,
)
    requires
        old.streams.contains_key(id),
        handled(old, ConnectionEvent::BodyBytes { stream_id: id, fin: false }, now, new, r),
    ensures
        r matches Ok(Step::Continue),
        new.streams.contains_key(id),
        new.streams[id].idle_at == idle_deadline(now),
        now <= u64::MAX - 60000 ==> new.streams[id].idle_at == now + 60000,
        new.streams[id].request == old.streams[id].request,
        new.streams[id].stream_id == old.streams[id].stream_id,
        new.dispatched == old.dispatched,
        forall|k: u64| k != id ==> (#[trigger] new.streams.contains_key(k) == old.streams.contains_key(k)),
        forall|k: u64| k != id && old.streams.contains_key(k) ==> #[trigger] new.streams[k] == old.streams[k],
{
}

/// A stream being received whose body keeps arriving within its idle time is
/// never dropped by a tick in between: after body bytes at `t1`, a tick at
/// any `t2` up to [`idle_deadline`] of `t1` keeps it.
pub proof fn lemma_active_stream_survives_tick<B, S>(
    old: StreamTable<B, S>,
    id: u64,
    t1: u64,
    t2: u64,
    mid: StreamTable<B, S>,
    r: Result<Step<B, S>, ProtestError>,
)
    requires
        old.streams.contains_key(id),
        handled(old, ConnectionEvent::BodyBytes { stream_id: id, fin: false }, t1, mid, r),
        t2 <= idle_deadline(t1),
    ensures
        after_tick(mid, t2).streams.contains_key(id),
{
    assert(!crate::server::controller::expired(mid.streams, t2).contains(id));
}

} // verus!
