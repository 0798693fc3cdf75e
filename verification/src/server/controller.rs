//! The streams of one connection: which requests are still being received,
//! which have been handed to a handler, and what each connection event does
//! to them. Times are milliseconds on a monotonic clock of the caller's.

use crate::http::headers::{headers_view, Header};
use crate::request::{no_fields, read_fields, refused_with, Request, RequestFields};
use crate::types::error::{ProtestError, RequestError};
use std::collections::{HashMap, HashSet};
use vstd::prelude::*;
use vstd::std_specs::hash::spec_hash_map_iter;
use vstd::std_specs::iter::IteratorSpec;

verus! {

broadcast use vstd::std_specs::hash::group_hash_axioms;

/// How long a stream may wait for its next event, in milliseconds.
pub const MAX_IDLE_STREAM: u64 = 60000;

/// How long a connection may live without activity, in milliseconds.
pub const MAX_IDLE_CONNECTION: u64 = 120000;

/// The time a stream that was active at `now` becomes idle: `now` plus
/// [`MAX_IDLE_STREAM`], or the end of the clock.
pub open spec fn idle_deadline(now: u64) -> u64 {
    if now + MAX_IDLE_STREAM <= u64::MAX {
        (now + MAX_IDLE_STREAM) as u64
    } else {
        u64::MAX
    }
}

/// A stream whose request is being received: the request read from its
/// header fields, the sender of its response, and when it becomes idle.
#[derive(Debug)]
pub struct HttpStream<B, S> {
    pub stream_id: u64,
    pub request: Request<B>,
    pub sender: S,
    pub idle_at: u64,
}

impl<B, S> HttpStream<B, S> {
    /// A stream that becomes idle [`MAX_IDLE_STREAM`] after `now`.
    pub fn new(stream_id: u64, request: Request<B>, sender: S, now: u64) -> (s: HttpStream<B, S>)
        ensures
            s == (HttpStream { stream_id, request, sender, idle_at: idle_deadline(now) }),
    {
        HttpStream { stream_id, request, sender, idle_at: now.saturating_add(MAX_IDLE_STREAM) }
    }

    /// Whether the stream has been idle too long at `now`: its idle time has
    /// passed.
    pub fn is_idle_too_long(&self, now: u64) -> (b: bool)
        ensures
            b == (self.idle_at < now),
    {
        self.idle_at < now
    }

    /// Pushes the idle time to [`MAX_IDLE_STREAM`] after `now`.
    pub fn extend_idle_time(&mut self, now: u64)
        ensures
            *final(self) == (HttpStream { idle_at: idle_deadline(now), ..*old(self) }),
    {
        self.idle_at = now.saturating_add(MAX_IDLE_STREAM);
    }
}

/// What a connection's stream manager holds: the streams still being
/// received, by id; the ids of the streams handed to a handler; and the time
/// of the connection's last activity.
pub struct StreamTable<B, S> {
    pub streams: Map<u64, HttpStream<B, S>>,
    pub dispatched: Set<u64>,
    pub last_activity: u64,
}

/// The streams of one connection. The connection's last activity is the
/// time the manager was made: no event moves it.
#[derive(Debug)]
pub struct HttpStreamManager<B, S> {
    streams: HashMap<u64, HttpStream<B, S>>,
    dispatched: HashSet<u64>,
    last_activity: u64,
}

impl<B, S> View for HttpStreamManager<B, S> {
    type V = StreamTable<B, S>;

    closed spec fn view(&self) -> StreamTable<B, S> {
        StreamTable {
            streams: self.streams@,
            dispatched: self.dispatched@,
            last_activity: self.last_activity,
        }
    }
}

/// The table after handing the stream `id` to a handler: it leaves the
/// streams and joins the dispatched ids.
pub open spec fn after_dispatch<B, S>(t: StreamTable<B, S>, id: u64) -> StreamTable<B, S> {
    StreamTable { streams: t.streams.remove(id), dispatched: t.dispatched.insert(id), ..t }
}

/// The table after forgetting the stream `id` altogether.
pub open spec fn after_clear<B, S>(t: StreamTable<B, S>, id: u64) -> StreamTable<B, S> {
    StreamTable { streams: t.streams.remove(id), dispatched: t.dispatched.remove(id), ..t }
}

/// Every stream of the table is kept under its own id.
pub open spec fn well_keyed<B, S>(t: StreamTable<B, S>) -> bool {
    forall|k: u64| #[trigger] t.streams.contains_key(k) ==> t.streams[k].stream_id == k
}

/// The table after a tick at `now` that did not end the connection.
pub open spec fn after_tick<B, S>(t: StreamTable<B, S>, now: u64) -> StreamTable<B, S> {
    StreamTable {
        streams: t.streams.remove_keys(expired(t.streams, now)),
        dispatched: t.dispatched.difference(expired(t.streams, now)),
        ..t
    }
}

impl<B, S> HttpStreamManager<B, S> {
    /// No stream; the connection was last active at `now`.
    pub fn new(now: u64) -> (m: HttpStreamManager<B, S>)
        ensures
            m@.streams == Map::<u64, HttpStream<B, S>>::empty(),
            m@.dispatched == Set::<u64>::empty(),
            m@.last_activity == now,
            well_keyed(m@),
    {
        HttpStreamManager { streams: HashMap::new(), dispatched: HashSet::new(), last_activity: now }
    }

    /// Starts receiving the request of stream `stream_id` (replacing any
    /// stream of that id); it becomes idle [`MAX_IDLE_STREAM`] after `now`.
    pub fn add(&mut self, stream_id: u64, request: Request<B>, sender: S, now: u64)
        ensures
            final(self)@ == (StreamTable {
                streams: old(self)@.streams.insert(
                    stream_id,
                    HttpStream { stream_id, request, sender, idle_at: idle_deadline(now) },
                ),
                ..old(self)@
            }),
    {
        let s = HttpStream::new(stream_id, request, sender, now);
        self.streams.insert(stream_id, s);
    }

    /// The stream `stream_id`, if it is being received; its idle time is
    /// first pushed to [`MAX_IDLE_STREAM`] after `now`.
    pub fn get(&mut self, stream_id: u64, now: u64) -> (r: Option<&HttpStream<B, S>>)
        ensures
            r is Some == old(self)@.streams.contains_key(stream_id),
            r is Some ==> final(self)@ == (StreamTable {
                streams: old(self)@.streams.insert(
                    stream_id,
                    HttpStream { idle_at: idle_deadline(now), ..old(self)@.streams[stream_id] },
                ),
                ..old(self)@
            }),
            r matches Some(s) ==> *s == final(self)@.streams[stream_id],
            r is None ==> final(self)@ == old(self)@,
    {
        let ghost before = self.streams@;
        match self.streams.remove(&stream_id) {
            Some(mut s) => {
                s.extend_idle_time(now);
                self.streams.insert(stream_id, s);
                assert(self.streams@ =~= before.insert(stream_id, s));
            },
            None => {
                assert(self.streams@ =~= before);
            },
        }
        self.streams.get(&stream_id)
    }

    /// Whether stream `stream_id` is being received.
    pub fn contains(&self, stream_id: u64) -> (b: bool)
        ensures
            b == self@.streams.contains_key(stream_id),
    {
        self.streams.contains_key(&stream_id)
    }

    /// Whether stream `stream_id` was handed to a handler.
    pub fn is_dispatched(&self, stream_id: u64) -> (b: bool)
        ensures
            b == self@.dispatched.contains(stream_id),
    {
        self.dispatched.contains(&stream_id)
    }

    /// Forgets stream `stream_id`.
    pub fn clear(&mut self, stream_id: u64)
        ensures
            final(self)@ == after_clear(old(self)@, stream_id),
    {
        self.dispatched.remove(&stream_id);
        self.streams.remove(&stream_id);
    }

    /// Hands stream `stream_id` over: it is marked dispatched and leaves the
    /// streams being received, which give it back if they had it.
    pub fn dispatched(&mut self, stream_id: u64) -> (r: Option<HttpStream<B, S>>)
        ensures
            final(self)@ == after_dispatch(old(self)@, stream_id),
            match r {
                Some(s) => old(self)@.streams.contains_key(stream_id) && s == old(
                    self,
                )@.streams[stream_id],
                None => !old(self)@.streams.contains_key(stream_id),
            },
    {
        self.dispatched.insert(stream_id);
        self.streams.remove(&stream_id)
    }

    /// Whether, at `now`, the connection has been inactive for longer than
    /// [`MAX_IDLE_CONNECTION`] (a clock that went back counts as no time).
    pub fn is_connection_idle_too_long(&self, now: u64) -> (b: bool)
        ensures
            b == (now > self@.last_activity && now - self@.last_activity > MAX_IDLE_CONNECTION),
    {
        now.saturating_sub(self.last_activity) > MAX_IDLE_CONNECTION
    }
}

/// An event of a connection, as its driver reports it.
pub enum ConnectionEvent<B, S> {
    /// The peer's settings arrived.
    Settings,
    /// Header fields opened stream `stream_id`; `read_fin` if nothing follows
    /// them. `body` receives the rest of the stream and `sender` sends the
    /// response.
    Headers { stream_id: u64, headers: Vec<Header>, read_fin: bool, body: B, sender: S },
    /// Body bytes arrived on a stream; `fin` if they are its last.
    BodyBytes { stream_id: u64, fin: bool },
    /// More header fields arrived on a stream; `read_fin` if nothing follows.
    MoreHeaders { stream_id: u64, read_fin: bool },
    /// A stream was closed.
    StreamClosed { stream_id: u64 },
    /// Any other event.
    Other,
}

/// What the caller does after an event: go on, or hand a stream whose request
/// is complete to its handler and go on.
pub enum Step<B, S> {
    Continue,
    Dispatch(HttpStream<B, S>),
}

/// The fields of a request that header fields open, if they are all read and
/// the path, authority and scheme are among them.
pub open spec fn complete_fields(hs: Seq<(Seq<u8>, Seq<u8>)>) -> Option<RequestFields> {
    match read_fields(no_fields(), hs) {
        Ok(f) => if f.path is Some && f.authority is Some && f.scheme is Some {
            Some(f)
        } else {
            None
        },
        Err(_) => None,
    }
}

/// `s` is the stream that header fields with these request fields open, at
/// `now`, with this body and sender.
pub open spec fn opened<B, S>(
    s: HttpStream<B, S>,
    id: u64,
    f: RequestFields,
    body: B,
    sender: S,
    read_fin: bool,
    now: u64,
) -> bool {
    &&& s.stream_id == id
    &&& s.request.method == f.method
    &&& Some(s.request.path@) == f.path
    &&& Some(s.request.authority@) == f.authority
    &&& Some(s.request.scheme@) == f.scheme
    &&& s.request.headers@ == f.headers
    &&& s.request.body == body
    &&& s.request.body_assosiated == !read_fin
    &&& s.sender == sender
    &&& s.idle_at == idle_deadline(now)
}

/// The text of the error for an event on a stream that is neither being
/// received nor dispatched.
pub open spec fn consumed_in_error() -> Seq<char> {
    "Request was consumed in error"@
}

/// What an event at `now` does: `old` becomes `new`, and `r` is what the
/// caller is told.
/// - Settings and other events change nothing.
/// - Header fields that open a stream are read into a request (an error if
///   they do not make one, as [`refused_with`] says, and then nothing
///   changes); the stream is added, and dispatched at once if nothing follows
///   the header fields.
/// - Body bytes on a stream being received push its idle time and, if they
///   are its last, dispatch it; on a dispatched stream they are ignored; on
///   any other stream they are an error.
/// - More header fields on a stream being received dispatch it if nothing
///   follows them; on any other stream they are an error.
/// - A closed stream is forgotten.
pub open spec fn handled<B, S>(
    old: StreamTable<B, S>,
    ev: ConnectionEvent<B, S>,
    now: u64,
    new: StreamTable<B, S>,
    r: Result<Step<B, S>, ProtestError>,
) -> bool {
    match ev {
        ConnectionEvent::Settings => new == old && r matches Ok(Step::Continue),
        ConnectionEvent::Other => new == old && r matches Ok(Step::Continue),
        ConnectionEvent::Headers { stream_id, headers, read_fin, body, sender } => match complete_fields(
            headers_view(headers@),
        ) {
            None => new == old && (r matches Err(ProtestError::Request(RequestError::BuildFromHttp(e)))
                && refused_with(headers_view(headers@), e)),
            Some(f) => if read_fin {
                &&& r matches Ok(Step::Dispatch(s)) && opened(s, stream_id, f, body, sender, read_fin, now)
                &&& new == after_dispatch(old, stream_id)
            } else {
                &&& r matches Ok(Step::Continue)
                &&& new.streams.contains_key(stream_id)
                &&& opened(new.streams[stream_id], stream_id, f, body, sender, read_fin, now)
                &&& new == (StreamTable {
                    streams: old.streams.insert(stream_id, new.streams[stream_id]),
                    ..old
                })
            },
        },
        ConnectionEvent::BodyBytes { stream_id, fin } => if old.streams.contains_key(stream_id) {
            let s = HttpStream { idle_at: idle_deadline(now), ..old.streams[stream_id] };
            if fin {
                r matches Ok(Step::Dispatch(x)) && x == s && new == after_dispatch(old, stream_id)
            } else {
                r matches Ok(Step::Continue) && new == (StreamTable {
                    streams: old.streams.insert(stream_id, s),
                    ..old
                })
            }
        } else if old.dispatched.contains(stream_id) {
            new == old && r matches Ok(Step::Continue)
        } else {
            new == old && (r matches Err(ProtestError::Generic(t)) && t@ == consumed_in_error())
        },
        ConnectionEvent::MoreHeaders { stream_id, read_fin } => if old.streams.contains_key(
            stream_id,
        ) {
            if read_fin {
                r matches Ok(Step::Dispatch(x)) && x == old.streams[stream_id] && new
                    == after_dispatch(old, stream_id)
            } else {
                new == old && r matches Ok(Step::Continue)
            }
        } else {
            new == old && (r matches Err(ProtestError::Generic(t)) && t@ == consumed_in_error())
        },
        ConnectionEvent::StreamClosed { stream_id } => new == after_clear(old, stream_id)
            && r matches Ok(Step::Continue),
    }
}

/// Adding a key and then removing it is removing it.
proof fn lemma_insert_remove<V>(m: Map<u64, V>, k: u64, v: V)
    ensures
        m.insert(k, v).remove(k) == m.remove(k),
{
    assert(m.insert(k, v).remove(k) =~= m.remove(k));
}

impl<B, S> HttpStreamManager<B, S> {
    /// Hands over a stream that is being received.
    fn dispatch_step(&mut self, stream_id: u64) -> (r: Result<Step<B, S>, ProtestError>)
        requires
            old(self)@.streams.contains_key(stream_id),
        ensures
            final(self)@ == after_dispatch(old(self)@, stream_id),
            r matches Ok(Step::Dispatch(s)) && s == old(self)@.streams[stream_id],
    {
        let s = self.dispatched(stream_id).unwrap();
        Ok(Step::Dispatch(s))
    }

    /// Applies one event at `now` (see [`handled`]).
    pub fn handle_connection_event(&mut self, event: ConnectionEvent<B, S>, now: u64) -> (r: Result<
        Step<B, S>,
        ProtestError,
    >)
        ensures
            handled(old(self)@, event, now, final(self)@, r),
    {
        match event {
            ConnectionEvent::Settings => Ok(Step::Continue),
            ConnectionEvent::Other => Ok(Step::Continue),
            ConnectionEvent::Headers { stream_id, headers, read_fin, body, sender } => {
                let request = match Request::try_from_incoming(&headers, read_fin, body) {
                    Ok(q) => q,
                    Err(e) => return Err(ProtestError::Request(RequestError::BuildFromHttp(e))),
                };
                let ghost before = self@;
                self.add(stream_id, request, sender, now);
                if read_fin {
                    proof {
                        lemma_insert_remove(before.streams, stream_id, self@.streams[stream_id]);
                    }
                    self.dispatch_step(stream_id)
                } else {
                    Ok(Step::Continue)
                }
            },
            ConnectionEvent::BodyBytes { stream_id, fin } => {
                let ghost before = self@;
                let found = self.get(stream_id, now).is_some();
                if !found {
                    if self.is_dispatched(stream_id) {
                        Ok(Step::Continue)
                    } else {
                        Err(ProtestError::Generic("Request was consumed in error".to_owned()))
                    }
                } else if fin {
                    proof {
                        lemma_insert_remove(before.streams, stream_id, self@.streams[stream_id]);
                    }
                    self.dispatch_step(stream_id)
                } else {
                    Ok(Step::Continue)
                }
            },
            ConnectionEvent::MoreHeaders { stream_id, read_fin } => {
                if !self.contains(stream_id) {
                    Err(ProtestError::Generic("Request was consumed in error".to_owned()))
                } else if read_fin {
                    self.dispatch_step(stream_id)
                } else {
                    Ok(Step::Continue)
                }
            },
            ConnectionEvent::StreamClosed { stream_id } => {
                self.clear(stream_id);
                Ok(Step::Continue)
            },
        }
    }
}

/// The streams of a table that have been idle too long at `now`.
pub open spec fn expired<B, S>(streams: Map<u64, HttpStream<B, S>>, now: u64) -> Set<u64> {
    Set::new(|k: u64| streams.contains_key(k) && streams[k].idle_at < now)
}

impl<B, S> HttpStreamManager<B, S> {
    /// The ids of the streams that have been idle too long at `now`.
    fn expired_ids(&self, now: u64) -> (ids: Vec<u64>)
        ensures
            ids@.to_set() == expired(self@.streams, now),
    {
        let ghost m = self.streams@;
        let ghost v = spec_hash_map_iter(&self.streams).remaining();
        let ghost mut seen: int = 0;
        let mut ids: Vec<u64> = Vec::new();
        for (id, s) in it: self.streams.iter()
            invariant
                m == self.streams@,
                v == spec_hash_map_iter(&self.streams).remaining(),
                it.seq() == v,
                seen == it.index(),
                forall|j: int| 0 <= j < ids@.len() ==> #[trigger] expired(m, now).contains(ids@[j]),
                forall|i: int|
                    0 <= i < seen && (#[trigger] v[i]).1.idle_at < now ==> ids@.contains(*v[i].0),
        {
            assert(v[seen] == (id, s));
            assert(m.contains_key(*id) && m[*id] == *s);
            let ghost before = ids@;
            if s.idle_at < now {
                ids.push(*id);
                assert(ids@[ids@.len() - 1] == *id);
            }
            proof {
                assert forall|i: int| 0 <= i < seen + 1 && (#[trigger] v[i]).1.idle_at < now implies ids@.contains(
                    *v[i].0,
                ) by {
                    if i < seen {
                        let k = choose|k: int| 0 <= k < before.len() && before[k] == *v[i].0;
                        assert(ids@[k] == before[k]);
                    } else {
                        assert(ids@[ids@.len() - 1] == *id);
                    }
                }
                seen = seen + 1;
            }
        }
        proof {
            assert(seen == v.len());
            assert forall|k: u64| expired(m, now).contains(k) implies ids@.to_set().contains(k) by {
                assert(v.contains((&k, &m[k])));
                let i = choose|i: int| 0 <= i < v.len() && v[i] == (&k, &m[k]);
                assert(v[i].1.idle_at < now);
                assert(ids@.contains(k));
            }
            assert forall|k: u64| ids@.to_set().contains(k) implies expired(m, now).contains(k) by {
                let j = choose|j: int| 0 <= j < ids@.len() && ids@[j] == k;
            }
            assert(ids@.to_set() =~= expired(m, now));
        }
        ids
    }

    /// Once a second: whether the connection goes on at `now`. It ends if it
    /// has been inactive too long (and then nothing changes); otherwise the
    /// streams that have been idle too long are forgotten.
    pub fn monitor_connection_tick(&mut self, now: u64) -> (go_on: bool)
        ensures
            go_on == !(now > old(self)@.last_activity && now - old(self)@.last_activity
                > MAX_IDLE_CONNECTION),
            !go_on ==> final(self)@ == old(self)@,
            go_on ==> final(self)@ == after_tick(old(self)@, now),
    {
        if self.is_connection_idle_too_long(now) {
            return false;
        }
        let ghost t0 = self@;
        let ids = self.expired_ids(now);
        let n = ids.len();
        let mut j: usize = 0;
        proof {
            let none = ids@.subrange(0, 0).to_set();
            assert(none =~= Set::<u64>::empty());
            assert(t0.streams.remove_keys(none) =~= t0.streams);
            assert(t0.dispatched.difference(none) =~= t0.dispatched);
        }
        while j < n
            invariant
                n == ids@.len(),
                j <= n,
                ids@.to_set() == expired(t0.streams, now),
                self@ == (StreamTable {
                    streams: t0.streams.remove_keys(ids@.subrange(0, j as int).to_set()),
                    dispatched: t0.dispatched.difference(ids@.subrange(0, j as int).to_set()),
                    ..t0
                }),
            decreases n - j,
        {
            let ghost done = ids@.subrange(0, j as int).to_set();
            let id = ids[j];
            self.clear(id);
            proof {
                assert(ids@.subrange(0, j + 1).to_set() =~= done.insert(id)) by {
                    assert(ids@.subrange(0, j + 1) =~= ids@.subrange(0, j as int).push(id));
                    ids@.subrange(0, j as int).lemma_push_to_set_commute(id);
                }
                assert(t0.streams.remove_keys(done).remove(id) =~= t0.streams.remove_keys(done.insert(id)));
                assert(t0.dispatched.difference(done).remove(id) =~= t0.dispatched.difference(done.insert(id)));
            }
            j = j + 1;
        }
        assert(ids@.subrange(0, n as int) =~= ids@);
        true
    }
}

} // verus!
