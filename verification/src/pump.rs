//! Reader pump: turns one channel's raw read outcomes into the ordered event
//! stream its consumer sees.
//!
//! The host runs one pump per session on its own execution context; the pump
//! decides, for every outcome of a blocking read, what to emit and whether to
//! keep draining. Output events keep exact byte order; end of stream and read
//! errors alike end the drain with exactly one exit event, always last.

use vstd::prelude::*;

use crate::codec::b64_of;
use crate::codec::encode_chunk;

verus! {

/// How many bytes one drain iteration reads from the channel at most; a
/// chunk is never larger than this.
pub const READ_CHUNK_SIZE: usize = 8192;

/// What one read against the channel's master side produced.
pub enum ReadOutcome {
    /// A positive-length chunk of output bytes.
    Data(Vec<u8>),
    /// A zero-length read: clean end of stream.
    Eof,
    /// A read error; treated as end of stream, never surfaced as an
    /// operation error.
    Failed,
}

/// The model of one emitted event.
pub ghost enum EventModel {
    Output { session: Seq<char>, payload: Seq<char> },
    Exit { session: Seq<char> },
}

impl EventModel {
    /// The session an event is tagged with.
    pub open spec fn session(self) -> Seq<char> {
        match self {
            EventModel::Output { session, .. } => session,
            EventModel::Exit { session } => session,
        }
    }
}

/// One event toward the consumer, tagged by its session identifier.
pub enum SessionEvent {
    /// An encoded chunk of session output.
    Output { session_id: String, payload: String },
    /// The terminal notification: end of stream or unrecoverable read error.
    Exit { session_id: String },
}

impl View for SessionEvent {
    type V = EventModel;

    open spec fn view(&self) -> EventModel {
        match self {
            SessionEvent::Output { session_id, payload } => EventModel::Output {
                session: session_id@,
                payload: payload@,
            },
            SessionEvent::Exit { session_id } => EventModel::Exit { session: session_id@ },
        }
    }
}

/// The models of a sequence of emitted events.
pub open spec fn event_views(s: Seq<SessionEvent>) -> Seq<EventModel> {
    s.map_values(|e: SessionEvent| e@)
}

/// The event one read outcome causes.
pub open spec fn step_event(session: Seq<char>, outcome: ReadOutcome) -> EventModel {
    match outcome {
        ReadOutcome::Data(chunk) => EventModel::Output { session, payload: b64_of(chunk@) },
        ReadOutcome::Eof => EventModel::Exit { session },
        ReadOutcome::Failed => EventModel::Exit { session },
    }
}

/// The drain of one channel's output stream.
///
/// The pump records the events it has emitted; its well-formedness pins the
/// ordering guarantee: every event belongs to this session, output events
/// come in read order, and the single exit event, once emitted, is last and
/// final.
pub struct ReaderPump {
    session_id: String,
    running: bool,
    trace: Ghost<Seq<EventModel>>,
}

impl ReaderPump {
    /// The identifier of the session this pump drains.
    pub closed spec fn session(&self) -> Seq<char> {
        self.session_id@
    }

    /// Whether the pump is still draining (no exit event emitted yet).
    pub closed spec fn is_running(&self) -> bool {
        self.running
    }

    /// Everything emitted so far, in emission order.
    pub closed spec fn trace(&self) -> Seq<EventModel> {
        self.trace@
    }

    /// Every emitted event belongs to this session; while the pump runs all
    /// of them are output events, and once it stopped the single exit event
    /// stands last.
    pub open spec fn wf(&self) -> bool {
        &&& forall|i: int|
            0 <= i < self.trace().len() ==> (#[trigger] self.trace()[i]).session()
                == self.session()
        &&& if self.is_running() {
            forall|i: int| 0 <= i < self.trace().len() ==> (#[trigger] self.trace()[i]) is Output
        } else {
            self.trace().len() > 0 && self.trace().last() == (EventModel::Exit {
                session: self.session(),
            }) && forall|i: int|
                0 <= i < self.trace().len() - 1 ==> (#[trigger] self.trace()[i]) is Output
        }
    }

    /// A pump for a freshly opened session; started right after the registry
    /// entry is inserted, before anything was emitted.
    pub fn start(session_id: String) -> (r: Self)
        ensures
            r.wf(),
            r.session() == session_id@,
            r.is_running(),
            r.trace() == Seq::<EventModel>::empty(),
    {
        ReaderPump { session_id, running: true, trace: Ghost(Seq::empty()) }
    }

    /// Turn one read outcome into the event to emit: a chunk becomes an
    /// encoded output event and the drain goes on; end of stream or a read
    /// error becomes the exit event and the drain stops.
    pub fn on_read(&mut self, outcome: ReadOutcome) -> (ev: SessionEvent)
        requires
            old(self).wf(),
            old(self).is_running(),
        ensures
            final(self).wf(),
            final(self).session() == old(self).session(),
            ev@ == step_event(old(self).session(), outcome),
            final(self).trace() == old(self).trace().push(ev@),
            final(self).is_running() <==> outcome is Data,
    {
        match outcome {
            ReadOutcome::Data(chunk) => {
                let payload = encode_chunk(chunk.as_slice());
                let ev = SessionEvent::Output { session_id: self.session_id.clone(), payload };
                self.trace = Ghost(self.trace@.push(ev@));
                ev
            },
            _ => {
                self.running = false;
                let ev = SessionEvent::Exit { session_id: self.session_id.clone() };
                self.trace = Ghost(self.trace@.push(ev@));
                ev
            },
        }
    }
}

/// The output events a sequence of chunks causes, in byte order.
pub open spec fn output_events(session: Seq<char>, chunks: Seq<Seq<u8>>) -> Seq<EventModel> {
    Seq::new(chunks.len(), |i: int| EventModel::Output { session, payload: b64_of(chunks[i]) })
}

/// The full event sequence a channel's output stream causes: one output
/// event per chunk, in order, then exactly one exit event.
pub open spec fn expected_trace(session: Seq<char>, chunks: Seq<Seq<u8>>) -> Seq<EventModel> {
    output_events(session, chunks).push(EventModel::Exit { session })
}

/// The expected trace ends in its only exit event: everything before it is
/// an output event, and nothing follows it.
pub proof fn lemma_trace_single_exit(session: Seq<char>, chunks: Seq<Seq<u8>>)
    ensures
        expected_trace(session, chunks).len() == chunks.len() + 1,
        expected_trace(session, chunks).last() == (EventModel::Exit { session }),
        forall|i: int|
            0 <= i < chunks.len() ==> (#[trigger] expected_trace(session, chunks)[i])
                == (EventModel::Output { session, payload: b64_of(chunks[i]) }),
{
}

/// Drain a whole stream: feed the pump the chunks a channel produced until
/// it closed its stream — cleanly when `clean_end`, by a read error
/// otherwise — and collect what it emits. Either way the emitted sequence is
/// exactly `output(c1), …, output(cn), exit`, in that order.
pub fn drain_stream(session_id: String, chunks: &Vec<Vec<u8>>, clean_end: bool) -> (events: Vec<
    SessionEvent,
>)
    ensures
        event_views(events@) == expected_trace(session_id@, chunks.deep_view()),
{
    let ghost session = session_id@;
    let ghost all = chunks.deep_view();
    let mut pump = ReaderPump::start(session_id);
    let mut events: Vec<SessionEvent> = Vec::new();
    let mut i: usize = 0;
    while i < chunks.len()
        invariant
            i <= chunks@.len(),
            all == chunks.deep_view(),
            pump.wf(),
            pump.is_running(),
            pump.session() == session,
            pump.trace() == output_events(session, all.take(i as int)),
            event_views(events@) == pump.trace(),
        decreases chunks@.len() - i,
    {
        let chunk = vstd::slice::slice_to_vec(chunks[i].as_slice());
        let ev = pump.on_read(ReadOutcome::Data(chunk));
        events.push(ev);
        proof {
            assert(all[i as int] == chunks@[i as int]@);
            assert(pump.trace() =~= output_events(session, all.take(i + 1 as int)));
            assert(event_views(events@) =~= pump.trace());
        }
        i += 1;
    }
    let ev = pump.on_read(
        if clean_end {
            ReadOutcome::Eof
        } else {
            ReadOutcome::Failed
        },
    );
    events.push(ev);
    proof {
        assert(all.take(all.len() as int) =~= all);
        assert(event_views(events@) =~= expected_trace(session, all));
    }
    events
}

/// All events of `t` are tagged with `session`.
pub open spec fn for_session(t: Seq<EventModel>, session: Seq<char>) -> bool {
    forall|i: int| 0 <= i < t.len() ==> (#[trigger] t[i]).session() == session
}

/// `m` merges `a` and `b`, each kept in its own order.
pub open spec fn is_interleaving(
    m: Seq<EventModel>,
    a: Seq<EventModel>,
    b: Seq<EventModel>,
) -> bool
    decreases m.len(),
{
    if m.len() == 0 {
        a.len() == 0 && b.len() == 0
    } else {
        ||| (a.len() > 0 && m[0] == a[0] && is_interleaving(m.drop_first(), a.drop_first(), b))
        ||| (b.len() > 0 && m[0] == b[0] && is_interleaving(m.drop_first(), a, b.drop_first()))
    }
}

/// The events of one session, in the order they stand in `m`.
pub open spec fn project(m: Seq<EventModel>, session: Seq<char>) -> Seq<EventModel>
    decreases m.len(),
{
    if m.len() == 0 {
        Seq::empty()
    } else if m[0].session() == session {
        seq![m[0]] + project(m.drop_first(), session)
    } else {
        project(m.drop_first(), session)
    }
}

/// Two sessions with distinct identifiers stay independent: however the
/// consumer sees their two event streams interleaved, selecting either
/// session's events out of the merge gives back exactly that session's own
/// sequence, unchanged and in order. Cross-session interleaving is
/// unconstrained; intra-session order is strict.
pub proof fn lemma_sessions_independent(
    m: Seq<EventModel>,
    a: Seq<EventModel>,
    b: Seq<EventModel>,
    sa: Seq<char>,
    sb: Seq<char>,
)
    requires
        is_interleaving(m, a, b),
        for_session(a, sa),
        for_session(b, sb),
        sa != sb,
    ensures
        project(m, sa) == a,
        project(m, sb) == b,
    decreases m.len(),
{
    if m.len() == 0 {
        assert(project(m, sa) =~= a);
        assert(project(m, sb) =~= b);
    } else if a.len() > 0 && m[0] == a[0] && is_interleaving(m.drop_first(), a.drop_first(), b) {
        assert(a[0].session() == sa);
        assert forall|i: int| 0 <= i < a.drop_first().len() implies (#[trigger] a.drop_first()[i]).session()
            == sa by {
            assert(a.drop_first()[i] == a[i + 1]);
        }
        lemma_sessions_independent(m.drop_first(), a.drop_first(), b, sa, sb);
        assert(project(m, sa) =~= a);
        assert(project(m, sb) =~= b);
    } else {
        assert(b.len() > 0 && m[0] == b[0] && is_interleaving(m.drop_first(), a, b.drop_first()));
        assert(b[0].session() == sb);
        assert forall|i: int| 0 <= i < b.drop_first().len() implies (#[trigger] b.drop_first()[i]).session()
            == sb by {
            assert(b.drop_first()[i] == b[i + 1]);
        }
        lemma_sessions_independent(m.drop_first(), a, b.drop_first(), sa, sb);
        assert(project(m, sb) =~= b);
        assert(project(m, sa) =~= a);
    }
}

} // verus!
