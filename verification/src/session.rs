//! The PTY session manager: registry, focus tracking, and every
//! lifecycle decision of the multiplexer.
//!
//! A session is one pseudo-terminal pair with one child shell.  The
//! manager owns the registry from session id to session record, the
//! focused-session pointer, the queue of [`ProcessEvent`]s toward the
//! single event consumer, and the queue of [`DirectoryWatcherEvent`]s
//! toward the directory-watching collaborator.  Allocating the
//! pseudo-terminal, spawning the shell, writing bytes, resizing and
//! killing are performed by the unverified driver, which asks the
//! manager before each operation and reports each outcome back; the
//! manager's answers and state changes are what is verified here.

use vstd::prelude::*;
use std::collections::HashMap;

verus! {

broadcast use vstd::std_specs::hash::group_hash_axioms;

use crate::event::{EventModel, ProcessEvent};
use crate::file::{DirectoryWatcherEvent, WatcherPayload, watch_target};

/// How an operation on the manager can be declined.  `SpawnError`
/// reports that the host could not allocate a pseudo-terminal or spawn
/// the shell; `SessionNotFound` that an operation referenced an id that
/// is not registered; `DuplicateSession` that a spawn was asked for an
/// id that is still active; `IoError` that a write or resize failed
/// against a live session.
#[derive(Clone, Copy, Debug, PartialEq, Eq, Structural)]
pub enum SessionError {
    SpawnError,
    SessionNotFound,
    DuplicateSession,
    IoError,
}

/// A command addressed to one session: write raw bytes (given as a
/// string of input) or resize the terminal.
pub enum PtySessionCommand {
    Write { data: String },
    Resize { cols: u16, rows: u16 },
}

/// The number of rows every pseudo-terminal starts with.
pub const INITIAL_PTY_ROWS: u16 = 24;

/// The number of columns every pseudo-terminal starts with.
pub const INITIAL_PTY_COLS: u16 = 80;

/// A fully configured process launch: the shell to run and the
/// environment variables that identify the terminal to it.
pub struct ShellCommand {
    pub program: String,
    pub env: Vec<(String, String)>,
}

/// Build the launch configuration for a new session's shell: the
/// host's interactive shell with the terminal type and emulator
/// identity in its environment.  Pure; whether the shell actually
/// exists surfaces only when the driver spawns it.
pub fn construct_cmd() -> (cmd: ShellCommand)
    ensures
        cmd.program@ == "bash"@,
        cmd.env@.len() == 4,
        cmd.env@[0].0@ == "TERM"@ && cmd.env@[0].1@ == "xterm-256color"@,
        cmd.env@[1].0@ == "COLORTERM"@ && cmd.env@[1].1@ == "truecolor"@,
        cmd.env@[2].0@ == "TERM_PROGRAM"@ && cmd.env@[2].1@ == "eDEX-UI"@,
        cmd.env@[3].0@ == "TERM_PROGRAM_VERSION"@ && cmd.env@[3].1@ == "1.0.0"@,
{
    let mut env: Vec<(String, String)> = Vec::new();
    env.push((String::from_str("TERM"), String::from_str("xterm-256color")));
    env.push((String::from_str("COLORTERM"), String::from_str("truecolor")));
    env.push((String::from_str("TERM_PROGRAM"), String::from_str("eDEX-UI")));
    env.push((String::from_str("TERM_PROGRAM_VERSION"), String::from_str("1.0.0")));
    ShellCommand { program: String::from_str("bash"), env }
}

/// The record the registry keeps for one live session: the
/// process-group-leader pid of its child shell.  The pseudo-terminal
/// handles themselves stay with the driver.
pub struct PtySession {
    pid: i32,
}

impl View for PtySession {
    type V = i32;

    closed spec fn view(&self) -> i32 {
        self.pid
    }
}

impl PtySession {
    pub fn new(pid: i32) -> (session: PtySession)
        ensures
            session@ == pid,
    {
        PtySession { pid }
    }

    /// The process-group-leader pid of the session's child, used by
    /// the directory watcher to resolve the session's working
    /// directory externally.
    pub fn pid(&self) -> (pid: i32)
        ensures
            pid == self@,
    {
        self.pid
    }
}

/// The mathematical state of the manager: the registry as a map from
/// session id to child pid, the focused-session pointer, and the two
/// outgoing queues.
#[verifier::ext_equal]
pub struct ManagerModel {
    pub registry: Map<u8, i32>,
    pub focused: Option<u8>,
    pub events: Seq<EventModel>,
    pub watches: Seq<Option<i32>>,
}

impl ManagerModel {
    /// The focused pointer only ever designates a registered session.
    pub open spec fn wf(self) -> bool {
        match self.focused {
            Some(id) => self.registry.contains_key(id),
            None => true,
        }
    }
}

/// The outcome `spawn_pty` owes: an id that is still active is
/// declined as a duplicate and nothing changes; otherwise the session
/// is registered, becomes the focused one, and a watch request with
/// its pid goes to the directory watcher.  No event is queued: a spawn
/// is not an observable lifecycle event downstream.
pub open spec fn spawn_outcome(
    pre: ManagerModel,
    post: ManagerModel,
    id: u8,
    pid: i32,
    r: Result<(), SessionError>,
) -> bool {
    if pre.registry.contains_key(id) {
        r == Err::<(), SessionError>(SessionError::DuplicateSession) && post == pre
    } else {
        r == Ok::<(), SessionError>(()) && post == (ManagerModel {
            registry: pre.registry.insert(id, pid),
            focused: Some(id),
            events: pre.events,
            watches: pre.watches.push(Some(pid)),
        })
    }
}

/// The state after a session is gone, by explicit termination or by
/// its child exiting: the id leaves the registry before the closing
/// event `ev` is queued, and, exactly when the session was the focused
/// one, the focus is cleared and the directory watcher is told to
/// follow nothing.
pub open spec fn remove_session(pre: ManagerModel, id: u8, ev: EventModel) -> ManagerModel {
    ManagerModel {
        registry: pre.registry.remove(id),
        focused: if pre.focused == Some(id) {
            None
        } else {
            pre.focused
        },
        events: pre.events.push(ev),
        watches: if pre.focused == Some(id) {
            pre.watches.push(None)
        } else {
            pre.watches
        },
    }
}

/// The outcome `terminate` owes: a registered id is removed and a
/// `Closed` event is queued; an unregistered one is declined and
/// nothing changes.
pub open spec fn terminate_outcome(
    pre: ManagerModel,
    post: ManagerModel,
    id: u8,
    r: Result<(), SessionError>,
) -> bool {
    if pre.registry.contains_key(id) {
        r == Ok::<(), SessionError>(()) && post == remove_session(
            pre,
            id,
            EventModel::Closed { id },
        )
    } else {
        r == Err::<(), SessionError>(SessionError::SessionNotFound) && post == pre
    }
}

/// The outcome `session_exited` owes: the first report for a
/// registered id removes it and queues exactly one `ProcessExit`
/// event; a report for an id that is already gone (for instance
/// because it was terminated explicitly) changes nothing and queues
/// nothing, so exactly one closing event ever exists per session.
pub open spec fn exit_outcome(
    pre: ManagerModel,
    post: ManagerModel,
    id: u8,
    exit_code: Option<u32>,
    emitted: bool,
) -> bool {
    if pre.registry.contains_key(id) {
        emitted && post == remove_session(pre, id, EventModel::ProcessExit { id, exit_code })
    } else {
        !emitted && post == pre
    }
}

/// The outcome `reader_chunk` owes: a non-empty chunk read from the
/// session's pseudo-terminal is queued as a `Forward` event, in
/// arrival order; an empty read leaves everything unchanged.  The
/// reader never touches the registry, so chunks may still arrive
/// while a session is being torn down.
pub open spec fn chunk_outcome(
    pre: ManagerModel,
    post: ManagerModel,
    id: u8,
    data: Seq<u8>,
) -> bool {
    if data.len() > 0 {
        post == (ManagerModel { events: pre.events.push(EventModel::Forward { id, data }), ..pre })
    } else {
        post == pre
    }
}

/// The outcome `switch_session` owes: a registered id becomes the
/// focused session and a watch request with its pid goes to the
/// directory watcher; an unregistered one is declined and nothing
/// changes.  Switching never touches the event queue: output routing
/// is unaffected by focus.
pub open spec fn switch_outcome(
    pre: ManagerModel,
    post: ManagerModel,
    id: u8,
    r: Result<(), SessionError>,
) -> bool {
    if pre.registry.contains_key(id) {
        r == Ok::<(), SessionError>(()) && post == (ManagerModel {
            focused: Some(id),
            watches: pre.watches.push(Some(pre.registry[id])),
            ..pre
        })
    } else {
        r == Err::<(), SessionError>(SessionError::SessionNotFound) && post == pre
    }
}

/// The answer a routing lookup owes: `Ok` exactly when the id is
/// registered, `SessionNotFound` otherwise.
pub open spec fn lookup_result(m: ManagerModel, id: u8) -> Result<(), SessionError> {
    if m.registry.contains_key(id) {
        Ok(())
    } else {
        Err(SessionError::SessionNotFound)
    }
}

/// The bytes `ev` contributes to session `id`'s output stream: its
/// payload when it is a `Forward` event of that session, nothing
/// otherwise.
pub open spec fn forward_payload(ev: EventModel, id: u8) -> Seq<u8> {
    match ev {
        EventModel::Forward { id: eid, data } => if eid == id {
            data
        } else {
            Seq::empty()
        },
        EventModel::ProcessExit { id: eid, exit_code } => Seq::empty(),
        EventModel::Closed { id: eid } => Seq::empty(),
    }
}

/// The byte stream of one session: the concatenation, in queue order,
/// of the payloads of its `Forward` events.
pub open spec fn output_stream(events: Seq<EventModel>, id: u8) -> Seq<u8>
    decreases events.len(),
{
    if events.len() == 0 {
        Seq::empty()
    } else {
        output_stream(events.drop_last(), id) + forward_payload(events.last(), id)
    }
}

/// How many closing events (`ProcessExit` or `Closed`) `ev` counts
/// for session `id`.
pub open spec fn closing_weight(ev: EventModel, id: u8) -> nat {
    match ev {
        EventModel::ProcessExit { id: eid, exit_code } => if eid == id {
            1nat
        } else {
            0nat
        },
        EventModel::Closed { id: eid } => if eid == id {
            1nat
        } else {
            0nat
        },
        EventModel::Forward { id: eid, data } => 0nat,
    }
}

/// How many closing events the queue holds for session `id`.
pub open spec fn closing_event_count(events: Seq<EventModel>, id: u8) -> nat
    decreases events.len(),
{
    if events.len() == 0 {
        0nat
    } else {
        closing_event_count(events.drop_last(), id) + closing_weight(events.last(), id)
    }
}

/// Appending one event extends each session's output stream by that
/// event's payload for the session, and raises each session's closing
/// count by that event's closing weight.
pub proof fn lemma_event_push(events: Seq<EventModel>, ev: EventModel, id: u8)
    ensures
        output_stream(events.push(ev), id) == output_stream(events, id) + forward_payload(ev, id),
        closing_event_count(events.push(ev), id) == closing_event_count(events, id)
            + closing_weight(ev, id),
{
    assert(events.push(ev).drop_last() =~= events);
    assert(events.push(ev).last() == ev);
}

/// After a session is spawned and then terminated, a write to its id
/// is declined with `SessionNotFound`.
pub proof fn law_write_after_terminate(
    s0: ManagerModel,
    s1: ManagerModel,
    s2: ManagerModel,
    id: u8,
    pid: i32,
)
    requires
        spawn_outcome(s0, s1, id, pid, Ok(())),
        terminate_outcome(s1, s2, id, Ok(())),
    ensures
        lookup_result(s2, id) == Err::<(), SessionError>(SessionError::SessionNotFound),
{
}

/// Spawning an id that is still active is declined as a duplicate on
/// the second call and disturbs nothing: the state, and in particular
/// the first session's registration, stay exactly as they were.
pub proof fn law_duplicate_spawn_rejected(
    s0: ManagerModel,
    s1: ManagerModel,
    s2: ManagerModel,
    id: u8,
    pid: i32,
    pid2: i32,
    r2: Result<(), SessionError>,
)
    requires
        spawn_outcome(s0, s1, id, pid, Ok(())),
        spawn_outcome(s1, s2, id, pid2, r2),
    ensures
        r2 == Err::<(), SessionError>(SessionError::DuplicateSession),
        s2 == s1,
        s2.registry.contains_key(id),
        s2.registry[id] == pid,
{
}

/// One chunk read from a session's pseudo-terminal extends exactly
/// that session's output stream, by exactly those bytes, at its end:
/// so the concatenated `Forward` payloads of a session reproduce the
/// byte stream its child wrote, in order.
pub proof fn law_output_order(s0: ManagerModel, s1: ManagerModel, id: u8, data: Seq<u8>)
    requires
        chunk_outcome(s0, s1, id, data),
    ensures
        output_stream(s1.events, id) == output_stream(s0.events, id) + data,
        forall|other: u8|
            other != id ==> output_stream(s1.events, other) == output_stream(s0.events, other),
{
    if data.len() > 0 {
        let ev = EventModel::Forward { id, data };
        lemma_event_push(s0.events, ev, id);
        assert forall|other: u8| other != id implies output_stream(s1.events, other)
            == output_stream(s0.events, other) by {
            lemma_event_push(s0.events, ev, other);
            assert(output_stream(s0.events, other) + Seq::<u8>::empty() =~= output_stream(
                s0.events,
                other,
            ));
        }
    } else {
        assert(output_stream(s0.events, id) + data =~= output_stream(s0.events, id));
    }
}

/// Closing a session, explicitly or on an exit report, never alters
/// any session's output stream: the concatenated `Forward` payloads
/// still reproduce exactly what each child wrote.
pub proof fn law_closing_preserves_output(
    s0: ManagerModel,
    s1: ManagerModel,
    id: u8,
    ev: EventModel,
)
    requires
        s1 == remove_session(s0, id, ev),
        !(ev is Forward),
    ensures
        forall|any: u8| output_stream(s1.events, any) == output_stream(s0.events, any),
{
    assert forall|any: u8| output_stream(s1.events, any) == output_stream(s0.events, any) by {
        lemma_event_push(s0.events, ev, any);
        assert(output_stream(s0.events, any) + forward_payload(ev, any) =~= output_stream(
            s0.events,
            any,
        ));
    }
}

/// The first exit report for a registered session removes its id from
/// the registry and queues exactly one closing event for it.
pub proof fn law_exit_exactly_once(
    s0: ManagerModel,
    s1: ManagerModel,
    id: u8,
    exit_code: Option<u32>,
    emitted: bool,
)
    requires
        exit_outcome(s0, s1, id, exit_code, emitted),
        s0.registry.contains_key(id),
    ensures
        emitted,
        !s1.registry.contains_key(id),
        closing_event_count(s1.events, id) == closing_event_count(s0.events, id) + 1,
{
    lemma_event_push(s0.events, EventModel::ProcessExit { id, exit_code }, id);
}

/// Once a session is gone, neither a late exit report nor another
/// terminate queues a second closing event: both leave the state,
/// and so every closing count, exactly as it was.
pub proof fn law_no_second_closing_event(
    s0: ManagerModel,
    s1: ManagerModel,
    s2: ManagerModel,
    id: u8,
    exit_code: Option<u32>,
    emitted: bool,
    r: Result<(), SessionError>,
)
    requires
        !s0.registry.contains_key(id),
        exit_outcome(s0, s1, id, exit_code, emitted),
        terminate_outcome(s0, s2, id, r),
    ensures
        !emitted,
        s1 == s0,
        r == Err::<(), SessionError>(SessionError::SessionNotFound),
        s2 == s0,
        closing_event_count(s1.events, id) == closing_event_count(s0.events, id),
        closing_event_count(s2.events, id) == closing_event_count(s0.events, id),
{
}

/// The public-facing coordinator of all sessions.
pub struct PtySessionManager {
    active_sessions: HashMap<u8, PtySession>,
    focused: Option<u8>,
    events: Vec<ProcessEvent>,
    watch_requests: Vec<DirectoryWatcherEvent>,
}

impl PtySessionManager {
    /// The manager's mathematical state.
    pub closed spec fn model(&self) -> ManagerModel {
        ManagerModel {
            registry: Map::new(
                |id: u8| self.active_sessions@.contains_key(id),
                |id: u8| self.active_sessions@[id]@,
            ),
            focused: self.focused,
            events: Seq::new(self.events@.len(), |i: int| self.events@[i]@),
            watches: Seq::new(
                self.watch_requests@.len(),
                |i: int| watch_target(self.watch_requests@[i]),
            ),
        }
    }

    pub fn new() -> (manager: PtySessionManager)
        ensures
            manager.model().registry == Map::<u8, i32>::empty(),
            manager.model().focused is None,
            manager.model().events == Seq::<EventModel>::empty(),
            manager.model().watches == Seq::<Option<i32>>::empty(),
            manager.model().wf(),
    {
        let manager = PtySessionManager {
            active_sessions: HashMap::new(),
            focused: None,
            events: Vec::new(),
            watch_requests: Vec::new(),
        };
        proof {
            assert(manager.model().registry =~= Map::<u8, i32>::empty());
            assert(manager.model().events =~= Seq::<EventModel>::empty());
            assert(manager.model().watches =~= Seq::<Option<i32>>::empty());
        }
        manager
    }

    /// Whether a session with this id is currently registered.
    pub fn contains_session(&self, id: u8) -> (present: bool)
        ensures
            present == self.model().registry.contains_key(id),
    {
        self.active_sessions.contains_key(&id)
    }

    /// The child pid of a registered session, `None` for an
    /// unregistered id.
    pub fn pid_of(&self, id: u8) -> (pid: Option<i32>)
        ensures
            match pid {
                Some(p) => self.model().registry.contains_key(id) && p == self.model().registry[id],
                None => !self.model().registry.contains_key(id),
            },
    {
        match self.active_sessions.get(&id) {
            Some(session) => Some(session.pid()),
            None => None,
        }
    }

    /// Register a session that the driver just spawned: `pid` is the
    /// process-group-leader pid of its child shell.  An id that is
    /// still active is declined as a duplicate, and the driver must
    /// not have spawned anything for it (it checks with
    /// [`Self::contains_session`] first, or discards the child).
    pub fn spawn_pty(&mut self, id: u8, pid: i32) -> (r: Result<(), SessionError>)
        requires
            old(self).model().wf(),
        ensures
            final(self).model().wf(),
            spawn_outcome(old(self).model(), final(self).model(), id, pid, r),
    {
        if self.active_sessions.contains_key(&id) {
            return Err(SessionError::DuplicateSession);
        }
        let session = PtySession::new(pid);
        self.active_sessions.insert(id, session);
        self.focused = Some(id);
        self.watch_requests.push(DirectoryWatcherEvent::Watch {
            initial: Some(WatcherPayload::new(pid)),
        });
        proof {
            let pre = old(self).model();
            let post = self.model();
            assert(post.registry =~= pre.registry.insert(id, pid));
            assert(post.events =~= pre.events);
            assert(post.watches =~= pre.watches.push(Some(pid)));
        }
        Ok(())
    }

    /// Route a write of raw bytes to a session: the driver performs
    /// the byte transfer to the session's writer exactly when the
    /// answer is `Ok`.  A failed transfer against a live session is
    /// the driver's `IoError`, surfaced to the caller and never
    /// retried.  The manager's state is untouched either way, and no
    /// event is queued for a declined write.
    pub fn write(&self, id: u8, data: &[u8]) -> (r: Result<(), SessionError>)
        ensures
            r == lookup_result(self.model(), id),
    {
        let _ = data;
        if self.active_sessions.contains_key(&id) {
            Ok(())
        } else {
            Err(SessionError::SessionNotFound)
        }
    }

    /// Route one parsed session command: a write goes as the byte
    /// routing of [`Self::write`], a resize as [`Self::resize`].
    pub fn apply_command(&self, id: u8, command: &PtySessionCommand) -> (r: Result<
        (),
        SessionError,
    >)
        ensures
            r == lookup_result(self.model(), id),
    {
        match command {
            PtySessionCommand::Write { data } => self.write(id, data.as_str().as_bytes()),
            PtySessionCommand::Resize { cols, rows } => self.resize(id, *rows, *cols),
        }
    }

    /// Route a resize to a session, under the same contract as
    /// [`Self::write`]: the driver issues the resize to the session's
    /// master handle exactly when the answer is `Ok`.
    pub fn resize(&self, id: u8, rows: u16, cols: u16) -> (r: Result<(), SessionError>)
        ensures
            r == lookup_result(self.model(), id),
    {
        let _ = rows;
        let _ = cols;
        if self.active_sessions.contains_key(&id) {
            Ok(())
        } else {
            Err(SessionError::SessionNotFound)
        }
    }

    /// Make a registered session the focused one and tell the
    /// directory watcher to follow its child's working directory.
    pub fn switch_session(&mut self, id: u8) -> (r: Result<(), SessionError>)
        requires
            old(self).model().wf(),
        ensures
            final(self).model().wf(),
            switch_outcome(old(self).model(), final(self).model(), id, r),
    {
        match self.active_sessions.get(&id) {
            Some(session) => {
                let pid = session.pid();
                self.focused = Some(id);
                self.watch_requests.push(DirectoryWatcherEvent::Watch {
                    initial: Some(WatcherPayload::new(pid)),
                });
                proof {
                    let pre = old(self).model();
                    let post = self.model();
                    assert(post.registry =~= pre.registry);
                    assert(post.events =~= pre.events);
                    assert(post.watches =~= pre.watches.push(Some(pre.registry[id])));
                }
                Ok(())
            },
            None => Err(SessionError::SessionNotFound),
        }
    }

    /// Explicitly close a session: the driver kills the child and
    /// stops the reader exactly when the answer is `Ok`.  The id
    /// leaves the registry in the same step in which the `Closed`
    /// event is queued, so downstream consumers never observe a
    /// closing event for a still-registered session.
    pub fn terminate(&mut self, id: u8) -> (r: Result<(), SessionError>)
        requires
            old(self).model().wf(),
        ensures
            final(self).model().wf(),
            terminate_outcome(old(self).model(), final(self).model(), id, r),
    {
        if !self.active_sessions.contains_key(&id) {
            return Err(SessionError::SessionNotFound);
        }
        self.active_sessions.remove(&id);
        self.events.push(ProcessEvent::Closed { id });
        let was_focused = match self.focused {
            Some(f) => f == id,
            None => false,
        };
        if was_focused {
            self.focused = None;
            self.watch_requests.push(DirectoryWatcherEvent::Watch { initial: None });
        }
        proof {
            let pre = old(self).model();
            let post = self.model();
            let expected = remove_session(pre, id, EventModel::Closed { id });
            assert(post.registry =~= expected.registry);
            assert(post.events =~= expected.events);
            assert(post.watches =~= expected.watches);
        }
        Ok(())
    }

    /// Record that a session's child exited on its own, as reported by
    /// the driver's exit watcher.  The first report wins: it removes
    /// the id and queues exactly one `ProcessExit` event; any report
    /// for an id that is already gone is ignored.  The returned flag
    /// says whether an event was queued.
    pub fn session_exited(&mut self, id: u8, exit_code: Option<u32>) -> (emitted: bool)
        requires
            old(self).model().wf(),
        ensures
            final(self).model().wf(),
            exit_outcome(old(self).model(), final(self).model(), id, exit_code, emitted),
    {
        if !self.active_sessions.contains_key(&id) {
            return false;
        }
        self.active_sessions.remove(&id);
        self.events.push(ProcessEvent::ProcessExit { id, exit_code });
        let was_focused = match self.focused {
            Some(f) => f == id,
            None => false,
        };
        if was_focused {
            self.focused = None;
            self.watch_requests.push(DirectoryWatcherEvent::Watch { initial: None });
        }
        proof {
            let pre = old(self).model();
            let post = self.model();
            let expected = remove_session(pre, id, EventModel::ProcessExit { id, exit_code });
            assert(post.registry =~= expected.registry);
            assert(post.events =~= expected.events);
            assert(post.watches =~= expected.watches);
        }
        true
    }

    /// Queue one chunk that the session's reader pulled from the
    /// pseudo-terminal.  Only non-empty chunks become events, and they
    /// are queued in arrival order, which is the order the child wrote
    /// them.
    pub fn reader_chunk(&mut self, id: u8, data: Vec<u8>)
        requires
            old(self).model().wf(),
        ensures
            final(self).model().wf(),
            chunk_outcome(old(self).model(), final(self).model(), id, data@),
    {
        if data.len() > 0 {
            self.events.push(ProcessEvent::Forward { id, data });
            proof {
                let pre = old(self).model();
                let post = self.model();
                assert(post.registry =~= pre.registry);
                assert(post.events =~= pre.events.push(EventModel::Forward { id, data: data@ }));
                assert(post.watches =~= pre.watches);
            }
        }
    }

    /// Hand every queued event, in order, to the single consumer and
    /// leave the queue empty.
    pub fn take_events(&mut self) -> (drained: Vec<ProcessEvent>)
        ensures
            Seq::new(drained@.len(), |i: int| drained@[i]@) == old(self).model().events,
            final(self).model() == (ManagerModel {
                events: Seq::<EventModel>::empty(),
                ..old(self).model()
            }),
    {
        let mut drained: Vec<ProcessEvent> = Vec::new();
        core::mem::swap(&mut self.events, &mut drained);
        proof {
            let pre = old(self).model();
            let post = self.model();
            assert(Seq::new(drained@.len(), |i: int| drained@[i]@) =~= pre.events);
            assert(post.registry =~= pre.registry);
            assert(post.events =~= Seq::<EventModel>::empty());
            assert(post.watches =~= pre.watches);
        }
        drained
    }

    /// Hand every queued watch request, in order, to the directory
    /// watcher and leave the queue empty.
    pub fn take_watch_requests(&mut self) -> (drained: Vec<DirectoryWatcherEvent>)
        ensures
            Seq::new(drained@.len(), |i: int| watch_target(drained@[i])) == old(
                self,
            ).model().watches,
            final(self).model() == (ManagerModel {
                watches: Seq::<Option<i32>>::empty(),
                ..old(self).model()
            }),
    {
        let mut drained: Vec<DirectoryWatcherEvent> = Vec::new();
        core::mem::swap(&mut self.watch_requests, &mut drained);
        proof {
            let pre = old(self).model();
            let post = self.model();
            assert(Seq::new(drained@.len(), |i: int| watch_target(drained@[i])) =~= pre.watches);
            assert(post.registry =~= pre.registry);
            assert(post.events =~= pre.events);
            assert(post.watches =~= Seq::<Option<i32>>::empty());
        }
        drained
    }
}

} // verus!
