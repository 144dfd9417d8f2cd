//! Event model and the event-processor decision logic.
//!
//! Every producer (a session's reader, a session's exit watcher, the
//! explicit terminate path) appends `ProcessEvent`s to a queue; a single
//! consumer drains that queue in order and, for each event, asks
//! [`handle_event`] what to do.  The consumer itself performs no
//! decisions: forwarding to the presentation boundary, retiring a
//! terminal's view, and shutting the whole process down are all chosen
//! here and verified.

use vstd::prelude::*;

verus! {

use crate::PRIMARY_SESSION_ID;

/// An event travelling from the session tasks toward the presentation
/// boundary.  `Forward` carries raw output bytes of one session;
/// `ProcessExit` reports that a session's child exited on its own with
/// an optional exit code; `Closed` reports an explicit termination.
pub enum ProcessEvent {
    Forward { id: u8, data: Vec<u8> },
    ProcessExit { id: u8, exit_code: Option<u32> },
    Closed { id: u8 },
}

/// The mathematical value of a [`ProcessEvent`]: the same tag with the
/// payload bytes abstracted to a sequence.
pub enum EventModel {
    Forward { id: u8, data: Seq<u8> },
    ProcessExit { id: u8, exit_code: Option<u32> },
    Closed { id: u8 },
}

impl View for ProcessEvent {
    type V = EventModel;

    open spec fn view(&self) -> EventModel {
        match self {
            ProcessEvent::Forward { id, data } => EventModel::Forward { id: *id, data: data@ },
            ProcessEvent::ProcessExit { id, exit_code } => EventModel::ProcessExit {
                id: *id,
                exit_code: *exit_code,
            },
            ProcessEvent::Closed { id } => EventModel::Closed { id: *id },
        }
    }
}

/// What the event consumer must do with one event.
pub enum EventAction {
    /// Forward these output bytes to the presentation boundary, keyed
    /// by the session id.
    EmitOutput { id: u8, data: Vec<u8> },
    /// Tell the presentation boundary to retire this session's view.
    DestroyTerminal { id: u8 },
    /// Shut the whole process down with this exit code.
    ExitProcess { code: i32 },
    /// Nothing to do (an empty output chunk is not forwarded).
    Ignore,
}

/// The mathematical value of an [`EventAction`].
pub enum ActionModel {
    EmitOutput { id: u8, data: Seq<u8> },
    DestroyTerminal { id: u8 },
    ExitProcess { code: i32 },
    Ignore,
}

impl View for EventAction {
    type V = ActionModel;

    open spec fn view(&self) -> ActionModel {
        match self {
            EventAction::EmitOutput { id, data } => ActionModel::EmitOutput {
                id: *id,
                data: data@,
            },
            EventAction::DestroyTerminal { id } => ActionModel::DestroyTerminal { id: *id },
            EventAction::ExitProcess { code } => ActionModel::ExitProcess { code: *code },
            EventAction::Ignore => ActionModel::Ignore,
        }
    }
}

/// The decision taken when a session is gone, either because its child
/// exited (`exit_code` observed) or because it was explicitly closed
/// (no exit code): the primary session tears the whole process down
/// with the observed code (0 when none is available), any other session
/// only has its view retired.
pub open spec fn close_action(id: u8, exit_code: Option<u32>) -> ActionModel {
    if id == PRIMARY_SESSION_ID {
        ActionModel::ExitProcess {
            code: (match exit_code {
                Some(c) => c,
                None => 0,
            }) as i32,
        }
    } else {
        ActionModel::DestroyTerminal { id }
    }
}

/// The decision taken for each event the consumer drains.
pub open spec fn event_action(ev: EventModel) -> ActionModel {
    match ev {
        EventModel::Forward { id, data } => if data.len() == 0 {
            ActionModel::Ignore
        } else {
            ActionModel::EmitOutput { id, data }
        },
        EventModel::ProcessExit { id, exit_code } => close_action(id, exit_code),
        EventModel::Closed { id } => close_action(id, None),
    }
}

/// Decide what to do with a session that is gone.
pub fn handle_close(id: u8, exit_code: Option<u32>) -> (action: EventAction)
    ensures
        action@ == close_action(id, exit_code),
{
    if id == PRIMARY_SESSION_ID {
        let code: u32 = match exit_code {
            Some(c) => c,
            None => 0,
        };
        EventAction::ExitProcess { code: code as i32 }
    } else {
        EventAction::DestroyTerminal { id }
    }
}

/// Decide what to do with one drained event.  The consumer loop
/// performs exactly the returned action and nothing else, so every
/// forwarding, teardown and shutdown decision is pinned here.
pub fn handle_event(event: ProcessEvent) -> (action: EventAction)
    ensures
        action@ == event_action(event@),
{
    match event {
        ProcessEvent::Forward { id, data } => {
            if data.len() == 0 {
                EventAction::Ignore
            } else {
                EventAction::EmitOutput { id, data }
            }
        },
        ProcessEvent::ProcessExit { id, exit_code } => handle_close(id, exit_code),
        ProcessEvent::Closed { id } => handle_close(id, None),
    }
}

/// Closing the primary session always shuts the whole process down,
/// with the observed exit code when there is one and 0 otherwise;
/// closing any other session never does, it only retires that
/// session's view.
pub proof fn law_primary_close_shuts_down(id: u8, exit_code: Option<u32>)
    ensures
        id == PRIMARY_SESSION_ID ==> event_action(EventModel::ProcessExit { id, exit_code })
            == (ActionModel::ExitProcess {
            code: (match exit_code {
                Some(c) => c,
                None => 0,
            }) as i32,
        }),
        id == PRIMARY_SESSION_ID ==> event_action(EventModel::Closed { id })
            == (ActionModel::ExitProcess { code: 0 }),
        id != PRIMARY_SESSION_ID ==> event_action(EventModel::ProcessExit { id, exit_code })
            == (ActionModel::DestroyTerminal { id }),
        id != PRIMARY_SESSION_ID ==> event_action(EventModel::Closed { id })
            == (ActionModel::DestroyTerminal { id }),
{
}

} // verus!
