//! The live-update stream of a job over a WebSocket, as a state machine.
//!
//! The socket loop performs each action (a send, a status read, waiting for the next event)
//! and hands back what happened as the next event; `socket_step` decides what comes next.
use vstd::prelude::*;

verus! {

/// Where the stream of one client stands.
#[derive(Debug, Clone, Copy, PartialEq, Eq, Structural)]
pub enum SocketPhase {
    /// The connection is up; the job and its update channel are not looked up yet.
    Connecting,
    /// Waiting for the next iteration update or client frame.
    Listening,
    /// An iteration report is being sent.
    SendingIteration,
    /// The job's status is being read after an update.
    CheckingStatus,
    /// The stream is over.
    Closed,
}

/// A frame (or the lack of one) received from the client.
#[derive(Debug, Clone, Copy, PartialEq, Eq, Structural)]
pub enum ClientFrame {
    /// A close frame.
    Close,
    /// The connection ended without a frame.
    Ended,
    /// A ping, to be answered with a pong carrying the same data.
    Ping,
    /// Any other frame, or a receive error.
    Other,
}

/// What the job's status was when it was read after an update.
#[derive(Debug, Clone, Copy, PartialEq, Eq, Structural)]
pub enum StatusSeen {
    /// The job is no longer in the store.
    Missing,
    /// Pending or running.
    InProgress,
    Done,
    Failed,
}

/// What happened since the last step.
#[derive(Debug, Clone, Copy, PartialEq, Eq, Structural)]
pub enum SocketEvent {
    /// The job and its update channel were looked up.
    Opened { job_exists: bool, stream_available: bool },
    /// The update channel woke up: its sender may be gone, and it may hold an iteration report.
    UpdateArrived { sender_alive: bool, has_report: bool },
    /// The iteration report was sent, or the send failed.
    ReportSent { ok: bool },
    /// The job's status was read.
    StatusRead(StatusSeen),
    /// The client sent a frame, or the connection ended.
    Client(ClientFrame),
}

/// What the socket loop does next.
#[derive(Debug, Clone, Copy, PartialEq, Eq, Structural)]
pub enum SocketAction {
    /// Send the "job not found" error and close.
    RejectMissingJob,
    /// Send the "no stream available" error and close.
    RejectNoStream,
    /// Send the "connected" greeting.
    SendConnected,
    /// Send the iteration report.
    SendReport,
    /// Read the job's status from the store.
    ReadStatus,
    /// Send the "done" message with the result's summary and close.
    SendDone,
    /// Send the "failed" message with the job's error and close.
    SendFailed,
    /// Answer the ping with a pong.
    SendPong,
    /// Wait for the next update or client frame.
    Wait,
    /// Close without a message.
    Stop,
}

/// The transition table of the stream.
pub open spec fn socket_transition(phase: SocketPhase, event: SocketEvent) -> (SocketPhase, SocketAction) {
    match (phase, event) {
        (SocketPhase::Closed, _) => (SocketPhase::Closed, SocketAction::Stop),
        (SocketPhase::Connecting, SocketEvent::Opened { job_exists, stream_available }) => {
            if !job_exists {
                (SocketPhase::Closed, SocketAction::RejectMissingJob)
            } else if !stream_available {
                (SocketPhase::Closed, SocketAction::RejectNoStream)
            } else {
                (SocketPhase::Listening, SocketAction::SendConnected)
            }
        },
        (SocketPhase::Listening, SocketEvent::UpdateArrived { sender_alive, has_report }) => {
            if !sender_alive {
                (SocketPhase::Closed, SocketAction::Stop)
            } else if has_report {
                (SocketPhase::SendingIteration, SocketAction::SendReport)
            } else {
                (SocketPhase::CheckingStatus, SocketAction::ReadStatus)
            }
        },
        (SocketPhase::SendingIteration, SocketEvent::ReportSent { ok }) => {
            if ok {
                (SocketPhase::CheckingStatus, SocketAction::ReadStatus)
            } else {
                (SocketPhase::Closed, SocketAction::Stop)
            }
        },
        (SocketPhase::CheckingStatus, SocketEvent::StatusRead(seen)) => match seen {
            StatusSeen::Done => (SocketPhase::Closed, SocketAction::SendDone),
            StatusSeen::Failed => (SocketPhase::Closed, SocketAction::SendFailed),
            _ => (SocketPhase::Listening, SocketAction::Wait),
        },
        (SocketPhase::Listening, SocketEvent::Client(frame)) => match frame {
            ClientFrame::Close => (SocketPhase::Closed, SocketAction::Stop),
            ClientFrame::Ended => (SocketPhase::Closed, SocketAction::Stop),
            ClientFrame::Ping => (SocketPhase::Listening, SocketAction::SendPong),
            ClientFrame::Other => (SocketPhase::Listening, SocketAction::Wait),
        },
        _ => (phase, SocketAction::Wait),
    }
}

/// Decides the next phase of the stream and the loop's next action.
pub fn socket_step(phase: SocketPhase, event: SocketEvent) -> (r: (SocketPhase, SocketAction))
    ensures
        r == socket_transition(phase, event),
        phase == SocketPhase::Closed ==> r == (SocketPhase::Closed, SocketAction::Stop),
        phase == SocketPhase::Connecting ==> (event matches SocketEvent::Opened {
            job_exists,
            stream_available,
        } ==> r == if !job_exists {
            (SocketPhase::Closed, SocketAction::RejectMissingJob)
        } else if !stream_available {
            (SocketPhase::Closed, SocketAction::RejectNoStream)
        } else {
            (SocketPhase::Listening, SocketAction::SendConnected)
        }),
        r.1 == SocketAction::SendConnected ==> phase == SocketPhase::Connecting && event == (SocketEvent::Opened {
            job_exists: true,
            stream_available: true,
        }),
        phase == SocketPhase::Listening ==> (event matches SocketEvent::UpdateArrived {
            sender_alive,
            has_report,
        } ==> r == if !sender_alive {
            (SocketPhase::Closed, SocketAction::Stop)
        } else if has_report {
            (SocketPhase::SendingIteration, SocketAction::SendReport)
        } else {
            (SocketPhase::CheckingStatus, SocketAction::ReadStatus)
        }),
        phase == SocketPhase::SendingIteration ==> (event matches SocketEvent::ReportSent { ok } ==> r == if ok {
            (SocketPhase::CheckingStatus, SocketAction::ReadStatus)
        } else {
            (SocketPhase::Closed, SocketAction::Stop)
        }),
        phase == SocketPhase::CheckingStatus ==> (event matches SocketEvent::StatusRead(seen) ==> r == if seen
            == StatusSeen::Done {
            (SocketPhase::Closed, SocketAction::SendDone)
        } else if seen == StatusSeen::Failed {
            (SocketPhase::Closed, SocketAction::SendFailed)
        } else {
            (SocketPhase::Listening, SocketAction::Wait)
        }),
        phase == SocketPhase::Listening ==> (event matches SocketEvent::Client(frame) ==> r == if frame
            == ClientFrame::Close || frame == ClientFrame::Ended {
            (SocketPhase::Closed, SocketAction::Stop)
        } else if frame == ClientFrame::Ping {
            (SocketPhase::Listening, SocketAction::SendPong)
        } else {
            (SocketPhase::Listening, SocketAction::Wait)
        }),
        r.1 == SocketAction::Wait ==> r.0 != SocketPhase::Closed,
{
    match (phase, event) {
        (SocketPhase::Closed, _) => (SocketPhase::Closed, SocketAction::Stop),
        (SocketPhase::Connecting, SocketEvent::Opened { job_exists, stream_available }) => {
            if !job_exists {
                (SocketPhase::Closed, SocketAction::RejectMissingJob)
            } else if !stream_available {
                (SocketPhase::Closed, SocketAction::RejectNoStream)
            } else {
                (SocketPhase::Listening, SocketAction::SendConnected)
            }
        },
        (SocketPhase::Listening, SocketEvent::UpdateArrived { sender_alive, has_report }) => {
            if !sender_alive {
                (SocketPhase::Closed, SocketAction::Stop)
            } else if has_report {
                (SocketPhase::SendingIteration, SocketAction::SendReport)
            } else {
                (SocketPhase::CheckingStatus, SocketAction::ReadStatus)
            }
        },
        (SocketPhase::SendingIteration, SocketEvent::ReportSent { ok }) => {
            if ok {
                (SocketPhase::CheckingStatus, SocketAction::ReadStatus)
            } else {
                (SocketPhase::Closed, SocketAction::Stop)
            }
        },
        (SocketPhase::CheckingStatus, SocketEvent::StatusRead(seen)) => match seen {
            StatusSeen::Done => (SocketPhase::Closed, SocketAction::SendDone),
            StatusSeen::Failed => (SocketPhase::Closed, SocketAction::SendFailed),
            _ => (SocketPhase::Listening, SocketAction::Wait),
        },
        (SocketPhase::Listening, SocketEvent::Client(frame)) => match frame {
            ClientFrame::Close => (SocketPhase::Closed, SocketAction::Stop),
            ClientFrame::Ended => (SocketPhase::Closed, SocketAction::Stop),
            ClientFrame::Ping => (SocketPhase::Listening, SocketAction::SendPong),
            ClientFrame::Other => (SocketPhase::Listening, SocketAction::Wait),
        },
        _ => (phase, SocketAction::Wait),
    }
}

/// A stream opened on a job that does not exist is refused with the "job not found" error and
/// closed, whether or not an update channel was found.
pub proof fn law_unknown_job_rejected(stream_available: bool)
    ensures
        socket_transition(
            SocketPhase::Connecting,
            SocketEvent::Opened { job_exists: false, stream_available },
        ) == (SocketPhase::Closed, SocketAction::RejectMissingJob),
{
}

/// The greeting is sent only when the stream is being opened and both the job and its update
/// channel exist; the stream then listens.
pub proof fn law_connected_needs_job_and_stream(phase: SocketPhase, event: SocketEvent)
    ensures
        socket_transition(phase, event).1 == SocketAction::SendConnected <==> (phase == SocketPhase::Connecting
            && event == (SocketEvent::Opened { job_exists: true, stream_available: true })),
        socket_transition(phase, event).1 == SocketAction::SendConnected ==> socket_transition(phase, event).0
            == SocketPhase::Listening,
{
}

/// An action after which the loop ends.
pub open spec fn is_final_action(a: SocketAction) -> bool {
    a == SocketAction::RejectMissingJob || a == SocketAction::RejectNoStream || a == SocketAction::SendDone
        || a == SocketAction::SendFailed || a == SocketAction::Stop
}

/// The stream closes exactly when the action is a final one, a closed stream stays closed
/// and sends nothing more, and the "done" or "failed" message is only ever sent right after
/// the job's status was read.
pub proof fn law_stream_closes(phase: SocketPhase, event: SocketEvent)
    ensures
        (socket_transition(phase, event).0 == SocketPhase::Closed) <==> is_final_action(
            socket_transition(phase, event).1,
        ) || (phase == SocketPhase::Closed),
        phase == SocketPhase::Closed ==> socket_transition(phase, event) == (
            SocketPhase::Closed,
            SocketAction::Stop,
        ),
        (socket_transition(phase, event).1 == SocketAction::SendDone || socket_transition(phase, event).1
            == SocketAction::SendFailed) ==> phase == SocketPhase::CheckingStatus && event is StatusRead,
        socket_transition(phase, event).1 == SocketAction::SendReport ==> phase == SocketPhase::Listening,
{
}

} // verus!
