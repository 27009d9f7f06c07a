use topo_core::jobs::{JobStatus, JobStore};
use topo_core::routes::{check_grid_request, finished_result, ExportRefusal, RequestRejection, MAX_GRID_SIDE};
use topo_core::ws::{socket_step, ClientFrame, SocketAction, SocketEvent, SocketPhase, StatusSeen};

type Store = JobStore<String, u32, i64>;

fn is_v4(id: u128) -> bool {
    (id >> 76) & 0xf == 4 && (id >> 62) & 0x3 == 2
}

#[test]
fn created_job_is_pending() {
    let mut store = Store::new();
    let id = store.create_job("cantilever".to_string());
    assert!(is_v4(id));
    let job = store.get_job(id).unwrap();
    assert_eq!(job.id, id);
    assert_eq!(job.status, JobStatus::Pending);
    assert_eq!(job.request, "cantilever");
    assert!(job.last_iteration.is_none());
    assert!(job.result.is_none());
}

#[test]
fn ids_are_fresh() {
    let mut store = Store::new();
    let a = store.create_job("a".to_string());
    let b = store.create_job("b".to_string());
    assert_ne!(a, b);
    assert_ne!(a, 0);
    assert_eq!(store.get_job(a).unwrap().request, "a");
    assert_eq!(store.get_job(b).unwrap().request, "b");
}

#[test]
fn job_lifecycle() {
    let mut store = Store::default();
    let id = store.create_job("r".to_string());
    store.set_running(id);
    assert_eq!(store.get_job(id).unwrap().status, JobStatus::Running);
    store.update_iteration(id, 3);
    assert_eq!(store.get_job(id).unwrap().last_iteration, Some(3));
    assert_eq!(store.get_job(id).unwrap().status, JobStatus::Running);
    store.set_done(id, 42);
    let job = store.get_job(id).unwrap();
    assert_eq!(job.status, JobStatus::Done);
    assert_eq!(job.result, Some(42));
    assert_eq!(job.last_iteration, Some(3));
}

#[test]
fn failures_and_unknown_ids() {
    let mut store = Store::new();
    let id = store.create_job("r".to_string());
    store.set_failed(id, "boom".to_string());
    assert_eq!(store.get_job(id).unwrap().status, JobStatus::Failed("boom".to_string()));
    let other = id ^ 1;
    store.set_running(other);
    store.set_done(other, 1);
    store.update_iteration(other, 1);
    assert!(store.get_job(other).is_none());
    assert_eq!(store.get_job(id).unwrap().status, JobStatus::Failed("boom".to_string()));
}

#[test]
fn finish_records_outcome() {
    let mut store = Store::new();
    let a = store.create_job("a".to_string());
    let b = store.create_job("b".to_string());
    store.finish(a, Ok(7));
    store.finish(b, Err("singular".to_string()));
    assert_eq!(store.get_job(a).unwrap().status, JobStatus::Done);
    assert_eq!(store.get_job(a).unwrap().result, Some(7));
    assert_eq!(store.get_job(b).unwrap().status, JobStatus::Failed("singular".to_string()));
    assert_eq!(store.get_job(b).unwrap().result, None);
}

#[test]
fn grid_request_limits() {
    assert_eq!(check_grid_request(0, 5), Err(RequestRejection::EmptyGrid));
    assert_eq!(check_grid_request(5, 0), Err(RequestRejection::EmptyGrid));
    assert_eq!(check_grid_request(0, 500), Err(RequestRejection::EmptyGrid));
    assert_eq!(check_grid_request(201, 5), Err(RequestRejection::GridTooLarge));
    assert_eq!(check_grid_request(5, 201), Err(RequestRejection::GridTooLarge));
    assert_eq!(check_grid_request(MAX_GRID_SIDE, MAX_GRID_SIDE), Ok(()));
    assert_eq!(check_grid_request(1, 1), Ok(()));
}

#[test]
fn export_needs_a_finished_job() {
    let mut store = Store::new();
    let id = store.create_job("r".to_string());
    assert_eq!(finished_result(store.get_job(id ^ 1)), Err(ExportRefusal::NotFound));
    assert_eq!(finished_result(store.get_job(id)), Err(ExportRefusal::NotFinished));
    store.set_done(id, 5);
    assert_eq!(finished_result(store.get_job(id)), Ok(&5));
}

#[test]
fn socket_connects_streams_and_finishes() {
    let (p, a) = socket_step(
        SocketPhase::Connecting,
        SocketEvent::Opened { job_exists: true, stream_available: true },
    );
    assert_eq!((p, a), (SocketPhase::Listening, SocketAction::SendConnected));
    let (p, a) = socket_step(p, SocketEvent::UpdateArrived { sender_alive: true, has_report: true });
    assert_eq!((p, a), (SocketPhase::SendingIteration, SocketAction::SendReport));
    let (p, a) = socket_step(p, SocketEvent::ReportSent { ok: true });
    assert_eq!((p, a), (SocketPhase::CheckingStatus, SocketAction::ReadStatus));
    let (p, a) = socket_step(p, SocketEvent::StatusRead(StatusSeen::InProgress));
    assert_eq!((p, a), (SocketPhase::Listening, SocketAction::Wait));
    let (p, a) = socket_step(p, SocketEvent::Client(ClientFrame::Ping));
    assert_eq!((p, a), (SocketPhase::Listening, SocketAction::SendPong));
    let (p, a) = socket_step(p, SocketEvent::UpdateArrived { sender_alive: true, has_report: false });
    assert_eq!((p, a), (SocketPhase::CheckingStatus, SocketAction::ReadStatus));
    let (p, a) = socket_step(p, SocketEvent::StatusRead(StatusSeen::Done));
    assert_eq!((p, a), (SocketPhase::Closed, SocketAction::SendDone));
    let (p, a) = socket_step(p, SocketEvent::Client(ClientFrame::Ping));
    assert_eq!((p, a), (SocketPhase::Closed, SocketAction::Stop));
}

#[test]
fn socket_rejections_and_endings() {
    assert_eq!(
        socket_step(SocketPhase::Connecting, SocketEvent::Opened { job_exists: false, stream_available: true }),
        (SocketPhase::Closed, SocketAction::RejectMissingJob)
    );
    assert_eq!(
        socket_step(SocketPhase::Connecting, SocketEvent::Opened { job_exists: true, stream_available: false }),
        (SocketPhase::Closed, SocketAction::RejectNoStream)
    );
    assert_eq!(
        socket_step(SocketPhase::Listening, SocketEvent::UpdateArrived { sender_alive: false, has_report: true }),
        (SocketPhase::Closed, SocketAction::Stop)
    );
    assert_eq!(
        socket_step(SocketPhase::SendingIteration, SocketEvent::ReportSent { ok: false }),
        (SocketPhase::Closed, SocketAction::Stop)
    );
    assert_eq!(
        socket_step(SocketPhase::CheckingStatus, SocketEvent::StatusRead(StatusSeen::Failed)),
        (SocketPhase::Closed, SocketAction::SendFailed)
    );
    assert_eq!(
        socket_step(SocketPhase::CheckingStatus, SocketEvent::StatusRead(StatusSeen::Missing)),
        (SocketPhase::Listening, SocketAction::Wait)
    );
    assert_eq!(
        socket_step(SocketPhase::Listening, SocketEvent::Client(ClientFrame::Close)),
        (SocketPhase::Closed, SocketAction::Stop)
    );
    assert_eq!(
        socket_step(SocketPhase::Listening, SocketEvent::Client(ClientFrame::Ended)),
        (SocketPhase::Closed, SocketAction::Stop)
    );
    assert_eq!(
        socket_step(SocketPhase::Listening, SocketEvent::Client(ClientFrame::Other)),
        (SocketPhase::Listening, SocketAction::Wait)
    );
}
