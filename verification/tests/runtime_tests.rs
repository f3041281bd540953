use wart_worker::backend::{RedisConnectionManager, Router, StorageConnectionManager};
use wart_worker::deadline::{ticker_step, EpochClock, RunDeadline, TickerAction};
use wart_worker::orchestrator::{abort_error, Orchestrator, StreamAction, StreamEvent,
    StreamPhase};
use wart_worker::strfmt::{session_key, shard_key, u64_to_dec};
use wart_worker::WorkerError;

#[test]
fn parallelism_two_admits_at_most_two() {
    let mut o = Orchestrator::new();
    assert_eq!(o.on_event(&StreamEvent::Config { parallel: 2 }), StreamAction::Start);
    assert_eq!(o.on_event(&StreamEvent::Args), StreamAction::Launch);
    assert_eq!(o.on_event(&StreamEvent::Args), StreamAction::Launch);
    // The third concurrent request is held...
    assert_eq!(o.on_event(&StreamEvent::Args), StreamAction::Wait);
    // ...and admitted exactly after one of the first two completes.
    assert_eq!(o.on_event(&StreamEvent::TaskDone), StreamAction::SendResult);
    assert_eq!(o.on_event(&StreamEvent::Args), StreamAction::Launch);
    assert_eq!(o.in_flight, 2);
}

#[test]
fn timeout_tears_the_stream_down() {
    let mut o = Orchestrator::new();
    assert_eq!(o.on_event(&StreamEvent::Config { parallel: 1 }), StreamAction::Start);
    assert_eq!(o.on_event(&StreamEvent::Args), StreamAction::Launch);
    // The run sleeps past its wall-clock budget: the stream is cancelled
    // and nothing further is served.
    assert_eq!(o.on_event(&StreamEvent::TaskTimeout), StreamAction::Cancel);
    assert_eq!(o.phase, StreamPhase::Closed);
    assert_eq!(o.on_event(&StreamEvent::Args), StreamAction::Ignore);
    assert_eq!(o.on_event(&StreamEvent::TaskDone), StreamAction::Ignore);
}

#[test]
fn first_message_must_be_config() {
    let mut o = Orchestrator::new();
    let a = o.on_event(&StreamEvent::Args);
    assert_eq!(a, StreamAction::Abort);
    assert_eq!(abort_error(&a), Some(WorkerError::ProtocolError));
    assert_eq!(o.phase, StreamPhase::Closed);
}

#[test]
fn zero_parallelism_still_grants_one_permit() {
    let mut o = Orchestrator::new();
    o.on_event(&StreamEvent::Config { parallel: 0 });
    assert_eq!(o.permits, 1);
    assert_eq!(o.on_event(&StreamEvent::Args), StreamAction::Launch);
    assert_eq!(o.on_event(&StreamEvent::Args), StreamAction::Wait);
}

#[test]
fn execution_error_answers_one_request_only() {
    let mut o = Orchestrator::new();
    o.on_event(&StreamEvent::Config { parallel: 1 });
    o.on_event(&StreamEvent::Args);
    assert_eq!(o.on_event(&StreamEvent::TaskFailed), StreamAction::SendError);
    // The stream is not torn down by an application-level error.
    assert_eq!(o.phase, StreamPhase::Running);
    assert_eq!(o.on_event(&StreamEvent::Args), StreamAction::Launch);
}

#[test]
fn input_end_drains_admitted_work_then_finishes() {
    let mut o = Orchestrator::new();
    o.on_event(&StreamEvent::Config { parallel: 2 });
    o.on_event(&StreamEvent::Args);
    o.on_event(&StreamEvent::Args);
    assert_eq!(o.on_event(&StreamEvent::InputEnded), StreamAction::Drain);
    assert_eq!(o.phase, StreamPhase::Draining);
    assert_eq!(o.on_event(&StreamEvent::TaskDone), StreamAction::SendResult);
    assert_eq!(o.phase, StreamPhase::Draining);
    assert_eq!(o.on_event(&StreamEvent::TaskDone), StreamAction::SendResult);
    assert_eq!(o.phase, StreamPhase::Closed);
}

#[test]
fn mid_stream_config_aborts() {
    let mut o = Orchestrator::new();
    o.on_event(&StreamEvent::Config { parallel: 1 });
    let a = o.on_event(&StreamEvent::Config { parallel: 1 });
    assert_eq!(a, StreamAction::Abort);
    assert_eq!(abort_error(&a), Some(WorkerError::ProtocolError));
}

#[test]
fn never_yielding_guest_is_preempted_after_one_tick() {
    let mut clock = EpochClock::new();
    let d = RunDeadline::for_run(&clock);
    assert!(!d.expired(&clock));
    assert_eq!(d.check(&clock), Ok(()));
    clock.tick();
    assert!(d.expired(&clock));
    // The forced interruption is a deadline trap, not a hang.
    assert_eq!(d.check(&clock), Err(WorkerError::Trap));
}

#[test]
fn ticker_advances_until_stopped() {
    assert_eq!(ticker_step(false), TickerAction::AdvanceEpoch);
    assert_eq!(ticker_step(true), TickerAction::Stop);
}

#[test]
fn decimal_rendering_exact() {
    assert_eq!(u64_to_dec(0), "0");
    assert_eq!(u64_to_dec(7), "7");
    assert_eq!(u64_to_dec(10), "10");
    assert_eq!(u64_to_dec(40960), "40960");
    assert_eq!(u64_to_dec(u64::MAX), "18446744073709551615");
}

#[test]
fn key_layout_exact() {
    assert_eq!(session_key("tok"), "wart:session:tok");
    assert_eq!(shard_key("tok", 12), "wart:store:tok:12");
    assert_eq!(shard_key("tok", 0), "wart:store:tok:0");
}

#[test]
fn backend_urls_exact() {
    let r = RedisConnectionManager::from_host_port("10.0.0.1", 6379);
    assert_eq!(r.url, "redis://10.0.0.1:6379/");
    let g = StorageConnectionManager::from_host_port("graph.internal", 80);
    assert_eq!(g.url, "http://graph.internal:80/");
}

#[test]
fn router_is_stateless() {
    let a = Router::new();
    let b = Router::new();
    assert_eq!(a, b);
}
