use tanxium::events::{event_callback_script, EventBridge, LoopDirective, LoopEvent, loop_step};
use tanxium::host_state::YasumuInternalState;
use tanxium::lifecycle::{LifecycleError, StopAction, TaskManager, TaskState};
use tanxium::permissions::evaluate_prompt;
use tanxium::smtp::{ServerError, ServerState, SmtpHandler};
use tanxium::supervisor::{RunOutcome, Supervisor, SupervisorAction, MAX_RETRIES, RETRY_DELAY_MS};
use tanxium::types::PermissionsResponse;

#[test]
fn second_start_with_the_same_id_is_rejected() {
    let mut m = TaskManager::new();
    assert!(m.start("t1").is_ok());
    assert_eq!(m.start("t1").unwrap_err(), LifecycleError::TaskAlreadyRunning);
    assert!(matches!(m.query("t1").unwrap().state, TaskState::Running));
}

#[test]
fn start_replaces_a_finished_run() {
    let mut m = TaskManager::new();
    m.start("t1").unwrap();
    assert!(m.mark_completed("t1", "done".to_string()));
    assert!(m.start("t1").is_ok());
    assert!(matches!(m.query("t1").unwrap().state, TaskState::Running));
    assert_eq!(m.query("t1").unwrap().return_value, "");
}

#[test]
fn stop_on_missing_or_finished_tasks_succeeds() {
    let mut m = TaskManager::new();
    assert!(matches!(m.stop("ghost"), StopAction::NoTask));
    m.start("t1").unwrap();
    m.mark_completed("t1", String::new());
    assert!(matches!(m.stop("t1"), StopAction::Reclaimed));
    assert!(m.query("t1").is_none());
}

#[test]
fn stop_walks_through_stopping_before_stopped() {
    let mut m = TaskManager::new();
    m.start("t1").unwrap();
    assert!(matches!(m.stop("t1"), StopAction::SignalCancel));
    assert!(matches!(m.query("t1").unwrap().state, TaskState::Stopping));
    assert!(matches!(m.stop("t1"), StopAction::AlreadyStopping));
    assert!(m.mark_stopped("t1"));
    assert!(matches!(m.query("t1").unwrap().state, TaskState::Stopped));
}

#[test]
fn denied_capability_scenario() {
    let mut m = TaskManager::new();
    m.start("t1").unwrap();
    let eval = evaluate_prompt("use the network", "net", None, true, Vec::new());
    let emitted = m.apply_prompt_evaluation("t1", eval);
    assert!(emitted.is_some());
    assert!(matches!(m.query("t1").unwrap().state, TaskState::WaitingForPermission));
    assert!(m.resolve_prompt("t1", PermissionsResponse::Deny));
    let t = m.query("t1").unwrap();
    assert!(matches!(t.state, TaskState::Running));
    assert_eq!(t.permission_history.len(), 1);
    assert!(matches!(
        t.permission_history[0].response,
        Some(PermissionsResponse::Deny)
    ));
    assert!(t.current_prompt.is_none());
    assert!(m.mark_completed("t1", "handled denial".to_string()));
    assert!(matches!(m.query("t1").unwrap().state, TaskState::Completed));
}

#[test]
fn oversize_prompt_never_reaches_waiting_state() {
    let mut m = TaskManager::new();
    m.start("t1").unwrap();
    let message = "x".repeat(20000);
    let eval = evaluate_prompt(&message, "net", None, true, Vec::new());
    let emitted = m.apply_prompt_evaluation("t1", eval);
    assert!(emitted.is_none());
    let t = m.query("t1").unwrap();
    assert!(matches!(t.state, TaskState::Running));
    assert!(t.current_prompt.is_none());
    assert!(t.permission_history.is_empty());
}

#[test]
fn cancellation_during_a_prompt_is_deferred() {
    let mut m = TaskManager::new();
    m.start("t1").unwrap();
    let eval = evaluate_prompt("read a file", "read", None, true, Vec::new());
    m.apply_prompt_evaluation("t1", eval);
    assert!(matches!(m.stop("t1"), StopAction::DeferredCancel));
    assert!(matches!(m.query("t1").unwrap().state, TaskState::WaitingForPermission));
    assert!(m.resolve_prompt("t1", PermissionsResponse::Allow));
    assert!(matches!(m.query("t1").unwrap().state, TaskState::Stopping));
    assert!(m.mark_stopped("t1"));
    assert!(matches!(m.query("t1").unwrap().state, TaskState::Stopped));
}

#[test]
fn errors_carry_their_message() {
    let mut m = TaskManager::new();
    m.start("t1").unwrap();
    assert!(m.mark_error("t1", "ReferenceError: x is not defined".to_string()));
    let t = m.query("t1").unwrap();
    assert!(matches!(t.state, TaskState::Error));
    assert_eq!(t.error.as_deref(), Some("ReferenceError: x is not defined"));
}

#[test]
fn clear_completed_keeps_only_live_tasks() {
    let mut m = TaskManager::new();
    m.start("done").unwrap();
    m.start("failed").unwrap();
    m.start("busy").unwrap();
    m.mark_completed("done", String::new());
    m.mark_error("failed", "boom".to_string());
    m.clear_completed();
    assert!(m.query("done").is_none());
    assert!(m.query("failed").is_none());
    assert!(matches!(m.query("busy").unwrap().state, TaskState::Running));
}

#[test]
fn frontend_readiness_fires_once() {
    let mut s = YasumuInternalState::new();
    assert!(!s.query_ready());
    assert!(s.mark_ready());
    assert!(!s.mark_ready());
    assert!(s.query_ready());
}

#[test]
fn rpc_port_is_set_once() {
    let mut s = YasumuInternalState::new();
    assert_eq!(s.get_rpc_port(), None);
    s.set_rpc_port(4000);
    s.set_rpc_port(5000);
    assert_eq!(s.get_rpc_port(), Some(4000));
}

#[test]
fn supervisor_retries_then_gives_up() {
    let mut s = Supervisor::new(MAX_RETRIES, RETRY_DELAY_MS);
    let mut attempts = 0u32;
    loop {
        match s.next_action(RunOutcome::LoopFailure("crash".to_string())) {
            SupervisorAction::RetryAfter(d) => {
                assert_eq!(d, RETRY_DELAY_MS);
                attempts += 1;
            }
            SupervisorAction::Fatal(msg) => {
                assert_eq!(msg, "crash");
                break;
            }
            SupervisorAction::Shutdown => panic!("loop failure never shuts down quietly"),
        }
    }
    assert_eq!(attempts, MAX_RETRIES);
}

#[test]
fn supervisor_shuts_down_cleanly() {
    let mut s = Supervisor::new(MAX_RETRIES, RETRY_DELAY_MS);
    assert!(matches!(s.next_action(RunOutcome::Completed), SupervisorAction::Shutdown));
    assert!(matches!(s.next_action(RunOutcome::InboundClosed), SupervisorAction::Shutdown));
}

#[test]
fn supervisor_init_failures_turn_fatal_past_the_bound() {
    let mut s = Supervisor::new(1, 10);
    assert!(matches!(
        s.next_action(RunOutcome::InitFailure("no engine".to_string())),
        SupervisorAction::RetryAfter(10)
    ));
    match s.next_action(RunOutcome::InitFailure("no engine".to_string())) {
        SupervisorAction::Fatal(msg) => assert_eq!(msg, "no engine"),
        other => panic!("init failure past the bound must be fatal, got {:?}", other),
    }
}

#[test]
fn event_callback_script_wraps_the_payload() {
    assert_eq!(
        event_callback_script("{\"type\":\"ping\"}"),
        "if (globalThis.Yasumu) { Yasumu['~yasumu__on__Event__Callback']?.({\"type\":\"ping\"}); }"
    );
}

#[test]
fn loop_steps_follow_the_observed_event() {
    match loop_step(LoopEvent::HostEvent("1".to_string())) {
        LoopDirective::RunCallback(s) => {
            assert_eq!(s, "if (globalThis.Yasumu) { Yasumu['~yasumu__on__Event__Callback']?.(1); }")
        }
        other => panic!("expected a callback, got {:?}", other),
    }
    assert!(matches!(loop_step(LoopEvent::InboundClosed), LoopDirective::ExitClosed));
    assert!(matches!(loop_step(LoopEvent::InternalDone), LoopDirective::Continue));
    match loop_step(LoopEvent::InternalFailed("err".to_string())) {
        LoopDirective::Fail(m) => assert_eq!(m, "err"),
        other => panic!("expected a failure, got {:?}", other),
    }
}

#[test]
fn event_bridge_delivers_only_while_the_receiver_lives() {
    let mut bridge = EventBridge::new();
    assert!(!bridge.invoke_renderer_event_callback("lost"));
    let mut rx = bridge.init_renderer_event_channel();
    assert!(bridge.invoke_renderer_event_callback("first"));
    assert!(bridge.invoke_renderer_event_callback("second"));
    assert_eq!(rx.try_recv().unwrap(), "first");
    assert_eq!(rx.try_recv().unwrap(), "second");
    drop(rx);
    assert!(!bridge.invoke_renderer_event_callback("after close"));
}

#[test]
fn smtp_capture_accumulates_one_message() {
    let mut h = SmtpHandler::new();
    h.data_start();
    h.data(b"hello ");
    h.data(b"world");
    h.data_end();
    h.data_start();
    h.data(b"second");
    h.data_end();
    assert_eq!(h.get_messages(), &vec!["hello world".to_string(), "second".to_string()]);
}

#[test]
fn smtp_capture_decodes_leniently() {
    let mut h = SmtpHandler::new();
    h.data_start();
    h.data(&[0x68, 0x69, 0xff]);
    h.data_end();
    assert_eq!(h.get_messages()[0], "hi\u{FFFD}");
}

#[test]
fn smtp_capture_decodes_each_chunk_on_its_own() {
    let mut h = SmtpHandler::new();
    h.data_start();
    h.data(&[0xC3]);
    h.data(&[0xA9]);
    h.data_end();
    assert_eq!(h.get_messages()[0], "\u{FFFD}\u{FFFD}");
}

#[test]
fn smtp_data_start_discards_a_partial_message() {
    let mut h = SmtpHandler::new();
    h.data_start();
    h.data(b"discarded");
    h.data_start();
    h.data(b"kept");
    h.data_end();
    assert_eq!(h.get_messages(), &vec!["kept".to_string()]);
}

#[test]
fn smtp_server_runs_at_most_once() {
    let mut s = ServerState::new();
    assert!(s.begin_start().is_ok());
    let err = s.begin_start().unwrap_err();
    assert!(matches!(err, ServerError::AlreadyRunning));
    assert_eq!(err.message(), "Server is already running");
    assert!(s.finish_stop().is_ok());
    let err = s.finish_stop().unwrap_err();
    assert!(matches!(err, ServerError::NotRunning));
    assert_eq!(err.message(), "Server is not running");
}
