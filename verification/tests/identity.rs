use lifecycle_outbox::outbox::append::{recovery_window_start, OutboxFile};
use lifecycle_outbox::outbox::envelope::LifecycleEvent;
use lifecycle_outbox::outbox::error::OutboxError;
use lifecycle_outbox::outbox::handle::LifecycleOutbox;
use lifecycle_outbox::outbox::identity::{
    acquire_from_path, ephemeral_id, identity_file_name, persist_id, read_persisted_id, stable_id, tagged_id,
    ClaimAttempt, ClaimRegistry,
};
use lifecycle_outbox::outbox::signal::{
    record_signal_session_end, signal_cleanup_step, signal_name, telemetry_session_end,
    CleanupAction, CleanupEvent, CleanupState, ExitClass, SignalContext, SignalFlush,
};
use serde_json::Value;

fn workspace(path: &str) -> Value {
    let mut map = serde_json::Map::new();
    map.insert("workspace".to_string(), Value::String(path.to_string()));
    Value::Object(map)
}

fn turn_start(thread_id: &str, turn_id: &str, payload: Value) -> LifecycleEvent {
    LifecycleEvent {
        event: "turn_start".to_string(),
        kind: "turn.started".to_string(),
        thread_id: thread_id.to_string(),
        turn_id: Some(turn_id.to_string()),
        item_id: None,
        payload,
    }
}

fn parse_lines(file: &OutboxFile) -> Vec<Value> {
    String::from_utf8(file.bytes.clone())
        .unwrap()
        .lines()
        .map(|line| serde_json::from_str(line).unwrap())
        .collect()
}

#[test]
fn stable_identity_survives_a_restart() {
    let mut registry = ClaimRegistry::new();
    let first = registry
        .acquire("tui", Some("tui.identity".to_string()), &|| ClaimAttempt::Held { contents: None })
        .unwrap();
    assert!(first.id.starts_with("tui_"));
    assert!(!first.id.starts_with("tui_ephemeral_"));
    assert!(first.held);
    let file = first.persist.unwrap();
    registry.release_all_for_tests();

    let second = registry
        .acquire("tui", Some("tui.identity".to_string()), &|| ClaimAttempt::Held {
            contents: Some(file.clone()),
        })
        .unwrap();
    assert_eq!(first.id, second.id);
    assert!(second.persist.is_none());
}

#[test]
fn a_concurrent_holder_forces_an_ephemeral_id() {
    let first = acquire_from_path("tui", &ClaimAttempt::Held { contents: Some(String::new()) });
    assert!(first.held);
    assert!(first.id.starts_with("tui_"));

    let other = acquire_from_path("tui", &ClaimAttempt::HeldElsewhere);
    assert!(other.id.starts_with("tui_ephemeral_"));
    assert!(!other.held);

    let reacquired = acquire_from_path("tui", &ClaimAttempt::Held { contents: first.persist });
    assert_eq!(reacquired.id, first.id);
    assert!(reacquired.held);
}

#[test]
fn registry_makes_acquire_idempotent_within_a_process() {
    let mut registry = ClaimRegistry::new();
    let path = || Some("exec.identity".to_string());
    let first =
        registry.acquire("exec", path(), &|| ClaimAttempt::Held { contents: None }).unwrap();
    let second = registry.acquire("exec", path(), &|| ClaimAttempt::HeldElsewhere).unwrap();
    assert_eq!(first.id, second.id);
    let elsewhere = registry
        .acquire("exec", Some("other.identity".to_string()), &|| ClaimAttempt::NoFile)
        .unwrap();
    assert_ne!(first.id, elsewhere.id);
    assert!(registry.acquire("exec", None, &|| ClaimAttempt::NoFile).is_none());
    registry.release_all_for_tests();
    assert!(registry.find("exec.identity").is_none());
}

#[test]
fn boot_reconciliation_pairs_prior_session_records_under_the_stable_identity() {
    let outbox = LifecycleOutbox::new(Some("outbox.jsonl".to_string()), None, None);
    let mut file = OutboxFile::load(0, Vec::new());
    let mut registry = ClaimRegistry::new();
    let path = || Some("tui.identity".to_string());
    let booted =
        registry.acquire("tui", path(), &|| ClaimAttempt::Held { contents: None }).unwrap();
    let contents = booted.persist.clone();
    outbox.emit_blocking(&mut file, turn_start(&booted.id, "open-turn", workspace("/tmp/w"))).unwrap();

    registry.release_all_for_tests();
    let rebooted = registry
        .acquire("tui", path(), &|| ClaimAttempt::Held { contents: contents.clone() })
        .unwrap();
    assert_eq!(booted.id, rebooted.id);
    let reconciled = outbox
        .reconcile_interrupted_turns(&mut file, true, &rebooted.id, "boot_reconciliation")
        .unwrap();
    assert_eq!(reconciled, 1);
    let lines = parse_lines(&file);
    assert_eq!(lines.len(), 2);
    assert_eq!(lines[1]["event"], "turn_end");
    assert_eq!(lines[1]["thread_id"], booted.id.as_str());
    assert_eq!(lines[1]["turn_id"], "open-turn");
    assert_eq!(lines[1]["payload"]["reconciled"], true);
    assert_eq!(lines[1]["payload"]["reason"], "boot_reconciliation");
}

#[test]
fn signal_flush_pairs_an_open_turn_and_does_not_duplicate() {
    let outbox = LifecycleOutbox::new(Some("signal-flush.jsonl".to_string()), None, None);
    let thread_id = "sess_signal_test";
    let turn_id = "turn-open";
    let mut file = OutboxFile::load(0, Vec::new());
    outbox
        .emit_blocking(&mut file, turn_start(thread_id, turn_id, workspace("/tmp/signal-test")))
        .unwrap();

    let mut context = SignalContext::new();
    context.register(outbox, thread_id.to_string());
    let flush = context.flush_open_turn_on_signal("SIGTERM", &mut file, true, true, &|| false);
    assert_eq!(flush, SignalFlush::Reconciled(1));

    let lines = parse_lines(&file);
    assert_eq!(lines.len(), 2);
    let synthetic = &lines[1];
    assert_eq!(synthetic["event"], "turn_end");
    assert_eq!(synthetic["kind"], "turn.interrupted");
    assert_eq!(synthetic["thread_id"], thread_id);
    assert_eq!(synthetic["turn_id"], turn_id);
    assert_eq!(synthetic["payload"]["status"], "interrupted");
    assert_eq!(synthetic["payload"]["reconciled"], true);
    assert_eq!(synthetic["payload"]["reason"], "signal:SIGTERM");

    let again = context.flush_open_turn_on_signal("SIGTERM", &mut file, true, true, &|| false);
    assert_eq!(again, SignalFlush::Reconciled(0));
    assert_eq!(parse_lines(&file).len(), 2);
    let contended = context.flush_open_turn_on_signal("SIGTERM", &mut file, true, false, &|| true);
    assert_eq!(contended, SignalFlush::Failed(OutboxError::LockTimeout));
    assert!(!context.session.unwrap().outbox.inner.unwrap().open);
}

#[test]
fn signal_flush_is_a_noop_without_a_registered_session() {
    let mut context = SignalContext::new();
    let mut file = OutboxFile::load(0, b"anything".to_vec());
    let flush = context.flush_open_turn_on_signal("SIGTERM", &mut file, true, true, &|| false);
    assert_eq!(flush, SignalFlush::Skipped);
    assert_eq!(file.bytes, b"anything".to_vec());

    context.register(LifecycleOutbox::disabled(), String::new());
    assert_eq!(
        context.flush_open_turn_on_signal("SIGTERM", &mut file, true, true, &|| false),
        SignalFlush::Skipped
    );
    context.register(LifecycleOutbox::disabled(), "s".to_string());
    assert_eq!(
        context.flush_open_turn_on_signal("SIGTERM", &mut file, true, true, &|| false),
        SignalFlush::Reconciled(0)
    );
}

#[test]
fn a_failed_signal_flush_is_reported() {
    let outbox = LifecycleOutbox::new(Some("o.jsonl".to_string()), None, None);
    let start = r#"{"schema_version":1,"seq":1,"event":"turn_start","kind":"k","thread_id":"s","turn_id":"t","timestamp":"x","payload":null}"#;
    let mut file = OutboxFile::load(0, format!("{start}\nnot json\n").into_bytes());
    let mut context = SignalContext::new();
    context.register(outbox, "s".to_string());
    assert!(matches!(
        context.flush_open_turn_on_signal("SIGHUP", &mut file, true, true, &|| false),
        SignalFlush::Failed(_)
    ));
}

#[test]
fn ids_have_their_documented_shapes() {
    let stable = stable_id("exec");
    assert_eq!(stable.len(), "exec_".len() + 8);
    let ephemeral = ephemeral_id("exec");
    assert_eq!(ephemeral.len(), "exec_ephemeral_".len() + 8);
    for id in [&stable, &ephemeral] {
        assert!(id[id.len() - 8..]
            .chars()
            .all(|c| c.is_ascii_digit() || ('a'..='f').contains(&c)));
    }
    assert_ne!(stable_id("exec"), stable);
    assert_eq!(tagged_id("tui", "_", "0123456789ab"), "tui_01234567");
}

#[test]
fn identity_files_are_named_after_their_surface() {
    assert_eq!(identity_file_name("tui"), "tui.identity");
    assert_eq!(identity_file_name("exec"), "exec.identity");
}

#[test]
fn an_acquired_id_outlasts_later_claims() {
    let mut registry = ClaimRegistry::new();
    let held = || ClaimAttempt::Held { contents: Some("tui_0123abcd\n".to_string()) };
    let elsewhere = || ClaimAttempt::HeldElsewhere;
    let path = || Some("/home/outbox/tui.identity".to_string());
    let first = registry.acquire("tui", path(), &held).unwrap();
    assert_eq!(first.id, "tui_0123abcd");
    let other = Some("/home/outbox/exec.identity".to_string());
    let exec = registry.acquire("exec", other, &elsewhere).unwrap();
    assert!(exec.id.starts_with("exec_ephemeral_"));
    let second = registry.acquire("tui", path(), &elsewhere).unwrap();
    assert_eq!(second.id, "tui_0123abcd");
    assert!(!second.held);
    assert_eq!(second.persist, None);
    assert_eq!(registry.find("/home/outbox/exec.identity"), Some(exec.id));
}

#[test]
fn identity_files_hold_one_trimmed_line() {
    assert_eq!(persist_id("tui_00000000"), "tui_00000000\n");
    assert_eq!(read_persisted_id(&Some(" tui_1 \n".to_string())).as_deref(), Some("tui_1"));
    assert_eq!(read_persisted_id(&Some(" \n".to_string())), None);
    assert_eq!(read_persisted_id(&None), None);
    for attempt in [ClaimAttempt::NoDirectory, ClaimAttempt::NoFile] {
        let acquired = acquire_from_path("tui", &attempt);
        assert!(acquired.id.starts_with("tui_ephemeral_"));
        assert!(acquired.persist.is_none());
    }
}

#[test]
fn exit_codes_name_their_signals() {
    assert_eq!(signal_name(143), "SIGTERM");
    assert_eq!(signal_name(130), "SIGINT");
    assert_eq!(signal_name(129), "SIGHUP");
    assert_eq!(signal_name(1), "SIGNAL");
}

#[test]
fn a_second_signal_exits_at_once() {
    let mut state = CleanupState::Armed;
    assert_eq!(
        signal_cleanup_step(&mut state, CleanupEvent::CleanedUp),
        CleanupAction::Ignore
    );
    assert_eq!(
        signal_cleanup_step(&mut state, CleanupEvent::Signal(130)),
        CleanupAction::StartCleanup(130)
    );
    let mut patient = state;
    assert_eq!(
        signal_cleanup_step(&mut state, CleanupEvent::Signal(143)),
        CleanupAction::RestoreAndExit(130)
    );
    assert_eq!(
        signal_cleanup_step(&mut patient, CleanupEvent::CleanedUp),
        CleanupAction::Exit(130)
    );
    assert_eq!(
        signal_cleanup_step(&mut patient, CleanupEvent::Signal(143)),
        CleanupAction::Exit(130)
    );
}

#[test]
fn session_ends_report_what_was_recorded() {
    let end = telemetry_session_end(None, ExitClass::Other, None, ());
    assert_eq!(end.duration_secs, 0);
    let end = record_signal_session_end(Some(12), Some(340), vec![1, 2]);
    assert_eq!(end.duration_secs, 12);
    assert_eq!(end.exit_class, ExitClass::Signal);
    assert_eq!(end.cold_start_ms, Some(340));
    assert_eq!(end.counters, vec![1, 2]);
}

#[test]
fn the_window_starts_a_fixed_distance_from_the_end() {
    assert_eq!(recovery_window_start(0), 0);
    assert_eq!(recovery_window_start(131072), 0);
    assert_eq!(recovery_window_start(131073), 1);
}
