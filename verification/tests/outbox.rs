use lifecycle_outbox::outbox::append::{
    append_event_under_lock, build_envelope, recover_last_seq, recovery_window_start,
    stamp_envelope, write_envelope_line, OutboxFile, MAX_OUTBOX_LINE_BYTES,
    SEQ_RECOVERY_TAIL_BYTES,
};
use lifecycle_outbox::outbox::envelope::{
    decode_line, encode_line, webhook_payload, LifecycleEvent, RuntimeEventEnvelope,
};
use lifecycle_outbox::outbox::error::OutboxError;
use lifecycle_outbox::outbox::handle::{DrainStep, Emitted, FlushStep, LifecycleOutbox};
use lifecycle_outbox::outbox::lock::{
    lock_file_exclusive, lock_file_exclusive_bounded, outbox_lock_path, LockAttempt, LockStep,
};
use lifecycle_outbox::outbox::queue::{Spawn, WriterStep, WEBHOOK_MAX_IN_FLIGHT};
use serde_json::Value;

/// A file, or none, and what a process that opens it does to it.
struct Disk {
    bytes: Option<Vec<u8>>,
}

impl Disk {
    fn missing() -> Disk {
        Disk { bytes: None }
    }

    fn with(text: &str) -> Disk {
        Disk { bytes: Some(text.as_bytes().to_vec()) }
    }

    fn text(&self) -> String {
        String::from_utf8(self.bytes.clone().unwrap_or_default()).unwrap()
    }

    fn lines(&self) -> Vec<Value> {
        self.text().lines().map(|line| serde_json::from_str(line).unwrap()).collect()
    }

    /// Reads the file from where recovery starts to look.
    fn open_tail(&self) -> OutboxFile {
        let bytes = self.bytes.clone().unwrap_or_default();
        let start = recovery_window_start(bytes.len() as u64);
        OutboxFile::load(start, bytes[start as usize..].to_vec())
    }

    fn open_whole(&self) -> OutboxFile {
        OutboxFile::load(0, self.bytes.clone().unwrap_or_default())
    }

    /// Cuts the file to what is settled and writes the rest.
    fn commit(&mut self, file: &OutboxFile) {
        let mut bytes = self.bytes.take().unwrap_or_default();
        bytes.truncate(file.offset as usize + file.settled);
        bytes.extend_from_slice(file.unsettled());
        self.bytes = Some(bytes);
    }

    fn emit_blocking(
        &mut self,
        outbox: &LifecycleOutbox,
        event: LifecycleEvent,
    ) -> Result<RuntimeEventEnvelope, OutboxError> {
        let mut file = self.open_tail();
        let result = outbox.emit_blocking(&mut file, event);
        self.commit(&file);
        result
    }

    fn reconcile(
        &mut self,
        outbox: &LifecycleOutbox,
        thread_id: &str,
        reason: &str,
    ) -> Result<usize, OutboxError> {
        let exists = self.bytes.is_some();
        let mut file = self.open_whole();
        let result = outbox.reconcile_interrupted_turns(&mut file, exists, thread_id, reason);
        if exists {
            self.commit(&file);
        }
        result
    }

    fn recover(&mut self) -> Result<u64, OutboxError> {
        let mut file = self.open_tail();
        let result = recover_last_seq(&mut file);
        self.commit(&file);
        result
    }
}

fn object(members: &[(&str, Value)]) -> Value {
    let mut map = serde_json::Map::new();
    for (key, value) in members {
        map.insert(key.to_string(), value.clone());
    }
    Value::Object(map)
}

fn text(s: &str) -> Value {
    Value::String(s.to_string())
}

fn event(name: &str, kind: &str) -> LifecycleEvent {
    LifecycleEvent {
        event: name.to_string(),
        kind: kind.to_string(),
        thread_id: "session-1".to_string(),
        turn_id: Some("turn-1".to_string()),
        item_id: None,
        payload: object(&[("status", text("completed"))]),
    }
}

fn turn_event(name: &str, kind: &str, thread: &str, turn: Option<&str>, payload: Value) -> LifecycleEvent {
    LifecycleEvent {
        event: name.to_string(),
        kind: kind.to_string(),
        thread_id: thread.to_string(),
        turn_id: turn.map(str::to_string),
        item_id: None,
        payload,
    }
}

fn enabled() -> LifecycleOutbox {
    LifecycleOutbox::new(Some("outbox.jsonl".to_string()), None, None)
}

fn seqs(lines: &[Value]) -> Vec<u64> {
    lines.iter().map(|line| line["seq"].as_u64().unwrap()).collect()
}

/// Runs the writer until it has nothing more to do; returns the webhook
/// deliveries it handed out.
fn drain(outbox: &mut LifecycleOutbox, disk: &mut Disk) -> usize {
    let mut deliveries = 0;
    let inner = outbox.inner.as_mut().unwrap();
    loop {
        match inner.next_step() {
            WriterStep::Deliver(event) => {
                let mut file = disk.open_tail();
                let (result, delivery) = inner.deliver(&mut file, event);
                disk.commit(&file);
                inner.finish_delivery(result.is_ok());
                if delivery.is_some() {
                    deliveries += 1;
                }
            }
            WriterStep::Wait | WriterStep::Finish(_) => return deliveries,
        }
    }
}

#[test]
fn appends_one_jsonl_line_per_event_with_envelope_schema() {
    let mut disk = Disk::missing();
    let mut outbox = enabled();
    outbox.emit(event("turn_start", "turn.started"), true);
    drain(&mut outbox, &mut disk);
    let lines = disk.lines();
    assert_eq!(lines.len(), 1);
    let line = &lines[0];
    assert_eq!(line["schema_version"], 1);
    assert_eq!(line["seq"], 1);
    assert_eq!(line["event"], "turn_start");
    assert_eq!(line["kind"], "turn.started");
    assert_eq!(line["thread_id"], "session-1");
    assert_eq!(line["turn_id"], "turn-1");
    assert_eq!(line["item_id"], Value::Null);
    assert!(line["timestamp"].as_str().is_some());
    assert!(line["payload"]["status"].as_str() == Some("completed"));
    assert!(line["created_at"].as_str().unwrap().contains('T'));
    assert!(disk.text().ends_with("}\n"));
}

#[test]
fn payload_workspace_and_subagent_fields_survive_the_round_trip() {
    let mut disk = Disk::missing();
    let mut outbox = enabled();
    let workspace = "/home/cw/wt-lane";
    let subagent = "explore-1";
    let plain = object(&[("workspace", text(workspace))]);
    let with_subagent = object(&[("workspace", text(workspace)), ("subagent", text(subagent))]);
    let all = [
        ("session_start", "session.started", None, &plain),
        ("turn_start", "turn.started", Some("turn-1"), &plain),
        ("turn_end", "turn.completed", Some("turn-1"), &plain),
        ("turn_stalled", "turn.stalled", Some("turn-1"), &plain),
        ("subagent_spawn", "subagent.spawned", Some("turn-1"), &with_subagent),
        ("subagent_complete", "subagent.completed", Some("turn-1"), &with_subagent),
        ("session_end", "session.ended", None, &plain),
    ];
    for (name, kind, turn, payload) in all {
        outbox.emit(turn_event(name, kind, "session-1", turn, payload.clone()), true);
    }
    drain(&mut outbox, &mut disk);
    let lines = disk.lines();
    let events: Vec<&str> = lines.iter().map(|line| line["event"].as_str().unwrap()).collect();
    assert_eq!(
        events,
        vec![
            "session_start",
            "turn_start",
            "turn_end",
            "turn_stalled",
            "subagent_spawn",
            "subagent_complete",
            "session_end",
        ]
    );
    for line in &lines {
        assert_eq!(line["payload"]["workspace"], text(workspace));
    }
    for event in ["subagent_spawn", "subagent_complete"] {
        let line = lines.iter().find(|line| line["event"] == event).unwrap();
        assert_eq!(line["payload"]["subagent"], text(subagent));
    }
}

#[test]
fn seq_is_monotonic_and_recovers_across_reopen() {
    let mut disk = Disk::missing();
    let mut outbox = enabled();
    outbox.emit(event("session_start", "session.started"), true);
    outbox.emit(event("turn_start", "turn.started"), true);
    outbox.emit(event("turn_end", "turn.completed"), true);
    drain(&mut outbox, &mut disk);
    let mut reopened = enabled();
    reopened.emit(event("turn_start", "turn.started"), true);
    drain(&mut reopened, &mut disk);
    assert_eq!(seqs(&disk.lines()), vec![1, 2, 3, 4]);
}

#[test]
fn missing_and_empty_files_start_at_seq_1() {
    assert_eq!(Disk::missing().recover(), Ok(1));
    assert_eq!(Disk::with("").recover(), Ok(1));
}

#[test]
fn partial_trailing_line_is_repaired_during_recovery() {
    let line1 = r#"{"schema_version":1,"seq":1,"event":"session_start","kind":"session.started","thread_id":"s","turn_id":null,"item_id":null,"timestamp":"t","payload":{}}"#;
    let line2 = r#"{"schema_version":1,"seq":2,"event":"turn_start","kind":"turn.started","thread_id":"s","turn_id":null,"item_id":null,"timestamp":"t","payload":{}}"#;
    let mut disk = Disk::with(&format!(
        "{line1}\n{line2}\n{{\"schema_version\":1,\"seq\":3,\"event\":\"turn_"
    ));
    assert_eq!(disk.recover(), Ok(3));
    assert_eq!(disk.text(), format!("{line1}\n{line2}\n"));
    assert_eq!(disk.lines().len(), 2);
    assert_eq!(disk.recover(), Ok(3));
}

#[test]
fn emit_queues_and_writes_in_order_without_blocking() {
    let mut disk = Disk::missing();
    let mut outbox = enabled();
    assert!(outbox.is_enabled());
    assert_eq!(
        outbox.emit(event("session_start", "session.started"), true),
        Emitted::Queued(Spawn::Start)
    );
    assert_eq!(
        outbox.emit(event("turn_start", "turn.started"), true),
        Emitted::Queued(Spawn::Running)
    );
    outbox.emit(event("turn_end", "turn.completed"), true);
    assert!(disk.bytes.is_none());
    drain(&mut outbox, &mut disk);
    let lines = disk.lines();
    assert_eq!(lines.len(), 3);
    let events: Vec<&str> = lines.iter().map(|line| line["event"].as_str().unwrap()).collect();
    assert_eq!(events, vec!["session_start", "turn_start", "turn_end"]);
    assert_eq!(seqs(&lines), vec![1, 2, 3]);
}

#[test]
fn concurrent_writers_share_one_file_with_unique_increasing_seqs() {
    let mut disk = Disk::missing();
    let writers = 4;
    let events_per_writer = 40;
    let outboxes: Vec<LifecycleOutbox> = (0..writers).map(|_| enabled()).collect();
    for i in 0..events_per_writer {
        for (writer, outbox) in outboxes.iter().enumerate() {
            let payload = object(&[
                ("writer", Value::from(writer)),
                ("event_index", Value::from(i)),
            ]);
            let thread = format!("session-{writer}");
            let turn = format!("turn-{writer}-{i}");
            disk.emit_blocking(
                outbox,
                turn_event("turn_start", "turn.started", &thread, Some(&turn), payload),
            )
            .unwrap();
        }
    }
    let lines = disk.lines();
    let total = writers * events_per_writer;
    assert_eq!(lines.len(), total);
    assert_eq!(seqs(&lines), (1..=total as u64).collect::<Vec<_>>());
}

#[test]
fn emit_blocking_appends_without_a_tokio_runtime() {
    let mut disk = Disk::missing();
    let outbox = enabled();
    assert!(outbox.is_enabled());
    let envelope = disk.emit_blocking(&outbox, event("turn_start", "turn.started")).unwrap();
    assert_eq!(envelope.seq, 1);
    let envelope = disk.emit_blocking(&outbox, event("turn_end", "turn.completed")).unwrap();
    assert_eq!(envelope.seq, 2);
    assert_eq!(seqs(&disk.lines()), vec![1, 2]);
}

#[test]
fn disabled_outbox_reconciles_nothing() {
    let outbox = LifecycleOutbox::disabled();
    let mut disk = Disk::with("");
    assert_eq!(disk.reconcile(&outbox, "session-1", "boot_reconciliation"), Ok(0));
}

#[test]
fn reconcile_pairs_this_sessions_unpaired_start_and_touches_nothing_else() {
    let mut disk = Disk::missing();
    let outbox = enabled();
    let home1 = object(&[("workspace", text("/home/cw/session-1"))]);
    let home2 = object(&[("workspace", text("/home/cw/session-2"))]);
    let done = object(&[("status", text("completed"))]);
    for (name, kind, thread, turn, payload) in [
        ("turn_start", "turn.started", "session-1", "turn-done", home1.clone()),
        ("turn_end", "turn.completed", "session-1", "turn-done", done),
        ("turn_start", "turn.started", "session-1", "turn-killed", home1),
        ("turn_start", "turn.started", "session-2", "turn-foreign", home2),
    ] {
        disk.emit_blocking(&outbox, turn_event(name, kind, thread, Some(turn), payload)).unwrap();
    }
    let before = disk.text();
    assert_eq!(disk.reconcile(&outbox, "session-1", "boot_reconciliation"), Ok(1));

    assert!(disk.text().starts_with(&before));
    let lines = disk.lines();
    assert_eq!(lines.len(), 5);
    let synthetic = lines
        .iter()
        .find(|line| line["event"] == "turn_end" && line["turn_id"] == "turn-killed")
        .unwrap();
    assert_eq!(synthetic["kind"], "turn.interrupted");
    assert_eq!(synthetic["thread_id"], "session-1");
    assert_eq!(synthetic["payload"]["status"], "interrupted");
    assert_eq!(synthetic["payload"]["reconciled"], true);
    assert_eq!(synthetic["payload"]["reason"], "boot_reconciliation");
    assert_eq!(synthetic["payload"]["workspace"], text("/home/cw/session-1"));
    assert!(lines
        .iter()
        .all(|line| !(line["event"] == "turn_end" && line["thread_id"] == "session-2")));
    assert_eq!(seqs(&lines), vec![1, 2, 3, 4, 5]);
    assert_eq!(lines.last().unwrap()["turn_id"], "turn-killed");
}

#[test]
fn reconcile_is_idempotent_and_leaves_healthy_files_alone() {
    let mut disk = Disk::missing();
    let outbox = enabled();
    let home = object(&[("workspace", text("/home/cw/session-1"))]);
    disk.emit_blocking(
        &outbox,
        turn_event("turn_start", "turn.started", "session-1", Some("turn-killed"), home),
    )
    .unwrap();
    assert_eq!(disk.reconcile(&outbox, "session-1", "boot_reconciliation"), Ok(1));
    assert_eq!(disk.reconcile(&outbox, "session-1", "boot_reconciliation"), Ok(0));
    assert_eq!(disk.lines().len(), 2);

    let mut healthy = Disk::missing();
    healthy.emit_blocking(&outbox, event("turn_start", "turn.started")).unwrap();
    healthy.emit_blocking(&outbox, event("turn_end", "turn.completed")).unwrap();
    assert_eq!(healthy.reconcile(&outbox, "session-1", "boot_reconciliation"), Ok(0));
    assert_eq!(healthy.lines().len(), 2);
}

#[test]
fn reconcile_appends_nothing_when_the_outbox_does_not_exist() {
    let mut disk = Disk::missing();
    let outbox = enabled();
    assert_eq!(disk.reconcile(&outbox, "session-1", "boot_reconciliation"), Ok(0));
    assert!(disk.bytes.is_none());
}

#[test]
fn reconcile_skips_a_torn_trailing_line() {
    let mut disk = Disk::missing();
    let outbox = enabled();
    let home = object(&[("workspace", text("/home/cw/session-1"))]);
    disk.emit_blocking(
        &outbox,
        turn_event("turn_start", "turn.started", "session-1", Some("turn-killed"), home),
    )
    .unwrap();
    disk.bytes
        .as_mut()
        .unwrap()
        .extend_from_slice(b"{\"schema_version\":1,\"seq\":2,\"event\":\"turn_");
    assert_eq!(disk.reconcile(&outbox, "session-1", "boot_reconciliation"), Ok(1));
    assert_eq!(seqs(&disk.lines()), vec![1, 2]);
}

#[test]
fn disabled_outbox_drops_events_and_reports_disabled() {
    let mut outbox = LifecycleOutbox::new(None, None, None);
    assert!(!outbox.is_enabled());
    assert_eq!(outbox.emit(event("turn_start", "turn.started"), true), Emitted::Ignored);
    let empty_path = LifecycleOutbox::new(Some(String::new()), None, None);
    assert!(!empty_path.is_enabled());
    let default = LifecycleOutbox::default();
    assert!(!default.is_enabled());
    let mut disk = Disk::missing();
    assert_eq!(
        disk.emit_blocking(&default, event("turn_start", "turn.started")).err(),
        Some(OutboxError::Disabled)
    );
}

#[test]
fn webhook_only_configures_without_a_file_path() {
    let outbox = LifecycleOutbox::new(
        None,
        Some("https://example.com/hook".to_string()),
        Some("token".to_string()),
    );
    assert!(!outbox.is_enabled());
}

#[test]
fn full_webhook_backlog_drops_deliveries_but_not_local_appends() {
    let mut disk = Disk::missing();
    let mut outbox = LifecycleOutbox::new(
        Some("outbox.jsonl".to_string()),
        Some("  http://localhost/hook ".to_string()),
        None,
    );
    let total = WEBHOOK_MAX_IN_FLIGHT + 2;
    for _ in 0..total {
        outbox.emit(event("turn_start", "turn.started"), true);
    }
    let deliveries = drain(&mut outbox, &mut disk);
    assert_eq!(disk.lines().len(), total);
    assert_eq!(seqs(&disk.lines()), vec![1, 2, 3, 4, 5, 6]);
    assert_eq!(deliveries, WEBHOOK_MAX_IN_FLIGHT);
    let inner = outbox.inner.as_mut().unwrap();
    assert_eq!(inner.webhook.as_ref().unwrap().url, "http://localhost/hook");
    inner.release_webhook();
    assert!(inner.fan_out_webhook());
    assert!(!inner.fan_out_webhook());
}

#[test]
fn torn_tail_is_repaired_before_append_and_survives_a_reopen() {
    let line1 = r#"{"schema_version":1,"seq":1,"event":"session_start","kind":"session.started","thread_id":"s","turn_id":null,"item_id":null,"timestamp":"t","payload":{}}"#;
    let mut disk = Disk::with(&format!(
        "{line1}\n{{\"schema_version\":1,\"seq\":2,\"event\":\"turn_"
    ));
    let envelope = disk.emit_blocking(&enabled(), event("turn_start", "turn.started")).unwrap();
    assert_eq!(envelope.seq, 2);
    assert_eq!(disk.lines().len(), 2);
    let envelope = disk.emit_blocking(&enabled(), event("turn_end", "turn.completed")).unwrap();
    assert_eq!(envelope.seq, 3);
    assert_eq!(disk.lines().len(), 3);
}

#[test]
fn all_torn_file_is_truncated_and_restarts_at_seq_one() {
    let mut disk = Disk::with("{\"schema_version\":1,\"seq\":1,\"event\":\"turn_");
    let envelope = disk.emit_blocking(&enabled(), event("turn_start", "turn.started")).unwrap();
    assert_eq!(envelope.seq, 1);
    assert_eq!(disk.lines().len(), 1);
}

#[test]
fn oversized_envelope_is_refused_so_the_recovery_window_stays_reachable() {
    let mut disk = Disk::missing();
    let outbox = enabled();
    let mut oversized = event("turn_start", "turn.started");
    oversized.payload =
        object(&[("blob", text(&"x".repeat(MAX_OUTBOX_LINE_BYTES as usize + 1024)))]);
    let error = match disk.emit_blocking(&outbox, oversized) {
        Ok(_) => panic!("oversized envelope must be refused"),
        Err(error) => error,
    };
    assert!(error.message("outbox.jsonl").contains("refusing to append"));
    assert!(matches!(error, OutboxError::LineTooLong { bytes } if bytes > MAX_OUTBOX_LINE_BYTES));
    let envelope =
        disk.emit_blocking(&outbox, event("session_start", "session.started")).unwrap();
    assert_eq!(envelope.seq, 1);
    assert_eq!(disk.lines().len(), 1);
}

#[test]
fn bounded_lock_acquire_times_out_under_contention_and_succeeds_after() {
    assert_eq!(
        lock_file_exclusive_bounded(LockAttempt::WouldBlock, false),
        LockStep::SleepAndRetry
    );
    assert_eq!(
        lock_file_exclusive_bounded(LockAttempt::WouldBlock, true),
        LockStep::TimedOut
    );
    assert!(OutboxError::LockTimeout.message("outbox.jsonl").contains("before the deadline"));
    assert_eq!(
        lock_file_exclusive_bounded(LockAttempt::Acquired, false),
        LockStep::Locked
    );
}

#[test]
fn bounded_reconcile_stops_at_the_deadline_and_boot_reconcile_repairs() {
    let mut disk = Disk::missing();
    let outbox = enabled();
    let mut start = event("turn_start", "turn.started");
    start.thread_id = "killed-session".to_string();
    start.turn_id = Some("open-turn".to_string());
    disk.emit_blocking(&outbox, start).unwrap();

    let mut file = disk.open_whole();
    let error = match outbox.reconcile_interrupted_turns_bounded(
        &mut file,
        true,
        false,
        "killed-session",
        "signal:SIGTERM",
        &|| true,
    ) {
        Ok(_) => panic!("budgeted reconcile must fail fast under lock contention"),
        Err(error) => error,
    };
    assert!(error.message("outbox.jsonl").contains("before the deadline"));
    let late = outbox.reconcile_interrupted_turns_bounded(
        &mut file,
        true,
        true,
        "killed-session",
        "signal:SIGTERM",
        &|| true,
    );
    assert_eq!(late, Ok(0));
    disk.commit(&file);
    assert_eq!(disk.lines().len(), 1);

    assert_eq!(disk.reconcile(&outbox, "killed-session", "boot_reconciliation"), Ok(1));
    let lines = disk.lines();
    assert_eq!(lines.len(), 2);
    assert_eq!(lines[1]["event"], "turn_end");
    assert_eq!(lines[1]["payload"]["reconciled"], true);
}

#[test]
fn exit_flush_drains_and_reports_then_rejects_late_emits() {
    let mut disk = Disk::missing();
    let mut outbox = enabled();
    outbox.emit(event("session_start", "session.started"), true);
    outbox.emit(event("turn_start", "turn.started"), true);
    outbox.emit(event("turn_end", "turn.completed"), true);

    let flush = outbox.flush_blocking();
    assert_eq!(outbox.poll_flush(&flush, false), FlushStep::Sleep);
    drain(&mut outbox, &mut disk);
    let report = match outbox.poll_flush(&flush, false) {
        FlushStep::Done(report) => report,
        FlushStep::Sleep => panic!("the queue has drained"),
    };
    assert!(report.drained);
    assert_eq!(report.appended, 3);
    assert_eq!(disk.lines().len(), 3);

    assert_eq!(
        outbox.emit(event("turn_end", "turn.completed"), true),
        Emitted::Dropped(OutboxError::Closed)
    );
    let flush = outbox.flush_blocking();
    let report = match outbox.poll_flush(&flush, false) {
        FlushStep::Done(report) => report,
        FlushStep::Sleep => panic!("the queue is still drained"),
    };
    assert!(report.drained);
    assert_eq!(report.appended, 3);
    assert!(outbox.flush(true).drained);
    assert!(!outbox.flush(false).drained);
    assert_eq!(outbox.flush(true).appended, 3);
    assert_eq!(disk.lines().len(), 3);
}

#[test]
fn a_flush_gives_up_at_its_deadline() {
    let mut disk = Disk::missing();
    let mut outbox = enabled();
    outbox.emit(event("session_start", "session.started"), true);
    drain(&mut outbox, &mut disk);
    outbox.emit(event("turn_start", "turn.started"), true);
    assert_eq!(outbox.wait_for_pending_drain(false), DrainStep::Sleep);
    assert_eq!(outbox.wait_for_pending_drain(true), DrainStep::GiveUp);
    let flush = outbox.flush_blocking();
    match outbox.poll_flush(&flush, true) {
        FlushStep::Done(report) => {
            assert!(!report.drained);
            assert_eq!(report.appended, 1);
        }
        FlushStep::Sleep => panic!("the deadline has passed"),
    }
    assert!(!outbox.flush(false).drained);
    assert!(!outbox.flush(true).drained);
    assert_eq!(outbox.flush(false).appended, 1);
    let disabled = LifecycleOutbox::disabled();
    assert_eq!(disabled.wait_for_pending_drain(false), DrainStep::Drained);
    let report = disabled.flush(false);
    assert!(report.drained);
    assert_eq!(report.appended, 0);
    assert!(enabled().flush(true).drained);
}

#[test]
fn events_are_dropped_without_a_runtime() {
    let mut disk = Disk::missing();
    let mut outbox = enabled();
    assert_eq!(
        outbox.emit(event("session_start", "session.started"), false),
        Emitted::Dropped(OutboxError::NoRuntime)
    );
    assert_eq!(outbox.wait_for_pending_drain(false), DrainStep::Drained);
    assert_eq!(
        outbox.emit(event("turn_start", "turn.started"), true),
        Emitted::Queued(Spawn::Start)
    );
    assert_eq!(
        outbox.emit(event("turn_end", "turn.completed"), false),
        Emitted::Queued(Spawn::Running)
    );
    drain(&mut outbox, &mut disk);
    let lines = disk.lines();
    assert_eq!(seqs(&lines), vec![1, 2]);
    assert_eq!(lines[0]["event"], "turn_start");
    outbox.inner.as_mut().unwrap().writer_lost();
    assert_eq!(
        outbox.emit(event("turn_end", "turn.completed"), true),
        Emitted::Dropped(OutboxError::WriterGone)
    );
}

#[test]
fn lines_have_their_members_in_order() {
    let envelope = stamp_envelope(
        3,
        turn_event("turn_start", "turn.started", "s\"1\"", None, object(&[("n", Value::from(7u64))])),
        "2026-01-01T00:00:00+00:00".to_string(),
        "2026-01-01T00:00:01+00:00".to_string(),
    );
    let line = encode_line(&envelope);
    assert_eq!(
        line,
        "{\"schema_version\":1,\"seq\":3,\"event\":\"turn_start\",\"kind\":\"turn.started\",\"thread_id\":\"s\\\"1\\\"\",\"turn_id\":null,\"item_id\":null,\"timestamp\":\"2026-01-01T00:00:00+00:00\",\"created_at\":\"2026-01-01T00:00:01+00:00\",\"payload\":{\"n\":7}}"
    );
    let back = decode_line(&line).unwrap();
    assert_eq!(back.schema_version, 1);
    assert_eq!(back.seq, 3);
    assert_eq!(back.event, "turn_start");
    assert_eq!(back.kind, "turn.started");
    assert_eq!(back.thread_id, "s\"1\"");
    assert_eq!(back.turn_id, None);
    assert_eq!(back.item_id, None);
    assert_eq!(back.timestamp, "2026-01-01T00:00:00+00:00");
    assert_eq!(back.created_at.as_deref(), Some("2026-01-01T00:00:01+00:00"));
    assert_eq!(back.payload, envelope.payload);
    assert_eq!(
        webhook_payload(&envelope).to_string(),
        format!("{{\"at\":\"2026-01-01T00:00:00+00:00\",\"event\":{line}}}")
    );
}

#[test]
fn lines_that_are_no_envelopes_are_not_decoded() {
    let good = r#"{"schema_version":1,"seq":1,"event":"e","kind":"k","thread_id":"s","timestamp":"t","payload":null}"#;
    assert!(decode_line(good).is_some());
    let extra = r#"{"schema_version":1,"seq":1,"event":"e","kind":"k","thread_id":"s","timestamp":"t","payload":null,"more":[1]}"#;
    assert!(decode_line(extra).is_some());
    for bad in [
        "",
        "[]",
        "{",
        "{}",
        r#"{"schema_version":1,"seq":-1,"event":"e","kind":"k","thread_id":"s","timestamp":"t","payload":null}"#,
        r#"{"schema_version":1,"seq":1.0,"event":"e","kind":"k","thread_id":"s","timestamp":"t","payload":null}"#,
        r#"{"schema_version":5000000000,"seq":1,"event":"e","kind":"k","thread_id":"s","timestamp":"t","payload":null}"#,
        r#"{"schema_version":1,"seq":1,"event":2,"kind":"k","thread_id":"s","timestamp":"t","payload":null}"#,
        r#"{"schema_version":1,"seq":1,"event":"e","kind":"k","thread_id":"s","turn_id":7,"timestamp":"t","payload":null}"#,
        r#"{"schema_version":1,"seq":1,"event":"e","kind":"k","thread_id":"s","timestamp":"t"}"#,
    ] {
        assert!(decode_line(bad).is_none(), "{bad}");
    }
}

#[test]
fn recovery_names_what_is_wrong() {
    assert_eq!(
        Disk { bytes: Some(b"\xff\xfe\n".to_vec()) }.recover(),
        Err(OutboxError::TailNotUtf8)
    );
    assert_eq!(Disk::with("not json\n").recover(), Err(OutboxError::LastLineUnparseable));
    assert_eq!(Disk::with("  \n").recover(), Ok(1));
    let mut endless = Disk::with(&"x".repeat(SEQ_RECOVERY_TAIL_BYTES as usize + 1));
    assert_eq!(endless.recover(), Err(OutboxError::NoCompleteLine));
    assert_eq!(endless.text().len(), SEQ_RECOVERY_TAIL_BYTES as usize + 1);
    assert!(OutboxError::NoCompleteLine
        .message("o.jsonl")
        .starts_with("outbox o.jsonl has no complete line within the last 65536 bytes"));
    let mut torn_behind_bad = Disk::with("not json\ntorn");
    assert_eq!(torn_behind_bad.recover(), Err(OutboxError::LastLineUnparseable));
    assert_eq!(torn_behind_bad.text(), "not json\n");
}

#[test]
fn the_last_number_has_no_successor() {
    let line = r#"{"schema_version":1,"seq":18446744073709551615,"event":"e","kind":"k","thread_id":"s","timestamp":"t","payload":null}"#;
    assert_eq!(Disk::with(&format!("{line}\n")).recover(), Ok(u64::MAX));
}

#[test]
fn a_long_torn_line_behind_a_long_line_is_repaired() {
    for (line, torn) in [(40_000, 40_000), (60_000, 10_000), (61_000, 61_000), (10, 65_535)] {
        let mut disk = Disk::missing();
        let outbox = enabled();
        for _ in 0..3 {
            disk.emit_blocking(&outbox, event("turn_start", "turn.started")).unwrap();
        }
        let mut big = event("turn_start", "turn.started");
        big.payload = object(&[("blob", text(&"x".repeat(line)))]);
        disk.emit_blocking(&outbox, big).unwrap();
        let healthy = disk.text();
        disk.bytes.as_mut().unwrap().extend_from_slice("y".repeat(torn).as_bytes());
        let mut torn_disk = Disk { bytes: disk.bytes.clone() };
        assert_eq!(torn_disk.recover(), Ok(5));
        assert_eq!(torn_disk.text(), healthy);
        assert_eq!(torn_disk.recover(), Ok(5));
        let envelope = disk.emit_blocking(&outbox, event("turn_end", "turn.completed")).unwrap();
        assert_eq!(envelope.seq, 5);
        assert_eq!(disk.lines().len(), 5);
    }
}

#[test]
fn a_line_of_the_greatest_length_is_found_again() {
    let mut disk = Disk::missing();
    let outbox = enabled();
    disk.emit_blocking(&outbox, event("turn_start", "turn.started")).unwrap();
    let first = disk.text().len();
    let mut padded = event("turn_start", "turn.started");
    padded.payload = object(&[("blob", text(""))]);
    let mut trial = Disk { bytes: disk.bytes.clone() };
    trial.emit_blocking(&outbox, padded.clone()).unwrap();
    let room = MAX_OUTBOX_LINE_BYTES as usize - (trial.text().len() - first);
    padded.payload = object(&[("blob", text(&"x".repeat(room)))]);
    match disk.emit_blocking(&outbox, padded) {
        Ok(envelope) => assert_eq!(envelope.seq, 2),
        Err(error) => assert!(matches!(error, OutboxError::LineTooLong { .. })),
    }
    let next = disk.lines().len() as u64 + 1;
    disk.bytes.as_mut().unwrap().extend_from_slice("y".repeat(61_000).as_bytes());
    assert_eq!(disk.recover(), Ok(next));
}

#[test]
fn a_torn_line_is_never_paired() {
    let outbox = enabled();
    let line = |seq: u64, name: &str, turn: &str| {
        format!(
            "{{\"schema_version\":1,\"seq\":{seq},\"event\":\"{name}\",\"kind\":\"k\",\"thread_id\":\"s\",\"turn_id\":\"{turn}\",\"item_id\":null,\"timestamp\":\"t\",\"payload\":{{}}}}"
        )
    };
    let start = line(1, "turn_start", "t1");
    let mut disk = Disk::with(&start);
    assert_eq!(disk.reconcile(&outbox, "s", "boot_reconciliation"), Ok(0));
    assert_eq!(disk.text(), start);

    let other = line(2, "turn_start", "t2");
    let torn_end = line(3, "turn_end", "t1");
    let mut disk = Disk::with(&format!("{start}\n{other}\n{torn_end}"));
    assert_eq!(disk.reconcile(&outbox, "s", "boot_reconciliation"), Ok(2));
    let text = disk.text();
    assert_eq!(seqs(&disk.lines()), vec![1, 2, 3, 4]);
    assert_eq!(disk.reconcile(&outbox, "s", "boot_reconciliation"), Ok(0));
    assert_eq!(disk.text(), text);
}

#[test]
fn a_passed_deadline_leaves_the_file_alone() {
    let outbox = enabled();
    let mut disk = Disk::missing();
    disk.emit_blocking(&outbox, event("turn_start", "turn.started")).unwrap();
    disk.bytes.as_mut().unwrap().extend_from_slice(b"torn");
    let before = disk.text();
    let mut file = disk.open_whole();
    let result = outbox.reconcile_interrupted_turns_bounded(
        &mut file,
        true,
        true,
        "session-1",
        "signal:SIGTERM",
        &|| true,
    );
    assert_eq!(result, Ok(0));
    disk.commit(&file);
    assert_eq!(disk.text(), before);
    let mut file = disk.open_whole();
    let result = outbox.reconcile_interrupted_turns_bounded(
        &mut file,
        true,
        true,
        "session-1",
        "signal:SIGTERM",
        &|| false,
    );
    assert_eq!(result, Ok(1));
}

#[test]
fn a_deep_workspace_is_written_so_that_it_is_read_back() {
    let outbox = enabled();
    let mut deep = Value::Null;
    for _ in 0..125 {
        deep = Value::Array(vec![deep]);
    }
    let mut disk = Disk::missing();
    let mut start = event("turn_start", "turn.started");
    start.payload = object(&[("workspace", deep.clone())]);
    disk.emit_blocking(&outbox, start).unwrap();
    assert_eq!(disk.reconcile(&outbox, "session-1", "boot_reconciliation"), Ok(1));
    let text = disk.text();
    let end = decode_line(text.lines().last().unwrap()).unwrap();
    assert_eq!(end.payload["workspace"], deep);
    assert_eq!(disk.reconcile(&outbox, "session-1", "boot_reconciliation"), Ok(0));
}

#[test]
fn writers_in_turn_number_on_from_the_last_line() {
    let line = r#"{"schema_version":1,"seq":41,"event":"e","kind":"k","thread_id":"s","timestamp":"t","payload":null}"#;
    let mut disk = Disk::with(&format!("{line}\ntorn"));
    let writers = [enabled(), enabled(), enabled()];
    let mut returned = Vec::new();
    for round in 0..6 {
        let outbox = &writers[round % 3];
        let envelope = disk.emit_blocking(outbox, event("turn_start", "turn.started")).unwrap();
        returned.push(encode_line(&envelope));
    }
    assert_eq!(seqs(&disk.lines()), vec![41, 42, 43, 44, 45, 46, 47]);
    let text = disk.text();
    let lines: Vec<&str> = text.lines().skip(1).collect();
    assert_eq!(lines, returned);
}

#[test]
fn deep_payloads_are_appended_but_not_read_back() {
    let mut deep = Value::Null;
    for _ in 0..200 {
        deep = Value::Array(vec![deep]);
    }
    let mut file = OutboxFile::load(0, Vec::new());
    let mut nested = event("turn_start", "turn.started");
    nested.payload = deep;
    let (envelope, appended) = append_event_under_lock(&mut file, nested).unwrap();
    assert!(appended.is_ok());
    assert!(decode_line(&encode_line(&envelope)).is_none());

    let mut shallow = Value::Null;
    for _ in 0..126 {
        shallow = Value::Array(vec![shallow]);
    }
    let mut file = OutboxFile::load(0, Vec::new());
    let mut nested = event("turn_start", "turn.started");
    nested.payload = shallow;
    let (envelope, _) = append_event_under_lock(&mut file, nested).unwrap();
    assert!(decode_line(&encode_line(&envelope)).is_some());
}

#[test]
fn duplicate_starts_are_left_alone() {
    let mut disk = Disk::missing();
    let outbox = enabled();
    for _ in 0..2 {
        disk.emit_blocking(&outbox, event("turn_start", "turn.started")).unwrap();
    }
    assert_eq!(disk.reconcile(&outbox, "session-1", "boot_reconciliation"), Ok(0));
    assert_eq!(disk.reconcile(&outbox, "", "boot_reconciliation"), Ok(0));
    assert_eq!(disk.lines().len(), 2);
}

#[test]
fn a_start_without_a_workspace_is_ended_without_one() {
    let mut disk = Disk::missing();
    let outbox = enabled();
    disk.emit_blocking(&outbox, event("turn_start", "turn.started")).unwrap();
    assert_eq!(disk.reconcile(&outbox, "session-1", "r"), Ok(1));
    assert_eq!(disk.lines()[1]["payload"]["workspace"], Value::Null);
    let text = disk.text();
    let last = text.lines().last().unwrap();
    assert!(last.ends_with(
        "\"payload\":{\"status\":\"interrupted\",\"reconciled\":true,\"reason\":\"r\",\"workspace\":null}}"
    ));
}

#[test]
fn reconciliation_skips_blank_and_broken_lines() {
    let outbox = enabled();
    let start = r#"{"schema_version":1,"seq":1,"event":"turn_start","kind":"turn.started","thread_id":"s","turn_id":"t","timestamp":"x","payload":{"workspace":"/w"}}"#;
    let mut bytes = b"\xff\n\n  \r\nnot json\n".to_vec();
    bytes.extend_from_slice(start.as_bytes());
    bytes.extend_from_slice(b"\r\n");
    let mut disk = Disk { bytes: Some(bytes) };
    let mut file = disk.open_whole();
    let result = outbox.reconcile_interrupted_turns(&mut file, true, "s", "boot_reconciliation");
    disk.commit(&file);
    assert_eq!(result, Ok(1));
    let all = disk.bytes.unwrap();
    let last = all.split(|b| *b == b'\n').rev().nth(1).unwrap();
    let value: Value = serde_json::from_slice(last).unwrap();
    assert_eq!(value["seq"], 2);
    assert_eq!(value["payload"]["workspace"], "/w");
}

#[test]
fn the_lock_lies_beside_the_outbox() {
    assert_eq!(outbox_lock_path("/tmp/o.jsonl"), "/tmp/o.jsonl.lock");
    assert_eq!(lock_file_exclusive(LockAttempt::Interrupted), LockStep::Retry);
    assert_eq!(lock_file_exclusive(LockAttempt::Acquired), LockStep::Locked);
    assert_eq!(lock_file_exclusive(LockAttempt::Failed), LockStep::Failed);
    assert_eq!(lock_file_exclusive(LockAttempt::WouldBlock), LockStep::SleepAndRetry);
    assert_eq!(
        lock_file_exclusive_bounded(LockAttempt::Interrupted, true),
        LockStep::Retry
    );
    assert_eq!(
        lock_file_exclusive_bounded(LockAttempt::Failed, false),
        LockStep::Failed
    );
}

#[test]
fn envelopes_are_built_and_written_in_two_steps() {
    let mut file = OutboxFile::load(0, b"torn".to_vec());
    let envelope = build_envelope(&mut file, event("turn_start", "turn.started")).unwrap();
    assert_eq!(envelope.seq, 1);
    for time in [&envelope.timestamp, envelope.created_at.as_ref().unwrap()] {
        let (date, rest) = time.split_once('T').unwrap();
        let clock = rest.strip_suffix("+00:00").unwrap();
        let parts: Vec<&str> = date.split('-').collect();
        assert_eq!(parts.len(), 3);
        assert!(parts.iter().all(|part| part.chars().all(|c| c.is_ascii_digit())));
        let hms: Vec<&str> = clock.split('.').next().unwrap().split(':').collect();
        assert_eq!(hms.len(), 3);
        assert!(hms.iter().all(|part| part.len() == 2));
    }
    assert_eq!(file.bytes.len(), 0);
    assert_eq!(write_envelope_line(&mut file, &envelope), Ok(()));
    assert_eq!(file.bytes, format!("{}\n", encode_line(&envelope)).into_bytes());
    assert_eq!(file.settled, 0);
}

#[test]
fn errors_say_what_happened() {
    assert_eq!(OutboxError::Disabled.message("p"), "lifecycle outbox is disabled");
    assert_eq!(OutboxError::Closed.message("p"), "lifecycle outbox is closed");
    assert_eq!(OutboxError::WriterGone.message("p"), "lifecycle outbox writer task is gone");
    assert_eq!(OutboxError::NoRuntime.message("p"), "no tokio runtime available");
    assert_eq!(OutboxError::TailNotUtf8.message("p"), "outbox tail is not UTF-8");
    assert_eq!(OutboxError::LastLineUnparseable.message("p"), "failed to parse last outbox line");
    assert_eq!(
        OutboxError::LineTooLong { bytes: 61441 }.message("p"),
        "outbox envelope is 61441 bytes; refusing to append a line above the 61440-byte bound (the 65536-byte recovery window must always contain a complete line)"
    );
    assert_eq!(
        OutboxError::LockTimeout.message("p"),
        "failed to lock outbox p.lock before the deadline"
    );
}
