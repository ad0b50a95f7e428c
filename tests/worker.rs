use oz_core::record::FileInfo;
use oz_core::worker::{
    combine, error_record, record_file_name, Completion, Emitted, ItemSession, Phase,
    PhaseOutcome, ProcessStep, WorkerAction, ADVANCED_FAILED, BASIC_FAILED, BOTH_FAILED,
};
use oz_core::record::{BlockInfo, Zignature};
use oz_core::worker::json_escape;

fn signature(name: &str) -> Zignature {
    Zignature {
        function: BlockInfo { name: name.to_string(), size: 4, ssdeep: None, entropy: None },
        bytes: "5589".to_string(),
        mask: "ffff".to_string(),
        bbsum: 1,
        addr: 2,
        n_vars: 0,
    }
}

fn basic_result() -> FileInfo {
    let mut b = FileInfo::new("/samples/ls".to_string());
    b.sha256 = "abc".to_string();
    b.arch = "x86".to_string();
    b.strings.push("hello".to_string());
    b
}

fn advanced_result() -> FileInfo {
    let mut a = FileInfo::new("/samples/ls".to_string());
    a.zignatures.push(signature("main"));
    a.zignatures.push(signature("init"));
    a
}

fn record(c: &Completion) -> &FileInfo {
    match &c.emitted {
        Emitted::Record(r) => r,
        Emitted::Placeholder => panic!("expected a record"),
    }
}

fn count(steps: &[ProcessStep], s: ProcessStep) -> usize {
    steps.iter().filter(|x| **x == s).count()
}

#[test]
fn both_phases_succeed_merge_signatures() {
    let c = combine(
        PhaseOutcome::Finished(basic_result()),
        PhaseOutcome::Finished(advanced_result()),
    );
    let r = record(&c);
    assert_eq!(r.sha256, "abc");
    assert_eq!(r.arch, "x86");
    assert_eq!(r.strings, vec!["hello".to_string()]);
    assert_eq!(r.zignatures.len(), 2);
    assert_eq!(r.zignatures[0].function.name, "main");
    assert_eq!(r.zignatures[1].function.name, "init");
    assert!(r.error.is_empty());
    assert_eq!(
        c.cleanup,
        vec![ProcessStep::Wait(Phase::Basic), ProcessStep::Wait(Phase::Advanced)]
    );
}

#[test]
fn advanced_timeout_keeps_basic_and_kills_advanced() {
    let c = combine(PhaseOutcome::Finished(basic_result()), PhaseOutcome::Failed);
    let r = record(&c);
    assert_eq!(r.sha256, "abc");
    assert!(r.zignatures.is_empty());
    assert_eq!(r.error, vec!["advanced analysis timeout or panic".to_string()]);
    assert_eq!(ADVANCED_FAILED, "advanced analysis timeout or panic");
    assert_eq!(
        c.cleanup,
        vec![
            ProcessStep::Kill(Phase::Advanced),
            ProcessStep::Wait(Phase::Basic),
            ProcessStep::Wait(Phase::Advanced)
        ]
    );
}

#[test]
fn basic_timeout_keeps_advanced_and_kills_basic() {
    let c = combine(PhaseOutcome::Failed, PhaseOutcome::Finished(advanced_result()));
    let r = record(&c);
    assert_eq!(r.zignatures.len(), 2);
    assert_eq!(r.sha256, "");
    assert_eq!(r.error, vec!["basic analysis timeout or panic".to_string()]);
    assert_eq!(BASIC_FAILED, "basic analysis timeout or panic");
    assert_eq!(
        c.cleanup,
        vec![
            ProcessStep::Kill(Phase::Basic),
            ProcessStep::Wait(Phase::Basic),
            ProcessStep::Wait(Phase::Advanced)
        ]
    );
}

#[test]
fn both_timeouts_give_placeholder_and_kill_both() {
    let c = combine(PhaseOutcome::Failed, PhaseOutcome::Failed);
    assert!(matches!(c.emitted, Emitted::Placeholder));
    assert_eq!(count(&c.cleanup, ProcessStep::Kill(Phase::Basic)), 1);
    assert_eq!(count(&c.cleanup, ProcessStep::Kill(Phase::Advanced)), 1);
    assert_eq!(count(&c.cleanup, ProcessStep::Wait(Phase::Basic)), 1);
    assert_eq!(count(&c.cleanup, ProcessStep::Wait(Phase::Advanced)), 1);
    assert_eq!(
        error_record(BOTH_FAILED),
        "{\"error\": \"timeout or panic during analysis\"}"
    );
}

#[test]
fn every_spawned_process_is_reaped_once() {
    let outcomes = |k: usize| match k {
        0 => PhaseOutcome::Finished(basic_result()),
        1 => PhaseOutcome::Failed,
        _ => PhaseOutcome::NotSpawned,
    };
    for b in 0..3 {
        for a in 0..3 {
            let c = combine(outcomes(b), outcomes(a));
            let spawned = (b != 2) as usize + (a != 2) as usize;
            let waits = count(&c.cleanup, ProcessStep::Wait(Phase::Basic))
                + count(&c.cleanup, ProcessStep::Wait(Phase::Advanced));
            assert_eq!(waits, spawned);
            assert_eq!(count(&c.cleanup, ProcessStep::Wait(Phase::Basic)), (b != 2) as usize);
            assert_eq!(count(&c.cleanup, ProcessStep::Kill(Phase::Basic)), (b == 1) as usize);
            assert_eq!(count(&c.cleanup, ProcessStep::Kill(Phase::Advanced)), (a == 1) as usize);
        }
    }
}

#[test]
fn spawn_failure_counts_as_phase_failure() {
    let c = combine(PhaseOutcome::NotSpawned, PhaseOutcome::Finished(advanced_result()));
    let r = record(&c);
    assert_eq!(r.error, vec![BASIC_FAILED.to_string()]);
    assert_eq!(c.cleanup, vec![ProcessStep::Wait(Phase::Advanced)]);
}

#[test]
fn session_awaits_both_then_combines() {
    let mut s = ItemSession::new(true, true);
    assert_eq!(s.next, WorkerAction::AwaitBasic);
    assert_eq!(s.on_result(Some(basic_result())), WorkerAction::AwaitAdvanced);
    assert_eq!(s.on_result(Some(advanced_result())), WorkerAction::Combine);
    let c = s.finish();
    assert_eq!(record(&c).zignatures.len(), 2);
    assert_eq!(record(&c).sha256, "abc");
}

#[test]
fn session_repolls_late_basic_result_once() {
    let mut s = ItemSession::new(true, true);
    assert_eq!(s.on_result(None), WorkerAction::AwaitAdvanced);
    assert_eq!(s.on_result(Some(advanced_result())), WorkerAction::PollBasic);
    assert_eq!(s.on_result(Some(basic_result())), WorkerAction::Combine);
    let c = s.finish();
    let r = record(&c);
    assert!(r.error.is_empty());
    assert_eq!(r.zignatures.len(), 2);
}

#[test]
fn session_basic_missing_after_repoll() {
    let mut s = ItemSession::new(true, true);
    assert_eq!(s.on_result(None), WorkerAction::AwaitAdvanced);
    assert_eq!(s.on_result(None), WorkerAction::PollBasic);
    assert_eq!(s.on_result(None), WorkerAction::Combine);
    let c = s.finish();
    assert!(matches!(c.emitted, Emitted::Placeholder));
    assert_eq!(c.cleanup.len(), 4);
}

#[test]
fn session_without_processes_combines_at_once() {
    let s = ItemSession::new(false, false);
    assert_eq!(s.next, WorkerAction::Combine);
    let c = s.finish();
    assert!(matches!(c.emitted, Emitted::Placeholder));
    assert!(c.cleanup.is_empty());
}

#[test]
fn fresh_record_is_named_after_last_segment() {
    let r = FileInfo::new("/data/in/sample.bin".to_string());
    assert_eq!(r.name, "sample.bin");
    assert_eq!(r.path, "/data/in/sample.bin");
    assert_eq!(FileInfo::new("plain".to_string()).name, "plain");
    assert_eq!(FileInfo::new("dir/".to_string()).name, "");
    assert_eq!(record_file_name("sample.bin"), "sample.bin.json");
}

#[test]
fn error_record_escapes_the_message() {
    assert_eq!(error_record("a\"b\\c"), "{\"error\": \"a\\\"b\\\\c\"}");
    assert_eq!(json_escape("x\ny\u{1f}"), "x\\u000ay\\u001f");
    assert_eq!(json_escape("plain é"), "plain é");
    let parsed: serde_json::Value = serde_json::from_str(&error_record("say \"no\"\n")).unwrap();
    assert_eq!(parsed["error"], "say \"no\"\n");
}
