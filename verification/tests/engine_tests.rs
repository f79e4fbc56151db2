use relaycode::model::FileApplyStatus;
use relaycode::model::FileStatus;
use relaycode::model::SimulationScenario;
use relaycode::model::Transaction;
use relaycode::model::TransactionBlock;
use relaycode::model::TransactionFile;
use relaycode::model::TransactionStatus;
use relaycode::reapply::finish_reapply;
use relaycode::reapply::reapply_all_failed;
use relaycode::reapply::reapply_file;
use relaycode::reapply::resolve_reapply_draw;
use relaycode::reapply::sample_reapply_delay_ms;
use relaycode::reapply::sample_reapply_outcome;
use relaycode::simulation::duration_band;
use relaycode::simulation::file_delay_ms;
use relaycode::simulation::finish_simulation;
use relaycode::simulation::sample_duration_ms;
use relaycode::simulation::scenario_file_outcome;
use relaycode::simulation::simulation_file_step;
use relaycode::simulation::start_simulation;
use relaycode::store::Store;

fn sim_file(path: &str, apply_status: FileApplyStatus) -> TransactionFile {
    TransactionFile {
        path: path.to_string(),
        status: FileStatus::Modified,
        apply_status,
        error_message: None,
        language: "rust".to_string(),
        diff: "@@ -1 +1 @@".to_string(),
    }
}

fn sim_tx(id: &str, status: TransactionStatus, file_paths: &[&str]) -> Transaction {
    Transaction {
        id: id.to_string(),
        status,
        description: "simulated change".to_string(),
        timestamp: "2024-01-01T00:00:00Z".to_string(),
        created_at: "2024-01-01T00:00:00Z".to_string(),
        prompt_id: "prompt-1".to_string(),
        parent_id: None,
        is_chain_root: None,
        author: "alice".to_string(),
        blocks: Vec::new(),
        files: file_paths.iter().map(|p| sim_file(p, FileApplyStatus::Pending)).collect(),
        provider: "prov".to_string(),
        model: "model".to_string(),
        cost: "0".to_string(),
        tokens: "0".to_string(),
        reasoning: "".to_string(),
    }
}

fn sim_store(t: Transaction) -> Store {
    let mut store = Store::new();
    store.load_data(vec![t], Vec::new());
    store
}

/// Drives one whole simulation synchronously, without the delays.
fn run_simulation(store: &mut Store, id: &str, scenario: Option<SimulationScenario>) {
    if let Some((_snapshot, paths)) = start_simulation(store, id) {
        for (idx, path) in paths.iter().enumerate() {
            simulation_file_step(store, id, path.as_str(), scenario, idx);
        }
        finish_simulation(store, id, scenario);
    }
}

#[test]
fn start_requires_pending_status() {
    let mut store = sim_store(sim_tx("tx-a", TransactionStatus::Applied, &["a.rs"]));
    assert!(start_simulation(&mut store, "tx-a").is_none());
    assert_eq!(store.get_transaction("tx-a").unwrap().status, TransactionStatus::Applied);
    assert!(!store.is_simulation_active("tx-a"));
}

#[test]
fn start_of_unknown_id_is_a_no_op() {
    let mut store = sim_store(sim_tx("tx-a", TransactionStatus::Pending, &["a.rs"]));
    assert!(start_simulation(&mut store, "missing").is_none());
    assert!(!store.is_simulation_active("missing"));
}

#[test]
fn start_moves_pending_to_applying_and_registers() {
    let mut store = sim_store(sim_tx("tx-a", TransactionStatus::Pending, &["a.rs", "b.rs"]));
    let (snapshot, paths) = start_simulation(&mut store, "tx-a").expect("guard passes");
    assert_eq!(snapshot.status, TransactionStatus::Applying);
    assert_eq!(paths, vec!["a.rs".to_string(), "b.rs".to_string()]);
    assert!(store.is_simulation_active("tx-a"));
    assert_eq!(store.get_transaction("tx-a").unwrap().status, TransactionStatus::Applying);
}

#[test]
fn second_start_for_the_same_id_is_rejected() {
    let mut store = sim_store(sim_tx("tx-a", TransactionStatus::Pending, &["a.rs"]));
    assert!(start_simulation(&mut store, "tx-a").is_some());
    assert!(start_simulation(&mut store, "tx-a").is_none());
    // the run ends: unregistration is the final action, and a restart stays
    // impossible only while the run is active
    finish_simulation(&mut store, "tx-a", None);
    assert!(!store.is_simulation_active("tx-a"));
}

#[test]
fn simulated_failure_fails_every_file_and_the_transaction() {
    let mut t = sim_tx("tx-f", TransactionStatus::Pending, &["a.rs", "b.rs", "c.rs"]);
    t.blocks.push(TransactionBlock {
        block_type: "file".to_string(),
        content: None,
        file: Some(sim_file("a.rs", FileApplyStatus::Pending)),
    });
    let mut store = sim_store(t);
    run_simulation(&mut store, "tx-f", Some(SimulationScenario::SimulatedFailure));
    let done = store.get_transaction("tx-f").unwrap();
    assert_eq!(done.status, TransactionStatus::Failed);
    for f in &done.files {
        assert_eq!(f.apply_status, FileApplyStatus::Failed);
        assert_eq!(f.error_message.as_deref(), Some("Patch conflict: file content mismatch"));
    }
    let embedded = done.blocks[0].file.as_ref().unwrap();
    assert_eq!(embedded.apply_status, FileApplyStatus::Failed);
    assert!(!store.is_simulation_active("tx-f"));
}

#[test]
fn partial_failure_fails_every_third_file() {
    let mut store = sim_store(sim_tx(
        "tx-p",
        TransactionStatus::Pending,
        &["f0.rs", "f1.rs", "f2.rs", "f3.rs", "f4.rs", "f5.rs"],
    ));
    run_simulation(&mut store, "tx-p", Some(SimulationScenario::PartialFailure));
    let done = store.get_transaction("tx-p").unwrap();
    let statuses: Vec<FileApplyStatus> = done.files.iter().map(|f| f.apply_status).collect();
    assert_eq!(
        statuses,
        vec![
            FileApplyStatus::Applied,
            FileApplyStatus::Applied,
            FileApplyStatus::Failed,
            FileApplyStatus::Applied,
            FileApplyStatus::Applied,
            FileApplyStatus::Failed,
        ]
    );
    assert_eq!(done.status, TransactionStatus::PartiallyApplied);
}

#[test]
fn partial_failure_positions_count_the_file_sequence_once() {
    // every file present in both representations: the drip still runs one
    // step per file, so positions follow the transaction's file sequence
    let mut t = sim_tx("tx-p3", TransactionStatus::Pending, &["f0.rs", "f1.rs"]);
    for f in &t.files {
        t.blocks.push(TransactionBlock {
            block_type: "file".to_string(),
            content: None,
            file: Some(sim_file(&f.path, FileApplyStatus::Pending)),
        });
    }
    let mut store = sim_store(t);
    run_simulation(&mut store, "tx-p3", Some(SimulationScenario::PartialFailure));
    let done = store.get_transaction("tx-p3").unwrap();
    for f in &done.files {
        assert_eq!(f.apply_status, FileApplyStatus::Applied);
    }
    assert_eq!(done.status, TransactionStatus::Applied);
}

#[test]
fn partial_failure_updates_both_representations() {
    let mut t = sim_tx("tx-p4", TransactionStatus::Pending, &["f0.rs", "f1.rs", "f2.rs"]);
    for f in &t.files {
        t.blocks.push(TransactionBlock {
            block_type: "file".to_string(),
            content: None,
            file: Some(sim_file(&f.path, FileApplyStatus::Pending)),
        });
    }
    let mut store = sim_store(t);
    run_simulation(&mut store, "tx-p4", Some(SimulationScenario::PartialFailure));
    let done = store.get_transaction("tx-p4").unwrap();
    assert_eq!(done.files[0].apply_status, FileApplyStatus::Applied);
    assert_eq!(done.files[1].apply_status, FileApplyStatus::Applied);
    assert_eq!(done.files[2].apply_status, FileApplyStatus::Failed);
    for (i, b) in done.blocks.iter().enumerate() {
        let embedded = b.file.as_ref().unwrap();
        assert_eq!(embedded.apply_status, done.files[i].apply_status);
        assert_eq!(embedded.error_message, done.files[i].error_message);
    }
    assert_eq!(done.status, TransactionStatus::PartiallyApplied);
}

#[test]
fn partial_failure_with_no_third_file_is_applied() {
    let mut store = sim_store(sim_tx("tx-p2", TransactionStatus::Pending, &["f0.rs", "f1.rs"]));
    run_simulation(&mut store, "tx-p2", Some(SimulationScenario::PartialFailure));
    let done = store.get_transaction("tx-p2").unwrap();
    assert_eq!(done.status, TransactionStatus::Applied);
}

#[test]
fn default_scenario_applies_every_file() {
    let mut store = sim_store(sim_tx("tx-d", TransactionStatus::Pending, &["a.rs", "b.rs"]));
    run_simulation(&mut store, "tx-d", None);
    let done = store.get_transaction("tx-d").unwrap();
    assert_eq!(done.status, TransactionStatus::Applied);
    for f in &done.files {
        assert_eq!(f.apply_status, FileApplyStatus::Applied);
        assert!(f.error_message.is_none());
    }
}

#[test]
fn scenario_outcomes_are_exact() {
    let (st, err) = scenario_file_outcome(Some(SimulationScenario::SimulatedFailure), 0);
    assert_eq!(st, FileApplyStatus::Failed);
    assert_eq!(err.as_deref(), Some("Patch conflict: file content mismatch"));
    let (st2, err2) = scenario_file_outcome(Some(SimulationScenario::PartialFailure), 2);
    assert_eq!(st2, FileApplyStatus::Failed);
    assert!(err2.is_some());
    let (st3, err3) = scenario_file_outcome(Some(SimulationScenario::PartialFailure), 4);
    assert_eq!(st3, FileApplyStatus::Applied);
    assert!(err3.is_none());
    let (st4, _) = scenario_file_outcome(Some(SimulationScenario::FastSuccess), 2);
    assert_eq!(st4, FileApplyStatus::Applied);
    let (st5, _) = scenario_file_outcome(None, 2);
    assert_eq!(st5, FileApplyStatus::Applied);
}

#[test]
fn duration_bands_are_exact() {
    assert_eq!(duration_band(Some(SimulationScenario::FastSuccess)), (500, 1000));
    assert_eq!(duration_band(Some(SimulationScenario::LongRunning)), (8000, 12000));
    assert_eq!(duration_band(Some(SimulationScenario::SimulatedFailure)), (2000, 6000));
    assert_eq!(duration_band(Some(SimulationScenario::PartialFailure)), (2000, 6000));
    assert_eq!(duration_band(None), (2000, 6000));
}

#[test]
fn sampled_durations_stay_in_their_band() {
    for _ in 0..50 {
        let d = sample_duration_ms(Some(SimulationScenario::FastSuccess));
        assert!((500..=1000).contains(&d));
        let l = sample_duration_ms(Some(SimulationScenario::LongRunning));
        assert!((8000..=12000).contains(&l));
        let m = sample_duration_ms(None);
        assert!((2000..=6000).contains(&m));
    }
}

#[test]
fn file_delay_divides_the_duration() {
    assert_eq!(file_delay_ms(1000, 2), 250);
    assert_eq!(file_delay_ms(6000, 3), 1000);
    assert_eq!(file_delay_ms(5, 3), 0);
    assert_eq!(file_delay_ms(1000, 0), 0);
}

#[test]
fn reapply_emits_an_immediate_applying_event() {
    let mut t = sim_tx("tx-r", TransactionStatus::Failed, &["a.rs"]);
    t.files[0].apply_status = FileApplyStatus::Failed;
    t.files[0].error_message = Some("old error".to_string());
    let mut store = sim_store(t);

    let e = reapply_file(&mut store, "tx-r", "a.rs");
    assert_eq!(e.transaction_id, "tx-r");
    assert_eq!(e.file_path, "a.rs");
    assert_eq!(e.apply_status, FileApplyStatus::Applying);
    assert!(e.error_message.is_none());
    let mid = store.get_transaction("tx-r").unwrap();
    assert_eq!(mid.files[0].apply_status, FileApplyStatus::Applying);
    assert!(mid.files[0].error_message.is_none());
}

#[test]
fn reapply_resolution_is_written_exactly_once_per_outcome() {
    let mut t = sim_tx("tx-r2", TransactionStatus::Failed, &["a.rs"]);
    t.files[0].apply_status = FileApplyStatus::Failed;
    let mut store = sim_store(t);
    reapply_file(&mut store, "tx-r2", "a.rs");

    let (st, err) = resolve_reapply_draw(100);
    let e = finish_reapply(&mut store, "tx-r2", "a.rs", st, err);
    assert_eq!(e.apply_status, FileApplyStatus::Failed);
    assert_eq!(e.error_message.as_deref(), Some("Retry failed: unresolved conflict"));
    let done = store.get_transaction("tx-r2").unwrap();
    assert_eq!(done.files[0].apply_status, FileApplyStatus::Failed);
    assert_eq!(done.files[0].error_message.as_deref(), Some("Retry failed: unresolved conflict"));
}

#[test]
fn reapply_draw_boundary_values() {
    let (fail, fail_msg) = resolve_reapply_draw(299);
    assert_eq!(fail, FileApplyStatus::Failed);
    assert!(fail_msg.is_some());
    let (ok, ok_msg) = resolve_reapply_draw(300);
    assert_eq!(ok, FileApplyStatus::Applied);
    assert!(ok_msg.is_none());
    let (top, _) = resolve_reapply_draw(999);
    assert_eq!(top, FileApplyStatus::Applied);
}

#[test]
fn sampled_reapply_outcomes_are_terminal() {
    for _ in 0..50 {
        let (st, err) = sample_reapply_outcome();
        match st {
            FileApplyStatus::Applied => assert!(err.is_none()),
            FileApplyStatus::Failed => {
                assert_eq!(err.as_deref(), Some("Retry failed: unresolved conflict"))
            },
            other => panic!("non-terminal reapply outcome {:?}", other),
        }
        let delay = sample_reapply_delay_ms();
        assert!((800..=1200).contains(&delay));
    }
}

#[test]
fn reapply_all_failed_begins_one_retry_per_failed_path() {
    let mut t = sim_tx("tx-r3", TransactionStatus::Failed, &["a.rs", "b.rs", "c.rs"]);
    t.files[0].apply_status = FileApplyStatus::Failed;
    t.files[2].apply_status = FileApplyStatus::Failed;
    let mut store = sim_store(t);

    let events = reapply_all_failed(&mut store, "tx-r3");
    assert_eq!(events.len(), 2);
    assert_eq!(events[0].file_path, "a.rs");
    assert_eq!(events[1].file_path, "c.rs");
    assert!(events.iter().all(|e| e.apply_status == FileApplyStatus::Applying));
    let mid = store.get_transaction("tx-r3").unwrap();
    assert_eq!(mid.files[0].apply_status, FileApplyStatus::Applying);
    assert_eq!(mid.files[1].apply_status, FileApplyStatus::Pending);
    assert_eq!(mid.files[2].apply_status, FileApplyStatus::Applying);
}

#[test]
fn reapply_all_failed_of_unknown_id_is_empty() {
    let mut store = sim_store(sim_tx("tx-r4", TransactionStatus::Failed, &["a.rs"]));
    assert!(reapply_all_failed(&mut store, "missing").is_empty());
}
