use relaycode::model::FileApplyStatus;
use relaycode::model::FileStatus;
use relaycode::model::Prompt;
use relaycode::model::PromptStatus;
use relaycode::model::Transaction;
use relaycode::model::TransactionBlock;
use relaycode::model::TransactionFile;
use relaycode::model::TransactionStatus;
use relaycode::model::default_file_apply_status;
use relaycode::store::Store;
use relaycode::default_limit;
use relaycode::default_page;

fn file_entry(path: &str, apply_status: FileApplyStatus) -> TransactionFile {
    TransactionFile {
        path: path.to_string(),
        status: FileStatus::Modified,
        apply_status,
        error_message: None,
        language: "rust".to_string(),
        diff: "@@ -1 +1 @@".to_string(),
    }
}

fn file_block(path: &str, apply_status: FileApplyStatus) -> TransactionBlock {
    TransactionBlock {
        block_type: "file".to_string(),
        content: None,
        file: Some(file_entry(path, apply_status)),
    }
}

fn tx(id: &str, status: TransactionStatus, description: &str, author: &str) -> Transaction {
    Transaction {
        id: id.to_string(),
        status,
        description: description.to_string(),
        timestamp: "2024-01-01T00:00:00Z".to_string(),
        created_at: "2024-01-01T00:00:00Z".to_string(),
        prompt_id: "prompt-1".to_string(),
        parent_id: None,
        is_chain_root: None,
        author: author.to_string(),
        blocks: Vec::new(),
        files: Vec::new(),
        provider: "prov".to_string(),
        model: "model".to_string(),
        cost: "0".to_string(),
        tokens: "0".to_string(),
        reasoning: "".to_string(),
    }
}

fn seeded_store() -> Store {
    let mut store = Store::new();
    let transactions = vec![
        tx("tx-1", TransactionStatus::Pending, "Add readme section", "alice"),
        tx("tx-2", TransactionStatus::Applied, "Fix parser bug", "bob"),
        tx("tx-3", TransactionStatus::Pending, "Refactor store", "carol"),
    ];
    let prompts = vec![Prompt {
        id: "prompt-1".to_string(),
        title: "Initial".to_string(),
        content: "seed".to_string(),
        timestamp: "2024-01-01T00:00:00Z".to_string(),
        status: PromptStatus::Active,
    }];
    store.load_data(transactions, prompts);
    store
}

#[test]
fn defaults_match_the_listing_contract() {
    assert_eq!(default_page(), 1);
    assert_eq!(default_limit(), 15);
    assert_eq!(default_file_apply_status(), FileApplyStatus::Pending);
}

#[test]
fn list_returns_at_most_limit_items() {
    let store = seeded_store();
    assert_eq!(store.get_transactions(2, 1, None, None).len(), 2);
    assert_eq!(store.get_transactions(2, 2, None, None).len(), 1);
    assert_eq!(store.get_transactions(10, 1, None, None).len(), 3);
}

#[test]
fn list_pages_past_the_end_are_empty() {
    let store = seeded_store();
    assert!(store.get_transactions(2, 5, None, None).is_empty());
    assert!(store.get_transactions(3, usize::MAX, None, None).is_empty());
    // page 0 reads as the first page
    assert_eq!(store.get_transactions(2, 0, None, None).len(), 2);
    assert!(store.get_transactions(0, 1, None, None).is_empty());
}

#[test]
fn list_filters_by_status_ignoring_case() {
    let store = seeded_store();
    let pending = store.get_transactions(10, 1, None, Some("pending"));
    assert_eq!(pending.len(), 2);
    assert!(pending.iter().all(|t| t.status == TransactionStatus::Pending));
    let applied = store.get_transactions(10, 1, None, Some("APPLIED"));
    assert_eq!(applied.len(), 1);
    assert_eq!(applied[0].id, "tx-2");
    let none = store.get_transactions(10, 1, None, Some("nonsense"));
    assert!(none.is_empty());
}

#[test]
fn list_searches_description_and_author_ignoring_case() {
    let store = seeded_store();
    let by_description = store.get_transactions(10, 1, Some("README"), None);
    assert_eq!(by_description.len(), 1);
    assert_eq!(by_description[0].id, "tx-1");
    let by_author = store.get_transactions(10, 1, Some("BOB"), None);
    assert_eq!(by_author.len(), 1);
    assert_eq!(by_author[0].id, "tx-2");
    let nothing = store.get_transactions(10, 1, Some("zzz"), None);
    assert!(nothing.is_empty());
}

#[test]
fn list_searches_block_content_and_file_paths() {
    let mut store = seeded_store();
    let mut with_blocks = tx("tx-4", TransactionStatus::Pending, "desc", "dave");
    with_blocks.blocks.push(TransactionBlock {
        block_type: "markdown".to_string(),
        content: Some("Explains the MIGRATION plan".to_string()),
        file: None,
    });
    with_blocks.blocks.push(file_block("src/Engine/Core.rs", FileApplyStatus::Pending));
    let mut state_txs = vec![with_blocks];
    state_txs.push(tx("tx-5", TransactionStatus::Pending, "other", "erin"));
    store.load_data(state_txs, Vec::new());

    let by_content = store.get_transactions(10, 1, Some("migration"), None);
    assert_eq!(by_content.len(), 1);
    assert_eq!(by_content[0].id, "tx-4");
    let by_path = store.get_transactions(10, 1, Some("engine/core"), None);
    assert_eq!(by_path.len(), 1);
    assert_eq!(by_path[0].id, "tx-4");
}

#[test]
fn list_applies_status_then_search_then_page() {
    let store = seeded_store();
    let page = store.get_transactions(1, 2, None, Some("pending"));
    assert_eq!(page.len(), 1);
    assert_eq!(page[0].id, "tx-3");
}

#[test]
fn get_transaction_finds_by_id() {
    let store = seeded_store();
    let found = store.get_transaction("tx-2").expect("tx-2 exists");
    assert_eq!(found.id, "tx-2");
    assert_eq!(found.status, TransactionStatus::Applied);
    assert!(store.get_transaction("missing").is_none());
}

#[test]
fn update_status_writes_and_returns_the_snapshot() {
    let mut store = seeded_store();
    let updated = store
        .update_transaction_status("tx-1", TransactionStatus::Committed)
        .expect("tx-1 exists");
    assert_eq!(updated.status, TransactionStatus::Committed);
    let reread = store.get_transaction("tx-1").unwrap();
    assert_eq!(reread.status, TransactionStatus::Committed);
}

#[test]
fn update_status_of_unknown_id_is_not_found() {
    let mut store = seeded_store();
    assert!(store.update_transaction_status("missing", TransactionStatus::Failed).is_none());
    // nothing changed
    assert_eq!(store.get_transactions(10, 1, None, None).len(), 3);
}

#[test]
fn bulk_update_skips_unknown_ids_and_reports_each_updated_id_once() {
    let mut store = seeded_store();
    let ids = vec!["tx-1".to_string(), "missing".to_string(), "tx-3".to_string()];
    let (updated_ids, events) = store.update_transaction_status_bulk(&ids, TransactionStatus::Reverted);
    assert_eq!(updated_ids, vec!["tx-1".to_string(), "tx-3".to_string()]);
    assert_eq!(events.len(), 2);
    assert!(events.iter().all(|t| t.status == TransactionStatus::Reverted));
    assert_eq!(store.get_transaction("tx-1").unwrap().status, TransactionStatus::Reverted);
    assert_eq!(store.get_transaction("tx-2").unwrap().status, TransactionStatus::Applied);
    assert_eq!(store.get_transaction("tx-3").unwrap().status, TransactionStatus::Reverted);
}

#[test]
fn file_status_write_is_visible_through_both_representations() {
    let mut store = seeded_store();
    let mut t = tx("tx-9", TransactionStatus::Applying, "dual rep", "fay");
    t.blocks.push(file_block("src/a.rs", FileApplyStatus::Pending));
    t.files.push(file_entry("src/a.rs", FileApplyStatus::Pending));
    store.load_data(vec![t], Vec::new());

    let updated = store
        .update_file_apply_status("tx-9", "src/a.rs", FileApplyStatus::Failed, Some("boom".to_string()))
        .expect("tx-9 exists");
    let embedded = updated.blocks[0].file.as_ref().unwrap();
    assert_eq!(embedded.apply_status, FileApplyStatus::Failed);
    assert_eq!(embedded.error_message.as_deref(), Some("boom"));
    assert_eq!(updated.files[0].apply_status, FileApplyStatus::Failed);
    assert_eq!(updated.files[0].error_message.as_deref(), Some("boom"));

    let reread = store.get_transaction("tx-9").unwrap();
    let reread_embedded = reread.blocks[0].file.as_ref().unwrap();
    assert_eq!(reread_embedded.apply_status, FileApplyStatus::Failed);
    assert_eq!(reread.files[0].apply_status, FileApplyStatus::Failed);
}

#[test]
fn update_file_status_of_unknown_id_is_not_found() {
    let mut store = seeded_store();
    assert!(store
        .update_file_apply_status("missing", "p", FileApplyStatus::Applied, None)
        .is_none());
}

#[test]
fn failed_files_scan_both_representations() {
    let mut store = seeded_store();
    let mut t = tx("tx-8", TransactionStatus::Failed, "failures", "gil");
    t.blocks.push(file_block("src/bad.rs", FileApplyStatus::Failed));
    t.blocks.push(file_block("src/good.rs", FileApplyStatus::Applied));
    t.files.push(file_entry("src/bad.rs", FileApplyStatus::Failed));
    t.files.push(file_entry("src/other.rs", FileApplyStatus::Failed));
    store.load_data(vec![t], Vec::new());

    let failed = store.get_failed_files("tx-8");
    // block-embedded list first, then the top-level list; src/bad.rs is in both
    assert_eq!(
        failed,
        vec!["src/bad.rs".to_string(), "src/bad.rs".to_string(), "src/other.rs".to_string()]
    );
    assert!(store.get_failed_files("missing").is_empty());
}

#[test]
fn get_prompts_returns_the_seeded_prompts() {
    let store = seeded_store();
    let prompts = store.get_prompts();
    assert_eq!(prompts.len(), 1);
    assert_eq!(prompts[0].id, "prompt-1");
    assert_eq!(prompts[0].status, PromptStatus::Active);
}

#[test]
fn load_data_discards_earlier_state() {
    let mut store = seeded_store();
    store.update_transaction_status("tx-1", TransactionStatus::Failed);
    let fresh = vec![tx("tx-1", TransactionStatus::Pending, "fresh", "alice")];
    store.load_data(fresh, Vec::new());
    assert_eq!(store.get_transaction("tx-1").unwrap().status, TransactionStatus::Pending);
    assert_eq!(store.get_transactions(10, 1, None, None).len(), 1);
}

#[test]
fn snapshots_are_owned_copies() {
    let t = tx("tx-7", TransactionStatus::Pending, "snap", "hal");
    let s = t.snapshot();
    assert_eq!(s.id, t.id);
    assert_eq!(s.description, t.description);
    assert_eq!(s.status, t.status);
}
