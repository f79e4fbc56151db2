use relaycode::model::FileApplyStatus;
use relaycode::model::FileStatus;
use relaycode::model::Transaction;
use relaycode::model::TransactionFile;
use relaycode::model::TransactionStatus;
use relaycode::store::Store;

fn broadcast_tx(id: &str) -> Transaction {
    Transaction {
        id: id.to_string(),
        status: TransactionStatus::Pending,
        description: "broadcast me".to_string(),
        timestamp: "2024-01-01T00:00:00Z".to_string(),
        created_at: "2024-01-01T00:00:00Z".to_string(),
        prompt_id: "prompt-1".to_string(),
        parent_id: None,
        is_chain_root: None,
        author: "alice".to_string(),
        blocks: Vec::new(),
        files: vec![TransactionFile {
            path: "a.rs".to_string(),
            status: FileStatus::Modified,
            apply_status: FileApplyStatus::Pending,
            error_message: None,
            language: "rust".to_string(),
            diff: "@@".to_string(),
        }],
        provider: "prov".to_string(),
        model: "model".to_string(),
        cost: "0".to_string(),
        tokens: "0".to_string(),
        reasoning: "".to_string(),
    }
}

#[test]
fn subscribers_receive_published_transactions() {
    let mut store = Store::new();
    store.load_data(vec![broadcast_tx("tx-b")], Vec::new());
    let mut rx = store.broadcaster.subscribe();

    let snapshot = store
        .update_transaction_status("tx-b", TransactionStatus::Applying)
        .expect("tx-b exists");
    store.broadcaster.publish_transaction(snapshot);

    let got = rx.try_recv().expect("one event was published");
    assert_eq!(got.id, "tx-b");
    assert_eq!(got.status, TransactionStatus::Applying);
    assert!(rx.try_recv().is_err());
}

#[test]
fn each_subscriber_gets_every_event_after_subscribing() {
    let store = Store::new();
    let mut early = store.broadcaster.subscribe();
    store.broadcaster.publish_transaction(broadcast_tx("tx-1"));
    // a late subscriber receives nothing retroactively
    let mut late = store.broadcaster.subscribe();
    store.broadcaster.publish_transaction(broadcast_tx("tx-2"));

    assert_eq!(early.try_recv().unwrap().id, "tx-1");
    assert_eq!(early.try_recv().unwrap().id, "tx-2");
    assert_eq!(late.try_recv().unwrap().id, "tx-2");
    assert!(late.try_recv().is_err());
}

#[test]
fn file_events_travel_their_own_channel() {
    let mut store = Store::new();
    store.load_data(vec![broadcast_tx("tx-c")], Vec::new());
    let mut file_rx = store.broadcaster.subscribe_to_file_events();
    let mut tx_rx = store.broadcaster.subscribe();

    let e = relaycode::reapply::reapply_file(&mut store, "tx-c", "a.rs");
    store.broadcaster.publish_file_event(e);

    let got = file_rx.try_recv().expect("one file event was published");
    assert_eq!(got.transaction_id, "tx-c");
    assert_eq!(got.file_path, "a.rs");
    assert_eq!(got.apply_status, FileApplyStatus::Applying);
    assert!(tx_rx.try_recv().is_err());
}

#[test]
fn publishing_without_subscribers_is_swallowed() {
    let store = Store::new();
    // no receiver exists; the send error is swallowed and nothing panics
    store.broadcaster.publish_transaction(broadcast_tx("tx-z"));
}

#[test]
fn cloned_broadcasters_publish_to_the_same_subscribers() {
    let store = Store::new();
    let handle = store.broadcaster.clone();
    let mut rx = store.broadcaster.subscribe();
    handle.publish_transaction(broadcast_tx("tx-y"));
    assert_eq!(rx.try_recv().unwrap().id, "tx-y");
}
