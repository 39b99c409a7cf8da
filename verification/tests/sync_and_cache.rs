use pos_core::cache::AppCache;
use pos_core::models::DashboardStats;
use pos_core::models::InventoryItem;
use pos_core::outbox::get_pending_count;
use pos_core::outbox::get_pending_transactions;
use pos_core::outbox::get_sync_state;
use pos_core::outbox::queue_transaction;
use pos_core::outbox::ActionType;
use pos_core::replication::apply_remote_transaction;
use pos_core::replication::handle_pull_response;
use pos_core::replication::handle_push_response;
use pos_core::replication::prepare_heartbeat;
use pos_core::replication::prepare_pull;
use pos_core::replication::prepare_push;
use pos_core::replication::PullResponse;
use pos_core::replication::PushResponse;
use pos_core::replication::RemoteTransaction;
use pos_core::store::Store;
use pos_core::worker::is_sync_running;
use pos_core::worker::start_background_sync;
use pos_core::worker::stop_background_sync;
use pos_core::worker::SyncWorker;
use pos_core::worker::WorkerAction;

fn item(sku: &str, qty: i32, price: i64) -> InventoryItem {
    InventoryItem {
        id: format!("id-{sku}"),
        sku: sku.to_string(),
        name: format!("Item {sku}"),
        category: "Genel".to_string(),
        quantity: qty,
        location: "".to_string(),
        price,
        cost_price: None,
        supplier_id: None,
        last_updated: 0,
    }
}

fn remote(action: &str, sku: Option<&str>, qty: i32, new_value: Option<i64>) -> RemoteTransaction {
    RemoteTransaction {
        id: "r-1".to_string(),
        device_identifier: "other-device".to_string(),
        action_type: action.to_string(),
        item_sku: sku.map(|s| s.to_string()),
        item_name: Some("Remote Item".to_string()),
        quantity_change: qty,
        old_value: None,
        new_value,
        metadata: None,
        transaction_time: 9000,
    }
}

fn enqueue(store: &mut Store, n: u64) -> Vec<String> {
    let mut ids = Vec::new();
    for k in 0..n {
        let id = queue_transaction(
            store,
            ActionType::SALE,
            Some("SKU-A"),
            Some("A"),
            -1,
            None,
            None,
            None,
            100 + k,
        )
        .unwrap();
        ids.push(id);
    }
    ids
}

#[test]
fn action_types_render_their_wire_names() {
    assert_eq!(ActionType::SALE.to_string(), "SALE");
    assert_eq!(ActionType::STOCK_IN.to_string(), "STOCK_IN");
    assert_eq!(ActionType::STOCK_OUT.to_string(), "STOCK_OUT");
    assert_eq!(ActionType::PRICE_CHANGE.to_string(), "PRICE_CHANGE");
    assert_eq!(ActionType::ITEM_CREATE.to_string(), "ITEM_CREATE");
    assert_eq!(ActionType::ITEM_UPDATE.to_string(), "ITEM_UPDATE");
    assert_eq!(ActionType::ITEM_DELETE.to_string(), "ITEM_DELETE");
}

#[test]
fn outbox_orders_by_time_and_limits_batches() {
    let mut store = Store::new();
    enqueue(&mut store, 5);
    assert_eq!(get_pending_count(&store), 5);

    let batch = get_pending_transactions(&store, 3).unwrap();
    assert_eq!(batch.len(), 3);
    assert!(batch[0].transaction_time <= batch[1].transaction_time);
    assert!(batch[1].transaction_time <= batch[2].transaction_time);
    assert_eq!(batch[0].transaction_time, 100);
}

#[test]
fn push_success_marks_batch_synced_and_advances_cursor() {
    let mut store = Store::new();
    enqueue(&mut store, 5);

    let batch = prepare_push(&store);
    assert_eq!(batch.len(), 5);

    let response = PushResponse {
        success: true,
        inserted: Some(5),
        skipped: Some(0),
        message: None,
        error: None,
    };
    let pushed = handle_push_response(&mut store, &batch, &response, 777).unwrap();
    assert_eq!(pushed, 5);

    // the pending count dropped by exactly the batch size, and stays down
    assert_eq!(get_pending_count(&store), 0);
    let state = get_sync_state(&store);
    assert_eq!(state.last_push_at, Some(777));
    assert_eq!(state.pending_count, 0);
    assert!(!state.sync_in_progress);

    // a second push finds nothing
    assert!(prepare_push(&store).is_empty());
}

#[test]
fn push_failure_leaves_everything_pending() {
    let mut store = Store::new();
    enqueue(&mut store, 2);
    let batch = prepare_push(&store);
    let response = PushResponse {
        success: false,
        inserted: None,
        skipped: None,
        message: None,
        error: Some("relay down".to_string()),
    };
    let r = handle_push_response(&mut store, &batch, &response, 777);
    assert!(r.is_err());
    assert_eq!(r.err().unwrap().message(), "relay down");
    assert_eq!(get_pending_count(&store), 2);
    assert_eq!(get_sync_state(&store).last_push_at, None);
}

#[test]
fn pull_applies_remote_entries_then_advances_cursor() {
    let mut store = Store::new();
    store.add_item(item("SKU-A", 10, 1000)).unwrap();

    let req = prepare_pull(&store, "this-device".to_string());
    assert_eq!(req.since, None);

    let response = PullResponse {
        success: true,
        transactions: Some(vec![
            remote("STOCK_IN", Some("SKU-A"), 5, None),
            remote("PRICE_CHANGE", Some("SKU-A"), 0, Some(1500)),
        ]),
        message: None,
        error: None,
    };
    let pulled = handle_pull_response(&mut store, &response, 888).unwrap();
    assert_eq!(pulled, 2);

    let it = store.get_item_by_sku("SKU-A").unwrap();
    assert_eq!(it.quantity, 15);
    assert_eq!(it.price, 1500);
    assert_eq!(get_sync_state(&store).last_pull_at, Some(888));

    // the next pull sends the advanced cursor
    assert_eq!(prepare_pull(&store, "this-device".to_string()).since, Some(888));
}

#[test]
fn pull_failure_changes_nothing() {
    let mut store = Store::new();
    store.add_item(item("SKU-A", 10, 1000)).unwrap();
    let response = PullResponse {
        success: false,
        transactions: None,
        message: None,
        error: None,
    };
    let r = handle_pull_response(&mut store, &response, 888);
    assert!(r.is_err());
    assert_eq!(r.err().unwrap().message(), "Pull basarisiz");
    assert_eq!(store.get_item_by_sku("SKU-A").unwrap().quantity, 10);
    assert_eq!(get_sync_state(&store).last_pull_at, None);
}

#[test]
fn remote_apply_is_idempotent_for_absolute_kinds() {
    // ITEM_CREATE is guarded by existence: the second application is a no-op
    let mut store = Store::new();
    let create = remote("ITEM_CREATE", Some("SKU-N"), 7, Some(1200));
    apply_remote_transaction(&mut store, &create).unwrap();
    apply_remote_transaction(&mut store, &create).unwrap();
    let all = store.get_all_items();
    assert_eq!(all.len(), 1);
    assert_eq!(all[0].sku, "SKU-N");
    assert_eq!(all[0].quantity, 7);
    assert_eq!(all[0].price, 1200);

    // PRICE_CHANGE and ITEM_UPDATE set absolute values
    let reprice = remote("PRICE_CHANGE", Some("SKU-N"), 0, Some(1300));
    apply_remote_transaction(&mut store, &reprice).unwrap();
    let once = store.get_item_by_sku("SKU-N").unwrap().price;
    apply_remote_transaction(&mut store, &reprice).unwrap();
    assert_eq!(store.get_item_by_sku("SKU-N").unwrap().price, once);
    assert_eq!(once, 1300);

    let rename = remote("ITEM_UPDATE", Some("SKU-N"), 0, None);
    apply_remote_transaction(&mut store, &rename).unwrap();
    apply_remote_transaction(&mut store, &rename).unwrap();
    assert_eq!(store.get_item_by_sku("SKU-N").unwrap().name, "Remote Item");
}

#[test]
fn remote_stock_out_clamps_at_zero_and_delete_removes() {
    let mut store = Store::new();
    store.add_item(item("SKU-A", 3, 1000)).unwrap();
    apply_remote_transaction(&mut store, &remote("STOCK_OUT", Some("SKU-A"), -5, None)).unwrap();
    assert_eq!(store.get_item_by_sku("SKU-A").unwrap().quantity, 0);

    apply_remote_transaction(&mut store, &remote("ITEM_DELETE", Some("SKU-A"), 0, None)).unwrap();
    assert!(store.get_item_by_sku("SKU-A").is_none());
}

#[test]
fn heartbeat_reports_the_pending_count() {
    let mut store = Store::new();
    enqueue(&mut store, 3);
    let hb = prepare_heartbeat(&store, "dev-1".to_string(), "Kasa".to_string());
    assert_eq!(hb.device_identifier, "dev-1");
    assert_eq!(hb.device_name, "Kasa");
    assert_eq!(hb.pending_count, 3);
}

#[test]
fn worker_runs_sleeps_and_stops() {
    let mut w = SyncWorker::new(1); // 1 second = 10 ticks
    assert!(!is_sync_running(&w));
    start_background_sync(&mut w, 1).unwrap();
    assert!(is_sync_running(&w));
    // a second start is a no-op
    start_background_sync(&mut w, 99).unwrap();
    assert!(is_sync_running(&w));

    assert_eq!(w.tick(), WorkerAction::RunSync);
    for _ in 0..10 {
        assert_eq!(w.tick(), WorkerAction::Sleep);
    }
    assert_eq!(w.tick(), WorkerAction::RunSync);

    stop_background_sync(&mut w);
    assert_eq!(w.tick(), WorkerAction::Exit);
    assert!(!is_sync_running(&w));
}

#[test]
fn cache_get_after_invalidate_misses_and_recomputes() {
    let mut cache = AppCache::new();
    cache.set_item("SKU-A".to_string(), item("SKU-A", 10, 1000), 0);
    let hit = cache.get_item("SKU-A", 1000).unwrap();
    assert_eq!(hit.sku, "SKU-A");
    assert_eq!(hit.quantity, 10);

    cache.invalidate_item("SKU-A");
    assert!(cache.get_item("SKU-A", 1000).is_none());

    // the caller recomputes from storage and repopulates
    cache.set_item("SKU-A".to_string(), item("SKU-A", 8, 1000), 2000);
    assert_eq!(cache.get_item("SKU-A", 2500).unwrap().quantity, 8);
}

#[test]
fn cache_item_entries_expire_after_their_ttl() {
    let mut cache = AppCache::new();
    cache.set_item("SKU-A".to_string(), item("SKU-A", 10, 1000), 0);
    // five minutes is 300 000 ms: one past the expiry instant misses
    assert!(cache.get_item("SKU-A", 300_001).is_none());
}

#[test]
fn cached_aggregates_recompute_after_the_ttl_window() {
    let mut cache = AppCache::new();
    let stats = DashboardStats {
        total_items: 2,
        total_quantity: 11,
        low_stock_count: 1,
        total_revenue: 20000,
    };
    cache.set_dashboard_stats(stats, 0);
    assert_eq!(cache.get_dashboard_stats(30_000).unwrap(), stats);
    // one minute later, with no invalidation call, the slot has expired
    assert!(cache.get_dashboard_stats(60_001).is_none());

    cache.set_all_items(vec![item("SKU-A", 10, 1000)], 0);
    assert_eq!(cache.get_all_items(59_000).unwrap().len(), 1);
    assert!(cache.get_all_items(61_000).is_none());
}

#[test]
fn mutations_invalidate_aggregate_slots() {
    let mut cache = AppCache::new();
    let stats = DashboardStats {
        total_items: 1,
        total_quantity: 1,
        low_stock_count: 0,
        total_revenue: 0,
    };
    cache.set_dashboard_stats(stats, 0);
    cache.set_all_items(vec![item("SKU-A", 10, 1000)], 0);
    cache.invalidate_aggregates();
    assert!(cache.get_dashboard_stats(1).is_none());
    assert!(cache.get_all_items(1).is_none());

    cache.set_item("SKU-A".to_string(), item("SKU-A", 10, 1000), 0);
    cache.invalidate_all();
    assert!(cache.get_item("SKU-A", 1).is_none());
}

#[test]
fn cached_category_stats_expire_like_the_other_aggregates() {
    let mut cache = AppCache::new();
    let rows = vec![pos_core::models::CategoryStats {
        category: "Genel".to_string(),
        count: 2,
        total_quantity: 12,
        total_value: 100200,
    }];
    cache.set_category_stats(rows, 0);
    let hit = cache.get_category_stats(59_000).unwrap();
    assert_eq!(hit.len(), 1);
    assert_eq!(hit[0].category, "Genel");
    assert_eq!(hit[0].total_value, 100200);
    assert!(cache.get_category_stats(60_001).is_none());
}

#[test]
fn queued_entries_survive_in_time_order_even_out_of_order() {
    let mut store = Store::new();
    queue_transaction(&mut store, ActionType::STOCK_IN, Some("B"), None, 5, None, None, None, 200)
        .unwrap();
    queue_transaction(&mut store, ActionType::STOCK_IN, Some("A"), None, 3, None, None, None, 100)
        .unwrap();
    let batch = get_pending_transactions(&store, 10).unwrap();
    assert_eq!(batch.len(), 2);
    assert_eq!(batch[0].item_sku.as_deref(), Some("A"));
    assert_eq!(batch[1].item_sku.as_deref(), Some("B"));
}
