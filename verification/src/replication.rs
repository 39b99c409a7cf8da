//! The replication protocol: push batches of outbox entries to the relay,
//! apply remote entries pulled from it, and prepare heartbeats. The network
//! exchange itself happens outside; this module prepares each request and
//! applies each response, and proves what every outcome does to the store.

use vstd::prelude::*;

use crate::chars::str_eq;
use crate::error::AppError;
use crate::ids::fresh_id;
use crate::models::opt_int;
use crate::models::opt_view;
use crate::models::CursorView;
use crate::models::InventoryItem;
use crate::models::ItemView;
use crate::models::SyncTransaction;
use crate::outbox::batch_ids;
use crate::outbox::get_pending_count;
use crate::outbox::get_pending_transactions;
use crate::outbox::marked_synced;
use crate::outbox::mark_as_synced;
use crate::outbox::pending_count;
use crate::outbox::pending_take;
use crate::store::clamp_qty;
use crate::store::has_sku;
use crate::store::item_at;
use crate::store::lemma_item_at;
use crate::store::with_name;
use crate::store::with_price;
use crate::store::with_quantity;
use crate::store::Store;
use crate::store::StoreView;
use crate::validation::MAX_ITEM_QTY;
use crate::validation::MAX_UNIT_PRICE_CENTS;

verus! {

// ==================== Wire records ====================

/// A transaction recorded by another device, as the relay returns it.
pub struct RemoteTransaction {
    pub id: String,
    pub device_identifier: String,
    pub action_type: String,
    pub item_sku: Option<String>,
    pub item_name: Option<String>,
    pub quantity_change: i32,
    pub old_value: Option<i64>,
    pub new_value: Option<i64>,
    pub metadata: Option<String>,
    pub transaction_time: u64,
}

#[verifier::ext_equal]
pub struct RemoteTransactionView {
    pub id: Seq<char>,
    pub device_identifier: Seq<char>,
    pub action_type: Seq<char>,
    pub item_sku: Option<Seq<char>>,
    pub item_name: Option<Seq<char>>,
    pub quantity_change: int,
    pub old_value: Option<int>,
    pub new_value: Option<int>,
    pub metadata: Option<Seq<char>>,
    pub transaction_time: int,
}

impl View for RemoteTransaction {
    type V = RemoteTransactionView;

    open spec fn view(&self) -> RemoteTransactionView {
        RemoteTransactionView {
            id: self.id@,
            device_identifier: self.device_identifier@,
            action_type: self.action_type@,
            item_sku: opt_view(self.item_sku),
            item_name: opt_view(self.item_name),
            quantity_change: self.quantity_change as int,
            old_value: opt_int(self.old_value),
            new_value: opt_int(self.new_value),
            metadata: opt_view(self.metadata),
            transaction_time: self.transaction_time as int,
        }
    }
}

/// A push request: the device's outbox batch.
pub struct PushRequest {
    pub device_identifier: String,
    pub transactions: Vec<SyncTransaction>,
}

/// The relay's answer to a push.
pub struct PushResponse {
    pub success: bool,
    pub inserted: Option<i32>,
    pub skipped: Option<i32>,
    pub message: Option<String>,
    pub error: Option<String>,
}

/// A pull request: the device identity and the cursor.
pub struct PullRequest {
    pub device_identifier: String,
    pub since: Option<u64>,
}

/// The relay's answer to a pull.
pub struct PullResponse {
    pub success: bool,
    pub transactions: Option<Vec<RemoteTransaction>>,
    pub message: Option<String>,
    pub error: Option<String>,
}

/// A heartbeat: device identity and pending-entry count.
pub struct HeartbeatRequest {
    pub device_identifier: String,
    pub device_name: String,
    pub pending_count: u64,
}

// ==================== Applying a remote entry ====================

/// A price clamped into the storable range.
pub open spec fn clamp_price(v: int) -> int {
    if v < 0 {
        0
    } else if v > MAX_UNIT_PRICE_CENTS as int {
        MAX_UNIT_PRICE_CENTS as int
    } else {
        v
    }
}

/// The items without the one carrying `sku` (unchanged if none does).
pub open spec fn remove_item(items: Seq<ItemView>, sku: Seq<char>) -> Seq<ItemView> {
    if has_sku(items, sku) {
        items.remove(choose|i: int| 0 <= i < items.len() && #[trigger] items[i].sku == sku)
    } else {
        items
    }
}

/// The item a remote ITEM_CREATE inserts, under the fresh local id.
pub open spec fn created_item(t: RemoteTransactionView, new_id: Seq<char>) -> ItemView {
    ItemView {
        id: new_id,
        sku: t.item_sku->0,
        name: t.item_name->0,
        category: "Genel"@,
        quantity: clamp_qty(t.quantity_change),
        location: ""@,
        price: clamp_price(
            match t.new_value {
                Some(v) => v,
                None => 0,
            },
        ),
        cost_price: None,
        supplier_id: None,
        last_updated: t.transaction_time,
    }
}

/// The effect of one remote entry on the store: stock deltas clamp at zero
/// (and at the stock cap); price changes and renames set absolute values by
/// SKU; creation is guarded by SKU existence; deletion removes by SKU. An
/// entry naming no SKU, or a kind not listed, changes nothing.
pub open spec fn apply_remote(s: StoreView, t: RemoteTransactionView, new_id: Seq<char>) -> StoreView {
    if t.action_type == "SALE"@ || t.action_type == "STOCK_OUT"@ || t.action_type == "STOCK_IN"@ {
        match t.item_sku {
            Some(sku) => if has_sku(s.items, sku) {
                StoreView {
                    items: with_quantity(
                        s.items,
                        sku,
                        clamp_qty(item_at(s.items, sku).quantity + t.quantity_change),
                        t.transaction_time,
                    ),
                    ..s
                }
            } else {
                s
            },
            None => s,
        }
    } else if t.action_type == "PRICE_CHANGE"@ {
        match (t.item_sku, t.new_value) {
            (Some(sku), Some(p)) => StoreView {
                items: with_price(s.items, sku, clamp_price(p), t.transaction_time),
                ..s
            },
            _ => s,
        }
    } else if t.action_type == "ITEM_CREATE"@ {
        match (t.item_sku, t.item_name) {
            (Some(sku), Some(_)) => if has_sku(s.items, sku) {
                s
            } else {
                StoreView { items: s.items.push(created_item(t, new_id)), ..s }
            },
            _ => s,
        }
    } else if t.action_type == "ITEM_UPDATE"@ {
        match (t.item_sku, t.item_name) {
            (Some(sku), Some(name)) => StoreView {
                items: with_name(s.items, sku, name, t.transaction_time),
                ..s
            },
            _ => s,
        }
    } else if t.action_type == "ITEM_DELETE"@ {
        match t.item_sku {
            Some(sku) => StoreView { items: remove_item(s.items, sku), ..s },
            None => s,
        }
    } else {
        s
    }
}

/// A remote entry touches the items alone: every other part of the store
/// passes through unchanged.
pub proof fn lemma_apply_remote_seq_frame(
    s: StoreView,
    txns: Seq<RemoteTransactionView>,
    ids: Seq<Seq<char>>,
)
    ensures
        apply_remote_seq(s, txns, ids) == (StoreView {
            items: apply_remote_seq(s, txns, ids).items,
            ..s
        }),
    decreases txns.len(),
{
    if txns.len() > 0 {
        lemma_apply_remote_seq_frame(s, txns.drop_last(), ids.drop_last());
    }
}

/// Apply one remote entry to the local inventory. The specification's id
/// parameter is the fresh local id a created item receives; for every other
/// kind it is immaterial.
pub fn apply_remote_transaction(store: &mut Store, txn: &RemoteTransaction) -> (r: Result<
    (),
    AppError,
>)
    requires
        old(store)@.wf(),
    ensures
        final(store)@.wf(),
        r is Ok,
        exists|new_id: Seq<char>| final(store)@ == #[trigger] apply_remote(
            old(store)@,
            txn@,
            new_id,
        ),
{
    let ghost s0 = old(store)@;
    let at = txn.action_type.as_str();
    if str_eq(at, "SALE") || str_eq(at, "STOCK_OUT") || str_eq(at, "STOCK_IN") {
        match &txn.item_sku {
            Some(sku) => {
                let _ = store.update_quantity(
                    sku.as_str(),
                    txn.quantity_change,
                    txn.transaction_time,
                );
                proof {
                    assert(store@ == apply_remote(s0, txn@, ""@));
                }
            },
            None => {
                proof {
                    assert(store@ == apply_remote(s0, txn@, ""@));
                }
            },
        }
    } else if str_eq(at, "PRICE_CHANGE") {
        match (&txn.item_sku, txn.new_value) {
            (Some(sku), Some(new_price)) => {
                let p: i64 = if new_price < 0 {
                    0
                } else if new_price > MAX_UNIT_PRICE_CENTS {
                    MAX_UNIT_PRICE_CENTS
                } else {
                    new_price
                };
                store.set_price(sku.as_str(), p, txn.transaction_time);
                proof {
                    if has_sku(s0.items, sku@) {
                        assert(store@ == apply_remote(s0, txn@, ""@));
                    } else {
                        assert(with_price(
                            s0.items,
                            sku@,
                            clamp_price(new_price as int),
                            txn.transaction_time as int,
                        ) =~= s0.items);
                        assert(store@ == apply_remote(s0, txn@, ""@));
                    }
                }
            },
            _ => {
                proof {
                    assert(store@ == apply_remote(s0, txn@, ""@));
                }
            },
        }
    } else if str_eq(at, "ITEM_CREATE") {
        match (&txn.item_sku, &txn.item_name) {
            (Some(sku), Some(name)) => {
                if !store.check_sku_exists(sku.as_str()) {
                    let new_id = fresh_id();
                    let ghost idv = new_id@;
                    let q: i32 = if txn.quantity_change < 0 {
                        0
                    } else if txn.quantity_change > MAX_ITEM_QTY {
                        MAX_ITEM_QTY
                    } else {
                        txn.quantity_change
                    };
                    let p: i64 = match txn.new_value {
                        Some(v) => if v < 0 {
                            0
                        } else if v > MAX_UNIT_PRICE_CENTS {
                            MAX_UNIT_PRICE_CENTS
                        } else {
                            v
                        },
                        None => 0,
                    };
                    let item = InventoryItem {
                        id: new_id,
                        sku: sku.clone(),
                        name: name.clone(),
                        category: String::from_str("Genel"),
                        quantity: q,
                        location: String::from_str(""),
                        price: p,
                        cost_price: None,
                        supplier_id: None,
                        last_updated: txn.transaction_time,
                    };
                    let ghost pre = store@.items;
                    store.items.push(item);
                    proof {
                        assert(store@.items =~= pre.push(created_item(txn@, idv)));
                        assert(store@ =~= StoreView {
                            items: pre.push(created_item(txn@, idv)),
                            ..s0
                        });
                        assert(store@ == apply_remote(s0, txn@, idv));
                    }
                } else {
                    proof {
                        assert(store@ == apply_remote(s0, txn@, ""@));
                    }
                }
            },
            _ => {
                proof {
                    assert(store@ == apply_remote(s0, txn@, ""@));
                }
            },
        }
    } else if str_eq(at, "ITEM_UPDATE") {
        match (&txn.item_sku, &txn.item_name) {
            (Some(sku), Some(name)) => {
                store.set_name(sku.as_str(), name, txn.transaction_time);
                proof {
                    if has_sku(s0.items, sku@) {
                        assert(store@ == apply_remote(s0, txn@, ""@));
                    } else {
                        assert(with_name(s0.items, sku@, name@, txn.transaction_time as int)
                            =~= s0.items);
                        assert(store@ == apply_remote(s0, txn@, ""@));
                    }
                }
            },
            _ => {
                proof {
                    assert(store@ == apply_remote(s0, txn@, ""@));
                }
            },
        }
    } else if str_eq(at, "ITEM_DELETE") {
        match &txn.item_sku {
            Some(sku) => {
                let _ = store.delete_item(sku.as_str());
                proof {
                    if has_sku(s0.items, sku@) {
                        let i = choose|i: int|
                            0 <= i < s0.items.len() && s0.items[i].sku == sku@ && store@ == (
                            StoreView { items: s0.items.remove(i), ..s0 });
                        let j = choose|j: int|
                            0 <= j < s0.items.len() && #[trigger] s0.items[j].sku == sku@;
                        if i < j {
                            assert(s0.items[i].sku != s0.items[j].sku);
                        } else if j < i {
                            assert(s0.items[j].sku != s0.items[i].sku);
                        }
                        assert(store@ == apply_remote(s0, txn@, ""@));
                    } else {
                        assert(store@ == apply_remote(s0, txn@, ""@));
                    }
                }
            },
            None => {
                proof {
                    assert(store@ == apply_remote(s0, txn@, ""@));
                }
            },
        }
    } else {
        proof {
            assert(store@ == apply_remote(s0, txn@, ""@));
        }
    }
    Ok(())
}

// ==================== Laws ====================

/// Law: applying the same remote entry twice leaves the same inventory as
/// applying it once, for creations (guarded by SKU existence), price changes
/// and renames (absolute sets, not deltas) — whatever fresh ids the two
/// applications drew.
pub proof fn lemma_remote_apply_idempotent(
    s: StoreView,
    t: RemoteTransactionView,
    id1: Seq<char>,
    id2: Seq<char>,
)
    requires
        t.action_type == "ITEM_CREATE"@ || t.action_type == "PRICE_CHANGE"@ || t.action_type
            == "ITEM_UPDATE"@,
    ensures
        apply_remote(apply_remote(s, t, id1), t, id2) == apply_remote(s, t, id1),
{
    reveal_strlit("SALE");
    reveal_strlit("STOCK_OUT");
    reveal_strlit("STOCK_IN");
    reveal_strlit("PRICE_CHANGE");
    reveal_strlit("ITEM_CREATE");
    reveal_strlit("ITEM_UPDATE");
    reveal_strlit("ITEM_DELETE");
    assert("SALE"@.len() == 4);
    assert("STOCK_OUT"@.len() == 9);
    assert("STOCK_IN"@.len() == 8);
    assert("PRICE_CHANGE"@.len() == 12);
    assert("ITEM_CREATE"@.len() == 11);
    assert("ITEM_UPDATE"@.len() == 11);
    assert("ITEM_DELETE"@.len() == 11);
    assert("ITEM_CREATE"@[5] == 'C');
    assert("ITEM_UPDATE"@[5] == 'U');
    assert("ITEM_DELETE"@[5] == 'D');
    let once = apply_remote(s, t, id1);
    if t.action_type == "ITEM_CREATE"@ {
        match (t.item_sku, t.item_name) {
            (Some(sku), Some(_)) => {
                if has_sku(s.items, sku) {
                    assert(once == s);
                } else {
                    assert(once.items == s.items.push(created_item(t, id1)));
                    assert(once.items[s.items.len() as int].sku == sku);
                    assert(has_sku(once.items, sku));
                    assert(apply_remote(once, t, id2) == once);
                }
            },
            _ => {
                assert(once == s);
            },
        }
    } else if t.action_type == "PRICE_CHANGE"@ {
        match (t.item_sku, t.new_value) {
            (Some(sku), Some(p)) => {
                let v1 = with_price(s.items, sku, clamp_price(p), t.transaction_time);
                let v2 = with_price(v1, sku, clamp_price(p), t.transaction_time);
                assert forall|i: int| 0 <= i < v1.len() implies v2[i] == v1[i] by {
                    assert(v1[i].sku == s.items[i].sku);
                }
                assert(v2 =~= v1);
                assert(apply_remote(once, t, id2) =~= once);
            },
            _ => {
                assert(once == s);
            },
        }
    } else {
        match (t.item_sku, t.item_name) {
            (Some(sku), Some(name)) => {
                let v1 = with_name(s.items, sku, name, t.transaction_time);
                let v2 = with_name(v1, sku, name, t.transaction_time);
                assert forall|i: int| 0 <= i < v1.len() implies v2[i] == v1[i] by {
                    assert(v1[i].sku == s.items[i].sku);
                }
                assert(v2 =~= v1);
                assert(apply_remote(once, t, id2) =~= once);
            },
            _ => {
                assert(once == s);
            },
        }
    }
}

// ==================== Push ====================

/// The batch a push cycle sends: the first hundred pending outbox records,
/// oldest first.
pub fn prepare_push(store: &Store) -> (r: Vec<SyncTransaction>)
    ensures
        r@.map_values(|t: SyncTransaction| t@) == pending_take(store@.outbox, 100),
{
    match get_pending_transactions(store, 100) {
        Ok(batch) => batch,
        Err(_) => Vec::new(),
    }
}

/// Commit or discard a push according to the relay's answer. On success the
/// whole sent batch is flagged synced — the relay deduplicates by record id —
/// and the push cursor advances; on failure everything stays pending for the
/// next cycle, and the relay's error is surfaced.
pub fn handle_push_response(
    store: &mut Store,
    batch: &Vec<SyncTransaction>,
    response: &PushResponse,
    now: u64,
) -> (r: Result<i32, AppError>)
    requires
        old(store)@.wf(),
        batch@.len() <= 100,
    ensures
        final(store)@.wf(),
        r is Ok <==> response.success,
        response.success ==> final(store)@ == (StoreView {
            outbox: marked_synced(
                old(store)@.outbox,
                batch@.map_values(|t: SyncTransaction| t@.id),
            ),
            cursor: (CursorView {
                last_push_at: Some(now as int),
                last_pull_at: old(store)@.cursor.last_pull_at,
                sync_in_progress: false,
            }),
            ..old(store)@
        }),
        response.success ==> (r matches Ok(n) && n as int == (match response.inserted {
            Some(v) => v as int,
            None => batch@.len() as int,
        })),
        !response.success ==> final(store)@ == old(store)@ && (r matches Err(e)
            && e matches AppError::Internal(m) && m@ == (match response.error {
            Some(err) => err@,
            None => "Push basarisiz"@,
        })),
{
    if response.success {
        let mut ids: Vec<String> = Vec::new();
        let mut i: usize = 0;
        while i < batch.len()
            invariant
                i <= batch@.len(),
                ids@.len() == i,
                forall|j: int| 0 <= j < i ==> ids@[j]@ == batch@[j]@.id,
            decreases batch@.len() - i,
        {
            ids.push(batch[i].id.clone());
            i += 1;
        }
        proof {
            assert(ids@.map_values(|s: String| s@) =~= batch@.map_values(
                |t: SyncTransaction| t@.id,
            ));
        }
        let _ = mark_as_synced(store, &ids);
        store.cursor.last_push_at = Some(now);
        store.cursor.sync_in_progress = false;
        proof {
            assert(store@ =~= StoreView {
                outbox: marked_synced(
                    old(store)@.outbox,
                    batch@.map_values(|t: SyncTransaction| t@.id),
                ),
                cursor: (CursorView {
                    last_push_at: Some(now as int),
                    last_pull_at: old(store)@.cursor.last_pull_at,
                    sync_in_progress: false,
                }),
                ..old(store)@
            });
        }
        match response.inserted {
            Some(n) => Ok(n),
            None => Ok(batch.len() as i32),
        }
    } else {
        match &response.error {
            Some(e) => Err(AppError::Internal(e.clone())),
            None => Err(AppError::Internal(String::from_str("Push basarisiz"))),
        }
    }
}

// ==================== Pull ====================

/// The store after a pulled batch, applied in order; `ids` are the fresh
/// local ids drawn for created items, one per entry.
pub open spec fn apply_remote_seq(
    s: StoreView,
    txns: Seq<RemoteTransactionView>,
    ids: Seq<Seq<char>>,
) -> StoreView
    decreases txns.len(),
{
    if txns.len() == 0 {
        s
    } else {
        apply_remote(
            apply_remote_seq(s, txns.drop_last(), ids.drop_last()),
            txns.last(),
            ids.last(),
        )
    }
}

/// The remote entries a pull answer carries, as views.
pub open spec fn pulled_transactions(r: &PullResponse) -> Seq<RemoteTransactionView> {
    match r.transactions {
        Some(ts) => ts@.map_values(|t: RemoteTransaction| t@),
        None => Seq::empty(),
    }
}

/// The pull request for this device: the cursor is sent as-is, absent on the
/// first run.
pub fn prepare_pull(store: &Store, device_identifier: String) -> (r: PullRequest)
    ensures
        r.device_identifier@ == device_identifier@,
        r.since == store.cursor.last_pull_at,
{
    PullRequest { device_identifier, since: store.cursor.last_pull_at }
}

/// Apply the relay's answer to a pull. On success every returned entry is
/// applied, in order, and only then does the pull cursor advance; on failure
/// nothing changes and the relay's error is surfaced.
pub fn handle_pull_response(store: &mut Store, response: &PullResponse, now: u64) -> (r: Result<
    u64,
    AppError,
>)
    requires
        old(store)@.wf(),
    ensures
        final(store)@.wf(),
        r is Ok <==> response.success,
        response.success ==> (exists|ids: Seq<Seq<char>>|
            final(store)@ == (StoreView {
                cursor: (CursorView {
                    last_push_at: old(store)@.cursor.last_push_at,
                    last_pull_at: Some(now as int),
                    sync_in_progress: false,
                }),
                ..#[trigger] apply_remote_seq(old(store)@, pulled_transactions(response), ids)
            })),
        response.success ==> (r matches Ok(n) && n as int == (match response.transactions {
            Some(ts) => ts@.len() as int,
            None => 0int,
        })),
        !response.success ==> final(store)@ == old(store)@ && (r matches Err(e)
            && e matches AppError::Internal(m) && m@ == (match response.error {
            Some(err) => err@,
            None => "Pull basarisiz"@,
        })),
{
    if response.success {
        let ghost s0 = old(store)@;
        let mut count: u64 = 0;
        match &response.transactions {
            Some(ts) => {
                let ghost tviews = ts@.map_values(|t: RemoteTransaction| t@);
                let ghost mut ids: Seq<Seq<char>> = Seq::empty();
                let mut k: usize = 0;
                proof {
                    assert(tviews.take(0) =~= Seq::<RemoteTransactionView>::empty());
                    assert(apply_remote_seq(s0, tviews.take(0), ids) == s0);
                }
                while k < ts.len()
                    invariant
                        old(store)@ == s0,
                        k <= ts@.len(),
                        tviews == ts@.map_values(|t: RemoteTransaction| t@),
                        ids.len() == k,
                        store@.wf(),
                        store@ == apply_remote_seq(s0, tviews.take(k as int), ids),
                    decreases ts@.len() - k,
                {
                    let ghost pre = store@;
                    let ghost ids_pre = ids;
                    let _ = apply_remote_transaction(store, &ts[k]);
                    proof {
                        let nid = choose|nid: Seq<char>|
                            store@ == #[trigger] apply_remote(pre, ts@[k as int]@, nid);
                        ids = ids_pre.push(nid);
                        assert(ids.drop_last() =~= ids_pre);
                        assert(ids.last() == nid);
                        assert(tviews.take(k + 1).drop_last() =~= tviews.take(k as int));
                        assert(tviews.take(k + 1).last() == tviews[k as int]);
                        assert(tviews[k as int] == ts@[k as int]@);
                        assert(apply_remote_seq(s0, tviews.take(k + 1), ids) == apply_remote(
                            apply_remote_seq(s0, tviews.take(k as int), ids_pre),
                            tviews[k as int],
                            nid,
                        ));
                        assert(store@ == apply_remote_seq(s0, tviews.take(k + 1), ids));
                    }
                    k += 1;
                }
                count = ts.len() as u64;
                proof {
                    assert(tviews.take(ts@.len() as int) =~= tviews);
                    lemma_apply_remote_seq_frame(s0, tviews.take(ts@.len() as int), ids);
                    assert(store@.cursor == s0.cursor);
                }
                let ghost cur_pre = store.cursor;
                store.cursor.last_pull_at = Some(now);
                store.cursor.sync_in_progress = false;
                proof {
                    assert(store.cursor.last_push_at == cur_pre.last_push_at);
                    assert(store@.cursor.last_push_at == crate::models::opt_time(
                        cur_pre.last_push_at,
                    ));
                    assert(pulled_transactions(response) == tviews);
                    assert(apply_remote_seq(s0, tviews.take(ts@.len() as int), ids)
                        == apply_remote_seq(s0, pulled_transactions(response), ids));
                    assert(store@ =~~= StoreView {
                        cursor: (CursorView {
                            last_push_at: s0.cursor.last_push_at,
                            last_pull_at: Some(now as int),
                            sync_in_progress: false,
                        }),
                        ..apply_remote_seq(s0, pulled_transactions(response), ids)
                    });
                }
            },
            None => {
                store.cursor.last_pull_at = Some(now);
                store.cursor.sync_in_progress = false;
                proof {
                    let ids: Seq<Seq<char>> = Seq::empty();
                    assert(pulled_transactions(response) =~= Seq::<
                        RemoteTransactionView,
                    >::empty());
                    assert(apply_remote_seq(s0, pulled_transactions(response), ids) == s0);
                    assert(store@ =~= StoreView {
                        cursor: (CursorView {
                            last_push_at: s0.cursor.last_push_at,
                            last_pull_at: Some(now as int),
                            sync_in_progress: false,
                        }),
                        ..apply_remote_seq(s0, pulled_transactions(response), ids)
                    });
                }
            },
        }
        Ok(count)
    } else {
        match &response.error {
            Some(e) => Err(AppError::Internal(e.clone())),
            None => Err(AppError::Internal(String::from_str("Pull basarisiz"))),
        }
    }
}

// ==================== Heartbeat ====================

/// The observational heartbeat: device identity, display name, and how many
/// outbox entries still await replication. Its delivery carries no
/// correctness obligation.
pub fn prepare_heartbeat(store: &Store, device_identifier: String, device_name: String) -> (r:
    HeartbeatRequest)
    ensures
        r.device_identifier@ == device_identifier@,
        r.device_name@ == device_name@,
        r.pending_count as int == pending_count(store@.outbox),
{
    let pending = get_pending_count(store);
    HeartbeatRequest { device_identifier, device_name, pending_count: pending }
}

} // verus!

