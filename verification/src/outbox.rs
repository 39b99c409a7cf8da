//! The sync outbox: an append-only queue of local mutations awaiting
//! replication. Entries are flagged `synced` once the relay has confirmed a
//! batch; the flag never goes back, and entries are never deleted.

use vstd::prelude::*;

use crate::chars::str_eq;
use crate::error::AppError;
use crate::ids::fresh_id;
use crate::models::opt_int;
use crate::models::opt_str_view;
use crate::models::OutboxEntryView;
use crate::models::SyncOutboxEntry;
use crate::models::SyncState;
use crate::models::SyncTransaction;
use crate::models::SyncTransactionView;
use crate::store::Store;
use crate::store::StoreView;

verus! {

// ==================== Action types ====================

/// The kinds of mutation the outbox replicates.
#[allow(non_camel_case_types)]
#[derive(Debug, Clone, PartialEq, Eq, Structural)]
pub enum ActionType {
    SALE,
    STOCK_IN,
    STOCK_OUT,
    PRICE_CHANGE,
    ITEM_CREATE,
    ITEM_UPDATE,
    ITEM_DELETE,
}

/// The wire name of each action kind.
pub open spec fn action_name(a: ActionType) -> Seq<char> {
    match a {
        ActionType::SALE => "SALE"@,
        ActionType::STOCK_IN => "STOCK_IN"@,
        ActionType::STOCK_OUT => "STOCK_OUT"@,
        ActionType::PRICE_CHANGE => "PRICE_CHANGE"@,
        ActionType::ITEM_CREATE => "ITEM_CREATE"@,
        ActionType::ITEM_UPDATE => "ITEM_UPDATE"@,
        ActionType::ITEM_DELETE => "ITEM_DELETE"@,
    }
}

impl ActionType {
    /// Render the action kind as its wire name.
    pub fn to_string(&self) -> (r: String)
        ensures
            r@ == action_name(*self),
    {
        match self {
            ActionType::SALE => String::from_str("SALE"),
            ActionType::STOCK_IN => String::from_str("STOCK_IN"),
            ActionType::STOCK_OUT => String::from_str("STOCK_OUT"),
            ActionType::PRICE_CHANGE => String::from_str("PRICE_CHANGE"),
            ActionType::ITEM_CREATE => String::from_str("ITEM_CREATE"),
            ActionType::ITEM_UPDATE => String::from_str("ITEM_UPDATE"),
            ActionType::ITEM_DELETE => String::from_str("ITEM_DELETE"),
        }
    }
}

// ==================== Spec helpers ====================

/// Some outbox entry carries this record id.
pub open spec fn outbox_has_id(outbox: Seq<OutboxEntryView>, id: Seq<char>) -> bool {
    exists|i: int| 0 <= i < outbox.len() && #[trigger] outbox[i].txn.id == id
}

/// How many entries still await replication.
pub open spec fn pending_count(outbox: Seq<OutboxEntryView>) -> int
    decreases outbox.len(),
{
    if outbox.len() == 0 {
        0int
    } else {
        (if outbox[0].synced {
            0int
        } else {
            1int
        }) + pending_count(outbox.drop_first())
    }
}

/// The first `limit` pending records, in outbox (time) order.
pub open spec fn pending_take(outbox: Seq<OutboxEntryView>, limit: int) -> Seq<SyncTransactionView>
    decreases outbox.len(),
{
    if outbox.len() == 0 || limit <= 0 {
        Seq::empty()
    } else if !outbox[0].synced {
        seq![outbox[0].txn] + pending_take(outbox.drop_first(), limit - 1)
    } else {
        pending_take(outbox.drop_first(), limit)
    }
}

/// Whether `id` is among `ids`.
pub open spec fn ids_contain(ids: Seq<Seq<char>>, id: Seq<char>) -> bool {
    exists|j: int| 0 <= j < ids.len() && ids[j] == id
}

/// The outbox with every entry whose id is listed flagged `synced`.
pub open spec fn marked_synced(outbox: Seq<OutboxEntryView>, ids: Seq<Seq<char>>) -> Seq<
    OutboxEntryView,
> {
    Seq::new(
        outbox.len(),
        |i: int|
            if ids_contain(ids, outbox[i].txn.id) {
                OutboxEntryView { synced: true, ..outbox[i] }
            } else {
                outbox[i]
            },
    )
}

/// Law: flagging entries synced is monotone — an entry once synced stays
/// synced, whatever batch is committed.
pub proof fn lemma_synced_monotone(outbox: Seq<OutboxEntryView>, ids: Seq<Seq<char>>, i: int)
    requires
        0 <= i < outbox.len(),
        outbox[i].synced,
    ensures
        marked_synced(outbox, ids)[i].synced,
{
}

/// The new entry stands at the position that keeps the outbox sorted by
/// time: after every entry stamped no later, before every entry stamped
/// later; nothing else changes.
pub open spec fn queue_inserted(
    pre: StoreView,
    post: StoreView,
    e: OutboxEntryView,
    now: int,
) -> bool {
    exists|p: int|
        0 <= p <= pre.outbox.len() && (forall|j: int|
            0 <= j < p ==> (#[trigger] pre.outbox[j]).txn.transaction_time <= now) && (forall|
        j: int,
    |
            p <= j < pre.outbox.len() ==> (#[trigger] pre.outbox[j]).txn.transaction_time > now)
            && post == (StoreView { outbox: #[trigger] pre.outbox.insert(p, e), ..pre })
}

/// The record ids of a batch.
pub open spec fn batch_ids(batch: Seq<SyncTransactionView>) -> Seq<Seq<char>> {
    batch.map_values(|t: SyncTransactionView| t.id)
}

/// Law: committing a pushed batch — flagging the first `limit` pending
/// records synced — lowers the pending count by exactly the batch size.
pub proof fn lemma_push_commit_pending_count(outbox: Seq<OutboxEntryView>, limit: int)
    requires
        forall|i: int, j: int| 0 <= i < j < outbox.len() ==> outbox[i].txn.id != outbox[j].txn.id,
    ensures
        pending_count(marked_synced(outbox, batch_ids(pending_take(outbox, limit))))
            == pending_count(outbox) - pending_take(outbox, limit).len(),
    decreases outbox.len(),
{
    let batch = pending_take(outbox, limit);
    let ids = batch_ids(batch);
    let m = marked_synced(outbox, ids);
    if outbox.len() == 0 {
        assert(m =~= outbox);
    } else if limit <= 0 {
        assert(batch =~= Seq::<SyncTransactionView>::empty());
        assert(forall|i: int| 0 <= i < outbox.len() ==> !ids_contain(ids, outbox[i].txn.id));
        assert(m =~= outbox);
    } else {
        let e0 = outbox[0];
        let rest = outbox.drop_first();
        assert(forall|i: int, j: int|
            #![trigger rest[i], rest[j]]
            0 <= i < j < rest.len() ==> rest[i].txn.id != rest[j].txn.id);
        assert(forall|j: int| 0 <= j < rest.len() ==> (#[trigger] rest[j]).txn.id != e0.txn.id);
        if e0.synced {
            assert(batch == pending_take(rest, limit));
            lemma_push_commit_pending_count(rest, limit);
            assert(m[0].synced);
            assert(m.drop_first() =~= marked_synced(rest, ids));
            assert(pending_count(m) == pending_count(m.drop_first()));
            assert(pending_count(outbox) == pending_count(rest));
        } else {
            let tail_batch = pending_take(rest, limit - 1);
            let tail_ids = batch_ids(tail_batch);
            assert(batch == seq![e0.txn] + tail_batch);
            assert(ids =~= seq![e0.txn.id] + tail_ids);
            assert(ids[0] == e0.txn.id);
            assert(ids_contain(ids, e0.txn.id));
            assert(m[0].synced);
            assert(m.drop_first() =~= marked_synced(rest, ids));
            // ids differs from tail_ids only by the head entry's id, which
            // occurs nowhere in the rest of the outbox
            assert forall|x: Seq<char>| x != e0.txn.id implies (ids_contain(ids, x)
                == ids_contain(tail_ids, x)) by {
                assert(forall|j: int| 0 <= j < tail_ids.len() ==> ids[j + 1] == tail_ids[j]);
                if ids_contain(ids, x) {
                    let j = choose|j: int| 0 <= j < ids.len() && ids[j] == x;
                    assert(j != 0);
                    assert(tail_ids[j - 1] == x);
                }
                if ids_contain(tail_ids, x) {
                    let j = choose|j: int| 0 <= j < tail_ids.len() && tail_ids[j] == x;
                    assert(ids[j + 1] == x);
                }
            }
            assert(marked_synced(rest, ids) =~= marked_synced(rest, tail_ids));
            lemma_push_commit_pending_count(rest, limit - 1);
            assert(pending_count(m) == pending_count(marked_synced(rest, tail_ids)));
            assert(pending_count(outbox) == 1 + pending_count(rest));
            assert(batch.len() == 1 + tail_batch.len());
        }
    }
}

// ==================== Executable operations ====================

/// Append a mutation record to the outbox, stamped `now` and pending. The
/// returned id is freshly generated; a collision with an existing row is
/// refused, as the storage layer's primary key would refuse it.
#[verifier::loop_isolation(false)]
pub fn queue_transaction(
    store: &mut Store,
    action_type: ActionType,
    item_sku: Option<&str>,
    item_name: Option<&str>,
    quantity_change: i32,
    old_value: Option<i64>,
    new_value: Option<i64>,
    metadata: Option<&str>,
    now: u64,
) -> (r: Result<String, AppError>)
    requires
        old(store)@.wf(),
    ensures
        final(store)@.wf(),
        r is Err ==> final(store)@ == old(store)@,
        r matches Err(e) ==> e matches AppError::Internal(_),
        (forall|j: int|
            0 <= j < old(store)@.outbox.len() ==> (#[trigger] old(store)@.outbox[j]).txn.id.len()
                != 36) ==> r is Ok,
        r matches Ok(id) ==> !outbox_has_id(old(store)@.outbox, id@) && queue_inserted(
            old(store)@,
            final(store)@,
            (OutboxEntryView {
                txn: SyncTransactionView {
                    id: id@,
                    action_type: action_name(action_type),
                    item_sku: opt_str_view(item_sku),
                    item_name: opt_str_view(item_name),
                    quantity_change: quantity_change as int,
                    old_value: opt_int(old_value),
                    new_value: opt_int(new_value),
                    metadata: opt_str_view(metadata),
                    transaction_time: now as int,
                },
                synced: false,
            }),
            now as int,
        ),
{
    let id = fresh_id();
    // refuse an id collision, as the unique key in storage would
    let mut c: usize = 0;
    while c < store.outbox.len()
        invariant
            store@.wf(),
            store@ == old(store)@,
            c <= store@.outbox.len(),
            forall|j: int| 0 <= j < c ==> (#[trigger] store@.outbox[j]).txn.id != id@,
        decreases store@.outbox.len() - c,
    {
        if str_eq(store.outbox[c].txn.id.as_str(), id.as_str()) {
            proof {
                // the collision witness has the fresh id's 36-character length
                assert((#[trigger] store@.outbox[c as int]).txn.id.len() == 36);
            }
            return Err(AppError::Internal(String::from_str("Ayni kimlikle kayit zaten var")));
        }
        c += 1;
    }
    // find the insertion point that keeps the outbox sorted by time
    let mut p: usize = 0;
    while p < store.outbox.len() && store.outbox[p].txn.transaction_time <= now
        invariant
            store@ == old(store)@,
            p <= store@.outbox.len(),
            forall|j: int|
                0 <= j < p ==> (#[trigger] store@.outbox[j]).txn.transaction_time <= now as int,
        decreases store@.outbox.len() - p,
    {
        p += 1;
    }
    proof {
        let pre = store@.outbox;
        assert forall|j: int|
            p <= j < pre.len() implies (#[trigger] pre[j]).txn.transaction_time > now as int by {
            if j > p {
                assert(pre[p as int].txn.transaction_time <= pre[j].txn.transaction_time);
            }
        }
    }
    let entry = SyncOutboxEntry {
        txn: SyncTransaction {
            id: id.clone(),
            action_type: action_type.to_string(),
            item_sku: match item_sku {
                Some(s) => Some(s.to_owned()),
                None => None,
            },
            item_name: match item_name {
                Some(s) => Some(s.to_owned()),
                None => None,
            },
            quantity_change,
            old_value,
            new_value,
            metadata: match metadata {
                Some(s) => Some(s.to_owned()),
                None => None,
            },
            transaction_time: now,
        },
        synced: false,
    };
    let ghost pre = store@.outbox;
    let ghost eview = entry@;
    store.outbox.insert(p, entry);
    proof {
        assert(store@.outbox =~= pre.insert(p as int, eview));
        assert(store@ =~= StoreView { outbox: pre.insert(p as int, eview), ..old(store)@ });
        let post = pre.insert(p as int, eview);
        assert(forall|i: int, j: int|
            0 <= i < j < pre.len() ==> pre[i].txn.id != pre[j].txn.id);
        assert(forall|i: int, j: int|
            #![trigger pre[i], pre[j]]
            0 <= i < j < pre.len() ==> pre[i].txn.transaction_time
                <= pre[j].txn.transaction_time);
        assert(forall|j: int|
            0 <= j < p ==> (#[trigger] pre[j]).txn.transaction_time <= now as int);
        assert forall|j: int|
            p <= j < pre.len() implies (#[trigger] pre[j]).txn.transaction_time
            > now as int by {
            if j > p as int {
                assert(pre[p as int].txn.transaction_time <= pre[j].txn.transaction_time);
            }
        }
        assert forall|i: int, j: int| 0 <= i < j < post.len() implies post[i].txn.id
            != post[j].txn.id by {
            if i < p as int {
                assert(post[i] == pre[i]);
            } else if i == p as int {
                assert(post[i] == eview);
            } else {
                assert(post[i] == pre[i - 1]);
            }
            if j < p as int {
                assert(post[j] == pre[j]);
            } else if j == p as int {
                assert(post[j] == eview);
            } else {
                assert(post[j] == pre[j - 1]);
            }
        }
        assert forall|i: int, j: int| 0 <= i < j < post.len() implies post[i].txn.transaction_time
            <= post[j].txn.transaction_time by {
            if i < p as int {
                assert(post[i] == pre[i]);
            } else if i == p as int {
                assert(post[i] == eview);
            } else {
                assert(post[i] == pre[i - 1]);
            }
            if j < p as int {
                assert(post[j] == pre[j]);
            } else if j == p as int {
                assert(post[j] == eview);
            } else {
                assert(post[j] == pre[j - 1]);
            }
        }
    }
    Ok(id)
}

/// The first `limit` pending records, oldest first, copied out.
pub fn get_pending_transactions(store: &Store, limit: i32) -> (r: Result<
    Vec<SyncTransaction>,
    AppError,
>)
    ensures
        r matches Ok(v) ==> v@.map_values(|t: SyncTransaction| t@) == pending_take(
            store@.outbox,
            limit as int,
        ),
        r is Ok,
{
    let ghost outbox0 = store@.outbox;
    proof {
        assert(outbox0.skip(0) =~= outbox0);
    }
    let mut out: Vec<SyncTransaction> = Vec::new();
    let mut remaining: i32 = if limit < 0 {
        0
    } else {
        limit
    };
    proof {
        if limit < 0 {
            assert(pending_take(outbox0, limit as int) =~= Seq::<SyncTransactionView>::empty());
        }
    }
    let mut k: usize = 0;
    while k < store.outbox.len() && remaining > 0
        invariant
            0 <= remaining,
            k <= store@.outbox.len(),
            outbox0 == store@.outbox,
            pending_take(outbox0, limit as int) =~= out@.map_values(|t: SyncTransaction| t@)
                + pending_take(outbox0.skip(k as int), remaining as int),
        decreases store@.outbox.len() - k,
    {
        let ghost suffix = outbox0.skip(k as int);
        proof {
            assert(suffix[0] == outbox0[k as int]);
            assert(suffix.drop_first() =~= outbox0.skip(k as int + 1));
        }
        let ghost out_pre = out@;
        if !store.outbox[k].synced {
            out.push(store.outbox[k].txn.duplicate());
            remaining -= 1;
            proof {
                assert(out@.map_values(|t: SyncTransaction| t@) =~= out_pre.map_values(
                    |t: SyncTransaction| t@,
                ) + seq![outbox0[k as int].txn]);
            }
        }
        k += 1;
    }
    proof {
        if remaining == 0 {
            assert(pending_take(outbox0.skip(k as int), 0) =~= Seq::<SyncTransactionView>::empty());
        } else {
            assert(outbox0.skip(k as int).len() == 0);
            assert(pending_take(outbox0.skip(k as int), remaining as int) =~= Seq::<
                SyncTransactionView,
            >::empty());
        }
        assert(pending_take(outbox0, limit as int) =~= out@.map_values(|t: SyncTransaction| t@));
    }
    Ok(out)
}

/// Whether any of `ids` equals `id`.
fn contains_id(ids: &Vec<String>, id: &str) -> (r: bool)
    ensures
        r == ids_contain(ids@.map_values(|s: String| s@), id@),
{
    let ghost idviews = ids@.map_values(|s: String| s@);
    let mut j: usize = 0;
    while j < ids.len()
        invariant
            j <= ids@.len(),
            idviews == ids@.map_values(|s: String| s@),
            forall|t: int| 0 <= t < j ==> idviews[t] != id@,
        decreases ids@.len() - j,
    {
        if str_eq(ids[j].as_str(), id) {
            proof {
                assert(idviews[j as int] == id@);
            }
            return true;
        }
        j += 1;
    }
    false
}

/// Flag every outbox entry whose id is listed as synced. Entries move only
/// from pending to synced; nothing else changes.
#[verifier::loop_isolation(false)]
pub fn mark_as_synced(store: &mut Store, ids: &Vec<String>) -> (r: Result<(), AppError>)
    requires
        old(store)@.wf(),
    ensures
        final(store)@.wf(),
        r is Ok,
        final(store)@ == (StoreView {
            outbox: marked_synced(old(store)@.outbox, ids@.map_values(|s: String| s@)),
            ..old(store)@
        }),
{
    let ghost outbox0 = old(store)@.outbox;
    let ghost idviews = ids@.map_values(|s: String| s@);
    let mut k: usize = 0;
    while k < store.outbox.len()
        invariant
            store@.wf(),
            k <= store@.outbox.len(),
            store@.outbox.len() == outbox0.len(),
            idviews == ids@.map_values(|s: String| s@),
            forall|j: int|
                0 <= j < k ==> store@.outbox[j] == marked_synced(outbox0, idviews)[j],
            forall|j: int| k <= j < outbox0.len() ==> store@.outbox[j] == outbox0[j],
            store@ == (StoreView { outbox: store@.outbox, ..old(store)@ }),
        decreases store@.outbox.len() - k,
    {
        let ghost pre = store@.outbox;
        if contains_id(ids, store.outbox[k].txn.id.as_str()) {
            let patched = SyncOutboxEntry { txn: store.outbox[k].txn.duplicate(), synced: true };
            store.outbox[k] = patched;
            proof {
                assert(store@.outbox =~= pre.update(
                    k as int,
                    OutboxEntryView { synced: true, ..outbox0[k as int] },
                ));
                assert(store@ =~= StoreView { outbox: store@.outbox, ..old(store)@ });
                assert(forall|j: int|
                    0 <= j < store@.outbox.len() ==> (#[trigger] store@.outbox[j]).txn
                        == pre[j].txn);
                assert(forall|i: int, j: int|
                    0 <= i < j < pre.len() ==> pre[i].txn.id != pre[j].txn.id);
                assert(forall|i: int, j: int|
                    #![trigger pre[i], pre[j]]
                    0 <= i < j < pre.len() ==> pre[i].txn.transaction_time
                        <= pre[j].txn.transaction_time);
                assert forall|i: int, j: int|
                    0 <= i < j < store@.outbox.len() implies store@.outbox[i].txn.id
                    != store@.outbox[j].txn.id by {
                    assert(store@.outbox[i].txn == pre[i].txn);
                    assert(store@.outbox[j].txn == pre[j].txn);
                }
                assert forall|i: int, j: int|
                    #![trigger store@.outbox[i], store@.outbox[j]]
                    0 <= i < j < store@.outbox.len() implies store@.outbox[i].txn.transaction_time
                    <= store@.outbox[j].txn.transaction_time by {
                    assert(store@.outbox[i].txn == pre[i].txn);
                    assert(store@.outbox[j].txn == pre[j].txn);
                }
            }
        }
        k += 1;
    }
    proof {
        assert(store@.outbox =~= marked_synced(outbox0, idviews));
        assert(store@ =~= StoreView {
            outbox: marked_synced(outbox0, idviews),
            ..old(store)@
        });
    }
    Ok(())
}

/// How many outbox entries still await replication.
pub fn get_pending_count(store: &Store) -> (r: u64)
    ensures
        r as int == pending_count(store@.outbox),
{
    let ghost outbox0 = store@.outbox;
    proof {
        assert(outbox0.skip(0) =~= outbox0);
        lemma_pending_count_bounds(outbox0);
    }
    let mut count: u64 = 0;
    let mut k: usize = 0;
    while k < store.outbox.len()
        invariant
            k <= store@.outbox.len(),
            outbox0 == store@.outbox,
            count as int + pending_count(outbox0.skip(k as int)) == pending_count(outbox0),
            count <= k,
        decreases store@.outbox.len() - k,
    {
        proof {
            let suffix = outbox0.skip(k as int);
            assert(suffix[0] == outbox0[k as int]);
            assert(suffix.drop_first() =~= outbox0.skip(k as int + 1));
            lemma_pending_count_bounds(outbox0.skip(k as int + 1));
        }
        if !store.outbox[k].synced {
            count += 1;
        }
        k += 1;
    }
    proof {
        assert(outbox0.skip(outbox0.len() as int).len() == 0);
    }
    count
}

/// The pending count is between zero and the outbox length.
pub proof fn lemma_pending_count_bounds(outbox: Seq<OutboxEntryView>)
    ensures
        0 <= pending_count(outbox) <= outbox.len(),
    decreases outbox.len(),
{
    if outbox.len() > 0 {
        lemma_pending_count_bounds(outbox.drop_first());
    }
}

/// The replication cursor together with the pending count.
pub fn get_sync_state(store: &Store) -> (r: SyncState)
    ensures
        r.last_push_at == store.cursor.last_push_at,
        r.last_pull_at == store.cursor.last_pull_at,
        r.sync_in_progress == store.cursor.sync_in_progress,
        r.pending_count as int == pending_count(store@.outbox),
{
    SyncState {
        last_push_at: store.cursor.last_push_at,
        last_pull_at: store.cursor.last_pull_at,
        sync_in_progress: store.cursor.sync_in_progress,
        pending_count: get_pending_count(store),
    }
}

} // verus!
