//! The in-memory store of the core: the entities of the data model, their
//! invariants, and the elementary reads and writes the processors build on.
//!
//! The surrounding application mirrors this state into its durable storage;
//! every rule about how the state may change is stated and proved here.

use vstd::prelude::*;

use crate::chars::str_eq;
use crate::error::AppError;
use crate::models::AccountView;
use crate::models::Category;
use crate::models::CategoryView;
use crate::models::CurrentAccount;
use crate::models::FinanceRecord;
use crate::models::FinanceRecordView;
use crate::models::InventoryItem;
use crate::models::InventoryLot;
use crate::models::ItemView;
use crate::models::LotView;
use crate::models::OutboxEntryView;
use crate::models::StockCard;
use crate::models::StockCardView;
use crate::models::SyncCursor;
use crate::models::CreateCategoryRequest;
use crate::models::opt_view;
use crate::models::CursorView;
use crate::models::TransactionUpdate;
use crate::models::CategoryStats;
use crate::models::DashboardStats;
use crate::models::SyncOutboxEntry;
use crate::models::Transaction;
use crate::models::TransactionView;
use crate::validation::validate_price;
use crate::validation::validate_quantity;
use crate::validation::validate_sku;
use crate::validation::MAX_ITEM_QTY;
use crate::validation::MAX_UNIT_PRICE_CENTS;
use crate::validation::BALANCE_LIMIT_CENTS;

verus! {

// ==================== Spec helpers ====================

/// No two items share a SKU.
pub open spec fn skus_unique(items: Seq<ItemView>) -> bool {
    forall|i: int, j: int| 0 <= i < j < items.len() ==> items[i].sku != items[j].sku
}

/// Some item carries this SKU.
pub open spec fn has_sku(items: Seq<ItemView>, sku: Seq<char>) -> bool {
    exists|i: int| 0 <= i < items.len() && #[trigger] items[i].sku == sku
}

/// The item carrying this SKU (meaningful under `skus_unique`).
pub open spec fn item_at(items: Seq<ItemView>, sku: Seq<char>) -> ItemView
    recommends
        has_sku(items, sku),
{
    items[choose|i: int| 0 <= i < items.len() && #[trigger] items[i].sku == sku]
}

/// An item within the store's bounds.
pub open spec fn item_bounded(item: ItemView) -> bool {
    &&& 0 <= item.quantity <= MAX_ITEM_QTY as int
    &&& 0 <= item.price <= MAX_UNIT_PRICE_CENTS as int
}

/// A lot within its own invariant: consumption never drives `quantity`
/// below zero nor above what was received.
pub open spec fn lot_bounded(lot: LotView) -> bool {
    &&& 0 <= lot.quantity <= lot.initial_quantity <= MAX_ITEM_QTY as int
    &&& 0 <= lot.buy_price <= MAX_UNIT_PRICE_CENTS as int
}

/// Saturating addition within `i64`.
pub open spec fn sat_add(a: int, b: int) -> int {
    if a + b > i64::MAX as int {
        i64::MAX as int
    } else if a + b < i64::MIN as int {
        i64::MIN as int
    } else {
        a + b
    }
}

/// Sum of on-hand quantities, saturating within `i64`.
pub open spec fn sum_quantity(items: Seq<ItemView>) -> int
    decreases items.len(),
{
    if items.len() == 0 {
        0
    } else {
        sat_add(sum_quantity(items.drop_last()), items.last().quantity)
    }
}

/// How many items are low on stock (fewer than 10 on hand).
pub open spec fn count_low_stock(items: Seq<ItemView>) -> int
    decreases items.len(),
{
    if items.len() == 0 {
        0int
    } else {
        count_low_stock(items.drop_last()) + if items.last().quantity < 10 {
            1int
        } else {
            0int
        }
    }
}

/// Sum of SALE totals over the ledger, saturating within `i64`.
pub open spec fn sum_sale_revenue(txs: Seq<TransactionView>) -> int
    decreases txs.len(),
{
    if txs.len() == 0 {
        0
    } else {
        sat_add(
            sum_sale_revenue(txs.drop_last()),
            if txs.last().transaction_type == "SALE"@ {
                txs.last().total
            } else {
                0
            },
        )
    }
}

/// A quantity clamped into the storable range: never below zero, never above
/// the cap.
pub open spec fn clamp_qty(v: int) -> int {
    if v < 0 {
        0
    } else if v > MAX_ITEM_QTY as int {
        MAX_ITEM_QTY as int
    } else {
        v
    }
}

/// The items with the one carrying `sku` re-stocked to `q` at time `now`.
pub open spec fn with_quantity(
    items: Seq<ItemView>,
    sku: Seq<char>,
    q: int,
    now: int,
) -> Seq<ItemView> {
    Seq::new(
        items.len(),
        |i: int|
            if items[i].sku == sku {
                ItemView { quantity: q, last_updated: now, ..items[i] }
            } else {
                items[i]
            },
    )
}

/// The items with the one carrying `sku` re-priced at time `now`.
pub open spec fn with_price(items: Seq<ItemView>, sku: Seq<char>, p: int, now: int) -> Seq<
    ItemView,
> {
    Seq::new(
        items.len(),
        |i: int|
            if items[i].sku == sku {
                ItemView { price: p, last_updated: now, ..items[i] }
            } else {
                items[i]
            },
    )
}

/// The items with the one carrying `sku` renamed at time `now`.
pub open spec fn with_name(items: Seq<ItemView>, sku: Seq<char>, name: Seq<char>, now: int) -> Seq<
    ItemView,
> {
    Seq::new(
        items.len(),
        |i: int|
            if items[i].sku == sku {
                ItemView { name: name, last_updated: now, ..items[i] }
            } else {
                items[i]
            },
    )
}

/// How many items belong to a category.
pub open spec fn count_cat(items: Seq<ItemView>, cat: Seq<char>) -> int
    decreases items.len(),
{
    if items.len() == 0 {
        0int
    } else {
        count_cat(items.drop_last(), cat) + if items.last().category == cat {
            1int
        } else {
            0int
        }
    }
}

/// The stock a category holds, saturating within `i64`.
pub open spec fn sum_qty_cat(items: Seq<ItemView>, cat: Seq<char>) -> int
    decreases items.len(),
{
    if items.len() == 0 {
        0
    } else {
        sat_add(
            sum_qty_cat(items.drop_last(), cat),
            if items.last().category == cat {
                items.last().quantity
            } else {
                0
            },
        )
    }
}

/// One item's stock value in cents, clamped within `i64`.
pub open spec fn clamped_value(p: int, q: int) -> int {
    if p * q > i64::MAX as int {
        i64::MAX as int
    } else {
        p * q
    }
}

/// The stock value a category holds, saturating within `i64`.
pub open spec fn sum_value_cat(items: Seq<ItemView>, cat: Seq<char>) -> int
    decreases items.len(),
{
    if items.len() == 0 {
        0
    } else {
        sat_add(
            sum_value_cat(items.drop_last(), cat),
            if items.last().category == cat {
                clamped_value(items.last().price, items.last().quantity)
            } else {
                0
            },
        )
    }
}

/// A category no item belongs to contributes nothing.
pub proof fn lemma_cat_absent(items: Seq<ItemView>, cat: Seq<char>)
    requires
        forall|j: int| 0 <= j < items.len() ==> (#[trigger] items[j]).category != cat,
    ensures
        count_cat(items, cat) == 0,
        sum_qty_cat(items, cat) == 0,
        sum_value_cat(items, cat) == 0,
    decreases items.len(),
{
    if items.len() > 0 {
        lemma_cat_absent(items.drop_last(), cat);
    }
}

/// Some item belongs to this category.
pub open spec fn has_category(items: Seq<ItemView>, cat: Seq<char>) -> bool {
    exists|i: int| 0 <= i < items.len() && (#[trigger] items[i]).category == cat
}

/// The names that select the whole catalog for a bulk price change.
pub open spec fn price_sel_all(cat: Seq<char>) -> bool {
    cat == "HEPSİ"@ || cat == "TÜMÜ"@ || cat == "ALL"@
}

/// Whether a bulk price change under `sel` touches an item of `category`.
pub open spec fn price_change_applies(sel: Seq<char>, category: Seq<char>) -> bool {
    price_sel_all(sel) || category == sel
}

/// A price scaled by a percentage in basis points, clamped into the storable
/// range.
pub open spec fn new_price(p: int, bp: int) -> int {
    let scaled = (p * (10000 + bp)) / 10000;
    if scaled > MAX_UNIT_PRICE_CENTS as int {
        MAX_UNIT_PRICE_CENTS as int
    } else if scaled < 0 {
        0
    } else {
        scaled
    }
}

/// The items under the selector repriced at time `now`.
pub open spec fn repriced(items: Seq<ItemView>, sel: Seq<char>, bp: int, now: int) -> Seq<
    ItemView,
> {
    Seq::new(
        items.len(),
        |i: int|
            if price_change_applies(sel, items[i].category) {
                ItemView { price: new_price(items[i].price, bp), last_updated: now, ..items[i] }
            } else {
                items[i]
            },
    )
}

/// Under unique SKUs, the chosen item for `sku` is the one at any matching
/// index.
pub proof fn lemma_item_at(items: Seq<ItemView>, sku: Seq<char>, i: int)
    requires
        skus_unique(items),
        0 <= i < items.len(),
        items[i].sku == sku,
    ensures
        has_sku(items, sku),
        item_at(items, sku) == items[i],
{
    assert(has_sku(items, sku));
    let k = choose|k: int| 0 <= k < items.len() && #[trigger] items[k].sku == sku;
    if k < i {
        assert(items[k].sku != items[i].sku);
    } else if i < k {
        assert(items[i].sku != items[k].sku);
    }
}

// ==================== The store ====================

/// The mutable state of the core.
pub struct Store {
    pub items: Vec<InventoryItem>,
    pub lots: Vec<InventoryLot>,
    pub transactions: Vec<Transaction>,
    pub accounts: Vec<CurrentAccount>,
    pub stock_cards: Vec<StockCard>,
    pub categories: Vec<Category>,
    pub finance_records: Vec<FinanceRecord>,
    pub outbox: Vec<SyncOutboxEntry>,
    pub cursor: SyncCursor,
}

#[verifier::ext_equal]
pub struct StoreView {
    pub items: Seq<ItemView>,
    pub lots: Seq<LotView>,
    pub transactions: Seq<TransactionView>,
    pub accounts: Seq<AccountView>,
    pub stock_cards: Seq<StockCardView>,
    pub categories: Seq<CategoryView>,
    pub finance_records: Seq<FinanceRecordView>,
    pub outbox: Seq<OutboxEntryView>,
    pub cursor: CursorView,
}

impl View for Store {
    type V = StoreView;

    open spec fn view(&self) -> StoreView {
        StoreView {
            items: self.items@.map_values(|x: InventoryItem| x@),
            lots: self.lots@.map_values(|x: InventoryLot| x@),
            transactions: self.transactions@.map_values(|x: Transaction| x@),
            accounts: self.accounts@.map_values(|x: CurrentAccount| x@),
            stock_cards: self.stock_cards@.map_values(|x: StockCard| x@),
            categories: self.categories@.map_values(|x: Category| x@),
            finance_records: self.finance_records@.map_values(|x: FinanceRecord| x@),
            outbox: self.outbox@.map_values(|x: SyncOutboxEntry| x@),
            cursor: self.cursor@,
        }
    }
}

impl StoreView {
    /// Well-formedness of the whole store.
    pub open spec fn wf(self) -> bool {
        &&& skus_unique(self.items)
        &&& forall|i: int| 0 <= i < self.items.len() ==> item_bounded(#[trigger] self.items[i])
        &&& forall|i: int| 0 <= i < self.lots.len() ==> lot_bounded(#[trigger] self.lots[i])
        &&& forall|i: int, j: int|
            0 <= i < j < self.accounts.len() ==> self.accounts[i].id != self.accounts[j].id
        &&& forall|i: int|
            0 <= i < self.accounts.len() ==> -(BALANCE_LIMIT_CENTS as int) <= (
            #[trigger] self.accounts[i]).balance <= BALANCE_LIMIT_CENTS as int
        &&& forall|i: int, j: int|
            0 <= i < j < self.stock_cards.len() ==> self.stock_cards[i].id
                != self.stock_cards[j].id && self.stock_cards[i].barcode
                != self.stock_cards[j].barcode
        &&& forall|i: int, j: int|
            0 <= i < j < self.categories.len() ==> self.categories[i].id != self.categories[j].id
        &&& forall|i: int, j: int|
            0 <= i < j < self.outbox.len() ==> self.outbox[i].txn.id != self.outbox[j].txn.id
        &&& forall|i: int, j: int|
            #![trigger self.outbox[i], self.outbox[j]]
            0 <= i < j < self.outbox.len() ==> self.outbox[i].txn.transaction_time
                <= self.outbox[j].txn.transaction_time
    }
}

impl Store {
    /// An empty store.
    pub fn new() -> (r: Store)
        ensures
            r@.wf(),
            r@.items.len() == 0,
            r@.lots.len() == 0,
            r@.transactions.len() == 0,
            r@.accounts.len() == 0,
            r@.stock_cards.len() == 0,
            r@.categories.len() == 0,
            r@.finance_records.len() == 0,
            r@.outbox.len() == 0,
            r@.cursor.last_push_at is None,
            r@.cursor.last_pull_at is None,
            !r@.cursor.sync_in_progress,
    {
        Store {
            items: Vec::new(),
            lots: Vec::new(),
            transactions: Vec::new(),
            accounts: Vec::new(),
            stock_cards: Vec::new(),
            categories: Vec::new(),
            finance_records: Vec::new(),
            outbox: Vec::new(),
            cursor: SyncCursor { last_push_at: None, last_pull_at: None, sync_in_progress: false },
        }
    }

    /// Index of the item carrying `sku`, if any.
    pub fn find_item_index(&self, sku: &str) -> (r: Option<usize>)
        ensures
            match r {
                Some(i) => i < self@.items.len() && self@.items[i as int].sku == sku@,
                None => !has_sku(self@.items, sku@),
            },
    {
        let mut i: usize = 0;
        while i < self.items.len()
            invariant
                i <= self@.items.len(),
                forall|j: int| 0 <= j < i ==> (#[trigger] self@.items[j]).sku != sku@,
            decreases self@.items.len() - i,
        {
            if str_eq(self.items[i].sku.as_str(), sku) {
                return Some(i);
            }
            i += 1;
        }
        None
    }

    /// Index of the counterparty account carrying `id`, if any.
    pub fn find_account_index(&self, id: &str) -> (r: Option<usize>)
        ensures
            match r {
                Some(i) => i < self@.accounts.len() && self@.accounts[i as int].id == id@,
                None => forall|j: int|
                    0 <= j < self@.accounts.len() ==> (#[trigger] self@.accounts[j]).id != id@,
            },
    {
        let mut i: usize = 0;
        while i < self.accounts.len()
            invariant
                i <= self@.accounts.len(),
                forall|j: int| 0 <= j < i ==> (#[trigger] self@.accounts[j]).id != id@,
            decreases self@.accounts.len() - i,
        {
            if str_eq(self.accounts[i].id.as_str(), id) {
                return Some(i);
            }
            i += 1;
        }
        None
    }

    /// Whether an item with this SKU exists.
    pub fn check_sku_exists(&self, sku: &str) -> (r: bool)
        ensures
            r == has_sku(self@.items, sku@),
    {
        self.find_item_index(sku).is_some()
    }

    /// All items, copied out.
    pub fn get_all_items(&self) -> (r: Vec<InventoryItem>)
        ensures
            r@.map_values(|x: InventoryItem| x@) == self@.items,
    {
        let mut out: Vec<InventoryItem> = Vec::new();
        let mut i: usize = 0;
        while i < self.items.len()
            invariant
                i <= self@.items.len(),
                out@.len() == i,
                forall|j: int| 0 <= j < i ==> out@[j]@ == self@.items[j],
            decreases self@.items.len() - i,
        {
            out.push(self.items[i].duplicate());
            i += 1;
        }
        proof {
            assert(out@.map_values(|x: InventoryItem| x@) =~= self@.items);
        }
        out
    }

    /// Look an item up by SKU.
    pub fn get_item_by_sku(&self, sku: &str) -> (r: Option<InventoryItem>)
        ensures
            r is Some <==> has_sku(self@.items, sku@),
            r matches Some(it) ==> it@.sku == sku@ && (exists|i: int|
                0 <= i < self@.items.len() && #[trigger] self@.items[i] == it@),
    {
        match self.find_item_index(sku) {
            Some(i) => Some(self.items[i].duplicate()),
            None => None,
        }
    }

    /// Add a new item after validating it; refuse a duplicate SKU as the
    /// storage layer's unique constraint would.
    pub fn add_item(&mut self, item: InventoryItem) -> (r: Result<(), AppError>)
        requires
            old(self)@.wf(),
        ensures
            final(self)@.wf(),
            r is Ok <==> crate::validation::valid_sku(item@.sku) && crate::validation::valid_price(
                item.price,
            ) && crate::validation::valid_quantity(item.quantity) && !has_sku(
                old(self)@.items,
                item@.sku,
            ),
            r is Ok ==> final(self)@ == (StoreView {
                items: old(self)@.items.push(item@),
                ..old(self)@
            }),
            r is Err ==> final(self)@ == old(self)@,
    {
        if let Err(m) = validate_sku(item.sku.as_str()) {
            return Err(AppError::Validation(m));
        }
        if let Err(m) = validate_price(item.price) {
            return Err(AppError::Validation(m));
        }
        if let Err(m) = validate_quantity(item.quantity) {
            return Err(AppError::Validation(m));
        }
        if self.check_sku_exists(item.sku.as_str()) {
            return Err(AppError::Internal(String::from_str("SKU zaten kayitli")));
        }
        let ghost pre = self@.items;
        self.items.push(item);
        proof {
            assert(self@.items =~= pre.push(item@));
            assert(self@ =~= StoreView { items: pre.push(item@), ..old(self)@ });
        }
        Ok(())
    }

    /// Update an existing item's fields (identity and SKU stay), after
    /// validating price and quantity.
    pub fn update_item(&mut self, item: &InventoryItem) -> (r: Result<(), AppError>)
        requires
            old(self)@.wf(),
        ensures
            final(self)@.wf(),
            r is Ok <==> crate::validation::valid_price(item.price)
                && crate::validation::valid_quantity(item.quantity) && has_sku(
                old(self)@.items,
                item@.sku,
            ),
            r is Ok ==> final(self)@ == (StoreView {
                items: Seq::new(
                    old(self)@.items.len(),
                    |i: int|
                        if old(self)@.items[i].sku == item@.sku {
                            ItemView { id: old(self)@.items[i].id, ..item@ }
                        } else {
                            old(self)@.items[i]
                        },
                ),
                ..old(self)@
            }),
            r is Err ==> final(self)@ == old(self)@,
            r matches Err(AppError::NotFound(m)) ==> m@ == "Urun bulunamadi"@,
    {
        if let Err(m) = validate_price(item.price) {
            return Err(AppError::Validation(m));
        }
        if let Err(m) = validate_quantity(item.quantity) {
            return Err(AppError::Validation(m));
        }
        match self.find_item_index(item.sku.as_str()) {
            None => Err(AppError::NotFound(String::from_str("Urun bulunamadi"))),
            Some(i) => {
                let mut patched = item.duplicate();
                patched.id = self.items[i].id.clone();
                patched.sku = self.items[i].sku.clone();
                self.items[i] = patched;
                proof {
                    let pre = old(self)@.items;
                    assert forall|j: int| 0 <= j < pre.len() && j != i as int implies pre[j].sku
                        != item@.sku by {
                        if j < i as int {
                            assert(pre[j].sku != pre[i as int].sku);
                        } else {
                            assert(pre[i as int].sku != pre[j].sku);
                        }
                    }
                    assert(self@.items =~= Seq::new(
                        pre.len(),
                        |k: int|
                            if pre[k].sku == item@.sku {
                                ItemView { id: pre[k].id, ..item@ }
                            } else {
                                pre[k]
                            },
                    ));
                    assert(self@ =~= StoreView { items: self@.items, ..old(self)@ });
                }
                Ok(())
            },
        }
    }

    /// Delete the item carrying `sku`.
    pub fn delete_item(&mut self, sku: &str) -> (r: Result<(), AppError>)
        requires
            old(self)@.wf(),
        ensures
            final(self)@.wf(),
            r is Ok <==> has_sku(old(self)@.items, sku@),
            r is Ok ==> (exists|i: int|
                0 <= i < old(self)@.items.len() && old(self)@.items[i].sku == sku@ && final(self)@
                    == (StoreView { items: old(self)@.items.remove(i), ..old(self)@ })),
            r is Err ==> final(self)@ == old(self)@,
            r matches Err(AppError::NotFound(m)) ==> m@ == "Urun bulunamadi"@,
    {
        match self.find_item_index(sku) {
            None => Err(AppError::NotFound(String::from_str("Urun bulunamadi"))),
            Some(i) => {
                self.items.remove(i);
                proof {
                    assert(self@.items =~= old(self)@.items.remove(i as int));
                    assert(self@ =~= StoreView {
                        items: old(self)@.items.remove(i as int),
                        ..old(self)@
                    });
                }
                Ok(())
            },
        }
    }

    /// Shift the quantity of the item carrying `sku` by `delta`, clamping at
    /// zero (and at the stock cap), and stamp the update time. A missing SKU
    /// is reported as `Ok(None)`, not as an error.
    pub fn update_quantity(&mut self, sku: &str, delta: i32, now: u64) -> (r: Result<
        Option<InventoryItem>,
        AppError,
    >)
        requires
            old(self)@.wf(),
        ensures
            final(self)@.wf(),
            !has_sku(old(self)@.items, sku@) ==> (r matches Ok(None)) && final(self)@ == old(
                self,
            )@,
            has_sku(old(self)@.items, sku@) ==> final(self)@ == (StoreView {
                items: with_quantity(
                    old(self)@.items,
                    sku@,
                    clamp_qty(item_at(old(self)@.items, sku@).quantity + delta),
                    now as int,
                ),
                ..old(self)@
            }),
            has_sku(old(self)@.items, sku@) ==> (r matches Ok(Some(it)) && it@ == (ItemView {
                quantity: clamp_qty(item_at(old(self)@.items, sku@).quantity + delta),
                last_updated: now as int,
                ..item_at(old(self)@.items, sku@)
            })),
    {
        match self.find_item_index(sku) {
            None => Ok(None),
            Some(i) => {
                proof {
                    lemma_item_at(old(self)@.items, sku@, i as int);
                }
                let cur = self.items[i].quantity;
                let wide: i64 = cur as i64 + delta as i64;
                let nq: i32 = if wide < 0 {
                    0
                } else if wide > MAX_ITEM_QTY as i64 {
                    MAX_ITEM_QTY
                } else {
                    wide as i32
                };
                let mut patched = self.items[i].duplicate();
                patched.quantity = nq;
                patched.last_updated = now;
                let out = patched.duplicate();
                self.items[i] = patched;
                proof {
                    let pre = old(self)@.items;
                    assert forall|j: int| 0 <= j < pre.len() && j != i as int implies pre[j].sku
                        != sku@ by {
                        if j < i as int {
                            assert(pre[j].sku != pre[i as int].sku);
                        } else {
                            assert(pre[i as int].sku != pre[j].sku);
                        }
                    }
                    assert(self@.items =~= with_quantity(
                        pre,
                        sku@,
                        clamp_qty(pre[i as int].quantity + delta),
                        now as int,
                    ));
                    assert(self@ =~= StoreView { items: self@.items, ..old(self)@ });
                }
                Ok(Some(out))
            },
        }
    }

    /// Set the price of the item carrying `sku` and stamp the update time; a
    /// missing SKU changes nothing.
    pub fn set_price(&mut self, sku: &str, p: i64, now: u64)
        requires
            old(self)@.wf(),
            0 <= p <= MAX_UNIT_PRICE_CENTS,
        ensures
            final(self)@.wf(),
            has_sku(old(self)@.items, sku@) ==> final(self)@ == (StoreView {
                items: with_price(old(self)@.items, sku@, p as int, now as int),
                ..old(self)@
            }),
            !has_sku(old(self)@.items, sku@) ==> final(self)@ == old(self)@,
    {
        match self.find_item_index(sku) {
            None => {
            },
            Some(i) => {
                let mut patched = self.items[i].duplicate();
                patched.price = p;
                patched.last_updated = now;
                self.items[i] = patched;
                proof {
                    let pre = old(self)@.items;
                    assert forall|j: int| 0 <= j < pre.len() && j != i as int implies pre[j].sku
                        != sku@ by {
                        if j < i as int {
                            assert(pre[j].sku != pre[i as int].sku);
                        } else {
                            assert(pre[i as int].sku != pre[j].sku);
                        }
                    }
                    assert(self@.items =~= with_price(pre, sku@, p as int, now as int));
                    assert(self@ =~= StoreView { items: self@.items, ..old(self)@ });
                }
            },
        }
    }

    /// Rename the item carrying `sku` and stamp the update time; a missing
    /// SKU changes nothing.
    pub fn set_name(&mut self, sku: &str, name: &String, now: u64)
        requires
            old(self)@.wf(),
        ensures
            final(self)@.wf(),
            has_sku(old(self)@.items, sku@) ==> final(self)@ == (StoreView {
                items: with_name(old(self)@.items, sku@, name@, now as int),
                ..old(self)@
            }),
            !has_sku(old(self)@.items, sku@) ==> final(self)@ == old(self)@,
    {
        match self.find_item_index(sku) {
            None => {
            },
            Some(i) => {
                let mut patched = self.items[i].duplicate();
                patched.name = name.clone();
                patched.last_updated = now;
                self.items[i] = patched;
                proof {
                    let pre = old(self)@.items;
                    assert forall|j: int| 0 <= j < pre.len() && j != i as int implies pre[j].sku
                        != sku@ by {
                        if j < i as int {
                            assert(pre[j].sku != pre[i as int].sku);
                        } else {
                            assert(pre[i as int].sku != pre[j].sku);
                        }
                    }
                    assert(self@.items =~= with_name(pre, sku@, name@, now as int));
                    assert(self@ =~= StoreView { items: self@.items, ..old(self)@ });
                }
            },
        }
    }

    /// Remove every item.
    pub fn clear_inventory(&mut self)
        requires
            old(self)@.wf(),
        ensures
            final(self)@.wf(),
            final(self)@ == (StoreView { items: Seq::<ItemView>::empty(), ..old(self)@ }),
    {
        self.items.clear();
        proof {
            assert(self@.items =~= Seq::<ItemView>::empty());
            assert(self@ =~= StoreView { items: Seq::<ItemView>::empty(), ..old(self)@ });
        }
    }

    /// All ledger entries, copied out in insertion order.
    pub fn get_transactions(&self) -> (r: Vec<Transaction>)
        ensures
            r@.map_values(|t: Transaction| t@) == self@.transactions,
    {
        let mut out: Vec<Transaction> = Vec::new();
        let mut i: usize = 0;
        while i < self.transactions.len()
            invariant
                i <= self@.transactions.len(),
                out@.len() == i,
                forall|j: int| 0 <= j < i ==> out@[j]@ == self@.transactions[j],
            decreases self@.transactions.len() - i,
        {
            out.push(self.transactions[i].duplicate());
            i += 1;
        }
        proof {
            assert(out@.map_values(|t: Transaction| t@) =~= self@.transactions);
        }
        out
    }

    /// Edit the two cosmetic fields of a recorded entry — payment method and
    /// note — and nothing else; the ledger is otherwise immutable.
    #[verifier::loop_isolation(false)]
    pub fn update_transaction(&mut self, id: &str, updates: &TransactionUpdate) -> (r: Result<
        (),
        AppError,
    >)
        requires
            old(self)@.wf(),
        ensures
            final(self)@.wf(),
            r is Ok <==> (exists|i: int|
                0 <= i < old(self)@.transactions.len() && (#[trigger] old(
                    self,
                )@.transactions[i]).id == id@),
            r is Err ==> final(self)@ == old(self)@,
            r matches Err(e) ==> e matches AppError::NotFound(_),
            r is Ok ==> final(self)@ == (StoreView {
                transactions: Seq::new(
                    old(self)@.transactions.len(),
                    |i: int|
                        if old(self)@.transactions[i].id == id@ {
                            TransactionView {
                                payment_method: (match updates.payment_method {
                                    Some(ref pm) => pm@,
                                    None => old(self)@.transactions[i].payment_method,
                                }),
                                note: (match updates.note {
                                    Some(ref n) => Some(n@),
                                    None => old(self)@.transactions[i].note,
                                }),
                                ..old(self)@.transactions[i]
                            }
                        } else {
                            old(self)@.transactions[i]
                        },
                ),
                ..old(self)@
            }),
    {
        let ghost txs0 = old(self)@.transactions;
        let mut found = false;
        let mut k: usize = 0;
        while k < self.transactions.len()
            invariant
                self@.wf(),
                k <= self@.transactions.len(),
                self@.transactions.len() == txs0.len(),
                found <==> (exists|j: int| 0 <= j < k && (#[trigger] txs0[j]).id == id@),
                forall|j: int|
                    0 <= j < k ==> self@.transactions[j] == (if txs0[j].id == id@ {
                        TransactionView {
                            payment_method: (match updates.payment_method {
                                Some(ref pm) => pm@,
                                None => txs0[j].payment_method,
                            }),
                            note: (match updates.note {
                                Some(ref n) => Some(n@),
                                None => txs0[j].note,
                            }),
                            ..txs0[j]
                        }
                    } else {
                        txs0[j]
                    }),
                forall|j: int| k <= j < txs0.len() ==> self@.transactions[j] == txs0[j],
                self@ == (StoreView { transactions: self@.transactions, ..old(self)@ }),
            decreases self@.transactions.len() - k,
        {
            let ghost pre = self@.transactions;
            if str_eq(self.transactions[k].id.as_str(), id) {
                let mut patched = self.transactions[k].duplicate();
                match &updates.payment_method {
                    Some(pm) => {
                        patched.payment_method = pm.clone();
                    },
                    None => {
                    },
                }
                match &updates.note {
                    Some(n) => {
                        patched.note = Some(n.clone());
                    },
                    None => {
                    },
                }
                self.transactions[k] = patched;
                found = true;
                proof {
                    assert(self@.transactions =~= pre.update(
                        k as int,
                        TransactionView {
                            payment_method: (match updates.payment_method {
                                Some(ref pm) => pm@,
                                None => txs0[k as int].payment_method,
                            }),
                            note: (match updates.note {
                                Some(ref n) => Some(n@),
                                None => txs0[k as int].note,
                            }),
                            ..txs0[k as int]
                        },
                    ));
                    assert(self@ =~= StoreView { transactions: self@.transactions, ..old(self)@ });
                }
            }
            k += 1;
        }
        if found {
            proof {
                assert(self@.transactions =~= Seq::new(
                    txs0.len(),
                    |i: int|
                        if txs0[i].id == id@ {
                            TransactionView {
                                payment_method: (match updates.payment_method {
                                    Some(ref pm) => pm@,
                                    None => txs0[i].payment_method,
                                }),
                                note: (match updates.note {
                                    Some(ref n) => Some(n@),
                                    None => txs0[i].note,
                                }),
                                ..txs0[i]
                            }
                        } else {
                            txs0[i]
                        },
                ));
                assert(self@ =~= StoreView { transactions: self@.transactions, ..old(self)@ });
            }
            Ok(())
        } else {
            proof {
                assert(self@.transactions =~= txs0);
                assert(self@ =~= old(self)@);
            }
            Err(AppError::NotFound(String::from_str("Islem bulunamadi")))
        }
    }

    /// Add a category; an id already taken is refused as the storage layer's
    /// primary key would refuse it.
    #[verifier::loop_isolation(false)]
    pub fn create_category(&mut self, data: CreateCategoryRequest, now: u64) -> (r: Result<
        Category,
        AppError,
    >)
        requires
            old(self)@.wf(),
        ensures
            final(self)@.wf(),
            r is Err ==> final(self)@ == old(self)@,
            r is Ok <==> !(exists|i: int|
                0 <= i < old(self)@.categories.len() && (#[trigger] old(self)@.categories[i]).id
                    == data.id@),
            r matches Ok(cat) ==> cat@ == (CategoryView {
                id: data.id@,
                name: data.name@,
                parent_id: opt_view(data.parent_id),
                created_at: now as int,
            }) && final(self)@ == (StoreView {
                categories: old(self)@.categories.push(cat@),
                ..old(self)@
            }),
    {
        let mut c: usize = 0;
        while c < self.categories.len()
            invariant
                self@ == old(self)@,
                c <= self@.categories.len(),
                forall|j: int| 0 <= j < c ==> (#[trigger] self@.categories[j]).id != data.id@,
            decreases self@.categories.len() - c,
        {
            if str_eq(self.categories[c].id.as_str(), data.id.as_str()) {
                proof {
                    assert((#[trigger] self@.categories[c as int]).id == data.id@);
                }
                return Err(AppError::Internal(String::from_str("Kategori kimligi zaten kayitli")));
            }
            c += 1;
        }
        let cat = Category {
            id: data.id,
            name: data.name,
            parent_id: data.parent_id,
            created_at: now,
        };
        let out = Category {
            id: cat.id.clone(),
            name: cat.name.clone(),
            parent_id: crate::models::dup_opt_string(&cat.parent_id),
            created_at: cat.created_at,
        };
        let ghost pre = self@.categories;
        let ghost cv = cat@;
        self.categories.push(cat);
        proof {
            assert(self@.categories =~= pre.push(cv));
            assert(self@ =~= StoreView { categories: pre.push(cv), ..old(self)@ });
        }
        Ok(out)
    }

    /// Reprice a category (or, under one of the catch-all names, the whole
    /// catalog) by a percentage given in basis points, clamping each new
    /// price into the storable range. Returns how many items were touched.
    #[verifier::loop_isolation(false)]
    pub fn apply_price_change(&mut self, category: &str, percentage_bp: i64, now: u64) -> (r:
        Result<usize, AppError>)
        requires
            old(self)@.wf(),
            percentage_bp <= 1_000_000_000,
        ensures
            final(self)@.wf(),
            r is Ok <==> percentage_bp >= -10000,
            r is Err ==> final(self)@ == old(self)@,
            r matches Err(e) ==> e matches AppError::Validation(_),
            r matches Ok(n) ==> final(self)@ == (StoreView {
                items: repriced(old(self)@.items, category@, percentage_bp as int, now as int),
                ..old(self)@
            }) && n as int == old(self)@.items.filter(
                |it: ItemView| price_change_applies(category@, it.category),
            ).len(),
    {
        if percentage_bp < -10000 {
            return Err(AppError::Validation(String::from_str("Gecersiz yuzde")));
        }
        let all = str_eq(category, "HEPSİ") || str_eq(category, "TÜMÜ") || str_eq(category, "ALL");
        let ghost items0 = old(self)@.items;
        let mut count: usize = 0;
        let mut k: usize = 0;
        proof {
            assert(items0.take(0).filter(
                |it: ItemView| price_change_applies(category@, it.category),
            ) =~= Seq::<ItemView>::empty());
        }
        while k < self.items.len()
            invariant
                self@.wf(),
                percentage_bp >= -10000,
                k <= self@.items.len(),
                self@.items.len() == items0.len(),
                all == price_sel_all(category@),
                count == items0.take(k as int).filter(
                    |it: ItemView| price_change_applies(category@, it.category),
                ).len(),
                count <= k,
                forall|j: int|
                    0 <= j < k ==> self@.items[j] == repriced(
                        items0,
                        category@,
                        percentage_bp as int,
                        now as int,
                    )[j],
                forall|j: int| k <= j < items0.len() ==> self@.items[j] == items0[j],
                self@ == (StoreView { items: self@.items, ..old(self)@ }),
            decreases self@.items.len() - k,
        {
            let ghost pre = self@.items;
            proof {
                assert(items0.take(k + 1).drop_last() =~= items0.take(k as int));
                assert(items0.take(k + 1).last() == items0[k as int]);
                reveal_with_fuel(Seq::filter, 2);
            }
            let applies = all || str_eq(self.items[k].category.as_str(), category);
            if applies {
                proof {
                    assert(item_bounded(self@.items[k as int]));
                }
                let p = self.items[k].price;
                let factor: i128 = 10000 + (percentage_bp as i128);
                proof {
                    assert(0 <= (p as int) * (factor as int) <= 0x7fff_ffff_ffff_ffff_ffff)
                        by (nonlinear_arith)
                        requires
                            0 <= p <= 10_000_000_000,
                            0 <= factor <= 1_000_010_000,
                    ;
                }
                let wide: i128 = (p as i128) * factor / 10000;
                let np: i64 = if wide > MAX_UNIT_PRICE_CENTS as i128 {
                    MAX_UNIT_PRICE_CENTS
                } else if wide < 0 {
                    0
                } else {
                    wide as i64
                };
                let mut patched = self.items[k].duplicate();
                patched.price = np;
                patched.last_updated = now;
                self.items[k] = patched;
                count += 1;
                proof {
                    assert(self@.items =~= pre.update(
                        k as int,
                        ItemView {
                            price: new_price(
                                items0[k as int].price,
                                percentage_bp as int,
                            ),
                            last_updated: now as int,
                            ..items0[k as int]
                        },
                    ));
                    assert(forall|j: int|
                        0 <= j < self@.items.len() ==> (#[trigger] self@.items[j]).sku
                            == pre[j].sku);
                    assert forall|a: int, b: int|
                        0 <= a < b < self@.items.len() implies self@.items[a].sku
                        != self@.items[b].sku by {
                        assert(pre[a].sku != pre[b].sku);
                    }
                    assert(self@ =~= StoreView { items: self@.items, ..old(self)@ });
                }
            }
            k += 1;
        }
        proof {
            assert(items0.take(items0.len() as int) =~= items0);
            assert(self@.items =~= repriced(
                items0,
                category@,
                percentage_bp as int,
                now as int,
            ));
            assert(self@ =~= StoreView { items: self@.items, ..old(self)@ });
        }
        Ok(count)
    }

    /// Per-category statistics: one row per distinct category, with its item
    /// count and its total stock and stock value (saturating sums in cents),
    /// in order of first appearance.
    #[verifier::loop_isolation(false)]
    #[verifier::rlimit(100)]
    #[verifier::spinoff_prover]
    pub fn get_category_stats(&self) -> (r: Vec<CategoryStats>)
        requires
            self@.wf(),
        ensures
            forall|k: int, l: int| 0 <= k < l < r@.len() ==> r@[k]@.category != r@[l]@.category,
            forall|k: int|
                0 <= k < r@.len() ==> (#[trigger] r@[k])@.count == count_cat(
                    self@.items,
                    r@[k]@.category,
                ) && r@[k]@.total_quantity == sum_qty_cat(self@.items, r@[k]@.category)
                    && r@[k]@.total_value == sum_value_cat(self@.items, r@[k]@.category)
                    && has_category(self@.items, r@[k]@.category),
            forall|j: int|
                0 <= j < self@.items.len() ==> (exists|k: int|
                    0 <= k < r@.len() && r@[k]@.category == (#[trigger] self@.items[j]).category),
    {
        let ghost items = self@.items;
        let mut out: Vec<CategoryStats> = Vec::new();
        let mut i: usize = 0;
        proof {
            assert(items.take(0) =~= Seq::<ItemView>::empty());
        }
        while i < self.items.len()
            invariant
                i <= items.len(),
                forall|k: int, l: int|
                    0 <= k < l < out@.len() ==> out@[k]@.category != out@[l]@.category,
                forall|k: int|
                    0 <= k < out@.len() ==> (#[trigger] out@[k])@.count == count_cat(
                        items.take(i as int),
                        out@[k]@.category,
                    ) && out@[k]@.total_quantity == sum_qty_cat(
                        items.take(i as int),
                        out@[k]@.category,
                    ) && out@[k]@.total_value == sum_value_cat(
                        items.take(i as int),
                        out@[k]@.category,
                    ) && out@[k]@.count <= i,
                forall|k: int|
                    0 <= k < out@.len() ==> (exists|j: int|
                        0 <= j < i && (#[trigger] out@[k])@.category == items[j].category),
                forall|j: int|
                    0 <= j < i ==> (exists|k: int|
                        0 <= k < out@.len() && out@[k]@.category == (
                        #[trigger] items[j]).category),
            decreases items.len() - i,
        {
            proof {
                assert(items.take(i + 1).drop_last() =~= items.take(i as int));
                assert(items.take(i + 1).last() == items[i as int]);
                assert(item_bounded(items[i as int]));
            }
            let it = &self.items[i];
            proof {
                assert(0 <= (it.price as int) * (it.quantity as int)
                    <= 0x7fff_ffff_ffff_ffff_ffff) by (nonlinear_arith)
                    requires
                        0 <= it.price <= 10_000_000_000,
                        0 <= it.quantity <= 2_147_483_647,
                ;
            }
            let wide: i128 = (it.price as i128) * (it.quantity as i128);
            let value: i64 = if wide > i64::MAX as i128 {
                i64::MAX
            } else {
                wide as i64
            };
            let mut found: Option<usize> = None;
            let mut k: usize = 0;
            while k < out.len()
                invariant
                    k <= out@.len(),
                    found is None,
                    forall|l: int|
                        0 <= l < k ==> (#[trigger] out@[l])@.category != items[i as int].category,
                decreases out@.len() - k,
            {
                if str_eq(out[k].category.as_str(), it.category.as_str()) {
                    found = Some(k);
                    break ;
                }
                k += 1;
            }
            let ghost out_pre = out@;
            let ghost cat = items[i as int].category;
            match found {
                Some(idx) => {
                    let mut patched = out[idx].duplicate();
                    patched.count = patched.count + 1;
                    patched.total_quantity = sat_add_i64(patched.total_quantity, it.quantity as i64);
                    patched.total_value = sat_add_i64(patched.total_value, value);
                    out[idx] = patched;
                    proof {
                        assert(out_pre[idx as int]@.category == cat);
                        assert(forall|l: int|
                            0 <= l < out@.len() ==> (#[trigger] out@[l])@.category
                                == out_pre[l]@.category);
                        assert forall|l: int| 0 <= l < out@.len() implies (#[trigger] out@[l])@.count
                            == count_cat(items.take(i + 1), out@[l]@.category)
                            && out@[l]@.total_quantity == sum_qty_cat(
                            items.take(i + 1),
                            out@[l]@.category,
                        ) && out@[l]@.total_value == sum_value_cat(
                            items.take(i + 1),
                            out@[l]@.category,
                        ) && out@[l]@.count <= i + 1 by {
                            if l == idx as int {
                                assert(out@[l]@.category == cat);
                            } else {
                                assert(out@[l] == out_pre[l]);
                                if l < idx as int {
                                    assert(out_pre[l]@.category != out_pre[idx as int]@.category);
                                } else {
                                    assert(out_pre[idx as int]@.category != out_pre[l]@.category);
                                }
                            }
                        }
                        assert forall|l: int| 0 <= l < out@.len() implies (exists|j: int|
                            0 <= j < i + 1 && (#[trigger] out@[l])@.category
                                == items[j].category) by {
                            if l == idx as int {
                                assert(out@[l]@.category == items[i as int].category);
                            } else {
                                assert(out@[l] == out_pre[l]);
                            }
                        }
                        assert forall|j: int| 0 <= j < i + 1 implies (exists|k2: int|
                            0 <= k2 < out@.len() && out@[k2]@.category == (
                            #[trigger] items[j]).category) by {
                            if j == i as int {
                                assert(out@[idx as int]@.category == items[j].category);
                            } else {
                                let k2 = choose|k2: int|
                                    0 <= k2 < out_pre.len() && out_pre[k2]@.category
                                        == items[j].category;
                                assert(out@[k2]@.category == items[j].category);
                            }
                        }
                    }
                },
                None => {
                    proof {
                        assert forall|j: int|
                            0 <= j < i implies (#[trigger] items.take(i as int)[j]).category
                            != cat by {
                            let cks = out_pre;
                            assert(exists|k2: int|
                                0 <= k2 < cks.len() && cks[k2]@.category == items[j].category);
                        }
                        lemma_cat_absent(items.take(i as int), cat);
                    }
                    out.push(
                        CategoryStats {
                            category: it.category.clone(),
                            count: 1,
                            total_quantity: it.quantity as i64,
                            total_value: value,
                        },
                    );
                    proof {
                        assert(out@ =~= out_pre.push(out@.last()));
                        assert(out@.last()@.category == cat);
                        assert forall|l: int| 0 <= l < out@.len() implies (#[trigger] out@[l])@.count
                            == count_cat(items.take(i + 1), out@[l]@.category)
                            && out@[l]@.total_quantity == sum_qty_cat(
                            items.take(i + 1),
                            out@[l]@.category,
                        ) && out@[l]@.total_value == sum_value_cat(
                            items.take(i + 1),
                            out@[l]@.category,
                        ) && out@[l]@.count <= i + 1 by {
                            if l < out_pre.len() {
                                assert(out@[l] == out_pre[l]);
                                assert(out_pre[l]@.category != cat);
                            } else {
                                assert(out@[l]@.category == cat);
                                assert(count_cat(items.take(i as int), cat) == 0);
                            }
                        }
                        assert forall|l: int| 0 <= l < out@.len() implies (exists|j: int|
                            0 <= j < i + 1 && (#[trigger] out@[l])@.category
                                == items[j].category) by {
                            if l < out_pre.len() {
                                assert(out@[l] == out_pre[l]);
                            } else {
                                assert(out@[l]@.category == items[i as int].category);
                            }
                        }
                        assert forall|j: int| 0 <= j < i + 1 implies (exists|k2: int|
                            0 <= k2 < out@.len() && out@[k2]@.category == (
                            #[trigger] items[j]).category) by {
                            if j == i as int {
                                assert(out@[out_pre.len() as int]@.category == items[j].category);
                            } else {
                                let k2 = choose|k2: int|
                                    0 <= k2 < out_pre.len() && out_pre[k2]@.category
                                        == items[j].category;
                                assert(out@[k2]@.category == items[j].category);
                            }
                        }
                    }
                },
            }
            i += 1;
        }
        proof {
            assert(items.take(items.len() as int) =~= items);
        }
        out
    }

    /// Dashboard statistics: item count, total stock, low-stock count, and
    /// SALE revenue (saturating sums in cents).
    pub fn get_dashboard_stats(&self) -> (r: DashboardStats)
        ensures
            r.total_items == self@.items.len(),
            r.total_quantity == sum_quantity(self@.items),
            r.low_stock_count == count_low_stock(self@.items),
            r.total_revenue == sum_sale_revenue(self@.transactions),
    {
        let total_items: u64 = self.items.len() as u64;
        let mut total_quantity: i64 = 0;
        let mut low_stock_count: u64 = 0;
        let mut i: usize = 0;
        while i < self.items.len()
            invariant
                i <= self@.items.len(),
                total_quantity == sum_quantity(self@.items.take(i as int)),
                low_stock_count == count_low_stock(self@.items.take(i as int)),
                low_stock_count <= i,
            decreases self@.items.len() - i,
        {
            proof {
                assert(self@.items.take(i + 1).drop_last() =~= self@.items.take(i as int));
                assert(self@.items.take(i + 1).last() == self@.items[i as int]);
            }
            total_quantity = sat_add_i64(total_quantity, self.items[i].quantity as i64);
            if self.items[i].quantity < 10 {
                low_stock_count += 1;
            }
            i += 1;
        }
        let mut total_revenue: i64 = 0;
        let mut k: usize = 0;
        while k < self.transactions.len()
            invariant
                k <= self@.transactions.len(),
                total_revenue == sum_sale_revenue(self@.transactions.take(k as int)),
            decreases self@.transactions.len() - k,
        {
            proof {
                assert(self@.transactions.take(k + 1).drop_last() =~= self@.transactions.take(
                    k as int,
                ));
                assert(self@.transactions.take(k + 1).last() == self@.transactions[k as int]);
            }
            if str_eq(self.transactions[k].transaction_type.as_str(), "SALE") {
                total_revenue = sat_add_i64(total_revenue, self.transactions[k].total);
            } else {
                total_revenue = sat_add_i64(total_revenue, 0);
            }
            k += 1;
        }
        proof {
            assert(self@.items.take(self@.items.len() as int) =~= self@.items);
            assert(self@.transactions.take(self@.transactions.len() as int)
                =~= self@.transactions);
        }
        DashboardStats { total_items, total_quantity, low_stock_count, total_revenue }
    }
}

/// Saturating `i64` addition, matching `sat_add`.
pub fn sat_add_i64(a: i64, b: i64) -> (r: i64)
    ensures
        r as int == sat_add(a as int, b as int),
{
    if b >= 0 {
        if a > i64::MAX - b {
            i64::MAX
        } else {
            a + b
        }
    } else {
        if a < i64::MIN - b {
            i64::MIN
        } else {
            a + b
        }
    }
}

} // verus!
