//! The lot ledger: goods receipt creates per-supplier batches (lots) whose
//! remaining quantity is consumed first-in-first-out by sales, restocks the
//! received items (falling back from product id to the stock card's barcode,
//! or creating the item from the card), records the cash movement, and books
//! the supplier's PURCHASE entry and credit balance.

use vstd::prelude::*;

use crate::chars::str_eq;
use crate::error::AppError;
use crate::ids::fresh_id;
use crate::models::opt_int;
use crate::models::opt_view;
use crate::models::CartItem;
use crate::models::CartItemView;
use crate::models::CategoryView;
use crate::models::FinanceRecord;
use crate::models::FinanceRecordView;
use crate::models::InventoryItem;
use crate::models::InventoryLot;
use crate::models::ItemView;
use crate::models::LotView;
use crate::models::StockCardView;
use crate::models::Transaction;
use crate::models::TransactionView;
use crate::sale::MAX_TOTAL_CENTS;
use crate::store::clamp_qty;
use crate::store::has_sku;
use crate::store::Store;
use crate::store::StoreView;
use crate::validation::MAX_LINE_QTY;
use crate::validation::MAX_UNIT_PRICE_CENTS;
use crate::validation::BALANCE_LIMIT_CENTS;

verus! {

/// One line of a goods receipt.
pub struct GoodsReceiptItem {
    pub product_id: String,
    pub quantity: i32,
    pub buy_price: i64,
    pub sell_price: Option<i64>,
}

#[verifier::ext_equal]
pub struct GoodsReceiptItemView {
    pub product_id: Seq<char>,
    pub quantity: int,
    pub buy_price: int,
    pub sell_price: Option<int>,
}

impl View for GoodsReceiptItem {
    type V = GoodsReceiptItemView;

    open spec fn view(&self) -> GoodsReceiptItemView {
        GoodsReceiptItemView {
            product_id: self.product_id@,
            quantity: self.quantity as int,
            buy_price: self.buy_price as int,
            sell_price: opt_int(self.sell_price),
        }
    }
}

/// Spec-level image of a receipt.
pub open spec fn receipt_view(items: Seq<GoodsReceiptItem>) -> Seq<GoodsReceiptItemView> {
    items.map_values(|it: GoodsReceiptItem| it@)
}

/// A receipt line the ledger can store: positive quantity within the line
/// cap, prices within the price cap.
pub open spec fn receipt_line_ok(it: GoodsReceiptItemView) -> bool {
    &&& 0 < it.quantity <= MAX_LINE_QTY as int
    &&& 0 <= it.buy_price <= MAX_UNIT_PRICE_CENTS as int
    &&& (match it.sell_price {
        Some(p) => 0 <= p <= MAX_UNIT_PRICE_CENTS as int,
        None => true,
    })
}

/// Every line of the receipt is storable.
pub open spec fn receipt_ok(items: Seq<GoodsReceiptItemView>) -> bool {
    forall|i: int| 0 <= i < items.len() ==> receipt_line_ok(#[trigger] items[i])
}

// ==================== Lookup helpers ====================

/// Some item carries this (product) id.
pub open spec fn has_item_id(items: Seq<ItemView>, pid: Seq<char>) -> bool {
    exists|i: int| 0 <= i < items.len() && #[trigger] items[i].id == pid
}

/// Some stock card carries this id.
pub open spec fn has_card_id(cards: Seq<StockCardView>, id: Seq<char>) -> bool {
    exists|i: int| 0 <= i < cards.len() && #[trigger] cards[i].id == id
}

/// The stock card carrying this id (meaningful under unique card ids).
pub open spec fn card_at(cards: Seq<StockCardView>, id: Seq<char>) -> StockCardView
    recommends
        has_card_id(cards, id),
{
    cards[choose|i: int| 0 <= i < cards.len() && #[trigger] cards[i].id == id]
}

/// The name of the category carrying this id, or the default.
pub open spec fn category_name_of(cats: Seq<CategoryView>, cid: Option<Seq<char>>) -> Seq<char> {
    match cid {
        None => "Genel"@,
        Some(c) => if exists|i: int| 0 <= i < cats.len() && (#[trigger] cats[i]).id == c {
            cats[choose|i: int| 0 <= i < cats.len() && (#[trigger] cats[i]).id == c].name
        } else {
            "Genel"@
        },
    }
}

// ==================== The effect of a receipt ====================

/// An item restocked by a receipt line: quantity raised (clamped into the
/// storable range), cost price set, supplier recorded if one was named.
pub open spec fn restocked(
    it: ItemView,
    qty: int,
    buy: int,
    supplier: Option<Seq<char>>,
    now: int,
) -> ItemView {
    ItemView {
        quantity: clamp_qty(it.quantity + qty),
        cost_price: Some(buy),
        supplier_id: match supplier {
            Some(s) => Some(s),
            None => it.supplier_id,
        },
        last_updated: now,
        ..it
    }
}

/// Every item carrying `pid` restocked.
pub open spec fn patch_by_id(
    items: Seq<ItemView>,
    pid: Seq<char>,
    qty: int,
    buy: int,
    supplier: Option<Seq<char>>,
    now: int,
) -> Seq<ItemView> {
    Seq::new(
        items.len(),
        |i: int|
            if items[i].id == pid {
                restocked(items[i], qty, buy, supplier, now)
            } else {
                items[i]
            },
    )
}

/// Every item carrying `sku` restocked.
pub open spec fn patch_by_sku(
    items: Seq<ItemView>,
    sku: Seq<char>,
    qty: int,
    buy: int,
    supplier: Option<Seq<char>>,
    now: int,
) -> Seq<ItemView> {
    Seq::new(
        items.len(),
        |i: int|
            if items[i].sku == sku {
                restocked(items[i], qty, buy, supplier, now)
            } else {
                items[i]
            },
    )
}

/// The sale price a created item opens with: the given sell price, or the
/// buy price with a thirty percent margin, clamped into the storable range.
pub open spec fn opening_price(it: GoodsReceiptItemView) -> int {
    crate::replication::clamp_price(
        match it.sell_price {
            Some(p) => p,
            None => it.buy_price * 13 / 10,
        },
    )
}

/// The item a receipt line creates from its stock card.
pub open spec fn item_from_card(
    card: StockCardView,
    cats: Seq<CategoryView>,
    it: GoodsReceiptItemView,
    supplier: Option<Seq<char>>,
    now: int,
) -> ItemView {
    ItemView {
        id: it.product_id,
        sku: card.barcode,
        name: card.name,
        category: category_name_of(cats, card.category_id),
        quantity: clamp_qty(it.quantity),
        location: "Depo"@,
        price: opening_price(it),
        cost_price: Some(it.buy_price),
        supplier_id: supplier,
        last_updated: now,
    }
}

/// The lot a receipt line opens: full, with `initial_quantity` equal to the
/// received quantity.
pub open spec fn opened_lot(
    it: GoodsReceiptItemView,
    supplier: Option<Seq<char>>,
    date: Seq<char>,
    invoice: Option<Seq<char>>,
    lot_id: Seq<char>,
    now: int,
) -> LotView {
    LotView {
        id: lot_id,
        product_id: it.product_id,
        supplier_id: supplier,
        quantity: it.quantity,
        initial_quantity: it.quantity,
        buy_price: it.buy_price,
        sell_price: it.sell_price,
        receipt_date: date,
        invoice_no: invoice,
        created_at: now,
    }
}

/// Inventory and lots after one receipt line: the item is restocked by
/// product id, else by its stock card's barcode, else created from the card
/// (or skipped when no card exists either); a full lot is opened always.
pub open spec fn apply_receipt_line(
    items: Seq<ItemView>,
    lots: Seq<LotView>,
    cards: Seq<StockCardView>,
    cats: Seq<CategoryView>,
    it: GoodsReceiptItemView,
    supplier: Option<Seq<char>>,
    date: Seq<char>,
    invoice: Option<Seq<char>>,
    lot_id: Seq<char>,
    now: int,
) -> (Seq<ItemView>, Seq<LotView>) {
    let items2 = if has_item_id(items, it.product_id) {
        patch_by_id(items, it.product_id, it.quantity, it.buy_price, supplier, now)
    } else if has_card_id(cards, it.product_id) {
        if has_sku(items, card_at(cards, it.product_id).barcode) {
            patch_by_sku(
                items,
                card_at(cards, it.product_id).barcode,
                it.quantity,
                it.buy_price,
                supplier,
                now,
            )
        } else {
            items.push(item_from_card(card_at(cards, it.product_id), cats, it, supplier, now))
        }
    } else {
        items
    };
    (items2, lots.push(opened_lot(it, supplier, date, invoice, lot_id, now)))
}

/// Inventory and lots after the whole receipt, line by line in order;
/// `lot_ids` are the fresh ids the opened lots received.
pub open spec fn apply_receipt_lines(
    items: Seq<ItemView>,
    lots: Seq<LotView>,
    cards: Seq<StockCardView>,
    cats: Seq<CategoryView>,
    rcpt: Seq<GoodsReceiptItemView>,
    supplier: Option<Seq<char>>,
    date: Seq<char>,
    invoice: Option<Seq<char>>,
    lot_ids: Seq<Seq<char>>,
    now: int,
) -> (Seq<ItemView>, Seq<LotView>)
    decreases rcpt.len(),
{
    if rcpt.len() == 0 {
        (items, lots)
    } else {
        let prev = apply_receipt_lines(
            items,
            lots,
            cards,
            cats,
            rcpt.drop_last(),
            supplier,
            date,
            invoice,
            lot_ids.drop_last(),
            now,
        );
        apply_receipt_line(
            prev.0,
            prev.1,
            cards,
            cats,
            rcpt.last(),
            supplier,
            date,
            invoice,
            lot_ids.last(),
            now,
        )
    }
}

/// The cart lines recorded on the supplier's PURCHASE entry, one per
/// receipt line.
pub open spec fn receipt_cart(rcpt: Seq<GoodsReceiptItemView>) -> Seq<CartItemView> {
    rcpt.map_values(
        |it: GoodsReceiptItemView|
            CartItemView {
                id: it.product_id,
                sku: it.product_id,
                name: ""@,
                cart_quantity: it.quantity,
                price: it.buy_price,
                cost_price: Some(it.buy_price),
            },
    )
}

/// The accounts with the supplier's balance raised by the receipt total
/// (saturating at the balance limit).
pub open spec fn supplier_credited(
    accounts: Seq<crate::models::AccountView>,
    sid: Seq<char>,
    amount: int,
    now: int,
) -> Seq<crate::models::AccountView> {
    Seq::new(
        accounts.len(),
        |i: int|
            if accounts[i].id == sid {
                crate::models::AccountView {
                    balance: crate::sale::clamp_balance(accounts[i].balance + amount),
                    updated_at: now,
                    ..accounts[i]
                }
            } else {
                accounts[i]
            },
    )
}

/// The whole effect of a goods receipt: the cash movement (unless bought on
/// credit, when no cash moves yet), the per-line restocks and opened lots,
/// and — when a supplier is named — their PURCHASE ledger entry and, for a
/// credit purchase, their balance.
pub open spec fn apply_receipt(
    s: StoreView,
    rcpt: Seq<GoodsReceiptItemView>,
    total: int,
    pm: Seq<char>,
    desc: Seq<char>,
    date: Seq<char>,
    supplier: Option<Seq<char>>,
    invoice: Option<Seq<char>>,
    lot_ids: Seq<Seq<char>>,
    tx_id: Seq<char>,
    now: int,
) -> StoreView {
    let finance2 = if pm != "VADELI"@ {
        s.finance_records.push(
            FinanceRecordView {
                id: s.finance_records.len() as int + 1,
                record_type: "EXPENSE"@,
                category: "MAL_KABUL"@,
                amount: total,
                payment_method: pm,
                description: desc,
                date: date,
                created_at: now,
            },
        )
    } else {
        s.finance_records
    };
    let il = apply_receipt_lines(
        s.items,
        s.lots,
        s.stock_cards,
        s.categories,
        rcpt,
        supplier,
        date,
        invoice,
        lot_ids,
        now,
    );
    match supplier {
        None => StoreView { items: il.0, lots: il.1, finance_records: finance2, ..s },
        Some(sid) => StoreView {
            items: il.0,
            lots: il.1,
            finance_records: finance2,
            transactions: s.transactions.push(
                TransactionView {
                    id: tx_id,
                    items: receipt_cart(rcpt),
                    total: total,
                    payment_method: pm,
                    transaction_type: "PURCHASE"@,
                    status: "COMPLETED"@,
                    note: Some("Mal Kabul Fatura"@),
                    created_at: now,
                    customer_id: Some(sid),
                },
            ),
            accounts: if pm == "VADELI"@ {
                supplier_credited(s.accounts, sid, total, now)
            } else {
                s.accounts
            },
            ..s
        },
    }
}

// ==================== Executable operations ====================

/// Under unique card ids, the chosen card for `id` is the one at any
/// matching index.
pub proof fn lemma_card_at(cards: Seq<StockCardView>, id: Seq<char>, i: int)
    requires
        forall|a: int, b: int| 0 <= a < b < cards.len() ==> cards[a].id != cards[b].id,
        0 <= i < cards.len(),
        cards[i].id == id,
    ensures
        has_card_id(cards, id),
        card_at(cards, id) == cards[i],
{
    assert(has_card_id(cards, id));
    let k = choose|k: int| 0 <= k < cards.len() && #[trigger] cards[k].id == id;
    if k < i {
        assert(cards[k].id != cards[i].id);
    } else if i < k {
        assert(cards[i].id != cards[k].id);
    }
}

impl Store {
    /// Index of the stock card carrying `id`, if any.
    pub fn find_card_index(&self, id: &str) -> (r: Option<usize>)
        ensures
            match r {
                Some(i) => i < self@.stock_cards.len() && self@.stock_cards[i as int].id == id@,
                None => !has_card_id(self@.stock_cards, id@),
            },
    {
        let mut i: usize = 0;
        while i < self.stock_cards.len()
            invariant
                i <= self@.stock_cards.len(),
                forall|j: int| 0 <= j < i ==> (#[trigger] self@.stock_cards[j]).id != id@,
            decreases self@.stock_cards.len() - i,
        {
            if str_eq(self.stock_cards[i].id.as_str(), id) {
                return Some(i);
            }
            i += 1;
        }
        None
    }

    /// The display name of the category carrying `cid`, defaulting when none
    /// is named or found.
    #[verifier::loop_isolation(false)]
    pub fn category_name(&self, cid: &Option<String>) -> (r: String)
        requires
            self@.wf(),
        ensures
            r@ == category_name_of(self@.categories, opt_view(*cid)),
    {
        match cid {
            None => String::from_str("Genel"),
            Some(c) => {
                let mut i: usize = 0;
                while i < self.categories.len()
                    invariant
                        self@.wf(),
                        i <= self@.categories.len(),
                        forall|j: int| 0 <= j < i ==> (#[trigger] self@.categories[j]).id != c@,
                    decreases self@.categories.len() - i,
                {
                    if str_eq(self.categories[i].id.as_str(), c.as_str()) {
                        proof {
                            let cats = self@.categories;
                            assert((#[trigger] cats[i as int]).id == c@);
                            assert(exists|k: int|
                                0 <= k < cats.len() && (#[trigger] cats[k]).id == c@);
                            let k = choose|k: int|
                                0 <= k < cats.len() && (#[trigger] cats[k]).id == c@;
                            if k < i as int {
                                assert(cats[k].id != cats[i as int].id);
                            } else if (i as int) < k {
                                assert(cats[i as int].id != cats[k].id);
                            }
                            assert(cats[k].name == cats[i as int].name);
                        }
                        return self.categories[i].name.clone();
                    }
                    i += 1;
                }
                String::from_str("Genel")
            },
        }
    }
}

/// Restock every item carrying this product id; report whether any did.
#[verifier::loop_isolation(false)]
fn restock_by_id_exec(
    store: &mut Store,
    pid: &str,
    qty: i32,
    buy: i64,
    supplier: &Option<String>,
    now: u64,
) -> (r: bool)
    requires
        old(store)@.wf(),
        0 < qty <= MAX_LINE_QTY,
        0 <= buy <= MAX_UNIT_PRICE_CENTS,
    ensures
        final(store)@.wf(),
        r == has_item_id(old(store)@.items, pid@),
        r ==> final(store)@ == (StoreView {
            items: patch_by_id(
                old(store)@.items,
                pid@,
                qty as int,
                buy as int,
                opt_view(*supplier),
                now as int,
            ),
            ..old(store)@
        }),
        !r ==> final(store)@ == old(store)@,
{
    let ghost items0 = old(store)@.items;
    let mut touched = false;
    let mut k: usize = 0;
    while k < store.items.len()
        invariant
            store@.wf(),
            0 < qty <= MAX_LINE_QTY,
            0 <= buy <= MAX_UNIT_PRICE_CENTS,
            k <= store@.items.len(),
            store@.items.len() == items0.len(),
            touched <==> (exists|j: int| 0 <= j < k && (#[trigger] items0[j]).id == pid@),
            forall|j: int|
                0 <= j < k ==> store@.items[j] == patch_by_id(
                    items0,
                    pid@,
                    qty as int,
                    buy as int,
                    opt_view(*supplier),
                    now as int,
                )[j],
            forall|j: int| k <= j < items0.len() ==> store@.items[j] == items0[j],
            store@ == (StoreView { items: store@.items, ..old(store)@ }),
        decreases store@.items.len() - k,
    {
        let ghost pre = store@.items;
        if str_eq(store.items[k].id.as_str(), pid) {
            let cur = store.items[k].quantity;
            let wide: i64 = cur as i64 + qty as i64;
            let nq: i32 = if wide > crate::validation::MAX_ITEM_QTY as i64 {
                crate::validation::MAX_ITEM_QTY
            } else {
                wide as i32
            };
            let mut patched = store.items[k].duplicate();
            patched.quantity = nq;
            patched.cost_price = Some(buy);
            match supplier {
                Some(s) => {
                    patched.supplier_id = Some(s.clone());
                },
                None => {
                },
            }
            patched.last_updated = now;
            store.items[k] = patched;
            touched = true;
            proof {
                assert(store@.items =~= pre.update(
                    k as int,
                    restocked(
                        items0[k as int],
                        qty as int,
                        buy as int,
                        opt_view(*supplier),
                        now as int,
                    ),
                ));
                assert(forall|j: int|
                    0 <= j < store@.items.len() ==> (#[trigger] store@.items[j]).sku
                        == pre[j].sku && store@.items[j].quantity >= 0 && store@.items[j].quantity
                        <= crate::validation::MAX_ITEM_QTY as int && store@.items[j].price
                        == pre[j].price);
                assert forall|a: int, b: int|
                    0 <= a < b < store@.items.len() implies store@.items[a].sku
                    != store@.items[b].sku by {
                    assert(pre[a].sku != pre[b].sku);
                }
                assert(store@ =~= StoreView { items: store@.items, ..old(store)@ });
            }
        }
        k += 1;
    }
    proof {
        if touched {
            assert(store@.items =~= patch_by_id(
                items0,
                pid@,
                qty as int,
                buy as int,
                opt_view(*supplier),
                now as int,
            ));
            assert(store@ =~= StoreView { items: store@.items, ..old(store)@ });
        } else {
            assert(store@.items =~= items0);
            assert(store@ =~= old(store)@);
        }
    }
    touched
}

/// Restock every item carrying this SKU; report whether any did.
#[verifier::loop_isolation(false)]
fn restock_by_sku_exec(
    store: &mut Store,
    sku: &str,
    qty: i32,
    buy: i64,
    supplier: &Option<String>,
    now: u64,
) -> (r: bool)
    requires
        old(store)@.wf(),
        0 < qty <= MAX_LINE_QTY,
        0 <= buy <= MAX_UNIT_PRICE_CENTS,
    ensures
        final(store)@.wf(),
        r == has_sku(old(store)@.items, sku@),
        r ==> final(store)@ == (StoreView {
            items: patch_by_sku(
                old(store)@.items,
                sku@,
                qty as int,
                buy as int,
                opt_view(*supplier),
                now as int,
            ),
            ..old(store)@
        }),
        !r ==> final(store)@ == old(store)@,
{
    let ghost items0 = old(store)@.items;
    let mut touched = false;
    let mut k: usize = 0;
    while k < store.items.len()
        invariant
            store@.wf(),
            0 < qty <= MAX_LINE_QTY,
            0 <= buy <= MAX_UNIT_PRICE_CENTS,
            k <= store@.items.len(),
            store@.items.len() == items0.len(),
            touched <==> (exists|j: int| 0 <= j < k && (#[trigger] items0[j]).sku == sku@),
            forall|j: int|
                0 <= j < k ==> store@.items[j] == patch_by_sku(
                    items0,
                    sku@,
                    qty as int,
                    buy as int,
                    opt_view(*supplier),
                    now as int,
                )[j],
            forall|j: int| k <= j < items0.len() ==> store@.items[j] == items0[j],
            store@ == (StoreView { items: store@.items, ..old(store)@ }),
        decreases store@.items.len() - k,
    {
        let ghost pre = store@.items;
        if str_eq(store.items[k].sku.as_str(), sku) {
            let cur = store.items[k].quantity;
            let wide: i64 = cur as i64 + qty as i64;
            let nq: i32 = if wide > crate::validation::MAX_ITEM_QTY as i64 {
                crate::validation::MAX_ITEM_QTY
            } else {
                wide as i32
            };
            let mut patched = store.items[k].duplicate();
            patched.quantity = nq;
            patched.cost_price = Some(buy);
            match supplier {
                Some(s) => {
                    patched.supplier_id = Some(s.clone());
                },
                None => {
                },
            }
            patched.last_updated = now;
            store.items[k] = patched;
            touched = true;
            proof {
                assert(store@.items =~= pre.update(
                    k as int,
                    restocked(
                        items0[k as int],
                        qty as int,
                        buy as int,
                        opt_view(*supplier),
                        now as int,
                    ),
                ));
                assert(forall|j: int|
                    0 <= j < store@.items.len() ==> (#[trigger] store@.items[j]).sku
                        == pre[j].sku && store@.items[j].quantity >= 0 && store@.items[j].quantity
                        <= crate::validation::MAX_ITEM_QTY as int && store@.items[j].price
                        == pre[j].price);
                assert forall|a: int, b: int|
                    0 <= a < b < store@.items.len() implies store@.items[a].sku
                    != store@.items[b].sku by {
                    assert(pre[a].sku != pre[b].sku);
                }
                assert(store@ =~= StoreView { items: store@.items, ..old(store)@ });
            }
        }
        k += 1;
    }
    proof {
        if touched {
            assert(store@.items =~= patch_by_sku(
                items0,
                sku@,
                qty as int,
                buy as int,
                opt_view(*supplier),
                now as int,
            ));
            assert(store@ =~= StoreView { items: store@.items, ..old(store)@ });
        } else {
            assert(store@.items =~= items0);
            assert(store@ =~= old(store)@);
        }
    }
    touched
}

/// Raise the supplier's balance by the receipt amount (saturating), if such
/// an account exists.
fn supplier_credit_exec(store: &mut Store, sid: &str, amount: i64, now: u64)
    requires
        old(store)@.wf(),
        -MAX_TOTAL_CENTS <= amount <= MAX_TOTAL_CENTS,
    ensures
        final(store)@.wf(),
        final(store)@ == (StoreView {
            accounts: supplier_credited(old(store)@.accounts, sid@, amount as int, now as int),
            ..old(store)@
        }),
{
    let ghost accounts0 = old(store)@.accounts;
    match store.find_account_index(sid) {
        None => {
            proof {
                assert(supplier_credited(accounts0, sid@, amount as int, now as int)
                    =~= accounts0);
                assert(store@ =~= StoreView { accounts: accounts0, ..old(store)@ });
            }
        },
        Some(i) => {
            let wide: i64 = store.accounts[i].balance + amount;
            let nb: i64 = if wide > BALANCE_LIMIT_CENTS {
                BALANCE_LIMIT_CENTS
            } else if wide < -BALANCE_LIMIT_CENTS {
                -BALANCE_LIMIT_CENTS
            } else {
                wide
            };
            let mut patched = store.accounts[i].duplicate();
            patched.balance = nb;
            patched.updated_at = now;
            store.accounts[i] = patched;
            proof {
                assert forall|j: int| 0 <= j < accounts0.len() && j != i as int implies
                    accounts0[j].id != sid@ by {
                    if j < i as int {
                        assert(accounts0[j].id != accounts0[i as int].id);
                    } else {
                        assert(accounts0[i as int].id != accounts0[j].id);
                    }
                }
                assert(store@.accounts =~= supplier_credited(
                    accounts0,
                    sid@,
                    amount as int,
                    now as int,
                ));
                assert(store@ =~= StoreView { accounts: store@.accounts, ..old(store)@ });
            }
        },
    }
}

/// Receive one batch into the lot ledger: a new lot opens full, with
/// `initial_quantity` equal to what was received, and is never deleted.
pub fn receive_lot(
    store: &mut Store,
    product_id: String,
    supplier_id: Option<String>,
    quantity: i32,
    buy_price: i64,
    sell_price: Option<i64>,
    receipt_date: String,
    invoice_no: Option<String>,
    now: u64,
) -> (r: Result<String, AppError>)
    requires
        old(store)@.wf(),
    ensures
        final(store)@.wf(),
        r is Ok <==> receipt_line_ok(
            GoodsReceiptItemView {
                product_id: product_id@,
                quantity: quantity as int,
                buy_price: buy_price as int,
                sell_price: opt_int(sell_price),
            },
        ),
        r matches Ok(id) ==> id@.len() == 36 && final(store)@ == (StoreView {
            lots: old(store)@.lots.push(
                opened_lot(
                    (GoodsReceiptItemView {
                        product_id: product_id@,
                        quantity: quantity as int,
                        buy_price: buy_price as int,
                        sell_price: opt_int(sell_price),
                    }),
                    opt_view(supplier_id),
                    receipt_date@,
                    opt_view(invoice_no),
                    id@,
                    now as int,
                ),
            ),
            ..old(store)@
        }),
        r is Err ==> final(store)@ == old(store)@,
{
    if quantity <= 0 || quantity > MAX_LINE_QTY || buy_price < 0 || buy_price
        > MAX_UNIT_PRICE_CENTS {
        return Err(AppError::Validation(String::from_str("Geçersiz mal kabul kalemi")));
    }
    match sell_price {
        Some(p) => if p < 0 || p > MAX_UNIT_PRICE_CENTS {
            return Err(AppError::Validation(String::from_str("Geçersiz mal kabul kalemi")));
        },
        None => {
        },
    }
    let lot_id = fresh_id();
    let lot = InventoryLot {
        id: lot_id.clone(),
        product_id,
        supplier_id,
        quantity,
        initial_quantity: quantity,
        buy_price,
        sell_price,
        receipt_date,
        invoice_no,
        created_at: now,
    };
    let ghost pre = store@.lots;
    let ghost lv = lot@;
    store.lots.push(lot);
    proof {
        assert(store@.lots =~= pre.push(lv));
        assert(store@ =~= StoreView { lots: pre.push(lv), ..old(store)@ });
    }
    Ok(lot_id)
}

/// The lots of one product, in receipt order, copied out.
pub fn get_product_lots(store: &Store, product_id: &str) -> (r: Result<Vec<InventoryLot>, AppError>)
    ensures
        r matches Ok(v) ==> v@.map_values(|l: InventoryLot| l@) == store@.lots.filter(
            |l: LotView| l.product_id == product_id@,
        ),
        r is Ok,
{
    let ghost target = store@.lots.filter(|l: LotView| l.product_id == product_id@);
    let mut out: Vec<InventoryLot> = Vec::new();
    let mut k: usize = 0;
    while k < store.lots.len()
        invariant
            k <= store@.lots.len(),
            out@.map_values(|l: InventoryLot| l@) =~= store@.lots.take(k as int).filter(
                |l: LotView| l.product_id == product_id@,
            ),
        decreases store@.lots.len() - k,
    {
        proof {
            assert(store@.lots.take(k + 1).drop_last() =~= store@.lots.take(k as int));
            assert(store@.lots.take(k + 1).last() == store@.lots[k as int]);
            reveal_with_fuel(Seq::filter, 2);
        }
        let ghost out_pre = out@;
        if str_eq(store.lots[k].product_id.as_str(), product_id) {
            out.push(store.lots[k].duplicate());
            proof {
                assert(out@.map_values(|l: InventoryLot| l@) =~= out_pre.map_values(
                    |l: InventoryLot| l@,
                ).push(store@.lots[k as int]));
            }
        }
        k += 1;
    }
    proof {
        assert(store@.lots.take(store@.lots.len() as int) =~= store@.lots);
    }
    Ok(out)
}

/// Process a goods receipt atomically: record the cash movement (unless the
/// purchase is on credit), restock or create every received item, open one
/// full lot per line, and — when a supplier is named — book their PURCHASE
/// entry and, on credit, their balance. A malformed line rejects the whole
/// receipt with no effect.
#[verifier::loop_isolation(false)]
pub fn process_goods_receipt(
    store: &mut Store,
    items: Vec<GoodsReceiptItem>,
    total_amount: i64,
    payment_method: String,
    description: String,
    date: String,
    supplier_id: Option<String>,
    invoice_no: Option<String>,
    now: u64,
) -> (r: Result<(), AppError>)
    requires
        old(store)@.wf(),
        -MAX_TOTAL_CENTS <= total_amount <= MAX_TOTAL_CENTS,
        old(store)@.finance_records.len() < 1_000_000_000_000,
    ensures
        final(store)@.wf(),
        r is Ok <==> receipt_ok(receipt_view(items@)),
        r is Ok ==> (exists|lot_ids: Seq<Seq<char>>, tx_id: Seq<char>|
            lot_ids.len() == items@.len() && final(store)@ == #[trigger] apply_receipt(
                old(store)@,
                receipt_view(items@),
                total_amount as int,
                payment_method@,
                description@,
                date@,
                opt_view(supplier_id),
                opt_view(invoice_no),
                lot_ids,
                tx_id,
                now as int,
            )),
        r matches Err(e) ==> final(store)@ == old(store)@ && e matches AppError::Validation(_),
{
    let ghost s0 = old(store)@;
    let ghost rv = receipt_view(items@);
    // validate every line before touching anything
    let mut v: usize = 0;
    while v < items.len()
        invariant
            store@ == s0,
            v <= items@.len(),
            rv == receipt_view(items@),
            forall|j: int| 0 <= j < v ==> receipt_line_ok(#[trigger] rv[j]),
        decreases items@.len() - v,
    {
        let line = &items[v];
        let mut bad = line.quantity <= 0 || line.quantity > MAX_LINE_QTY || line.buy_price < 0
            || line.buy_price > MAX_UNIT_PRICE_CENTS;
        match line.sell_price {
            Some(p) => if p < 0 || p > MAX_UNIT_PRICE_CENTS {
                bad = true;
            },
            None => {
            },
        }
        if bad {
            proof {
                assert(!receipt_line_ok(rv[v as int]));
            }
            return Err(AppError::Validation(String::from_str("Geçersiz mal kabul kalemi")));
        }
        v += 1;
    }
    // cash movement, unless bought on credit
    if !str_eq(payment_method.as_str(), "VADELI") {
        let fid: i64 = store.finance_records.len() as i64 + 1;
        let record = FinanceRecord {
            id: fid,
            record_type: String::from_str("EXPENSE"),
            category: String::from_str("MAL_KABUL"),
            amount: total_amount,
            payment_method: payment_method.clone(),
            description: description.clone(),
            date: date.clone(),
            created_at: now,
        };
        let ghost pre = store@.finance_records;
        let ghost recv = record@;
        store.finance_records.push(record);
        proof {
            assert(store@.finance_records =~= pre.push(recv));
            assert(store@ =~= StoreView { finance_records: pre.push(recv), ..s0 });
        }
    }
    // per-line restock and lot opening
    let ghost mut lot_ids: Seq<Seq<char>> = Seq::empty();
    let ghost fin1 = store@.finance_records;
    let mut k: usize = 0;
    proof {
        assert(rv.take(0) =~= Seq::<GoodsReceiptItemView>::empty());
    }
    while k < items.len()
        invariant
            old(store)@ == s0,
            store@.wf(),
            k <= items@.len(),
            rv == receipt_view(items@),
            forall|j: int| 0 <= j < items@.len() ==> receipt_line_ok(#[trigger] rv[j]),
            lot_ids.len() == k,
            ({
                let il = apply_receipt_lines(
                    s0.items,
                    s0.lots,
                    s0.stock_cards,
                    s0.categories,
                    rv.take(k as int),
                    opt_view(supplier_id),
                    date@,
                    opt_view(invoice_no),
                    lot_ids,
                    now as int,
                );
                store@ == (StoreView { items: il.0, lots: il.1, finance_records: fin1, ..s0 })
            }),
        decreases items@.len() - k,
    {
        let ghost items_pre = store@.items;
        let ghost lots_pre = store@.lots;
        proof {
            assert(rv.take(k + 1).drop_last() =~= rv.take(k as int));
            assert(rv.take(k + 1).last() == rv[k as int]);
            assert(receipt_line_ok(rv[k as int]));
        }
        let line = &items[k];
        let had_id = restock_by_id_exec(
            store,
            line.product_id.as_str(),
            line.quantity,
            line.buy_price,
            &supplier_id,
            now,
        );
        if !had_id {
            match store.find_card_index(line.product_id.as_str()) {
                None => {
                },
                Some(ci) => {
                    proof {
                        lemma_card_at(store@.stock_cards, line.product_id@, ci as int);
                        assert(store@.stock_cards == s0.stock_cards);
                    }
                    let barcode = store.stock_cards[ci].barcode.clone();
                    let had_sku = restock_by_sku_exec(
                        store,
                        barcode.as_str(),
                        line.quantity,
                        line.buy_price,
                        &supplier_id,
                        now,
                    );
                    if !had_sku {
                        let card_name = store.stock_cards[ci].name.clone();
                        let card_cat = crate::models::dup_opt_string(
                            &store.stock_cards[ci].category_id,
                        );
                        let cat_name = store.category_name(&card_cat);
                        let base_price: i64 = match line.sell_price {
                            Some(p) => p,
                            None => line.buy_price * 13 / 10,
                        };
                        let price: i64 = if base_price < 0 {
                            0
                        } else if base_price > MAX_UNIT_PRICE_CENTS {
                            MAX_UNIT_PRICE_CENTS
                        } else {
                            base_price
                        };
                        let created = InventoryItem {
                            id: line.product_id.clone(),
                            sku: barcode,
                            name: card_name,
                            category: cat_name,
                            quantity: line.quantity,
                            location: String::from_str("Depo"),
                            price,
                            cost_price: Some(line.buy_price),
                            supplier_id: crate::models::dup_opt_string(&supplier_id),
                            last_updated: now,
                        };
                        let ghost pre_items = store@.items;
                        let ghost cview = created@;
                        store.items.push(created);
                        proof {
                            assert(cview == item_from_card(
                                card_at(s0.stock_cards, line.product_id@),
                                s0.categories,
                                rv[k as int],
                                opt_view(supplier_id),
                                now as int,
                            ));
                            assert(store@.items =~= pre_items.push(cview));
                        }
                    }
                },
            }
        }
        let lot_id = fresh_id();
        let lot = InventoryLot {
            id: lot_id,
            product_id: line.product_id.clone(),
            supplier_id: crate::models::dup_opt_string(&supplier_id),
            quantity: line.quantity,
            initial_quantity: line.quantity,
            buy_price: line.buy_price,
            sell_price: line.sell_price,
            receipt_date: date.clone(),
            invoice_no: crate::models::dup_opt_string(&invoice_no),
            created_at: now,
        };
        let ghost pre_lots2 = store@.lots;
        let ghost lview = lot@;
        let ghost lot_ids_pre = lot_ids;
        store.lots.push(lot);
        proof {
            lot_ids = lot_ids_pre.push(lview.id);
            assert(store@.lots =~= pre_lots2.push(lview));
            assert(lview == opened_lot(
                rv[k as int],
                opt_view(supplier_id),
                date@,
                opt_view(invoice_no),
                lview.id,
                now as int,
            ));
            assert(lot_ids.drop_last() =~= lot_ids_pre);
            assert(lot_ids.last() == lview.id);
        }
        k += 1;
        proof {
            let il_prev = apply_receipt_lines(
                s0.items,
                s0.lots,
                s0.stock_cards,
                s0.categories,
                rv.take(k - 1),
                opt_view(supplier_id),
                date@,
                opt_view(invoice_no),
                lot_ids_pre,
                now as int,
            );
            assert(il_prev.0 == items_pre && il_prev.1 == lots_pre);
            let stepped = apply_receipt_line(
                items_pre,
                lots_pre,
                s0.stock_cards,
                s0.categories,
                rv[k - 1],
                opt_view(supplier_id),
                date@,
                opt_view(invoice_no),
                lview.id,
                now as int,
            );
            assert(store@.items == stepped.0);
            assert(store@.lots == stepped.1);
            let il = apply_receipt_lines(
                s0.items,
                s0.lots,
                s0.stock_cards,
                s0.categories,
                rv.take(k as int),
                opt_view(supplier_id),
                date@,
                opt_view(invoice_no),
                lot_ids,
                now as int,
            );
            assert(il == stepped);
            assert(store@ =~= StoreView { items: il.0, lots: il.1, finance_records: fin1, ..s0 });
        }
    }
    proof {
        assert(rv.take(items@.len() as int) =~= rv);
    }
    // the supplier's ledger entry and, on credit, their balance
    match &supplier_id {
        None => {
            proof {
                assert(store@ =~= apply_receipt(
                    s0,
                    rv,
                    total_amount as int,
                    payment_method@,
                    description@,
                    date@,
                    opt_view(supplier_id),
                    opt_view(invoice_no),
                    lot_ids,
                    ""@,
                    now as int,
                ));
            }
            Ok(())
        },
        Some(sid) => {
            let mut cart: Vec<CartItem> = Vec::new();
            let mut c: usize = 0;
            while c < items.len()
                invariant
                    c <= items@.len(),
                    rv == receipt_view(items@),
                    cart@.len() == c,
                    forall|j: int| 0 <= j < c ==> #[trigger] cart@[j]@ == receipt_cart(rv)[j],
                decreases items@.len() - c,
            {
                cart.push(
                    CartItem {
                        id: items[c].product_id.clone(),
                        sku: items[c].product_id.clone(),
                        name: String::from_str(""),
                        cart_quantity: items[c].quantity,
                        price: items[c].buy_price,
                        cost_price: Some(items[c].buy_price),
                    },
                );
                c += 1;
            }
            let tx_id = fresh_id();
            let tx = Transaction {
                id: tx_id,
                items: cart,
                total: total_amount,
                payment_method: payment_method.clone(),
                transaction_type: String::from_str("PURCHASE"),
                status: String::from_str("COMPLETED"),
                note: Some(String::from_str("Mal Kabul Fatura")),
                created_at: now,
                customer_id: Some(sid.clone()),
            };
            let ghost pre_tx = store@.transactions;
            let ghost txv = tx@;
            store.transactions.push(tx);
            proof {
                assert(txv.items =~= receipt_cart(rv));
                assert(store@.transactions =~= pre_tx.push(txv));
                assert(store@.wf());
            }
            if str_eq(payment_method.as_str(), "VADELI") {
                supplier_credit_exec(store, sid.as_str(), total_amount, now);
            }
            proof {
                assert(store@ =~= apply_receipt(
                    s0,
                    rv,
                    total_amount as int,
                    payment_method@,
                    description@,
                    date@,
                    opt_view(supplier_id),
                    opt_view(invoice_no),
                    lot_ids,
                    txv.id,
                    now as int,
                ));
            }
            Ok(())
        },
    }
}

} // verus!
