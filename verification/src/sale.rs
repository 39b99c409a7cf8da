//! The sale transaction processor: validate a cart against the catalog
//! (quantity and anti-tamper price checks), record the ledger entry, restock
//! or destock the touched items, consume lots first-in-first-out on sales,
//! and adjust the counterparty balance — atomically, or fail with no effect.

use vstd::prelude::*;

use crate::chars::str_eq;
use crate::error::AppError;
use crate::ids::fresh_id;
use crate::models::cart_view;
use crate::models::opt_view;
use crate::models::AccountView;
use crate::models::CartItem;
use crate::models::CartItemView;
use crate::models::ItemView;
use crate::models::LotView;
use crate::models::Transaction;
use crate::models::TransactionView;
use crate::store::clamp_qty;
use crate::store::has_sku;
use crate::store::item_at;
use crate::store::item_bounded;
use crate::store::lemma_item_at;
use crate::store::with_quantity;
use crate::store::Store;
use crate::store::StoreView;
use crate::validation::BALANCE_LIMIT_CENTS;
use crate::validation::MAX_CART_LINES;
use crate::validation::MAX_LINE_QTY;
use crate::validation::MAX_UNIT_PRICE_CENTS;

verus! {

/// Largest magnitude one cart line can contribute to a total, in cents.
pub const MAX_LINE_AMOUNT_CENTS: i64 = 1_000_000_000_000_000;

/// Largest magnitude a cart total can reach, in cents.
pub const MAX_TOTAL_CENTS: i64 = 1_000_000_000_000_000_000;

// ==================== Line checking ====================

/// The verdict on one cart line.
pub enum LineCheck {
    /// The quantity is not positive.
    Invalid,
    /// The submitted price strays more than one cent from the stored price.
    PriceMismatch,
    /// The SKU is unknown and the line is no discount or service line.
    NotFound,
    /// The line is accepted.
    Accepted,
}

/// Synthetic service codes accepted without a catalog entry.
pub open spec fn special_sku(sku: Seq<char>) -> bool {
    sku == "IND"@ || sku == "TAHSILAT"@
}

/// Check one cart line against the catalog: quantity must be positive; a
/// known SKU must carry a price within one cent of the stored one; an
/// unknown SKU passes only as a discount (negative price) or service code.
pub open spec fn check_line(items: Seq<ItemView>, line: CartItemView) -> LineCheck {
    if line.cart_quantity <= 0 {
        LineCheck::Invalid
    } else if has_sku(items, line.sku) {
        if line.price - item_at(items, line.sku).price > 1 || item_at(items, line.sku).price
            - line.price > 1 {
            LineCheck::PriceMismatch
        } else {
            LineCheck::Accepted
        }
    } else if special_sku(line.sku) || line.price < 0 {
        LineCheck::Accepted
    } else {
        LineCheck::NotFound
    }
}

/// The price a line is charged at: the stored price of record where the SKU
/// is known, the submitted price otherwise.
pub open spec fn eff_price(items: Seq<ItemView>, line: CartItemView) -> int {
    if has_sku(items, line.sku) {
        item_at(items, line.sku).price
    } else {
        line.price
    }
}

/// The first `f` lines all pass the check.
pub open spec fn prefix_ok(items: Seq<ItemView>, cart: Seq<CartItemView>, f: int) -> bool {
    forall|j: int| 0 <= j < f ==> check_line(items, #[trigger] cart[j]) is Accepted
}

/// Every line passes the check.
pub open spec fn cart_ok(items: Seq<ItemView>, cart: Seq<CartItemView>) -> bool {
    prefix_ok(items, cart, cart.len() as int)
}

/// The error a faulty line surfaces as.
pub open spec fn line_error(c: LineCheck, e: AppError) -> bool {
    match c {
        LineCheck::Invalid => (e matches AppError::Validation(m) && m@
            == "Geçersiz miktar: miktar 0'dan büyük olmalı"@),
        LineCheck::PriceMismatch => (e matches AppError::Validation(m) && m@
            == "GÜVENLİK UYARISI: Fiyat uyuşmazlığı! Gönderilen fiyat sistem fiyatı ile uyuşmuyor"@),
        LineCheck::NotFound => (e matches AppError::NotFound(m) && m@
            == "Ürün veritabanında bulunamadı"@),
        LineCheck::Accepted => false,
    }
}

/// Cart shape within machine limits, so that every total fits in `i64`.
pub open spec fn cart_in_limits(cart: Seq<CartItemView>) -> bool {
    &&& cart.len() <= MAX_CART_LINES as int
    &&& forall|i: int|
        0 <= i < cart.len() ==> -(MAX_UNIT_PRICE_CENTS as int) <= (#[trigger] cart[i]).price
            <= MAX_UNIT_PRICE_CENTS as int && cart[i].cart_quantity <= MAX_LINE_QTY as int
}

// ==================== Totals ====================

/// Sum of effective price times quantity over the cart, in cents.
pub open spec fn cart_total(items: Seq<ItemView>, cart: Seq<CartItemView>) -> int
    decreases cart.len(),
{
    if cart.len() == 0 {
        0
    } else {
        cart_total(items, cart.drop_last()) + eff_price(items, cart.last())
            * cart.last().cart_quantity
    }
}

/// The cart total, negated for returns.
pub open spec fn signed_total(items: Seq<ItemView>, cart: Seq<CartItemView>, ttype: Seq<
    char,
>) -> int {
    if ttype == "RETURN"@ {
        -cart_total(items, cart)
    } else {
        cart_total(items, cart)
    }
}

/// Bound on one line's contribution to a total.
pub proof fn lemma_line_amount_bound(p: int, q: int)
    requires
        -(MAX_UNIT_PRICE_CENTS as int) <= p <= MAX_UNIT_PRICE_CENTS as int,
        0 <= q <= MAX_LINE_QTY as int,
    ensures
        -(MAX_LINE_AMOUNT_CENTS as int) <= p * q <= MAX_LINE_AMOUNT_CENTS as int,
{
    assert(-(MAX_LINE_AMOUNT_CENTS as int) <= p * q <= MAX_LINE_AMOUNT_CENTS as int) by (nonlinear_arith)
        requires
            -10_000_000_000 <= p <= 10_000_000_000,
            0 <= q <= 100_000,
    ;
}

// ==================== Applying a sale to the state ====================

/// Lots after consuming `need` units of `product_id` oldest-first: each lot
/// gives up the smaller of its remaining quantity and what is still needed.
pub open spec fn consume_lots(lots: Seq<LotView>, product_id: Seq<char>, need: int) -> Seq<LotView>
    decreases lots.len(),
{
    if lots.len() == 0 || need <= 0 {
        lots
    } else {
        let l0 = lots[0];
        if l0.product_id == product_id && l0.quantity > 0 {
            let take_q = if need < l0.quantity {
                need
            } else {
                l0.quantity
            };
            seq![LotView { quantity: l0.quantity - take_q, ..l0 }] + consume_lots(
                lots.drop_first(),
                product_id,
                need - take_q,
            )
        } else {
            seq![l0] + consume_lots(lots.drop_first(), product_id, need)
        }
    }
}

/// Inventory and lots after one accepted cart line: a discount line touches
/// nothing; a known SKU is restocked (RETURN) or destocked (clamped at zero),
/// and a SALE additionally consumes its lots oldest-first.
pub open spec fn apply_sale_line(
    items: Seq<ItemView>,
    lots: Seq<LotView>,
    line: CartItemView,
    ttype: Seq<char>,
    now: int,
) -> (Seq<ItemView>, Seq<LotView>) {
    if line.price < 0 {
        (items, lots)
    } else if has_sku(items, line.sku) {
        let it = item_at(items, line.sku);
        let nq = clamp_qty(
            if ttype == "RETURN"@ {
                it.quantity + line.cart_quantity
            } else {
                it.quantity - line.cart_quantity
            },
        );
        let items2 = with_quantity(items, line.sku, nq, now);
        let lots2 = if ttype == "SALE"@ {
            consume_lots(lots, it.id, line.cart_quantity)
        } else {
            lots
        };
        (items2, lots2)
    } else {
        (items, lots)
    }
}

/// Inventory and lots after the whole cart, applied line by line in order.
pub open spec fn apply_sale_lines(
    items: Seq<ItemView>,
    lots: Seq<LotView>,
    cart: Seq<CartItemView>,
    ttype: Seq<char>,
    now: int,
) -> (Seq<ItemView>, Seq<LotView>)
    decreases cart.len(),
{
    if cart.len() == 0 {
        (items, lots)
    } else {
        let prev = apply_sale_lines(items, lots, cart.drop_last(), ttype, now);
        apply_sale_line(prev.0, prev.1, cart.last(), ttype, now)
    }
}

/// Whether a transaction adjusts the counterparty balance: returns, credit
/// sales, and collections do.
pub open spec fn should_update_balance(ttype: Seq<char>, pm: Seq<char>) -> bool {
    ttype == "RETURN"@ || pm == "VERESIYE"@ || ttype == "COLLECTION"@
}

/// The signed balance adjustment: returns post the signed total, collections
/// always reduce what the counterparty owes, and for ordinary credit sales a
/// supplier accrues the business's debt (negated) where a customer accrues
/// their own.
pub open spec fn balance_change(total: int, ttype: Seq<char>, acct_type: Seq<char>) -> int {
    if ttype == "RETURN"@ {
        total
    } else if ttype == "COLLECTION"@ {
        if total < 0 {
            total
        } else {
            -total
        }
    } else if acct_type == "SUPPLIER"@ {
        -total
    } else {
        total
    }
}

/// A balance clamped at the saturation limit.
pub open spec fn clamp_balance(v: int) -> int {
    if v > BALANCE_LIMIT_CENTS as int {
        BALANCE_LIMIT_CENTS as int
    } else if v < -(BALANCE_LIMIT_CENTS as int) {
        -(BALANCE_LIMIT_CENTS as int)
    } else {
        v
    }
}

/// Accounts after the balance side effect of a transaction, if any.
pub open spec fn apply_balance(
    accounts: Seq<AccountView>,
    cid: Option<Seq<char>>,
    total: int,
    ttype: Seq<char>,
    pm: Seq<char>,
    now: int,
) -> Seq<AccountView> {
    match cid {
        None => accounts,
        Some(id) => if !should_update_balance(ttype, pm) {
            accounts
        } else {
            Seq::new(
                accounts.len(),
                |i: int|
                    if accounts[i].id == id {
                        AccountView {
                            balance: clamp_balance(
                                accounts[i].balance + balance_change(
                                    total,
                                    ttype,
                                    accounts[i].account_type,
                                ),
                            ),
                            updated_at: now,
                            ..accounts[i]
                        }
                    } else {
                        accounts[i]
                    },
            )
        },
    }
}

/// The ledger entry a successful call records.
pub open spec fn sale_transaction_view(
    cart: Seq<CartItemView>,
    total: int,
    pm: Seq<char>,
    ttype: Seq<char>,
    note: Option<Seq<char>>,
    cid: Option<Seq<char>>,
    id: Seq<char>,
    now: int,
) -> TransactionView {
    TransactionView {
        id: id,
        items: cart,
        total: total,
        payment_method: pm,
        transaction_type: ttype,
        status: "COMPLETED"@,
        note: note,
        created_at: now,
        customer_id: cid,
    }
}

/// The whole effect of a successful sale on the store.
pub open spec fn apply_sale(
    s: StoreView,
    cart: Seq<CartItemView>,
    pm: Seq<char>,
    ttype: Seq<char>,
    note: Option<Seq<char>>,
    cid: Option<Seq<char>>,
    id: Seq<char>,
    now: int,
) -> StoreView {
    StoreView {
        items: apply_sale_lines(s.items, s.lots, cart, ttype, now).0,
        lots: apply_sale_lines(s.items, s.lots, cart, ttype, now).1,
        transactions: s.transactions.push(
            sale_transaction_view(
                cart,
                signed_total(s.items, cart, ttype),
                pm,
                ttype,
                note,
                cid,
                id,
                now,
            ),
        ),
        accounts: apply_balance(s.accounts, cid, signed_total(s.items, cart, ttype), ttype, pm, now),
        ..s
    }
}

// ==================== Executable phases ====================

/// Check every cart line and collect the effective prices.
fn validate_cart(store: &Store, cart: &Vec<CartItem>) -> (r: Result<Vec<i64>, AppError>)
    requires
        store@.wf(),
        cart_in_limits(cart_view(cart@)),
    ensures
        r is Ok <==> cart_ok(store@.items, cart_view(cart@)),
        r matches Ok(eff) ==> eff@.len() == cart@.len() && (forall|j: int|
            0 <= j < cart@.len() ==> #[trigger] eff@[j] as int == eff_price(
                store@.items,
                cart_view(cart@)[j],
            )),
        r matches Err(e) ==> (exists|f: int|
            0 <= f < cart@.len() && #[trigger] prefix_ok(store@.items, cart_view(cart@), f)
                && line_error(check_line(store@.items, cart_view(cart@)[f]), e)),
{
    let ghost items = store@.items;
    let ghost cv = cart_view(cart@);
    let mut eff: Vec<i64> = Vec::new();
    let mut idx: usize = 0;
    while idx < cart.len()
        invariant
            store@.wf(),
            cart_in_limits(cv),
            cv == cart_view(cart@),
            items == store@.items,
            idx <= cart@.len(),
            eff@.len() == idx,
            prefix_ok(items, cv, idx as int),
            forall|j: int| 0 <= j < idx ==> #[trigger] eff@[j] as int == eff_price(items, cv[j]),
        decreases cart@.len() - idx,
    {
        let line = &cart[idx];
        if line.cart_quantity <= 0 {
            let e = AppError::Validation(
                String::from_str("Geçersiz miktar: miktar 0'dan büyük olmalı"),
            );
            proof {
                assert(check_line(items, cv[idx as int]) is Invalid);
                assert(line_error(check_line(items, cv[idx as int]), e));
            }
            return Err(e);
        }
        match store.find_item_index(line.sku.as_str()) {
            Some(i) => {
                proof {
                    lemma_item_at(items, line.sku@, i as int);
                }
                let stored_price = store.items[i].price;
                let diff = line.price - stored_price;
                if diff > 1 || diff < -1 {
                    let e = AppError::Validation(
                        String::from_str(
                            "GÜVENLİK UYARISI: Fiyat uyuşmazlığı! Gönderilen fiyat sistem fiyatı ile uyuşmuyor",
                        ),
                    );
                    proof {
                        assert(check_line(items, cv[idx as int]) is PriceMismatch);
                    }
                    return Err(e);
                }
                eff.push(stored_price);
            },
            None => {
                if str_eq(line.sku.as_str(), "IND") || str_eq(line.sku.as_str(), "TAHSILAT")
                    || line.price < 0 {
                    eff.push(line.price);
                } else {
                    let e = AppError::NotFound(String::from_str("Ürün veritabanında bulunamadı"));
                    proof {
                        assert(check_line(items, cv[idx as int]) is NotFound);
                    }
                    return Err(e);
                }
            },
        }
        idx += 1;
    }
    Ok(eff)
}

/// Sum the cart into a total, in cents.
fn compute_total(store: &Store, cart: &Vec<CartItem>, eff: &Vec<i64>) -> (r: i64)
    requires
        store@.wf(),
        cart_in_limits(cart_view(cart@)),
        cart_ok(store@.items, cart_view(cart@)),
        eff@.len() == cart@.len(),
        forall|j: int|
            0 <= j < cart@.len() ==> #[trigger] eff@[j] as int == eff_price(
                store@.items,
                cart_view(cart@)[j],
            ),
    ensures
        r as int == cart_total(store@.items, cart_view(cart@)),
        -(MAX_TOTAL_CENTS as int) <= r as int <= MAX_TOTAL_CENTS as int,
{
    let ghost items = store@.items;
    let ghost cv = cart_view(cart@);
    let mut total: i64 = 0;
    let mut j: usize = 0;
    while j < cart.len()
        invariant
            store@.wf(),
            cart_in_limits(cv),
            cart_ok(items, cv),
            cv == cart_view(cart@),
            items == store@.items,
            eff@.len() == cart@.len(),
            forall|k: int| 0 <= k < cart@.len() ==> #[trigger] eff@[k] as int == eff_price(
                items,
                cv[k],
            ),
            j <= cart@.len(),
            total as int == cart_total(items, cv.take(j as int)),
            -(j as int) * (MAX_LINE_AMOUNT_CENTS as int) <= total as int <= (j as int) * (
            MAX_LINE_AMOUNT_CENTS as int),
        decreases cart@.len() - j,
    {
        let line = &cart[j];
        proof {
            assert(cv.take(j + 1).drop_last() =~= cv.take(j as int));
            assert(cv.take(j + 1).last() == cv[j as int]);
            assert(check_line(items, cv[j as int]) is Accepted);
            lemma_line_amount_bound(eff@[j as int] as int, cv[j as int].cart_quantity);
        }
        let amount: i64 = eff[j] * (line.cart_quantity as i64);
        total = total + amount;
        j += 1;
    }
    proof {
        assert(cv.take(cart@.len() as int) =~= cv);
    }
    total
}

/// Consume `need` units of `product_id` from the lots, oldest first.
fn consume_lots_exec(store: &mut Store, product_id: &str, need: i32)
    requires
        old(store)@.wf(),
        need >= 0,
    ensures
        final(store)@.wf(),
        final(store)@ == (StoreView {
            lots: consume_lots(old(store)@.lots, product_id@, need as int),
            ..old(store)@
        }),
{
    let ghost lots0 = old(store)@.lots;
    proof {
        assert(lots0.skip(0) =~= lots0);
        assert(lots0.take(0) =~= Seq::<LotView>::empty());
    }
    let mut remaining: i32 = need;
    let mut k: usize = 0;
    while k < store.lots.len() && remaining > 0
        invariant
            store@.wf(),
            0 <= remaining <= need,
            k <= store@.lots.len(),
            store@.lots.len() == lots0.len(),
            store@.lots.skip(k as int) == lots0.skip(k as int),
            consume_lots(lots0, product_id@, need as int) =~= store@.lots.take(k as int)
                + consume_lots(lots0.skip(k as int), product_id@, remaining as int),
            store@ == (StoreView { lots: store@.lots, ..old(store)@ }),
        decreases store@.lots.len() - k,
    {
        let ghost pre_lots = store@.lots;
        let ghost suffix = lots0.skip(k as int);
        proof {
            assert(suffix.len() > 0);
            assert(suffix[0] == lots0[k as int]);
            assert(suffix.drop_first() =~= lots0.skip(k as int + 1));
            assert(store@.lots[k as int] == lots0[k as int]);
        }
        if str_eq(store.lots[k].product_id.as_str(), product_id) && store.lots[k].quantity > 0 {
            let lot_qty = store.lots[k].quantity;
            let take_q = if remaining < lot_qty {
                remaining
            } else {
                lot_qty
            };
            let mut patched = store.lots[k].duplicate();
            patched.quantity = lot_qty - take_q;
            store.lots[k] = patched;
            remaining = remaining - take_q;
            proof {
                assert(store@.lots =~= pre_lots.update(
                    k as int,
                    LotView { quantity: lots0[k as int].quantity - take_q as int, ..lots0[k as int] },
                ));
                assert(store@.lots.skip(k as int + 1) =~= lots0.skip(k as int + 1));
                assert(store@.lots.take(k as int + 1) =~= pre_lots.take(k as int) + seq![
                    LotView { quantity: lots0[k as int].quantity - take_q as int, ..lots0[k as int] },
                ]);
                assert(consume_lots(lots0, product_id@, need as int) =~= store@.lots.take(
                    k as int + 1,
                ) + consume_lots(lots0.skip(k as int + 1), product_id@, remaining as int));
                assert(store@ =~= StoreView { lots: store@.lots, ..old(store)@ });
            }
        } else {
            proof {
                assert(store@.lots.take(k as int + 1) =~= store@.lots.take(k as int) + seq![
                    lots0[k as int],
                ]);
                assert(consume_lots(lots0, product_id@, need as int) =~= store@.lots.take(
                    k as int + 1,
                ) + consume_lots(lots0.skip(k as int + 1), product_id@, remaining as int));
            }
        }
        k += 1;
        proof {
            assert(store@.lots.skip(k as int) =~= lots0.skip(k as int));
        }
    }
    proof {
        if remaining == 0 {
            assert(consume_lots(lots0.skip(k as int), product_id@, 0) == lots0.skip(k as int));
        } else {
            assert(k == store@.lots.len());
            assert(lots0.skip(k as int).len() == 0);
            assert(consume_lots(lots0.skip(k as int), product_id@, remaining as int) =~= lots0.skip(
                k as int,
            ));
        }
        assert(store@.lots =~= store@.lots.take(k as int) + store@.lots.skip(k as int));
        assert(store@.lots =~= consume_lots(lots0, product_id@, need as int));
        assert(store@ =~= StoreView {
            lots: consume_lots(lots0, product_id@, need as int),
            ..old(store)@
        });
    }
}

/// Apply the whole cart's stock effects, line by line in order.
fn apply_lines_exec(store: &mut Store, cart: &Vec<CartItem>, transaction_type: &str, now: u64)
    requires
        old(store)@.wf(),
        cart_in_limits(cart_view(cart@)),
        cart_ok(old(store)@.items, cart_view(cart@)),
    ensures
        final(store)@.wf(),
        final(store)@ == (StoreView {
            items: apply_sale_lines(
                old(store)@.items,
                old(store)@.lots,
                cart_view(cart@),
                transaction_type@,
                now as int,
            ).0,
            lots: apply_sale_lines(
                old(store)@.items,
                old(store)@.lots,
                cart_view(cart@),
                transaction_type@,
                now as int,
            ).1,
            ..old(store)@
        }),
{
    let ghost items0 = old(store)@.items;
    let ghost lots0 = old(store)@.lots;
    let ghost cv = cart_view(cart@);
    let ghost tt = transaction_type@;
    proof {
        assert(cv.take(0) =~= Seq::<CartItemView>::empty());
    }
    let mut li: usize = 0;
    while li < cart.len()
        invariant
            store@.wf(),
            li <= cart@.len(),
            cv == cart_view(cart@),
            tt == transaction_type@,
            cart_in_limits(cv),
            cart_ok(items0, cv),
            items0 == old(store)@.items,
            lots0 == old(store)@.lots,
            store@ == (StoreView {
                items: apply_sale_lines(items0, lots0, cv.take(li as int), tt, now as int).0,
                lots: apply_sale_lines(items0, lots0, cv.take(li as int), tt, now as int).1,
                ..old(store)@
            }),
        decreases cart@.len() - li,
    {
        let ghost items_pre = store@.items;
        let ghost lots_pre = store@.lots;
        proof {
            assert(cv.take(li + 1).drop_last() =~= cv.take(li as int));
            assert(cv.take(li + 1).last() == cv[li as int]);
            assert(check_line(items0, cv[li as int]) is Accepted);
        }
        let line = &cart[li];
        if line.price >= 0 {
            match store.find_item_index(line.sku.as_str()) {
                None => {
                    proof {
                        assert(apply_sale_line(items_pre, lots_pre, cv[li as int], tt, now as int)
                            == (items_pre, lots_pre));
                    }
                },
                Some(_) => {
                    let delta: i32 = if str_eq(transaction_type, "RETURN") {
                        line.cart_quantity
                    } else {
                        -line.cart_quantity
                    };
                    let up = store.update_quantity(line.sku.as_str(), delta, now);
                    if str_eq(transaction_type, "SALE") {
                        match up {
                            Ok(Some(it)) => {
                                proof {
                                    assert(it@.id == item_at(items_pre, cv[li as int].sku).id);
                                }
                                consume_lots_exec(store, it.id.as_str(), line.cart_quantity);
                            },
                            _ => {
                                proof {
                                    assert(false);
                                }
                            },
                        }
                    }
                    proof {
                        let stepped = apply_sale_line(
                            items_pre,
                            lots_pre,
                            cv[li as int],
                            tt,
                            now as int,
                        );
                        assert(store@.items == stepped.0);
                        assert(store@.lots == stepped.1);
                    }
                },
            }
        } else {
            proof {
                assert(apply_sale_line(items_pre, lots_pre, cv[li as int], tt, now as int) == (
                    items_pre,
                    lots_pre,
                ));
            }
        }
        li += 1;
        proof {
            assert(store@ =~= StoreView {
                items: apply_sale_lines(items0, lots0, cv.take(li as int), tt, now as int).0,
                lots: apply_sale_lines(items0, lots0, cv.take(li as int), tt, now as int).1,
                ..old(store)@
            });
        }
    }
    proof {
        assert(cv.take(cart@.len() as int) =~= cv);
    }
}

/// Apply the balance side effect on the named counterparty, if one is named
/// and the transaction qualifies.
fn apply_balance_exec(
    store: &mut Store,
    customer_id: &Option<String>,
    total: i64,
    transaction_type: &str,
    payment_method: &str,
    now: u64,
)
    requires
        old(store)@.wf(),
        -(MAX_TOTAL_CENTS as int) <= total as int <= MAX_TOTAL_CENTS as int,
    ensures
        final(store)@.wf(),
        final(store)@ == (StoreView {
            accounts: apply_balance(
                old(store)@.accounts,
                opt_view(*customer_id),
                total as int,
                transaction_type@,
                payment_method@,
                now as int,
            ),
            ..old(store)@
        }),
{
    let ghost accounts0 = old(store)@.accounts;
    match customer_id {
        None => {
            proof {
                assert(store@ =~= StoreView { accounts: accounts0, ..old(store)@ });
            }
        },
        Some(cid) => {
            let should = str_eq(transaction_type, "RETURN") || str_eq(payment_method, "VERESIYE")
                || str_eq(transaction_type, "COLLECTION");
            if !should {
                proof {
                    assert(store@ =~= StoreView { accounts: accounts0, ..old(store)@ });
                }
                return ;
            }
            match store.find_account_index(cid.as_str()) {
                None => {
                    proof {
                        assert(apply_balance(
                            accounts0,
                            opt_view(*customer_id),
                            total as int,
                            transaction_type@,
                            payment_method@,
                            now as int,
                        ) =~= accounts0);
                        assert(store@ =~= StoreView { accounts: accounts0, ..old(store)@ });
                    }
                },
                Some(i) => {
                    let is_supplier = str_eq(store.accounts[i].account_type.as_str(), "SUPPLIER");
                    let change: i64 = if str_eq(transaction_type, "RETURN") {
                        total
                    } else if str_eq(transaction_type, "COLLECTION") {
                        if total < 0 {
                            total
                        } else {
                            -total
                        }
                    } else {
                        if is_supplier {
                            -total
                        } else {
                            total
                        }
                    };
                    let wide: i64 = store.accounts[i].balance + change;
                    let nb: i64 = if wide > BALANCE_LIMIT_CENTS {
                        BALANCE_LIMIT_CENTS
                    } else if wide < -BALANCE_LIMIT_CENTS {
                        -BALANCE_LIMIT_CENTS
                    } else {
                        wide
                    };
                    let mut patched = store.accounts[i].duplicate();
                    patched.balance = nb;
                    patched.updated_at = now;
                    store.accounts[i] = patched;
                    proof {
                        assert forall|j: int|
                            0 <= j < accounts0.len() && j != i as int implies accounts0[j].id
                            != cid@ by {
                            if j < i as int {
                                assert(accounts0[j].id != accounts0[i as int].id);
                            } else {
                                assert(accounts0[i as int].id != accounts0[j].id);
                            }
                        }
                        assert(store@.accounts =~= apply_balance(
                            accounts0,
                            opt_view(*customer_id),
                            total as int,
                            transaction_type@,
                            payment_method@,
                            now as int,
                        ));
                        assert(store@ =~= StoreView { accounts: store@.accounts, ..old(store)@ });
                    }
                },
            }
        },
    }
}

// ==================== The processor ====================

/// Process a cart atomically: validate every line, record the ledger entry,
/// apply the stock effects (with FIFO lot consumption on sales), and adjust
/// the counterparty balance — or fail with the first line's fault and no
/// change at all.
pub fn process_sale_transaction(
    store: &mut Store,
    cart_items: Vec<CartItem>,
    payment_method: String,
    transaction_type: String,
    note: Option<String>,
    customer_id: Option<String>,
    now: u64,
) -> (r: Result<Transaction, AppError>)
    requires
        old(store)@.wf(),
        cart_in_limits(cart_view(cart_items@)),
    ensures
        final(store)@.wf(),
        r is Ok <==> cart_ok(old(store)@.items, cart_view(cart_items@)),
        r matches Ok(t) ==> t@ == sale_transaction_view(
            cart_view(cart_items@),
            signed_total(old(store)@.items, cart_view(cart_items@), transaction_type@),
            payment_method@,
            transaction_type@,
            opt_view(note),
            opt_view(customer_id),
            t@.id,
            now as int,
        ) && t@.id.len() == 36 && final(store)@ == apply_sale(
            old(store)@,
            cart_view(cart_items@),
            payment_method@,
            transaction_type@,
            opt_view(note),
            opt_view(customer_id),
            t@.id,
            now as int,
        ),
        r matches Err(e) ==> final(store)@ == old(store)@ && (exists|f: int|
            0 <= f < cart_items@.len() && #[trigger] prefix_ok(
                old(store)@.items,
                cart_view(cart_items@),
                f,
            ) && line_error(check_line(old(store)@.items, cart_view(cart_items@)[f]), e)),
{
    let ghost s0 = old(store)@;
    let ghost cv = cart_view(cart_items@);
    let eff = match validate_cart(store, &cart_items) {
        Ok(eff) => eff,
        Err(e) => {
            proof {
                let f = choose|f: int|
                    0 <= f < cart_items@.len() && #[trigger] prefix_ok(s0.items, cv, f)
                        && line_error(check_line(s0.items, cv[f]), e);
                assert(!(check_line(s0.items, cv[f]) is Accepted));
            }
            return Err(e);
        },
    };
    let base_total = compute_total(store, &cart_items, &eff);
    let total: i64 = if str_eq(transaction_type.as_str(), "RETURN") {
        -base_total
    } else {
        base_total
    };
    apply_lines_exec(store, &cart_items, transaction_type.as_str(), now);
    apply_balance_exec(
        store,
        &customer_id,
        total,
        transaction_type.as_str(),
        payment_method.as_str(),
        now,
    );
    let tx_id = fresh_id();
    let tx = Transaction {
        id: tx_id,
        items: cart_items,
        total,
        payment_method,
        transaction_type,
        status: String::from_str("COMPLETED"),
        note,
        created_at: now,
        customer_id,
    };
    store.transactions.push(tx.duplicate());
    proof {
        assert(total as int == signed_total(s0.items, cv, tx.transaction_type@));
        assert(tx@ == sale_transaction_view(
            cv,
            signed_total(s0.items, cv, tx.transaction_type@),
            tx.payment_method@,
            tx.transaction_type@,
            opt_view(tx.note),
            opt_view(tx.customer_id),
            tx@.id,
            now as int,
        ));
        assert(store@.transactions =~= s0.transactions.push(tx@));
        assert(store@ =~= apply_sale(
            s0,
            cv,
            tx.payment_method@,
            tx.transaction_type@,
            opt_view(tx.note),
            opt_view(tx.customer_id),
            tx@.id,
            now as int,
        ));
    }
    Ok(tx)
}

// ==================== Laws ====================

/// Law: a cart with a line whose submitted price strays more than one cent
/// from the stored price of its (known) SKU never passes the check, so the
/// processor rejects it and, by its contract, leaves the store unchanged.
pub proof fn lemma_price_mismatch_rejected(
    items: Seq<ItemView>,
    cart: Seq<CartItemView>,
    f: int,
)
    requires
        0 <= f < cart.len(),
        cart[f].cart_quantity > 0,
        has_sku(items, cart[f].sku),
        cart[f].price - item_at(items, cart[f].sku).price > 1 || item_at(
            items,
            cart[f].sku,
        ).price - cart[f].price > 1,
    ensures
        !cart_ok(items, cart),
{
    assert(check_line(items, cart[f]) is PriceMismatch);
}

/// Law: a cart with any non-positive quantity never passes the check, so the
/// processor rejects it and, by its contract, leaves the store unchanged.
pub proof fn lemma_nonpositive_quantity_rejected(
    items: Seq<ItemView>,
    cart: Seq<CartItemView>,
    f: int,
)
    requires
        0 <= f < cart.len(),
        cart[f].cart_quantity <= 0,
    ensures
        !cart_ok(items, cart),
{
    assert(check_line(items, cart[f]) is Invalid);
}

/// Units of `product_id` on hand across all lots.
pub open spec fn available(lots: Seq<LotView>, product_id: Seq<char>) -> int
    decreases lots.len(),
{
    if lots.len() == 0 {
        0
    } else {
        (if lots[0].product_id == product_id {
            lots[0].quantity
        } else {
            0int
        }) + available(lots.drop_first(), product_id)
    }
}

/// Law: FIFO consumption takes exactly the smaller of what was asked and
/// what the lots held, and never more.
pub proof fn lemma_consume_lots_available(lots: Seq<LotView>, product_id: Seq<char>, need: int)
    requires
        need >= 0,
        forall|i: int| 0 <= i < lots.len() ==> crate::store::lot_bounded(#[trigger] lots[i]),
    ensures
        available(lots, product_id) >= 0,
        available(lots, product_id) - available(consume_lots(lots, product_id, need), product_id)
            == (if need < available(lots, product_id) {
            need
        } else {
            available(lots, product_id)
        }),
    decreases lots.len(),
{
    if lots.len() == 0 {
        assert(consume_lots(lots, product_id, need) == lots);
    } else {
        let rest = lots.drop_first();
        assert(forall|i: int|
            0 <= i < rest.len() ==> crate::store::lot_bounded(#[trigger] rest[i]));
        let l0 = lots[0];
        if need == 0 {
            assert(consume_lots(lots, product_id, need) == lots);
            lemma_consume_lots_available(rest, product_id, 0);
            assert(available(lots, product_id) == (if l0.product_id == product_id {
                l0.quantity
            } else {
                0int
            }) + available(rest, product_id));
        } else if l0.product_id == product_id && l0.quantity > 0 {
            let take_q = if need < l0.quantity {
                need
            } else {
                l0.quantity
            };
            let tail = consume_lots(rest, product_id, need - take_q);
            lemma_consume_lots_available(rest, product_id, need - take_q);
            let out = consume_lots(lots, product_id, need);
            assert(out == seq![LotView { quantity: l0.quantity - take_q, ..l0 }] + tail);
            assert(out.drop_first() =~= tail);
            assert(out[0] == (LotView { quantity: l0.quantity - take_q, ..l0 }));
            assert(available(out, product_id) == l0.quantity - take_q + available(
                tail,
                product_id,
            ));
            assert(available(lots, product_id) == l0.quantity + available(rest, product_id));
        } else {
            let tail = consume_lots(rest, product_id, need);
            lemma_consume_lots_available(rest, product_id, need);
            let out = consume_lots(lots, product_id, need);
            assert(out == seq![l0] + tail);
            assert(out.drop_first() =~= tail);
            assert(out[0] == l0);
            assert(available(out, product_id) == (if l0.product_id == product_id {
                l0.quantity
            } else {
                0int
            }) + available(tail, product_id));
            assert(available(lots, product_id) == (if l0.product_id == product_id {
                l0.quantity
            } else {
                0int
            }) + available(rest, product_id));
        }
    }
}

/// Law: after a successful SALE of `q` units of a known SKU, the on-hand
/// quantity is `max(0, Q - q)`, and the lots of that product gave up exactly
/// `min(q, stock held in lots)` units.
pub proof fn lemma_sale_effects(
    s: StoreView,
    line: CartItemView,
    pm: Seq<char>,
    note: Option<Seq<char>>,
    cid: Option<Seq<char>>,
    id: Seq<char>,
    now: int,
)
    requires
        s.wf(),
        has_sku(s.items, line.sku),
        0 < line.cart_quantity <= MAX_LINE_QTY as int,
        line.price >= 0,
    ensures
        ({
            let q0 = item_at(s.items, line.sku).quantity;
            let stock = available(s.lots, item_at(s.items, line.sku).id);
            let post = apply_sale(s, seq![line], pm, "SALE"@, note, cid, id, now);
            &&& item_at(post.items, line.sku).quantity == (if q0 - line.cart_quantity > 0 {
                q0 - line.cart_quantity
            } else {
                0int
            })
            &&& stock - available(post.lots, item_at(s.items, line.sku).id) == (if line.cart_quantity
                < stock {
                line.cart_quantity
            } else {
                stock
            })
        }),
{
    reveal_strlit("SALE");
    reveal_strlit("RETURN");
    assert("SALE"@.len() == 4);
    assert("RETURN"@.len() == 6);
    assert("SALE"@ != "RETURN"@);
    let cart = seq![line];
    assert(cart.drop_last() =~= Seq::<CartItemView>::empty());
    assert(cart.last() == line);
    assert(apply_sale_lines(s.items, s.lots, cart.drop_last(), "SALE"@, now) == (
        s.items,
        s.lots,
    ));
    assert(apply_sale_lines(s.items, s.lots, cart, "SALE"@, now) == apply_sale_line(
        s.items,
        s.lots,
        line,
        "SALE"@,
        now,
    ));
    let it = item_at(s.items, line.sku);
    let k = choose|k: int| 0 <= k < s.items.len() && #[trigger] s.items[k].sku == line.sku;
    let q0 = it.quantity;
    let nq = clamp_qty(q0 - line.cart_quantity);
    let items2 = with_quantity(s.items, line.sku, nq, now);
    let post = apply_sale(s, cart, pm, "SALE"@, note, cid, id, now);
    assert(post.items == items2);
    assert(post.lots == consume_lots(s.lots, it.id, line.cart_quantity));
    assert(items2[k].sku == line.sku);
    lemma_item_at_with_quantity(s.items, line.sku, nq, now, k);
    assert(item_bounded(s.items[k]));
    assert(nq == if q0 - line.cart_quantity > 0 {
        q0 - line.cart_quantity
    } else {
        0int
    });
    lemma_consume_lots_available(s.lots, it.id, line.cart_quantity);
}

/// Under unique SKUs, re-stocking `sku` leaves the looked-up item equal to
/// the patched one.
proof fn lemma_item_at_with_quantity(
    items: Seq<ItemView>,
    sku: Seq<char>,
    q: int,
    now: int,
    k: int,
)
    requires
        crate::store::skus_unique(items),
        0 <= k < items.len(),
        items[k].sku == sku,
    ensures
        item_at(with_quantity(items, sku, q, now), sku) == (ItemView {
            quantity: q,
            last_updated: now,
            ..items[k]
        }),
{
    let items2 = with_quantity(items, sku, q, now);
    assert(items2[k].sku == sku);
    assert(has_sku(items2, sku));
    let j = choose|j: int| 0 <= j < items2.len() && #[trigger] items2[j].sku == sku;
    if j != k {
        assert(items[j].sku == sku);
        if j < k {
            assert(items[j].sku != items[k].sku);
        } else {
            assert(items[k].sku != items[j].sku);
        }
    }
}

/// Law: after a successful RETURN of `q` units of a known SKU (with the
/// restocked quantity still within `i32`'s own range), the on-hand quantity
/// is `Q + q`, lots are untouched, and the recorded total is the negation of
/// the forward sale's total.
pub proof fn lemma_return_effects(
    s: StoreView,
    line: CartItemView,
    pm: Seq<char>,
    note: Option<Seq<char>>,
    cid: Option<Seq<char>>,
    id: Seq<char>,
    now: int,
)
    requires
        s.wf(),
        has_sku(s.items, line.sku),
        0 < line.cart_quantity <= MAX_LINE_QTY as int,
        line.price >= 0,
        item_at(s.items, line.sku).quantity + line.cart_quantity
            <= crate::validation::MAX_ITEM_QTY as int,
    ensures
        ({
            let q0 = item_at(s.items, line.sku).quantity;
            let post = apply_sale(s, seq![line], pm, "RETURN"@, note, cid, id, now);
            &&& item_at(post.items, line.sku).quantity == q0 + line.cart_quantity
            &&& post.lots == s.lots
        }),
        signed_total(s.items, seq![line], "RETURN"@) == -signed_total(s.items, seq![line], "SALE"@),
{
    reveal_strlit("SALE");
    reveal_strlit("RETURN");
    assert("SALE"@.len() == 4);
    assert("RETURN"@.len() == 6);
    assert("SALE"@ != "RETURN"@);
    let cart = seq![line];
    assert(cart.drop_last() =~= Seq::<CartItemView>::empty());
    assert(cart.last() == line);
    assert(apply_sale_lines(s.items, s.lots, cart.drop_last(), "RETURN"@, now) == (
        s.items,
        s.lots,
    ));
    assert(apply_sale_lines(s.items, s.lots, cart, "RETURN"@, now) == apply_sale_line(
        s.items,
        s.lots,
        line,
        "RETURN"@,
        now,
    ));
    let it = item_at(s.items, line.sku);
    let k = choose|k: int| 0 <= k < s.items.len() && #[trigger] s.items[k].sku == line.sku;
    let nq = clamp_qty(it.quantity + line.cart_quantity);
    assert(item_bounded(s.items[k]));
    lemma_item_at_with_quantity(s.items, line.sku, nq, now, k);
    assert(nq == it.quantity + line.cart_quantity);
}

} // verus!
