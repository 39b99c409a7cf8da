//! Stock cards: product definitions kept apart from the stocked quantities,
//! with a safety check that refuses to delete a card while inventory still
//! carries its barcode.

use vstd::prelude::*;

use crate::chars::str_eq;
use crate::error::AppError;
use crate::lots::has_card_id;
use crate::models::dup_opt_string;
use crate::models::opt_view;
use crate::models::CreateStockCardRequest;
use crate::models::StockCard;
use crate::models::StockCardView;
use crate::store::has_sku;
use crate::store::Store;
use crate::store::StoreView;

verus! {

/// Some stock card carries this barcode.
pub open spec fn has_card_barcode(cards: Seq<StockCardView>, barcode: Seq<char>) -> bool {
    exists|i: int| 0 <= i < cards.len() && #[trigger] cards[i].barcode == barcode
}

/// The card a creation request defines, stamped at `now`.
pub open spec fn card_of_request(data: CreateStockCardRequest, now: int) -> StockCardView {
    StockCardView {
        id: data.id@,
        barcode: data.barcode@,
        name: data.name@,
        brand: opt_view(data.brand),
        unit: data.unit@,
        category_id: opt_view(data.category_id),
        description: opt_view(data.description),
        image: opt_view(data.image),
        supplier_id: opt_view(data.supplier_id),
        created_at: now,
        updated_at: now,
    }
}

/// Create a stock card; a barcode already in use, or an id already taken, is
/// refused as the storage layer's unique constraints would refuse it.
#[verifier::loop_isolation(false)]
pub fn create_stock_card(store: &mut Store, data: CreateStockCardRequest, now: u64) -> (r: Result<
    StockCard,
    AppError,
>)
    requires
        old(store)@.wf(),
    ensures
        final(store)@.wf(),
        r is Ok <==> !has_card_barcode(old(store)@.stock_cards, data.barcode@) && !has_card_id(
            old(store)@.stock_cards,
            data.id@,
        ),
        r matches Ok(card) ==> card@ == card_of_request(data, now as int) && final(store)@ == (
        StoreView {
            stock_cards: old(store)@.stock_cards.push(card_of_request(data, now as int)),
            ..old(store)@
        }),
        r is Err ==> final(store)@ == old(store)@,
        has_card_barcode(old(store)@.stock_cards, data.barcode@) ==> (r matches Err(
            AppError::Validation(m),
        ) && m@ == "Bu barkod numarası zaten kullanılıyor!"@),
    {
        let mut i: usize = 0;
        while i < store.stock_cards.len()
            invariant
                store@ == old(store)@,
                i <= store@.stock_cards.len(),
                forall|j: int|
                    0 <= j < i ==> (#[trigger] store@.stock_cards[j]).barcode != data.barcode@,
            decreases store@.stock_cards.len() - i,
        {
            if str_eq(store.stock_cards[i].barcode.as_str(), data.barcode.as_str()) {
                proof {
                    assert((#[trigger] store@.stock_cards[i as int]).barcode == data.barcode@);
                    assert(has_card_barcode(store@.stock_cards, data.barcode@));
                }
                return Err(
                    AppError::Validation(
                        String::from_str("Bu barkod numarası zaten kullanılıyor!"),
                    ),
                );
            }
            i += 1;
        }
        let mut c: usize = 0;
        while c < store.stock_cards.len()
            invariant
                store@ == old(store)@,
                c <= store@.stock_cards.len(),
                forall|j: int| 0 <= j < c ==> (#[trigger] store@.stock_cards[j]).id != data.id@,
            decreases store@.stock_cards.len() - c,
        {
            if str_eq(store.stock_cards[c].id.as_str(), data.id.as_str()) {
                proof {
                    assert((#[trigger] store@.stock_cards[c as int]).id == data.id@);
                    assert(has_card_id(store@.stock_cards, data.id@));
                }
                return Err(
                    AppError::Internal(String::from_str("Stok karti kimligi zaten kayitli")),
                );
            }
            c += 1;
        }
        let card = StockCard {
            id: data.id,
            barcode: data.barcode,
            name: data.name,
            brand: data.brand,
            unit: data.unit,
            category_id: data.category_id,
            description: data.description,
            image: data.image,
            supplier_id: data.supplier_id,
            created_at: now,
            updated_at: now,
        };
        proof {
            assert(!has_card_barcode(store@.stock_cards, data.barcode@));
            assert(!has_card_id(store@.stock_cards, data.id@));
        }
        let out = card.duplicate();
        let ghost pre = store@.stock_cards;
        let ghost cv = card@;
        store.stock_cards.push(card);
        proof {
            assert(store@.stock_cards =~= pre.push(cv));
            assert(store@ =~= StoreView { stock_cards: pre.push(cv), ..old(store)@ });
        }
        Ok(out)
    }

/// All stock cards, copied out in insertion order.
pub fn get_stock_cards(store: &Store) -> (r: Result<Vec<StockCard>, AppError>)
    ensures
        r matches Ok(v) ==> v@.map_values(|c: StockCard| c@) == store@.stock_cards,
        r is Ok,
{
    let mut out: Vec<StockCard> = Vec::new();
    let mut i: usize = 0;
    while i < store.stock_cards.len()
        invariant
            i <= store@.stock_cards.len(),
            out@.len() == i,
            forall|j: int| 0 <= j < i ==> out@[j]@ == store@.stock_cards[j],
        decreases store@.stock_cards.len() - i,
    {
        out.push(store.stock_cards[i].duplicate());
        i += 1;
    }
    proof {
        assert(out@.map_values(|c: StockCard| c@) =~= store@.stock_cards);
    }
    Ok(out)
}

/// Delete a stock card only when no inventory item carries its barcode: the
/// durable trail from items to their card definition is never broken.
pub fn delete_stock_card_safe(store: &mut Store, id: &str) -> (r: Result<(), AppError>)
    requires
        old(store)@.wf(),
    ensures
        final(store)@.wf(),
        r is Err ==> final(store)@ == old(store)@,
        !has_card_id(old(store)@.stock_cards, id@) ==> (r matches Err(AppError::NotFound(m)) && m@
            == "Stok kartı bulunamadı"@),
        (exists|i: int|
            0 <= i < old(store)@.stock_cards.len() && (#[trigger] old(store)@.stock_cards[i]).id
                == id@ && has_sku(old(store)@.items, old(store)@.stock_cards[i].barcode)) ==> (
        r matches Err(AppError::Validation(m)) && m@
            == "Bu stok kartına bağlı envanter kaydı var. Önce envanterden silmelisiniz."@),
        r is Ok <==> (exists|i: int|
            0 <= i < old(store)@.stock_cards.len() && (#[trigger] old(store)@.stock_cards[i]).id
                == id@ && !has_sku(old(store)@.items, old(store)@.stock_cards[i].barcode)),
        r is Ok ==> (exists|i: int|
            0 <= i < old(store)@.stock_cards.len() && (#[trigger] old(store)@.stock_cards[i]).id
                == id@ && final(store)@ == (StoreView {
                stock_cards: old(store)@.stock_cards.remove(i),
                ..old(store)@
            })),
{
    match store.find_card_index(id) {
        None => Err(AppError::NotFound(String::from_str("Stok kartı bulunamadı"))),
        Some(ci) => {
            let linked = store.check_sku_exists(store.stock_cards[ci].barcode.as_str());
            if linked {
                proof {
                    let cards = old(store)@.stock_cards;
                    assert forall|i: int|
                        0 <= i < cards.len() && (#[trigger] cards[i]).id == id@ implies has_sku(
                        old(store)@.items,
                        cards[i].barcode,
                    ) by {
                        if i < ci as int {
                            assert(cards[i].id != cards[ci as int].id);
                        } else if (ci as int) < i {
                            assert(cards[ci as int].id != cards[i].id);
                        }
                    }
                }
                Err(
                    AppError::Validation(
                        String::from_str(
                            "Bu stok kartına bağlı envanter kaydı var. Önce envanterden silmelisiniz.",
                        ),
                    ),
                )
            } else {
                proof {
                    let cards = old(store)@.stock_cards;
                    assert forall|i: int|
                        0 <= i < cards.len() && (#[trigger] cards[i]).id == id@ implies !has_sku(
                        old(store)@.items,
                        cards[i].barcode,
                    ) by {
                        if i < ci as int {
                            assert(cards[i].id != cards[ci as int].id);
                        } else if (ci as int) < i {
                            assert(cards[ci as int].id != cards[i].id);
                        }
                    }
                }
                store.stock_cards.remove(ci);
                proof {
                    assert(store@.stock_cards =~= old(store)@.stock_cards.remove(ci as int));
                    assert(store@ =~= StoreView {
                        stock_cards: old(store)@.stock_cards.remove(ci as int),
                        ..old(store)@
                    });
                }
                Ok(())
            }
        },
    }
}

/// Update a stock card's definition by id (identity and creation time stay).
/// A barcode already used by another card is refused, as the storage layer's
/// unique constraint would refuse it.
#[verifier::loop_isolation(false)]
pub fn update_stock_card(store: &mut Store, data: CreateStockCardRequest, now: u64) -> (r: Result<
    StockCard,
    AppError,
>)
    requires
        old(store)@.wf(),
    ensures
        final(store)@.wf(),
        r is Err ==> final(store)@ == old(store)@,
        r is Ok <==> has_card_id(old(store)@.stock_cards, data.id@) && (forall|i: int|
            0 <= i < old(store)@.stock_cards.len() && (#[trigger] old(store)@.stock_cards[i]).barcode
                == data.barcode@ ==> old(store)@.stock_cards[i].id == data.id@),
        r matches Ok(card) ==> final(store)@ == (StoreView {
            stock_cards: Seq::new(
                old(store)@.stock_cards.len(),
                |i: int|
                    if old(store)@.stock_cards[i].id == data.id@ {
                        StockCardView {
                            created_at: old(store)@.stock_cards[i].created_at,
                            ..card_of_request(data, now as int)
                        }
                    } else {
                        old(store)@.stock_cards[i]
                    },
            ),
            ..old(store)@
        }),
{
    let ghost cards0 = old(store)@.stock_cards;
    // refuse a barcode collision with another card
    let mut b: usize = 0;
    while b < store.stock_cards.len()
        invariant
            store@ == old(store)@,
            b <= cards0.len(),
            forall|j: int|
                0 <= j < b && (#[trigger] cards0[j]).barcode == data.barcode@ ==> cards0[j].id
                    == data.id@,
        decreases cards0.len() - b,
    {
        if str_eq(store.stock_cards[b].barcode.as_str(), data.barcode.as_str()) && !str_eq(
            store.stock_cards[b].id.as_str(),
            data.id.as_str(),
        ) {
            proof {
                assert((#[trigger] cards0[b as int]).barcode == data.barcode@ && cards0[b as int].id
                    != data.id@);
            }
            return Err(
                AppError::Validation(String::from_str("Bu barkod numarası zaten kullanılıyor!")),
            );
        }
        b += 1;
    }
    match store.find_card_index(data.id.as_str()) {
        None => Err(AppError::NotFound(String::from_str("Stok kartı bulunamadı"))),
        Some(ci) => {
            let mut patched = StockCard {
                id: data.id,
                barcode: data.barcode,
                name: data.name,
                brand: data.brand,
                unit: data.unit,
                category_id: data.category_id,
                description: data.description,
                image: data.image,
                supplier_id: data.supplier_id,
                created_at: store.stock_cards[ci].created_at,
                updated_at: now,
            };
            let out = patched.duplicate();
            store.stock_cards[ci] = patched;
            proof {
                assert forall|j: int| 0 <= j < cards0.len() && j != ci as int implies
                    cards0[j].id != out@.id by {
                    if j < ci as int {
                        assert(cards0[j].id != cards0[ci as int].id);
                    } else {
                        assert(cards0[ci as int].id != cards0[j].id);
                    }
                }
                assert(store@.stock_cards =~= Seq::new(
                    cards0.len(),
                    |i: int|
                        if cards0[i].id == out@.id {
                            StockCardView {
                                created_at: cards0[i].created_at,
                                ..out@
                            }
                        } else {
                            cards0[i]
                        },
                ));
                assert forall|a: int, c: int|
                    0 <= a < c < store@.stock_cards.len() implies store@.stock_cards[a].barcode
                    != store@.stock_cards[c].barcode && store@.stock_cards[a].id
                    != store@.stock_cards[c].id by {
                    assert(cards0[a].id != cards0[c].id);
                    assert(cards0[a].barcode != cards0[c].barcode);
                    if a == ci as int {
                        if cards0[c].barcode == out@.barcode {
                            assert(cards0[c].id == out@.id);
                        }
                    } else if c == ci as int {
                        if cards0[a].barcode == out@.barcode {
                            assert(cards0[a].id == out@.id);
                        }
                    }
                }
                assert(store@ =~= StoreView { stock_cards: store@.stock_cards, ..old(store)@ });
            }
            Ok(out)
        },
    }
}

} // verus!
