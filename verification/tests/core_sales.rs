use pos_core::lots::get_product_lots;
use pos_core::lots::process_goods_receipt;
use pos_core::lots::receive_lot;
use pos_core::lots::GoodsReceiptItem;
use pos_core::models::CartItem;
use pos_core::models::CreateCurrentAccountRequest;
use pos_core::models::CreateStockCardRequest;
use pos_core::models::InventoryItem;
use pos_core::models::TransactionUpdate;
use pos_core::sale::process_sale_transaction;
use pos_core::stock::create_stock_card;
use pos_core::stock::delete_stock_card_safe;
use pos_core::store::Store;
use pos_core::accounts::create_current_account;

fn seeded_store() -> Store {
    let mut store = Store::new();
    store
        .add_item(InventoryItem {
            id: "item-1".to_string(),
            sku: "SKU123".to_string(),
            name: "Test Item".to_string(),
            category: "Genel".to_string(),
            quantity: 10,
            location: "".to_string(),
            price: 10000,
            cost_price: None,
            supplier_id: None,
            last_updated: 0,
        })
        .unwrap();
    store
}

fn cart_line(sku: &str, qty: i32, price: i64) -> CartItem {
    CartItem {
        id: "item-1".to_string(),
        sku: sku.to_string(),
        name: "Test Item".to_string(),
        cart_quantity: qty,
        price,
        cost_price: None,
    }
}

#[test]
fn test_process_sale_success() {
    let mut store = seeded_store();

    let cart_items = vec![cart_line("SKU123", 2, 10000)];

    let result = process_sale_transaction(
        &mut store,
        cart_items,
        "NAKIT".to_string(),
        "SALE".to_string(),
        None,
        None,
        1000,
    );

    assert!(result.is_ok());
    let tx = result.unwrap();
    assert_eq!(tx.total, 20000);

    let new_qty = store.get_item_by_sku("SKU123").unwrap().quantity;
    assert_eq!(new_qty, 8);
}

#[test]
fn test_process_sale_price_manipulation() {
    let mut store = seeded_store();

    // manipulated price: the stored price of record is 10000 cents
    let cart_items = vec![cart_line("SKU123", 1, 5000)];

    let result = process_sale_transaction(
        &mut store,
        cart_items,
        "NAKIT".to_string(),
        "SALE".to_string(),
        None,
        None,
        1000,
    );

    assert!(result.is_err());
    let err = result.err().unwrap();
    assert!(err.message().contains("Fiyat uyuşmazlığı"));
    assert_eq!(store.get_item_by_sku("SKU123").unwrap().quantity, 10);
}

#[test]
fn test_process_sale_negative_quantity() {
    let mut store = seeded_store();

    let cart_items = vec![cart_line("SKU123", -5, 10000)];

    let result = process_sale_transaction(
        &mut store,
        cart_items,
        "NAKIT".to_string(),
        "SALE".to_string(),
        None,
        None,
        1000,
    );

    assert!(result.is_err());
    let err = result.err().unwrap();
    assert!(err.message().contains("Geçersiz miktar"));
}

#[test]
fn test_delete_stock_card_safety() {
    let mut store = Store::new();

    store
        .add_item(InventoryItem {
            id: "item-1".to_string(),
            sku: "SKU123".to_string(),
            name: "Test Item".to_string(),
            category: "Genel".to_string(),
            quantity: 5,
            location: "".to_string(),
            price: 10000,
            cost_price: None,
            supplier_id: None,
            last_updated: 0,
        })
        .unwrap();

    create_stock_card(
        &mut store,
        CreateStockCardRequest {
            id: "sc-1".to_string(),
            barcode: "SKU123".to_string(),
            name: "Test Card".to_string(),
            brand: None,
            unit: "ADET".to_string(),
            category_id: None,
            description: None,
            image: None,
            supplier_id: None,
        },
        0,
    )
    .unwrap();

    // linked inventory exists: deletion must fail
    let result = delete_stock_card_safe(&mut store, "sc-1");
    assert!(result.is_err());
    assert!(result.err().unwrap().message().contains("envanter kaydı var"));

    store.delete_item("SKU123").unwrap();

    let result = delete_stock_card_safe(&mut store, "sc-1");
    assert!(result.is_ok());
}

#[test]
fn end_to_end_sale_then_tampered_resubmission() {
    let mut store = Store::new();
    store
        .add_item(InventoryItem {
            id: "item-sku1".to_string(),
            sku: "SKU-1".to_string(),
            name: "Seeded".to_string(),
            category: "Genel".to_string(),
            quantity: 10,
            location: "".to_string(),
            price: 10000, // 100.00 in cents
            cost_price: None,
            supplier_id: None,
            last_updated: 0,
        })
        .unwrap();

    // sell 3 units at the honest price of 100.00
    let ok = process_sale_transaction(
        &mut store,
        vec![CartItem {
            id: "item-sku1".to_string(),
            sku: "SKU-1".to_string(),
            name: "Seeded".to_string(),
            cart_quantity: 3,
            price: 10000,
            cost_price: None,
        }],
        "NAKIT".to_string(),
        "SALE".to_string(),
        None,
        None,
        10,
    )
    .unwrap();
    assert_eq!(ok.total, 30000); // 300.00 in cents
    assert_eq!(store.get_item_by_sku("SKU-1").unwrap().quantity, 7);

    // resubmit the same sale claiming 99.00: rejected, quantity unchanged
    let tampered = process_sale_transaction(
        &mut store,
        vec![CartItem {
            id: "item-sku1".to_string(),
            sku: "SKU-1".to_string(),
            name: "Seeded".to_string(),
            cart_quantity: 3,
            price: 9900,
            cost_price: None,
        }],
        "NAKIT".to_string(),
        "SALE".to_string(),
        None,
        None,
        20,
    );
    assert!(tampered.is_err());
    assert_eq!(store.get_item_by_sku("SKU-1").unwrap().quantity, 7);
}

#[test]
fn sale_consumes_lots_oldest_first() {
    let mut store = seeded_store();
    let lot_a = receive_lot(
        &mut store,
        "item-1".to_string(),
        None,
        2,
        5000,
        None,
        "2024-01-01".to_string(),
        None,
        1,
    )
    .unwrap();
    let lot_b = receive_lot(
        &mut store,
        "item-1".to_string(),
        None,
        5,
        5200,
        None,
        "2024-01-02".to_string(),
        None,
        2,
    )
    .unwrap();

    // receiving lots does not touch the on-hand quantity, which stays at 10;
    // selling 4 empties the older lot and takes 2 from the newer one
    let result = process_sale_transaction(
        &mut store,
        vec![cart_line("SKU123", 4, 10000)],
        "NAKIT".to_string(),
        "SALE".to_string(),
        None,
        None,
        100,
    );
    assert!(result.is_ok());
    assert_eq!(store.get_item_by_sku("SKU123").unwrap().quantity, 6);

    let lots = get_product_lots(&store, "item-1").unwrap();
    assert_eq!(lots.len(), 2);
    assert_eq!(lots[0].id, lot_a);
    assert_eq!(lots[0].quantity, 0);
    assert_eq!(lots[0].initial_quantity, 2);
    assert_eq!(lots[1].id, lot_b);
    assert_eq!(lots[1].quantity, 3);
    assert_eq!(lots[1].initial_quantity, 5);
}

#[test]
fn sale_clamps_stock_at_zero() {
    let mut store = seeded_store();
    let result = process_sale_transaction(
        &mut store,
        vec![cart_line("SKU123", 15, 10000)],
        "NAKIT".to_string(),
        "SALE".to_string(),
        None,
        None,
        100,
    );
    assert!(result.is_ok());
    assert_eq!(store.get_item_by_sku("SKU123").unwrap().quantity, 0);
}

#[test]
fn return_restocks_and_negates_total() {
    let mut store = seeded_store();
    let sale = process_sale_transaction(
        &mut store,
        vec![cart_line("SKU123", 2, 10000)],
        "NAKIT".to_string(),
        "SALE".to_string(),
        None,
        None,
        100,
    )
    .unwrap();
    let ret = process_sale_transaction(
        &mut store,
        vec![cart_line("SKU123", 2, 10000)],
        "NAKIT".to_string(),
        "RETURN".to_string(),
        None,
        None,
        200,
    )
    .unwrap();
    assert_eq!(ret.total, -sale.total);
    assert_eq!(store.get_item_by_sku("SKU123").unwrap().quantity, 10);
}

#[test]
fn unknown_sku_fails_unless_discount_or_service_line() {
    let mut store = seeded_store();
    // an unknown SKU with a positive price is refused
    let bad = process_sale_transaction(
        &mut store,
        vec![cart_line("NOPE", 1, 500)],
        "NAKIT".to_string(),
        "SALE".to_string(),
        None,
        None,
        100,
    );
    assert!(bad.is_err());
    assert!(bad.err().unwrap().message().contains("bulunamadı"));

    // a negative-priced line (a discount) passes without a catalog entry
    let discount = process_sale_transaction(
        &mut store,
        vec![cart_line("SKU123", 1, 10000), cart_line("NOPE", 1, -500)],
        "NAKIT".to_string(),
        "SALE".to_string(),
        None,
        None,
        100,
    )
    .unwrap();
    assert_eq!(discount.total, 9500);

    // the synthetic collection code passes too
    let mut store2 = seeded_store();
    let coll = process_sale_transaction(
        &mut store2,
        vec![cart_line("TAHSILAT", 1, 2500)],
        "NAKIT".to_string(),
        "COLLECTION".to_string(),
        None,
        None,
        100,
    )
    .unwrap();
    assert_eq!(coll.total, 2500);
}

#[test]
fn credit_sale_adjusts_customer_balance() {
    let mut store = seeded_store();
    let account = create_current_account(
        &mut store,
        CreateCurrentAccountRequest {
            name: "Musteri".to_string(),
            account_type: "CUSTOMER".to_string(),
            tax_number: None,
            phone: None,
            email: None,
            address: None,
            note: None,
            payment_term: 30,
        },
        0,
    )
    .unwrap();
    assert_eq!(account.balance, 0);

    process_sale_transaction(
        &mut store,
        vec![cart_line("SKU123", 2, 10000)],
        "VERESIYE".to_string(),
        "SALE".to_string(),
        None,
        Some(account.id.clone()),
        100,
    )
    .unwrap();

    let accounts = pos_core::accounts::get_current_accounts(&store).unwrap();
    assert_eq!(accounts.len(), 1);
    assert_eq!(accounts[0].balance, 20000);
}

#[test]
fn goods_receipt_restocks_and_opens_full_lot() {
    let mut store = seeded_store();
    process_goods_receipt(
        &mut store,
        vec![GoodsReceiptItem {
            product_id: "item-1".to_string(),
            quantity: 4,
            buy_price: 6000,
            sell_price: None,
        }],
        24000,
        "NAKIT".to_string(),
        "ilk mal kabul".to_string(),
        "2024-02-01".to_string(),
        None,
        None,
        500,
    )
    .unwrap();

    let item = store.get_item_by_sku("SKU123").unwrap();
    assert_eq!(item.quantity, 14);
    assert_eq!(item.cost_price, Some(6000));

    let lots = get_product_lots(&store, "item-1").unwrap();
    assert_eq!(lots.len(), 1);
    assert_eq!(lots[0].quantity, lots[0].initial_quantity);
    assert_eq!(lots[0].quantity, 4);
    assert_eq!(lots[0].buy_price, 6000);
}

#[test]
fn credit_goods_receipt_credits_the_supplier() {
    let mut store = seeded_store();
    let supplier = create_current_account(
        &mut store,
        CreateCurrentAccountRequest {
            name: "Tedarikci".to_string(),
            account_type: "SUPPLIER".to_string(),
            tax_number: None,
            phone: None,
            email: None,
            address: None,
            note: None,
            payment_term: 0,
        },
        0,
    )
    .unwrap();

    process_goods_receipt(
        &mut store,
        vec![GoodsReceiptItem {
            product_id: "item-1".to_string(),
            quantity: 2,
            buy_price: 7000,
            sell_price: Some(9000),
        }],
        14000,
        "VADELI".to_string(),
        "vadeli alim".to_string(),
        "2024-02-02".to_string(),
        Some(supplier.id.clone()),
        Some("FTR-1".to_string()),
        600,
    )
    .unwrap();

    let accounts = pos_core::accounts::get_current_accounts(&store).unwrap();
    assert_eq!(accounts[0].balance, 14000);

    // the supplier statement got a PURCHASE entry
    let txs = store.get_transactions();
    assert_eq!(txs.len(), 1);
    assert_eq!(txs[0].transaction_type, "PURCHASE");
    assert_eq!(txs[0].total, 14000);
}

#[test]
fn invalid_receipt_line_rejects_the_whole_receipt() {
    let mut store = seeded_store();
    let r = process_goods_receipt(
        &mut store,
        vec![GoodsReceiptItem {
            product_id: "item-1".to_string(),
            quantity: 0,
            buy_price: 6000,
            sell_price: None,
        }],
        0,
        "NAKIT".to_string(),
        "bos".to_string(),
        "2024-02-01".to_string(),
        None,
        None,
        500,
    );
    assert!(r.is_err());
    assert_eq!(store.get_item_by_sku("SKU123").unwrap().quantity, 10);
    assert!(get_product_lots(&store, "item-1").unwrap().is_empty());
}

#[test]
fn update_quantity_clamps_at_zero() {
    let mut store = seeded_store();
    let updated = store.update_quantity("SKU123", -25, 42).unwrap().unwrap();
    assert_eq!(updated.quantity, 0);
    assert_eq!(updated.last_updated, 42);
    assert!(store.update_quantity("MISSING", 1, 42).unwrap().is_none());
}

#[test]
fn transaction_update_touches_only_cosmetic_fields() {
    let mut store = seeded_store();
    let tx = process_sale_transaction(
        &mut store,
        vec![cart_line("SKU123", 1, 10000)],
        "NAKIT".to_string(),
        "SALE".to_string(),
        None,
        None,
        100,
    )
    .unwrap();

    store
        .update_transaction(
            tx.id.as_str(),
            &TransactionUpdate {
                payment_method: Some("KART".to_string()),
                note: Some("duzeltme".to_string()),
            },
        )
        .unwrap();

    let txs = store.get_transactions();
    assert_eq!(txs[0].payment_method, "KART");
    assert_eq!(txs[0].note, Some("duzeltme".to_string()));
    assert_eq!(txs[0].total, tx.total);
    assert!(store
        .update_transaction("missing-id", &TransactionUpdate { payment_method: None, note: None })
        .is_err());
}

#[test]
fn price_change_reprices_one_category() {
    let mut store = seeded_store();
    let touched = store.apply_price_change("Genel", 1000, 77).unwrap(); // +10%
    assert_eq!(touched, 1);
    assert_eq!(store.get_item_by_sku("SKU123").unwrap().price, 11000);

    let touched_all = store.apply_price_change("ALL", -10000, 78).unwrap(); // -100%
    assert_eq!(touched_all, 1);
    assert_eq!(store.get_item_by_sku("SKU123").unwrap().price, 0);

    assert!(store.apply_price_change("Genel", -10001, 79).is_err());
}

#[test]
fn dashboard_stats_add_up() {
    let mut store = seeded_store();
    store
        .add_item(InventoryItem {
            id: "item-2".to_string(),
            sku: "SKU124".to_string(),
            name: "Low".to_string(),
            category: "Genel".to_string(),
            quantity: 3,
            location: "".to_string(),
            price: 500,
            cost_price: None,
            supplier_id: None,
            last_updated: 0,
        })
        .unwrap();
    process_sale_transaction(
        &mut store,
        vec![cart_line("SKU123", 2, 10000)],
        "NAKIT".to_string(),
        "SALE".to_string(),
        None,
        None,
        100,
    )
    .unwrap();

    let stats = store.get_dashboard_stats();
    assert_eq!(stats.total_items, 2);
    assert_eq!(stats.total_quantity, 8 + 3);
    assert_eq!(stats.low_stock_count, 2); // 8 and 3 are both under 10
    assert_eq!(stats.total_revenue, 20000);
}

#[test]
fn category_stats_group_by_category() {
    let mut store = seeded_store(); // SKU123: Genel, qty 10, price 10000
    store
        .add_item(InventoryItem {
            id: "item-2".to_string(),
            sku: "SKU124".to_string(),
            name: "Gida Item".to_string(),
            category: "Gida".to_string(),
            quantity: 4,
            location: "".to_string(),
            price: 250,
            cost_price: None,
            supplier_id: None,
            last_updated: 0,
        })
        .unwrap();
    store
        .add_item(InventoryItem {
            id: "item-3".to_string(),
            sku: "SKU125".to_string(),
            name: "Genel Item".to_string(),
            category: "Genel".to_string(),
            quantity: 2,
            location: "".to_string(),
            price: 100,
            cost_price: None,
            supplier_id: None,
            last_updated: 0,
        })
        .unwrap();

    let stats = store.get_category_stats();
    assert_eq!(stats.len(), 2);
    let genel = stats.iter().find(|s| s.category == "Genel").unwrap();
    assert_eq!(genel.count, 2);
    assert_eq!(genel.total_quantity, 12);
    assert_eq!(genel.total_value, 10 * 10000 + 2 * 100);
    let gida = stats.iter().find(|s| s.category == "Gida").unwrap();
    assert_eq!(gida.count, 1);
    assert_eq!(gida.total_quantity, 4);
    assert_eq!(gida.total_value, 1000);
}
