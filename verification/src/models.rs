//! Data model of the core: inventory, lots, transactions, counterparties,
//! sync records, and the plain data carriers of the surrounding command
//! surface.
//!
//! Monetary amounts are integer cents; timestamps are integer milliseconds.
//! Each entity that contracts speak about has a mathematical view.

use vstd::prelude::*;

verus! {

/// Spec-level image of an `Option<String>`.
pub open spec fn opt_view(o: Option<String>) -> Option<Seq<char>> {
    match o {
        Some(s) => Some(s@),
        None => None,
    }
}

/// Spec-level image of an `Option<&str>`.
pub open spec fn opt_str_view(o: Option<&str>) -> Option<Seq<char>> {
    match o {
        Some(s) => Some(s@),
        None => None,
    }
}

/// Spec-level image of an `Option<i64>`.
pub open spec fn opt_int(o: Option<i64>) -> Option<int> {
    match o {
        Some(v) => Some(v as int),
        None => None,
    }
}

/// Clone an optional string, keeping its view.
pub fn dup_opt_string(o: &Option<String>) -> (r: Option<String>)
    ensures
        opt_view(r) == opt_view(*o),
{
    match o {
        Some(s) => Some(s.clone()),
        None => None,
    }
}

// ==================== Inventory ====================

/// One stocked product.
pub struct InventoryItem {
    pub id: String,
    pub sku: String,
    pub name: String,
    pub category: String,
    pub quantity: i32,
    pub location: String,
    pub price: i64,
    pub cost_price: Option<i64>,
    pub supplier_id: Option<String>,
    pub last_updated: u64,
}

#[verifier::ext_equal]
pub struct ItemView {
    pub id: Seq<char>,
    pub sku: Seq<char>,
    pub name: Seq<char>,
    pub category: Seq<char>,
    pub quantity: int,
    pub location: Seq<char>,
    pub price: int,
    pub cost_price: Option<int>,
    pub supplier_id: Option<Seq<char>>,
    pub last_updated: int,
}

impl View for InventoryItem {
    type V = ItemView;

    open spec fn view(&self) -> ItemView {
        ItemView {
            id: self.id@,
            sku: self.sku@,
            name: self.name@,
            category: self.category@,
            quantity: self.quantity as int,
            location: self.location@,
            price: self.price as int,
            cost_price: opt_int(self.cost_price),
            supplier_id: opt_view(self.supplier_id),
            last_updated: self.last_updated as int,
        }
    }
}

impl InventoryItem {
    /// Copy the item, keeping its view.
    pub fn duplicate(&self) -> (r: InventoryItem)
        ensures
            r@ == self@,
    {
        InventoryItem {
            id: self.id.clone(),
            sku: self.sku.clone(),
            name: self.name.clone(),
            category: self.category.clone(),
            quantity: self.quantity,
            location: self.location.clone(),
            price: self.price,
            cost_price: self.cost_price,
            supplier_id: dup_opt_string(&self.supplier_id),
            last_updated: self.last_updated,
        }
    }
}

// ==================== Cart & transactions ====================

/// One line of a submitted cart.
pub struct CartItem {
    pub id: String,
    pub sku: String,
    pub name: String,
    pub cart_quantity: i32,
    pub price: i64,
    pub cost_price: Option<i64>,
}

#[verifier::ext_equal]
pub struct CartItemView {
    pub id: Seq<char>,
    pub sku: Seq<char>,
    pub name: Seq<char>,
    pub cart_quantity: int,
    pub price: int,
    pub cost_price: Option<int>,
}

impl View for CartItem {
    type V = CartItemView;

    open spec fn view(&self) -> CartItemView {
        CartItemView {
            id: self.id@,
            sku: self.sku@,
            name: self.name@,
            cart_quantity: self.cart_quantity as int,
            price: self.price as int,
            cost_price: opt_int(self.cost_price),
        }
    }
}

impl CartItem {
    /// Copy the line, keeping its view.
    pub fn duplicate(&self) -> (r: CartItem)
        ensures
            r@ == self@,
    {
        CartItem {
            id: self.id.clone(),
            sku: self.sku.clone(),
            name: self.name.clone(),
            cart_quantity: self.cart_quantity,
            price: self.price,
            cost_price: self.cost_price,
        }
    }
}

/// Spec-level image of a cart.
pub open spec fn cart_view(cart: Seq<CartItem>) -> Seq<CartItemView> {
    cart.map_values(|c: CartItem| c@)
}

/// Copy a cart, keeping its view.
pub fn dup_cart(cart: &Vec<CartItem>) -> (r: Vec<CartItem>)
    ensures
        cart_view(r@) == cart_view(cart@),
{
    let mut out: Vec<CartItem> = Vec::new();
    let mut i: usize = 0;
    while i < cart.len()
        invariant
            i <= cart@.len(),
            out@.len() == i,
            forall|j: int| 0 <= j < i ==> out@[j]@ == cart@[j]@,
        decreases cart@.len() - i,
    {
        out.push(cart[i].duplicate());
        i += 1;
    }
    proof {
        assert(cart_view(out@) =~= cart_view(cart@));
    }
    out
}

/// An immutable ledger entry.
pub struct Transaction {
    pub id: String,
    pub items: Vec<CartItem>,
    pub total: i64,
    pub payment_method: String,
    pub transaction_type: String,
    pub status: String,
    pub note: Option<String>,
    pub created_at: u64,
    pub customer_id: Option<String>,
}

#[verifier::ext_equal]
pub struct TransactionView {
    pub id: Seq<char>,
    pub items: Seq<CartItemView>,
    pub total: int,
    pub payment_method: Seq<char>,
    pub transaction_type: Seq<char>,
    pub status: Seq<char>,
    pub note: Option<Seq<char>>,
    pub created_at: int,
    pub customer_id: Option<Seq<char>>,
}

impl View for Transaction {
    type V = TransactionView;

    open spec fn view(&self) -> TransactionView {
        TransactionView {
            id: self.id@,
            items: cart_view(self.items@),
            total: self.total as int,
            payment_method: self.payment_method@,
            transaction_type: self.transaction_type@,
            status: self.status@,
            note: opt_view(self.note),
            created_at: self.created_at as int,
            customer_id: opt_view(self.customer_id),
        }
    }
}

impl Transaction {
    /// Copy the ledger entry, keeping its view.
    pub fn duplicate(&self) -> (r: Transaction)
        ensures
            r@ == self@,
    {
        Transaction {
            id: self.id.clone(),
            items: dup_cart(&self.items),
            total: self.total,
            payment_method: self.payment_method.clone(),
            transaction_type: self.transaction_type.clone(),
            status: self.status.clone(),
            note: dup_opt_string(&self.note),
            created_at: self.created_at,
            customer_id: dup_opt_string(&self.customer_id),
        }
    }
}

// ==================== Lots ====================

/// A batch of one product received from one supplier.
pub struct InventoryLot {
    pub id: String,
    pub product_id: String,
    pub supplier_id: Option<String>,
    pub quantity: i32,
    pub initial_quantity: i32,
    pub buy_price: i64,
    pub sell_price: Option<i64>,
    pub receipt_date: String,
    pub invoice_no: Option<String>,
    pub created_at: u64,
}

#[verifier::ext_equal]
pub struct LotView {
    pub id: Seq<char>,
    pub product_id: Seq<char>,
    pub supplier_id: Option<Seq<char>>,
    pub quantity: int,
    pub initial_quantity: int,
    pub buy_price: int,
    pub sell_price: Option<int>,
    pub receipt_date: Seq<char>,
    pub invoice_no: Option<Seq<char>>,
    pub created_at: int,
}

impl View for InventoryLot {
    type V = LotView;

    open spec fn view(&self) -> LotView {
        LotView {
            id: self.id@,
            product_id: self.product_id@,
            supplier_id: opt_view(self.supplier_id),
            quantity: self.quantity as int,
            initial_quantity: self.initial_quantity as int,
            buy_price: self.buy_price as int,
            sell_price: opt_int(self.sell_price),
            receipt_date: self.receipt_date@,
            invoice_no: opt_view(self.invoice_no),
            created_at: self.created_at as int,
        }
    }
}

impl InventoryLot {
    /// Copy the lot, keeping its view.
    pub fn duplicate(&self) -> (r: InventoryLot)
        ensures
            r@ == self@,
    {
        InventoryLot {
            id: self.id.clone(),
            product_id: self.product_id.clone(),
            supplier_id: dup_opt_string(&self.supplier_id),
            quantity: self.quantity,
            initial_quantity: self.initial_quantity,
            buy_price: self.buy_price,
            sell_price: self.sell_price,
            receipt_date: self.receipt_date.clone(),
            invoice_no: dup_opt_string(&self.invoice_no),
            created_at: self.created_at,
        }
    }
}

// ==================== Counterparties ====================

/// A counterparty with a running balance: positive means they owe the
/// business.
pub struct CurrentAccount {
    pub id: String,
    pub name: String,
    pub account_type: String,
    pub tax_number: Option<String>,
    pub phone: Option<String>,
    pub email: Option<String>,
    pub address: Option<String>,
    pub note: Option<String>,
    pub payment_term: i32,
    pub balance: i64,
    pub created_at: u64,
    pub updated_at: u64,
}

#[verifier::ext_equal]
pub struct AccountView {
    pub id: Seq<char>,
    pub name: Seq<char>,
    pub account_type: Seq<char>,
    pub tax_number: Option<Seq<char>>,
    pub phone: Option<Seq<char>>,
    pub email: Option<Seq<char>>,
    pub address: Option<Seq<char>>,
    pub note: Option<Seq<char>>,
    pub payment_term: int,
    pub balance: int,
    pub created_at: int,
    pub updated_at: int,
}

impl View for CurrentAccount {
    type V = AccountView;

    open spec fn view(&self) -> AccountView {
        AccountView {
            id: self.id@,
            name: self.name@,
            account_type: self.account_type@,
            tax_number: opt_view(self.tax_number),
            phone: opt_view(self.phone),
            email: opt_view(self.email),
            address: opt_view(self.address),
            note: opt_view(self.note),
            payment_term: self.payment_term as int,
            balance: self.balance as int,
            created_at: self.created_at as int,
            updated_at: self.updated_at as int,
        }
    }
}

impl CurrentAccount {
    /// Copy the account, keeping its view.
    pub fn duplicate(&self) -> (r: CurrentAccount)
        ensures
            r@ == self@,
    {
        CurrentAccount {
            id: self.id.clone(),
            name: self.name.clone(),
            account_type: self.account_type.clone(),
            tax_number: dup_opt_string(&self.tax_number),
            phone: dup_opt_string(&self.phone),
            email: dup_opt_string(&self.email),
            address: dup_opt_string(&self.address),
            note: dup_opt_string(&self.note),
            payment_term: self.payment_term,
            balance: self.balance,
            created_at: self.created_at,
            updated_at: self.updated_at,
        }
    }
}

// ==================== Stock cards & categories ====================

/// A product definition, separate from the stocked quantity.
pub struct StockCard {
    pub id: String,
    pub barcode: String,
    pub name: String,
    pub brand: Option<String>,
    pub unit: String,
    pub category_id: Option<String>,
    pub description: Option<String>,
    pub image: Option<String>,
    pub supplier_id: Option<String>,
    pub created_at: u64,
    pub updated_at: u64,
}

#[verifier::ext_equal]
pub struct StockCardView {
    pub id: Seq<char>,
    pub barcode: Seq<char>,
    pub name: Seq<char>,
    pub brand: Option<Seq<char>>,
    pub unit: Seq<char>,
    pub category_id: Option<Seq<char>>,
    pub description: Option<Seq<char>>,
    pub image: Option<Seq<char>>,
    pub supplier_id: Option<Seq<char>>,
    pub created_at: int,
    pub updated_at: int,
}

impl View for StockCard {
    type V = StockCardView;

    open spec fn view(&self) -> StockCardView {
        StockCardView {
            id: self.id@,
            barcode: self.barcode@,
            name: self.name@,
            brand: opt_view(self.brand),
            unit: self.unit@,
            category_id: opt_view(self.category_id),
            description: opt_view(self.description),
            image: opt_view(self.image),
            supplier_id: opt_view(self.supplier_id),
            created_at: self.created_at as int,
            updated_at: self.updated_at as int,
        }
    }
}

impl StockCard {
    /// Copy the card, keeping its view.
    pub fn duplicate(&self) -> (r: StockCard)
        ensures
            r@ == self@,
    {
        StockCard {
            id: self.id.clone(),
            barcode: self.barcode.clone(),
            name: self.name.clone(),
            brand: dup_opt_string(&self.brand),
            unit: self.unit.clone(),
            category_id: dup_opt_string(&self.category_id),
            description: dup_opt_string(&self.description),
            image: dup_opt_string(&self.image),
            supplier_id: dup_opt_string(&self.supplier_id),
            created_at: self.created_at,
            updated_at: self.updated_at,
        }
    }
}

/// A product category, optionally nested under a parent.
pub struct Category {
    pub id: String,
    pub name: String,
    pub parent_id: Option<String>,
    pub created_at: u64,
}

#[verifier::ext_equal]
pub struct CategoryView {
    pub id: Seq<char>,
    pub name: Seq<char>,
    pub parent_id: Option<Seq<char>>,
    pub created_at: int,
}

impl View for Category {
    type V = CategoryView;

    open spec fn view(&self) -> CategoryView {
        CategoryView {
            id: self.id@,
            name: self.name@,
            parent_id: opt_view(self.parent_id),
            created_at: self.created_at as int,
        }
    }
}

// ==================== Finance ====================

/// A cash movement recorded beside the ledger.
pub struct FinanceRecord {
    pub id: i64,
    pub record_type: String,
    pub category: String,
    pub amount: i64,
    pub payment_method: String,
    pub description: String,
    pub date: String,
    pub created_at: u64,
}

#[verifier::ext_equal]
pub struct FinanceRecordView {
    pub id: int,
    pub record_type: Seq<char>,
    pub category: Seq<char>,
    pub amount: int,
    pub payment_method: Seq<char>,
    pub description: Seq<char>,
    pub date: Seq<char>,
    pub created_at: int,
}

impl View for FinanceRecord {
    type V = FinanceRecordView;

    open spec fn view(&self) -> FinanceRecordView {
        FinanceRecordView {
            id: self.id as int,
            record_type: self.record_type@,
            category: self.category@,
            amount: self.amount as int,
            payment_method: self.payment_method@,
            description: self.description@,
            date: self.date@,
            created_at: self.created_at as int,
        }
    }
}

// ==================== Command-surface data carriers ====================

/// A user account, without its credential hash.
pub struct User {
    pub id: String,
    pub username: String,
    pub display_name: String,
    pub role: String,
    pub created_at: String,
    pub last_login: Option<String>,
    pub must_change_password: bool,
}

/// A user as shown on the login grid.
pub struct UserLoginDisplay {
    pub id: String,
    pub username: String,
    pub display_name: String,
    pub role: String,
}

/// A request to create a user.
pub struct CreateUserRequest {
    pub username: String,
    pub password: String,
    pub display_name: String,
    pub role: String,
}

/// A request to update a user.
pub struct UpdateUserRequest {
    pub username: Option<String>,
    pub display_name: Option<String>,
    pub role: Option<String>,
}

/// The locally persisted license record; the replication protocol reads its
/// relay address, dealer id and key, and nothing else.
pub struct License {
    pub license_key: String,
    pub dealer_id: String,
    pub dealer_name: String,
    pub mac_address: String,
    pub activated_at: String,
    pub expires_at: Option<String>,
    pub is_active: bool,
    pub last_validated: Option<String>,
    pub api_base_url: String,
}

/// A license validation request.
pub struct LicenseValidateRequest {
    pub license_key: String,
    pub mac_address: String,
}

/// A license validation answer.
pub struct LicenseValidateResponse {
    pub valid: bool,
    pub dealer_id: Option<String>,
    pub dealer_name: Option<String>,
    pub expires_at: Option<String>,
    pub error: Option<String>,
    pub message: Option<String>,
}

/// A license activation request.
pub struct LicenseActivateRequest {
    pub license_key: String,
    pub mac_address: String,
    pub device_name: Option<String>,
}

/// A license activation answer.
pub struct LicenseActivateResponse {
    pub success: bool,
    pub dealer_id: Option<String>,
    pub dealer_name: Option<String>,
    pub activated_at: Option<String>,
    pub expires_at: Option<String>,
    pub error: Option<String>,
    pub message: Option<String>,
}

/// Cloud backup settings and watermarks.
pub struct SyncStatus {
    pub last_backup_at: Option<String>,
    pub last_restore_at: Option<String>,
    pub auto_sync_enabled: bool,
    pub auto_sync_interval_minutes: i32,
}

/// A cloud backup answer.
pub struct CloudBackupResponse {
    pub success: bool,
    pub backup_id: Option<String>,
    pub timestamp: Option<String>,
    pub size_bytes: Option<i64>,
    pub message: Option<String>,
    pub error: Option<String>,
}

/// A cloud status answer.
pub struct CloudStatusResponse {
    pub has_backup: bool,
    pub last_backup_at: Option<String>,
    pub backup_size_bytes: Option<i64>,
    pub backup_count: Option<i32>,
}

/// Pagination parameters.
pub struct PaginationParams {
    pub page: i32,
    pub per_page: i32,
    pub search: Option<String>,
    pub category: Option<String>,
}

/// A page of results with its paging bookkeeping.
pub struct PaginatedResponse<T> {
    pub data: Vec<T>,
    pub total: i32,
    pub page: i32,
    pub per_page: i32,
    pub total_pages: i32,
}

/// A short access code for simplified login.
pub struct AccessCode {
    pub id: i64,
    pub code: String,
    pub name: String,
    pub role: String,
}

/// A request to create a counterparty account.
pub struct CreateCurrentAccountRequest {
    pub name: String,
    pub account_type: String,
    pub tax_number: Option<String>,
    pub phone: Option<String>,
    pub email: Option<String>,
    pub address: Option<String>,
    pub note: Option<String>,
    pub payment_term: i32,
}

/// A request to create or update a stock card.
pub struct CreateStockCardRequest {
    pub id: String,
    pub barcode: String,
    pub name: String,
    pub brand: Option<String>,
    pub unit: String,
    pub category_id: Option<String>,
    pub description: Option<String>,
    pub image: Option<String>,
    pub supplier_id: Option<String>,
}

/// A request to create a category.
pub struct CreateCategoryRequest {
    pub id: String,
    pub name: String,
    pub parent_id: Option<String>,
}

/// The cosmetic fields of a recorded transaction that may still be edited.
pub struct TransactionUpdate {
    pub payment_method: Option<String>,
    pub note: Option<String>,
}

/// An expense category.
pub struct ExpenseCategory {
    pub id: String,
    pub name: String,
}

/// What one device sync cycle moved.
#[derive(Debug, Clone, PartialEq, Eq, Structural)]
pub struct DeviceSyncResult {
    pub pushed: i32,
    pub pulled: i32,
}

/// A short-lived session token handed out after server validation.
pub struct SessionToken {
    pub token: String,
    pub expires_at: u64,
    pub dealer_id: String,
}

/// Security failures of the guard around critical commands.
#[derive(Debug, Clone)]
pub enum SecurityError {
    NoLicense,
    LicenseExpired,
    LicenseInvalid,
    SessionExpired,
    TamperDetected,
    ServerValidationFailed(String),
    MacMismatch,
}

/// Local backup settings.
pub struct BackupConfig {
    pub enabled: bool,
    pub interval_hours: u32,
    pub max_backups: usize,
    pub backup_dir: String,
}

// ==================== Sync records ====================

/// Spec-level image of an `Option<u64>`.
pub open spec fn opt_time(o: Option<u64>) -> Option<int> {
    match o {
        Some(v) => Some(v as int),
        None => None,
    }
}

/// One local mutation awaiting replication.
pub struct SyncTransaction {
    pub id: String,
    pub action_type: String,
    pub item_sku: Option<String>,
    pub item_name: Option<String>,
    pub quantity_change: i32,
    pub old_value: Option<i64>,
    pub new_value: Option<i64>,
    pub metadata: Option<String>,
    pub transaction_time: u64,
}

#[verifier::ext_equal]
pub struct SyncTransactionView {
    pub id: Seq<char>,
    pub action_type: Seq<char>,
    pub item_sku: Option<Seq<char>>,
    pub item_name: Option<Seq<char>>,
    pub quantity_change: int,
    pub old_value: Option<int>,
    pub new_value: Option<int>,
    pub metadata: Option<Seq<char>>,
    pub transaction_time: int,
}

impl View for SyncTransaction {
    type V = SyncTransactionView;

    open spec fn view(&self) -> SyncTransactionView {
        SyncTransactionView {
            id: self.id@,
            action_type: self.action_type@,
            item_sku: opt_view(self.item_sku),
            item_name: opt_view(self.item_name),
            quantity_change: self.quantity_change as int,
            old_value: opt_int(self.old_value),
            new_value: opt_int(self.new_value),
            metadata: opt_view(self.metadata),
            transaction_time: self.transaction_time as int,
        }
    }
}

impl SyncTransaction {
    /// Copy the record, keeping its view.
    pub fn duplicate(&self) -> (r: SyncTransaction)
        ensures
            r@ == self@,
    {
        SyncTransaction {
            id: self.id.clone(),
            action_type: self.action_type.clone(),
            item_sku: dup_opt_string(&self.item_sku),
            item_name: dup_opt_string(&self.item_name),
            quantity_change: self.quantity_change,
            old_value: self.old_value,
            new_value: self.new_value,
            metadata: dup_opt_string(&self.metadata),
            transaction_time: self.transaction_time,
        }
    }
}

/// An outbox row: a sync record plus its replication flag. The flag only
/// ever moves from pending to synced.
pub struct SyncOutboxEntry {
    pub txn: SyncTransaction,
    pub synced: bool,
}

#[verifier::ext_equal]
pub struct OutboxEntryView {
    pub txn: SyncTransactionView,
    pub synced: bool,
}

impl View for SyncOutboxEntry {
    type V = OutboxEntryView;

    open spec fn view(&self) -> OutboxEntryView {
        OutboxEntryView { txn: self.txn@, synced: self.synced }
    }
}

/// The singleton replication cursor.
pub struct SyncCursor {
    pub last_push_at: Option<u64>,
    pub last_pull_at: Option<u64>,
    pub sync_in_progress: bool,
}

#[verifier::ext_equal]
pub struct CursorView {
    pub last_push_at: Option<int>,
    pub last_pull_at: Option<int>,
    pub sync_in_progress: bool,
}

impl View for SyncCursor {
    type V = CursorView;

    open spec fn view(&self) -> CursorView {
        CursorView {
            last_push_at: opt_time(self.last_push_at),
            last_pull_at: opt_time(self.last_pull_at),
            sync_in_progress: self.sync_in_progress,
        }
    }
}

/// Replication cursor state reported to callers, with the pending count.
#[derive(Debug, Clone, PartialEq, Eq, Structural)]
pub struct SyncState {
    pub last_push_at: Option<u64>,
    pub last_pull_at: Option<u64>,
    pub sync_in_progress: bool,
    pub pending_count: u64,
}

// ==================== Aggregates ====================

/// Dashboard statistics over the whole store, amounts in cents.
#[derive(Debug, Clone, Copy, PartialEq, Eq, Structural)]
pub struct DashboardStats {
    pub total_items: u64,
    pub total_quantity: i64,
    pub low_stock_count: u64,
    pub total_revenue: i64,
}

/// Per-category statistics, amounts in cents.
pub struct CategoryStats {
    pub category: String,
    pub count: u64,
    pub total_quantity: i64,
    pub total_value: i64,
}

#[verifier::ext_equal]
pub struct CategoryStatsView {
    pub category: Seq<char>,
    pub count: int,
    pub total_quantity: int,
    pub total_value: int,
}

impl View for CategoryStats {
    type V = CategoryStatsView;

    open spec fn view(&self) -> CategoryStatsView {
        CategoryStatsView {
            category: self.category@,
            count: self.count as int,
            total_quantity: self.total_quantity as int,
            total_value: self.total_value as int,
        }
    }
}

impl CategoryStats {
    /// Copy the row, keeping its view.
    pub fn duplicate(&self) -> (r: CategoryStats)
        ensures
            r@ == self@,
    {
        CategoryStats {
            category: self.category.clone(),
            count: self.count,
            total_quantity: self.total_quantity,
            total_value: self.total_value,
        }
    }
}

} // verus!
