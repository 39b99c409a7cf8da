//! Counterparty accounts. Creation and edits never touch the running
//! balance: it moves only as a side effect of qualifying transactions.

use vstd::prelude::*;

use crate::chars::str_eq;
use crate::error::AppError;
use crate::ids::fresh_id;
use crate::models::dup_opt_string;
use crate::models::opt_view;
use crate::models::AccountView;
use crate::models::CreateCurrentAccountRequest;
use crate::models::CurrentAccount;
use crate::store::Store;
use crate::store::StoreView;

verus! {

/// Some account carries this id.
pub open spec fn has_account_id(accounts: Seq<AccountView>, id: Seq<char>) -> bool {
    exists|i: int| 0 <= i < accounts.len() && #[trigger] accounts[i].id == id
}

/// The account a creation request defines: zero balance, stamped at `now`.
pub open spec fn account_of_request(
    data: CreateCurrentAccountRequest,
    id: Seq<char>,
    now: int,
) -> AccountView {
    AccountView {
        id: id,
        name: data.name@,
        account_type: data.account_type@,
        tax_number: opt_view(data.tax_number),
        phone: opt_view(data.phone),
        email: opt_view(data.email),
        address: opt_view(data.address),
        note: opt_view(data.note),
        payment_term: data.payment_term as int,
        balance: 0,
        created_at: now,
        updated_at: now,
    }
}

/// Create a counterparty account with a fresh id and a zero balance.
#[verifier::loop_isolation(false)]
pub fn create_current_account(
    store: &mut Store,
    data: CreateCurrentAccountRequest,
    now: u64,
) -> (r: Result<CurrentAccount, AppError>)
    requires
        old(store)@.wf(),
    ensures
        final(store)@.wf(),
        r is Err ==> final(store)@ == old(store)@,
        r matches Err(e) ==> e matches AppError::Internal(_),
        (forall|j: int|
            0 <= j < old(store)@.accounts.len() ==> (#[trigger] old(store)@.accounts[j]).id.len()
                != 36) ==> r is Ok,
        r matches Ok(acct) ==> !has_account_id(old(store)@.accounts, acct@.id) && acct@.id.len()
            == 36 && acct@ == account_of_request(data, acct@.id, now as int) && final(store)@ == (
        StoreView {
            accounts: old(store)@.accounts.push(account_of_request(data, acct@.id, now as int)),
            ..old(store)@
        }),
{
    let id = fresh_id();
    let mut c: usize = 0;
    while c < store.accounts.len()
        invariant
            store@ == old(store)@,
            c <= store@.accounts.len(),
            forall|j: int| 0 <= j < c ==> (#[trigger] store@.accounts[j]).id != id@,
        decreases store@.accounts.len() - c,
    {
        if str_eq(store.accounts[c].id.as_str(), id.as_str()) {
            proof {
                // the collision witness has the fresh id's 36-character length
                assert((#[trigger] store@.accounts[c as int]).id.len() == 36);
            }
            return Err(AppError::Internal(String::from_str("Ayni kimlikle cari zaten var")));
        }
        c += 1;
    }
    let account = CurrentAccount {
        id,
        name: data.name,
        account_type: data.account_type,
        tax_number: data.tax_number,
        phone: data.phone,
        email: data.email,
        address: data.address,
        note: data.note,
        payment_term: data.payment_term,
        balance: 0,
        created_at: now,
        updated_at: now,
    };
    let out = account.duplicate();
    let ghost pre = store@.accounts;
    let ghost av = account@;
    store.accounts.push(account);
    proof {
        assert(store@.accounts =~= pre.push(av));
        assert(store@ =~= StoreView { accounts: pre.push(av), ..old(store)@ });
    }
    Ok(out)
}

/// All counterparty accounts, copied out in insertion order.
pub fn get_current_accounts(store: &Store) -> (r: Result<Vec<CurrentAccount>, AppError>)
    ensures
        r matches Ok(v) ==> v@.map_values(|a: CurrentAccount| a@) == store@.accounts,
        r is Ok,
{
    let mut out: Vec<CurrentAccount> = Vec::new();
    let mut i: usize = 0;
    while i < store.accounts.len()
        invariant
            i <= store@.accounts.len(),
            out@.len() == i,
            forall|j: int| 0 <= j < i ==> out@[j]@ == store@.accounts[j],
        decreases store@.accounts.len() - i,
    {
        out.push(store.accounts[i].duplicate());
        i += 1;
    }
    proof {
        assert(out@.map_values(|a: CurrentAccount| a@) =~= store@.accounts);
    }
    Ok(out)
}

/// Update a counterparty's descriptive fields by id. The balance and the
/// creation time stay untouched.
pub fn update_current_account(
    store: &mut Store,
    id: &str,
    data: CreateCurrentAccountRequest,
    now: u64,
) -> (r: Result<(), AppError>)
    requires
        old(store)@.wf(),
    ensures
        final(store)@.wf(),
        r is Ok <==> has_account_id(old(store)@.accounts, id@),
        r is Err ==> final(store)@ == old(store)@,
        r matches Err(e) ==> e matches AppError::NotFound(_),
        r is Ok ==> final(store)@ == (StoreView {
            accounts: Seq::new(
                old(store)@.accounts.len(),
                |i: int|
                    if old(store)@.accounts[i].id == id@ {
                        AccountView {
                            id: old(store)@.accounts[i].id,
                            balance: old(store)@.accounts[i].balance,
                            created_at: old(store)@.accounts[i].created_at,
                            updated_at: now as int,
                            ..account_of_request(data, id@, now as int)
                        }
                    } else {
                        old(store)@.accounts[i]
                    },
            ),
            ..old(store)@
        }),
{
    let ghost accounts0 = old(store)@.accounts;
    match store.find_account_index(id) {
        None => Err(AppError::NotFound(String::from_str("Cari bulunamadi"))),
        Some(i) => {
            let mut patched = store.accounts[i].duplicate();
            patched.name = data.name;
            patched.account_type = data.account_type;
            patched.tax_number = data.tax_number;
            patched.phone = data.phone;
            patched.email = data.email;
            patched.address = data.address;
            patched.note = data.note;
            patched.payment_term = data.payment_term;
            patched.updated_at = now;
            store.accounts[i] = patched;
            proof {
                assert forall|j: int| 0 <= j < accounts0.len() && j != i as int implies
                    accounts0[j].id != id@ by {
                    if j < i as int {
                        assert(accounts0[j].id != accounts0[i as int].id);
                    } else {
                        assert(accounts0[i as int].id != accounts0[j].id);
                    }
                }
                assert(store@.accounts =~= Seq::new(
                    accounts0.len(),
                    |j: int|
                        if accounts0[j].id == id@ {
                            AccountView {
                                id: accounts0[j].id,
                                balance: accounts0[j].balance,
                                created_at: accounts0[j].created_at,
                                updated_at: now as int,
                                ..account_of_request(data, id@, now as int)
                            }
                        } else {
                            accounts0[j]
                        },
                ));
                assert(store@ =~= StoreView { accounts: store@.accounts, ..old(store)@ });
            }
            Ok(())
        },
    }
}

/// Delete a counterparty account by id.
pub fn delete_current_account(store: &mut Store, id: &str) -> (r: Result<(), AppError>)
    requires
        old(store)@.wf(),
    ensures
        final(store)@.wf(),
        r is Ok <==> has_account_id(old(store)@.accounts, id@),
        r is Err ==> final(store)@ == old(store)@,
        r matches Err(e) ==> e matches AppError::NotFound(_),
        r is Ok ==> (exists|i: int|
            0 <= i < old(store)@.accounts.len() && (#[trigger] old(store)@.accounts[i]).id == id@
                && final(store)@ == (StoreView {
                accounts: old(store)@.accounts.remove(i),
                ..old(store)@
            })),
{
    match store.find_account_index(id) {
        None => Err(AppError::NotFound(String::from_str("Cari bulunamadi"))),
        Some(i) => {
            store.accounts.remove(i);
            proof {
                assert(store@.accounts =~= old(store)@.accounts.remove(i as int));
                assert(store@ =~= StoreView {
                    accounts: old(store)@.accounts.remove(i as int),
                    ..old(store)@
                });
            }
            Ok(())
        },
    }
}

} // verus!
