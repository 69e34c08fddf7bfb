use vstd::prelude::*;

use crate::error::PayviaError;
use crate::payvia::Payvia;
use crate::request::bills_of;

verus! {

/// Registering the same identity twice: the first call succeeds and leaves an
/// account with balance 0 that is not verified; the second is refused as a
/// duplicate and changes nothing.
pub proof fn lemma_register_twice(
    s0: Payvia,
    s1: Payvia,
    s2: Payvia,
    a: Seq<char>,
    phone1: Seq<char>,
    phone2: Seq<char>,
    r1: Result<(), PayviaError>,
    r2: Result<(), PayviaError>,
)
    requires
        !s0.accounts().contains_key(a),
        Payvia::register_post(s0, s1, a, phone1, r1),
        Payvia::register_post(s1, s2, a, phone2, r2),
    ensures
        r1 is Ok,
        s1.accounts().contains_key(a),
        s1.accounts()[a].balance == 0,
        !s1.accounts()[a].is_verified,
        r2 == Err::<(), PayviaError>(PayviaError::DuplicateAccount),
        s2 == s1,
{
}

/// In a ledger with no negative balance, a transfer from an account whose
/// balance is below the amount, to an account that exists, is refused for
/// insufficient balance and leaves both balances as they were.
pub proof fn lemma_transfer_insufficient(
    s0: Payvia,
    s1: Payvia,
    from: Seq<char>,
    to: Seq<char>,
    amount: int,
    r: Result<(), PayviaError>,
)
    requires
        s0.balances_nonnegative(),
        s0.accounts().contains_key(from),
        s0.accounts().contains_key(to),
        s0.accounts()[from].balance < amount,
        Payvia::send_post(s0, s1, from, to, amount, r),
    ensures
        r == Err::<(), PayviaError>(PayviaError::InsufficientBalance),
        s1.accounts()[from].balance == s0.accounts()[from].balance,
        s1.accounts()[to].balance == s0.accounts()[to].balance,
{
}

/// A transfer from an account to itself, of a non-negative amount no more
/// than its balance, succeeds and leaves its balance unchanged.
pub proof fn lemma_self_transfer(
    s0: Payvia,
    s1: Payvia,
    a: Seq<char>,
    amount: int,
    r: Result<(), PayviaError>,
)
    requires
        s0.accounts().contains_key(a),
        0 <= amount <= s0.accounts()[a].balance,
        Payvia::send_post(s0, s1, a, a, amount, r),
    ensures
        r is Ok,
        s1.accounts().contains_key(a),
        s1.accounts()[a].balance == s0.accounts()[a].balance,
{
}

/// After a bill payment is created, a status update by anyone but the
/// administrator is refused and the payment stays pending; one by the
/// administrator succeeds, and the payment, with the new status, is among
/// those listed for its owner.
pub proof fn lemma_bill_status_admin_only(
    s0: Payvia,
    s1: Payvia,
    s2: Payvia,
    a: Seq<char>,
    bill_type: Seq<char>,
    account_number: Seq<char>,
    amount: int,
    timestamp: u64,
    created: Result<String, PayviaError>,
    caller: Seq<char>,
    status: Seq<char>,
    r: Result<(), PayviaError>,
)
    requires
        Payvia::pay_bill_post(s0, s1, a, bill_type, account_number, amount, timestamp, created),
        created is Ok,
        Payvia::update_bill_post(s1, s2, caller, created->Ok_0@, status, r),
    ensures
        !s1.is_admin(caller) ==> {
            &&& r == Err::<(), PayviaError>(PayviaError::Unauthorized)
            &&& s2 == s1
            &&& s2.bills@.last().id@ == created->Ok_0@
            &&& s2.bills@.last().status@ == "pending"@
        },
        s1.is_admin(caller) ==> {
            &&& r is Ok
            &&& exists|k: int|
                0 <= k < bills_of(s2.bills@, a).len() && #[trigger] bills_of(s2.bills@, a)[k].id@
                    == created->Ok_0@ && bills_of(s2.bills@, a)[k].status@ == status
        },
{
    let id = created->Ok_0@;
    let last = s1.bills@.len() - 1;
    assert(s1.bills@[last].id@ == id);
    if s1.is_admin(caller) {
        let b = s2.bills@[last];
        assert(b.user_address@ == a);
        assert(b.id@ == id && b.status@ == status);
        s2.bills@.lemma_filter_contains(|x: crate::request::BillPayment| x.user_address@ == a, last);
        assert(bills_of(s2.bills@, a).contains(b));
        let k = choose|k: int| 0 <= k < bills_of(s2.bills@, a).len() && bills_of(s2.bills@, a)[k] == b;
        assert(bills_of(s2.bills@, a)[k].id@ == id);
    }
}

} // verus!
