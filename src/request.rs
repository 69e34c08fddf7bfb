use vstd::prelude::*;

use crate::request_id::{bill_id, lemma_request_id_injective, withdrawal_id};

verus! {

/// A request to pay a bill from an account's balance.
#[derive(Debug)]
pub struct BillPayment {
    pub id: String,
    pub user_address: String,
    pub bill_type: String,
    pub account_number: String,
    pub amount: i128,
    pub status: String,
    pub timestamp: u64,
}

/// A request to withdraw from an account's balance to local currency.
#[derive(Debug)]
pub struct Withdrawal {
    pub id: String,
    pub user_address: String,
    pub method: String,
    pub account_number: String,
    pub usdc_amount: i128,
    pub ugx_amount: i128,
    pub status: String,
    pub timestamp: u64,
}

impl BillPayment {
    /// A copy of the record.
    pub fn duplicate(&self) -> (r: BillPayment)
        ensures
            r == *self,
    {
        BillPayment {
            id: self.id.clone(),
            user_address: self.user_address.clone(),
            bill_type: self.bill_type.clone(),
            account_number: self.account_number.clone(),
            amount: self.amount,
            status: self.status.clone(),
            timestamp: self.timestamp,
        }
    }
}

impl Withdrawal {
    /// A copy of the record.
    pub fn duplicate(&self) -> (r: Withdrawal)
        ensures
            r == *self,
    {
        Withdrawal {
            id: self.id.clone(),
            user_address: self.user_address.clone(),
            method: self.method.clone(),
            account_number: self.account_number.clone(),
            usdc_amount: self.usdc_amount,
            ugx_amount: self.ugx_amount,
            status: self.status.clone(),
            timestamp: self.timestamp,
        }
    }
}

/// No two bill payments share an id.
pub open spec fn bill_ids_unique(bills: Seq<BillPayment>) -> bool {
    forall|i: int, j: int|
        0 <= i < bills.len() && 0 <= j < bills.len() && i != j ==> bills[i].id@ != bills[j].id@
}

/// No two withdrawals share an id.
pub open spec fn withdrawal_ids_unique(ws: Seq<Withdrawal>) -> bool {
    forall|i: int, j: int|
        0 <= i < ws.len() && 0 <= j < ws.len() && i != j ==> ws[i].id@ != ws[j].id@
}

/// Each bill payment has the id made from its timestamp and its position.
pub open spec fn bill_ids_numbered(bills: Seq<BillPayment>) -> bool {
    forall|i: int| 0 <= i < bills.len() ==> #[trigger] bills[i].id@ == bill_id(bills[i].timestamp, i as nat)
}

/// Each withdrawal has the id made from its timestamp and its position.
pub open spec fn withdrawal_ids_numbered(ws: Seq<Withdrawal>) -> bool {
    forall|i: int| 0 <= i < ws.len() ==> #[trigger] ws[i].id@ == withdrawal_id(ws[i].timestamp, i as nat)
}

pub proof fn lemma_bill_ids_numbered(bills: Seq<BillPayment>, timestamp: u64)
    requires
        bill_ids_numbered(bills),
    ensures
        bill_ids_unique(bills),
        !bill_id_used(bills, bill_id(timestamp, bills.len())),
{
    assert forall|i: int, j: int|
        0 <= i < bills.len() && 0 <= j < bills.len() && i != j implies bills[i].id@ != bills[j].id@ by {
        if bills[i].id@ == bills[j].id@ {
            lemma_request_id_injective("bill_"@, bills[i].timestamp, i as nat, bills[j].timestamp, j as nat);
        }
    }
    if bill_id_used(bills, bill_id(timestamp, bills.len())) {
        let i = choose|i: int| 0 <= i < bills.len() && bills[i].id@ == bill_id(timestamp, bills.len());
        lemma_request_id_injective("bill_"@, bills[i].timestamp, i as nat, timestamp, bills.len());
    }
}

pub proof fn lemma_withdrawal_ids_numbered(ws: Seq<Withdrawal>, timestamp: u64)
    requires
        withdrawal_ids_numbered(ws),
    ensures
        withdrawal_ids_unique(ws),
        !withdrawal_id_used(ws, withdrawal_id(timestamp, ws.len())),
{
    assert forall|i: int, j: int|
        0 <= i < ws.len() && 0 <= j < ws.len() && i != j implies ws[i].id@ != ws[j].id@ by {
        if ws[i].id@ == ws[j].id@ {
            lemma_request_id_injective("withdraw_"@, ws[i].timestamp, i as nat, ws[j].timestamp, j as nat);
        }
    }
    if withdrawal_id_used(ws, withdrawal_id(timestamp, ws.len())) {
        let i = choose|i: int| 0 <= i < ws.len() && ws[i].id@ == withdrawal_id(timestamp, ws.len());
        lemma_request_id_injective("withdraw_"@, ws[i].timestamp, i as nat, timestamp, ws.len());
    }
}

/// Some bill payment has the id `id`.
pub open spec fn bill_id_used(bills: Seq<BillPayment>, id: Seq<char>) -> bool {
    exists|i: int| 0 <= i < bills.len() && bills[i].id@ == id
}

/// Some withdrawal has the id `id`.
pub open spec fn withdrawal_id_used(ws: Seq<Withdrawal>, id: Seq<char>) -> bool {
    exists|i: int| 0 <= i < ws.len() && ws[i].id@ == id
}

/// The bill payments of identity `a`, in the order in which they are stored.
pub open spec fn bills_of(bills: Seq<BillPayment>, a: Seq<char>) -> Seq<BillPayment> {
    bills.filter(|b: BillPayment| b.user_address@ == a)
}

/// The withdrawals of identity `a`, in the order in which they are stored.
pub open spec fn withdrawals_of(ws: Seq<Withdrawal>, a: Seq<char>) -> Seq<Withdrawal> {
    ws.filter(|w: Withdrawal| w.user_address@ == a)
}

/// `new` is `old` with its status set to `status`.
pub open spec fn bill_restatused(new: BillPayment, old: BillPayment, status: Seq<char>) -> bool {
    &&& new.id == old.id
    &&& new.user_address == old.user_address
    &&& new.bill_type == old.bill_type
    &&& new.account_number == old.account_number
    &&& new.amount == old.amount
    &&& new.timestamp == old.timestamp
    &&& new.status@ == status
}

/// `new` is `old` with its status set to `status`.
pub open spec fn withdrawal_restatused(new: Withdrawal, old: Withdrawal, status: Seq<char>) -> bool {
    &&& new.id == old.id
    &&& new.user_address == old.user_address
    &&& new.method == old.method
    &&& new.account_number == old.account_number
    &&& new.usdc_amount == old.usdc_amount
    &&& new.ugx_amount == old.ugx_amount
    &&& new.timestamp == old.timestamp
    &&& new.status@ == status
}

/// The index of the bill payment with id `id`, if one is there.
pub fn find_bill(bills: &Vec<BillPayment>, id: &String) -> (r: Option<usize>)
    ensures
        match r {
            Some(i) => i < bills@.len() && bills@[i as int].id@ == id@,
            None => !bill_id_used(bills@, id@),
        },
{
    let mut i: usize = 0;
    while i < bills.len()
        invariant
            i <= bills@.len(),
            forall|j: int| 0 <= j < i ==> bills@[j].id@ != id@,
        decreases bills@.len() - i,
    {
        if bills[i].id == *id {
            return Some(i);
        }
        i += 1;
    }
    None
}

/// The index of the withdrawal with id `id`, if one is there.
pub fn find_withdrawal(ws: &Vec<Withdrawal>, id: &String) -> (r: Option<usize>)
    ensures
        match r {
            Some(i) => i < ws@.len() && ws@[i as int].id@ == id@,
            None => !withdrawal_id_used(ws@, id@),
        },
{
    let mut i: usize = 0;
    while i < ws.len()
        invariant
            i <= ws@.len(),
            forall|j: int| 0 <= j < i ==> ws@[j].id@ != id@,
        decreases ws@.len() - i,
    {
        if ws[i].id == *id {
            return Some(i);
        }
        i += 1;
    }
    None
}

/// Copies of the bill payments of identity `a`, in stored order.
pub fn collect_bills(bills: &Vec<BillPayment>, a: &String) -> (r: Vec<BillPayment>)
    ensures
        r@ == bills_of(bills@, a@),
{
    let mut out: Vec<BillPayment> = Vec::new();
    let mut i: usize = 0;
    while i < bills.len()
        invariant
            i <= bills@.len(),
            out@ == bills_of(bills@.subrange(0, i as int), a@),
        decreases bills@.len() - i,
    {
        proof {
            assert(bills@.subrange(0, i + 1).drop_last() =~= bills@.subrange(0, i as int));
            reveal(Seq::filter);
        }
        if bills[i].user_address == *a {
            out.push(bills[i].duplicate());
        }
        i += 1;
    }
    assert(bills@.subrange(0, bills@.len() as int) =~= bills@);
    out
}

/// Copies of the withdrawals of identity `a`, in stored order.
pub fn collect_withdrawals(ws: &Vec<Withdrawal>, a: &String) -> (r: Vec<Withdrawal>)
    ensures
        r@ == withdrawals_of(ws@, a@),
{
    let mut out: Vec<Withdrawal> = Vec::new();
    let mut i: usize = 0;
    while i < ws.len()
        invariant
            i <= ws@.len(),
            out@ == withdrawals_of(ws@.subrange(0, i as int), a@),
        decreases ws@.len() - i,
    {
        proof {
            assert(ws@.subrange(0, i + 1).drop_last() =~= ws@.subrange(0, i as int));
            reveal(Seq::filter);
        }
        if ws[i].user_address == *a {
            out.push(ws[i].duplicate());
        }
        i += 1;
    }
    assert(ws@.subrange(0, ws@.len() as int) =~= ws@);
    out
}

} // verus!
