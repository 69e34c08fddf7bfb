use vstd::prelude::*;

use crate::account::{
    account_map, addresses_unique, find_user, lemma_account_map_domain, lemma_account_map_get,
    lemma_account_map_push, lemma_account_map_update, lemma_nonnegative_insert, balances_nonnegative_in, with_balance, AccountView, User,
};
use crate::error::PayviaError;
use crate::request::{
    bill_id_used, bill_ids_numbered, lemma_bill_ids_numbered, lemma_withdrawal_ids_numbered, bill_restatused, bills_of, collect_bills, collect_withdrawals,
    find_bill, find_withdrawal, withdrawal_id_used, withdrawal_ids_numbered, withdrawal_restatused,
    withdrawals_of, BillPayment, Withdrawal,
};
use crate::request_id::{bill_id, make_bill_id, make_withdrawal_id, withdrawal_id};

verus! {

/// `x` is a value of `i128`.
pub open spec fn fits_i128(x: int) -> bool {
    i128::MIN <= x <= i128::MAX
}

/// The state of the ledger: the administrator once one is set, the accounts,
/// and the bill-payment and withdrawal requests in order of creation.
pub struct Payvia {
    pub admin: Option<String>,
    pub users: Vec<User>,
    pub bills: Vec<BillPayment>,
    pub withdrawals: Vec<Withdrawal>,
}

impl Payvia {
    /// Identities are unique, and each request has the id made from its
    /// timestamp and its position (so request ids are unique too).
    pub open spec fn wf(&self) -> bool {
        &&& addresses_unique(self.users@)
        &&& bill_ids_numbered(self.bills@)
        &&& withdrawal_ids_numbered(self.withdrawals@)
    }

    /// `caller` is the administrator.
    pub open spec fn is_admin(&self, caller: Seq<char>) -> bool {
        match self.admin {
            Some(a) => a@ == caller,
            None => false,
        }
    }

    /// The accounts, keyed by identity.
    pub open spec fn accounts(&self) -> Map<Seq<char>, AccountView> {
        account_map(self.users@)
    }

    /// No account has a negative balance.
    pub open spec fn balances_nonnegative(&self) -> bool {
        balances_nonnegative_in(self.accounts())
    }

    /// `self` and `other` have the same administrator and the same requests.
    pub open spec fn same_requests(&self, other: &Payvia) -> bool {
        &&& self.admin == other.admin
        &&& self.bills@ == other.bills@
        &&& self.withdrawals@ == other.withdrawals@
    }

    /// `self` and `other` have the same administrator, accounts and withdrawals.
    pub open spec fn same_but_bills(&self, other: &Payvia) -> bool {
        &&& self.admin == other.admin
        &&& self.users@ == other.users@
        &&& self.withdrawals@ == other.withdrawals@
    }

    /// `self` and `other` have the same administrator, accounts and bill payments.
    pub open spec fn same_but_withdrawals(&self, other: &Payvia) -> bool {
        &&& self.admin == other.admin
        &&& self.users@ == other.users@
        &&& self.bills@ == other.bills@
    }

    /// The outcome of `register_user(a, phone)` from `pre`.
    pub open spec fn register_post(
        pre: Payvia,
        post: Payvia,
        a: Seq<char>,
        phone: Seq<char>,
        r: Result<(), PayviaError>,
    ) -> bool {
        if pre.accounts().contains_key(a) {
            r == Err::<(), PayviaError>(PayviaError::DuplicateAccount) && post == pre
        } else {
            &&& r is Ok
            &&& post.accounts() == pre.accounts().insert(
                a,
                AccountView { phone, is_verified: false, balance: 0 },
            )
            &&& post.same_requests(&pre)
        }
    }

    /// The outcome of `deposit(a, amount)` from `pre`.
    pub open spec fn deposit_post(
        pre: Payvia,
        post: Payvia,
        a: Seq<char>,
        amount: int,
        r: Result<(), PayviaError>,
    ) -> bool {
        let acc = pre.accounts();
        if !acc.contains_key(a) {
            r == Err::<(), PayviaError>(PayviaError::UserNotFound) && post == pre
        } else if acc[a].balance + amount < 0 {
            r == Err::<(), PayviaError>(PayviaError::InsufficientBalance) && post == pre
        } else if !fits_i128(acc[a].balance + amount) {
            r == Err::<(), PayviaError>(PayviaError::BalanceOverflow) && post == pre
        } else {
            &&& r is Ok
            &&& post.accounts() == acc.insert(a, with_balance(acc[a], acc[a].balance + amount))
            &&& post.same_requests(&pre)
        }
    }

    /// The outcome of `send_usdc(from, to, amount)` from `pre`.
    pub open spec fn send_post(
        pre: Payvia,
        post: Payvia,
        from: Seq<char>,
        to: Seq<char>,
        amount: int,
        r: Result<(), PayviaError>,
    ) -> bool {
        let acc = pre.accounts();
        if !acc.contains_key(from) {
            r == Err::<(), PayviaError>(PayviaError::SenderNotFound) && post == pre
        } else if !acc.contains_key(to) {
            r == Err::<(), PayviaError>(PayviaError::RecipientNotFound) && post == pre
        } else if amount < 0 {
            r == Err::<(), PayviaError>(PayviaError::InvalidAmount) && post == pre
        } else if acc[from].balance < amount {
            r == Err::<(), PayviaError>(PayviaError::InsufficientBalance) && post == pre
        } else if from == to {
            r is Ok && post == pre
        } else if !fits_i128(acc[to].balance + amount) {
            r == Err::<(), PayviaError>(PayviaError::BalanceOverflow) && post == pre
        } else {
            &&& r is Ok
            &&& post.accounts() == acc.insert(
                from,
                with_balance(acc[from], acc[from].balance - amount),
            ).insert(to, with_balance(acc[to], acc[to].balance + amount))
            &&& post.same_requests(&pre)
        }
    }

    /// `b` holds these fields.
    pub open spec fn bill_is(
        b: BillPayment,
        id: Seq<char>,
        a: Seq<char>,
        bill_type: Seq<char>,
        account_number: Seq<char>,
        amount: int,
        timestamp: u64,
    ) -> bool {
        &&& b.id@ == id
        &&& b.user_address@ == a
        &&& b.bill_type@ == bill_type
        &&& b.account_number@ == account_number
        &&& b.amount == amount
        &&& b.status@ == "pending"@
        &&& b.timestamp == timestamp
    }

    /// The outcome of `pay_bill(a, bill_type, account_number, amount, timestamp)` from `pre`.
    pub open spec fn pay_bill_post(
        pre: Payvia,
        post: Payvia,
        a: Seq<char>,
        bill_type: Seq<char>,
        account_number: Seq<char>,
        amount: int,
        timestamp: u64,
        r: Result<String, PayviaError>,
    ) -> bool {
        let acc = pre.accounts();
        if !acc.contains_key(a) {
            r == Err::<String, PayviaError>(PayviaError::UserNotFound) && post == pre
        } else if amount <= 0 {
            r == Err::<String, PayviaError>(PayviaError::InvalidAmount) && post == pre
        } else if acc[a].balance < amount {
            r == Err::<String, PayviaError>(PayviaError::InsufficientBalance) && post == pre
        } else {
            &&& r is Ok
            &&& r->Ok_0@ == bill_id(timestamp, pre.bills@.len())
            &&& !bill_id_used(pre.bills@, r->Ok_0@)
            &&& post.accounts() == acc.insert(a, with_balance(acc[a], acc[a].balance - amount))
            &&& post.admin == pre.admin
            &&& post.withdrawals@ == pre.withdrawals@
            &&& post.bills@.len() == pre.bills@.len() + 1
            &&& post.bills@.drop_last() == pre.bills@
            &&& Self::bill_is(
                post.bills@.last(),
                bill_id(timestamp, pre.bills@.len()),
                a,
                bill_type,
                account_number,
                amount,
                timestamp,
            )
        }
    }

    /// `w` holds these fields.
    pub open spec fn withdrawal_is(
        w: Withdrawal,
        id: Seq<char>,
        a: Seq<char>,
        method: Seq<char>,
        account_number: Seq<char>,
        usdc_amount: int,
        ugx_amount: int,
        timestamp: u64,
    ) -> bool {
        &&& w.id@ == id
        &&& w.user_address@ == a
        &&& w.method@ == method
        &&& w.account_number@ == account_number
        &&& w.usdc_amount == usdc_amount
        &&& w.ugx_amount == ugx_amount
        &&& w.status@ == "pending"@
        &&& w.timestamp == timestamp
    }

    /// The outcome of `withdraw(a, method, account_number, usdc_amount, ugx_amount, timestamp)`
    /// from `pre`.
    pub open spec fn withdraw_post(
        pre: Payvia,
        post: Payvia,
        a: Seq<char>,
        method: Seq<char>,
        account_number: Seq<char>,
        usdc_amount: int,
        ugx_amount: int,
        timestamp: u64,
        r: Result<String, PayviaError>,
    ) -> bool {
        let acc = pre.accounts();
        if !acc.contains_key(a) {
            r == Err::<String, PayviaError>(PayviaError::UserNotFound) && post == pre
        } else if usdc_amount <= 0 {
            r == Err::<String, PayviaError>(PayviaError::InvalidAmount) && post == pre
        } else if acc[a].balance < usdc_amount {
            r == Err::<String, PayviaError>(PayviaError::InsufficientBalance) && post == pre
        } else {
            &&& r is Ok
            &&& r->Ok_0@ == withdrawal_id(timestamp, pre.withdrawals@.len())
            &&& !withdrawal_id_used(pre.withdrawals@, r->Ok_0@)
            &&& post.accounts() == acc.insert(
                a,
                with_balance(acc[a], acc[a].balance - usdc_amount),
            )
            &&& post.admin == pre.admin
            &&& post.bills@ == pre.bills@
            &&& post.withdrawals@.len() == pre.withdrawals@.len() + 1
            &&& post.withdrawals@.drop_last() == pre.withdrawals@
            &&& Self::withdrawal_is(
                post.withdrawals@.last(),
                withdrawal_id(timestamp, pre.withdrawals@.len()),
                a,
                method,
                account_number,
                usdc_amount,
                ugx_amount,
                timestamp,
            )
        }
    }

    /// The outcome of `update_bill_status(caller, id, status)` from `pre`.
    pub open spec fn update_bill_post(
        pre: Payvia,
        post: Payvia,
        caller: Seq<char>,
        id: Seq<char>,
        status: Seq<char>,
        r: Result<(), PayviaError>,
    ) -> bool {
        if !pre.is_admin(caller) {
            r == Err::<(), PayviaError>(PayviaError::Unauthorized) && post == pre
        } else if !bill_id_used(pre.bills@, id) {
            r == Err::<(), PayviaError>(PayviaError::PaymentNotFound) && post == pre
        } else {
            &&& r is Ok
            &&& post.same_but_bills(&pre)
            &&& post.bills@.len() == pre.bills@.len()
            &&& forall|i: int|
                0 <= i < pre.bills@.len() ==> if pre.bills@[i].id@ == id {
                    bill_restatused(post.bills@[i], pre.bills@[i], status)
                } else {
                    post.bills@[i] == pre.bills@[i]
                }
        }
    }

    /// The outcome of `update_withdrawal_status(caller, id, status)` from `pre`.
    pub open spec fn update_withdrawal_post(
        pre: Payvia,
        post: Payvia,
        caller: Seq<char>,
        id: Seq<char>,
        status: Seq<char>,
        r: Result<(), PayviaError>,
    ) -> bool {
        if !pre.is_admin(caller) {
            r == Err::<(), PayviaError>(PayviaError::Unauthorized) && post == pre
        } else if !withdrawal_id_used(pre.withdrawals@, id) {
            r == Err::<(), PayviaError>(PayviaError::WithdrawalNotFound) && post == pre
        } else {
            &&& r is Ok
            &&& post.same_but_withdrawals(&pre)
            &&& post.withdrawals@.len() == pre.withdrawals@.len()
            &&& forall|i: int|
                0 <= i < pre.withdrawals@.len() ==> if pre.withdrawals@[i].id@ == id {
                    withdrawal_restatused(post.withdrawals@[i], pre.withdrawals@[i], status)
                } else {
                    post.withdrawals@[i] == pre.withdrawals@[i]
                }
        }
    }

    /// A ledger with no administrator, no accounts and no requests.
    pub fn new() -> (r: Payvia)
        ensures
            r.wf(),
            r.admin is None,
            r.accounts() == Map::<Seq<char>, AccountView>::empty(),
            r.bills@.len() == 0,
            r.withdrawals@.len() == 0,
            r.balances_nonnegative(),
    {
        let r = Payvia { admin: None, users: Vec::new(), bills: Vec::new(), withdrawals: Vec::new() };
        assert(r.accounts() =~= Map::<Seq<char>, AccountView>::empty());
        r
    }

    /// Sets the administrator; refused once one is set, so it never changes.
    pub fn init(&mut self, admin: String) -> (r: Result<(), PayviaError>)
        requires
            old(self).wf(),
        ensures
            final(self).wf(),
            old(self).admin is Some ==> r == Err::<(), PayviaError>(PayviaError::AlreadyInitialized)
                && *final(self) == *old(self),
            old(self).admin is None ==> r is Ok && final(self).admin == Some(admin)
                && final(self).users@ == old(self).users@ && final(self).bills@ == old(self).bills@
                && final(self).withdrawals@ == old(self).withdrawals@,
    {
        if self.admin.is_some() {
            return Err(PayviaError::AlreadyInitialized);
        }
        self.admin = Some(admin);
        Ok(())
    }

    /// Registers an account for `user_address` with contact `phone`, balance 0 and
    /// not verified; refused if the identity already has one.
    pub fn register_user(&mut self, user_address: String, phone: String) -> (r: Result<
        (),
        PayviaError,
    >)
        requires
            old(self).wf(),
        ensures
            final(self).wf(),
            Self::register_post(*old(self), *final(self), user_address@, phone@, r),
            old(self).balances_nonnegative() ==> final(self).balances_nonnegative(),
    {
        let found = find_user(&self.users, &user_address);
        proof {
            lemma_account_map_domain(self.users@, user_address@);
        }
        if found.is_some() {
            return Err(PayviaError::DuplicateAccount);
        }
        let user = User { address: user_address, phone, is_verified: false, balance: 0 };
        proof {
            lemma_account_map_push(self.users@, user);
        }
        self.users.push(user);
        Ok(())
    }

    /// The account of `user_address`.
    pub fn get_user(&self, user_address: &String) -> (r: Result<User, PayviaError>)
        requires
            self.wf(),
        ensures
            self.accounts().contains_key(user_address@) <==> r is Ok,
            r is Err ==> r == Err::<User, PayviaError>(PayviaError::UserNotFound),
            r matches Ok(u) ==> u.address@ == user_address@ && u@ == self.accounts()[user_address@],
    {
        let found = find_user(&self.users, user_address);
        proof {
            lemma_account_map_domain(self.users@, user_address@);
        }
        match found {
            Some(i) => {
                proof {
                    lemma_account_map_get(self.users@, i as int);
                }
                Ok(self.users[i].duplicate())
            },
            None => Err(PayviaError::UserNotFound),
        }
    }

    /// Marks the account of `user_address` as verified.
    pub fn verify_user(&mut self, user_address: &String) -> (r: Result<(), PayviaError>)
        requires
            old(self).wf(),
        ensures
            final(self).wf(),
            old(self).accounts().contains_key(user_address@) <==> r is Ok,
            r is Err ==> r == Err::<(), PayviaError>(PayviaError::UserNotFound) && *final(self)
                == *old(self),
            r is Ok ==> final(self).accounts() == old(self).accounts().insert(
                user_address@,
                AccountView { is_verified: true, ..old(self).accounts()[user_address@] },
            ) && final(self).same_requests(old(self)),
            old(self).balances_nonnegative() ==> final(self).balances_nonnegative(),
    {
        let found = find_user(&self.users, user_address);
        proof {
            lemma_account_map_domain(self.users@, user_address@);
        }
        match found {
            Some(i) => {
                let mut u = self.users[i].duplicate();
                u.is_verified = true;
                proof {
                    lemma_account_map_get(self.users@, i as int);
                    lemma_account_map_update(self.users@, i as int, u);
                }
                self.users.set(i, u);
                Ok(())
            },
            None => Err(PayviaError::UserNotFound),
        }
    }

    /// Adds `amount`, which may be negative, to the balance of `user_address`;
    /// refused where the balance would go below zero or above `i128::MAX`.
    pub fn deposit(&mut self, user_address: &String, amount: i128) -> (r: Result<(), PayviaError>)
        requires
            old(self).wf(),
        ensures
            final(self).wf(),
            Self::deposit_post(*old(self), *final(self), user_address@, amount as int, r),
            old(self).balances_nonnegative() ==> final(self).balances_nonnegative(),
    {
        let found = find_user(&self.users, user_address);
        proof {
            lemma_account_map_domain(self.users@, user_address@);
        }
        match found {
            Some(i) => {
                proof {
                    lemma_account_map_get(self.users@, i as int);
                }
                let nb = match self.users[i].balance.checked_add(amount) {
                    Some(b) => b,
                    None => {
                        if amount < 0 {
                            return Err(PayviaError::InsufficientBalance);
                        }
                        return Err(PayviaError::BalanceOverflow);
                    },
                };
                if nb < 0 {
                    return Err(PayviaError::InsufficientBalance);
                }
                let mut u = self.users[i].duplicate();
                u.balance = nb;
                proof {
                    lemma_account_map_update(self.users@, i as int, u);
                    if old(self).balances_nonnegative() {
                        lemma_nonnegative_insert(old(self).accounts(), user_address@, u@);
                    }
                }
                self.users.set(i, u);
                Ok(())
            },
            None => Err(PayviaError::UserNotFound),
        }
    }

    /// The balance of `user_address`.
    pub fn get_balance(&self, user_address: &String) -> (r: Result<i128, PayviaError>)
        requires
            self.wf(),
        ensures
            self.accounts().contains_key(user_address@) <==> r is Ok,
            r is Err ==> r == Err::<i128, PayviaError>(PayviaError::UserNotFound),
            r matches Ok(b) ==> b == self.accounts()[user_address@].balance,
    {
        let found = find_user(&self.users, user_address);
        proof {
            lemma_account_map_domain(self.users@, user_address@);
        }
        match found {
            Some(i) => {
                proof {
                    lemma_account_map_get(self.users@, i as int);
                }
                Ok(self.users[i].balance)
            },
            None => Err(PayviaError::UserNotFound),
        }
    }

    /// Sets the balance of the record at index `i` to `b`.
    fn set_balance(&mut self, i: usize, b: i128)
        requires
            old(self).wf(),
            i < old(self).users@.len(),
        ensures
            final(self).wf(),
            final(self).users@.len() == old(self).users@.len(),
            forall|j: int|
                0 <= j < old(self).users@.len() ==> final(self).users@[j].address@ == old(
                    self,
                ).users@[j].address@,
            final(self).accounts() == old(self).accounts().insert(
                old(self).users@[i as int].address@,
                with_balance(old(self).accounts()[old(self).users@[i as int].address@], b as int),
            ),
            final(self).same_requests(old(self)),
            old(self).balances_nonnegative() && b >= 0 ==> final(self).balances_nonnegative(),
    {
        let mut u = self.users[i].duplicate();
        u.balance = b;
        proof {
            lemma_account_map_get(self.users@, i as int);
            lemma_account_map_update(self.users@, i as int, u);
            if old(self).balances_nonnegative() && b >= 0 {
                lemma_nonnegative_insert(old(self).accounts(), u.address@, u@);
            }
        }
        self.users.set(i, u);
    }

    /// Checks that the balance of `a` can be debited by `amount`: gives the index
    /// of its record and the balance after the debit.
    fn check_debit(&self, a: &String, amount: i128) -> (r: Result<(usize, i128), PayviaError>)
        requires
            self.wf(),
        ensures
            ({
                let acc = self.accounts();
                if !acc.contains_key(a@) {
                    r == Err::<(usize, i128), PayviaError>(PayviaError::UserNotFound)
                } else if amount <= 0 {
                    r == Err::<(usize, i128), PayviaError>(PayviaError::InvalidAmount)
                } else if acc[a@].balance < amount {
                    r == Err::<(usize, i128), PayviaError>(PayviaError::InsufficientBalance)
                } else {
                    r matches Ok((i, b)) && i < self.users@.len() && self.users@[i as int].address@
                        == a@ && b == acc[a@].balance - amount
                }
            }),
    {
        let found = find_user(&self.users, a);
        proof {
            lemma_account_map_domain(self.users@, a@);
        }
        match found {
            Some(i) => {
                proof {
                    lemma_account_map_get(self.users@, i as int);
                }
                if amount <= 0 {
                    return Err(PayviaError::InvalidAmount);
                }
                let bal = self.users[i].balance;
                if bal < amount {
                    return Err(PayviaError::InsufficientBalance);
                }
                Ok((i, bal - amount))
            },
            None => Err(PayviaError::UserNotFound),
        }
    }

    /// Moves `amount` from the balance of `from_address` to that of `to_address`,
    /// both or neither. A negative amount is refused; a transfer to oneself
    /// changes nothing.
    pub fn send_usdc(&mut self, from_address: &String, to_address: &String, amount: i128) -> (r:
        Result<(), PayviaError>)
        requires
            old(self).wf(),
        ensures
            final(self).wf(),
            Self::send_post(*old(self), *final(self), from_address@, to_address@, amount as int, r),
            old(self).balances_nonnegative() ==> final(self).balances_nonnegative(),
    {
        let ghost pre = *self;
        proof {
            lemma_account_map_domain(self.users@, from_address@);
            lemma_account_map_domain(self.users@, to_address@);
        }
        let fi = match find_user(&self.users, from_address) {
            Some(i) => i,
            None => return Err(PayviaError::SenderNotFound),
        };
        let ti = match find_user(&self.users, to_address) {
            Some(i) => i,
            None => return Err(PayviaError::RecipientNotFound),
        };
        proof {
            lemma_account_map_get(self.users@, fi as int);
            lemma_account_map_get(self.users@, ti as int);
        }
        if amount < 0 {
            return Err(PayviaError::InvalidAmount);
        }
        let fb = self.users[fi].balance;
        if fb < amount {
            return Err(PayviaError::InsufficientBalance);
        }
        if fi == ti {
            return Ok(());
        }
        let nf = fb - amount;
        let nt = match self.users[ti].balance.checked_add(amount) {
            Some(b) => b,
            None => return Err(PayviaError::BalanceOverflow),
        };
        self.set_balance(fi, nf);
        proof {
            lemma_account_map_get(self.users@, ti as int);
        }
        self.set_balance(ti, nt);
        Ok(())
    }

    /// Debits `amount` from the balance of `user_address` and records a pending
    /// bill payment with id `bill_<timestamp>_<n>`, both or neither; `n` is the
    /// number of bill payments before it, so the id is new. The amount must be
    /// positive.
    pub fn pay_bill(
        &mut self,
        user_address: String,
        bill_type: String,
        account_number: String,
        amount: i128,
        timestamp: u64,
    ) -> (r: Result<String, PayviaError>)
        requires
            old(self).wf(),
        ensures
            final(self).wf(),
            Self::pay_bill_post(
                *old(self),
                *final(self),
                user_address@,
                bill_type@,
                account_number@,
                amount as int,
                timestamp,
                r,
            ),
            old(self).balances_nonnegative() ==> final(self).balances_nonnegative(),
    {
        let (i, nb) = match self.check_debit(&user_address, amount) {
            Ok(d) => d,
            Err(e) => return Err(e),
        };
        let id = make_bill_id(timestamp, self.bills.len() as u64);
        proof {
            lemma_bill_ids_numbered(self.bills@, timestamp);
        }
        self.set_balance(i, nb);
        let bill = BillPayment {
            id: id.clone(),
            user_address,
            bill_type,
            account_number,
            amount,
            status: String::from_str("pending"),
            timestamp,
        };
        let ghost before = self.bills@;
        self.bills.push(bill);
        proof {
            assert(self.bills@.drop_last() =~= before);
            assert(bill_ids_numbered(self.bills@)) by {
                assert forall|q: int| 0 <= q < self.bills@.len() implies #[trigger] self.bills@[q].id@
                    == bill_id(self.bills@[q].timestamp, q as nat) by {
                    if q < before.len() {
                        assert(self.bills@[q] == before[q]);
                    }
                }
            }
        }
        Ok(id)
    }

    /// Debits `usdc_amount` from the balance of `user_address` and records a
    /// pending withdrawal with id `withdraw_<timestamp>_<n>`, both or neither;
    /// `n` is the number of withdrawals before it, so the id is new. The debited
    /// amount must be positive; the local-currency amount is stored as given.
    pub fn withdraw(
        &mut self,
        user_address: String,
        method: String,
        account_number: String,
        usdc_amount: i128,
        ugx_amount: i128,
        timestamp: u64,
    ) -> (r: Result<String, PayviaError>)
        requires
            old(self).wf(),
        ensures
            final(self).wf(),
            Self::withdraw_post(
                *old(self),
                *final(self),
                user_address@,
                method@,
                account_number@,
                usdc_amount as int,
                ugx_amount as int,
                timestamp,
                r,
            ),
            old(self).balances_nonnegative() ==> final(self).balances_nonnegative(),
    {
        let (i, nb) = match self.check_debit(&user_address, usdc_amount) {
            Ok(d) => d,
            Err(e) => return Err(e),
        };
        let id = make_withdrawal_id(timestamp, self.withdrawals.len() as u64);
        proof {
            lemma_withdrawal_ids_numbered(self.withdrawals@, timestamp);
        }
        self.set_balance(i, nb);
        let withdrawal = Withdrawal {
            id: id.clone(),
            user_address,
            method,
            account_number,
            usdc_amount,
            ugx_amount,
            status: String::from_str("pending"),
            timestamp,
        };
        let ghost before = self.withdrawals@;
        self.withdrawals.push(withdrawal);
        proof {
            assert(self.withdrawals@.drop_last() =~= before);
            assert(withdrawal_ids_numbered(self.withdrawals@)) by {
                assert forall|q: int| 0 <= q < self.withdrawals@.len() implies #[trigger] self.withdrawals@[q].id@
                    == withdrawal_id(self.withdrawals@[q].timestamp, q as nat) by {
                    if q < before.len() {
                        assert(self.withdrawals@[q] == before[q]);
                    }
                }
            }
        }
        Ok(id)
    }

    /// The bill payments of `user_address`, in order of creation.
    pub fn get_bill_payments(&self, user_address: &String) -> (r: Vec<BillPayment>)
        ensures
            r@ == bills_of(self.bills@, user_address@),
    {
        collect_bills(&self.bills, user_address)
    }

    /// The withdrawals of `user_address`, in order of creation.
    pub fn get_withdrawals(&self, user_address: &String) -> (r: Vec<Withdrawal>)
        ensures
            r@ == withdrawals_of(self.withdrawals@, user_address@),
    {
        collect_withdrawals(&self.withdrawals, user_address)
    }

    /// Sets the status of bill payment `payment_id` to `status`; only the
    /// administrator may.
    pub fn update_bill_status(&mut self, caller: &String, payment_id: &String, status: String) -> (r:
        Result<(), PayviaError>)
        requires
            old(self).wf(),
        ensures
            final(self).wf(),
            Self::update_bill_post(*old(self), *final(self), caller@, payment_id@, status@, r),
            old(self).balances_nonnegative() ==> final(self).balances_nonnegative(),
    {
        let authorized = match &self.admin {
            Some(a) => *caller == *a,
            None => false,
        };
        if !authorized {
            return Err(PayviaError::Unauthorized);
        }
        proof {
            lemma_bill_ids_numbered(self.bills@, 0);
        }
        let i = match find_bill(&self.bills, payment_id) {
            Some(i) => i,
            None => return Err(PayviaError::PaymentNotFound),
        };
        let mut b = self.bills[i].duplicate();
        b.status = status;
        let ghost before = self.bills@;
        self.bills.set(i, b);
        proof {
            assert forall|p: int| 0 <= p < before.len() implies self.bills@[p].id@ == before[p].id@ by {}
            assert(exists|j: int| 0 <= j < before.len() && before[j].id@ == payment_id@);
        }
        Ok(())
    }

    /// Sets the status of withdrawal `withdrawal_id` to `status`; only the
    /// administrator may.
    pub fn update_withdrawal_status(
        &mut self,
        caller: &String,
        withdrawal_id: &String,
        status: String,
    ) -> (r: Result<(), PayviaError>)
        requires
            old(self).wf(),
        ensures
            final(self).wf(),
            Self::update_withdrawal_post(*old(self), *final(self), caller@, withdrawal_id@, status@, r),
            old(self).balances_nonnegative() ==> final(self).balances_nonnegative(),
    {
        let authorized = match &self.admin {
            Some(a) => *caller == *a,
            None => false,
        };
        if !authorized {
            return Err(PayviaError::Unauthorized);
        }
        proof {
            lemma_withdrawal_ids_numbered(self.withdrawals@, 0);
        }
        let i = match find_withdrawal(&self.withdrawals, withdrawal_id) {
            Some(i) => i,
            None => return Err(PayviaError::WithdrawalNotFound),
        };
        let mut w = self.withdrawals[i].duplicate();
        w.status = status;
        let ghost before = self.withdrawals@;
        self.withdrawals.set(i, w);
        proof {
            assert forall|p: int| 0 <= p < before.len() implies self.withdrawals@[p].id@ == before[p].id@ by {}
            assert(exists|j: int| 0 <= j < before.len() && before[j].id@ == withdrawal_id@);
        }
        Ok(())
    }
}

} // verus!
