use vstd::prelude::*;

verus! {

/// A registered account: its identity, contact, verification flag and balance.
#[derive(Debug)]
pub struct User {
    pub address: String,
    pub phone: String,
    pub is_verified: bool,
    pub balance: i128,
}

/// What an account holds besides its identity, as mathematical values.
pub struct AccountView {
    pub phone: Seq<char>,
    pub is_verified: bool,
    pub balance: int,
}

impl View for User {
    type V = AccountView;

    open spec fn view(&self) -> AccountView {
        AccountView { phone: self.phone@, is_verified: self.is_verified, balance: self.balance as int }
    }
}

impl User {
    /// A copy of the account record.
    pub fn duplicate(&self) -> (r: User)
        ensures
            r == *self,
    {
        User {
            address: self.address.clone(),
            phone: self.phone.clone(),
            is_verified: self.is_verified,
            balance: self.balance,
        }
    }
}

/// The account view `v` with its balance replaced by `b`.
pub open spec fn with_balance(v: AccountView, b: int) -> AccountView {
    AccountView { balance: b, ..v }
}

/// No two records share an identity.
pub open spec fn addresses_unique(users: Seq<User>) -> bool {
    forall|i: int, j: int|
        0 <= i < users.len() && 0 <= j < users.len() && i != j ==> users[i].address@
            != users[j].address@
}

/// The accounts that the records hold, keyed by identity.
pub open spec fn account_map(users: Seq<User>) -> Map<Seq<char>, AccountView>
    decreases users.len(),
{
    if users.len() == 0 {
        Map::empty()
    } else {
        account_map(users.drop_last()).insert(users.last().address@, users.last()@)
    }
}

pub proof fn lemma_account_map_domain(users: Seq<User>, a: Seq<char>)
    ensures
        account_map(users).contains_key(a) <==> exists|i: int|
            0 <= i < users.len() && users[i].address@ == a,
    decreases users.len(),
{
    if users.len() > 0 {
        let init = users.drop_last();
        lemma_account_map_domain(init, a);
        if account_map(users).contains_key(a) {
            if users.last().address@ != a {
                let i = choose|i: int| 0 <= i < init.len() && init[i].address@ == a;
                assert(users[i] == init[i]);
            } else {
                assert(users[users.len() - 1].address@ == a);
            }
        }
        if exists|i: int| 0 <= i < users.len() && users[i].address@ == a {
            let i = choose|i: int| 0 <= i < users.len() && users[i].address@ == a;
            if i < users.len() - 1 {
                assert(init[i] == users[i]);
            }
        }
    }
}

pub proof fn lemma_account_map_get(users: Seq<User>, i: int)
    requires
        addresses_unique(users),
        0 <= i < users.len(),
    ensures
        account_map(users).contains_key(users[i].address@),
        account_map(users)[users[i].address@] == users[i]@,
    decreases users.len(),
{
    let init = users.drop_last();
    if i < users.len() - 1 {
        assert(init[i] == users[i]);
        assert(addresses_unique(init)) by {
            assert forall|p: int, q: int|
                0 <= p < init.len() && 0 <= q < init.len() && p != q implies init[p].address@
                != init[q].address@ by {
                assert(init[p] == users[p] && init[q] == users[q]);
            }
        }
        lemma_account_map_get(init, i);
        assert(users[users.len() - 1].address@ != users[i].address@);
    }
}

pub proof fn lemma_account_map_update(users: Seq<User>, i: int, u: User)
    requires
        addresses_unique(users),
        0 <= i < users.len(),
        u.address@ == users[i].address@,
    ensures
        account_map(users.update(i, u)) == account_map(users).insert(u.address@, u@),
        addresses_unique(users.update(i, u)),
    decreases users.len(),
{
    let n = users.update(i, u);
    let init = users.drop_last();
    assert(addresses_unique(n)) by {
        assert forall|p: int, q: int|
            0 <= p < n.len() && 0 <= q < n.len() && p != q implies n[p].address@
            != n[q].address@ by {
            assert(n[p].address@ == users[p].address@ && n[q].address@ == users[q].address@);
        }
    }
    if i == users.len() - 1 {
        assert(n.drop_last() =~= init);
        assert(account_map(n) =~= account_map(users).insert(u.address@, u@));
    } else {
        assert(n.drop_last() =~= init.update(i, u));
        assert(addresses_unique(init)) by {
            assert forall|p: int, q: int|
                0 <= p < init.len() && 0 <= q < init.len() && p != q implies init[p].address@
                != init[q].address@ by {
                assert(init[p] == users[p] && init[q] == users[q]);
            }
        }
        lemma_account_map_update(init, i, u);
        assert(n.last() == users.last());
        assert(users[users.len() - 1].address@ != users[i].address@);
        assert(account_map(n) =~= account_map(users).insert(u.address@, u@));
    }
}

pub proof fn lemma_account_map_push(users: Seq<User>, u: User)
    requires
        addresses_unique(users),
        !account_map(users).contains_key(u.address@),
    ensures
        account_map(users.push(u)) == account_map(users).insert(u.address@, u@),
        addresses_unique(users.push(u)),
{
    let n = users.push(u);
    assert(n.drop_last() =~= users);
    lemma_account_map_domain(users, u.address@);
    assert(addresses_unique(n)) by {
        assert forall|p: int, q: int|
            0 <= p < n.len() && 0 <= q < n.len() && p != q implies n[p].address@
            != n[q].address@ by {
            if p < users.len() {
                assert(n[p] == users[p]);
            }
            if q < users.len() {
                assert(n[q] == users[q]);
            }
        }
    }
}

/// No account in `m` has a negative balance.
pub open spec fn balances_nonnegative_in(m: Map<Seq<char>, AccountView>) -> bool {
    forall|a: Seq<char>| #[trigger] m.contains_key(a) ==> m[a].balance >= 0
}

pub proof fn lemma_nonnegative_insert(m: Map<Seq<char>, AccountView>, a: Seq<char>, v: AccountView)
    requires
        balances_nonnegative_in(m),
        v.balance >= 0,
    ensures
        balances_nonnegative_in(m.insert(a, v)),
{
    assert forall|k: Seq<char>| #[trigger] m.insert(a, v).contains_key(k) implies m.insert(a, v)[k].balance
        >= 0 by {
        if k != a {
            assert(m.contains_key(k));
        }
    }
}

/// The index of the record of identity `a`, if one is there.
pub fn find_user(users: &Vec<User>, a: &String) -> (r: Option<usize>)
    ensures
        match r {
            Some(i) => i < users@.len() && users@[i as int].address@ == a@,
            None => forall|i: int| 0 <= i < users@.len() ==> users@[i].address@ != a@,
        },
{
    let mut i: usize = 0;
    while i < users.len()
        invariant
            i <= users@.len(),
            forall|j: int| 0 <= j < i ==> users@[j].address@ != a@,
        decreases users@.len() - i,
    {
        if users[i].address == *a {
            return Some(i);
        }
        i += 1;
    }
    None
}

} // verus!
