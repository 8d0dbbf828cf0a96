//! The authoritative account state: a mapping from address to [`Account`],
//! held as a vector of pairs with pairwise-distinct addresses. Its ghost
//! model is the sequence of pairs; spec-level lookup and upsert over that
//! sequence are the vocabulary every contract in the crate speaks.

use vstd::prelude::*;

use crate::types::Account;

verus! {

/// Spec-level lookup of an address in a pair sequence.
pub open spec fn lookup_seq(s: Seq<(u64, Account)>, addr: u64) -> Option<Account>
    decreases s.len(),
{
    if s.len() == 0 {
        None
    } else if s[0].0 == addr {
        Some(s[0].1)
    } else {
        lookup_seq(s.drop_first(), addr)
    }
}

/// The account an address resolves to: absent addresses read as the empty
/// account (accounts are created lazily on first credit).
pub open spec fn account_at(s: Seq<(u64, Account)>, addr: u64) -> Account {
    match lookup_seq(s, addr) {
        Some(a) => a,
        None => Account::empty_spec(),
    }
}

/// Spec-level insert-or-update: replaces the entry of `addr` in place, or
/// appends a fresh entry at the end.
pub open spec fn upsert_seq(s: Seq<(u64, Account)>, addr: u64, acct: Account) -> Seq<
    (u64, Account),
>
    decreases s.len(),
{
    if s.len() == 0 {
        seq![(addr, acct)]
    } else if s[0].0 == addr {
        seq![(addr, acct)] + s.drop_first()
    } else {
        seq![s[0]] + upsert_seq(s.drop_first(), addr, acct)
    }
}

/// All addresses in the sequence are pairwise distinct.
pub open spec fn distinct_addrs(s: Seq<(u64, Account)>) -> bool {
    forall|i: int, j: int| 0 <= i < j < s.len() ==> s[i].0 != s[j].0
}

/// Total balance held across all entries.
pub open spec fn sum_balances(s: Seq<(u64, Account)>) -> int
    decreases s.len(),
{
    if s.len() == 0 {
        0
    } else {
        s[0].1.balance + sum_balances(s.drop_first())
    }
}

/// An upsert changes exactly the looked-up entry of its address and no other.
pub proof fn lemma_lookup_upsert(s: Seq<(u64, Account)>, addr: u64, acct: Account, q: u64)
    ensures
        lookup_seq(upsert_seq(s, addr, acct), q) == if q == addr {
            Some(acct)
        } else {
            lookup_seq(s, q)
        },
    decreases s.len(),
{
    let r = upsert_seq(s, addr, acct);
    if s.len() == 0 {
        assert(r == seq![(addr, acct)]);
        assert(r[0] == (addr, acct));
        assert(r.drop_first() =~= Seq::<(u64, Account)>::empty());
        if q == addr {
            assert(lookup_seq(r, q) == Some(acct));
        } else {
            assert(lookup_seq(r, q) == lookup_seq(r.drop_first(), q));
            assert(lookup_seq(r.drop_first(), q) is None);
        }
    } else if s[0].0 == addr {
        assert(r[0] == (addr, acct));
        assert(r.drop_first() =~= s.drop_first());
        if q == addr {
            assert(lookup_seq(r, q) == Some(acct));
            assert(lookup_seq(s, q) == Some(s[0].1));
        } else {
            assert(lookup_seq(r, q) == lookup_seq(s.drop_first(), q));
            assert(lookup_seq(s, q) == lookup_seq(s.drop_first(), q));
        }
    } else {
        let rest = upsert_seq(s.drop_first(), addr, acct);
        assert(r[0] == s[0]);
        assert(r.len() >= 1);
        assert(r.drop_first() =~= rest);
        lemma_lookup_upsert(s.drop_first(), addr, acct, q);
        if q == s[0].0 {
            assert(lookup_seq(r, q) == Some(s[0].1));
            assert(lookup_seq(s, q) == Some(s[0].1));
        } else {
            assert(lookup_seq(r, q) == lookup_seq(rest, q));
        }
    }
}

/// An upsert preserves distinctness of addresses.
pub proof fn lemma_upsert_distinct(s: Seq<(u64, Account)>, addr: u64, acct: Account)
    requires
        distinct_addrs(s),
    ensures
        distinct_addrs(upsert_seq(s, addr, acct)),
        upsert_seq(s, addr, acct).len() == if lookup_seq(s, addr) is Some {
            s.len()
        } else {
            s.len() + 1
        },
        forall|i: int|
            0 <= i < upsert_seq(s, addr, acct).len() ==> #[trigger] upsert_seq(
                s,
                addr,
                acct,
            )[i].0 == addr || (exists|j: int| 0 <= j < s.len() && s[j] == upsert_seq(s, addr, acct)[i]),
    decreases s.len(),
{
    let r = upsert_seq(s, addr, acct);
    if s.len() == 0 {
    } else if s[0].0 == addr {
        assert(r.drop_first() =~= s.drop_first());
        assert forall|i: int| 0 <= i < r.len() implies r[i].0 == addr || (exists|j: int|
            0 <= j < s.len() && s[j] == r[i]) by {
            if i > 0 {
                assert(s[i] == r[i]);
            }
        }
    } else {
        lemma_upsert_distinct(s.drop_first(), addr, acct);
        let rest = upsert_seq(s.drop_first(), addr, acct);
        assert(r.drop_first() =~= rest);
        assert forall|j: int|
            0 <= j < s.drop_first().len() implies s.drop_first()[j].0 != s[0].0 by {
            assert(s[j + 1].0 != s[0].0);
        }
        lemma_lookup_absent(s.drop_first(), s[0].0);
        lemma_lookup_upsert_membership(s.drop_first(), addr, acct, s[0].0);
        assert forall|i: int| 0 <= i < r.len() implies r[i].0 == addr || (exists|j: int|
            0 <= j < s.len() && s[j] == r[i]) by {
            if i == 0 {
                assert(s[0] == r[0]);
            } else {
                assert(rest[i - 1] == r[i]);
                if rest[i - 1].0 != addr {
                    let j = choose|j: int|
                        0 <= j < s.drop_first().len() && s.drop_first()[j] == rest[i - 1];
                    assert(s[j + 1] == r[i]);
                }
            }
        }
        assert forall|i: int, j: int| 0 <= i < j < r.len() implies r[i].0 != r[j].0 by {
            if i == 0 {
                // r[0] == s[0]; every later entry is addr (!= s[0].0) or an
                // entry of s.drop_first(), whose address differs from s[0].0.
                assert(r[0] == s[0]);
                assert(rest[j - 1] == r[j]);
                if r[j].0 != addr {
                    let k = choose|k: int|
                        0 <= k < s.drop_first().len() && s.drop_first()[k] == rest[j - 1];
                    assert(s[k + 1] == r[j]);
                }
            } else {
                assert(rest[i - 1] == r[i] && rest[j - 1] == r[j]);
            }
        }
    }
}

/// An address held by no entry looks up to nothing.
pub proof fn lemma_lookup_absent(s: Seq<(u64, Account)>, addr: u64)
    requires
        forall|j: int| 0 <= j < s.len() ==> s[j].0 != addr,
    ensures
        lookup_seq(s, addr) is None,
    decreases s.len(),
{
    if s.len() > 0 {
        assert forall|j: int| 0 <= j < s.drop_first().len() implies s.drop_first()[j].0 != addr by {
            assert(s[j + 1].0 != addr);
        }
        lemma_lookup_absent(s.drop_first(), addr);
    }
}

/// Helper: each entry of an upsert result either has the new address or is
/// an entry of the original sequence.
proof fn lemma_lookup_upsert_membership(
    s: Seq<(u64, Account)>,
    addr: u64,
    acct: Account,
    other: u64,
)
    requires
        other != addr,
        lookup_seq(s, other) is None,
    ensures
        lookup_seq(upsert_seq(s, addr, acct), other) is None,
    decreases s.len(),
{
    lemma_lookup_upsert(s, addr, acct, other);
}

/// How an upsert moves the total balance: the old balance of the address
/// leaves the sum and the new one enters it.
pub proof fn lemma_sum_upsert(s: Seq<(u64, Account)>, addr: u64, acct: Account)
    requires
        distinct_addrs(s),
    ensures
        sum_balances(upsert_seq(s, addr, acct)) == sum_balances(s) + acct.balance - account_at(
            s,
            addr,
        ).balance,
    decreases s.len(),
{
    let r = upsert_seq(s, addr, acct);
    if s.len() == 0 {
        assert(r == seq![(addr, acct)]);
        assert(r[0] == (addr, acct));
        assert(r.drop_first() =~= Seq::<(u64, Account)>::empty());
        assert(sum_balances(r) == acct.balance + sum_balances(r.drop_first()));
    } else if s[0].0 == addr {
        assert(r[0] == (addr, acct));
        assert(r.drop_first() =~= s.drop_first());
        assert(sum_balances(r) == acct.balance + sum_balances(s.drop_first()));
        assert(sum_balances(s) == s[0].1.balance + sum_balances(s.drop_first()));
    } else {
        assert(r[0] == s[0]);
        assert(r.len() >= 1);
        assert(r.drop_first() =~= upsert_seq(s.drop_first(), addr, acct));
        assert forall|i: int, j: int|
            0 <= i < j < s.drop_first().len() implies s.drop_first()[i].0 != s.drop_first()[j].0 by {
            assert(s[i + 1].0 != s[j + 1].0);
        }
        lemma_sum_upsert(s.drop_first(), addr, acct);
        assert(sum_balances(r) == s[0].1.balance + sum_balances(r.drop_first()));
        assert(sum_balances(s) == s[0].1.balance + sum_balances(s.drop_first()));
        assert(account_at(s, addr) == account_at(s.drop_first(), addr));
    }
}

/// The versioned account state. `entries` carries pairwise-distinct
/// addresses; a missing address stands for the empty account.
pub struct AccountStore {
    pub entries: Vec<(u64, Account)>,
}

impl View for AccountStore {
    type V = Seq<(u64, Account)>;

    open spec fn view(&self) -> Seq<(u64, Account)> {
        self.entries@
    }
}

impl AccountStore {
    /// Well-formedness: no address occurs twice.
    pub open spec fn wf(&self) -> bool {
        distinct_addrs(self@)
    }

    /// A store with no accounts.
    pub fn new() -> (r: AccountStore)
        ensures
            r.wf(),
            r@ =~= Seq::<(u64, Account)>::empty(),
    {
        AccountStore { entries: Vec::new() }
    }

    /// Read one account; `None` when the address was never credited.
    pub fn get(&self, addr: u64) -> (r: Option<Account>)
        ensures
            r == lookup_seq(self@, addr),
    {
        let mut i: usize = 0;
        proof {
            assert(self@.skip(0) =~= self@);
        }
        while i < self.entries.len()
            invariant
                i <= self.entries.len(),
                lookup_seq(self@, addr) == lookup_seq(self@.skip(i as int), addr),
            decreases self.entries.len() - i,
        {
            proof {
                assert(self@.skip(i as int).drop_first() =~= self@.skip(i + 1));
            }
            if self.entries[i].0 == addr {
                return Some(self.entries[i].1);
            }
            i = i + 1;
        }
        proof {
            assert(self@.skip(self@.len() as int) =~= Seq::<(u64, Account)>::empty());
        }
        None
    }

    /// Read one account, defaulting a never-credited address to the empty
    /// account, as the execution engine sees state.
    pub fn account(&self, addr: u64) -> (r: Account)
        ensures
            r == account_at(self@, addr),
    {
        match self.get(addr) {
            Some(a) => a,
            None => Account::empty(),
        }
    }

    /// Write one account, replacing in place or appending a fresh entry.
    pub fn set(&mut self, addr: u64, acct: Account)
        requires
            old(self).wf(),
        ensures
            final(self).wf(),
            final(self)@ == upsert_seq(old(self)@, addr, acct),
    {
        let ghost s0 = self@;
        let mut i: usize = 0;
        while i < self.entries.len()
            invariant
                i <= self.entries.len(),
                self@ == s0,
                s0 == old(self)@,
                distinct_addrs(s0),
                forall|j: int| 0 <= j < i ==> s0[j].0 != addr,
            decreases self.entries.len() - i,
        {
            if self.entries[i].0 == addr {
                self.entries.set(i, (addr, acct));
                proof {
                    lemma_upsert_prefix_update(s0, addr, acct, i as int);
                    lemma_upsert_distinct(s0, addr, acct);
                }
                return ;
            }
            i = i + 1;
        }
        self.entries.push((addr, acct));
        proof {
            lemma_upsert_append(s0, addr, acct);
            lemma_upsert_distinct(s0, addr, acct);
        }
    }

    /// Install contract code at an address: the deployment hook. The
    /// account's funds and nonce are untouched; only the contract fields
    /// change.
    pub fn deploy_smart_contract(&mut self, addr: u64, code_hash: u64, storage_root: u64)
        requires
            old(self).wf(),
        ensures
            final(self).wf(),
            final(self)@ == upsert_seq(
                old(self)@,
                addr,
                Account {
                    code_hash,
                    storage_root,
                    ..account_at(old(self)@, addr)
                },
            ),
            account_at(final(self)@, addr).code_hash == code_hash,
            account_at(final(self)@, addr).storage_root == storage_root,
            account_at(final(self)@, addr).nonce == account_at(old(self)@, addr).nonce,
            account_at(final(self)@, addr).balance == account_at(old(self)@, addr).balance,
            forall|q: u64|
                q != addr ==> account_at(final(self)@, q) == account_at(old(self)@, q),
    {
        let ghost s0 = self@;
        let base = self.account(addr);
        let updated = Account { code_hash, storage_root, ..base };
        self.set(addr, updated);
        proof {
            assert forall|q: u64| #[trigger] account_at(self@, q) == if q == addr {
                updated
            } else {
                account_at(s0, q)
            } by {
                lemma_lookup_upsert(s0, addr, updated, q);
            }
        }
    }

    /// A bitwise copy of the store: the working snapshot that speculative
    /// block execution mutates and either discards or merges.
    pub fn snapshot(&self) -> (r: AccountStore)
        ensures
            r@ == self@,
            self.wf() ==> r.wf(),
    {
        let mut v: Vec<(u64, Account)> = Vec::new();
        let mut i: usize = 0;
        while i < self.entries.len()
            invariant
                i <= self.entries.len(),
                v@ =~= self@.take(i as int),
            decreases self.entries.len() - i,
        {
            v.push(self.entries[i]);
            i = i + 1;
        }
        proof {
            assert(v@ =~= self@);
        }
        AccountStore { entries: v }
    }
}

/// Updating the entry at the position of `addr` realises the spec upsert,
/// when no earlier entry carries the address.
proof fn lemma_upsert_prefix_update(s: Seq<(u64, Account)>, addr: u64, acct: Account, i: int)
    requires
        0 <= i < s.len(),
        s[i].0 == addr,
        forall|j: int| 0 <= j < i ==> s[j].0 != addr,
    ensures
        upsert_seq(s, addr, acct) == s.update(i, (addr, acct)),
    decreases i,
{
    if i == 0 {
        assert(upsert_seq(s, addr, acct) =~= s.update(0, (addr, acct)));
    } else {
        lemma_upsert_prefix_update(s.drop_first(), addr, acct, i - 1);
        assert(upsert_seq(s, addr, acct) =~= s.update(i, (addr, acct)));
    }
}

/// Appending realises the spec upsert when the address is absent.
proof fn lemma_upsert_append(s: Seq<(u64, Account)>, addr: u64, acct: Account)
    requires
        forall|j: int| 0 <= j < s.len() ==> s[j].0 != addr,
    ensures
        upsert_seq(s, addr, acct) == s.push((addr, acct)),
    decreases s.len(),
{
    if s.len() == 0 {
        assert(upsert_seq(s, addr, acct) =~= s.push((addr, acct)));
    } else {
        lemma_upsert_append(s.drop_first(), addr, acct);
        assert(upsert_seq(s, addr, acct) =~= s.push((addr, acct)));
    }
}

} // verus!
