//! The fungible-token ledger: registered accounts with balances and the
//! total supply, as the NEP-141 core keeps them.
use vstd::prelude::*;
use crate::assoc::{AssocList, keys_distinct, pairs_map, swap_removed, lemma_pairs_map, entry_views};

verus! {

/// Why a ledger operation was refused.
#[derive(Debug, PartialEq, Eq, Clone, Copy, Structural)]
pub enum LedgerError {
    /// The account has no entry in the ledger.
    NotRegistered,
    /// The account already has an entry.
    AlreadyRegistered,
    /// The account's balance would exceed `u128::MAX`.
    BalanceOverflow,
    /// The total supply would exceed `u128::MAX`.
    TotalSupplyOverflow,
    /// The account holds less than the amount asked for.
    InsufficientBalance,
    /// A transfer names the same account on both sides.
    SameAccount,
    /// A transfer of nothing.
    ZeroAmount,
}

/// The sum of the values of a list of pairs.
pub open spec fn pairs_sum(s: Seq<(Seq<char>, u128)>) -> int
    decreases s.len(),
{
    if s.len() == 0 {
        0
    } else {
        pairs_sum(s.drop_last()) + s.last().1
    }
}

proof fn lemma_sum_nonneg_and_bounds(s: Seq<(Seq<char>, u128)>)
    ensures
        pairs_sum(s) >= 0,
        forall|i: int| 0 <= i < s.len() ==> (#[trigger] s[i]).1 <= pairs_sum(s),
    decreases s.len(),
{
    if s.len() > 0 {
        lemma_sum_nonneg_and_bounds(s.drop_last());
        assert forall|i: int| 0 <= i < s.len() implies (#[trigger] s[i]).1 <= pairs_sum(s) by {
            if i < s.len() - 1 {
                assert(s.drop_last()[i] == s[i]);
            }
        }
    }
}

proof fn lemma_sum_prefix(s: Seq<(Seq<char>, u128)>, i: int)
    requires
        0 <= i <= s.len(),
    ensures
        pairs_sum(s.take(i)) <= pairs_sum(s),
    decreases s.len(),
{
    if i < s.len() {
        lemma_sum_prefix(s.drop_last(), i);
        assert(s.drop_last().take(i) =~= s.take(i));
    } else {
        assert(s.take(i) =~= s);
    }
}

proof fn lemma_sum_update(s: Seq<(Seq<char>, u128)>, i: int, p: (Seq<char>, u128))
    requires
        0 <= i < s.len(),
    ensures
        pairs_sum(s.update(i, p)) == pairs_sum(s) - s[i].1 + p.1,
    decreases s.len(),
{
    let u = s.update(i, p);
    if i == s.len() - 1 {
        assert(u.drop_last() =~= s.drop_last());
    } else {
        lemma_sum_update(s.drop_last(), i, p);
        assert(u.drop_last() =~= s.drop_last().update(i, p));
    }
}

proof fn lemma_sum_swap_remove(s: Seq<(Seq<char>, u128)>, i: int)
    requires
        0 <= i < s.len(),
    ensures
        pairs_sum(swap_removed(s, i)) == pairs_sum(s) - s[i].1,
{
    let n = s.len() - 1;
    lemma_sum_update(s, i, s[n]);
    let u = s.update(i, s[n]);
    assert(u.last() == s[n]);
    assert(pairs_sum(u) == pairs_sum(u.drop_last()) + u.last().1);
}

/// Balances of registered accounts and the total supply.
pub struct Ledger {
    accounts: AssocList<u128>,
    total_supply: u128,
}

/// The balance an account holds, zero when it is not registered.
pub open spec fn balance_in(m: Map<Seq<char>, u128>, id: Seq<char>) -> u128 {
    if m.dom().contains(id) {
        m[id]
    } else {
        0
    }
}

impl Ledger {
    /// Registered accounts and their balances.
    pub closed spec fn balances(&self) -> Map<Seq<char>, u128> {
        self.accounts.map()
    }

    /// The total supply.
    pub closed spec fn supply(&self) -> u128 {
        self.total_supply
    }

    /// Registered accounts in registration order (the order in which they
    /// are kept; removal moves the last one into the freed place).
    pub closed spec fn accounts_in_order(&self) -> Seq<(Seq<char>, u128)> {
        self.accounts.pairs()
    }

    /// Distinct accounts, and the total supply is the sum of all balances.
    pub closed spec fn wf(&self) -> bool {
        &&& self.accounts.wf()
        &&& pairs_sum(self.accounts.pairs()) == self.total_supply
    }

    /// The balance of `id`, zero when it is not registered.
    pub open spec fn balance(&self, id: Seq<char>) -> u128 {
        balance_in(self.balances(), id)
    }

    pub open spec fn registered(&self, id: Seq<char>) -> bool {
        self.balances().dom().contains(id)
    }

    /// The supply equals the sum of the balances in account order.
    pub proof fn lemma_supply_is_sum(&self)
        requires
            self.wf(),
        ensures
            self.supply() == pairs_sum(self.accounts_in_order()),
            self.balances() == pairs_map(self.accounts_in_order()),
            keys_distinct(self.accounts_in_order()),
    {
    }

    /// No balance exceeds the total supply.
    pub proof fn lemma_balance_le_supply(&self, id: Seq<char>)
        requires
            self.wf(),
        ensures
            self.balance(id) <= self.supply(),
    {
        let s = self.accounts.pairs();
        lemma_pairs_map(s);
        lemma_sum_nonneg_and_bounds(s);
        if self.registered(id) {
            let i = choose|i: int| 0 <= i < s.len() && (#[trigger] s[i]).0 == id;
            assert(s[i].1 == self.balances()[id]);
        }
    }

    /// Two different accounts together hold no more than the total supply.
    pub proof fn lemma_two_balances_le_supply(&self, a: Seq<char>, b: Seq<char>)
        requires
            self.wf(),
            a != b,
        ensures
            self.balance(a) + self.balance(b) <= self.supply(),
    {
        lemma_two_entries_le_sum(self.accounts.pairs(), a, b);
    }

    pub fn new() -> (r: Self)
        ensures
            r.wf(),
            r.balances() == Map::<Seq<char>, u128>::empty(),
            r.supply() == 0,
    {
        Ledger { accounts: AssocList::new(), total_supply: 0 }
    }

    pub fn total_supply(&self) -> (r: u128)
        ensures
            r == self.supply(),
    {
        self.total_supply
    }

    pub fn is_registered(&self, id: &String) -> (r: bool)
        requires
            self.wf(),
        ensures
            r == self.registered(id@),
    {
        self.accounts.contains_key(id)
    }

    /// The balance of `id`, zero when it is not registered.
    pub fn balance_of(&self, id: &String) -> (r: u128)
        requires
            self.wf(),
        ensures
            r == self.balance(id@),
    {
        match self.accounts.get(id) {
            Some(b) => *b,
            None => 0,
        }
    }

    /// Registers `id` with a zero balance.
    pub fn register(&mut self, id: &String) -> (r: Result<(), LedgerError>)
        requires
            old(self).wf(),
        ensures
            final(self).wf(),
            old(self).registered(id@) ==> r == Err::<(), LedgerError>(LedgerError::AlreadyRegistered)
                && *final(self) == *old(self),
            !old(self).registered(id@) ==> r is Ok && final(self).balances() == old(self).balances().insert(
                id@,
                0,
            ) && final(self).supply() == old(self).supply(),
    {
        if self.accounts.contains_key(id) {
            return Err(LedgerError::AlreadyRegistered);
        }
        let ghost s = self.accounts.pairs();
        self.accounts.insert(id.clone(), 0);
        assert(self.accounts.pairs().drop_last() =~= s);
        Ok(())
    }

    /// Adds `amount` to the balance of `id` and to the total supply.
    pub fn deposit(&mut self, id: &String, amount: u128) -> (r: Result<(), LedgerError>)
        requires
            old(self).wf(),
        ensures
            final(self).wf(),
            r == deposit_outcome(old(self).balances(), old(self).supply(), id@, amount),
            r is Err ==> *final(self) == *old(self),
            r is Ok ==> final(self).balances() == old(self).balances().insert(
                id@,
                (old(self).balance(id@) + amount) as u128,
            ) && final(self).supply() == old(self).supply() + amount,
    {
        let balance = match self.accounts.get(id) {
            Some(b) => *b,
            None => {
                return Err(LedgerError::NotRegistered);
            },
        };
        if balance > u128::MAX - amount {
            return Err(LedgerError::BalanceOverflow);
        }
        if self.total_supply > u128::MAX - amount {
            return Err(LedgerError::TotalSupplyOverflow);
        }
        let ghost s = self.accounts.pairs();
        proof {
            lemma_pairs_map(s);
        }
        let i = self.accounts.insert(id.clone(), balance + amount);
        proof {
            lemma_sum_update(s, i as int, (id@, (balance + amount) as u128));
        }
        self.total_supply = self.total_supply + amount;
        Ok(())
    }

    /// Takes `amount` from the balance of `id` and from the total supply.
    pub fn withdraw(&mut self, id: &String, amount: u128) -> (r: Result<(), LedgerError>)
        requires
            old(self).wf(),
        ensures
            final(self).wf(),
            r == withdraw_outcome(old(self).balances(), id@, amount),
            r is Err ==> *final(self) == *old(self),
            r is Ok ==> final(self).balances() == old(self).balances().insert(
                id@,
                (old(self).balance(id@) - amount) as u128,
            ) && final(self).supply() == old(self).supply() - amount,
    {
        let balance = match self.accounts.get(id) {
            Some(b) => *b,
            None => {
                return Err(LedgerError::NotRegistered);
            },
        };
        if balance < amount {
            return Err(LedgerError::InsufficientBalance);
        }
        proof {
            self.lemma_balance_le_supply(id@);
        }
        let ghost s = self.accounts.pairs();
        proof {
            lemma_pairs_map(s);
        }
        let i = self.accounts.insert(id.clone(), balance - amount);
        proof {
            lemma_sum_update(s, i as int, (id@, (balance - amount) as u128));
        }
        self.total_supply = self.total_supply - amount;
        Ok(())
    }

    /// Whether moving `amount` from `sender` to `receiver` would succeed,
    /// and if not, why.
    pub fn check_transfer(&self, sender: &String, receiver: &String, amount: u128) -> (r: Result<(), LedgerError>)
        requires
            self.wf(),
        ensures
            r == transfer_outcome(self.balances(), sender@, receiver@, amount),
    {
        if *sender == *receiver {
            return Err(LedgerError::SameAccount);
        }
        if amount == 0 {
            return Err(LedgerError::ZeroAmount);
        }
        let sb = match self.accounts.get(sender) {
            Some(b) => *b,
            None => {
                return Err(LedgerError::NotRegistered);
            },
        };
        if sb < amount {
            return Err(LedgerError::InsufficientBalance);
        }
        if !self.accounts.contains_key(receiver) {
            return Err(LedgerError::NotRegistered);
        }
        Ok(())
    }

    /// Moves `amount` from `sender` to `receiver`.
    pub fn transfer(&mut self, sender: &String, receiver: &String, amount: u128) -> (r: Result<(), LedgerError>)
        requires
            old(self).wf(),
        ensures
            final(self).wf(),
            r == transfer_outcome(old(self).balances(), sender@, receiver@, amount),
            r is Err ==> *final(self) == *old(self),
            r is Ok ==> final(self).balances() == old(self).balances().insert(
                sender@,
                (old(self).balance(sender@) - amount) as u128,
            ).insert(receiver@, (old(self).balance(receiver@) + amount) as u128)
                && final(self).supply() == old(self).supply(),
    {
        if *sender == *receiver {
            return Err(LedgerError::SameAccount);
        }
        if amount == 0 {
            return Err(LedgerError::ZeroAmount);
        }
        let sb = match self.accounts.get(sender) {
            Some(b) => *b,
            None => {
                return Err(LedgerError::NotRegistered);
            },
        };
        if sb < amount {
            return Err(LedgerError::InsufficientBalance);
        }
        if !self.accounts.contains_key(receiver) {
            return Err(LedgerError::NotRegistered);
        }
        let ghost old_self = *self;
        let ghost rb = self.balance(receiver@);
        let w = self.withdraw(sender, amount);
        assert(w is Ok);
        assert(self.balance(receiver@) == rb);
        proof {
            self.lemma_balance_le_supply(receiver@);
            old_self.lemma_balance_le_supply(sender@);
            old_self.lemma_two_balances_le_supply(sender@, receiver@);
        }
        let d = self.deposit(receiver, amount);
        assert(d is Ok);
        Ok(())
    }

    /// Removes the account `id` and burns whatever it held; returns the
    /// balance it had, or `None` when it was not registered.
    pub fn remove_account(&mut self, id: &String) -> (r: Option<u128>)
        requires
            old(self).wf(),
        ensures
            final(self).wf(),
            match r {
                Some(b) => old(self).registered(id@) && b == old(self).balance(id@)
                    && final(self).balances() == old(self).balances().remove(id@)
                    && final(self).supply() == old(self).supply() - b,
                None => !old(self).registered(id@) && *final(self) == *old(self),
            },
    {
        proof {
            self.lemma_balance_le_supply(id@);
        }
        let ghost s = self.accounts.pairs();
        match self.accounts.remove(id) {
            Some((b, i)) => {
                proof {
                    lemma_sum_swap_remove(s, i as int);
                }
                self.total_supply = self.total_supply - b;
                Some(b)
            },
            None => {
                assert(self.accounts == old(self).accounts);
                None
            },
        }
    }

    /// Settles a transfer-and-call once the receiver has answered, as the
    /// NEP-141 resolver does: of the `unused` part the receiver reported
    /// (the whole amount when it reported nothing readable, never more than
    /// the amount) as much as the receiver still holds goes back to the
    /// sender, or is burned when the sender's account is gone. Returns the
    /// amount used and the amount burned.
    pub fn resolve_transfer(
        &mut self,
        sender: &String,
        receiver: &String,
        amount: u128,
        unused: Option<u128>,
    ) -> (r: (u128, u128))
        requires
            old(self).wf(),
        ensures
            final(self).wf(),
            ({
                let unused_amount = resolved_unused(unused, amount);
                let rb = old(self).balance(receiver@);
                let refund = if rb < unused_amount { rb } else { unused_amount };
                if unused_amount == 0 || rb == 0 {
                    r == (amount, 0u128) && *final(self) == *old(self)
                } else if old(self).registered(sender@) {
                    let after = old(self).balances().insert(receiver@, (rb - refund) as u128);
                    &&& r == ((amount - refund) as u128, 0u128)
                    &&& final(self).balances() == after.insert(
                        sender@,
                        (balance_in(after, sender@) + refund) as u128,
                    )
                    &&& final(self).supply() == old(self).supply()
                } else {
                    &&& r == (amount, refund)
                    &&& final(self).balances() == old(self).balances().insert(
                        receiver@,
                        (rb - refund) as u128,
                    )
                    &&& final(self).supply() == old(self).supply() - refund
                }
            }),
    {
        let unused_amount = match unused {
            Some(u) => if u < amount { u } else { amount },
            None => amount,
        };
        if unused_amount == 0 {
            return (amount, 0);
        }
        let rb = self.balance_of(receiver);
        if rb == 0 {
            return (amount, 0);
        }
        let refund = if rb < unused_amount { rb } else { unused_amount };
        let ghost s0 = self.accounts.pairs();
        proof {
            lemma_pairs_map(s0);
            self.lemma_balance_le_supply(receiver@);
        }
        let i = self.accounts.insert(receiver.clone(), rb - refund);
        proof {
            lemma_sum_update(s0, i as int, (receiver@, (rb - refund) as u128));
        }
        // the receiver's refund has left the sum but not yet the supply
        match self.accounts.get(sender) {
            Some(sb_ref) => {
                let sb = *sb_ref;
                proof {
                    let s1 = self.accounts.pairs();
                    lemma_pairs_map(s1);
                    lemma_sum_nonneg_and_bounds(s1);
                    let j = choose|j: int| 0 <= j < s1.len() && (#[trigger] s1[j]).0 == sender@;
                    assert(s1[j].1 == sb);
                }
                let ghost s1 = self.accounts.pairs();
                proof {
                    lemma_pairs_map(s1);
                }
                let k = self.accounts.insert(sender.clone(), sb + refund);
                proof {
                    lemma_sum_update(s1, k as int, (sender@, (sb + refund) as u128));
                }
                (amount - refund, 0)
            },
            None => {
                self.total_supply = self.total_supply - refund;
                (amount, refund)
            },
        }
    }

    /// The accounts in order and the total supply, given up by the ledger.
    pub fn into_accounts(self) -> (r: (Vec<(String, u128)>, u128))
        requires
            self.wf(),
        ensures
            keys_distinct(entry_views(r.0@)),
            pairs_sum(entry_views(r.0@)) == r.1,
            pairs_map(entry_views(r.0@)) == self.balances(),
            r.1 == self.supply(),
    {
        (self.accounts.into_entries(), self.total_supply)
    }

    /// The ledger of `accounts` with `total_supply`, when no account occurs
    /// twice and the supply is the sum of the balances.
    pub fn from_accounts(accounts: Vec<(String, u128)>, total_supply: u128) -> (r: Option<Ledger>)
        ensures
            r is Some <==> (keys_distinct(entry_views(accounts@)) && pairs_sum(entry_views(accounts@))
                == total_supply),
            r matches Some(l) ==> l.wf() && l.balances() == pairs_map(entry_views(accounts@)) && l.supply()
                == total_supply,
    {
        let ghost s = entry_views(accounts@);
        let mut sum: u128 = 0;
        let mut i: usize = 0;
        while i < accounts.len()
            invariant
                i <= accounts@.len(),
                s == entry_views(accounts@),
                sum == pairs_sum(s.take(i as int)),
            decreases accounts@.len() - i,
        {
            assert(s.take(i + 1).drop_last() =~= s.take(i as int));
            assert(s.take(i + 1).last().1 == accounts@[i as int].1);
            match sum.checked_add(accounts[i].1) {
                Some(x) => {
                    sum = x;
                },
                None => {
                    proof {
                        lemma_sum_prefix(s, i + 1);
                    }
                    return None;
                },
            }
            i = i + 1;
        }
        assert(s.take(accounts@.len() as int) =~= s);
        if sum != total_supply {
            return None;
        }
        match AssocList::from_entries(accounts) {
            Some(list) => Some(Ledger { accounts: list, total_supply }),
            None => None,
        }
    }
}

/// The unused amount a transfer-and-call settles: what the receiver
/// reported, the whole amount when it reported nothing readable, and never
/// more than the amount.
pub open spec fn resolved_unused(unused: Option<u128>, amount: u128) -> u128 {
    match unused {
        Some(u) => if u < amount {
            u
        } else {
            amount
        },
        None => amount,
    }
}

/// The outcome of depositing `amount` to `id`.
pub open spec fn deposit_outcome(
    m: Map<Seq<char>, u128>,
    supply: u128,
    id: Seq<char>,
    amount: u128,
) -> Result<(), LedgerError> {
    if !m.dom().contains(id) {
        Err(LedgerError::NotRegistered)
    } else if m[id] + amount > u128::MAX {
        Err(LedgerError::BalanceOverflow)
    } else if supply + amount > u128::MAX {
        Err(LedgerError::TotalSupplyOverflow)
    } else {
        Ok(())
    }
}

/// The outcome of withdrawing `amount` from `id`.
pub open spec fn withdraw_outcome(m: Map<Seq<char>, u128>, id: Seq<char>, amount: u128) -> Result<
    (),
    LedgerError,
> {
    if !m.dom().contains(id) {
        Err(LedgerError::NotRegistered)
    } else if m[id] < amount {
        Err(LedgerError::InsufficientBalance)
    } else {
        Ok(())
    }
}

/// The outcome of moving `amount` from `sender` to `receiver`; a transfer
/// between registered accounts never overflows.
pub open spec fn transfer_outcome(
    m: Map<Seq<char>, u128>,
    sender: Seq<char>,
    receiver: Seq<char>,
    amount: u128,
) -> Result<(), LedgerError> {
    if sender == receiver {
        Err(LedgerError::SameAccount)
    } else if amount == 0 {
        Err(LedgerError::ZeroAmount)
    } else if !m.dom().contains(sender) {
        Err(LedgerError::NotRegistered)
    } else if m[sender] < amount {
        Err(LedgerError::InsufficientBalance)
    } else if !m.dom().contains(receiver) {
        Err(LedgerError::NotRegistered)
    } else {
        Ok(())
    }
}

/// In a list of distinct accounts, two different accounts together hold
/// no more than the sum of all balances.
pub proof fn lemma_two_entries_le_sum(s: Seq<(Seq<char>, u128)>, a: Seq<char>, b: Seq<char>)
    requires
        keys_distinct(s),
        a != b,
    ensures
        balance_in(pairs_map(s), a) + balance_in(pairs_map(s), b) <= pairs_sum(s),
{
    let m = pairs_map(s);
    lemma_pairs_map(s);
    lemma_sum_nonneg_and_bounds(s);
    if m.dom().contains(a) && m.dom().contains(b) {
        let i = choose|i: int| 0 <= i < s.len() && (#[trigger] s[i]).0 == a;
        let j = choose|j: int| 0 <= j < s.len() && (#[trigger] s[j]).0 == b;
        assert(s[i].1 == m[a]);
        assert(s[j].1 == m[b]);
        // drop entry i: what remains still holds b's balance
        lemma_sum_swap_remove(s, i);
        let u = swap_removed(s, i);
        lemma_sum_nonneg_and_bounds(u);
        let n = s.len() - 1;
        let j2 = if j == n { i } else { j };
        assert(u[j2] == s[j]);
    } else if m.dom().contains(a) {
        let i = choose|i: int| 0 <= i < s.len() && (#[trigger] s[i]).0 == a;
        assert(s[i].1 == m[a]);
    } else if m.dom().contains(b) {
        let j = choose|j: int| 0 <= j < s.len() && (#[trigger] s[j]).0 == b;
        assert(s[j].1 == m[b]);
    }
}

} // verus!
