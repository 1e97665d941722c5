//! The chain: an append-only block sequence plus the account ledger, with
//! the transfer, airdrop and destroy semantics and their invariants.

use vstd::prelude::*;

use vstd::pervasive::VecAdditionalExecFns;

use crate::AccountId;
use crate::Balance;
use crate::block::Block;
use crate::consensus::Consensus;
use crate::consensus::ProofOfWork;
use crate::consensus::spec_apply_all;
use crate::consensus::spec_difficulty_ok;
use crate::consensus::spec_parent_ok;
use crate::hash::HASH_LEN;
use crate::transaction::ChainError;
use crate::transaction::Operation;
use crate::transaction::Transaction;
use crate::transaction::TransactionResult;
use crate::transaction::spec_authorized;

verus! {

/// Configuration consumed by the consensus engine. `time_tolerance` is in
/// whole seconds.
#[derive(Clone, Copy, Debug)]
pub struct ChainProperties {
    pub existential_deposit: Balance,
    pub difficulty: usize,
    pub time_tolerance: u64,
    pub consensus: ProofOfWork,
}

/// A ledger entry's payload. Absent accounts are logically zero-balance.
#[derive(Clone, Copy, Debug, PartialEq, Eq, Structural)]
pub struct AccountInfo {
    pub balance: Balance,
}

impl Default for AccountInfo {
    /// A fresh account starts at balance zero.
    fn default() -> (info: AccountInfo)
        ensures
            info.balance == 0u64,
    {
        AccountInfo { balance: 0u64 }
    }
}

/// The ledger as the contracts see it: account identifiers (as their bytes)
/// paired with balances, in entry order.
pub open spec fn spec_balances(accounts: Seq<(AccountId, AccountInfo)>) -> Seq<(Seq<u8>, u64)> {
    accounts.map(|i: int, e: (AccountId, AccountInfo)| (e.0@, e.1.balance))
}

/// The reserved system account's identifier: the all-`0xFF` pattern. It is
/// the only mint/burn counterparty, and is exempt from the deposit floor.
pub open spec fn spec_system_id() -> Seq<u8> {
    Seq::new(HASH_LEN as nat, |i: int| 0xFFu8)
}

/// Every identifier occurs at most once in the ledger.
pub open spec fn spec_ids_unique(l: Seq<(Seq<u8>, u64)>) -> bool {
    forall|i: int, j: int| 0 <= i < j < l.len() ==> l[i].0 != l[j].0
}

/// Some entry carries the identifier `id`.
pub open spec fn spec_contains(l: Seq<(Seq<u8>, u64)>, id: Seq<u8>) -> bool {
    exists|j: int| 0 <= j < l.len() && l[j].0 == id
}

/// Index of the first entry carrying `id`, or -1 if there is none.
pub open spec fn spec_index_of(l: Seq<(Seq<u8>, u64)>, id: Seq<u8>) -> int
    decreases l.len(),
{
    if l.len() == 0 {
        -1
    } else if l[0].0 == id {
        0
    } else {
        let rest = spec_index_of(l.drop_first(), id);
        if rest < 0 {
            -1
        } else {
            rest + 1
        }
    }
}

/// `spec_index_of` finds exactly the first entry carrying `id`, and finds
/// none exactly when no entry carries `id`.
pub proof fn lemma_index_of_props(l: Seq<(Seq<u8>, u64)>, id: Seq<u8>)
    ensures
        spec_index_of(l, id) == -1 <==> !spec_contains(l, id),
        spec_index_of(l, id) != -1 ==> {
            &&& 0 <= spec_index_of(l, id) < l.len()
            &&& l[spec_index_of(l, id)].0 == id
            &&& forall|j: int| 0 <= j < spec_index_of(l, id) ==> l[j].0 != id
        },
    decreases l.len(),
{
    if l.len() == 0 {
    } else if l[0].0 == id {
    } else {
        let rest = l.drop_first();
        lemma_index_of_props(rest, id);
        assert(forall|j: int| 0 <= j < rest.len() ==> rest[j] == l[j + 1]);
        if spec_index_of(rest, id) == -1 {
            assert(forall|j: int| 0 <= j < l.len() ==> l[j].0 != id) by {
                assert forall|j: int| 0 <= j < l.len() implies l[j].0 != id by {
                    if j > 0 {
                        assert(l[j] == rest[j - 1]);
                    }
                }
            }
        } else {
            let r = spec_index_of(rest, id);
            assert(l[r + 1] == rest[r]);
            assert forall|j: int| 0 <= j < r + 1 implies l[j].0 != id by {
                if j > 0 {
                    assert(l[j] == rest[j - 1]);
                }
            }
            assert(spec_contains(l, id));
        }
    }
}

/// Sum of all balances in the ledger: the total supply.
pub open spec fn spec_total(l: Seq<(Seq<u8>, u64)>) -> int
    decreases l.len(),
{
    if l.len() == 0 {
        0
    } else {
        spec_total(l.drop_last()) + l.last().1
    }
}

/// Replacing one entry moves the total by the difference of the balances.
pub proof fn lemma_total_update(l: Seq<(Seq<u8>, u64)>, i: int, e: (Seq<u8>, u64))
    requires
        0 <= i < l.len(),
    ensures
        spec_total(l.update(i, e)) == spec_total(l) - l[i].1 + e.1,
    decreases l.len(),
{
    let lu = l.update(i, e);
    if i == l.len() - 1 {
        assert(lu.drop_last() =~= l.drop_last());
        assert(lu.last() == e);
    } else {
        assert(lu.drop_last() =~= l.drop_last().update(i, e));
        assert(lu.last() == l.last());
        lemma_total_update(l.drop_last(), i, e);
    }
}

/// Appending an entry adds its balance to the total.
pub proof fn lemma_total_push(l: Seq<(Seq<u8>, u64)>, e: (Seq<u8>, u64))
    ensures
        spec_total(l.push(e)) == spec_total(l) + e.1,
{
    assert(l.push(e).drop_last() =~= l);
    assert(l.push(e).last() == e);
}

/// The transfer rule, as a function of the ledger alone. Checks run in
/// order — missing sender, insufficient balance, the keep-alive floor, the
/// receiver's deposit floor, overflow — and only if all pass is the receiver
/// credited and the sender debited, atomically.
pub open spec fn spec_transfer(
    l: Seq<(Seq<u8>, u64)>,
    sender: Seq<u8>,
    receiver: Seq<u8>,
    amount: u64,
    keep_alive: bool,
    deposit: u64,
) -> Result<Seq<(Seq<u8>, u64)>, ChainError> {
    let si = spec_index_of(l, sender);
    if si < 0 {
        Err(ChainError::SenderNotFound)
    } else {
        let sender_balance = l[si].1;
        if sender_balance < amount {
            Err(ChainError::InsufficientBalance)
        } else if keep_alive && sender_balance - deposit < amount {
            Err(ChainError::CannotKillSender)
        } else {
            let ri = spec_index_of(l, receiver);
            let receiver_balance: u64 = if ri >= 0 {
                l[ri].1
            } else {
                0u64
            };
            if receiver_balance + amount < deposit {
                Err(ChainError::ReceiverBelowDeposit)
            } else if receiver_balance + amount > u64::MAX {
                Err(ChainError::BalanceOverflow)
            } else {
                let credited = if ri >= 0 {
                    l.update(ri, (receiver, (receiver_balance + amount) as u64))
                } else {
                    l.push((receiver, amount))
                };
                Ok(credited.update(si, (sender, (credited[si].1 - amount) as u64)))
            }
        }
    }
}

/// The airdrop rule: a keep-alive transfer out of the system account, with
/// the system account's internal constraints hidden behind one error.
pub open spec fn spec_airdrop(
    l: Seq<(Seq<u8>, u64)>,
    receiver: Seq<u8>,
    amount: u64,
    deposit: u64,
) -> Result<Seq<(Seq<u8>, u64)>, ChainError> {
    match spec_transfer(l, spec_system_id(), receiver, amount, true, deposit) {
        Ok(l2) => Ok(l2),
        Err(e) => Err(
            match e {
                ChainError::InsufficientBalance => ChainError::SystemAllowanceTooLow,
                ChainError::CannotKillSender => ChainError::SystemAllowanceTooLow,
                other => other,
            },
        ),
    }
}

/// The destroy rule: the account's entire balance moves to the system
/// account, keep-alive off, so the account may be fully drained.
pub open spec fn spec_destroy(l: Seq<(Seq<u8>, u64)>, account: Seq<u8>, deposit: u64) -> Result<
    Seq<(Seq<u8>, u64)>,
    ChainError,
> {
    let i = spec_index_of(l, account);
    if i < 0 {
        Err(ChainError::AccountNotFound)
    } else {
        spec_transfer(l, account, spec_system_id(), l[i].1, false, deposit)
    }
}

/// One transaction's effect on the ledger: reject unauthorized originators,
/// then dispatch on the operation. `Panic` is the deliberate fault; it
/// returns its error and leaves the ledger unchanged.
pub open spec fn spec_execute(l: Seq<(Seq<u8>, u64)>, t: Transaction, deposit: u64) -> Result<
    Seq<(Seq<u8>, u64)>,
    ChainError,
> {
    if !spec_authorized(t.operation, t.initiator) {
        Err(ChainError::Unauthorized)
    } else {
        match t.operation {
            Operation::Empty => Ok(l),
            Operation::Panic => Err(ChainError::OperationPanic),
            Operation::DestroyAccount { account_id } => spec_destroy(l, account_id@, deposit),
            Operation::TransferFund { sender, receiver, amount } => spec_transfer(
                l,
                sender@,
                receiver@,
                amount,
                true,
                deposit,
            ),
            Operation::Airdrop { receiver, amount } => spec_airdrop(l, receiver@, amount, deposit),
        }
    }
}

/// A successful transfer keeps every identifier where it was (appending the
/// receiver if it was absent), so uniqueness and membership survive.
pub proof fn lemma_transfer_preserves_wf(
    l: Seq<(Seq<u8>, u64)>,
    sender: Seq<u8>,
    receiver: Seq<u8>,
    amount: u64,
    keep_alive: bool,
    deposit: u64,
)
    requires
        spec_ids_unique(l),
        spec_transfer(l, sender, receiver, amount, keep_alive, deposit) is Ok,
    ensures
        spec_ids_unique(spec_transfer(l, sender, receiver, amount, keep_alive, deposit).unwrap()),
        forall|id: Seq<u8>|
            spec_contains(l, id) ==> spec_contains(
                spec_transfer(l, sender, receiver, amount, keep_alive, deposit).unwrap(),
                id,
            ),
{
    lemma_index_of_props(l, sender);
    lemma_index_of_props(l, receiver);
    let l2 = spec_transfer(l, sender, receiver, amount, keep_alive, deposit).unwrap();
    let si = spec_index_of(l, sender);
    let ri = spec_index_of(l, receiver);
    if ri >= 0 {
        assert(forall|j: int| 0 <= j < l.len() ==> l2[j].0 == l[j].0);
        assert(spec_ids_unique(l2));
        assert forall|id: Seq<u8>| spec_contains(l, id) implies spec_contains(l2, id) by {
            let w = choose|j: int| 0 <= j < l.len() && l[j].0 == id;
            assert(l2[w].0 == id);
        }
    } else {
        assert(forall|j: int| 0 <= j < l.len() ==> l2[j].0 == l[j].0);
        assert(l2[l.len() as int].0 == receiver);
        assert forall|i: int, j: int| 0 <= i < j < l2.len() implies l2[i].0 != l2[j].0 by {
            if j < l.len() {
            } else {
                assert(l2[j].0 == receiver);
                assert(l[i].0 != receiver);
            }
        }
        assert forall|id: Seq<u8>| spec_contains(l, id) implies spec_contains(l2, id) by {
            let w = choose|j: int| 0 <= j < l.len() && l[j].0 == id;
            assert(l2[w].0 == id);
        }
    }
}

/// Conservation: a successful transfer never changes the total supply — the
/// amount leaves the sender and arrives at the receiver, nothing else moves.
/// Airdrop and destroy change the supply only as transfers against the
/// system account, so the sum over all accounts including the system account
/// is invariant under them as well.
pub proof fn lemma_transfer_conserves_total(
    l: Seq<(Seq<u8>, u64)>,
    sender: Seq<u8>,
    receiver: Seq<u8>,
    amount: u64,
    keep_alive: bool,
    deposit: u64,
)
    requires
        spec_transfer(l, sender, receiver, amount, keep_alive, deposit) is Ok,
    ensures
        spec_total(spec_transfer(l, sender, receiver, amount, keep_alive, deposit).unwrap())
            == spec_total(l),
{
    lemma_index_of_props(l, sender);
    lemma_index_of_props(l, receiver);
    let si = spec_index_of(l, sender);
    let ri = spec_index_of(l, receiver);
    let receiver_balance: u64 = if ri >= 0 {
        l[ri].1
    } else {
        0u64
    };
    let credited = if ri >= 0 {
        l.update(ri, (receiver, (receiver_balance + amount) as u64))
    } else {
        l.push((receiver, amount))
    };
    if ri >= 0 {
        lemma_total_update(l, ri, (receiver, (receiver_balance + amount) as u64));
    } else {
        lemma_total_push(l, (receiver, amount));
    }
    lemma_total_update(credited, si, (sender, (credited[si].1 - amount) as u64));
}

/// The deposit boundary, success side: a keep-alive transfer that leaves the
/// sender exactly at the existential deposit goes through (provided the
/// receiver-side checks pass).
pub proof fn lemma_deposit_boundary_exact(
    l: Seq<(Seq<u8>, u64)>,
    sender: Seq<u8>,
    receiver: Seq<u8>,
    amount: u64,
    deposit: u64,
)
    requires
        spec_index_of(l, sender) >= 0,
        l[spec_index_of(l, sender)].1 - amount == deposit,
        ({
            let ri = spec_index_of(l, receiver);
            let receiver_balance: u64 = if ri >= 0 {
                l[ri].1
            } else {
                0u64
            };
            receiver_balance + amount >= deposit && receiver_balance + amount <= u64::MAX
        }),
    ensures
        spec_transfer(l, sender, receiver, amount, true, deposit) is Ok,
{
    lemma_index_of_props(l, sender);
}

/// The deposit boundary, failure side: a keep-alive transfer that would
/// leave the sender one unit below the existential deposit is rejected with
/// `CannotKillSender`, even though the sender could afford the amount.
pub proof fn lemma_deposit_boundary_below(
    l: Seq<(Seq<u8>, u64)>,
    sender: Seq<u8>,
    receiver: Seq<u8>,
    amount: u64,
    deposit: u64,
)
    requires
        spec_index_of(l, sender) >= 0,
        l[spec_index_of(l, sender)].1 >= amount,
        l[spec_index_of(l, sender)].1 - amount == deposit - 1,
    ensures
        spec_transfer(l, sender, receiver, amount, true, deposit) == Err::<
            Seq<(Seq<u8>, u64)>,
            ChainError,
        >(ChainError::CannotKillSender),
{
    lemma_index_of_props(l, sender);
}

/// The chain: block sequence (index 0 is genesis), the account ledger, and
/// the consensus configuration.
#[derive(Clone, Debug)]
pub struct Chain {
    pub chain_info: String,
    pub blocks: Vec<Block>,
    pub accounts: Vec<(AccountId, AccountInfo)>,
    pub properties: ChainProperties,
    pub system_account: AccountId,
}

/// Finds the ledger entry carrying `id`, scanning in entry order.
fn find_account(accounts: &Vec<(AccountId, AccountInfo)>, id: &AccountId) -> (r: Option<usize>)
    ensures
        ({
            let l = spec_balances(accounts@);
            match r {
                Some(i) => spec_index_of(l, id@) == i as int,
                None => spec_index_of(l, id@) == -1,
            }
        }),
{
    let ghost l = spec_balances(accounts@);
    let mut i: usize = 0;
    while i < accounts.len()
        invariant
            0 <= i <= accounts@.len(),
            l == spec_balances(accounts@),
            forall|j: int| 0 <= j < i ==> l[j].0 != id@,
        decreases accounts@.len() - i,
    {
        let entry_id = accounts[i].0;
        if entry_id == *id {
            proof {
                lemma_index_of_props(l, id@);
                assert(l[i as int].0 == id@);
                let r = spec_index_of(l, id@);
                assert(spec_contains(l, id@));
                if r < i as int {
                    assert(l[r].0 != id@);
                }
                if r > i as int {
                    assert(l[i as int].0 != id@);
                }
            }
            return Some(i);
        }
        i = i + 1;
    }
    proof {
        lemma_index_of_props(l, id@);
        if spec_index_of(l, id@) != -1 {
            assert(l[spec_index_of(l, id@)].0 == id@);
        }
    }
    None
}

/// A fresh copy of the ledger's entries, used for snapshot-and-restore
/// rollback around a block commit.
pub(crate) fn clone_accounts(accounts: &Vec<(AccountId, AccountInfo)>) -> (r: Vec<
    (AccountId, AccountInfo),
>)
    ensures
        r@ == accounts@,
{
    let mut r: Vec<(AccountId, AccountInfo)> = Vec::new();
    let mut i: usize = 0;
    while i < accounts.len()
        invariant
            0 <= i <= accounts@.len(),
            r@ == accounts@.take(i as int),
        decreases accounts@.len() - i,
    {
        r.push(accounts[i]);
        proof {
            assert(accounts@.take(i + 1 as int) =~= accounts@.take(i as int).push(
                accounts@[i as int],
            ));
        }
        i = i + 1;
    }
    proof {
        assert(accounts@.take(accounts@.len() as int) =~= accounts@);
    }
    r
}

impl Chain {
    /// Structural invariant: the stored system identifier is the reserved
    /// all-`0xFF` pattern, identifiers are unique, the system account has an
    /// entry, and the chain is never empty.
    pub open spec fn wf(&self) -> bool {
        &&& self.system_account@ == spec_system_id()
        &&& spec_ids_unique(spec_balances(self.accounts@))
        &&& spec_contains(spec_balances(self.accounts@), spec_system_id())
        &&& self.blocks@.len() >= 1
    }

    /// Creates a chain: the genesis block (height 1, zero parent, nonce 0)
    /// and a ledger holding only the system account's opening allowance.
    pub fn new(chain_info: String, properties: ChainProperties, system_allowance: Balance) -> (c:
        Chain)
        ensures
            c.wf(),
            spec_balances(c.accounts@) =~= seq![(spec_system_id(), system_allowance)],
            c.blocks@.len() == 1,
            c.blocks@[0].header.height == 1u64,
            c.blocks@[0].header.nonce == 0u32,
            c.blocks@[0].header.parent_block@ == Seq::new(HASH_LEN as nat, |i: int| 0u8),
            c.blocks@[0].transactions@.len() == 0,
            c.properties == properties,
            c.chain_info == chain_info,
    {
        let system_account = crate::hash::Hash::raw([0xFFu8; HASH_LEN]);
        proof {
            assert(system_account@ =~= spec_system_id());
        }
        let mut accounts: Vec<(AccountId, AccountInfo)> = Vec::new();
        accounts.push((system_account, AccountInfo { balance: system_allowance }));
        let mut blocks: Vec<Block> = Vec::new();
        blocks.push(Block::get_genesis());
        let c = Chain { chain_info, blocks, accounts, properties, system_account };
        proof {
            assert(spec_balances(c.accounts@) =~= seq![(spec_system_id(), system_allowance)]);
            assert(spec_balances(c.accounts@)[0].0 == spec_system_id());
        }
        c
    }

    /// The chain's tip: its most recently committed block.
    pub fn get_latest_block(&self) -> (b: &Block)
        requires
            self.wf(),
        ensures
            *b == self.blocks@.last(),
    {
        &self.blocks[self.blocks.len() - 1]
    }

    /// The transfer engine. All checks precede both mutations, so a rejected
    /// transfer leaves the chain unchanged, and a successful one is exactly
    /// [`spec_transfer`] on the ledger.
    pub fn transfer_fund(
        &mut self,
        sender: AccountId,
        receiver: AccountId,
        amount: Balance,
        keep_alive: bool,
    ) -> (r: TransactionResult)
        requires
            old(self).wf(),
        ensures
            final(self).wf(),
            final(self).blocks@ == old(self).blocks@,
            final(self).properties == old(self).properties,
            final(self).chain_info == old(self).chain_info,
            final(self).system_account == old(self).system_account,
            ({
                let l = spec_balances(old(self).accounts@);
                let deposit = old(self).properties.existential_deposit;
                match spec_transfer(l, sender@, receiver@, amount, keep_alive, deposit) {
                    Ok(l2) => r is Ok && spec_balances(final(self).accounts@) == l2,
                    Err(e) => r == Err::<(), ChainError>(e) && final(self).accounts@ == old(
                        self,
                    ).accounts@,
                }
            }),
    {
        let ghost l = spec_balances(self.accounts@);
        let ghost deposit_g = self.properties.existential_deposit;
        let deposit = self.properties.existential_deposit;
        proof {
            lemma_index_of_props(l, sender@);
            lemma_index_of_props(l, receiver@);
        }
        let sender_idx = match find_account(&self.accounts, &sender) {
            Some(i) => i,
            None => {
                return Err(ChainError::SenderNotFound);
            },
        };
        let sender_balance = self.accounts[sender_idx].1.balance;
        if sender_balance < amount {
            return Err(ChainError::InsufficientBalance);
        }
        if keep_alive && (sender_balance as u128) < (amount as u128) + (deposit as u128) {
            return Err(ChainError::CannotKillSender);
        }
        let receiver_idx = find_account(&self.accounts, &receiver);
        let receiver_balance = match receiver_idx {
            Some(i) => self.accounts[i].1.balance,
            None => 0u64,
        };
        if (receiver_balance as u128) + (amount as u128) < (deposit as u128) {
            return Err(ChainError::ReceiverBelowDeposit);
        }
        if (receiver_balance as u128) + (amount as u128) > (u64::MAX as u128) {
            return Err(ChainError::BalanceOverflow);
        }
        match receiver_idx {
            Some(ri) => {
                let receiver_entry = self.accounts[ri];
                self.accounts.set(
                    ri,
                    (receiver_entry.0, AccountInfo { balance: receiver_balance + amount }),
                );
                proof {
                    assert(spec_balances(self.accounts@) =~= l.update(
                        spec_index_of(l, receiver@),
                        (receiver@, (receiver_balance + amount) as u64),
                    ));
                }
            },
            None => {
                self.accounts.push((receiver, AccountInfo { balance: amount }));
                proof {
                    assert(spec_balances(self.accounts@) =~= l.push((receiver@, amount)));
                }
            },
        }
        let ghost credited = spec_balances(self.accounts@);
        let sender_entry = self.accounts[sender_idx];
        self.accounts.set(
            sender_idx,
            (sender_entry.0, AccountInfo { balance: sender_entry.1.balance - amount }),
        );
        proof {
            let si = spec_index_of(l, sender@);
            assert(spec_balances(self.accounts@) =~= credited.update(
                si,
                (sender@, (credited[si].1 - amount) as u64),
            ));
            lemma_transfer_preserves_wf(l, sender@, receiver@, amount, keep_alive, deposit_g);
        }
        Ok(())
    }

    /// Airdrop: mints nothing — it moves `amount` from the system account's
    /// remaining allowance to `receiver`, keep-alive, reporting the system
    /// account's own constraints as one `SystemAllowanceTooLow` error.
    pub fn airdrop(&mut self, receiver: AccountId, amount: Balance) -> (r: TransactionResult)
        requires
            old(self).wf(),
        ensures
            final(self).wf(),
            final(self).blocks@ == old(self).blocks@,
            final(self).properties == old(self).properties,
            final(self).chain_info == old(self).chain_info,
            final(self).system_account == old(self).system_account,
            ({
                let l = spec_balances(old(self).accounts@);
                let deposit = old(self).properties.existential_deposit;
                match spec_airdrop(l, receiver@, amount, deposit) {
                    Ok(l2) => r is Ok && spec_balances(final(self).accounts@) == l2,
                    Err(e) => r == Err::<(), ChainError>(e) && final(self).accounts@ == old(
                        self,
                    ).accounts@,
                }
            }),
    {
        let system_account = self.system_account;
        let result = self.transfer_fund(system_account, receiver, amount, true);
        match result {
            Ok(()) => Ok(()),
            Err(e) => Err(
                match e {
                    ChainError::InsufficientBalance => ChainError::SystemAllowanceTooLow,
                    ChainError::CannotKillSender => ChainError::SystemAllowanceTooLow,
                    other => other,
                },
            ),
        }
    }

    /// Destroys an account: its entire balance moves to the system account,
    /// keep-alive off, so the account is fully drained — the one path that
    /// legitimately leaves an account below the deposit floor.
    fn destroy_account(&mut self, account: AccountId) -> (r: TransactionResult)
        requires
            old(self).wf(),
        ensures
            final(self).wf(),
            final(self).blocks@ == old(self).blocks@,
            final(self).properties == old(self).properties,
            final(self).chain_info == old(self).chain_info,
            final(self).system_account == old(self).system_account,
            ({
                let l = spec_balances(old(self).accounts@);
                let deposit = old(self).properties.existential_deposit;
                match spec_destroy(l, account@, deposit) {
                    Ok(l2) => r is Ok && spec_balances(final(self).accounts@) == l2,
                    Err(e) => r == Err::<(), ChainError>(e) && final(self).accounts@ == old(
                        self,
                    ).accounts@,
                }
            }),
    {
        let system_account = self.system_account;
        let idx = match find_account(&self.accounts, &account) {
            Some(i) => i,
            None => {
                return Err(ChainError::AccountNotFound);
            },
        };
        proof {
            lemma_index_of_props(spec_balances(self.accounts@), account@);
            assert(spec_balances(self.accounts@)[idx as int].1 == self.accounts@[idx as int].1.balance);
        }
        let account_balance = self.accounts[idx].1.balance;
        self.transfer_fund(account, system_account, account_balance, false)
    }

    /// A no-op that succeeds.
    pub fn empty_operation(&mut self) -> (r: TransactionResult)
        ensures
            *final(self) == *old(self),
            r is Ok,
    {
        Ok(())
    }

    /// The deliberate fault, used to test fault containment at the block
    /// commit boundary. It reports the fault as an error instead of aborting
    /// the process, so block-level rollback still applies.
    pub fn panic_operation(&mut self) -> (r: TransactionResult)
        ensures
            *final(self) == *old(self),
            r == Err::<(), ChainError>(ChainError::OperationPanic),
    {
        Err(ChainError::OperationPanic)
    }

    /// Authorizes and dispatches one transaction against the ledger; exactly
    /// [`spec_execute`] of the old ledger. A rejected transaction leaves the
    /// chain unchanged.
    pub fn execute(&mut self, transaction: Transaction) -> (r: TransactionResult)
        requires
            old(self).wf(),
        ensures
            final(self).wf(),
            final(self).blocks@ == old(self).blocks@,
            final(self).properties == old(self).properties,
            final(self).chain_info == old(self).chain_info,
            final(self).system_account == old(self).system_account,
            ({
                let l = spec_balances(old(self).accounts@);
                let deposit = old(self).properties.existential_deposit;
                match spec_execute(l, transaction, deposit) {
                    Ok(l2) => r is Ok && spec_balances(final(self).accounts@) == l2,
                    Err(e) => r == Err::<(), ChainError>(e) && final(self).accounts@ == old(
                        self,
                    ).accounts@,
                }
            }),
    {
        if !transaction.operation.is_privilaged(&transaction.initiator) {
            return Err(ChainError::Unauthorized);
        }
        match transaction.operation {
            Operation::Empty => self.empty_operation(),
            Operation::Panic => self.panic_operation(),
            Operation::DestroyAccount { account_id } => self.destroy_account(account_id),
            Operation::TransferFund { sender, receiver, amount } => self.transfer_fund(
                sender,
                receiver,
                amount,
                true,
            ),
            Operation::Airdrop { receiver, amount } => self.airdrop(receiver, amount),
        }
    }

    /// Commits a block under the proof-of-work rule: re-verify against the
    /// current tip, apply the transactions as one unit, append only on full
    /// success. A rejected block leaves the chain exactly as it was.
    pub fn add_block(&mut self, new_block: Block) -> (r: TransactionResult)
        requires
            old(self).wf(),
        ensures
            final(self).wf(),
            final(self).properties == old(self).properties,
            final(self).chain_info == old(self).chain_info,
            final(self).system_account == old(self).system_account,
            ({
                let tip = old(self).blocks@.last();
                let l0 = spec_balances(old(self).accounts@);
                let deposit = old(self).properties.existential_deposit;
                match r {
                    Ok(()) => {
                        &&& spec_parent_ok(tip, new_block)
                        &&& spec_difficulty_ok(new_block, old(self).properties)
                        &&& spec_apply_all(l0, new_block.transactions@, deposit) is Ok
                        &&& spec_balances(final(self).accounts@) == spec_apply_all(
                            l0,
                            new_block.transactions@,
                            deposit,
                        )->Ok_0
                        &&& final(self).blocks@ == old(self).blocks@.push(new_block)
                    },
                    Err(e) => {
                        &&& final(self).accounts@ == old(self).accounts@
                        &&& final(self).blocks@ == old(self).blocks@
                        &&& match e {
                            ChainError::ParentMismatch => !spec_parent_ok(tip, new_block),
                            ChainError::BlockTooOld => spec_parent_ok(tip, new_block),
                            ChainError::DifficultyNotMet => spec_parent_ok(tip, new_block)
                                && !spec_difficulty_ok(new_block, old(self).properties),
                            ChainError::TransactionFailed { index, transaction, cause } => {
                                &&& spec_parent_ok(tip, new_block)
                                &&& spec_difficulty_ok(new_block, old(self).properties)
                                &&& 0 <= index < new_block.transactions@.len()
                                &&& transaction == new_block.transactions@[index as int]
                                &&& spec_apply_all(l0, new_block.transactions@, deposit) == Err::<
                                    Seq<(Seq<u8>, u64)>,
                                    (int, ChainError),
                                >((index as int, *cause))
                            },
                            _ => false,
                        }
                    },
                }
            }),
            ({
                let tip = old(self).blocks@.last();
                let l0 = spec_balances(old(self).accounts@);
                let deposit = old(self).properties.existential_deposit;
                (spec_parent_ok(tip, new_block) && spec_difficulty_ok(new_block, old(self).properties)
                    && spec_apply_all(l0, new_block.transactions@, deposit) is Ok) ==> (r is Ok || r
                    == Err::<(), ChainError>(ChainError::BlockTooOld))
            }),
    {
        <ProofOfWork as Consensus>::add_new_block(self, new_block)
    }
}

} // verus!
