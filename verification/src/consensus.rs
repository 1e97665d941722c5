//! The proof-of-work consensus engine: mining, block verification, and the
//! atomic commit of a block's transactions against the ledger.

use vstd::prelude::*;

use crate::block::Block;
use crate::block::spec_block_bytes_parts;
use crate::block::spec_block_hash;
use crate::chain::Chain;
use crate::chain::ChainProperties;
use crate::chain::clone_accounts;
use crate::chain::spec_balances;
use crate::chain::spec_execute;
use crate::hash::digest_of;
use crate::hash::spec_difficulty_verified;
use crate::transaction::ChainError;
use crate::transaction::Transaction;
use crate::transaction::TransactionResult;

verus! {

/// The proof-of-work consensus rule. Carries no state of its own: the chain's
/// properties hold the difficulty and the time tolerance it works with.
#[derive(Clone, Copy, Debug)]
pub struct ProofOfWork;

/// The candidate block references `last` as its parent.
pub open spec fn spec_parent_ok(last: Block, candidate: Block) -> bool {
    candidate.header.parent_block@ == spec_block_hash(last.header, last.transactions@)
}

/// Read at wall-clock time `now`, the candidate's timestamp is no older than
/// the tolerated age. A timestamp in the future is not "old".
pub open spec fn spec_age_ok(candidate: Block, properties: ChainProperties, now: u64) -> bool {
    now - candidate.header.timestamp <= properties.time_tolerance
}

/// The candidate's hash meets the configured difficulty.
pub open spec fn spec_difficulty_ok(candidate: Block, properties: ChainProperties) -> bool {
    spec_difficulty_verified(
        spec_block_hash(candidate.header, candidate.transactions@),
        properties.difficulty as int,
    )
}

/// The whole verification rule at wall-clock reading `now`: parent linkage,
/// then age, then difficulty. The checks are independent; the first failing
/// one names the error.
pub open spec fn spec_verify(
    last: Block,
    candidate: Block,
    properties: ChainProperties,
    now: u64,
) -> Result<(), ChainError> {
    if !spec_parent_ok(last, candidate) {
        Err(ChainError::ParentMismatch)
    } else if !spec_age_ok(candidate, properties, now) {
        Err(ChainError::BlockTooOld)
    } else if !spec_difficulty_ok(candidate, properties) {
        Err(ChainError::DifficultyNotMet)
    } else {
        Ok(())
    }
}

/// Whether a draft with parent `parent`, height `height` and transactions
/// `txs` mines successfully at timestamp `t` and nonce `n`.
pub open spec fn spec_mined_ok(
    parent: Seq<u8>,
    height: u64,
    txs: Seq<Transaction>,
    t: u64,
    n: u32,
    difficulty: usize,
) -> bool {
    spec_difficulty_verified(
        digest_of(spec_block_bytes_parts(parent, n, height, t, txs)),
        difficulty as int,
    )
}

/// Applying a block's transactions in order: the resulting ledger, or the
/// index of the first failing transaction together with its error.
pub open spec fn spec_apply_all(
    l: Seq<(Seq<u8>, u64)>,
    txs: Seq<Transaction>,
    deposit: u64,
) -> Result<Seq<(Seq<u8>, u64)>, (int, ChainError)>
    decreases txs.len(),
{
    if txs.len() == 0 {
        Ok(l)
    } else {
        match spec_execute(l, txs[0], deposit) {
            Ok(l2) => match spec_apply_all(l2, txs.drop_first(), deposit) {
                Ok(lf) => Ok(lf),
                Err(ie) => Err((ie.0 + 1, ie.1)),
            },
            Err(e) => Err((0int, e)),
        }
    }
}

/// Extending a successfully applied prefix by one transaction: the next
/// transaction's own outcome decides the prefix's outcome.
pub proof fn lemma_apply_all_take_succ(
    l: Seq<(Seq<u8>, u64)>,
    txs: Seq<Transaction>,
    deposit: u64,
    i: int,
)
    requires
        0 <= i < txs.len(),
        spec_apply_all(l, txs.take(i), deposit) is Ok,
    ensures
        ({
            let li = spec_apply_all(l, txs.take(i), deposit)->Ok_0;
            match spec_execute(li, txs[i], deposit) {
                Ok(l2) => spec_apply_all(l, txs.take(i + 1), deposit) == Ok::<
                    Seq<(Seq<u8>, u64)>,
                    (int, ChainError),
                >(l2),
                Err(e) => spec_apply_all(l, txs.take(i + 1), deposit) == Err::<
                    Seq<(Seq<u8>, u64)>,
                    (int, ChainError),
                >((i, e)),
            }
        }),
    decreases i,
{
    if i == 0 {
        assert(txs.take(0) =~= Seq::<Transaction>::empty());
        assert(txs.take(1).len() == 1);
        assert(txs.take(1)[0] == txs[0]);
        assert(txs.take(1).drop_first() =~= Seq::<Transaction>::empty());
        let li = spec_apply_all(l, txs.take(0), deposit)->Ok_0;
        assert(li == l);
        match spec_execute(l, txs[0], deposit) {
            Ok(l2) => {
                assert(spec_apply_all(l2, txs.take(1).drop_first(), deposit) == Ok::<
                    Seq<(Seq<u8>, u64)>,
                    (int, ChainError),
                >(l2));
                assert(spec_apply_all(l, txs.take(1), deposit) == Ok::<
                    Seq<(Seq<u8>, u64)>,
                    (int, ChainError),
                >(l2));
            },
            Err(e) => {
                assert(spec_apply_all(l, txs.take(1), deposit) == Err::<
                    Seq<(Seq<u8>, u64)>,
                    (int, ChainError),
                >((0int, e)));
            },
        }
    } else {
        let prefix = txs.take(i);
        let rest = txs.drop_first();
        assert(prefix.len() == i);
        assert(prefix[0] == txs[0]);
        assert(prefix.drop_first() =~= rest.take(i - 1));
        match spec_execute(l, txs[0], deposit) {
            Ok(l1) => {
                assert(spec_apply_all(l, prefix, deposit) == match spec_apply_all(
                    l1,
                    rest.take(i - 1),
                    deposit,
                ) {
                    Ok(lf) => Ok::<Seq<(Seq<u8>, u64)>, (int, ChainError)>(lf),
                    Err(ie) => Err::<Seq<(Seq<u8>, u64)>, (int, ChainError)>((ie.0 + 1, ie.1)),
                });
                let li = spec_apply_all(l, prefix, deposit)->Ok_0;
                assert(spec_apply_all(l1, rest.take(i - 1), deposit) == Ok::<
                    Seq<(Seq<u8>, u64)>,
                    (int, ChainError),
                >(li));
                lemma_apply_all_take_succ(l1, rest, deposit, i - 1);
                assert(rest[i - 1] == txs[i]);
                assert(txs.take(i + 1).len() == i + 1);
                assert(txs.take(i + 1)[0] == txs[0]);
                assert(txs.take(i + 1).drop_first() =~= rest.take(i));
                match spec_execute(li, txs[i], deposit) {
                    Ok(l2) => {
                        assert(spec_apply_all(l1, rest.take(i), deposit) == Ok::<
                            Seq<(Seq<u8>, u64)>,
                            (int, ChainError),
                        >(l2));
                        assert(spec_apply_all(l, txs.take(i + 1), deposit) == Ok::<
                            Seq<(Seq<u8>, u64)>,
                            (int, ChainError),
                        >(l2));
                    },
                    Err(e) => {
                        assert(spec_apply_all(l1, rest.take(i), deposit) == Err::<
                            Seq<(Seq<u8>, u64)>,
                            (int, ChainError),
                        >((i - 1, e)));
                        assert(spec_apply_all(l, txs.take(i + 1), deposit) == Err::<
                            Seq<(Seq<u8>, u64)>,
                            (int, ChainError),
                        >((i, e)));
                    },
                }
            },
            Err(e) => {
                assert(spec_apply_all(l, prefix, deposit) is Err);
            },
        }
    }
}

/// A prefix that already failed decides the whole block: the full
/// application fails at the same index with the same error.
pub proof fn lemma_apply_all_err_prefix(
    l: Seq<(Seq<u8>, u64)>,
    txs: Seq<Transaction>,
    deposit: u64,
    i: int,
)
    requires
        0 <= i <= txs.len(),
        spec_apply_all(l, txs.take(i), deposit) is Err,
    ensures
        spec_apply_all(l, txs, deposit) == spec_apply_all(l, txs.take(i), deposit),
    decreases i,
{
    if i == 0 {
        assert(txs.take(0) =~= Seq::<Transaction>::empty());
    } else {
        let prefix = txs.take(i);
        assert(prefix[0] == txs[0]);
        assert(prefix.drop_first() =~= txs.drop_first().take(i - 1));
        match spec_execute(l, txs[0], deposit) {
            Ok(l1) => {
                lemma_apply_all_err_prefix(l1, txs.drop_first(), deposit, i - 1);
            },
            Err(e) => {
            },
        }
    }
}

/// Conservation over whole blocks: a block made of successful `TransferFund`
/// operations leaves the sum of all account balances unchanged. (Airdrop and
/// destroy move value against the system account, so counting the system
/// account they conserve the sum as well: see
/// [`crate::chain::lemma_transfer_conserves_total`], which covers every
/// transfer they delegate to.)
pub proof fn lemma_transfer_block_conserves_total(
    l: Seq<(Seq<u8>, u64)>,
    txs: Seq<Transaction>,
    deposit: u64,
)
    requires
        spec_apply_all(l, txs, deposit) is Ok,
        forall|k: int| 0 <= k < txs.len() ==> txs[k].operation is TransferFund,
    ensures
        crate::chain::spec_total(spec_apply_all(l, txs, deposit)->Ok_0)
            == crate::chain::spec_total(l),
    decreases txs.len(),
{
    if txs.len() == 0 {
    } else {
        assert(txs[0].operation is TransferFund);
        match spec_execute(l, txs[0], deposit) {
            Ok(l1) => {
                let rest = txs.drop_first();
                match txs[0].operation {
                    crate::transaction::Operation::TransferFund { sender, receiver, amount } => {
                        crate::chain::lemma_transfer_conserves_total(
                            l,
                            sender@,
                            receiver@,
                            amount,
                            true,
                            deposit,
                        );
                    },
                    _ => {
                        assert(false);
                    },
                }
                assert(forall|k: int| 0 <= k < rest.len() ==> rest[k] == txs[k + 1]);
                lemma_transfer_block_conserves_total(l1, rest, deposit);
            },
            Err(e) => {
                assert(spec_apply_all(l, txs, deposit) is Err);
            },
        }
    }
}

/// The verification rule as a pure function of an explicit clock reading:
/// exactly [`spec_verify`]. Used by the clocked verifier, and directly by
/// anyone who wants the rule for a known reading.
pub fn verify_block_with_time(
    last_block: &Block,
    new_block: &Block,
    properties: &ChainProperties,
    now: u64,
) -> (r: TransactionResult)
    ensures
        r == spec_verify(*last_block, *new_block, *properties, now),
{
    let expected_parent_hash = last_block.get_hash();
    if !(new_block.header.parent_block == expected_parent_hash) {
        return Err(ChainError::ParentMismatch);
    }
    if new_block.header.timestamp <= now {
        let timestamp_difference = now - new_block.header.timestamp;
        if timestamp_difference > properties.time_tolerance {
            return Err(ChainError::BlockTooOld);
        }
    }
    let new_block_hash = new_block.get_hash();
    if !new_block_hash.difficulty_verified(properties.difficulty) {
        return Err(ChainError::DifficultyNotMet);
    }
    Ok(())
}

/// A consensus rule: how a draft block is mined, how a candidate block is
/// verified, and how a verified block is committed atomically.
pub trait Consensus {
    /// Mining. Re-anchors the draft's parent to the chain's current tip,
    /// then searches timestamps `[draft.timestamp, draft.timestamp +
    /// time_tolerance]` (outer, ascending) and the full nonce range (inner,
    /// ascending) for the first pair whose hash meets the difficulty; on
    /// success the draft carries that pair. An exhausted search is the hard
    /// failure `MiningExhausted`. The chain itself is never changed.
    fn prepare_block(chain: &mut Chain, new_block: &mut Block) -> (r: TransactionResult)
        requires
            old(chain).wf(),
        ensures
            *final(chain) == *old(chain),
            final(new_block).transactions@ == old(new_block).transactions@,
            final(new_block).header.height == old(new_block).header.height,
            final(new_block).header.parent_block@ == ({
                let tip = old(chain).blocks@.last();
                spec_block_hash(tip.header, tip.transactions@)
            }),
            ({
                let parent = final(new_block).header.parent_block@;
                let height = final(new_block).header.height;
                let txs = final(new_block).transactions@;
                let d = old(chain).properties.difficulty;
                let lower = old(new_block).header.timestamp;
                let upper: int = if lower + old(chain).properties.time_tolerance <= u64::MAX {
                    lower + old(chain).properties.time_tolerance
                } else {
                    u64::MAX as int
                };
                match r {
                    Ok(()) => {
                        let found_t = final(new_block).header.timestamp;
                        let found_n = final(new_block).header.nonce;
                        &&& lower <= found_t <= upper
                        &&& spec_mined_ok(parent, height, txs, found_t, found_n, d)
                        &&& forall|t: u64, n: u32|
                            lower <= t <= upper && (t < found_t || (t == found_t && n < found_n))
                                ==> !spec_mined_ok(parent, height, txs, t, n, d)
                    },
                    Err(e) => {
                        &&& e is MiningExhausted
                        &&& forall|t: u64, n: u32|
                            lower <= t <= upper ==> !spec_mined_ok(parent, height, txs, t, n, d)
                    },
                }
            }),
    ;

    /// Verification against the wall clock: parent linkage, then age at the
    /// moment of the call, then difficulty. The result is
    /// [`verify_block_with_time`]'s for whatever the clock returned; the
    /// clock-independent consequences are stated individually.
    fn verify_new_block(last_block: &Block, new_block: &Block, properties: &ChainProperties) -> (r:
        TransactionResult)
        ensures
            exists|now: u64| r == spec_verify(*last_block, *new_block, *properties, now),
            r == Err::<(), ChainError>(ChainError::ParentMismatch) <==> !spec_parent_ok(
                *last_block,
                *new_block,
            ),
            r is Ok ==> spec_parent_ok(*last_block, *new_block) && spec_difficulty_ok(
                *new_block,
                *properties,
            ),
            r == Err::<(), ChainError>(ChainError::BlockTooOld) ==> spec_parent_ok(
                *last_block,
                *new_block,
            ),
            r == Err::<(), ChainError>(ChainError::DifficultyNotMet) ==> spec_parent_ok(
                *last_block,
                *new_block,
            ) && !spec_difficulty_ok(*new_block, *properties),
            spec_parent_ok(*last_block, *new_block) && spec_difficulty_ok(*new_block, *properties)
                ==> (r is Ok || r == Err::<(), ChainError>(ChainError::BlockTooOld)),
            r matches Err(e) ==> (e is ParentMismatch || e is BlockTooOld
                || e is DifficultyNotMet),
    ;

    /// Commit. Re-verifies the candidate against the chain's *current* tip,
    /// snapshots the ledger, applies every transaction in order, and appends
    /// the block only on full success; on any failure the ledger snapshot is
    /// restored, so a rejected block leaves the chain exactly as it was.
    fn add_new_block(chain: &mut Chain, new_block: Block) -> (r: TransactionResult)
        requires
            old(chain).wf(),
        ensures
            final(chain).wf(),
            final(chain).properties == old(chain).properties,
            final(chain).chain_info == old(chain).chain_info,
            final(chain).system_account == old(chain).system_account,
            ({
                let tip = old(chain).blocks@.last();
                let l0 = spec_balances(old(chain).accounts@);
                let deposit = old(chain).properties.existential_deposit;
                match r {
                    Ok(()) => {
                        &&& spec_parent_ok(tip, new_block)
                        &&& spec_difficulty_ok(new_block, old(chain).properties)
                        &&& spec_apply_all(l0, new_block.transactions@, deposit) is Ok
                        &&& spec_balances(final(chain).accounts@) == spec_apply_all(
                            l0,
                            new_block.transactions@,
                            deposit,
                        )->Ok_0
                        &&& final(chain).blocks@ == old(chain).blocks@.push(new_block)
                    },
                    Err(e) => {
                        &&& final(chain).accounts@ == old(chain).accounts@
                        &&& final(chain).blocks@ == old(chain).blocks@
                        &&& match e {
                            ChainError::ParentMismatch => !spec_parent_ok(tip, new_block),
                            ChainError::BlockTooOld => spec_parent_ok(tip, new_block),
                            ChainError::DifficultyNotMet => spec_parent_ok(tip, new_block)
                                && !spec_difficulty_ok(new_block, old(chain).properties),
                            ChainError::TransactionFailed { index, transaction, cause } => {
                                &&& spec_parent_ok(tip, new_block)
                                &&& spec_difficulty_ok(new_block, old(chain).properties)
                                &&& 0 <= index < new_block.transactions@.len()
                                &&& transaction == new_block.transactions@[index as int]
                                &&& spec_apply_all(l0, new_block.transactions@, deposit) == Err::<
                                    Seq<(Seq<u8>, u64)>,
                                    (int, ChainError),
                                >((index as int, *cause))
                            },
                            _ => false,
                        }
                    },
                }
            }),
            ({
                let tip = old(chain).blocks@.last();
                let l0 = spec_balances(old(chain).accounts@);
                let deposit = old(chain).properties.existential_deposit;
                (spec_parent_ok(tip, new_block) && spec_difficulty_ok(
                    new_block,
                    old(chain).properties,
                ) && spec_apply_all(l0, new_block.transactions@, deposit) is Ok) ==> (r is Ok || r
                    == Err::<(), ChainError>(ChainError::BlockTooOld))
            }),
    ;
}

impl Consensus for ProofOfWork {
    #[verifier::loop_isolation(false)]
    fn prepare_block(chain: &mut Chain, new_block: &mut Block) -> (r: TransactionResult) {
        let difficulty = chain.properties.difficulty;
        let tolerance = chain.properties.time_tolerance;
        let latest_block_hash = chain.get_latest_block().get_hash();
        new_block.header.parent_block = latest_block_hash;
        let ghost parent = latest_block_hash@;
        let ghost height = new_block.header.height;
        let ghost txs = new_block.transactions@;
        let lower = new_block.header.timestamp;
        let upper = if lower <= u64::MAX - tolerance {
            lower + tolerance
        } else {
            u64::MAX
        };
        let mut t_cursor: u128 = lower as u128;
        while t_cursor <= upper as u128
            invariant
                lower as u128 <= t_cursor <= (upper as u128) + 1,
                new_block.header.parent_block@ == parent,
                new_block.header.height == height,
                new_block.transactions@ == txs,
                forall|t2: u64, n2: u32|
                    lower <= t2 && (t2 as u128) < t_cursor ==> !spec_mined_ok(
                        parent,
                        height,
                        txs,
                        t2,
                        n2,
                        difficulty,
                    ),
            decreases (upper as u128) + 1 - t_cursor,
        {
            let t = t_cursor as u64;
            new_block.header.timestamp = t;
            let mut n_cursor: u64 = 0;
            while n_cursor <= u32::MAX as u64
                invariant
                    0 <= n_cursor <= (u32::MAX as u64) + 1,
                    new_block.header.parent_block@ == parent,
                    new_block.header.height == height,
                    new_block.header.timestamp == t,
                    new_block.transactions@ == txs,
                    forall|n2: u32|
                        (n2 as u64) < n_cursor ==> !spec_mined_ok(
                            parent,
                            height,
                            txs,
                            t,
                            n2,
                            difficulty,
                        ),
                decreases (u32::MAX as u64) + 1 - n_cursor,
            {
                let n = n_cursor as u32;
                new_block.header.nonce = n;
                if new_block.get_hash().difficulty_verified(difficulty) {
                    return Ok(());
                }
                n_cursor = n_cursor + 1;
            }
            t_cursor = t_cursor + 1;
        }
        proof {
            assert forall|t2: u64, n2: u32| lower <= t2 <= upper implies !spec_mined_ok(
                parent,
                height,
                txs,
                t2,
                n2,
                difficulty,
            ) by {
                assert((t2 as u128) < t_cursor);
            }
        }
        Err(ChainError::MiningExhausted)
    }

    fn verify_new_block(last_block: &Block, new_block: &Block, properties: &ChainProperties) -> (r:
        TransactionResult) {
        let now = crate::current_timestamp();
        let r = verify_block_with_time(last_block, new_block, properties, now);
        proof {
            assert(r == spec_verify(*last_block, *new_block, *properties, now));
        }
        r
    }

    #[verifier::loop_isolation(false)]
    fn add_new_block(chain: &mut Chain, new_block: Block) -> (r: TransactionResult) {
        let verify_result = {
            let last_block = chain.get_latest_block();
            Self::verify_new_block(last_block, &new_block, &chain.properties)
        };
        match verify_result {
            Err(e) => {
                return Err(e);
            },
            Ok(()) => {},
        }
        let ghost l0 = spec_balances(chain.accounts@);
        let ghost deposit = chain.properties.existential_deposit;
        let ghost txs = new_block.transactions@;
        let old_accounts_state = clone_accounts(&chain.accounts);
        let transactions_count = new_block.transactions.len();
        let mut tx_index: usize = 0;
        while tx_index < transactions_count
            invariant
                0 <= tx_index <= txs.len(),
                chain.wf(),
                chain.blocks@ == old(chain).blocks@,
                chain.properties == old(chain).properties,
                chain.chain_info == old(chain).chain_info,
                chain.system_account == old(chain).system_account,
                spec_apply_all(l0, txs.take(tx_index as int), deposit) == Ok::<
                    Seq<(Seq<u8>, u64)>,
                    (int, ChainError),
                >(spec_balances(chain.accounts@)),
            decreases txs.len() - tx_index,
        {
            let transaction = new_block.transactions[tx_index];
            proof {
                lemma_apply_all_take_succ(l0, txs, deposit, tx_index as int);
            }
            let transaction_result = chain.execute(transaction);
            match transaction_result {
                Ok(()) => {
                    tx_index = tx_index + 1;
                },
                Err(tx_err) => {
                    proof {
                        lemma_apply_all_err_prefix(l0, txs, deposit, tx_index + 1 as int);
                    }
                    chain.accounts = old_accounts_state;
                    return Err(
                        ChainError::TransactionFailed {
                            index: tx_index,
                            transaction,
                            cause: Box::new(tx_err),
                        },
                    );
                },
            }
        }
        proof {
            assert(txs.take(txs.len() as int) =~= txs);
        }
        chain.blocks.push(new_block);
        Ok(())
    }
}

} // verus!
