//! Blocks, headers, and the canonical encoding from which a block's hash is
//! derived. The hash is never stored on the block: it is recomputed from the
//! content on every call, so it can never drift from it.

use vstd::prelude::*;

use vstd::bytes::lemma_auto_spec_u32_to_from_le_bytes;
use vstd::bytes::lemma_auto_spec_u64_to_from_le_bytes;
use vstd::bytes::spec_u32_from_le_bytes;
use vstd::bytes::spec_u32_to_le_bytes;
use vstd::bytes::spec_u64_from_le_bytes;
use vstd::bytes::spec_u64_to_le_bytes;
use vstd::bytes::u32_to_le_bytes;
use vstd::bytes::u64_to_le_bytes;

use crate::BlockNumber;
use crate::Nonce;
use crate::chain::Chain;
use crate::chain::spec_balances;
use crate::consensus::Consensus;
use crate::consensus::ProofOfWork;
use crate::consensus::spec_apply_all;
use crate::hash::HASH_LEN;
use crate::hash::digest_of;
use crate::origin::Origin;
use crate::transaction::Transaction;
use crate::transaction::TransactionResult;

verus! {

/// A block header. Identity (equality) is defined over `parent_block`,
/// `height` and `nonce` only: the timestamp is excluded from equality but
/// still feeds the derived hash value.
#[derive(Clone, Copy, Debug)]
pub struct BlockHeader {
    pub parent_block: crate::hash::Hash,
    pub nonce: Nonce,
    pub height: BlockNumber,
    pub timestamp: u64,
}

/// A header plus an ordered list of transactions.
#[derive(Clone, Debug, PartialEq)]
pub struct Block {
    pub header: BlockHeader,
    pub transactions: Vec<Transaction>,
}

impl PartialEq for BlockHeader {
    fn eq(&self, other: &Self) -> (r: bool) {
        self.parent_block == other.parent_block && self.height == other.height && self.nonce
            == other.nonce
    }
}

impl Eq for BlockHeader {
}

impl vstd::std_specs::cmp::PartialEqSpecImpl for BlockHeader {
    open spec fn obeys_eq_spec() -> bool {
        true
    }

    open spec fn eq_spec(&self, other: &BlockHeader) -> bool {
        self.parent_block@ == other.parent_block@ && self.height == other.height && self.nonce
            == other.nonce
    }
}

/// Canonical encoding of an origin: a tag byte, then the signer for `Signed`.
pub open spec fn spec_encode_origin(origin: Origin) -> Seq<u8> {
    match origin {
        Origin::Signed(account_id) => seq![0u8] + account_id@,
        Origin::Root => seq![1u8],
        Origin::Unsigned => seq![2u8],
    }
}

/// Canonical encoding of an operation: a tag byte, then its fields, account
/// identifiers as their bytes and amounts in little-endian.
pub open spec fn spec_encode_operation(operation: crate::transaction::Operation) -> Seq<u8> {
    match operation {
        crate::transaction::Operation::Empty => seq![0u8],
        crate::transaction::Operation::Panic => seq![1u8],
        crate::transaction::Operation::DestroyAccount { account_id } => seq![2u8] + account_id@,
        crate::transaction::Operation::TransferFund { sender, receiver, amount } => seq![3u8]
            + sender@ + receiver@ + spec_u64_to_le_bytes(amount),
        crate::transaction::Operation::Airdrop { receiver, amount } => seq![4u8] + receiver@
            + spec_u64_to_le_bytes(amount),
    }
}

/// Canonical encoding of a transaction: its operation, then its originator.
pub open spec fn spec_encode_transaction(t: Transaction) -> Seq<u8> {
    spec_encode_operation(t.operation) + spec_encode_origin(t.initiator)
}

/// Canonical encoding of a transaction list, in order.
pub open spec fn spec_encode_transactions(txs: Seq<Transaction>) -> Seq<u8>
    decreases txs.len(),
{
    if txs.len() == 0 {
        Seq::empty()
    } else {
        spec_encode_transactions(txs.drop_last()) + spec_encode_transaction(txs.last())
    }
}

/// Canonical encoding of a header given its fields: parent digest, nonce,
/// height, timestamp.
pub open spec fn spec_header_bytes_parts(
    parent: Seq<u8>,
    nonce: Nonce,
    height: BlockNumber,
    timestamp: u64,
) -> Seq<u8> {
    parent + spec_u32_to_le_bytes(nonce) + spec_u64_to_le_bytes(height) + spec_u64_to_le_bytes(
        timestamp,
    )
}

/// Canonical encoding of a header: parent digest, nonce, height, timestamp.
pub open spec fn spec_header_bytes(header: BlockHeader) -> Seq<u8> {
    spec_header_bytes_parts(
        header.parent_block@,
        header.nonce,
        header.height,
        header.timestamp,
    )
}

/// Canonical encoding of a whole block given its fields.
pub open spec fn spec_block_bytes_parts(
    parent: Seq<u8>,
    nonce: Nonce,
    height: BlockNumber,
    timestamp: u64,
    txs: Seq<Transaction>,
) -> Seq<u8> {
    spec_header_bytes_parts(parent, nonce, height, timestamp) + spec_u64_to_le_bytes(
        txs.len() as u64,
    ) + spec_encode_transactions(txs)
}

/// Canonical encoding of a whole block: the header, the transaction count,
/// then each transaction in order. Two blocks with equal field values
/// serialize identically.
pub open spec fn spec_block_bytes(header: BlockHeader, txs: Seq<Transaction>) -> Seq<u8> {
    spec_block_bytes_parts(
        header.parent_block@,
        header.nonce,
        header.height,
        header.timestamp,
        txs,
    )
}

/// A block's hash: the digest of its canonical encoding. A deterministic
/// function of the block's content, so hashing the same block twice always
/// gives the same value.
pub open spec fn spec_block_hash(header: BlockHeader, txs: Seq<Transaction>) -> Seq<u8> {
    digest_of(spec_block_bytes(header, txs))
}

/// Appends `h`'s bytes to `out`.
fn append_hash(out: &mut Vec<u8>, h: &crate::hash::Hash)
    ensures
        final(out)@ == old(out)@ + h@,
{
    let mut bytes = h.to_vec();
    out.append(&mut bytes);
}

/// Appends the little-endian bytes of `x` to `out`.
fn append_u64(out: &mut Vec<u8>, x: u64)
    ensures
        final(out)@ == old(out)@ + spec_u64_to_le_bytes(x),
{
    let mut bytes = u64_to_le_bytes(x);
    out.append(&mut bytes);
}

/// Canonical encoding of one transaction.
fn encode_transaction(t: &Transaction) -> (v: Vec<u8>)
    ensures
        v@ == spec_encode_transaction(*t),
{
    let mut v: Vec<u8> = Vec::new();
    match &t.operation {
        crate::transaction::Operation::Empty => {
            v.push(0u8);
        },
        crate::transaction::Operation::Panic => {
            v.push(1u8);
        },
        crate::transaction::Operation::DestroyAccount { account_id } => {
            v.push(2u8);
            append_hash(&mut v, account_id);
        },
        crate::transaction::Operation::TransferFund { sender, receiver, amount } => {
            v.push(3u8);
            append_hash(&mut v, sender);
            append_hash(&mut v, receiver);
            append_u64(&mut v, *amount);
        },
        crate::transaction::Operation::Airdrop { receiver, amount } => {
            v.push(4u8);
            append_hash(&mut v, receiver);
            append_u64(&mut v, *amount);
        },
    }
    proof {
        assert(v@ =~= spec_encode_operation(t.operation));
    }
    match &t.initiator {
        Origin::Signed(account_id) => {
            v.push(0u8);
            append_hash(&mut v, account_id);
        },
        Origin::Root => {
            v.push(1u8);
        },
        Origin::Unsigned => {
            v.push(2u8);
        },
    }
    proof {
        assert(v@ =~= spec_encode_transaction(*t));
    }
    v
}

impl Block {
    /// Canonical encoding of this block, fed to the hash primitive.
    fn block_bytes(&self) -> (v: Vec<u8>)
        ensures
            v@ == spec_block_bytes(self.header, self.transactions@),
    {
        let mut v: Vec<u8> = Vec::new();
        append_hash(&mut v, &self.header.parent_block);
        let mut nonce_bytes = u32_to_le_bytes(self.header.nonce);
        v.append(&mut nonce_bytes);
        append_u64(&mut v, self.header.height);
        append_u64(&mut v, self.header.timestamp);
        proof {
            assert(v@ =~= spec_header_bytes(self.header));
        }
        append_u64(&mut v, self.transactions.len() as u64);
        let ghost header_and_count = v@;
        let mut i: usize = 0;
        while i < self.transactions.len()
            invariant
                0 <= i <= self.transactions@.len(),
                v@ == header_and_count + spec_encode_transactions(self.transactions@.take(i as int)),
            decreases self.transactions@.len() - i,
        {
            let mut tx_bytes = encode_transaction(&self.transactions[i]);
            v.append(&mut tx_bytes);
            proof {
                let txs = self.transactions@;
                assert(txs.take(i + 1 as int).drop_last() =~= txs.take(i as int));
                assert(txs.take(i + 1 as int).last() == txs[i as int]);
                assert(v@ =~= header_and_count + spec_encode_transactions(txs.take(i + 1 as int)));
            }
            i = i + 1;
        }
        proof {
            assert(self.transactions@.take(self.transactions@.len() as int)
                =~= self.transactions@);
            assert(v@ =~= spec_block_bytes(self.header, self.transactions@));
        }
        v
    }

    /// Recomputes the digest over the canonical encoding of the full block.
    /// Never cached: mutating the nonce or timestamp and re-hashing is the
    /// core mining primitive.
    pub fn get_hash(&self) -> (h: crate::hash::Hash)
        ensures
            h@ == spec_block_hash(self.header, self.transactions@),
    {
        let bytes = self.block_bytes();
        crate::hash::Hash::new(bytes.as_slice())
    }

    /// A draft block on top of the chain's current tip: parent is the tip's
    /// hash, height is one above the tip's, nonce 0, no transactions yet,
    /// stamped with the current wall-clock time.
    pub fn new(chain: &Chain) -> (b: Block)
        requires
            chain.wf(),
            chain.blocks@.last().header.height < u64::MAX,
        ensures
            b.header.parent_block@ == spec_block_hash(
                chain.blocks@.last().header,
                chain.blocks@.last().transactions@,
            ),
            b.header.height == chain.blocks@.last().header.height + 1,
            b.header.nonce == 0u32,
            b.transactions@.len() == 0,
    {
        let parent_block = chain.get_latest_block();
        let parent_hash = parent_block.get_hash();
        let height = parent_block.header.height + 1;
        Block {
            header: BlockHeader {
                parent_block: parent_hash,
                nonce: 0u32,
                height,
                timestamp: crate::current_timestamp(),
            },
            transactions: Vec::new(),
        }
    }

    /// Drafts a block carrying `transactions` on the current tip, mines it,
    /// and commits it: the one-call path from a batch of transactions to an
    /// appended block. Any failure leaves the ledger and the chain as they
    /// were.
    pub fn create_and_add(chain: &mut Chain, transactions: Vec<Transaction>) -> (r:
        TransactionResult)
        requires
            old(chain).wf(),
            old(chain).blocks@.last().header.height < u64::MAX,
        ensures
            final(chain).wf(),
            final(chain).properties == old(chain).properties,
            final(chain).chain_info == old(chain).chain_info,
            final(chain).system_account == old(chain).system_account,
            ({
                let l0 = spec_balances(old(chain).accounts@);
                let deposit = old(chain).properties.existential_deposit;
                match r {
                    Ok(()) => {
                        &&& final(chain).blocks@.len() == old(chain).blocks@.len() + 1
                        &&& final(chain).blocks@.last().transactions@ == transactions@
                        &&& spec_apply_all(l0, transactions@, deposit) is Ok
                        &&& spec_balances(final(chain).accounts@) == spec_apply_all(
                            l0,
                            transactions@,
                            deposit,
                        )->Ok_0
                    },
                    Err(e) => {
                        &&& final(chain).accounts@ == old(chain).accounts@
                        &&& final(chain).blocks@ == old(chain).blocks@
                    },
                }
            }),
    {
        let mut new_block = Self::new(chain);
        new_block.transactions = transactions;
        let prepared = <ProofOfWork as Consensus>::prepare_block(chain, &mut new_block);
        match prepared {
            Err(e) => {
                return Err(e);
            },
            Ok(()) => {},
        }
        chain.add_block(new_block)
    }

    /// The genesis block: height 1, all-zero parent digest, nonce 0, no
    /// transactions, stamped with the current wall-clock time.
    pub fn get_genesis() -> (b: Block)
        ensures
            b.header.parent_block@ == Seq::new(HASH_LEN as nat, |i: int| 0u8),
            b.header.nonce == 0u32,
            b.header.height == 1u64,
            b.transactions@.len() == 0,
    {
        let parent_hash = crate::hash::Hash::raw([0u8; HASH_LEN]);
        proof {
            assert(parent_hash@ =~= Seq::new(HASH_LEN as nat, |i: int| 0u8));
        }
        Block {
            header: BlockHeader {
                parent_block: parent_hash,
                nonce: 0u32,
                height: 1u64,
                timestamp: crate::current_timestamp(),
            },
            transactions: Vec::new(),
        }
    }
}

/// Equality of transaction content as the contracts see it: same operation
/// with the same fields (identifiers compared by their bytes) and the same
/// originator.
pub open spec fn spec_transaction_content_eq(a: Transaction, b: Transaction) -> bool {
    &&& match (a.operation, b.operation) {
        (crate::transaction::Operation::Empty, crate::transaction::Operation::Empty) => true,
        (crate::transaction::Operation::Panic, crate::transaction::Operation::Panic) => true,
        (
            crate::transaction::Operation::DestroyAccount { account_id: x },
            crate::transaction::Operation::DestroyAccount { account_id: y },
        ) => x@ == y@,
        (
            crate::transaction::Operation::TransferFund {
                sender: s1,
                receiver: r1,
                amount: a1,
            },
            crate::transaction::Operation::TransferFund {
                sender: s2,
                receiver: r2,
                amount: a2,
            },
        ) => s1@ == s2@ && r1@ == r2@ && a1 == a2,
        (
            crate::transaction::Operation::Airdrop { receiver: r1, amount: a1 },
            crate::transaction::Operation::Airdrop { receiver: r2, amount: a2 },
        ) => r1@ == r2@ && a1 == a2,
        _ => false,
    }
    &&& match (a.initiator, b.initiator) {
        (Origin::Signed(x), Origin::Signed(y)) => x@ == y@,
        (Origin::Root, Origin::Root) => true,
        (Origin::Unsigned, Origin::Unsigned) => true,
        _ => false,
    }
}

/// Appending the same tail to two equally long byte strings keeps them
/// distinguishable: the fronts can be recovered.
proof fn lemma_append_cancel_right(a: Seq<u8>, b: Seq<u8>, c: Seq<u8>)
    requires
        a.len() == b.len(),
        a + c == b + c,
    ensures
        a == b,
{
    assert forall|i: int| 0 <= i < a.len() implies a[i] == b[i] by {
        assert((a + c)[i] == a[i]);
        assert((b + c)[i] == b[i]);
    }
    assert(a =~= b);
}

/// Two equal prefixes of one byte string of the same length are equal.
proof fn lemma_prefix_eq(a: Seq<u8>, x: Seq<u8>, b: Seq<u8>, y: Seq<u8>)
    requires
        a.len() == b.len(),
        a + x == b + y,
    ensures
        a == b,
        x == y,
{
    assert forall|i: int| 0 <= i < a.len() implies a[i] == b[i] by {
        assert((a + x)[i] == a[i]);
        assert((b + y)[i] == b[i]);
    }
    assert(a =~= b);
    assert((a + x).len() == a.len() + x.len());
    assert((b + y).len() == b.len() + y.len());
    assert(x.len() == y.len());
    assert forall|i: int| 0 <= i < x.len() implies x[i] == y[i] by {
        assert((a + x)[a.len() + i] == x[i]);
        assert((b + y)[b.len() + i] == y[i]);
    }
    assert(x =~= y);
}

/// The encoding of one transaction determines its content: two transactions
/// that encode to the same bytes agree on the operation, all its fields, and
/// the originator. Contrapositively, changing anything about a transaction
/// changes its encoding.
pub proof fn lemma_encode_transaction_injective(a: Transaction, b: Transaction)
    requires
        spec_encode_transaction(a) == spec_encode_transaction(b),
    ensures
        spec_transaction_content_eq(a, b),
{
    let oa = spec_encode_operation(a.operation);
    let ob = spec_encode_operation(b.operation);
    let ga = spec_encode_origin(a.initiator);
    let gb = spec_encode_origin(b.initiator);
    match a.operation {
        crate::transaction::Operation::Empty => {},
        crate::transaction::Operation::Panic => {},
        crate::transaction::Operation::DestroyAccount { account_id } => {
            crate::hash::lemma_hash_len(account_id);
        },
        crate::transaction::Operation::TransferFund { sender, receiver, amount } => {
            crate::hash::lemma_hash_len(sender);
            crate::hash::lemma_hash_len(receiver);
            vstd::bytes::lemma_auto_spec_u64_to_from_le_bytes();
        },
        crate::transaction::Operation::Airdrop { receiver, amount } => {
            crate::hash::lemma_hash_len(receiver);
            vstd::bytes::lemma_auto_spec_u64_to_from_le_bytes();
        },
    }
    match b.operation {
        crate::transaction::Operation::Empty => {},
        crate::transaction::Operation::Panic => {},
        crate::transaction::Operation::DestroyAccount { account_id } => {
            crate::hash::lemma_hash_len(account_id);
        },
        crate::transaction::Operation::TransferFund { sender, receiver, amount } => {
            crate::hash::lemma_hash_len(sender);
            crate::hash::lemma_hash_len(receiver);
            vstd::bytes::lemma_auto_spec_u64_to_from_le_bytes();
        },
        crate::transaction::Operation::Airdrop { receiver, amount } => {
            crate::hash::lemma_hash_len(receiver);
            vstd::bytes::lemma_auto_spec_u64_to_from_le_bytes();
        },
    }
    // The first byte is the operation tag, so the variants agree; the tag
    // then fixes the operation encoding's length, so the two concatenations
    // split identically.
    assert((oa + ga)[0] == oa[0]);
    assert((ob + gb)[0] == ob[0]);
    assert(oa[0] == ob[0]);
    assert(oa.len() == ob.len());
    lemma_prefix_eq(oa, ga, ob, gb);
    // Same operation encoding: recover the fields byte by byte.
    match (a.operation, b.operation) {
        (
            crate::transaction::Operation::DestroyAccount { account_id: x },
            crate::transaction::Operation::DestroyAccount { account_id: y },
        ) => {
            assert forall|i: int| 0 <= i < 32 implies x@[i] == y@[i] by {
                assert(oa[1 + i] == x@[i]);
                assert(ob[1 + i] == y@[i]);
            }
            assert(x@ =~= y@);
        },
        (
            crate::transaction::Operation::TransferFund {
                sender: s1,
                receiver: r1,
                amount: a1,
            },
            crate::transaction::Operation::TransferFund {
                sender: s2,
                receiver: r2,
                amount: a2,
            },
        ) => {
            assert forall|i: int| 0 <= i < 32 implies s1@[i] == s2@[i] && r1@[i] == r2@[i] by {
                assert(oa[1 + i] == s1@[i]);
                assert(ob[1 + i] == s2@[i]);
                assert(oa[33 + i] == r1@[i]);
                assert(ob[33 + i] == r2@[i]);
            }
            assert(s1@ =~= s2@);
            assert(r1@ =~= r2@);
            assert forall|i: int| 0 <= i < 8 implies spec_u64_to_le_bytes(a1)[i]
                == spec_u64_to_le_bytes(a2)[i] by {
                assert(oa[65 + i] == spec_u64_to_le_bytes(a1)[i]);
                assert(ob[65 + i] == spec_u64_to_le_bytes(a2)[i]);
            }
            assert(spec_u64_to_le_bytes(a1) =~= spec_u64_to_le_bytes(a2));
            assert(a1 == spec_u64_from_le_bytes(spec_u64_to_le_bytes(a1)));
        },
        (
            crate::transaction::Operation::Airdrop { receiver: r1, amount: a1 },
            crate::transaction::Operation::Airdrop { receiver: r2, amount: a2 },
        ) => {
            assert forall|i: int| 0 <= i < 32 implies r1@[i] == r2@[i] by {
                assert(oa[1 + i] == r1@[i]);
                assert(ob[1 + i] == r2@[i]);
            }
            assert(r1@ =~= r2@);
            assert forall|i: int| 0 <= i < 8 implies spec_u64_to_le_bytes(a1)[i]
                == spec_u64_to_le_bytes(a2)[i] by {
                assert(oa[33 + i] == spec_u64_to_le_bytes(a1)[i]);
                assert(ob[33 + i] == spec_u64_to_le_bytes(a2)[i]);
            }
            assert(spec_u64_to_le_bytes(a1) =~= spec_u64_to_le_bytes(a2));
            assert(a1 == spec_u64_from_le_bytes(spec_u64_to_le_bytes(a1)));
        },
        _ => {},
    }
    // Same origin encoding: the tag byte fixes the variant, the rest is the
    // signer.
    assert(ga[0] == gb[0]);
    match (a.initiator, b.initiator) {
        (Origin::Signed(x), Origin::Signed(y)) => {
            crate::hash::lemma_hash_len(x);
            crate::hash::lemma_hash_len(y);
            assert forall|i: int| 0 <= i < 32 implies x@[i] == y@[i] by {
                assert(ga[1 + i] == x@[i]);
                assert(gb[1 + i] == y@[i]);
            }
            assert(x@ =~= y@);
        },
        _ => {},
    }
}

/// Replacing one transaction of a list with one that encodes differently
/// changes the encoding of the whole list.
proof fn lemma_encode_transactions_update(txs: Seq<Transaction>, k: int, replacement: Transaction)
    requires
        0 <= k < txs.len(),
        spec_encode_transaction(txs[k]) != spec_encode_transaction(replacement),
    ensures
        spec_encode_transactions(txs) != spec_encode_transactions(txs.update(k, replacement)),
    decreases txs.len(),
{
    let updated = txs.update(k, replacement);
    if k == txs.len() - 1 {
        assert(updated.drop_last() =~= txs.drop_last());
        assert(updated.last() == replacement);
        let e = spec_encode_transactions(txs.drop_last());
        let old_tail = spec_encode_transaction(txs.last());
        let new_tail = spec_encode_transaction(replacement);
        if e + old_tail == e + new_tail {
            assert((e + old_tail).len() == e.len() + old_tail.len());
            assert((e + new_tail).len() == e.len() + new_tail.len());
            lemma_prefix_eq(e, old_tail, e, new_tail);
        }
    } else {
        assert(updated.drop_last() =~= txs.drop_last().update(k, replacement));
        assert(updated.last() == txs.last());
        assert(txs.drop_last()[k] == txs[k]);
        lemma_encode_transactions_update(txs.drop_last(), k, replacement);
        let e1 = spec_encode_transactions(txs.drop_last());
        let e2 = spec_encode_transactions(txs.drop_last().update(k, replacement));
        let tail = spec_encode_transaction(txs.last());
        if e1 + tail == e2 + tail {
            assert((e1 + tail).len() == e1.len() + tail.len());
            assert((e2 + tail).len() == e2.len() + tail.len());
            lemma_append_cancel_right(e1, e2, tail);
        }
    }
}

/// The canonical encoding respects the transactions: replacing any one
/// transaction of a block with one of different content (different operation,
/// field, or originator) changes the block's encoding, and so changes the
/// input to the hash primitive.
pub proof fn lemma_block_bytes_reflects_transaction_change(
    header: BlockHeader,
    txs: Seq<Transaction>,
    k: int,
    replacement: Transaction,
)
    requires
        0 <= k < txs.len(),
        !spec_transaction_content_eq(txs[k], replacement),
    ensures
        spec_block_bytes(header, txs) != spec_block_bytes(header, txs.update(k, replacement)),
{
    if spec_encode_transaction(txs[k]) == spec_encode_transaction(replacement) {
        lemma_encode_transaction_injective(txs[k], replacement);
    }
    lemma_encode_transactions_update(txs, k, replacement);
    let updated = txs.update(k, replacement);
    let front = spec_header_bytes(header) + spec_u64_to_le_bytes(txs.len() as u64);
    assert(spec_block_bytes(header, txs) =~= front + spec_encode_transactions(txs));
    assert(spec_block_bytes(header, updated) =~= front + spec_encode_transactions(updated));
    if front + spec_encode_transactions(txs) == front + spec_encode_transactions(updated) {
        lemma_prefix_eq(
            front,
            spec_encode_transactions(txs),
            front,
            spec_encode_transactions(updated),
        );
    }
}

/// The canonical encoding respects the header: two blocks that encode to the
/// same bytes carry the same parent digest, nonce, height, timestamp, and
/// transaction count. Contrapositively, changing any header field (or the
/// number of transactions) changes the encoding, and so changes the input to
/// the hash primitive.
pub proof fn lemma_block_bytes_reflects_header(
    h1: BlockHeader,
    t1: Seq<Transaction>,
    h2: BlockHeader,
    t2: Seq<Transaction>,
)
    requires
        t1.len() <= u64::MAX,
        t2.len() <= u64::MAX,
        spec_block_bytes(h1, t1) == spec_block_bytes(h2, t2),
    ensures
        h1.parent_block@ == h2.parent_block@,
        h1.nonce == h2.nonce,
        h1.height == h2.height,
        h1.timestamp == h2.timestamp,
        t1.len() == t2.len(),
{
    crate::hash::lemma_hash_len(h1.parent_block);
    crate::hash::lemma_hash_len(h2.parent_block);
    lemma_auto_spec_u32_to_from_le_bytes();
    lemma_auto_spec_u64_to_from_le_bytes();
    let b1 = spec_block_bytes(h1, t1);
    let b2 = spec_block_bytes(h2, t2);
    assert(b1.subrange(0, 32) =~= h1.parent_block@);
    assert(b2.subrange(0, 32) =~= h2.parent_block@);
    assert(b1.subrange(32, 36) =~= spec_u32_to_le_bytes(h1.nonce));
    assert(b2.subrange(32, 36) =~= spec_u32_to_le_bytes(h2.nonce));
    assert(b1.subrange(36, 44) =~= spec_u64_to_le_bytes(h1.height));
    assert(b2.subrange(36, 44) =~= spec_u64_to_le_bytes(h2.height));
    assert(b1.subrange(44, 52) =~= spec_u64_to_le_bytes(h1.timestamp));
    assert(b2.subrange(44, 52) =~= spec_u64_to_le_bytes(h2.timestamp));
    assert(b1.subrange(52, 60) =~= spec_u64_to_le_bytes(t1.len() as u64));
    assert(b2.subrange(52, 60) =~= spec_u64_to_le_bytes(t2.len() as u64));
    assert(h1.nonce == spec_u32_from_le_bytes(spec_u32_to_le_bytes(h1.nonce)));
    assert(h1.height == spec_u64_from_le_bytes(spec_u64_to_le_bytes(h1.height)));
    assert(h1.timestamp == spec_u64_from_le_bytes(spec_u64_to_le_bytes(h1.timestamp)));
    assert(t1.len() as u64 == spec_u64_from_le_bytes(spec_u64_to_le_bytes(t1.len() as u64)));
}

} // verus!
