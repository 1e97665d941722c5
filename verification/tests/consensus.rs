use suchain::block::Block;
use suchain::chain::Chain;
use suchain::chain::ChainProperties;
use suchain::consensus::Consensus;
use suchain::consensus::ProofOfWork;
use suchain::consensus::verify_block_with_time;
use suchain::origin::Origin;
use suchain::transaction::ChainError;
use suchain::transaction::Operation;
use suchain::transaction::Transaction;

fn test_chain(difficulty: usize, tolerance: u64) -> Chain {
    let properties = ChainProperties {
        existential_deposit: 50,
        difficulty,
        time_tolerance: tolerance,
        consensus: ProofOfWork,
    };
    Chain::new(String::from("test chain"), properties, 1_000_000)
}

fn account(byte: u8) -> suchain::hash::Hash {
    suchain::hash::Hash::raw([byte; 32])
}

fn balance_of(chain: &Chain, id: &suchain::hash::Hash) -> u64 {
    for (account_id, info) in chain.accounts.iter() {
        if account_id == id {
            return info.balance;
        }
    }
    0
}

#[test]
fn mining_with_difficulty_zero_takes_first_attempt() {
    // Difficulty 0 is vacuously met, so the very first (timestamp, nonce=0)
    // pair wins and the draft is untouched beyond re-anchoring.
    let mut chain = test_chain(0, 10);
    let mut block = Block::new(&chain);
    let drafted_timestamp = block.header.timestamp;
    let r = <ProofOfWork as Consensus>::prepare_block(&mut chain, &mut block);
    assert!(r.is_ok());
    assert_eq!(block.header.timestamp, drafted_timestamp);
    assert_eq!(block.header.nonce, 0);
    assert!(chain.add_block(block).is_ok());
    assert_eq!(chain.blocks.len(), 2);
}

#[test]
fn mining_with_difficulty_one_meets_it() {
    let mut chain = test_chain(1, 1_000);
    let mut block = Block::new(&chain);
    let r = <ProofOfWork as Consensus>::prepare_block(&mut chain, &mut block);
    assert!(r.is_ok());
    assert!(block.get_hash().difficulty_verified(1));
    assert!(chain.add_block(block).is_ok());
}

#[test]
fn stale_block_rejected() {
    // A correctly-mined block whose timestamp is 100 s old is rejected with
    // BlockTooOld under a 10 s tolerance, though it met the difficulty.
    let mut chain = test_chain(0, 10);
    let mut block = Block::new(&chain);
    block.header.timestamp = suchain::current_timestamp() - 100;
    let r = <ProofOfWork as Consensus>::prepare_block(&mut chain, &mut block);
    assert!(r.is_ok());
    let r = chain.add_block(block);
    assert!(matches!(r, Err(ChainError::BlockTooOld)));
    assert_eq!(chain.blocks.len(), 1);
}

#[test]
fn verification_rule_at_explicit_times() {
    let mut chain = test_chain(0, 10);
    let mut block = Block::new(&chain);
    let r = <ProofOfWork as Consensus>::prepare_block(&mut chain, &mut block);
    assert!(r.is_ok());
    let mined_at = block.header.timestamp;
    let tip = chain.get_latest_block();
    // Within tolerance: accepted.
    assert!(verify_block_with_time(tip, &block, &chain.properties, mined_at).is_ok());
    assert!(verify_block_with_time(tip, &block, &chain.properties, mined_at + 10).is_ok());
    // One second past the tolerance: too old.
    let r = verify_block_with_time(tip, &block, &chain.properties, mined_at + 11);
    assert!(matches!(r, Err(ChainError::BlockTooOld)));
    // A block "from the future" is not old.
    assert!(verify_block_with_time(tip, &block, &chain.properties, 0).is_ok());
}

#[test]
fn parent_mismatch_rejected() {
    let mut chain = test_chain(0, 10);
    let mut block = Block::new(&chain);
    let r = <ProofOfWork as Consensus>::prepare_block(&mut chain, &mut block);
    assert!(r.is_ok());
    block.header.parent_block = account(5);
    let r = chain.add_block(block);
    assert!(matches!(r, Err(ChainError::ParentMismatch)));
    assert_eq!(chain.blocks.len(), 1);
}

#[test]
fn unmined_block_rejected() {
    // Difficulty 32 (a fully zero hash) is never met by an honest draft.
    let mut chain = test_chain(32, 10);
    let block = Block::new(&chain);
    let r = chain.add_block(block);
    assert!(matches!(r, Err(ChainError::DifficultyNotMet)));
    assert_eq!(chain.blocks.len(), 1);
}

#[test]
fn block_commit_is_atomic() {
    // Transaction 1 of the block faults: the whole block is rolled back and
    // the ledger is exactly its pre-call state.
    let mut chain = test_chain(0, 100);
    let a = account(1);
    let b = account(2);
    chain.airdrop(a, 500).unwrap();
    let accounts_before = chain.accounts.clone();
    let blocks_before = chain.blocks.len();

    let good = Transaction {
        operation: Operation::TransferFund { sender: a, receiver: b, amount: 100 },
        initiator: Origin::Signed(a),
    };
    let fault = Transaction { operation: Operation::Panic, initiator: Origin::Unsigned };
    let r = Block::create_and_add(&mut chain, vec![good, fault]);
    match r {
        Err(ChainError::TransactionFailed { index, transaction, cause }) => {
            assert_eq!(index, 1);
            assert_eq!(transaction, fault);
            assert!(matches!(*cause, ChainError::OperationPanic));
        },
        other => panic!("expected a failed transaction, got {:?}", other),
    }
    assert_eq!(chain.accounts, accounts_before);
    assert_eq!(chain.blocks.len(), blocks_before);
}

#[test]
fn block_commit_failure_index_is_first() {
    // The reported index is the first failing transaction's.
    let mut chain = test_chain(0, 100);
    let a = account(1);
    let b = account(2);
    chain.airdrop(a, 500).unwrap();

    let empty = Transaction { operation: Operation::Empty, initiator: Origin::Unsigned };
    let bad = Transaction {
        operation: Operation::TransferFund { sender: b, receiver: a, amount: 10 },
        initiator: Origin::Signed(b),
    };
    let r = Block::create_and_add(&mut chain, vec![empty, empty, bad, empty]);
    match r {
        Err(ChainError::TransactionFailed { index, cause, .. }) => {
            assert_eq!(index, 2);
            assert!(matches!(*cause, ChainError::SenderNotFound));
        },
        other => panic!("expected a failed transaction, got {:?}", other),
    }
}

#[test]
fn committed_block_applies_all_transactions() {
    let mut chain = test_chain(0, 100);
    let a = account(1);
    let b = account(2);
    chain.airdrop(a, 500).unwrap();

    let t1 = Transaction {
        operation: Operation::TransferFund { sender: a, receiver: b, amount: 200 },
        initiator: Origin::Signed(a),
    };
    let t2 = Transaction {
        operation: Operation::TransferFund { sender: b, receiver: a, amount: 50 },
        initiator: Origin::Signed(b),
    };
    let r = Block::create_and_add(&mut chain, vec![t1, t2]);
    assert!(r.is_ok());
    assert_eq!(chain.blocks.len(), 2);
    assert_eq!(chain.blocks[1].transactions, vec![t1, t2]);
    assert_eq!(chain.blocks[1].header.height, 2);
    assert_eq!(balance_of(&chain, &a), 350);
    assert_eq!(balance_of(&chain, &b), 150);
}

#[test]
fn header_equality_ignores_timestamp() {
    let chain = test_chain(0, 10);
    let block = Block::new(&chain);
    let mut other = block.clone();
    other.header.timestamp = block.header.timestamp + 1;
    assert_eq!(block.header, other.header);
    other.header.nonce = 7;
    assert_ne!(block.header, other.header);
}

#[test]
fn timestamp_still_feeds_the_hash() {
    // Excluded from equality, the timestamp still changes the derived hash.
    let chain = test_chain(0, 10);
    let block = Block::new(&chain);
    let mut other = block.clone();
    other.header.timestamp = block.header.timestamp + 1;
    assert_eq!(block.header, other.header);
    assert_ne!(block.get_hash(), other.get_hash());
}
