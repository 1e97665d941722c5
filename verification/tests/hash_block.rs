use suchain::block::Block;
use suchain::chain::Chain;
use suchain::chain::ChainProperties;
use suchain::consensus::ProofOfWork;
use suchain::origin::Origin;
use suchain::transaction::Operation;
use suchain::transaction::Transaction;

fn account(byte: u8) -> suchain::hash::Hash {
    suchain::hash::Hash::raw([byte; 32])
}

fn hash_from_hex(s: &str) -> suchain::hash::Hash {
    let bytes = hex::decode(s).unwrap();
    let mut raw = [0u8; 32];
    raw.copy_from_slice(&bytes);
    suchain::hash::Hash::raw(raw)
}

#[test]
fn digest_matches_sha3_256_known_answers() {
    // NIST SHA3-256 known-answer vectors: the digest really is SHA3-256 of
    // the input, not the input handed back or any other function of it.
    let abc = suchain::hash::Hash::new(b"abc");
    assert_eq!(
        abc,
        hash_from_hex("3a985da74fe225b2045c172d6bd390bd855f086e3e9d525b46bfe24511431532")
    );
    let empty = suchain::hash::Hash::new(b"");
    assert_eq!(
        empty,
        hash_from_hex("a7ffc6f8bf1ed76651c14756a061d662f580ff4de43b49fa82d80a4b80f8434a")
    );
}

#[test]
fn digest_is_deterministic() {
    let first = suchain::hash::Hash::new(b"same input");
    let second = suchain::hash::Hash::new(b"same input");
    assert_eq!(first, second);
    assert_ne!(first, suchain::hash::Hash::new(b"other input"));
}

#[test]
fn difficulty_predicate() {
    let all_zero = account(0);
    for level in 0..=32 {
        assert!(all_zero.difficulty_verified(level));
    }
    assert!(!all_zero.difficulty_verified(33));

    let mut raw = [0u8; 32];
    raw[2] = 1;
    let two_zeros = suchain::hash::Hash::raw(raw);
    assert!(two_zeros.difficulty_verified(0));
    assert!(two_zeros.difficulty_verified(1));
    assert!(two_zeros.difficulty_verified(2));
    assert!(!two_zeros.difficulty_verified(3));

    let no_zeros = account(9);
    assert!(no_zeros.difficulty_verified(0));
    assert!(!no_zeros.difficulty_verified(1));
}

#[test]
fn hash_equality_is_byte_equality() {
    assert_eq!(account(7), account(7));
    assert_ne!(account(7), account(8));
    let mut raw = [7u8; 32];
    raw[31] = 8;
    assert_ne!(account(7), suchain::hash::Hash::raw(raw));
}

fn test_block() -> Block {
    let properties = ChainProperties {
        existential_deposit: 50,
        difficulty: 0,
        time_tolerance: 10,
        consensus: ProofOfWork,
    };
    let chain = Chain::new(String::from("test chain"), properties, 1_000_000);
    Block::new(&chain)
}

#[test]
fn block_hash_deterministic() {
    let block = test_block();
    assert_eq!(block.get_hash(), block.get_hash());
}

#[test]
fn block_hash_changes_with_every_header_field() {
    let block = test_block();
    let base = block.get_hash();

    let mut changed = block.clone();
    changed.header.nonce += 1;
    assert_ne!(base, changed.get_hash());

    let mut changed = block.clone();
    changed.header.height += 1;
    assert_ne!(base, changed.get_hash());

    let mut changed = block.clone();
    changed.header.timestamp += 1;
    assert_ne!(base, changed.get_hash());

    let mut changed = block.clone();
    changed.header.parent_block = account(3);
    assert_ne!(base, changed.get_hash());
}

#[test]
fn block_hash_changes_with_transactions() {
    let block = test_block();
    let base = block.get_hash();

    let mut changed = block.clone();
    changed.transactions.push(Transaction {
        operation: Operation::Empty,
        initiator: Origin::Unsigned,
    });
    let with_empty = changed.get_hash();
    assert_ne!(base, with_empty);

    changed.transactions[0] = Transaction {
        operation: Operation::Airdrop { receiver: account(1), amount: 5 },
        initiator: Origin::Signed(account(1)),
    };
    assert_ne!(with_empty, changed.get_hash());
}

#[test]
fn origin_accessors() {
    let a = account(4);
    let signed = Origin::Signed(a);
    assert_eq!(signed.signed(), Some(&a));
    assert_eq!(signed.root(), None);
    assert_eq!(signed.unsigned(), None);
    assert_eq!(Origin::Root.signed(), None);
    assert_eq!(Origin::Root.root(), Some(()));
    assert_eq!(Origin::Unsigned.unsigned(), Some(()));
}

#[test]
fn authorization_table() {
    let a = account(1);
    let b = account(2);
    assert!(Operation::Empty.is_privilaged(&Origin::Root));
    assert!(Operation::Empty.is_privilaged(&Origin::Unsigned));
    assert!(Operation::Panic.is_privilaged(&Origin::Signed(a)));

    let destroy = Operation::DestroyAccount { account_id: a };
    assert!(destroy.is_privilaged(&Origin::Signed(a)));
    assert!(!destroy.is_privilaged(&Origin::Signed(b)));
    assert!(!destroy.is_privilaged(&Origin::Root));

    let transfer = Operation::TransferFund { sender: a, receiver: b, amount: 1 };
    assert!(transfer.is_privilaged(&Origin::Signed(a)));
    assert!(!transfer.is_privilaged(&Origin::Signed(b)));
    assert!(!transfer.is_privilaged(&Origin::Unsigned));

    let airdrop = Operation::Airdrop { receiver: b, amount: 1 };
    assert!(airdrop.is_privilaged(&Origin::Signed(b)));
    assert!(!airdrop.is_privilaged(&Origin::Signed(a)));
}
