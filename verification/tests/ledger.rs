use suchain::chain::AccountInfo;
use suchain::chain::Chain;
use suchain::chain::ChainProperties;
use suchain::consensus::ProofOfWork;
use suchain::origin::Origin;
use suchain::transaction::ChainError;
use suchain::transaction::Operation;
use suchain::transaction::Transaction;

fn test_chain(deposit: u64, allowance: u64) -> Chain {
    let properties = ChainProperties {
        existential_deposit: deposit,
        difficulty: 0,
        time_tolerance: 100,
        consensus: ProofOfWork,
    };
    Chain::new(String::from("test chain"), properties, allowance)
}

fn account(byte: u8) -> suchain::hash::Hash {
    suchain::hash::Hash::raw([byte; 32])
}

fn system_id() -> suchain::hash::Hash {
    suchain::hash::Hash::raw([0xFF; 32])
}

fn balance_of(chain: &Chain, id: &suchain::hash::Hash) -> u64 {
    for (account_id, info) in chain.accounts.iter() {
        if account_id == id {
            return info.balance;
        }
    }
    0
}

fn total_supply(chain: &Chain) -> u128 {
    let mut total: u128 = 0;
    for (_, info) in chain.accounts.iter() {
        total += info.balance as u128;
    }
    total
}

#[test]
fn genesis_chain_state() {
    let chain = test_chain(50, 1_000_000);
    assert_eq!(chain.blocks.len(), 1);
    assert_eq!(chain.blocks[0].header.height, 1);
    assert_eq!(chain.blocks[0].header.nonce, 0);
    assert_eq!(chain.blocks[0].header.parent_block, account(0));
    assert!(chain.blocks[0].transactions.is_empty());
    assert_eq!(chain.accounts.len(), 1);
    assert_eq!(balance_of(&chain, &system_id()), 1_000_000);
}

#[test]
fn default_account_info_is_zero() {
    let info = AccountInfo::default();
    assert_eq!(info.balance, 0);
}

#[test]
fn genesis_airdrop_scenario() {
    // New chain with existential_deposit = 50 and a 1,000,000 allowance:
    // an airdrop of 100 to A must be signed by A, and moves the allowance.
    let mut chain = test_chain(50, 1_000_000);
    let a = account(1);
    let b = account(2);

    let unauthorized = Transaction {
        operation: Operation::Airdrop { receiver: a, amount: 100 },
        initiator: Origin::Signed(b),
    };
    let r = chain.execute(unauthorized);
    assert!(matches!(r, Err(ChainError::Unauthorized)));
    assert_eq!(balance_of(&chain, &a), 0);

    let authorized = Transaction {
        operation: Operation::Airdrop { receiver: a, amount: 100 },
        initiator: Origin::Signed(a),
    };
    let r = chain.execute(authorized);
    assert!(r.is_ok());
    assert_eq!(balance_of(&chain, &a), 100);
    assert_eq!(balance_of(&chain, &system_id()), 999_900);
}

#[test]
fn destroy_drains_fully() {
    // Account A with balance 100 and existential_deposit = 50: destroying A
    // zeroes it and credits the system account with the full 100.
    let mut chain = test_chain(50, 1_000_000);
    let a = account(1);
    chain.airdrop(a, 100).unwrap();
    assert_eq!(balance_of(&chain, &a), 100);
    let system_before = balance_of(&chain, &system_id());

    let destroy = Transaction {
        operation: Operation::DestroyAccount { account_id: a },
        initiator: Origin::Signed(a),
    };
    let r = chain.execute(destroy);
    assert!(r.is_ok());
    assert_eq!(balance_of(&chain, &a), 0);
    assert_eq!(balance_of(&chain, &system_id()), system_before + 100);
}

#[test]
fn destroy_unknown_account_fails() {
    let mut chain = test_chain(50, 1_000_000);
    let a = account(1);
    let destroy = Transaction {
        operation: Operation::DestroyAccount { account_id: a },
        initiator: Origin::Signed(a),
    };
    let r = chain.execute(destroy);
    assert!(matches!(r, Err(ChainError::AccountNotFound)));
}

#[test]
fn deposit_boundary_exactly_at_deposit_succeeds() {
    // Sender left exactly at the existential deposit: allowed.
    let mut chain = test_chain(50, 1_000_000);
    let a = account(1);
    let b = account(2);
    chain.airdrop(a, 150).unwrap();
    let r = chain.transfer_fund(a, b, 100, true);
    assert!(r.is_ok());
    assert_eq!(balance_of(&chain, &a), 50);
    assert_eq!(balance_of(&chain, &b), 100);
}

#[test]
fn deposit_boundary_one_below_fails() {
    // Sender left one unit below the deposit: rejected, nothing moves.
    let mut chain = test_chain(50, 1_000_000);
    let a = account(1);
    let b = account(2);
    chain.airdrop(a, 150).unwrap();
    let r = chain.transfer_fund(a, b, 101, true);
    assert!(matches!(r, Err(ChainError::CannotKillSender)));
    assert_eq!(balance_of(&chain, &a), 150);
    assert_eq!(balance_of(&chain, &b), 0);
}

#[test]
fn transfer_errors_in_order() {
    let mut chain = test_chain(50, 1_000_000);
    let a = account(1);
    let b = account(2);

    // Sender without a ledger entry.
    let r = chain.transfer_fund(a, b, 10, true);
    assert!(matches!(r, Err(ChainError::SenderNotFound)));

    chain.airdrop(a, 100).unwrap();

    // Sender balance below the amount.
    let r = chain.transfer_fund(a, b, 101, true);
    assert!(matches!(r, Err(ChainError::InsufficientBalance)));

    // Receiver would stay below the deposit.
    let r = chain.transfer_fund(a, b, 30, false);
    assert!(matches!(r, Err(ChainError::ReceiverBelowDeposit)));
    assert_eq!(balance_of(&chain, &a), 100);
}

#[test]
fn self_transfer_overflow_detected() {
    // With deposit 0 an account may hold the whole supply; transferring it
    // to itself would transiently overflow, and is rejected beforehand.
    let mut chain = test_chain(0, u64::MAX);
    let a = account(1);
    chain.airdrop(a, u64::MAX).unwrap();
    let r = chain.transfer_fund(a, a, u64::MAX, true);
    assert!(matches!(r, Err(ChainError::BalanceOverflow)));
    assert_eq!(balance_of(&chain, &a), u64::MAX);
}

#[test]
fn airdrop_hides_system_constraints() {
    // The system account's own shortfall surfaces as one error.
    let mut chain = test_chain(50, 60);
    let a = account(1);
    let r = chain.airdrop(a, 100);
    assert!(matches!(r, Err(ChainError::SystemAllowanceTooLow)));
    // Draining the allowance below its own deposit floor is also remapped.
    let r = chain.airdrop(a, 55);
    assert!(matches!(r, Err(ChainError::SystemAllowanceTooLow)));
}

#[test]
fn conservation_across_transfers() {
    // Successful transfers never change the total supply.
    let mut chain = test_chain(10, 1_000_000);
    let a = account(1);
    let b = account(2);
    let c = account(3);
    chain.airdrop(a, 500).unwrap();
    chain.airdrop(b, 300).unwrap();
    let before = total_supply(&chain);
    chain.transfer_fund(a, b, 100, true).unwrap();
    chain.transfer_fund(b, c, 250, true).unwrap();
    chain.transfer_fund(c, a, 50, true).unwrap();
    assert_eq!(total_supply(&chain), before);
    assert_eq!(balance_of(&chain, &a), 450);
    assert_eq!(balance_of(&chain, &b), 150);
    assert_eq!(balance_of(&chain, &c), 200);
}

#[test]
fn empty_and_panic_operations() {
    let mut chain = test_chain(50, 1_000_000);
    let empty = Transaction { operation: Operation::Empty, initiator: Origin::Unsigned };
    assert!(chain.execute(empty).is_ok());

    let accounts_before = chain.accounts.clone();
    let fault = Transaction { operation: Operation::Panic, initiator: Origin::Root };
    let r = chain.execute(fault);
    assert!(matches!(r, Err(ChainError::OperationPanic)));
    assert_eq!(chain.accounts, accounts_before);
}

#[test]
fn transfer_requires_sender_signature() {
    let mut chain = test_chain(50, 1_000_000);
    let a = account(1);
    let b = account(2);
    chain.airdrop(a, 200).unwrap();
    let wrong_signer = Transaction {
        operation: Operation::TransferFund { sender: a, receiver: b, amount: 60 },
        initiator: Origin::Signed(b),
    };
    assert!(matches!(chain.execute(wrong_signer), Err(ChainError::Unauthorized)));
    let root = Transaction {
        operation: Operation::TransferFund { sender: a, receiver: b, amount: 60 },
        initiator: Origin::Root,
    };
    assert!(matches!(chain.execute(root), Err(ChainError::Unauthorized)));
    let signed = Transaction {
        operation: Operation::TransferFund { sender: a, receiver: b, amount: 60 },
        initiator: Origin::Signed(a),
    };
    assert!(chain.execute(signed).is_ok());
    assert_eq!(balance_of(&chain, &b), 60);
}
