// Security behaviour of the ledger record: replay protection, balance
// checks before execution, and fee-claim authorization.

use solgsn::addr::Address;
use solgsn::state::{FeeMode, GsnInfo};

#[test]
fn test_replay_attack_prevention() {
    // The same nonce cannot be used twice (replay attack).
    let sender_key = Address::from_u64(1);
    let mut gsn = GsnInfo::new();
    gsn.add_consumer(sender_key, 1000000);

    assert_eq!(gsn.get_next_nonce(sender_key), 0);

    // First transaction with nonce 0.
    let provided_nonce = 0;
    let expected_nonce = gsn.get_next_nonce(sender_key);
    assert_eq!(provided_nonce, expected_nonce, "First transaction should use nonce 0");

    // After the first transaction, the nonce advances.
    gsn.increment_nonce(sender_key);
    assert_eq!(gsn.get_next_nonce(sender_key), 1);

    // Using nonce 0 again is detected.
    assert!(gsn.is_nonce_used(sender_key, 0), "Nonce 0 should be marked as used after increment");

    // Second transaction with nonce 1.
    let provided_nonce = 1;
    let expected_nonce = gsn.get_next_nonce(sender_key);
    assert_eq!(provided_nonce, expected_nonce, "Second transaction should use nonce 1");

    gsn.increment_nonce(sender_key);
    assert_eq!(gsn.get_next_nonce(sender_key), 2);

    // Nonces 0 and 1 are spent.
    assert!(gsn.is_nonce_used(sender_key, 0), "Nonce 0 should still be marked as used");
    assert!(gsn.is_nonce_used(sender_key, 1), "Nonce 1 should be marked as used after increment");

    // The next expected nonce is 2.
    assert_eq!(gsn.get_next_nonce(sender_key), 2);
    assert!(!gsn.is_nonce_used(sender_key, 2), "Nonce 2 should not be used yet");
}

#[test]
fn test_insufficient_balance_check() {
    // Transactions fail when the top-up balance does not cover the fee.
    let sender_key = Address::from_u64(2);
    let authority = Address::from_u64(90);
    let mut gsn = GsnInfo::new();

    // Fee policy updates require configured governance.
    gsn.initialize_governance(authority);
    gsn.update_fee_params(FeeMode::Fixed(100000));

    // The consumer holds only 50,000 against a fee of 100,000.
    gsn.add_consumer(sender_key, 50000);

    let fee = gsn.calculate_fee(1000000);
    assert_eq!(fee, 100000);

    let balance = gsn.consumer.get(sender_key).unwrap_or(0);
    assert!(
        balance < fee,
        "Balance should be less than fee - this should trigger InsufficientBalance error"
    );

    // The balance check happens before executing the transaction.
    assert!(balance < fee, "Pre-execution balance check should fail");
}

#[test]
fn test_underfunded_topup_account() {
    // Various underfunded-account scenarios.
    let authority = Address::from_u64(91);
    let mut gsn = GsnInfo::new();
    gsn.initialize_governance(authority);
    gsn.update_fee_params(FeeMode::Fixed(100000));

    let sender_key = Address::from_u64(3);
    let fee = gsn.calculate_fee(1000000);

    // No balance at all.
    assert!(!gsn.consumer.contains_key(sender_key));
    let balance = gsn.consumer.get(sender_key).unwrap_or(0);
    assert_eq!(balance, 0);
    assert!(balance < fee, "No balance should fail balance check");

    // A balance exactly equal to the fee passes.
    gsn.add_consumer(sender_key, 100000);
    let balance = gsn.consumer.get(sender_key).unwrap_or(0);
    assert_eq!(balance, fee);
    assert!(balance >= fee, "Balance equal to fee should pass check");

    // A balance below the fee fails.
    gsn.consumer.insert(sender_key, 50000);
    let balance = gsn.consumer.get(sender_key).unwrap_or(0);
    assert!(balance < fee, "Balance less than fee should fail check");

    // One unit short still fails.
    gsn.consumer.insert(sender_key, 99999);
    let balance = gsn.consumer.get(sender_key).unwrap_or(0);
    assert!(balance < fee, "Balance 1 lamport less than fee should fail");
}

#[test]
fn test_unauthorized_fee_claim() {
    // Only the executor who serviced a transaction earns its fee.
    let mut gsn = GsnInfo::new();

    let consumer_key = Address::from_u64(4);
    let executor1_key = Address::from_u64(5);
    let executor2_key = Address::from_u64(6);

    // Executor 1 services a transaction.
    let nonce = 0;
    gsn.record_transaction_executor(consumer_key, nonce, executor1_key);
    gsn.add_executor(executor1_key, 100000);

    // Executor 1 is the executor of record.
    let recorded_executor = gsn.get_transaction_executor(consumer_key, nonce);
    assert_eq!(recorded_executor, Some(executor1_key));
    assert_ne!(recorded_executor, Some(executor2_key));

    // Executor 1 has a claimable balance.
    let executor1_balance = gsn.executor.get(executor1_key).unwrap_or(0);
    assert_eq!(executor1_balance, 100000);

    // Executor 2 has nothing.
    let executor2_balance = gsn.executor.get(executor2_key).unwrap_or(0);
    assert_eq!(executor2_balance, 0);
}

#[test]
fn test_malicious_fee_claim_attempt() {
    // An executor cannot claim fees for transactions it did not service.
    let mut gsn = GsnInfo::new();

    let consumer_key = Address::from_u64(7);
    let legitimate_executor = Address::from_u64(8);
    let malicious_executor = Address::from_u64(9);

    let nonce = 0;
    gsn.record_transaction_executor(consumer_key, nonce, legitimate_executor);
    gsn.add_executor(legitimate_executor, 100000);

    let malicious_balance = gsn.executor.get(malicious_executor).unwrap_or(0);
    assert_eq!(malicious_balance, 0, "Malicious executor should have no balance");

    let recorded_executor = gsn.get_transaction_executor(consumer_key, nonce);
    assert_eq!(recorded_executor, Some(legitimate_executor));
    assert_ne!(recorded_executor, Some(malicious_executor));
}

#[test]
fn test_nonce_sequence_enforcement() {
    // Nonces are consumed in sequence: no skipping, no reuse.
    let mut gsn = GsnInfo::new();
    let consumer_key = Address::from_u64(10);

    assert_eq!(gsn.get_next_nonce(consumer_key), 0);

    gsn.increment_nonce(consumer_key);
    assert_eq!(gsn.get_next_nonce(consumer_key), 1);

    gsn.increment_nonce(consumer_key);
    assert_eq!(gsn.get_next_nonce(consumer_key), 2);

    assert!(gsn.is_nonce_used(consumer_key, 0));
    assert!(gsn.is_nonce_used(consumer_key, 1));
    assert!(!gsn.is_nonce_used(consumer_key, 2));

    // Skipping ahead to nonce 5 is rejected: the expected nonce is 2.
    let expected_nonce = gsn.get_next_nonce(consumer_key);
    let provided_nonce = 5;
    assert_ne!(expected_nonce, provided_nonce, "Should fail with InvalidNonce");
}

#[test]
fn test_balance_check_before_execution() {
    // The balance is checked before the external transfer is invoked.
    let authority = Address::from_u64(92);
    let mut gsn = GsnInfo::new();
    gsn.initialize_governance(authority);
    gsn.update_fee_params(FeeMode::Fixed(100000));

    let sender_key = Address::from_u64(11);
    let fee = gsn.calculate_fee(1000000);

    // A balance that exactly covers the fee passes.
    gsn.add_consumer(sender_key, 100000);

    let balance = gsn.consumer.get(sender_key).unwrap_or(0);
    assert!(balance >= fee, "Balance should cover fee - check happens before execution");

    // Reduce the balance below the fee.
    gsn.consumer.insert(sender_key, 50000);
    let balance = gsn.consumer.get(sender_key).unwrap_or(0);
    assert!(
        balance < fee,
        "Balance check should fail before execution - prevents partial execution"
    );
}
