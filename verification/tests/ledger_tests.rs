// The instruction handlers end to end: governance, fee policy, submission
// bookkeeping, and fee claims.

use solgsn::addr::{AccountRef, Address};
use solgsn::error::GsnError;
use solgsn::instruction::{TokenMintArgs, UpdateFeeParamsArgs};
use solgsn::processor::Processor;
use solgsn::state::{FeeMode, GsnInfo};

#[test]
fn initialize_with_signing_authority_configures_governance() {
    // Initialize with a signing authority: governance present, fee Fixed(50000).
    let authority = Address::from_u64(100);
    let gsn = Processor::process_initialize(Some(AccountRef { key: authority, is_signer: true }))
        .expect("initialize with signer should succeed");
    assert!(gsn.is_initialized);
    let gov = gsn.governance.as_ref().expect("governance should be configured");
    assert_eq!(gov.authority, authority);
    assert_eq!(gov.fee_mode, FeeMode::Fixed(50000));
    assert_eq!(gov.allowed_tokens.len(), 0);
}

#[test]
fn initialize_with_non_signing_authority_is_refused() {
    let authority = Address::from_u64(101);
    let r = Processor::process_initialize(Some(AccountRef { key: authority, is_signer: false }));
    assert_eq!(r.err(), Some(GsnError::Unauthorized));
}

#[test]
fn initialize_without_authority_leaves_governance_absent() {
    let gsn = Processor::process_initialize(None).expect("initialize should succeed");
    assert!(gsn.is_initialized);
    assert!(gsn.governance.is_none());
}

#[test]
fn update_fee_params_gated_on_authority() {
    // The authority may switch to a percent fee; anyone else is refused.
    let authority = Address::from_u64(102);
    let stranger = Address::from_u64(103);
    let mut gsn = Processor::process_initialize(Some(AccountRef {
        key: authority,
        is_signer: true,
    }))
    .unwrap();

    let args = UpdateFeeParamsArgs { fee_mode_type: 1, fee_value: 100 };
    assert_eq!(Processor::process_update_fee_params(&mut gsn, authority, true, args), Ok(()));
    assert_eq!(gsn.governance.as_ref().unwrap().fee_mode, FeeMode::Percent(100));

    // A signer that is not the authority is refused.
    let args = UpdateFeeParamsArgs { fee_mode_type: 0, fee_value: 1 };
    assert_eq!(
        Processor::process_update_fee_params(&mut gsn, stranger, true, args),
        Err(GsnError::Unauthorized)
    );
    // The authority without a signature is refused too.
    let args = UpdateFeeParamsArgs { fee_mode_type: 0, fee_value: 1 };
    assert_eq!(
        Processor::process_update_fee_params(&mut gsn, authority, false, args),
        Err(GsnError::Unauthorized)
    );
    assert_eq!(gsn.governance.as_ref().unwrap().fee_mode, FeeMode::Percent(100));
}

#[test]
fn update_fee_params_rejects_bad_modes() {
    let authority = Address::from_u64(104);
    let mut gsn = Processor::process_initialize(Some(AccountRef {
        key: authority,
        is_signer: true,
    }))
    .unwrap();

    // Percent beyond 10000 basis points.
    let args = UpdateFeeParamsArgs { fee_mode_type: 1, fee_value: 10001 };
    assert_eq!(
        Processor::process_update_fee_params(&mut gsn, authority, true, args),
        Err(GsnError::InvalidFeeMode)
    );
    // An unknown tag.
    let args = UpdateFeeParamsArgs { fee_mode_type: 2, fee_value: 0 };
    assert_eq!(
        Processor::process_update_fee_params(&mut gsn, authority, true, args),
        Err(GsnError::InvalidFeeMode)
    );
    assert_eq!(gsn.governance.as_ref().unwrap().fee_mode, FeeMode::Fixed(50000));
}

#[test]
fn calculate_fee_formulas() {
    // Fixed fee: the amount transferred is irrelevant.
    let authority = Address::from_u64(105);
    let mut gsn = GsnInfo::new();
    gsn.initialize_governance(authority);
    gsn.update_fee_params(FeeMode::Fixed(77777));
    assert_eq!(gsn.calculate_fee(0), 77777);
    assert_eq!(gsn.calculate_fee(1), 77777);
    assert_eq!(gsn.calculate_fee(u64::MAX), 77777);

    // Percent fee: floor(amount * bp / 10000).
    gsn.update_fee_params(FeeMode::Percent(100));
    assert_eq!(gsn.calculate_fee(1_000_000), 10_000);
    gsn.update_fee_params(FeeMode::Percent(1));
    assert_eq!(gsn.calculate_fee(9_999), 0);
    assert_eq!(gsn.calculate_fee(10_000), 1);
    gsn.update_fee_params(FeeMode::Percent(10000));
    assert_eq!(gsn.calculate_fee(123_456), 123_456);
    assert_eq!(gsn.calculate_fee(u64::MAX), u64::MAX);

    // Without governance the fallback applies.
    let bare = GsnInfo::new();
    assert_eq!(bare.calculate_fee(1_000_000), 50000);
}

#[test]
fn topup_credits_and_accumulates() {
    let consumer = Address::from_u64(106);
    let mut gsn = GsnInfo::new();
    assert_eq!(Processor::process_topup(&mut gsn, consumer, 300), Ok(()));
    assert_eq!(gsn.consumer.get(consumer), Some(300));
    assert_eq!(Processor::process_topup(&mut gsn, consumer, 700), Ok(()));
    assert_eq!(gsn.consumer.get(consumer), Some(1000));
}

#[test]
fn submit_transaction_full_bookkeeping() {
    // TopUp 1_000_000; submit amount 500_000 at nonce 0 under Fixed(100_000)
    // with a successful transfer.
    let authority = Address::from_u64(107);
    let consumer = Address::from_u64(108);
    let executor = Address::from_u64(109);
    let mut gsn = Processor::process_initialize(Some(AccountRef {
        key: authority,
        is_signer: true,
    }))
    .unwrap();
    let args = UpdateFeeParamsArgs { fee_mode_type: 0, fee_value: 100_000 };
    Processor::process_update_fee_params(&mut gsn, authority, true, args).unwrap();
    Processor::process_topup(&mut gsn, consumer, 1_000_000).unwrap();

    let checked = Processor::check_submit_tx(&gsn, consumer, 500_000, 0);
    assert_eq!(checked, Ok(100_000));
    let r = Processor::process_submit_tx(&mut gsn, consumer, executor, 500_000, 0, true);
    assert_eq!(r, Ok(()));

    assert_eq!(gsn.consumer.get(consumer), Some(900_000));
    assert_eq!(gsn.executor.get(executor), Some(100_000));
    assert_eq!(gsn.get_next_nonce(consumer), 1);
    assert_eq!(gsn.get_transaction_executor(consumer, 0), Some(executor));

    // Replaying nonce 0 fails and changes nothing.
    let r = Processor::process_submit_tx(&mut gsn, consumer, executor, 500_000, 0, true);
    assert_eq!(r, Err(GsnError::ReplayAttack));
    assert_eq!(gsn.consumer.get(consumer), Some(900_000));
    assert_eq!(gsn.executor.get(executor), Some(100_000));
    assert_eq!(gsn.get_next_nonce(consumer), 1);
}

#[test]
fn submit_transaction_rejections() {
    let authority = Address::from_u64(110);
    let consumer = Address::from_u64(111);
    let executor = Address::from_u64(112);
    let unknown = Address::from_u64(113);
    let mut gsn = Processor::process_initialize(Some(AccountRef {
        key: authority,
        is_signer: true,
    }))
    .unwrap();
    let args = UpdateFeeParamsArgs { fee_mode_type: 0, fee_value: 100_000 };
    Processor::process_update_fee_params(&mut gsn, authority, true, args).unwrap();
    Processor::process_topup(&mut gsn, consumer, 50_000).unwrap();

    // A sender that never topped up.
    assert_eq!(
        Processor::process_submit_tx(&mut gsn, unknown, executor, 1, 0, true),
        Err(GsnError::InvalidInstructionData)
    );
    // A nonce above the expected one.
    assert_eq!(
        Processor::process_submit_tx(&mut gsn, consumer, executor, 1, 5, true),
        Err(GsnError::InvalidNonce)
    );
    // A balance below the fee; the transfer outcome is irrelevant.
    assert_eq!(
        Processor::process_submit_tx(&mut gsn, consumer, executor, 1, 0, true),
        Err(GsnError::InsufficientBalance)
    );
    assert_eq!(gsn.consumer.get(consumer), Some(50_000));
    assert_eq!(gsn.get_next_nonce(consumer), 0);
}

#[test]
fn submit_transaction_failed_transfer_leaves_record_unchanged() {
    let consumer = Address::from_u64(114);
    let executor = Address::from_u64(115);
    let mut gsn = GsnInfo::new();
    Processor::process_topup(&mut gsn, consumer, 1_000_000).unwrap();

    // Validation passes but the external transfer fails.
    assert_eq!(Processor::check_submit_tx(&gsn, consumer, 500_000, 0), Ok(50_000));
    let r = Processor::process_submit_tx(&mut gsn, consumer, executor, 500_000, 0, false);
    assert_eq!(r, Err(GsnError::TransferFailed));
    assert_eq!(gsn.consumer.get(consumer), Some(1_000_000));
    assert_eq!(gsn.executor.get(executor), None);
    assert_eq!(gsn.get_next_nonce(consumer), 0);
    assert_eq!(gsn.get_transaction_executor(consumer, 0), None);
}

#[test]
fn claim_fees_pays_out_and_resets() {
    // An executor with 100_000 earned claims to itself with a signature.
    let executor = Address::from_u64(116);
    let other = Address::from_u64(117);
    let mut gsn = GsnInfo::new();
    gsn.add_executor(executor, 100_000);

    assert_eq!(Processor::check_claim_fees(&gsn, executor, executor, true), Ok(100_000));
    let r = Processor::process_claim_fees(&mut gsn, executor, executor, true, true);
    assert_eq!(r, Ok(()));
    assert_eq!(gsn.executor.get(executor), Some(0));

    // A claim to a different destination is refused whatever the balance.
    gsn.add_executor(executor, 100_000);
    assert_eq!(
        Processor::process_claim_fees(&mut gsn, executor, other, true, true),
        Err(GsnError::UnauthorizedFeeClaim)
    );
    // A claim without a signature is refused.
    assert_eq!(
        Processor::process_claim_fees(&mut gsn, executor, executor, false, true),
        Err(GsnError::UnauthorizedFeeClaim)
    );
    // A claim with nothing earned is refused.
    let broke = Address::from_u64(118);
    assert_eq!(
        Processor::process_claim_fees(&mut gsn, broke, broke, true, true),
        Err(GsnError::InsufficientFunds)
    );
    // A failed payout transfer leaves the earnings in place.
    assert_eq!(
        Processor::process_claim_fees(&mut gsn, executor, executor, true, false),
        Err(GsnError::TransferFailed)
    );
    assert_eq!(gsn.executor.get(executor), Some(100_000));
}

#[test]
fn allow_list_controls_tokens() {
    let authority = Address::from_u64(119);
    let token_a = Address::from_u64(120);
    let token_b = Address::from_u64(121);
    let stranger = Address::from_u64(122);

    // Without governance every token is allowed.
    let bare = GsnInfo::new();
    assert!(bare.is_token_allowed(token_a));

    let mut gsn = Processor::process_initialize(Some(AccountRef {
        key: authority,
        is_signer: true,
    }))
    .unwrap();
    // An empty allow-list is open.
    assert!(gsn.is_token_allowed(token_a));

    // Listing a token closes the list to everything else.
    let args = TokenMintArgs { mint: token_a };
    assert_eq!(Processor::process_add_allowed_token(&mut gsn, authority, true, args), Ok(()));
    assert!(gsn.is_token_allowed(token_a));
    assert!(!gsn.is_token_allowed(token_b));

    // Only the authority may mutate the list.
    let args = TokenMintArgs { mint: token_b };
    assert_eq!(
        Processor::process_add_allowed_token(&mut gsn, stranger, true, args),
        Err(GsnError::Unauthorized)
    );
    let args = TokenMintArgs { mint: token_a };
    assert_eq!(
        Processor::process_remove_allowed_token(&mut gsn, authority, false, args),
        Err(GsnError::Unauthorized)
    );

    // Removing the last listed token opens the list again.
    let args = TokenMintArgs { mint: token_a };
    assert_eq!(Processor::process_remove_allowed_token(&mut gsn, authority, true, args), Ok(()));
    assert!(gsn.is_token_allowed(token_b));
}
