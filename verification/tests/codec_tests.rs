// The wire formats: the persisted record's round trip and rejection of
// malformed buffers, the instruction decoder, and the byte-level dispatcher.

use solgsn::addr::{AccountRef, Address};
use solgsn::error::GsnError;
use solgsn::instruction::GsnInstruction;
use solgsn::processor::Processor;
use solgsn::state::{FeeMode, GsnInfo};

fn sample_record() -> GsnInfo {
    let authority = Address::from_u64(200);
    let consumer = Address::from_u64(201);
    let executor = Address::from_u64(202);
    let token = Address::from_u64(203);
    let mut gsn = GsnInfo::new();
    gsn.initialize_governance(authority);
    gsn.update_fee_params(FeeMode::Percent(250));
    gsn.add_allowed_token(token);
    gsn.add_consumer(consumer, 1_000_000);
    gsn.add_executor(executor, 40_000);
    gsn.increment_nonce(consumer);
    gsn.record_transaction_executor(consumer, 0, executor);
    gsn
}

fn records_equal(a: &GsnInfo, b: &GsnInfo) -> bool {
    a.is_initialized == b.is_initialized
        && a.consumer.entries == b.consumer.entries
        && a.executor.entries == b.executor.entries
        && a.consumer_nonces.entries == b.consumer_nonces.entries
        && a.transaction_executor.entries == b.transaction_executor.entries
        && match (&a.governance, &b.governance) {
            (None, None) => true,
            (Some(x), Some(y)) => {
                x.authority == y.authority && x.fee_mode == y.fee_mode
                    && x.allowed_tokens.entries == y.allowed_tokens.entries
            },
            _ => false,
        }
}

#[test]
fn record_round_trip() {
    let gsn = sample_record();
    let bytes = gsn.to_bytes();
    let back = GsnInfo::deserialize(&bytes).expect("own encoding should deserialize");
    assert!(records_equal(&gsn, &back));
}

#[test]
fn record_round_trip_empty() {
    let gsn = GsnInfo::new();
    let bytes = gsn.to_bytes();
    let back = GsnInfo::deserialize(&bytes).expect("own encoding should deserialize");
    assert!(records_equal(&gsn, &back));
}

#[test]
fn record_round_trip_ignores_trailing_bytes() {
    let gsn = sample_record();
    let mut bytes = gsn.to_bytes();
    bytes.extend_from_slice(&[0xAB; 64]);
    let back = GsnInfo::deserialize(&bytes).expect("trailing bytes are ignored");
    assert!(records_equal(&gsn, &back));
}

#[test]
fn serialize_into_buffer_keeps_tail_and_checks_size() {
    let gsn = sample_record();
    let bytes = gsn.to_bytes();

    // A roomy buffer: the encoding lands at the front, the tail survives.
    let mut buffer = vec![0xCDu8; bytes.len() + 10];
    assert_eq!(gsn.serialize(&mut buffer), Ok(()));
    assert_eq!(&buffer[..bytes.len()], &bytes[..]);
    assert_eq!(&buffer[bytes.len()..], &[0xCDu8; 10][..]);
    let back = GsnInfo::deserialize(&buffer).unwrap();
    assert!(records_equal(&gsn, &back));

    // A buffer one byte short is refused, untouched.
    let mut small = vec![0x11u8; bytes.len() - 1];
    assert_eq!(gsn.serialize(&mut small), Err(GsnError::StorageTooSmall));
    assert!(small.iter().all(|b| *b == 0x11));
}

#[test]
fn deserialize_rejects_malformed_buffers() {
    // Empty.
    assert_eq!(GsnInfo::deserialize(&[]).err(), Some(GsnError::InvalidRecord));
    // A flag byte that encodes no bool.
    assert_eq!(GsnInfo::deserialize(&[2]).err(), Some(GsnError::InvalidRecord));
    // Truncated after the flag.
    assert_eq!(GsnInfo::deserialize(&[1, 0, 0]).err(), Some(GsnError::InvalidRecord));
    // A truncation anywhere inside a valid encoding is refused.
    let bytes = sample_record().to_bytes();
    let cut = GsnInfo::deserialize(&bytes[..bytes.len() - 1]);
    assert_eq!(cut.err(), Some(GsnError::InvalidRecord));
}

#[test]
fn deserialize_rejects_duplicate_keys_and_bad_fee() {
    // Two entries under the same consumer key do not encode a map.
    let consumer = Address::from_u64(204);
    let mut gsn = GsnInfo::new();
    gsn.add_consumer(consumer, 1);
    let mut bytes = gsn.to_bytes();
    // The consumer map starts right after the flag byte: bump its count to 2
    // and append a second copy of the single 40-byte entry.
    assert_eq!(bytes[1], 1);
    bytes[1] = 2;
    let entry: Vec<u8> = bytes[5..45].to_vec();
    let tail: Vec<u8> = bytes[45..].to_vec();
    let mut forged: Vec<u8> = bytes[..45].to_vec();
    forged.extend_from_slice(&entry);
    forged.extend_from_slice(&tail);
    assert_eq!(GsnInfo::deserialize(&forged).err(), Some(GsnError::InvalidRecord));

    // A percent fee beyond 10000 basis points is refused.
    let authority = Address::from_u64(205);
    let mut gov = GsnInfo::new();
    gov.initialize_governance(authority);
    gov.update_fee_params(FeeMode::Percent(10000));
    let mut bytes = gov.to_bytes();
    // The fee mode sits after flag (1) + two empty maps (4 + 4) + presence
    // byte (1) + authority (32): tag at 42, basis points at 43..45.
    assert_eq!(bytes[42], 1);
    bytes[43] = 0x11;
    bytes[44] = 0x27; // 10001 little-endian
    assert_eq!(GsnInfo::deserialize(&bytes).err(), Some(GsnError::InvalidRecord));
}

#[test]
fn instruction_decoder_accepts_each_opcode() {
    // Initialize and ClaimFees carry no payload.
    assert_eq!(GsnInstruction::deserialize(&[0]), Ok(GsnInstruction::Initialize));
    assert_eq!(GsnInstruction::deserialize(&[6]), Ok(GsnInstruction::ClaimFees));

    // Topup: amount little-endian.
    let mut buf = vec![1u8];
    buf.extend_from_slice(&777u64.to_le_bytes());
    match GsnInstruction::deserialize(&buf) {
        Ok(GsnInstruction::Topup(args)) => assert_eq!(args.amount, 777),
        other => panic!("expected Topup, got {:?}", other),
    }

    // SubmitTransaction: amount then nonce.
    let mut buf = vec![2u8];
    buf.extend_from_slice(&500_000u64.to_le_bytes());
    buf.extend_from_slice(&3u64.to_le_bytes());
    match GsnInstruction::deserialize(&buf) {
        Ok(GsnInstruction::SubmitTransaction(args)) => {
            assert_eq!(args.amount, 500_000);
            assert_eq!(args.nonce, 3);
        },
        other => panic!("expected SubmitTransaction, got {:?}", other),
    }

    // UpdateFeeParams: mode tag then value.
    let mut buf = vec![3u8, 1u8];
    buf.extend_from_slice(&250u64.to_le_bytes());
    match GsnInstruction::deserialize(&buf) {
        Ok(GsnInstruction::UpdateFeeParams(args)) => {
            assert_eq!(args.fee_mode_type, 1);
            assert_eq!(args.fee_value, 250);
        },
        other => panic!("expected UpdateFeeParams, got {:?}", other),
    }

    // Add/RemoveAllowedToken: a 32-byte mint address.
    let mint = Address::from_u64(206);
    let mut buf = vec![4u8];
    buf.extend_from_slice(&mint.w0.to_le_bytes());
    buf.extend_from_slice(&mint.w1.to_le_bytes());
    buf.extend_from_slice(&mint.w2.to_le_bytes());
    buf.extend_from_slice(&mint.w3.to_le_bytes());
    match GsnInstruction::deserialize(&buf) {
        Ok(GsnInstruction::AddAllowedToken(args)) => assert_eq!(args.mint, mint),
        other => panic!("expected AddAllowedToken, got {:?}", other),
    }
    buf[0] = 5;
    match GsnInstruction::deserialize(&buf) {
        Ok(GsnInstruction::RemoveAllowedToken(args)) => assert_eq!(args.mint, mint),
        other => panic!("expected RemoveAllowedToken, got {:?}", other),
    }
}

#[test]
fn instruction_decoder_rejects_malformed_buffers() {
    // Empty, unknown opcode, truncated payloads.
    assert_eq!(GsnInstruction::deserialize(&[]).err(), Some(GsnError::InvalidInstructionData));
    assert_eq!(GsnInstruction::deserialize(&[7]).err(), Some(GsnError::InvalidInstructionData));
    assert_eq!(
        GsnInstruction::deserialize(&[1, 1, 2, 3]).err(),
        Some(GsnError::InvalidInstructionData)
    );
    assert_eq!(
        GsnInstruction::deserialize(&[2, 0, 0, 0, 0, 0, 0, 0, 0]).err(),
        Some(GsnError::InvalidInstructionData)
    );
    assert_eq!(GsnInstruction::deserialize(&[3, 0]).err(), Some(GsnError::InvalidInstructionData));
    assert_eq!(
        GsnInstruction::deserialize(&[4, 0, 0, 0]).err(),
        Some(GsnError::InvalidInstructionData)
    );
}

#[test]
fn dispatcher_runs_a_full_session() {
    // Initialize, top up, submit, and claim through the byte-level entry
    // point, as the host would drive it.
    let authority = Address::from_u64(207);
    let consumer = Address::from_u64(208);
    let receiver = Address::from_u64(209);
    let executor = Address::from_u64(210);
    let ledger = Address::from_u64(211);
    let target = Address::from_u64(212);
    let system = Address::from_u64(213);

    let acct = |key: Address, is_signer: bool| AccountRef { key, is_signer };

    // A roomy fixed-size account buffer, as the host allocates it.
    let mut data = vec![0u8; 1024];

    // Initialize with the signing authority.
    let accounts = vec![acct(ledger, false), acct(authority, true)];
    assert_eq!(Processor::process(&mut data, &accounts, &[0], false), Ok(()));
    let gsn = GsnInfo::deserialize(&data).unwrap();
    assert_eq!(gsn.governance.as_ref().unwrap().authority, authority);

    // Top up the consumer with 1_000_000.
    let accounts = vec![acct(ledger, false), acct(consumer, true)];
    let mut input = vec![1u8];
    input.extend_from_slice(&1_000_000u64.to_le_bytes());
    assert_eq!(Processor::process(&mut data, &accounts, &input, false), Ok(()));
    let gsn = GsnInfo::deserialize(&data).unwrap();
    assert_eq!(gsn.consumer.get(consumer), Some(1_000_000));

    // Submit a transfer of 500_000 at nonce 0; the transfer succeeded.
    let accounts = vec![
        acct(target, false),
        acct(consumer, true),
        acct(receiver, false),
        acct(executor, true),
        acct(ledger, false),
    ];
    let mut input = vec![2u8];
    input.extend_from_slice(&500_000u64.to_le_bytes());
    input.extend_from_slice(&0u64.to_le_bytes());
    assert_eq!(Processor::process(&mut data, &accounts, &input, true), Ok(()));
    let gsn = GsnInfo::deserialize(&data).unwrap();
    assert_eq!(gsn.consumer.get(consumer), Some(950_000));
    assert_eq!(gsn.executor.get(executor), Some(50_000));
    assert_eq!(gsn.get_next_nonce(consumer), 1);
    assert_eq!(gsn.get_transaction_executor(consumer, 0), Some(executor));

    // Replaying the same submission is refused and persists nothing.
    let before = data.clone();
    assert_eq!(
        Processor::process(&mut data, &accounts, &input, true),
        Err(GsnError::ReplayAttack)
    );
    assert_eq!(data, before);

    // The executor claims its earnings.
    let accounts = vec![
        acct(ledger, false),
        acct(executor, true),
        acct(executor, false),
        acct(system, false),
    ];
    assert_eq!(Processor::process(&mut data, &accounts, &[6], true), Ok(()));
    let gsn = GsnInfo::deserialize(&data).unwrap();
    assert_eq!(gsn.executor.get(executor), Some(0));
}

#[test]
fn dispatcher_refuses_short_account_lists_and_bad_input() {
    let mut data = vec![0u8; 256];
    let no_accounts: Vec<AccountRef> = vec![];
    assert_eq!(
        Processor::process(&mut data, &no_accounts, &[0], false),
        Err(GsnError::MissingAccount)
    );
    let mut input = vec![1u8];
    input.extend_from_slice(&5u64.to_le_bytes());
    assert_eq!(
        Processor::process(&mut data, &no_accounts, &input, false),
        Err(GsnError::MissingAccount)
    );
    assert_eq!(
        Processor::process(&mut data, &no_accounts, &[9], false),
        Err(GsnError::InvalidInstructionData)
    );

    // An uninitialized buffer holds no record: every record-reading
    // instruction is refused.
    let ledger = Address::from_u64(214);
    let consumer = Address::from_u64(215);
    let mut blank = vec![0xFFu8; 64];
    let accounts = vec![
        AccountRef { key: ledger, is_signer: false },
        AccountRef { key: consumer, is_signer: true },
    ];
    let mut input = vec![1u8];
    input.extend_from_slice(&5u64.to_le_bytes());
    assert_eq!(
        Processor::process(&mut blank, &accounts, &input, false),
        Err(GsnError::InvalidRecord)
    );
}
