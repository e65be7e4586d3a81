//! The relay state machine: one handler per instruction.
//!
//! Every handler is specified against a spec-level transition: a check
//! function that decides, from the current record alone, whether the
//! instruction may proceed and with which error it is refused, and an apply
//! function that gives the successor record. A failing instruction never
//! changes the record.
//!
//! The external transfer service is the one collaborator the handlers cannot
//! call themselves: its outcome enters `process_submit_tx` and
//! `process_claim_fees` as the `transfer_ok` argument, and the contracts
//! state that the refusal of an instruction does not depend on it. A caller
//! that wires the handlers to the real service first consults
//! `check_submit_tx` / `check_claim_fees`, invokes the transfer only on
//! approval, and hands the outcome back — so a transfer is never attempted
//! for an instruction the ledger would refuse.

use vstd::prelude::*;
use crate::addr::{AccountRef, Address};
use crate::error::GsnError;
use crate::instruction::{spec_decode, GsnInstruction, TokenMintArgs, UpdateFeeParamsArgs};
use crate::record_codec::{counts_fit, spec_parse_record, spec_ser_record};
use crate::maps::supsert;
use crate::state::{fee_mode_wf, FeeMode, GovView, GsnInfo, GsnView, DEFAULT_FEE};

verus! {

/// The governance gate: the candidate must have signed and must be the
/// configured authority (so governance must be configured at all).
pub open spec fn auth_check(v: GsnView, candidate: Address, candidate_is_signer: bool) -> Result<
    (),
    GsnError,
> {
    if !candidate_is_signer {
        Err(GsnError::Unauthorized)
    } else if !v.is_authority_spec(candidate) {
        Err(GsnError::Unauthorized)
    } else {
        Ok(())
    }
}

/// The fee mode a fee-policy update selects: tag 0 is a fixed fee, tag 1 a
/// percent fee of at most 10000 basis points; anything else is invalid.
pub open spec fn fee_mode_of_args(fee_mode_type: u8, fee_value: u64) -> Result<
    FeeMode,
    GsnError,
> {
    if fee_mode_type == 0 {
        Ok(FeeMode::Fixed(fee_value))
    } else if fee_mode_type == 1 {
        if fee_value > 10000 {
            Err(GsnError::InvalidFeeMode)
        } else {
            Ok(FeeMode::Percent(fee_value as u16))
        }
    } else {
        Err(GsnError::InvalidFeeMode)
    }
}

/// Whether a submission may proceed, and the fee it will cost. In order: the
/// sender must have topped up at least once; a nonce below the expected one
/// is a replay; any other mismatch is invalid; and the sender's balance must
/// cover the fee before any transfer is attempted.
pub open spec fn submit_check(v: GsnView, sender: Address, amount: u64, nonce: u64) -> Result<
    u64,
    GsnError,
> {
    if !v.has_consumer(sender) {
        Err(GsnError::InvalidInstructionData)
    } else if nonce < v.nonce_of(sender) {
        Err(GsnError::ReplayAttack)
    } else if nonce > v.nonce_of(sender) {
        Err(GsnError::InvalidNonce)
    } else if (v.balance_of(sender) as int) < v.fee_of(amount) {
        Err(GsnError::InsufficientBalance)
    } else {
        Ok(v.fee_of(amount) as u64)
    }
}

/// The record after a successful submission: the executor of record is
/// logged under (sender, nonce), the sender's nonce advances by one, the
/// executor is credited the fee, the sender is debited the fee.
pub open spec fn submit_apply(
    v: GsnView,
    sender: Address,
    executor: Address,
    amount: u64,
    nonce: u64,
) -> GsnView
    recommends
        submit_check(v, sender, amount, nonce) is Ok,
        nonce < u64::MAX,
        v.executor_balance_of(executor) + v.fee_of(amount) <= u64::MAX,
{
    let fee = v.fee_of(amount);
    GsnView {
        transaction_executor: supsert(v.transaction_executor, (sender, nonce), executor),
        consumer_nonces: supsert(v.consumer_nonces, sender, (nonce + 1) as u64),
        executor: supsert(
            v.executor,
            executor,
            (v.executor_balance_of(executor) + fee) as u64,
        ),
        consumer: supsert(v.consumer, sender, (v.balance_of(sender) - fee) as u64),
        ..v
    }
}

/// Whether a fee claim may proceed, and the amount it pays out: the claimant
/// must have signed, must claim to itself, and must have earned something.
pub open spec fn claim_check(
    v: GsnView,
    executor: Address,
    destination: Address,
    executor_is_signer: bool,
) -> Result<u64, GsnError> {
    if !executor_is_signer {
        Err(GsnError::UnauthorizedFeeClaim)
    } else if executor != destination {
        Err(GsnError::UnauthorizedFeeClaim)
    } else if v.executor_balance_of(executor) == 0 {
        Err(GsnError::InsufficientFunds)
    } else {
        Ok(v.executor_balance_of(executor))
    }
}

/// The record after a successful claim: the executor's earnings reset to 0.
pub open spec fn claim_apply(v: GsnView, executor: Address) -> GsnView {
    GsnView { executor: supsert(v.executor, executor, 0u64), ..v }
}

/// The record after a top-up: `amount` is added to the consumer's balance.
pub open spec fn topup_apply(v: GsnView, consumer: Address, amount: u64) -> GsnView
    recommends
        v.balance_of(consumer) + amount <= u64::MAX,
{
    GsnView {
        consumer: supsert(v.consumer, consumer, (v.balance_of(consumer) + amount) as u64),
        ..v
    }
}

/// The record after a fee-policy update; the caller has passed `auth_check`,
/// so governance is present.
pub open spec fn update_fee_apply(v: GsnView, mode: FeeMode) -> GsnView {
    match v.governance {
        Some(g) => GsnView { governance: Some(GovView { fee_mode: mode, ..g }), ..v },
        None => v,
    }
}

/// The record after an allow-list insertion; governance is present.
pub open spec fn add_token_apply(v: GsnView, mint: Address) -> GsnView {
    match v.governance {
        Some(g) => GsnView {
            governance: Some(
                GovView { allowed_tokens: supsert(g.allowed_tokens, mint, true), ..g },
            ),
            ..v
        },
        None => v,
    }
}

/// The record after an allow-list removal; governance is present.
pub open spec fn remove_token_apply(v: GsnView, mint: Address) -> GsnView {
    match v.governance {
        Some(g) => GsnView {
            governance: Some(
                GovView {
                    allowed_tokens: crate::maps::sremove(g.allowed_tokens, mint),
                    ..g
                },
            ),
            ..v
        },
        None => v,
    }
}

/// The view `process_initialize` produces on success.
pub open spec fn init_view(authority: Option<AccountRef>) -> GsnView {
    GsnView {
        is_initialized: true,
        consumer: Seq::<(Address, u64)>::empty(),
        executor: Seq::<(Address, u64)>::empty(),
        governance: match authority {
            Some(acct) => Some(
                GovView {
                    authority: acct.key,
                    fee_mode: FeeMode::Fixed(DEFAULT_FEE),
                    allowed_tokens: Seq::<(Address, bool)>::empty(),
                },
            ),
            None => None,
        },
        consumer_nonces: Seq::<(Address, u64)>::empty(),
        transaction_executor: Seq::<((Address, u64), Address)>::empty(),
    }
}

/// Dispatches instructions against the ledger record.
pub struct Processor {}

impl Processor {
    /// Creates the empty ledger record; when an authority account is
    /// supplied and signs, governance starts configured under it with the
    /// default fixed fee and an open allow-list. An authority that did not
    /// sign is refused.
    pub fn process_initialize(authority: Option<AccountRef>) -> (r: Result<GsnInfo, GsnError>)
        ensures
            match authority {
                Some(acct) => if acct.is_signer {
                    r matches Ok(g) && g@ == init_view(authority) && g@.wf()
                } else {
                    r == Err::<GsnInfo, GsnError>(GsnError::Unauthorized)
                },
                None => r matches Ok(g) && g@ == init_view(authority) && g@.wf(),
            },
    {
        let mut gsn = GsnInfo::new();
        match authority {
            Some(acct) => {
                if !acct.is_signer {
                    return Err(GsnError::Unauthorized);
                }
                gsn.initialize_governance(acct.key);
            },
            None => {},
        }
        Ok(gsn)
    }

    /// Credits `amount` to `consumer`'s pre-funded balance, creating the
    /// entry when absent. No authorization: anyone may top up any consumer.
    pub fn process_topup(gsn: &mut GsnInfo, consumer: Address, amount: u64) -> (r: Result<
        (),
        GsnError,
    >)
        requires
            old(gsn)@.wf(),
            old(gsn)@.balance_of(consumer) + amount <= u64::MAX,
        ensures
            final(gsn)@.wf(),
            final(gsn)@ == topup_apply(old(gsn)@, consumer, amount),
            r == Ok::<(), GsnError>(()),
    {
        let previous_balance = match gsn.consumer.get(consumer) {
            Some(v) => v,
            None => 0,
        };
        gsn.add_consumer(consumer, previous_balance + amount);
        Ok(())
    }

    /// The validation a submission must pass before the external transfer is
    /// attempted; returns the fee the submission will cost. Mutates nothing.
    pub fn check_submit_tx(gsn: &GsnInfo, sender: Address, amount: u64, nonce: u64) -> (r: Result<
        u64,
        GsnError,
    >)
        requires
            gsn@.wf(),
        ensures
            r == submit_check(gsn@, sender, amount, nonce),
    {
        proof {
            crate::state::lemma_fee_bounded(gsn@, amount);
        }
        match gsn.consumer.get(sender) {
            None => Err(GsnError::InvalidInstructionData),
            Some(current_balance) => {
                let expected_nonce = gsn.get_next_nonce(sender);
                if nonce < expected_nonce {
                    Err(GsnError::ReplayAttack)
                } else if nonce != expected_nonce {
                    Err(GsnError::InvalidNonce)
                } else {
                    let fee = gsn.calculate_fee(amount);
                    if current_balance < fee {
                        Err(GsnError::InsufficientBalance)
                    } else {
                        Ok(fee)
                    }
                }
            },
        }
    }

    /// Settles a submission given the external transfer's outcome. A
    /// submission that fails validation is refused with that error and the
    /// record untouched, whatever the outcome argument says; a failed
    /// transfer leaves the record untouched; only a validated submission
    /// with a successful transfer commits the bookkeeping of
    /// `submit_apply`.
    pub fn process_submit_tx(
        gsn: &mut GsnInfo,
        sender: Address,
        executor: Address,
        amount: u64,
        nonce: u64,
        transfer_ok: bool,
    ) -> (r: Result<(), GsnError>)
        requires
            old(gsn)@.wf(),
            submit_check(old(gsn)@, sender, amount, nonce) is Ok && transfer_ok ==> {
                &&& nonce < u64::MAX
                &&& old(gsn)@.executor_balance_of(executor) + old(gsn)@.fee_of(amount)
                    <= u64::MAX
            },
        ensures
            final(gsn)@.wf(),
            match submit_check(old(gsn)@, sender, amount, nonce) {
                Err(e) => r == Err::<(), GsnError>(e) && final(gsn)@ == old(gsn)@,
                Ok(_) => if transfer_ok {
                    r == Ok::<(), GsnError>(()) && final(gsn)@ == submit_apply(
                        old(gsn)@,
                        sender,
                        executor,
                        amount,
                        nonce,
                    )
                } else {
                    r == Err::<(), GsnError>(GsnError::TransferFailed) && final(gsn)@ == old(
                        gsn,
                    )@
                },
            },
    {
        let fee = match Self::check_submit_tx(gsn, sender, amount, nonce) {
            Err(e) => {
                return Err(e);
            },
            Ok(fee) => fee,
        };
        if !transfer_ok {
            return Err(GsnError::TransferFailed);
        }
        gsn.record_transaction_executor(sender, nonce, executor);
        gsn.increment_nonce(sender);
        let executor_balance = match gsn.executor.get(executor) {
            Some(v) => v,
            None => 0,
        };
        gsn.add_executor(executor, executor_balance + fee);
        let current_balance = match gsn.consumer.get(sender) {
            Some(v) => v,
            None => 0,
        };
        gsn.add_consumer(sender, current_balance - fee);
        Ok(())
    }

    /// Replaces the fee policy; gated on the governance authority.
    pub fn process_update_fee_params(
        gsn: &mut GsnInfo,
        authority: Address,
        authority_is_signer: bool,
        args: UpdateFeeParamsArgs,
    ) -> (r: Result<(), GsnError>)
        requires
            old(gsn)@.wf(),
        ensures
            final(gsn)@.wf(),
            match auth_check(old(gsn)@, authority, authority_is_signer) {
                Err(e) => r == Err::<(), GsnError>(e) && final(gsn)@ == old(gsn)@,
                Ok(_) => match fee_mode_of_args(args.fee_mode_type, args.fee_value) {
                    Err(e) => r == Err::<(), GsnError>(e) && final(gsn)@ == old(gsn)@,
                    Ok(mode) => r == Ok::<(), GsnError>(()) && final(gsn)@ == update_fee_apply(
                        old(gsn)@,
                        mode,
                    ),
                },
            },
    {
        if !authority_is_signer {
            return Err(GsnError::Unauthorized);
        }
        if !gsn.is_authority(authority) {
            return Err(GsnError::Unauthorized);
        }
        let fee_mode = if args.fee_mode_type == 0 {
            FeeMode::Fixed(args.fee_value)
        } else if args.fee_mode_type == 1 {
            if args.fee_value > 10000 {
                return Err(GsnError::InvalidFeeMode);
            }
            FeeMode::Percent(args.fee_value as u16)
        } else {
            return Err(GsnError::InvalidFeeMode);
        };
        gsn.update_fee_params(fee_mode);
        Ok(())
    }

    /// Inserts a token mint into the allow-list; gated on the governance
    /// authority.
    pub fn process_add_allowed_token(
        gsn: &mut GsnInfo,
        authority: Address,
        authority_is_signer: bool,
        args: TokenMintArgs,
    ) -> (r: Result<(), GsnError>)
        requires
            old(gsn)@.wf(),
        ensures
            final(gsn)@.wf(),
            match auth_check(old(gsn)@, authority, authority_is_signer) {
                Err(e) => r == Err::<(), GsnError>(e) && final(gsn)@ == old(gsn)@,
                Ok(_) => r == Ok::<(), GsnError>(()) && final(gsn)@ == add_token_apply(
                    old(gsn)@,
                    args.mint,
                ),
            },
    {
        if !authority_is_signer {
            return Err(GsnError::Unauthorized);
        }
        if !gsn.is_authority(authority) {
            return Err(GsnError::Unauthorized);
        }
        gsn.add_allowed_token(args.mint);
        Ok(())
    }

    /// Removes a token mint from the allow-list; gated on the governance
    /// authority.
    pub fn process_remove_allowed_token(
        gsn: &mut GsnInfo,
        authority: Address,
        authority_is_signer: bool,
        args: TokenMintArgs,
    ) -> (r: Result<(), GsnError>)
        requires
            old(gsn)@.wf(),
        ensures
            final(gsn)@.wf(),
            match auth_check(old(gsn)@, authority, authority_is_signer) {
                Err(e) => r == Err::<(), GsnError>(e) && final(gsn)@ == old(gsn)@,
                Ok(_) => r == Ok::<(), GsnError>(()) && final(gsn)@ == remove_token_apply(
                    old(gsn)@,
                    args.mint,
                ),
            },
    {
        if !authority_is_signer {
            return Err(GsnError::Unauthorized);
        }
        if !gsn.is_authority(authority) {
            return Err(GsnError::Unauthorized);
        }
        gsn.remove_allowed_token(args.mint);
        Ok(())
    }

    /// The validation a fee claim must pass before the payout transfer is
    /// attempted; returns the earned amount it pays out. Mutates nothing.
    pub fn check_claim_fees(
        gsn: &GsnInfo,
        executor: Address,
        destination: Address,
        executor_is_signer: bool,
    ) -> (r: Result<u64, GsnError>)
        ensures
            r == claim_check(gsn@, executor, destination, executor_is_signer),
    {
        if !executor_is_signer {
            return Err(GsnError::UnauthorizedFeeClaim);
        }
        if executor != destination {
            return Err(GsnError::UnauthorizedFeeClaim);
        }
        let earned_fees = match gsn.executor.get(executor) {
            Some(v) => v,
            None => 0,
        };
        if earned_fees == 0 {
            return Err(GsnError::InsufficientFunds);
        }
        Ok(earned_fees)
    }

    /// Settles a fee claim given the payout transfer's outcome. A claim that
    /// fails validation is refused with that error and the record untouched,
    /// whatever the outcome argument says; a failed transfer leaves the
    /// record untouched; a validated claim with a successful transfer resets
    /// the executor's earnings to zero.
    pub fn process_claim_fees(
        gsn: &mut GsnInfo,
        executor: Address,
        destination: Address,
        executor_is_signer: bool,
        transfer_ok: bool,
    ) -> (r: Result<(), GsnError>)
        requires
            old(gsn)@.wf(),
        ensures
            final(gsn)@.wf(),
            match claim_check(old(gsn)@, executor, destination, executor_is_signer) {
                Err(e) => r == Err::<(), GsnError>(e) && final(gsn)@ == old(gsn)@,
                Ok(_) => if transfer_ok {
                    r == Ok::<(), GsnError>(()) && final(gsn)@ == claim_apply(
                        old(gsn)@,
                        executor,
                    )
                } else {
                    r == Err::<(), GsnError>(GsnError::TransferFailed) && final(gsn)@ == old(
                        gsn,
                    )@
                },
            },
    {
        match Self::check_claim_fees(gsn, executor, destination, executor_is_signer) {
            Err(e) => {
                return Err(e);
            },
            Ok(_) => {},
        }
        if !transfer_ok {
            return Err(GsnError::TransferFailed);
        }
        gsn.add_executor(executor, 0);
        Ok(())
    }
}

// ---------------------------------------------------------------------------
// The dispatcher: the full read-modify-write step over the persisted buffer.
// ---------------------------------------------------------------------------

/// Writes `v`'s encoding over the front of `data`, keeping the trailing
/// bytes, or refuses a buffer too small for it.
pub open spec fn persist(data: Seq<u8>, v: GsnView) -> (Seq<u8>, Result<(), GsnError>) {
    let bytes = spec_ser_record(v);
    if bytes.len() <= data.len() {
        (bytes + data.skip(bytes.len() as int), Ok(()))
    } else {
        (data, Err(GsnError::StorageTooSmall))
    }
}

/// One full instruction step: what the persisted buffer becomes and what the
/// caller is told, for a ledger buffer, a positional account list, an
/// instruction buffer, and the external transfer's outcome. Every failure
/// leaves the buffer exactly as it was.
pub open spec fn spec_process(
    data: Seq<u8>,
    accounts: Seq<AccountRef>,
    input: Seq<u8>,
    transfer_ok: bool,
) -> (Seq<u8>, Result<(), GsnError>) {
    match spec_decode(input) {
        None => (data, Err(GsnError::InvalidInstructionData)),
        Some(instruction) => match instruction {
            GsnInstruction::Initialize => {
                if accounts.len() < 1 {
                    (data, Err(GsnError::MissingAccount))
                } else {
                    let authority = if accounts.len() >= 2 {
                        Some(accounts[1])
                    } else {
                        None
                    };
                    match authority {
                        Some(acct) => if acct.is_signer {
                            persist(data, init_view(authority))
                        } else {
                            (data, Err(GsnError::Unauthorized))
                        },
                        None => persist(data, init_view(authority)),
                    }
                }
            },
            GsnInstruction::Topup(args) => {
                if accounts.len() < 2 {
                    (data, Err(GsnError::MissingAccount))
                } else {
                    match spec_parse_record(data, 0) {
                        None => (data, Err(GsnError::InvalidRecord)),
                        Some((v, _)) => persist(data, topup_apply(v, accounts[1].key, args.amount)),
                    }
                }
            },
            GsnInstruction::SubmitTransaction(args) => {
                if accounts.len() < 5 {
                    (data, Err(GsnError::MissingAccount))
                } else {
                    match spec_parse_record(data, 0) {
                        None => (data, Err(GsnError::InvalidRecord)),
                        Some((v, _)) => {
                            let sender = accounts[1].key;
                            let executor = accounts[3].key;
                            match submit_check(v, sender, args.amount, args.nonce) {
                                Err(e) => (data, Err(e)),
                                Ok(_) => if transfer_ok {
                                    persist(
                                        data,
                                        submit_apply(v, sender, executor, args.amount, args.nonce),
                                    )
                                } else {
                                    (data, Err(GsnError::TransferFailed))
                                },
                            }
                        },
                    }
                }
            },
            GsnInstruction::UpdateFeeParams(args) => {
                if accounts.len() < 2 {
                    (data, Err(GsnError::MissingAccount))
                } else {
                    match spec_parse_record(data, 0) {
                        None => (data, Err(GsnError::InvalidRecord)),
                        Some((v, _)) => match auth_check(
                            v,
                            accounts[1].key,
                            accounts[1].is_signer,
                        ) {
                            Err(e) => (data, Err(e)),
                            Ok(_) => match fee_mode_of_args(args.fee_mode_type, args.fee_value) {
                                Err(e) => (data, Err(e)),
                                Ok(mode) => persist(data, update_fee_apply(v, mode)),
                            },
                        },
                    }
                }
            },
            GsnInstruction::AddAllowedToken(args) => {
                if accounts.len() < 2 {
                    (data, Err(GsnError::MissingAccount))
                } else {
                    match spec_parse_record(data, 0) {
                        None => (data, Err(GsnError::InvalidRecord)),
                        Some((v, _)) => match auth_check(
                            v,
                            accounts[1].key,
                            accounts[1].is_signer,
                        ) {
                            Err(e) => (data, Err(e)),
                            Ok(_) => persist(data, add_token_apply(v, args.mint)),
                        },
                    }
                }
            },
            GsnInstruction::RemoveAllowedToken(args) => {
                if accounts.len() < 2 {
                    (data, Err(GsnError::MissingAccount))
                } else {
                    match spec_parse_record(data, 0) {
                        None => (data, Err(GsnError::InvalidRecord)),
                        Some((v, _)) => match auth_check(
                            v,
                            accounts[1].key,
                            accounts[1].is_signer,
                        ) {
                            Err(e) => (data, Err(e)),
                            Ok(_) => persist(data, remove_token_apply(v, args.mint)),
                        },
                    }
                }
            },
            GsnInstruction::ClaimFees => {
                if accounts.len() < 4 {
                    (data, Err(GsnError::MissingAccount))
                } else {
                    match spec_parse_record(data, 0) {
                        None => (data, Err(GsnError::InvalidRecord)),
                        Some((v, _)) => {
                            let executor = accounts[1].key;
                            let destination = accounts[2].key;
                            match claim_check(v, executor, destination, accounts[1].is_signer) {
                                Err(e) => (data, Err(e)),
                                Ok(_) => if transfer_ok {
                                    persist(data, claim_apply(v, executor))
                                } else {
                                    (data, Err(GsnError::TransferFailed))
                                },
                            }
                        },
                    }
                }
            },
        },
    }
}

/// The machine-limit side conditions under which a step cannot hit an
/// arithmetic bound: balances and nonces stay within u64 and the resulting
/// maps stay within a u32 entry count.
pub open spec fn process_defined(
    data: Seq<u8>,
    accounts: Seq<AccountRef>,
    input: Seq<u8>,
    transfer_ok: bool,
) -> bool {
    match spec_decode(input) {
        None => true,
        Some(instruction) => match instruction {
            GsnInstruction::Initialize => true,
            GsnInstruction::Topup(args) => accounts.len() < 2 || match spec_parse_record(data, 0) {
                None => true,
                Some((v, _)) => v.balance_of(accounts[1].key) + args.amount <= u64::MAX
                    && counts_fit(topup_apply(v, accounts[1].key, args.amount)),
            },
            GsnInstruction::SubmitTransaction(args) => accounts.len() < 5 || match spec_parse_record(
                data,
                0,
            ) {
                None => true,
                Some((v, _)) => {
                    let sender = accounts[1].key;
                    let executor = accounts[3].key;
                    submit_check(v, sender, args.amount, args.nonce) is Ok && transfer_ok ==> {
                        &&& args.nonce < u64::MAX
                        &&& v.executor_balance_of(executor) + v.fee_of(args.amount) <= u64::MAX
                        &&& counts_fit(
                            submit_apply(v, sender, executor, args.amount, args.nonce),
                        )
                    }
                },
            },
            GsnInstruction::UpdateFeeParams(_) => accounts.len() < 2 || match spec_parse_record(
                data,
                0,
            ) {
                None => true,
                Some((v, _)) => counts_fit(v),
            },
            GsnInstruction::AddAllowedToken(args) => accounts.len() < 2 || match spec_parse_record(
                data,
                0,
            ) {
                None => true,
                Some((v, _)) => counts_fit(add_token_apply(v, args.mint)),
            },
            GsnInstruction::RemoveAllowedToken(args) => accounts.len() < 2
                || match spec_parse_record(data, 0) {
                None => true,
                Some((v, _)) => counts_fit(remove_token_apply(v, args.mint)),
            },
            GsnInstruction::ClaimFees => accounts.len() < 4 || match spec_parse_record(data, 0) {
                None => true,
                Some((v, _)) => counts_fit(claim_apply(v, accounts[1].key)),
            },
        },
    }
}

impl Processor {
    /// One full instruction against the persisted ledger buffer: decode the
    /// instruction, read the record, run the handler, and write the record
    /// back on success. `accounts` is the host's positional account list;
    /// `transfer_ok` is the external transfer's outcome, consulted only by
    /// the two instructions that invoke it. Conforms exactly to
    /// `spec_process`; every failure leaves the buffer untouched.
    #[verifier::spinoff_prover]
    #[verifier::rlimit(100)]
    pub fn process(
        data: &mut Vec<u8>,
        accounts: &Vec<AccountRef>,
        input: &[u8],
        transfer_ok: bool,
    ) -> (r: Result<(), GsnError>)
        requires
            process_defined(old(data)@, accounts@, input@, transfer_ok),
        ensures
            final(data)@ == spec_process(old(data)@, accounts@, input@, transfer_ok).0,
            r == spec_process(old(data)@, accounts@, input@, transfer_ok).1,
    {
        let instruction = match GsnInstruction::deserialize(input) {
            Ok(i) => i,
            Err(e) => {
                return Err(e);
            },
        };
        match instruction {
            GsnInstruction::Initialize => {
                if accounts.len() < 1 {
                    return Err(GsnError::MissingAccount);
                }
                let authority = if accounts.len() >= 2 {
                    Some(accounts[1])
                } else {
                    None
                };
                let gsn = match Self::process_initialize(authority) {
                    Ok(g) => g,
                    Err(e) => {
                        return Err(e);
                    },
                };
                gsn.serialize(data)
            },
            GsnInstruction::Topup(args) => {
                if accounts.len() < 2 {
                    return Err(GsnError::MissingAccount);
                }
                let consumer = accounts[1].key;
                let mut gsn = match GsnInfo::deserialize(data.as_slice()) {
                    Ok(g) => g,
                    Err(e) => {
                        return Err(e);
                    },
                };
                match Self::process_topup(&mut gsn, consumer, args.amount) {
                    Ok(_) => {},
                    Err(e) => {
                        return Err(e);
                    },
                }
                gsn.serialize(data)
            },
            GsnInstruction::SubmitTransaction(args) => {
                if accounts.len() < 5 {
                    return Err(GsnError::MissingAccount);
                }
                let sender = accounts[1].key;
                let executor = accounts[3].key;
                let mut gsn = match GsnInfo::deserialize(data.as_slice()) {
                    Ok(g) => g,
                    Err(e) => {
                        return Err(e);
                    },
                };
                match Self::process_submit_tx(
                    &mut gsn,
                    sender,
                    executor,
                    args.amount,
                    args.nonce,
                    transfer_ok,
                ) {
                    Ok(_) => {},
                    Err(e) => {
                        return Err(e);
                    },
                }
                gsn.serialize(data)
            },
            GsnInstruction::UpdateFeeParams(args) => {
                if accounts.len() < 2 {
                    return Err(GsnError::MissingAccount);
                }
                let authority = accounts[1];
                let mut gsn = match GsnInfo::deserialize(data.as_slice()) {
                    Ok(g) => g,
                    Err(e) => {
                        return Err(e);
                    },
                };
                match Self::process_update_fee_params(
                    &mut gsn,
                    authority.key,
                    authority.is_signer,
                    args,
                ) {
                    Ok(_) => {},
                    Err(e) => {
                        return Err(e);
                    },
                }
                gsn.serialize(data)
            },
            GsnInstruction::AddAllowedToken(args) => {
                if accounts.len() < 2 {
                    return Err(GsnError::MissingAccount);
                }
                let authority = accounts[1];
                let mut gsn = match GsnInfo::deserialize(data.as_slice()) {
                    Ok(g) => g,
                    Err(e) => {
                        return Err(e);
                    },
                };
                match Self::process_add_allowed_token(
                    &mut gsn,
                    authority.key,
                    authority.is_signer,
                    args,
                ) {
                    Ok(_) => {},
                    Err(e) => {
                        return Err(e);
                    },
                }
                gsn.serialize(data)
            },
            GsnInstruction::RemoveAllowedToken(args) => {
                if accounts.len() < 2 {
                    return Err(GsnError::MissingAccount);
                }
                let authority = accounts[1];
                let mut gsn = match GsnInfo::deserialize(data.as_slice()) {
                    Ok(g) => g,
                    Err(e) => {
                        return Err(e);
                    },
                };
                match Self::process_remove_allowed_token(
                    &mut gsn,
                    authority.key,
                    authority.is_signer,
                    args,
                ) {
                    Ok(_) => {},
                    Err(e) => {
                        return Err(e);
                    },
                }
                gsn.serialize(data)
            },
            GsnInstruction::ClaimFees => {
                if accounts.len() < 4 {
                    return Err(GsnError::MissingAccount);
                }
                let executor = accounts[1];
                let destination = accounts[2];
                let mut gsn = match GsnInfo::deserialize(data.as_slice()) {
                    Ok(g) => g,
                    Err(e) => {
                        return Err(e);
                    },
                };
                match Self::process_claim_fees(
                    &mut gsn,
                    executor.key,
                    destination.key,
                    executor.is_signer,
                    transfer_ok,
                ) {
                    Ok(_) => {},
                    Err(e) => {
                        return Err(e);
                    },
                }
                gsn.serialize(data)
            },
        }
    }
}

} // verus!
