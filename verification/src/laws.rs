//! The library's laws: properties of the state machine that hold for every
//! record and every input, proved once and for all over the spec transitions
//! that the handlers' contracts are stated against.

use vstd::prelude::*;
use crate::addr::Address;
use crate::error::GsnError;
use crate::maps::{lemma_slookup_supsert, lemma_supsert_absent};
use crate::processor::{submit_apply, submit_check};
use crate::state::{FeeMode, GsnView, DEFAULT_FEE};

verus! {

/// Nonce monotonicity: a successful submission advances the sender's
/// expected nonce by exactly one and touches no other consumer's nonce. A
/// refused submission leaves the record — so every nonce — unchanged, by the
/// contract of `Processor::process_submit_tx`; together the expected nonce
/// never decreases.
pub proof fn lemma_nonce_advances_by_one(
    v: GsnView,
    sender: Address,
    executor: Address,
    amount: u64,
    nonce: u64,
)
    requires
        v.wf(),
        v.nonce_of(sender) < u64::MAX,
        submit_check(v, sender, amount, nonce) is Ok,
    ensures
        submit_apply(v, sender, executor, amount, nonce).nonce_of(sender) == v.nonce_of(sender)
            + 1,
        forall|c: Address|
            c != sender ==> submit_apply(v, sender, executor, amount, nonce).nonce_of(c)
                == v.nonce_of(c),
{
    let v2 = submit_apply(v, sender, executor, amount, nonce);
    assert(nonce == v.nonce_of(sender));
    lemma_slookup_supsert(v.consumer_nonces, sender, (nonce + 1) as u64, sender);
    assert forall|c: Address| c != sender implies v2.nonce_of(c) == v.nonce_of(c) by {
        lemma_slookup_supsert(v.consumer_nonces, sender, (nonce + 1) as u64, c);
    }
}

/// Replay protection: for a sender that has topped up, a nonce below the
/// expected one is always refused as a replay, and a nonce above it is
/// always refused as invalid. Neither refusal mutates the record: the
/// contract of `Processor::process_submit_tx` leaves it untouched on every
/// error. (A sender that never topped up is refused earlier, with
/// `InvalidInstructionData`, whatever its nonce.)
pub proof fn lemma_replay_and_skip_rejected(v: GsnView, sender: Address, amount: u64, nonce: u64)
    requires
        v.has_consumer(sender),
    ensures
        nonce < v.nonce_of(sender) ==> submit_check(v, sender, amount, nonce) == Err::<
            u64,
            GsnError,
        >(GsnError::ReplayAttack),
        nonce > v.nonce_of(sender) ==> submit_check(v, sender, amount, nonce) == Err::<
            u64,
            GsnError,
        >(GsnError::InvalidNonce),
{
}

/// The fee is a pure function of the fee policy and the transferred amount:
/// a fixed fee is that amount whatever is transferred, a percent fee is
/// `floor(amount * bp / 10000)`, and without governance the fallback
/// applies.
pub proof fn lemma_fee_formula(v: GsnView, amount: u64)
    ensures
        match v.governance {
            Some(g) => match g.fee_mode {
                FeeMode::Fixed(f) => v.fee_of(amount) == f,
                FeeMode::Percent(bp) => v.fee_of(amount) == (amount as int * bp as int) / 10000,
            },
            None => v.fee_of(amount) == DEFAULT_FEE,
        },
{
}

/// Balance sufficiency is checked before execution: a sender whose balance
/// does not cover the fee is refused with `InsufficientBalance` at the
/// validation step — the step a caller consults before invoking the external
/// transfer — and `Processor::process_submit_tx` refuses it with the same
/// error and an untouched record whatever the transfer outcome argument
/// says. (A nonce mismatch is refused earlier still.)
pub proof fn lemma_insufficient_balance_rejected(
    v: GsnView,
    sender: Address,
    amount: u64,
    nonce: u64,
)
    requires
        v.has_consumer(sender),
        nonce == v.nonce_of(sender),
        (v.balance_of(sender) as int) < v.fee_of(amount),
    ensures
        submit_check(v, sender, amount, nonce) == Err::<u64, GsnError>(
            GsnError::InsufficientBalance,
        ),
{
}

/// Every audit entry records a nonce its consumer has already spent: the
/// logged nonce lies strictly below that consumer's next expected nonce.
/// Initialization starts with an empty trail, and only a successful
/// submission touches it, so this holds of every record the handlers can
/// reach.
pub open spec fn audit_nonces_spent(v: GsnView) -> bool {
    forall|i: int|
        0 <= i < v.transaction_executor.len()
            ==> #[trigger] v.transaction_executor[i].0.1 < v.nonce_of(
            v.transaction_executor[i].0.0,
        )
}

/// The audit trail is write-once: a successful submission logs its executor
/// under a (sender, nonce) key that was never logged before, leaves every
/// other audit entry exactly as it was, and keeps the invariant that every
/// logged nonce is spent.
pub proof fn lemma_audit_write_once(
    v: GsnView,
    sender: Address,
    executor: Address,
    amount: u64,
    nonce: u64,
)
    requires
        v.wf(),
        audit_nonces_spent(v),
        v.nonce_of(sender) < u64::MAX,
        submit_check(v, sender, amount, nonce) is Ok,
    ensures
        v.executor_of(sender, nonce) is None,
        submit_apply(v, sender, executor, amount, nonce).executor_of(sender, nonce) == Some(
            executor,
        ),
        forall|c: Address, n: u64|
            (c, n) != (sender, nonce) ==> submit_apply(
                v,
                sender,
                executor,
                amount,
                nonce,
            ).executor_of(c, n) == v.executor_of(c, n),
        audit_nonces_spent(submit_apply(v, sender, executor, amount, nonce)),
{
    let v2 = submit_apply(v, sender, executor, amount, nonce);
    assert(nonce == v.nonce_of(sender));

    // The key (sender, nonce) stands at no index: its nonce is not spent yet.
    assert forall|i: int|
        0 <= i < v.transaction_executor.len() implies v.transaction_executor[i].0 != (
    sender,
    nonce,
    ) by {
        if v.transaction_executor[i].0 == (sender, nonce) {
            assert(v.transaction_executor[i].0.1 < v.nonce_of(sender));
        }
    }
    crate::maps::lemma_slookup_none_when_absent(v.transaction_executor, (sender, nonce));
    lemma_supsert_absent(v.transaction_executor, (sender, nonce), executor);

    // Lookups in the extended trail.
    lemma_slookup_supsert(v.transaction_executor, (sender, nonce), executor, (sender, nonce));
    assert forall|c: Address, n: u64| (c, n) != (sender, nonce) implies v2.executor_of(c, n)
        == v.executor_of(c, n) by {
        lemma_slookup_supsert(v.transaction_executor, (sender, nonce), executor, (c, n));
    }

    // Every logged nonce stays spent: the sender's expected nonce advanced,
    // no other consumer's moved, and the new entry's nonce is now spent too.
    assert forall|i: int|
        0 <= i < v2.transaction_executor.len() implies v2.transaction_executor[i].0.1
            < v2.nonce_of(v2.transaction_executor[i].0.0) by {
        let entry = v2.transaction_executor[i];
        lemma_slookup_supsert(v.consumer_nonces, sender, (nonce + 1) as u64, entry.0.0);
        if i < v.transaction_executor.len() {
            assert(entry == v.transaction_executor[i]);
        } else {
            assert(entry == ((sender, nonce), executor));
        }
    }
}

} // verus!
