//! The ledger record: the single persisted aggregate.
//!
//! `GsnInfo` holds the consumer balances, the executor earnings, the
//! per-consumer nonces, the optional governance configuration, and the audit
//! trail mapping each executed (consumer, nonce) pair to its executor.
//! `GsnView` is its mathematical model; every method's contract is stated
//! over it.

use vstd::prelude::*;
use crate::addr::Address;
use crate::maps::{
    skeys_unique, slookup, supsert, sremove, lemma_supsert_unique, lemma_sremove_unique,
    BalanceMap, ExecutorLog, TokenMap,
};

verus! {

/// The fee charged when no governance is configured.
pub const DEFAULT_FEE: u64 = 50000;

/// How the relay fee is computed.
#[derive(Clone, Copy, Debug, PartialEq, Eq, Structural)]
pub enum FeeMode {
    /// A fixed fee, independent of the transferred amount.
    Fixed(u64),
    /// A percentage of the transferred amount, in basis points (100 = 1%).
    Percent(u16),
}

/// A percent fee stays within 10000 basis points.
pub open spec fn fee_mode_wf(m: FeeMode) -> bool {
    match m {
        FeeMode::Fixed(_) => true,
        FeeMode::Percent(bp) => bp <= 10000,
    }
}

/// Governance configuration: present only when an authority was set at
/// initialization.
#[derive(Clone, Debug)]
pub struct GovernanceConfig {
    /// The single key authorized to mutate fee policy and the allow-list.
    pub authority: Address,
    /// The fee policy in force.
    pub fee_mode: FeeMode,
    /// Allowed token mints; an empty list means every token is allowed.
    pub allowed_tokens: TokenMap,
}

/// The model of a governance configuration.
pub struct GovView {
    pub authority: Address,
    pub fee_mode: FeeMode,
    pub allowed_tokens: Seq<(Address, bool)>,
}

impl View for GovernanceConfig {
    type V = GovView;

    open spec fn view(&self) -> GovView {
        GovView {
            authority: self.authority,
            fee_mode: self.fee_mode,
            allowed_tokens: self.allowed_tokens@,
        }
    }
}

/// The ledger record.
pub struct GsnInfo {
    pub is_initialized: bool,
    /// Pre-funded top-up balance per consumer; a missing key means 0.
    pub consumer: BalanceMap,
    /// Accumulated, unclaimed fee earnings per executor.
    pub executor: BalanceMap,
    /// Present only when governance is configured.
    pub governance: Option<GovernanceConfig>,
    /// Next expected nonce per consumer; a missing key means 0.
    pub consumer_nonces: BalanceMap,
    /// Which executor serviced each executed (consumer, nonce) pair.
    pub transaction_executor: ExecutorLog,
}

/// The model of a ledger record.
pub struct GsnView {
    pub is_initialized: bool,
    pub consumer: Seq<(Address, u64)>,
    pub executor: Seq<(Address, u64)>,
    pub governance: Option<GovView>,
    pub consumer_nonces: Seq<(Address, u64)>,
    pub transaction_executor: Seq<((Address, u64), Address)>,
}

impl View for GsnInfo {
    type V = GsnView;

    open spec fn view(&self) -> GsnView {
        GsnView {
            is_initialized: self.is_initialized,
            consumer: self.consumer@,
            executor: self.executor@,
            governance: match self.governance {
                Some(g) => Some(g@),
                None => None,
            },
            consumer_nonces: self.consumer_nonces@,
            transaction_executor: self.transaction_executor@,
        }
    }
}

impl GsnView {
    /// Well-formedness: map keys pairwise distinct, percent fee within range.
    pub open spec fn wf(self) -> bool {
        &&& skeys_unique(self.consumer)
        &&& skeys_unique(self.executor)
        &&& skeys_unique(self.consumer_nonces)
        &&& skeys_unique(self.transaction_executor)
        &&& match self.governance {
            Some(g) => fee_mode_wf(g.fee_mode) && skeys_unique(g.allowed_tokens),
            None => true,
        }
    }

    /// A consumer's pre-funded balance; 0 when the consumer has no entry.
    pub open spec fn balance_of(self, a: Address) -> u64 {
        match slookup(self.consumer, a) {
            Some(v) => v,
            None => 0,
        }
    }

    /// Whether a consumer has ever topped up.
    pub open spec fn has_consumer(self, a: Address) -> bool {
        slookup(self.consumer, a) is Some
    }

    /// An executor's unclaimed earnings; 0 when the executor has no entry.
    pub open spec fn executor_balance_of(self, a: Address) -> u64 {
        match slookup(self.executor, a) {
            Some(v) => v,
            None => 0,
        }
    }

    /// A consumer's next expected nonce; 0 for an unseen consumer.
    pub open spec fn nonce_of(self, a: Address) -> u64 {
        match slookup(self.consumer_nonces, a) {
            Some(v) => v,
            None => 0,
        }
    }

    /// The executor of record for an executed (consumer, nonce) pair.
    pub open spec fn executor_of(self, consumer: Address, nonce: u64) -> Option<Address> {
        slookup(self.transaction_executor, (consumer, nonce))
    }

    /// Whether `a` is the configured governance authority.
    pub open spec fn is_authority_spec(self, a: Address) -> bool {
        match self.governance {
            Some(g) => g.authority == a,
            None => false,
        }
    }

    /// The fee owed for relaying a transfer of `amount`: the fixed amount, or
    /// `floor(amount * bp / 10000)`, or the fallback when no governance is
    /// configured.
    pub open spec fn fee_of(self, amount: u64) -> int {
        match self.governance {
            Some(g) => match g.fee_mode {
                FeeMode::Fixed(f) => f as int,
                FeeMode::Percent(bp) => (amount as int * bp as int) / 10000,
            },
            None => DEFAULT_FEE as int,
        }
    }

    /// Whether `token` may be used: yes when governance is absent, or the
    /// allow-list is empty, or the token is listed with a true flag.
    pub open spec fn token_allowed_spec(self, token: Address) -> bool {
        match self.governance {
            Some(g) => g.allowed_tokens.len() == 0 || slookup(g.allowed_tokens, token) == Some(
                true,
            ),
            None => true,
        }
    }
}

/// Under well-formedness the fee fits in a u64: a fixed fee is a u64, and a
/// percent fee never exceeds the transferred amount.
pub proof fn lemma_fee_bounded(v: GsnView, amount: u64)
    requires
        v.wf(),
    ensures
        0 <= v.fee_of(amount) <= u64::MAX,
{
    match v.governance {
        Some(g) => match g.fee_mode {
            FeeMode::Fixed(_) => {},
            FeeMode::Percent(bp) => {
                assert((amount as int * bp as int) / 10000 <= amount as int && 0 <= (amount as int
                    * bp as int) / 10000) by (nonlinear_arith)
                    requires
                        0 <= bp <= 10000,
                        0 <= amount,
                ;
            },
        },
        None => {},
    }
}

impl GsnInfo {
    /// A fresh, initialized ledger with no governance and empty maps.
    pub fn new() -> (r: GsnInfo)
        ensures
            r@ == (GsnView {
                is_initialized: true,
                consumer: Seq::<(Address, u64)>::empty(),
                executor: Seq::<(Address, u64)>::empty(),
                governance: None::<GovView>,
                consumer_nonces: Seq::<(Address, u64)>::empty(),
                transaction_executor: Seq::<((Address, u64), Address)>::empty(),
            }),
            r@.wf(),
    {
        GsnInfo {
            is_initialized: true,
            consumer: BalanceMap::new(),
            executor: BalanceMap::new(),
            governance: None,
            consumer_nonces: BalanceMap::new(),
            transaction_executor: ExecutorLog::new(),
        }
    }

    /// Sets `address`'s pre-funded balance to `amount` outright.
    pub fn add_consumer(&mut self, address: Address, amount: u64) -> (r: bool)
        requires
            old(self)@.wf(),
        ensures
            final(self)@ == (GsnView {
                consumer: supsert(old(self)@.consumer, address, amount),
                ..old(self)@
            }),
            final(self)@.wf(),
            r == true,
    {
        proof {
            lemma_supsert_unique(self@.consumer, address, amount);
        }
        self.consumer.insert(address, amount);
        true
    }

    /// Sets `address`'s unclaimed earnings to `amount` outright.
    pub fn add_executor(&mut self, address: Address, amount: u64) -> (r: bool)
        requires
            old(self)@.wf(),
        ensures
            final(self)@ == (GsnView {
                executor: supsert(old(self)@.executor, address, amount),
                ..old(self)@
            }),
            final(self)@.wf(),
            r == true,
    {
        proof {
            lemma_supsert_unique(self@.executor, address, amount);
        }
        self.executor.insert(address, amount);
        true
    }

    /// Configures governance under `authority` with the default fixed fee and
    /// an open allow-list.
    pub fn initialize_governance(&mut self, authority: Address)
        requires
            old(self)@.wf(),
        ensures
            final(self)@ == (GsnView {
                governance: Some(
                    GovView {
                        authority,
                        fee_mode: FeeMode::Fixed(DEFAULT_FEE),
                        allowed_tokens: Seq::<(Address, bool)>::empty(),
                    },
                ),
                ..old(self)@
            }),
            final(self)@.wf(),
    {
        self.governance = Some(
            GovernanceConfig {
                authority,
                fee_mode: FeeMode::Fixed(DEFAULT_FEE),
                allowed_tokens: TokenMap::new(),
            },
        );
    }

    /// The fee owed for relaying a transfer of `transaction_amount`.
    pub fn calculate_fee(&self, transaction_amount: u64) -> (r: u64)
        requires
            self@.wf(),
        ensures
            r == self@.fee_of(transaction_amount),
    {
        match &self.governance {
            Some(gov) => match &gov.fee_mode {
                FeeMode::Fixed(amount) => *amount,
                FeeMode::Percent(basis_points) => {
                    let bp = *basis_points;
                    proof {
                        lemma_fee_bounded(self@, transaction_amount);
                        assert(transaction_amount as int * bp as int == transaction_amount as u128
                            as int * bp as u128 as int);
                    }
                    let wide: u128 = transaction_amount as u128 * bp as u128 / 10000;
                    proof {
                        assert(wide <= u64::MAX as u128);
                    }
                    wide as u64
                },
            },
            None => DEFAULT_FEE,
        }
    }

    /// Whether `token_mint` may be used for fee payment.
    pub fn is_token_allowed(&self, token_mint: Address) -> (r: bool)
        ensures
            r == self@.token_allowed_spec(token_mint),
    {
        match &self.governance {
            Some(gov) => {
                if gov.allowed_tokens.is_empty() {
                    true
                } else {
                    match gov.allowed_tokens.get(token_mint) {
                        Some(flag) => flag,
                        None => false,
                    }
                }
            },
            None => true,
        }
    }

    /// Inserts `token_mint` into the allow-list; a no-op when governance is
    /// absent.
    pub fn add_allowed_token(&mut self, token_mint: Address)
        requires
            old(self)@.wf(),
        ensures
            final(self)@ == (match old(self)@.governance {
                Some(g) => GsnView {
                    governance: Some(
                        GovView {
                            allowed_tokens: supsert(g.allowed_tokens, token_mint, true),
                            ..g
                        },
                    ),
                    ..old(self)@
                },
                None => old(self)@,
            }),
            final(self)@.wf(),
    {
        match &mut self.governance {
            Some(gov) => {
                proof {
                    lemma_supsert_unique(gov.allowed_tokens@, token_mint, true);
                }
                gov.allowed_tokens.insert(token_mint, true);
            },
            None => {},
        }
    }

    /// Removes `token_mint` from the allow-list; a no-op when governance is
    /// absent.
    pub fn remove_allowed_token(&mut self, token_mint: Address)
        requires
            old(self)@.wf(),
        ensures
            final(self)@ == (match old(self)@.governance {
                Some(g) => GsnView {
                    governance: Some(
                        GovView { allowed_tokens: sremove(g.allowed_tokens, token_mint), ..g },
                    ),
                    ..old(self)@
                },
                None => old(self)@,
            }),
            final(self)@.wf(),
    {
        match &mut self.governance {
            Some(gov) => {
                proof {
                    lemma_sremove_unique(gov.allowed_tokens@, token_mint);
                }
                gov.allowed_tokens.remove(token_mint);
            },
            None => {},
        }
    }

    /// Replaces the fee policy; a no-op when governance is absent.
    pub fn update_fee_params(&mut self, fee_mode: FeeMode)
        requires
            old(self)@.wf(),
            fee_mode_wf(fee_mode),
        ensures
            final(self)@ == (match old(self)@.governance {
                Some(g) => GsnView {
                    governance: Some(GovView { fee_mode, ..g }),
                    ..old(self)@
                },
                None => old(self)@,
            }),
            final(self)@.wf(),
    {
        match &mut self.governance {
            Some(gov) => {
                gov.fee_mode = fee_mode;
            },
            None => {},
        }
    }

    /// Whether `address` is the configured governance authority.
    pub fn is_authority(&self, address: Address) -> (r: bool)
        ensures
            r == self@.is_authority_spec(address),
    {
        match &self.governance {
            Some(gov) => gov.authority == address,
            None => false,
        }
    }

    /// The next expected nonce for `consumer`; 0 for an unseen consumer.
    pub fn get_next_nonce(&self, consumer: Address) -> (r: u64)
        ensures
            r == self@.nonce_of(consumer),
    {
        match self.consumer_nonces.get(consumer) {
            Some(n) => n,
            None => 0,
        }
    }

    /// Advances `consumer`'s expected nonce by one and returns the new value.
    pub fn increment_nonce(&mut self, consumer: Address) -> (r: u64)
        requires
            old(self)@.wf(),
            old(self)@.nonce_of(consumer) < u64::MAX,
        ensures
            final(self)@ == (GsnView {
                consumer_nonces: supsert(
                    old(self)@.consumer_nonces,
                    consumer,
                    (old(self)@.nonce_of(consumer) + 1) as u64,
                ),
                ..old(self)@
            }),
            final(self)@.wf(),
            r == old(self)@.nonce_of(consumer) + 1,
    {
        let current_nonce = self.get_next_nonce(consumer);
        let next_nonce = current_nonce + 1;
        proof {
            lemma_supsert_unique(self@.consumer_nonces, consumer, next_nonce);
        }
        self.consumer_nonces.insert(consumer, next_nonce);
        next_nonce
    }

    /// Whether `nonce` was already consumed by `consumer`: true exactly when
    /// it lies below the next expected nonce.
    pub fn is_nonce_used(&self, consumer: Address, nonce: u64) -> (r: bool)
        ensures
            r == (nonce < self@.nonce_of(consumer)),
    {
        let next_nonce = self.get_next_nonce(consumer);
        nonce < next_nonce
    }

    /// Records `executor` as the party that serviced `consumer`'s transaction
    /// under `nonce`.
    pub fn record_transaction_executor(&mut self, consumer: Address, nonce: u64, executor: Address)
        requires
            old(self)@.wf(),
        ensures
            final(self)@ == (GsnView {
                transaction_executor: supsert(
                    old(self)@.transaction_executor,
                    (consumer, nonce),
                    executor,
                ),
                ..old(self)@
            }),
            final(self)@.wf(),
    {
        proof {
            lemma_supsert_unique(self@.transaction_executor, (consumer, nonce), executor);
        }
        self.transaction_executor.insert(consumer, nonce, executor);
    }

    /// The executor of record for `consumer`'s transaction under `nonce`.
    pub fn get_transaction_executor(&self, consumer: Address, nonce: u64) -> (r: Option<Address>)
        ensures
            r == self@.executor_of(consumer, nonce),
    {
        self.transaction_executor.get(consumer, nonce)
    }
}

} // verus!
