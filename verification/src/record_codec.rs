//! The persisted wire format of the ledger record.
//!
//! The format is deterministic in the record's in-memory value: one flag
//! byte, then each map as a little-endian u32 entry count followed by its
//! entries in order, the governance configuration behind a presence byte,
//! and the fee mode behind a one-byte tag. A buffer longer than the encoding
//! is accepted (the persisted account buffer has a fixed size); a truncated
//! or malformed buffer, a duplicate map key, an unknown tag, or a percent
//! fee beyond 10000 basis points is rejected.
//!
//! `spec_ser_record` and `spec_parse_record` define the format; the lemmas
//! prove that parsing an encoding yields the encoded record.

use vstd::prelude::*;
use vstd::bytes::{
    spec_u16_to_le_bytes, spec_u16_from_le_bytes, lemma_auto_spec_u16_to_from_le_bytes,
    spec_u32_to_le_bytes, spec_u32_from_le_bytes, lemma_auto_spec_u32_to_from_le_bytes,
    spec_u64_to_le_bytes, spec_u64_from_le_bytes, lemma_auto_spec_u64_to_from_le_bytes,
};
use crate::addr::Address;
use crate::codec::{
    lemma_address_roundtrip, push_address, push_u16, push_u32, push_u64, read_address_at,
    read_u16_at, read_u32_at, read_u64_at, spec_address_from_bytes, spec_address_to_bytes,
};
use crate::error::GsnError;
use crate::maps::{
    lemma_slookup_none_no_index, lemma_slookup_some_index, lemma_supsert_absent, skeys_unique,
    BalanceMap, ExecutorLog, TokenMap,
};
use crate::state::{fee_mode_wf, FeeMode, GovernanceConfig, GovView, GsnInfo, GsnView};

verus! {

/// One byte: 1 for true, 0 for false.
pub open spec fn ser_bool(b: bool) -> Seq<u8> {
    seq![if b { 1u8 } else { 0u8 }]
}

/// A balance or nonce entry: 32 address bytes, then the amount.
pub open spec fn ser_bal_entry(e: (Address, u64)) -> Seq<u8> {
    spec_address_to_bytes(e.0) + spec_u64_to_le_bytes(e.1)
}

pub open spec fn ser_bal_entries(s: Seq<(Address, u64)>) -> Seq<u8>
    decreases s.len(),
{
    if s.len() <= 0 {
        Seq::<u8>::empty()
    } else {
        ser_bal_entry(s[0]) + ser_bal_entries(s.skip(1))
    }
}

/// A balance map: entry count, then the entries.
pub open spec fn ser_bal_map(s: Seq<(Address, u64)>) -> Seq<u8>
    recommends
        s.len() <= u32::MAX,
{
    spec_u32_to_le_bytes(s.len() as u32) + ser_bal_entries(s)
}

/// An allow-list entry: 32 address bytes, then the flag byte.
pub open spec fn ser_tok_entry(e: (Address, bool)) -> Seq<u8> {
    spec_address_to_bytes(e.0) + ser_bool(e.1)
}

pub open spec fn ser_tok_entries(s: Seq<(Address, bool)>) -> Seq<u8>
    decreases s.len(),
{
    if s.len() <= 0 {
        Seq::<u8>::empty()
    } else {
        ser_tok_entry(s[0]) + ser_tok_entries(s.skip(1))
    }
}

pub open spec fn ser_tok_map(s: Seq<(Address, bool)>) -> Seq<u8>
    recommends
        s.len() <= u32::MAX,
{
    spec_u32_to_le_bytes(s.len() as u32) + ser_tok_entries(s)
}

/// An audit-trail entry: consumer address, nonce, executor address.
pub open spec fn ser_log_entry(e: ((Address, u64), Address)) -> Seq<u8> {
    spec_address_to_bytes(e.0.0) + spec_u64_to_le_bytes(e.0.1) + spec_address_to_bytes(e.1)
}

pub open spec fn ser_log_entries(s: Seq<((Address, u64), Address)>) -> Seq<u8>
    decreases s.len(),
{
    if s.len() <= 0 {
        Seq::<u8>::empty()
    } else {
        ser_log_entry(s[0]) + ser_log_entries(s.skip(1))
    }
}

pub open spec fn ser_log_map(s: Seq<((Address, u64), Address)>) -> Seq<u8>
    recommends
        s.len() <= u32::MAX,
{
    spec_u32_to_le_bytes(s.len() as u32) + ser_log_entries(s)
}

/// A fee mode: tag 0 and the fixed amount, or tag 1 and the basis points.
pub open spec fn ser_fee_mode(m: FeeMode) -> Seq<u8> {
    match m {
        FeeMode::Fixed(f) => seq![0u8] + spec_u64_to_le_bytes(f),
        FeeMode::Percent(bp) => seq![1u8] + spec_u16_to_le_bytes(bp),
    }
}

/// A governance configuration: authority, fee mode, allow-list.
pub open spec fn ser_gov(g: GovView) -> Seq<u8> {
    spec_address_to_bytes(g.authority) + ser_fee_mode(g.fee_mode) + ser_tok_map(g.allowed_tokens)
}

/// Optional governance behind a presence byte.
pub open spec fn ser_opt_gov(o: Option<GovView>) -> Seq<u8> {
    match o {
        None => seq![0u8],
        Some(g) => seq![1u8] + ser_gov(g),
    }
}

/// The whole record.
pub open spec fn spec_ser_record(v: GsnView) -> Seq<u8> {
    ser_bool(v.is_initialized) + ser_bal_map(v.consumer) + ser_bal_map(v.executor) + ser_opt_gov(
        v.governance,
    ) + ser_bal_map(v.consumer_nonces) + ser_log_map(v.transaction_executor)
}

/// The counts a record's maps must stay within to serialize.
pub open spec fn counts_fit(v: GsnView) -> bool {
    &&& v.consumer.len() <= u32::MAX
    &&& v.executor.len() <= u32::MAX
    &&& v.consumer_nonces.len() <= u32::MAX
    &&& v.transaction_executor.len() <= u32::MAX
    &&& match v.governance {
        Some(g) => g.allowed_tokens.len() <= u32::MAX,
        None => true,
    }
}

// ---------------------------------------------------------------------------
// The parser: each function reads at `pos` and yields the value and the
// position after it, or nothing when the bytes are malformed.
// ---------------------------------------------------------------------------

pub open spec fn parse_bool(s: Seq<u8>, pos: int) -> Option<(bool, int)> {
    if 0 <= pos && pos + 1 <= s.len() {
        if s[pos] == 0 {
            Some((false, pos + 1))
        } else if s[pos] == 1 {
            Some((true, pos + 1))
        } else {
            None
        }
    } else {
        None
    }
}

pub open spec fn parse_bal_entries(s: Seq<u8>, pos: int, count: nat) -> Option<
    (Seq<(Address, u64)>, int),
>
    decreases count,
{
    if count == 0 {
        Some((Seq::<(Address, u64)>::empty(), pos))
    } else if 0 <= pos && pos + 40 <= s.len() {
        let a = spec_address_from_bytes(s.subrange(pos, pos + 32));
        let x = spec_u64_from_le_bytes(s.subrange(pos + 32, pos + 40));
        match parse_bal_entries(s, pos + 40, (count - 1) as nat) {
            Some((rest, end)) => Some((seq![(a, x)] + rest, end)),
            None => None,
        }
    } else {
        None
    }
}

pub open spec fn parse_bal_map(s: Seq<u8>, pos: int) -> Option<(Seq<(Address, u64)>, int)> {
    if 0 <= pos && pos + 4 <= s.len() {
        let n = spec_u32_from_le_bytes(s.subrange(pos, pos + 4));
        match parse_bal_entries(s, pos + 4, n as nat) {
            Some((es, end)) => if skeys_unique(es) {
                Some((es, end))
            } else {
                None
            },
            None => None,
        }
    } else {
        None
    }
}

pub open spec fn parse_tok_entries(s: Seq<u8>, pos: int, count: nat) -> Option<
    (Seq<(Address, bool)>, int),
>
    decreases count,
{
    if count == 0 {
        Some((Seq::<(Address, bool)>::empty(), pos))
    } else if 0 <= pos && pos + 33 <= s.len() {
        let a = spec_address_from_bytes(s.subrange(pos, pos + 32));
        match parse_bool(s, pos + 32) {
            Some((b, _)) => match parse_tok_entries(s, pos + 33, (count - 1) as nat) {
                Some((rest, end)) => Some((seq![(a, b)] + rest, end)),
                None => None,
            },
            None => None,
        }
    } else {
        None
    }
}

pub open spec fn parse_tok_map(s: Seq<u8>, pos: int) -> Option<(Seq<(Address, bool)>, int)> {
    if 0 <= pos && pos + 4 <= s.len() {
        let n = spec_u32_from_le_bytes(s.subrange(pos, pos + 4));
        match parse_tok_entries(s, pos + 4, n as nat) {
            Some((es, end)) => if skeys_unique(es) {
                Some((es, end))
            } else {
                None
            },
            None => None,
        }
    } else {
        None
    }
}

pub open spec fn parse_log_entries(s: Seq<u8>, pos: int, count: nat) -> Option<
    (Seq<((Address, u64), Address)>, int),
>
    decreases count,
{
    if count == 0 {
        Some((Seq::<((Address, u64), Address)>::empty(), pos))
    } else if 0 <= pos && pos + 72 <= s.len() {
        let c = spec_address_from_bytes(s.subrange(pos, pos + 32));
        let x = spec_u64_from_le_bytes(s.subrange(pos + 32, pos + 40));
        let e = spec_address_from_bytes(s.subrange(pos + 40, pos + 72));
        match parse_log_entries(s, pos + 72, (count - 1) as nat) {
            Some((rest, end)) => Some((seq![((c, x), e)] + rest, end)),
            None => None,
        }
    } else {
        None
    }
}

pub open spec fn parse_log_map(s: Seq<u8>, pos: int) -> Option<
    (Seq<((Address, u64), Address)>, int),
> {
    if 0 <= pos && pos + 4 <= s.len() {
        let n = spec_u32_from_le_bytes(s.subrange(pos, pos + 4));
        match parse_log_entries(s, pos + 4, n as nat) {
            Some((es, end)) => if skeys_unique(es) {
                Some((es, end))
            } else {
                None
            },
            None => None,
        }
    } else {
        None
    }
}

pub open spec fn parse_fee_mode(s: Seq<u8>, pos: int) -> Option<(FeeMode, int)> {
    if 0 <= pos && pos + 1 <= s.len() {
        if s[pos] == 0 {
            if pos + 9 <= s.len() {
                Some((FeeMode::Fixed(spec_u64_from_le_bytes(s.subrange(pos + 1, pos + 9))), pos + 9))
            } else {
                None
            }
        } else if s[pos] == 1 {
            if pos + 3 <= s.len() {
                let bp = spec_u16_from_le_bytes(s.subrange(pos + 1, pos + 3));
                if bp <= 10000 {
                    Some((FeeMode::Percent(bp), pos + 3))
                } else {
                    None
                }
            } else {
                None
            }
        } else {
            None
        }
    } else {
        None
    }
}

pub open spec fn parse_gov(s: Seq<u8>, pos: int) -> Option<(GovView, int)> {
    if 0 <= pos && pos + 32 <= s.len() {
        let authority = spec_address_from_bytes(s.subrange(pos, pos + 32));
        match parse_fee_mode(s, pos + 32) {
            Some((fee_mode, p2)) => match parse_tok_map(s, p2) {
                Some((allowed_tokens, p3)) => Some(
                    (GovView { authority, fee_mode, allowed_tokens }, p3),
                ),
                None => None,
            },
            None => None,
        }
    } else {
        None
    }
}

pub open spec fn parse_opt_gov(s: Seq<u8>, pos: int) -> Option<(Option<GovView>, int)> {
    if 0 <= pos && pos + 1 <= s.len() {
        if s[pos] == 0 {
            Some((None, pos + 1))
        } else if s[pos] == 1 {
            match parse_gov(s, pos + 1) {
                Some((g, p2)) => Some((Some(g), p2)),
                None => None,
            }
        } else {
            None
        }
    } else {
        None
    }
}

/// The record a buffer holds from `pos` on, if any; trailing bytes are
/// ignored.
pub open spec fn spec_parse_record(s: Seq<u8>, pos: int) -> Option<(GsnView, int)> {
    match parse_bool(s, pos) {
        Some((is_initialized, p1)) => match parse_bal_map(s, p1) {
            Some((consumer, p2)) => match parse_bal_map(s, p2) {
                Some((executor, p3)) => match parse_opt_gov(s, p3) {
                    Some((governance, p4)) => match parse_bal_map(s, p4) {
                        Some((consumer_nonces, p5)) => match parse_log_map(s, p5) {
                            Some((transaction_executor, p6)) => Some(
                                (
                                    GsnView {
                                        is_initialized,
                                        consumer,
                                        executor,
                                        governance,
                                        consumer_nonces,
                                        transaction_executor,
                                    },
                                    p6,
                                ),
                            ),
                            None => None,
                        },
                        None => None,
                    },
                    None => None,
                },
                None => None,
            },
            None => None,
        },
        None => None,
    }
}

// ---------------------------------------------------------------------------
// Round trip: parsing an encoding yields the encoded record.
// ---------------------------------------------------------------------------

/// Splits "the bytes at `pos` are `a + b`" into the two parts.
pub proof fn lemma_subrange_split(data: Seq<u8>, pos: int, a: Seq<u8>, b: Seq<u8>)
    requires
        0 <= pos,
        pos + a.len() + b.len() <= data.len(),
        data.subrange(pos, pos + a.len() + b.len()) == a + b,
    ensures
        data.subrange(pos, pos + a.len()) == a,
        data.subrange(pos + a.len(), pos + a.len() + b.len()) == b,
{
    let whole = data.subrange(pos, pos + a.len() + b.len());
    assert forall|i: int| 0 <= i < a.len() implies data.subrange(pos, pos + a.len())[i] == a[i] by {
        assert(whole[i] == data[pos + i]);
        assert(whole[i] == (a + b)[i]);
    }
    assert(data.subrange(pos, pos + a.len()) =~= a);
    assert forall|i: int|
        0 <= i < b.len() implies data.subrange(
        pos + a.len(),
        pos + a.len() + b.len(),
    )[i] == b[i] by {
        assert(whole[a.len() + i] == data[pos + a.len() + i]);
        assert(whole[a.len() + i] == (a + b)[a.len() + i]);
    }
    assert(data.subrange(pos + a.len(), pos + a.len() + b.len()) =~= b);
}

/// A one-byte span pins the byte down.
pub proof fn lemma_byte_at(data: Seq<u8>, pos: int, x: u8)
    requires
        0 <= pos,
        pos + 1 <= data.len(),
        data.subrange(pos, pos + 1) == seq![x],
    ensures
        data[pos] == x,
{
    assert(data.subrange(pos, pos + 1)[0] == data[pos]);
}

pub proof fn lemma_ser_bal_entries_len(s: Seq<(Address, u64)>)
    ensures
        ser_bal_entries(s).len() == 40 * s.len(),
    decreases s.len(),
{
    lemma_auto_spec_u64_to_from_le_bytes();
    if s.len() > 0 {
        lemma_address_roundtrip(s[0].0);
        lemma_ser_bal_entries_len(s.skip(1));
    }
}

pub proof fn lemma_ser_tok_entries_len(s: Seq<(Address, bool)>)
    ensures
        ser_tok_entries(s).len() == 33 * s.len(),
    decreases s.len(),
{
    if s.len() > 0 {
        lemma_address_roundtrip(s[0].0);
        lemma_ser_tok_entries_len(s.skip(1));
    }
}

pub proof fn lemma_ser_log_entries_len(s: Seq<((Address, u64), Address)>)
    ensures
        ser_log_entries(s).len() == 72 * s.len(),
    decreases s.len(),
{
    lemma_auto_spec_u64_to_from_le_bytes();
    if s.len() > 0 {
        lemma_address_roundtrip(s[0].0.0);
        lemma_address_roundtrip(s[0].1);
        lemma_ser_log_entries_len(s.skip(1));
    }
}

pub proof fn lemma_parse_ser_bal_entries(data: Seq<u8>, pos: int, s: Seq<(Address, u64)>)
    requires
        0 <= pos,
        pos + 40 * s.len() <= data.len(),
        data.subrange(pos, pos + 40 * s.len()) == ser_bal_entries(s),
    ensures
        parse_bal_entries(data, pos, s.len() as nat) == Some((s, pos + 40 * s.len())),
    decreases s.len(),
{
    lemma_auto_spec_u64_to_from_le_bytes();
    lemma_ser_bal_entries_len(s);
    if s.len() > 0 {
        let rest = s.skip(1);
        lemma_ser_bal_entries_len(rest);
        lemma_address_roundtrip(s[0].0);
        lemma_subrange_split(data, pos, ser_bal_entry(s[0]), ser_bal_entries(rest));
        lemma_subrange_split(data, pos, spec_address_to_bytes(s[0].0), spec_u64_to_le_bytes(s[0].1));
        let a = spec_address_from_bytes(data.subrange(pos, pos + 32));
        let x = spec_u64_from_le_bytes(data.subrange(pos + 32, pos + 40));
        assert(a == s[0].0 && x == s[0].1);
        lemma_parse_ser_bal_entries(data, pos + 40, rest);
        assert((a, x) == s[0]);
        assert(seq![(a, x)] + rest =~= s);
    }
}

pub proof fn lemma_parse_ser_bal_map(data: Seq<u8>, pos: int, s: Seq<(Address, u64)>)
    requires
        0 <= pos,
        s.len() <= u32::MAX,
        skeys_unique(s),
        pos + ser_bal_map(s).len() <= data.len(),
        data.subrange(pos, pos + ser_bal_map(s).len()) == ser_bal_map(s),
    ensures
        ser_bal_map(s).len() == 4 + 40 * s.len(),
        parse_bal_map(data, pos) == Some((s, pos + ser_bal_map(s).len())),
{
    lemma_auto_spec_u32_to_from_le_bytes();
    lemma_ser_bal_entries_len(s);
    lemma_subrange_split(data, pos, spec_u32_to_le_bytes(s.len() as u32), ser_bal_entries(s));
    assert(spec_u32_from_le_bytes(data.subrange(pos, pos + 4)) == s.len() as u32);
    lemma_parse_ser_bal_entries(data, pos + 4, s);
}

pub proof fn lemma_parse_ser_tok_entries(data: Seq<u8>, pos: int, s: Seq<(Address, bool)>)
    requires
        0 <= pos,
        pos + 33 * s.len() <= data.len(),
        data.subrange(pos, pos + 33 * s.len()) == ser_tok_entries(s),
    ensures
        parse_tok_entries(data, pos, s.len() as nat) == Some((s, pos + 33 * s.len())),
    decreases s.len(),
{
    lemma_ser_tok_entries_len(s);
    if s.len() > 0 {
        let rest = s.skip(1);
        lemma_ser_tok_entries_len(rest);
        lemma_address_roundtrip(s[0].0);
        lemma_subrange_split(data, pos, ser_tok_entry(s[0]), ser_tok_entries(rest));
        lemma_subrange_split(data, pos, spec_address_to_bytes(s[0].0), ser_bool(s[0].1));
        lemma_byte_at(data, pos + 32, if s[0].1 { 1u8 } else { 0u8 });
        let a = spec_address_from_bytes(data.subrange(pos, pos + 32));
        assert(a == s[0].0);
        assert(parse_bool(data, pos + 32) == Some((s[0].1, pos + 33)));
        lemma_parse_ser_tok_entries(data, pos + 33, rest);
        assert((a, s[0].1) == s[0]);
        assert(seq![(a, s[0].1)] + rest =~= s);
    }
}

pub proof fn lemma_parse_ser_tok_map(data: Seq<u8>, pos: int, s: Seq<(Address, bool)>)
    requires
        0 <= pos,
        s.len() <= u32::MAX,
        skeys_unique(s),
        pos + ser_tok_map(s).len() <= data.len(),
        data.subrange(pos, pos + ser_tok_map(s).len()) == ser_tok_map(s),
    ensures
        ser_tok_map(s).len() == 4 + 33 * s.len(),
        parse_tok_map(data, pos) == Some((s, pos + ser_tok_map(s).len())),
{
    lemma_auto_spec_u32_to_from_le_bytes();
    lemma_ser_tok_entries_len(s);
    lemma_subrange_split(data, pos, spec_u32_to_le_bytes(s.len() as u32), ser_tok_entries(s));
    assert(spec_u32_from_le_bytes(data.subrange(pos, pos + 4)) == s.len() as u32);
    lemma_parse_ser_tok_entries(data, pos + 4, s);
}

pub proof fn lemma_parse_ser_log_entries(data: Seq<u8>, pos: int, s: Seq<((Address, u64), Address)>)
    requires
        0 <= pos,
        pos + 72 * s.len() <= data.len(),
        data.subrange(pos, pos + 72 * s.len()) == ser_log_entries(s),
    ensures
        parse_log_entries(data, pos, s.len() as nat) == Some((s, pos + 72 * s.len())),
    decreases s.len(),
{
    lemma_auto_spec_u64_to_from_le_bytes();
    lemma_ser_log_entries_len(s);
    if s.len() > 0 {
        let rest = s.skip(1);
        lemma_ser_log_entries_len(rest);
        lemma_address_roundtrip(s[0].0.0);
        lemma_address_roundtrip(s[0].1);
        lemma_subrange_split(data, pos, ser_log_entry(s[0]), ser_log_entries(rest));
        lemma_subrange_split(
            data,
            pos,
            spec_address_to_bytes(s[0].0.0) + spec_u64_to_le_bytes(s[0].0.1),
            spec_address_to_bytes(s[0].1),
        );
        lemma_subrange_split(
            data,
            pos,
            spec_address_to_bytes(s[0].0.0),
            spec_u64_to_le_bytes(s[0].0.1),
        );
        let c = spec_address_from_bytes(data.subrange(pos, pos + 32));
        let x = spec_u64_from_le_bytes(data.subrange(pos + 32, pos + 40));
        let e = spec_address_from_bytes(data.subrange(pos + 40, pos + 72));
        assert(c == s[0].0.0 && x == s[0].0.1 && e == s[0].1);
        lemma_parse_ser_log_entries(data, pos + 72, rest);
        assert(((c, x), e) == s[0]);
        assert(seq![((c, x), e)] + rest =~= s);
    }
}

pub proof fn lemma_parse_ser_log_map(data: Seq<u8>, pos: int, s: Seq<((Address, u64), Address)>)
    requires
        0 <= pos,
        s.len() <= u32::MAX,
        skeys_unique(s),
        pos + ser_log_map(s).len() <= data.len(),
        data.subrange(pos, pos + ser_log_map(s).len()) == ser_log_map(s),
    ensures
        ser_log_map(s).len() == 4 + 72 * s.len(),
        parse_log_map(data, pos) == Some((s, pos + ser_log_map(s).len())),
{
    lemma_auto_spec_u32_to_from_le_bytes();
    lemma_ser_log_entries_len(s);
    lemma_subrange_split(data, pos, spec_u32_to_le_bytes(s.len() as u32), ser_log_entries(s));
    assert(spec_u32_from_le_bytes(data.subrange(pos, pos + 4)) == s.len() as u32);
    lemma_parse_ser_log_entries(data, pos + 4, s);
}

pub proof fn lemma_parse_ser_fee_mode(data: Seq<u8>, pos: int, m: FeeMode)
    requires
        0 <= pos,
        fee_mode_wf(m),
        pos + ser_fee_mode(m).len() <= data.len(),
        data.subrange(pos, pos + ser_fee_mode(m).len()) == ser_fee_mode(m),
    ensures
        parse_fee_mode(data, pos) == Some((m, pos + ser_fee_mode(m).len())),
{
    lemma_auto_spec_u64_to_from_le_bytes();
    lemma_auto_spec_u16_to_from_le_bytes();
    match m {
        FeeMode::Fixed(f) => {
            lemma_subrange_split(data, pos, seq![0u8], spec_u64_to_le_bytes(f));
            lemma_byte_at(data, pos, 0u8);
        },
        FeeMode::Percent(bp) => {
            lemma_subrange_split(data, pos, seq![1u8], spec_u16_to_le_bytes(bp));
            lemma_byte_at(data, pos, 1u8);
        },
    }
}

pub proof fn lemma_parse_ser_gov(data: Seq<u8>, pos: int, g: GovView)
    requires
        0 <= pos,
        fee_mode_wf(g.fee_mode),
        skeys_unique(g.allowed_tokens),
        g.allowed_tokens.len() <= u32::MAX,
        pos + ser_gov(g).len() <= data.len(),
        data.subrange(pos, pos + ser_gov(g).len()) == ser_gov(g),
    ensures
        parse_gov(data, pos) == Some((g, pos + ser_gov(g).len())),
{
    lemma_address_roundtrip(g.authority);
    let fm = ser_fee_mode(g.fee_mode);
    let tm = ser_tok_map(g.allowed_tokens);
    lemma_subrange_split(data, pos, spec_address_to_bytes(g.authority) + fm, tm);
    lemma_subrange_split(data, pos, spec_address_to_bytes(g.authority), fm);
    lemma_parse_ser_fee_mode(data, pos + 32, g.fee_mode);
    lemma_parse_ser_tok_map(data, pos + 32 + fm.len(), g.allowed_tokens);
}

pub proof fn lemma_parse_ser_opt_gov(data: Seq<u8>, pos: int, o: Option<GovView>)
    requires
        0 <= pos,
        match o {
            Some(g) => fee_mode_wf(g.fee_mode) && skeys_unique(g.allowed_tokens)
                && g.allowed_tokens.len() <= u32::MAX,
            None => true,
        },
        pos + ser_opt_gov(o).len() <= data.len(),
        data.subrange(pos, pos + ser_opt_gov(o).len()) == ser_opt_gov(o),
    ensures
        parse_opt_gov(data, pos) == Some((o, pos + ser_opt_gov(o).len())),
{
    match o {
        None => {
            lemma_byte_at(data, pos, 0u8);
        },
        Some(g) => {
            lemma_subrange_split(data, pos, seq![1u8], ser_gov(g));
            lemma_byte_at(data, pos, 1u8);
            lemma_parse_ser_gov(data, pos + 1, g);
        },
    }
}

/// Parsing an encoding of a well-formed record, wherever it stands in a
/// buffer, yields that record and consumes exactly the encoding.
pub proof fn lemma_parse_ser_record(data: Seq<u8>, pos: int, v: GsnView)
    requires
        0 <= pos,
        v.wf(),
        counts_fit(v),
        pos + spec_ser_record(v).len() <= data.len(),
        data.subrange(pos, pos + spec_ser_record(v).len()) == spec_ser_record(v),
    ensures
        spec_parse_record(data, pos) == Some((v, pos + spec_ser_record(v).len())),
{
    lemma_auto_spec_u32_to_from_le_bytes();
    lemma_ser_bal_entries_len(v.consumer);
    lemma_ser_bal_entries_len(v.executor);
    lemma_ser_bal_entries_len(v.consumer_nonces);
    lemma_ser_log_entries_len(v.transaction_executor);
    let sb = ser_bool(v.is_initialized);
    let m1 = ser_bal_map(v.consumer);
    let m2 = ser_bal_map(v.executor);
    let og = ser_opt_gov(v.governance);
    let m3 = ser_bal_map(v.consumer_nonces);
    let m4 = ser_log_map(v.transaction_executor);
    lemma_subrange_split(data, pos, sb + m1 + m2 + og + m3, m4);
    lemma_subrange_split(data, pos, sb + m1 + m2 + og, m3);
    lemma_subrange_split(data, pos, sb + m1 + m2, og);
    lemma_subrange_split(data, pos, sb + m1, m2);
    lemma_subrange_split(data, pos, sb, m1);
    lemma_byte_at(data, pos, if v.is_initialized { 1u8 } else { 0u8 });
    let p1 = pos + 1;
    lemma_parse_ser_bal_map(data, p1, v.consumer);
    let p2 = p1 + m1.len();
    lemma_parse_ser_bal_map(data, p2, v.executor);
    let p3 = p2 + m2.len();
    lemma_parse_ser_opt_gov(data, p3, v.governance);
    let p4 = p3 + og.len();
    lemma_parse_ser_bal_map(data, p4, v.consumer_nonces);
    let p5 = p4 + m3.len();
    lemma_parse_ser_log_map(data, p5, v.transaction_executor);
}

/// Round trip: a well-formed record deserializes from its own encoding,
/// whatever trails it in the buffer.
pub proof fn lemma_record_roundtrip(v: GsnView, rest: Seq<u8>)
    requires
        v.wf(),
        counts_fit(v),
    ensures
        spec_parse_record(spec_ser_record(v) + rest, 0) == Some(
            (v, spec_ser_record(v).len() as int),
        ),
{
    let data = spec_ser_record(v) + rest;
    assert(data.subrange(0, spec_ser_record(v).len() as int) =~= spec_ser_record(v));
    lemma_parse_ser_record(data, 0, v);
}

// ---------------------------------------------------------------------------
// Appending entries: serialization distributes over concatenation.
// ---------------------------------------------------------------------------

pub proof fn lemma_ser_bal_entries_append(a: Seq<(Address, u64)>, b: Seq<(Address, u64)>)
    ensures
        ser_bal_entries(a + b) == ser_bal_entries(a) + ser_bal_entries(b),
    decreases a.len(),
{
    if a.len() == 0 {
        assert(a + b =~= b);
        assert(ser_bal_entries(a) + ser_bal_entries(b) =~= ser_bal_entries(b));
    } else {
        assert((a + b)[0] == a[0]);
        assert((a + b).skip(1) =~= a.skip(1) + b);
        lemma_ser_bal_entries_append(a.skip(1), b);
        assert(ser_bal_entry(a[0]) + (ser_bal_entries(a.skip(1)) + ser_bal_entries(b)) =~= (
        ser_bal_entry(a[0]) + ser_bal_entries(a.skip(1))) + ser_bal_entries(b));
    }
}

pub proof fn lemma_ser_tok_entries_append(a: Seq<(Address, bool)>, b: Seq<(Address, bool)>)
    ensures
        ser_tok_entries(a + b) == ser_tok_entries(a) + ser_tok_entries(b),
    decreases a.len(),
{
    if a.len() == 0 {
        assert(a + b =~= b);
        assert(ser_tok_entries(a) + ser_tok_entries(b) =~= ser_tok_entries(b));
    } else {
        assert((a + b)[0] == a[0]);
        assert((a + b).skip(1) =~= a.skip(1) + b);
        lemma_ser_tok_entries_append(a.skip(1), b);
        assert(ser_tok_entry(a[0]) + (ser_tok_entries(a.skip(1)) + ser_tok_entries(b)) =~= (
        ser_tok_entry(a[0]) + ser_tok_entries(a.skip(1))) + ser_tok_entries(b));
    }
}

pub proof fn lemma_ser_log_entries_append(
    a: Seq<((Address, u64), Address)>,
    b: Seq<((Address, u64), Address)>,
)
    ensures
        ser_log_entries(a + b) == ser_log_entries(a) + ser_log_entries(b),
    decreases a.len(),
{
    if a.len() == 0 {
        assert(a + b =~= b);
        assert(ser_log_entries(a) + ser_log_entries(b) =~= ser_log_entries(b));
    } else {
        assert((a + b)[0] == a[0]);
        assert((a + b).skip(1) =~= a.skip(1) + b);
        lemma_ser_log_entries_append(a.skip(1), b);
        assert(ser_log_entry(a[0]) + (ser_log_entries(a.skip(1)) + ser_log_entries(b)) =~= (
        ser_log_entry(a[0]) + ser_log_entries(a.skip(1))) + ser_log_entries(b));
    }
}

// ---------------------------------------------------------------------------
// The executable serializer.
// ---------------------------------------------------------------------------

fn ser_bal_map_exec(out: &mut Vec<u8>, m: &BalanceMap)
    requires
        m@.len() <= u32::MAX,
    ensures
        final(out)@ == old(out)@ + ser_bal_map(m@),
{
    let n = m.entries.len();
    push_u32(out, n as u32);
    let mut i: usize = 0;
    while i < n
        invariant
            i <= n,
            n == m@.len(),
            n <= u32::MAX,
            out@ == old(out)@ + spec_u32_to_le_bytes(n as u32) + ser_bal_entries(
                m@.take(i as int),
            ),
        decreases n - i,
    {
        let entry_addr = m.entries[i].0;
        let entry_val = m.entries[i].1;
        push_address(out, entry_addr);
        push_u64(out, entry_val);
        proof {
            assert(m@.take(i + 1) =~= m@.take(i as int) + seq![m@[i as int]]);
            lemma_ser_bal_entries_append(m@.take(i as int), seq![m@[i as int]]);
            assert(seq![m@[i as int]].skip(1) =~= Seq::<(Address, u64)>::empty());
            assert(ser_bal_entries(seq![m@[i as int]].skip(1)) =~= Seq::<u8>::empty());
            assert(ser_bal_entries(seq![m@[i as int]]) =~= ser_bal_entry(m@[i as int]));
            assert(out@ =~= old(out)@ + spec_u32_to_le_bytes(n as u32) + ser_bal_entries(
                m@.take(i + 1),
            ));
        }
        i += 1;
    }
    proof {
        assert(m@.take(n as int) =~= m@);
        assert(out@ =~= old(out)@ + ser_bal_map(m@));
    }
}

fn ser_tok_map_exec(out: &mut Vec<u8>, m: &TokenMap)
    requires
        m@.len() <= u32::MAX,
    ensures
        final(out)@ == old(out)@ + ser_tok_map(m@),
{
    let n = m.entries.len();
    push_u32(out, n as u32);
    let mut i: usize = 0;
    while i < n
        invariant
            i <= n,
            n == m@.len(),
            n <= u32::MAX,
            out@ == old(out)@ + spec_u32_to_le_bytes(n as u32) + ser_tok_entries(
                m@.take(i as int),
            ),
        decreases n - i,
    {
        let entry_addr = m.entries[i].0;
        let entry_flag = m.entries[i].1;
        push_address(out, entry_addr);
        out.push(if entry_flag { 1 } else { 0 });
        proof {
            assert(m@.take(i + 1) =~= m@.take(i as int) + seq![m@[i as int]]);
            lemma_ser_tok_entries_append(m@.take(i as int), seq![m@[i as int]]);
            assert(seq![m@[i as int]].skip(1) =~= Seq::<(Address, bool)>::empty());
            assert(ser_tok_entries(seq![m@[i as int]].skip(1)) =~= Seq::<u8>::empty());
            assert(ser_tok_entries(seq![m@[i as int]]) =~= ser_tok_entry(m@[i as int]));
            assert(out@ =~= old(out)@ + spec_u32_to_le_bytes(n as u32) + ser_tok_entries(
                m@.take(i + 1),
            ));
        }
        i += 1;
    }
    proof {
        assert(m@.take(n as int) =~= m@);
        assert(out@ =~= old(out)@ + ser_tok_map(m@));
    }
}

fn ser_log_map_exec(out: &mut Vec<u8>, m: &ExecutorLog)
    requires
        m@.len() <= u32::MAX,
    ensures
        final(out)@ == old(out)@ + ser_log_map(m@),
{
    let n = m.entries.len();
    push_u32(out, n as u32);
    let mut i: usize = 0;
    while i < n
        invariant
            i <= n,
            n == m@.len(),
            n <= u32::MAX,
            out@ == old(out)@ + spec_u32_to_le_bytes(n as u32) + ser_log_entries(
                m@.take(i as int),
            ),
        decreases n - i,
    {
        let entry_consumer = m.entries[i].0.0;
        let entry_nonce = m.entries[i].0.1;
        let entry_executor = m.entries[i].1;
        push_address(out, entry_consumer);
        push_u64(out, entry_nonce);
        push_address(out, entry_executor);
        proof {
            assert(m@.take(i + 1) =~= m@.take(i as int) + seq![m@[i as int]]);
            lemma_ser_log_entries_append(m@.take(i as int), seq![m@[i as int]]);
            assert(seq![m@[i as int]].skip(1) =~= Seq::<((Address, u64), Address)>::empty());
            assert(ser_log_entries(seq![m@[i as int]].skip(1)) =~= Seq::<u8>::empty());
            assert(ser_log_entries(seq![m@[i as int]]) =~= ser_log_entry(m@[i as int]));
            assert(out@ =~= old(out)@ + spec_u32_to_le_bytes(n as u32) + ser_log_entries(
                m@.take(i + 1),
            ));
        }
        i += 1;
    }
    proof {
        assert(m@.take(n as int) =~= m@);
        assert(out@ =~= old(out)@ + ser_log_map(m@));
    }
}

// ---------------------------------------------------------------------------
// The executable parser.
// ---------------------------------------------------------------------------

fn parse_bal_map_exec(data: &[u8], pos: usize) -> (r: Result<(BalanceMap, usize), GsnError>)
    ensures
        match parse_bal_map(data@, pos as int) {
            Some((es, end)) => r matches Ok(p) && p.0@ == es && p.1 == end,
            None => r == Err::<(BalanceMap, usize), GsnError>(GsnError::InvalidRecord),
        },
{
    let n_data = data.len();
    if pos > n_data || n_data - pos < 4 {
        return Err(GsnError::InvalidRecord);
    }
    let count = read_u32_at(data, pos);
    let mut m = BalanceMap::new();
    let mut cur: usize = pos + 4;
    let mut i: u32 = 0;
    while i < count
        invariant
            pos + 4 <= cur <= n_data,
            n_data == data@.len(),
            i <= count,
            count == spec_u32_from_le_bytes(data@.subrange(pos as int, pos as int + 4)),
            skeys_unique(m@),
            parse_bal_entries(data@, pos as int + 4, count as nat) == (match parse_bal_entries(
                data@,
                cur as int,
                (count - i) as nat,
            ) {
                Some((rest, end)) => Some((m@ + rest, end)),
                None => None,
            }),
        decreases count - i,
    {
        if n_data - cur < 40 {
            return Err(GsnError::InvalidRecord);
        }
        let a = read_address_at(data, cur);
        let x = read_u64_at(data, cur + 32);
        let ghost m_before = m@;
        let ghost tail = parse_bal_entries(data@, cur as int + 40, (count - i - 1) as nat);
        proof {
            assert(parse_bal_entries(data@, cur as int, (count - i) as nat) == (match tail {
                Some((rest2, end2)) => Some((seq![(a, x)] + rest2, end2)),
                None => None,
            }));
        }
        if m.contains_key(a) {
            proof {
                lemma_slookup_some_index(m_before);
                match tail {
                    Some((rest2, end2)) => {
                        let full = m_before + (seq![(a, x)] + rest2);
                        let j = choose|j: int| 0 <= j < m_before.len() && m_before[j].0 == a;
                        assert(full[j].0 == a);
                        assert(full[m_before.len() as int].0 == a);
                        assert(!skeys_unique(full));
                    },
                    None => {},
                }
            }
            return Err(GsnError::InvalidRecord);
        }
        m.insert(a, x);
        proof {
            lemma_slookup_none_no_index(m_before, a);
            lemma_supsert_absent(m_before, a, x);
            match tail {
                Some((rest2, end2)) => {
                    assert(m_before + (seq![(a, x)] + rest2) =~= m@ + rest2);
                    assert forall|p: int, q: int|
                        0 <= p < q < m@.len() implies m@[p].0 != m@[q].0 by {
                        if q < m_before.len() {
                        } else {
                            assert(m@[q] == (a, x));
                            assert(m@[p] == m_before[p]);
                        }
                    }
                },
                None => {},
            }
            assert(skeys_unique(m@)) by {
                assert forall|p: int, q: int|
                    0 <= p < q < m@.len() implies m@[p].0 != m@[q].0 by {
                    if q < m_before.len() {
                    } else {
                        assert(m@[q] == (a, x));
                        assert(m@[p] == m_before[p]);
                    }
                }
            }
        }
        cur += 40;
        i += 1;
    }
    proof {
        assert(parse_bal_entries(data@, cur as int, 0) == Some(
            (Seq::<(Address, u64)>::empty(), cur as int),
        ));
        assert(m@ + Seq::<(Address, u64)>::empty() =~= m@);
    }
    Ok((m, cur))
}

fn parse_tok_map_exec(data: &[u8], pos: usize) -> (r: Result<(TokenMap, usize), GsnError>)
    ensures
        match parse_tok_map(data@, pos as int) {
            Some((es, end)) => r matches Ok(p) && p.0@ == es && p.1 == end,
            None => r == Err::<(TokenMap, usize), GsnError>(GsnError::InvalidRecord),
        },
{
    let n_data = data.len();
    if pos > n_data || n_data - pos < 4 {
        return Err(GsnError::InvalidRecord);
    }
    let count = read_u32_at(data, pos);
    let mut m = TokenMap::new();
    let mut cur: usize = pos + 4;
    let mut i: u32 = 0;
    while i < count
        invariant
            pos + 4 <= cur <= n_data,
            n_data == data@.len(),
            i <= count,
            count == spec_u32_from_le_bytes(data@.subrange(pos as int, pos as int + 4)),
            skeys_unique(m@),
            parse_tok_entries(data@, pos as int + 4, count as nat) == (match parse_tok_entries(
                data@,
                cur as int,
                (count - i) as nat,
            ) {
                Some((rest, end)) => Some((m@ + rest, end)),
                None => None,
            }),
        decreases count - i,
    {
        if n_data - cur < 33 {
            return Err(GsnError::InvalidRecord);
        }
        let a = read_address_at(data, cur);
        let tag = data[cur + 32];
        if tag != 0 && tag != 1 {
            proof {
                assert(parse_bool(data@, cur as int + 32) is None);
                assert(parse_tok_entries(data@, cur as int, (count - i) as nat) is None);
            }
            return Err(GsnError::InvalidRecord);
        }
        let b = tag == 1;
        let ghost m_before = m@;
        let ghost tail = parse_tok_entries(data@, cur as int + 33, (count - i - 1) as nat);
        proof {
            assert(parse_bool(data@, cur as int + 32) == Some((b, cur as int + 33)));
            assert(parse_tok_entries(data@, cur as int, (count - i) as nat) == (match tail {
                Some((rest2, end2)) => Some((seq![(a, b)] + rest2, end2)),
                None => None,
            }));
        }
        match m.get(a) {
            Some(_) => {
                proof {
                    lemma_slookup_some_index(m_before);
                    match tail {
                        Some((rest2, end2)) => {
                            let full = m_before + (seq![(a, b)] + rest2);
                            let j = choose|j: int|
                                0 <= j < m_before.len() && m_before[j].0 == a;
                            assert(full[j].0 == a);
                            assert(full[m_before.len() as int].0 == a);
                            assert(!skeys_unique(full));
                        },
                        None => {},
                    }
                }
                return Err(GsnError::InvalidRecord);
            },
            None => {},
        }
        m.insert(a, b);
        proof {
            lemma_slookup_none_no_index(m_before, a);
            lemma_supsert_absent(m_before, a, b);
            match tail {
                Some((rest2, end2)) => {
                    assert(m_before + (seq![(a, b)] + rest2) =~= m@ + rest2);
                },
                None => {},
            }
            assert(skeys_unique(m@)) by {
                assert forall|p: int, q: int|
                    0 <= p < q < m@.len() implies m@[p].0 != m@[q].0 by {
                    if q < m_before.len() {
                    } else {
                        assert(m@[q] == (a, b));
                        assert(m@[p] == m_before[p]);
                    }
                }
            }
        }
        cur += 33;
        i += 1;
    }
    proof {
        assert(parse_tok_entries(data@, cur as int, 0) == Some(
            (Seq::<(Address, bool)>::empty(), cur as int),
        ));
        assert(m@ + Seq::<(Address, bool)>::empty() =~= m@);
    }
    Ok((m, cur))
}

fn parse_log_map_exec(data: &[u8], pos: usize) -> (r: Result<(ExecutorLog, usize), GsnError>)
    ensures
        match parse_log_map(data@, pos as int) {
            Some((es, end)) => r matches Ok(p) && p.0@ == es && p.1 == end,
            None => r == Err::<(ExecutorLog, usize), GsnError>(GsnError::InvalidRecord),
        },
{
    let n_data = data.len();
    if pos > n_data || n_data - pos < 4 {
        return Err(GsnError::InvalidRecord);
    }
    let count = read_u32_at(data, pos);
    let mut m = ExecutorLog::new();
    let mut cur: usize = pos + 4;
    let mut i: u32 = 0;
    while i < count
        invariant
            pos + 4 <= cur <= n_data,
            n_data == data@.len(),
            i <= count,
            count == spec_u32_from_le_bytes(data@.subrange(pos as int, pos as int + 4)),
            skeys_unique(m@),
            parse_log_entries(data@, pos as int + 4, count as nat) == (match parse_log_entries(
                data@,
                cur as int,
                (count - i) as nat,
            ) {
                Some((rest, end)) => Some((m@ + rest, end)),
                None => None,
            }),
        decreases count - i,
    {
        if n_data - cur < 72 {
            return Err(GsnError::InvalidRecord);
        }
        let c = read_address_at(data, cur);
        let x = read_u64_at(data, cur + 32);
        let e = read_address_at(data, cur + 40);
        let ghost m_before = m@;
        let ghost tail = parse_log_entries(data@, cur as int + 72, (count - i - 1) as nat);
        proof {
            assert(parse_log_entries(data@, cur as int, (count - i) as nat) == (match tail {
                Some((rest2, end2)) => Some((seq![((c, x), e)] + rest2, end2)),
                None => None,
            }));
        }
        match m.get(c, x) {
            Some(_) => {
                proof {
                    lemma_slookup_some_index(m_before);
                    match tail {
                        Some((rest2, end2)) => {
                            let full = m_before + (seq![((c, x), e)] + rest2);
                            let j = choose|j: int|
                                0 <= j < m_before.len() && m_before[j].0 == (c, x);
                            assert(full[j].0 == (c, x));
                            assert(full[m_before.len() as int].0 == (c, x));
                            assert(!skeys_unique(full));
                        },
                        None => {},
                    }
                }
                return Err(GsnError::InvalidRecord);
            },
            None => {},
        }
        m.insert(c, x, e);
        proof {
            lemma_slookup_none_no_index(m_before, (c, x));
            lemma_supsert_absent(m_before, (c, x), e);
            match tail {
                Some((rest2, end2)) => {
                    assert(m_before + (seq![((c, x), e)] + rest2) =~= m@ + rest2);
                },
                None => {},
            }
            assert(skeys_unique(m@)) by {
                assert forall|p: int, q: int|
                    0 <= p < q < m@.len() implies m@[p].0 != m@[q].0 by {
                    if q < m_before.len() {
                    } else {
                        assert(m@[q] == ((c, x), e));
                        assert(m@[p] == m_before[p]);
                    }
                }
            }
        }
        cur += 72;
        i += 1;
    }
    proof {
        assert(parse_log_entries(data@, cur as int, 0) == Some(
            (Seq::<((Address, u64), Address)>::empty(), cur as int),
        ));
        assert(m@ + Seq::<((Address, u64), Address)>::empty() =~= m@);
    }
    Ok((m, cur))
}

fn parse_fee_mode_exec(data: &[u8], pos: usize) -> (r: Result<(FeeMode, usize), GsnError>)
    ensures
        match parse_fee_mode(data@, pos as int) {
            Some((m, end)) => r matches Ok(p) && p.0 == m && p.1 == end,
            None => r == Err::<(FeeMode, usize), GsnError>(GsnError::InvalidRecord),
        },
{
    let n_data = data.len();
    if pos >= n_data {
        return Err(GsnError::InvalidRecord);
    }
    let tag = data[pos];
    if tag == 0 {
        if n_data - pos < 9 {
            return Err(GsnError::InvalidRecord);
        }
        let f = read_u64_at(data, pos + 1);
        Ok((FeeMode::Fixed(f), pos + 9))
    } else if tag == 1 {
        if n_data - pos < 3 {
            return Err(GsnError::InvalidRecord);
        }
        let bp = read_u16_at(data, pos + 1);
        if bp > 10000 {
            return Err(GsnError::InvalidRecord);
        }
        Ok((FeeMode::Percent(bp), pos + 3))
    } else {
        Err(GsnError::InvalidRecord)
    }
}

fn parse_opt_gov_exec(data: &[u8], pos: usize) -> (r: Result<
    (Option<GovernanceConfig>, usize),
    GsnError,
>)
    ensures
        match parse_opt_gov(data@, pos as int) {
            Some((o, end)) => r matches Ok(p) && (match (p.0, o) {
                (Some(g), Some(gv)) => g@ == gv,
                (None, None) => true,
                _ => false,
            }) && p.1 == end,
            None => r == Err::<(Option<GovernanceConfig>, usize), GsnError>(
                GsnError::InvalidRecord,
            ),
        },
{
    let n_data = data.len();
    if pos >= n_data {
        return Err(GsnError::InvalidRecord);
    }
    let tag = data[pos];
    if tag == 0 {
        Ok((None, pos + 1))
    } else if tag == 1 {
        if n_data - pos < 33 {
            return Err(GsnError::InvalidRecord);
        }
        let authority = read_address_at(data, pos + 1);
        let (fee_mode, p2) = match parse_fee_mode_exec(data, pos + 33) {
            Ok(p) => p,
            Err(e) => {
                return Err(e);
            },
        };
        let (allowed_tokens, p3) = match parse_tok_map_exec(data, p2) {
            Ok(p) => p,
            Err(e) => {
                return Err(e);
            },
        };
        Ok((Some(GovernanceConfig { authority, fee_mode, allowed_tokens }), p3))
    } else {
        Err(GsnError::InvalidRecord)
    }
}

impl GsnInfo {
    /// The record's encoding as a fresh byte vector.
    pub fn to_bytes(&self) -> (out: Vec<u8>)
        requires
            counts_fit(self@),
        ensures
            out@ == spec_ser_record(self@),
    {
        let mut out: Vec<u8> = Vec::new();
        out.push(if self.is_initialized {
            1
        } else {
            0
        });
        proof {
            assert(out@ =~= Seq::<u8>::empty() + ser_bool(self@.is_initialized));
        }
        ser_bal_map_exec(&mut out, &self.consumer);
        ser_bal_map_exec(&mut out, &self.executor);
        match &self.governance {
            None => {
                out.push(0);
                proof {
                    assert(out@ =~= Seq::<u8>::empty() + ser_bool(self@.is_initialized)
                        + ser_bal_map(self@.consumer) + ser_bal_map(self@.executor) + ser_opt_gov(
                        self@.governance,
                    ));
                }
            },
            Some(g) => {
                out.push(1);
                push_address(&mut out, g.authority);
                match &g.fee_mode {
                    FeeMode::Fixed(f) => {
                        out.push(0);
                        push_u64(&mut out, *f);
                    },
                    FeeMode::Percent(bp) => {
                        out.push(1);
                        push_u16(&mut out, *bp);
                    },
                }
                ser_tok_map_exec(&mut out, &g.allowed_tokens);
                proof {
                    assert(out@ =~= Seq::<u8>::empty() + ser_bool(self@.is_initialized)
                        + ser_bal_map(self@.consumer) + ser_bal_map(self@.executor) + ser_opt_gov(
                        self@.governance,
                    ));
                }
            },
        }
        ser_bal_map_exec(&mut out, &self.consumer_nonces);
        ser_log_map_exec(&mut out, &self.transaction_executor);
        proof {
            assert(out@ =~= spec_ser_record(self@));
        }
        out
    }

    /// Writes the record's encoding over the front of `data`, leaving the
    /// trailing bytes as they were; refuses a buffer too small to hold it.
    pub fn serialize(&self, data: &mut Vec<u8>) -> (r: Result<(), GsnError>)
        requires
            counts_fit(self@),
        ensures
            ({
                let bytes = spec_ser_record(self@);
                if bytes.len() <= old(data)@.len() {
                    r == Ok::<(), GsnError>(()) && final(data)@ == bytes + old(data)@.skip(
                        bytes.len() as int,
                    )
                } else {
                    r == Err::<(), GsnError>(GsnError::StorageTooSmall) && final(data)@ == old(
                        data,
                    )@
                }
            }),
    {
        let mut bytes = self.to_bytes();
        let k = bytes.len();
        let n = data.len();
        if k > n {
            return Err(GsnError::StorageTooSmall);
        }
        let mut i: usize = k;
        while i < n
            invariant
                k <= i <= n,
                n == data@.len(),
                data@ == old(data)@,
                k == spec_ser_record(self@).len(),
                bytes@ == spec_ser_record(self@) + data@.subrange(k as int, i as int),
            decreases n - i,
        {
            let byte = data[i];
            bytes.push(byte);
            proof {
                assert(data@.subrange(k as int, i + 1) =~= data@.subrange(k as int, i as int).push(
                    data@[i as int],
                ));
                assert(bytes@ =~= spec_ser_record(self@) + data@.subrange(k as int, i + 1));
            }
            i += 1;
        }
        proof {
            assert(data@.subrange(k as int, n as int) =~= data@.skip(k as int));
        }
        *data = bytes;
        Ok(())
    }

    /// Reads a record back from a buffer; trailing bytes are ignored. A
    /// buffer that holds no well-formed record is refused.
    pub fn deserialize(data: &[u8]) -> (r: Result<GsnInfo, GsnError>)
        ensures
            match spec_parse_record(data@, 0) {
                Some((v, _)) => r matches Ok(g) && g@ == v && g@.wf(),
                None => r == Err::<GsnInfo, GsnError>(GsnError::InvalidRecord),
            },
    {
        let n_data = data.len();
        if n_data < 1 {
            return Err(GsnError::InvalidRecord);
        }
        let flag = data[0];
        if flag != 0 && flag != 1 {
            return Err(GsnError::InvalidRecord);
        }
        let is_initialized = flag == 1;
        let (consumer, p2) = match parse_bal_map_exec(data, 1) {
            Ok(p) => p,
            Err(e) => {
                return Err(e);
            },
        };
        let (executor, p3) = match parse_bal_map_exec(data, p2) {
            Ok(p) => p,
            Err(e) => {
                return Err(e);
            },
        };
        let (governance, p4) = match parse_opt_gov_exec(data, p3) {
            Ok(p) => p,
            Err(e) => {
                return Err(e);
            },
        };
        let (consumer_nonces, p5) = match parse_bal_map_exec(data, p4) {
            Ok(p) => p,
            Err(e) => {
                return Err(e);
            },
        };
        let (transaction_executor, _p6) = match parse_log_map_exec(data, p5) {
            Ok(p) => p,
            Err(e) => {
                return Err(e);
            },
        };
        let gsn = GsnInfo {
            is_initialized,
            consumer,
            executor,
            governance,
            consumer_nonces,
            transaction_executor,
        };
        Ok(gsn)
    }
}

} // verus!
