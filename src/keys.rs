//! The storage key scheme: an entry with id `n` lives under `SI-` followed by
//! the decimal digits of `n`.
use vstd::prelude::*;

verus! {

/// The ASCII decimal digits of `n`, most significant first, without leading zeros.
pub open spec fn decimal_digits(n: nat) -> Seq<u8>
    decreases n,
{
    if n < 10 {
        seq![(48 + n) as u8]
    } else {
        decimal_digits(n / 10).push((48 + n % 10) as u8)
    }
}

/// The prefix `SI-` that every entry key carries.
pub open spec fn record_prefix() -> Seq<u8> {
    seq![83u8, 73u8, 45u8]
}

/// The key under which the entry with id `id` is stored.
pub open spec fn record_key(id: u64) -> Seq<u8> {
    record_prefix() + decimal_digits(id as nat)
}

pub open spec fn has_record_prefix(key: Seq<u8>) -> bool {
    key.len() >= 3 && key.subrange(0, 3) == record_prefix()
}

fn push_decimal(n: u64, out: &mut Vec<u8>)
    ensures
        final(out)@ == old(out)@ + decimal_digits(n as nat),
    decreases n,
{
    if n >= 10 {
        push_decimal(n / 10, out);
    }
    out.push(48u8 + (n % 10) as u8);
}

/// The prefix that marks entry keys, as bytes.
pub fn record_key_prefix() -> (r: Vec<u8>)
    ensures
        r@ == record_prefix(),
{
    let mut r: Vec<u8> = Vec::new();
    r.push(83u8);
    r.push(73u8);
    r.push(45u8);
    assert(r@ =~= record_prefix());
    r
}

/// The storage key of the entry with id `id`: `SI-` and the decimal digits of `id`.
pub fn key_for(id: u64) -> (r: Vec<u8>)
    ensures
        r@ == record_key(id),
{
    let mut r = record_key_prefix();
    push_decimal(id, &mut r);
    r
}

/// Whether `key` names an entry, rather than some other value of the store.
pub fn is_record_key(key: &[u8]) -> (r: bool)
    ensures
        r == has_record_prefix(key@),
        r ==> record_prefix().is_prefix_of(key@),
{
    let r = key.len() >= 3 && key[0] == 83u8 && key[1] == 73u8 && key[2] == 45u8;
    if key.len() >= 3 {
        assert(r <==> key@.subrange(0, 3) =~= record_prefix());
    }
    r
}

proof fn lemma_decimal_digits_len(n: nat)
    ensures
        decimal_digits(n).len() >= 1,
        n >= 10 ==> decimal_digits(n).len() >= 2,
    decreases n,
{
    if n >= 10 {
        lemma_decimal_digits_len(n / 10);
    }
}

proof fn lemma_decimal_digits_injective(a: nat, b: nat)
    requires
        decimal_digits(a) == decimal_digits(b),
    ensures
        a == b,
    decreases a,
{
    lemma_decimal_digits_len(a);
    lemma_decimal_digits_len(b);
    if a >= 10 && b >= 10 {
        let da = decimal_digits(a);
        assert(da.last() == (48 + a % 10) as u8);
        assert(decimal_digits(b).last() == (48 + b % 10) as u8);
        assert(decimal_digits(a / 10) =~= da.drop_last());
        assert(decimal_digits(b / 10) =~= decimal_digits(b).drop_last());
        assert(a % 10 == b % 10);
        lemma_decimal_digits_injective(a / 10, b / 10);
        assert(a == 10 * (a / 10) + a % 10) by (nonlinear_arith);
        assert(b == 10 * (b / 10) + b % 10) by (nonlinear_arith);
    } else if a < 10 && b < 10 {
        assert(decimal_digits(a) == seq![(48 + a) as u8]);
        assert(decimal_digits(b) == seq![(48 + b) as u8]);
        assert(seq![(48 + a) as u8][0] == (48 + a) as u8);
        assert(seq![(48 + b) as u8][0] == (48 + b) as u8);
    } else {
        assert(decimal_digits(a).len() != decimal_digits(b).len());
    }
}

/// Every entry key carries the entry prefix.
pub proof fn lemma_record_key_has_prefix(id: u64)
    ensures
        has_record_prefix(record_key(id)),
{
    assert(record_key(id).subrange(0, 3) =~= record_prefix());
}

/// Distinct ids have distinct keys.
pub proof fn lemma_record_key_injective(a: u64, b: u64)
    requires
        record_key(a) == record_key(b),
    ensures
        a == b,
{
    assert(decimal_digits(a as nat) =~= record_key(a).subrange(3, record_key(a).len() as int));
    assert(decimal_digits(b as nat) =~= record_key(b).subrange(3, record_key(b).len() as int));
    lemma_decimal_digits_injective(a as nat, b as nat);
}

} // verus!
