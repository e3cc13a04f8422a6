//! Numbers as text: decimal and fixed-width hexadecimal, and decimal parsing.

use vstd::prelude::*;

verus! {

/// Decimal digits of `n`, most significant first, without leading zeros
/// ("0" for zero).
pub open spec fn spec_dec(n: nat) -> Seq<u8>
    decreases n,
{
    if n < 10 {
        seq![(0x30 + n) as u8]
    } else {
        spec_dec(n / 10).push((0x30 + n % 10) as u8)
    }
}

pub fn dec_u64(n: u64) -> (r: Vec<u8>)
    ensures
        r@ == spec_dec(n as nat),
    decreases n,
{
    if n < 10 {
        let mut v: Vec<u8> = Vec::new();
        v.push((0x30 + n) as u8);
        assert(v@ =~= seq![(0x30 + n) as u8]);
        return v;
    }
    let mut v = dec_u64(n / 10);
    v.push((0x30 + n % 10) as u8);
    v
}

/// Decimal digits of `n`, zero padded on the left to at least `width` digits.
pub open spec fn spec_dec_pad(n: nat, width: nat) -> Seq<u8> {
    let d = spec_dec(n);
    if d.len() >= width {
        d
    } else {
        Seq::new((width - d.len()) as nat, |i: int| 0x30u8) + d
    }
}

pub fn dec_pad(n: u64, width: usize) -> (r: Vec<u8>)
    ensures
        r@ == spec_dec_pad(n as nat, width as nat),
{
    let mut d = dec_u64(n);
    if d.len() >= width {
        return d;
    }
    let pad: usize = width - d.len();
    let mut out: Vec<u8> = Vec::new();
    let mut i: usize = 0;
    while i < pad
        invariant
            0 <= i <= pad,
            out@ == Seq::new(i as nat, |k: int| 0x30u8),
        decreases pad - i,
    {
        out.push(0x30);
        assert(out@ =~= Seq::new((i + 1) as nat, |k: int| 0x30u8));
        i = i + 1;
    }
    out.append(&mut d);
    out
}

/// The lowercase hex digit of `d` (below 16).
pub open spec fn hex_digit(d: int) -> u8 {
    if d < 10 { (0x30 + d) as u8 } else { (0x61 + d - 10) as u8 }
}

/// `n` as `width` lowercase hex digits, zero padded on the left.
pub open spec fn spec_hex(n: nat, width: nat) -> Seq<u8>
    decreases width,
{
    if width == 0 {
        Seq::empty()
    } else {
        spec_hex(n / 16, (width - 1) as nat).push(hex_digit((n % 16) as int))
    }
}

/// Lowercase hex digits of `n`, most significant first, without leading
/// zeros ("0" for zero).
pub open spec fn spec_hex_min(n: nat) -> Seq<u8>
    decreases n,
{
    if n < 16 {
        seq![hex_digit(n as int)]
    } else {
        spec_hex_min(n / 16).push(hex_digit((n % 16) as int))
    }
}

pub fn hex_u64(n: u64) -> (r: Vec<u8>)
    ensures
        r@ == spec_hex_min(n as nat),
    decreases n,
{
    let d = n % 16;
    let c: u8 = if d < 10 { (0x30 + d) as u8 } else { (0x61 + d - 10) as u8 };
    if n < 16 {
        let mut v: Vec<u8> = Vec::new();
        v.push(c);
        assert(v@ =~= seq![hex_digit(n as int)]);
        return v;
    }
    let mut v = hex_u64(n / 16);
    v.push(c);
    v
}

pub fn hex16(n: u64) -> (r: Vec<u8>)
    ensures
        r@ == spec_hex(n as nat, 16),
        r@.len() == 16,
{
    hex_width(n, 16)
}

fn hex_width(n: u64, width: usize) -> (r: Vec<u8>)
    requires
        width <= 64,
    ensures
        r@ == spec_hex(n as nat, width as nat),
        r@.len() == width,
    decreases width,
{
    if width == 0 {
        return Vec::new();
    }
    let mut v = hex_width(n / 16, width - 1);
    let d = n % 16;
    let c: u8 = if d < 10 { (0x30 + d) as u8 } else { (0x61 + d - 10) as u8 };
    v.push(c);
    v
}

pub open spec fn is_digit(b: u8) -> bool {
    0x30 <= b && b <= 0x39
}

pub open spec fn all_digits(s: Seq<u8>) -> bool {
    forall|i: int| 0 <= i < s.len() ==> is_digit(#[trigger] s[i])
}

/// Value of the decimal digits `s`.
pub open spec fn digits_value(s: Seq<u8>) -> nat
    decreases s.len(),
{
    if s.len() == 0 {
        0
    } else {
        digits_value(s.drop_last()) * 10 + (s.last() - 0x30) as nat
    }
}

/// What `str::parse::<u32>` gives for `s`: an optional `+`, then at least
/// one decimal digit and nothing else, with a value that fits a `u32`.
pub open spec fn spec_parse_u32(s: Seq<u8>) -> Option<u32> {
    let body = if s.len() > 0 && s[0] == 0x2bu8 { s.drop_first() } else { s };
    if body.len() == 0 || !all_digits(body) {
        None
    } else if digits_value(body) > u32::MAX {
        None
    } else {
        Some(digits_value(body) as u32)
    }
}

proof fn lemma_digits_monotone(s: Seq<u8>, k: int)
    requires
        0 <= k <= s.len(),
        forall|i: int| 0 <= i < s.len() ==> is_digit(s[i]),
    ensures
        digits_value(s.subrange(0, k)) <= digits_value(s),
    decreases s.len() - k,
{
    if k < s.len() {
        lemma_digits_monotone(s, k + 1);
        assert(s.subrange(0, k + 1).drop_last() =~= s.subrange(0, k));
    } else {
        assert(s.subrange(0, k) =~= s);
    }
}

pub fn parse_u32(s: &[u8]) -> (r: Option<u32>)
    ensures
        r == spec_parse_u32(s@),
{
    let start: usize = if s.len() > 0 && s[0] == 0x2b { 1 } else { 0 };
    let ghost body = if s@.len() > 0 && s@[0] == 0x2bu8 { s@.drop_first() } else { s@ };
    assert(body =~= s@.subrange(start as int, s@.len() as int));
    if start >= s.len() {
        return None;
    }
    let mut k: usize = start;
    while k < s.len()
        invariant
            start <= k <= s@.len(),
            body =~= s@.subrange(start as int, s@.len() as int),
            body == (if s@.len() > 0 && s@[0] == 0x2bu8 { s@.drop_first() } else { s@ }),
            forall|i: int| start <= i < k ==> is_digit(s@[i]),
        decreases s@.len() - k,
    {
        if !(0x30 <= s[k] && s[k] <= 0x39) {
            assert(!is_digit(body[k - start]));
            assert(!all_digits(body));
            return None;
        }
        k = k + 1;
    }
    assert(forall|i: int| 0 <= i < body.len() ==> is_digit(body[i]));
    let mut v: u64 = 0;
    let mut j: usize = start;
    while j < s.len()
        invariant
            start <= j <= s@.len(),
            body =~= s@.subrange(start as int, s@.len() as int),
            body == (if s@.len() > 0 && s@[0] == 0x2bu8 { s@.drop_first() } else { s@ }),
            forall|i: int| 0 <= i < body.len() ==> is_digit(body[i]),
            v == digits_value(body.subrange(0, j - start)),
            v <= u32::MAX,
        decreases s@.len() - j,
    {
        assert(is_digit(body[j - start]));
        let d = (s[j] - 0x30) as u64;
        let ghost t = body.subrange(0, j + 1 - start);
        assert(t.drop_last() =~= body.subrange(0, j - start));
        assert(t.last() == s@[j as int]);
        let nv = v * 10 + d;
        assert(nv == digits_value(t));
        if nv > u32::MAX as u64 {
            proof {
                lemma_digits_monotone(body, j + 1 - start);
            }
            return None;
        }
        v = nv;
        j = j + 1;
    }
    assert(body.subrange(0, body.len() as int) =~= body);
    Some(v as u32)
}

} // verus!
