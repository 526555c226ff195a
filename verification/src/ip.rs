//! IPv4 addresses as 32-bit integers: prefix masks, dotted-decimal parsing
//! and formatting.

use vstd::prelude::*;

verus! {

use vstd::arithmetic::div_mod::lemma_fundamental_div_mod;

/// The character for a single decimal digit value.
pub open spec fn spec_digit_char(d: int) -> char {
    if d == 0 {
        '0'
    } else if d == 1 {
        '1'
    } else if d == 2 {
        '2'
    } else if d == 3 {
        '3'
    } else if d == 4 {
        '4'
    } else if d == 5 {
        '5'
    } else if d == 6 {
        '6'
    } else if d == 7 {
        '7'
    } else if d == 8 {
        '8'
    } else {
        '9'
    }
}

pub open spec fn is_dec_digit(c: char) -> bool {
    '0' <= c && c <= '9'
}

pub open spec fn spec_digit_val(c: char) -> int {
    c as u32 as int - '0' as u32 as int
}

/// Canonical decimal representation of `n`: no sign, no leading zeros,
/// a single `'0'` for zero.
pub open spec fn spec_dec(n: nat) -> Seq<char>
    decreases n,
{
    if n < 10 {
        seq![spec_digit_char(n as int)]
    } else {
        spec_dec(n / 10).push(spec_digit_char((n % 10) as int))
    }
}

/// Numeric value of a digit string, read left to right.
pub open spec fn spec_dec_val(s: Seq<char>) -> int
    decreases s.len(),
{
    if s.len() == 0 {
        0
    } else {
        spec_dec_val(s.drop_last()) * 10 + spec_digit_val(s.last())
    }
}

pub open spec fn all_dec_digits(s: Seq<char>) -> bool {
    forall|i: int| 0 <= i < s.len() ==> is_dec_digit(#[trigger] s[i])
}

/// A digit string in canonical form: nonempty, and no leading zero unless
/// it is exactly "0".
pub open spec fn is_canonical_dec(s: Seq<char>) -> bool {
    &&& all_dec_digits(s)
    &&& s.len() >= 1
    &&& (s.len() == 1 || s[0] != '0')
}

proof fn lemma_digit_char_props(d: int)
    requires
        0 <= d < 10,
    ensures
        is_dec_digit(spec_digit_char(d)),
        spec_digit_val(spec_digit_char(d)) == d,
        (spec_digit_char(d) == '0') <==> (d == 0),
{
}

proof fn lemma_digit_val_char(c: char)
    requires
        is_dec_digit(c),
    ensures
        0 <= spec_digit_val(c) < 10,
        spec_digit_char(spec_digit_val(c)) == c,
{
}

/// `spec_dec(n)` is a canonical digit string, starting with '0' only for 0.
proof fn lemma_spec_dec_canonical(n: nat)
    ensures
        is_canonical_dec(spec_dec(n)),
        (spec_dec(n)[0] == '0') <==> (n == 0),
        spec_dec(n).len() >= 1,
    decreases n,
{
    if n < 10 {
        lemma_digit_char_props(n as int);
        assert(spec_dec(n) =~= seq![spec_digit_char(n as int)]);
    } else {
        lemma_spec_dec_canonical(n / 10);
        lemma_digit_char_props((n % 10) as int);
        let prev = spec_dec(n / 10);
        let whole = prev.push(spec_digit_char((n % 10) as int));
        assert(whole[0] == prev[0]);
        assert forall|i: int| 0 <= i < whole.len() implies is_dec_digit(#[trigger] whole[i]) by {
            if i < prev.len() {
                assert(whole[i] == prev[i]);
            }
        }
    }
}

/// The value of the canonical representation of `n` is `n`.
proof fn lemma_spec_dec_val(n: nat)
    ensures
        spec_dec_val(spec_dec(n)) == n,
    decreases n,
{
    if n < 10 {
        lemma_digit_char_props(n as int);
        let s = spec_dec(n);
        assert(s.drop_last() =~= Seq::<char>::empty());
        assert(spec_dec_val(s.drop_last()) == 0);
        assert(spec_dec_val(s) == spec_dec_val(s.drop_last()) * 10 + spec_digit_val(s.last()));
    } else {
        lemma_spec_dec_val(n / 10);
        lemma_digit_char_props((n % 10) as int);
        let s = spec_dec(n);
        let prev = spec_dec(n / 10);
        assert(s.drop_last() =~= prev);
        lemma_fundamental_div_mod(n as int, 10);
    }
}

/// Values below 1000 need at most three digits.
proof fn lemma_spec_dec_len3(n: nat)
    requires
        n < 1000,
    ensures
        spec_dec(n).len() <= 3,
        n < 100 ==> spec_dec(n).len() <= 2,
        n < 10 ==> spec_dec(n).len() == 1,
{
    if n < 10 {
        assert(spec_dec(n).len() == 1);
    } else if n < 100 {
        assert(spec_dec(n / 10).len() == 1);
        assert(spec_dec(n) == spec_dec(n / 10).push(spec_digit_char((n % 10) as int)));
    } else {
        assert(spec_dec(n / 10 / 10).len() == 1);
        assert(spec_dec(n / 10) == spec_dec(n / 10 / 10).push(
            spec_digit_char((n / 10 % 10) as int),
        ));
        assert(spec_dec(n) == spec_dec(n / 10).push(spec_digit_char((n % 10) as int)));
    }
}

/// A canonical digit string with a nonzero leading digit has value >= 1.
proof fn lemma_canonical_nonzero(s: Seq<char>)
    requires
        is_canonical_dec(s),
        s[0] != '0',
    ensures
        spec_dec_val(s) >= 1,
    decreases s.len(),
{
    if s.len() == 1 {
        assert(s.last() == s[0]);
        lemma_digit_val_char(s[0]);
        assert(s.drop_last() =~= Seq::<char>::empty());
        assert(spec_dec_val(s.drop_last()) == 0);
        assert(spec_dec_val(s) == spec_dec_val(s.drop_last()) * 10 + spec_digit_val(s.last()));
        assert(spec_digit_val(s[0]) != 0);
    } else {
        let prev = s.drop_last();
        assert(prev[0] == s[0]);
        assert(all_dec_digits(prev)) by {
            assert forall|i: int| 0 <= i < prev.len() implies is_dec_digit(#[trigger] prev[i]) by {
                assert(prev[i] == s[i]);
            }
        }
        lemma_canonical_nonzero(prev);
        lemma_digit_val_char(s.last());
        let pv = spec_dec_val(prev);
        let d = spec_digit_val(s.last());
        assert(spec_dec_val(s) == pv * 10 + d);
        assert(pv * 10 + d >= 10) by (nonlinear_arith)
            requires
                pv >= 1,
                d >= 0,
        ;
    }
}

proof fn lemma_dec_val_nonneg(s: Seq<char>)
    requires
        all_dec_digits(s),
    ensures
        spec_dec_val(s) >= 0,
    decreases s.len(),
{
    if s.len() > 0 {
        let prev = s.drop_last();
        assert(all_dec_digits(prev)) by {
            assert forall|i: int| 0 <= i < prev.len() implies is_dec_digit(#[trigger] prev[i]) by {
                assert(prev[i] == s[i]);
            }
        }
        lemma_dec_val_nonneg(prev);
        lemma_digit_val_char(s.last());
    }
}

/// A canonical digit string is *the* canonical representation of its value:
/// decimal strings in canonical form are unique.
proof fn lemma_canonical_unique(s: Seq<char>)
    requires
        is_canonical_dec(s),
    ensures
        spec_dec_val(s) >= 0,
        s == spec_dec(spec_dec_val(s) as nat),
    decreases s.len(),
{
    lemma_dec_val_nonneg(s);
    if s.len() == 1 {
        assert(s.last() == s[0]);
        assert(s.drop_last() =~= Seq::<char>::empty());
        lemma_digit_val_char(s[0]);
        let v = spec_dec_val(s);
        assert(spec_dec_val(s.drop_last()) == 0);
        assert(spec_dec_val(s) == spec_dec_val(s.drop_last()) * 10 + spec_digit_val(s.last()));
        assert(v == spec_digit_val(s[0]));
        assert(spec_dec(v as nat) =~= seq![spec_digit_char(v)]);
        assert(s =~= seq![s[0]]);
    } else {
        let prev = s.drop_last();
        assert(prev[0] == s[0]);
        assert(all_dec_digits(prev)) by {
            assert forall|i: int| 0 <= i < prev.len() implies is_dec_digit(#[trigger] prev[i]) by {
                assert(prev[i] == s[i]);
            }
        }
        lemma_canonical_unique(prev);
        lemma_canonical_nonzero(prev);
        lemma_digit_val_char(s.last());
        let pv = spec_dec_val(prev);
        let d = spec_digit_val(s.last());
        let v = spec_dec_val(s);
        assert(v == pv * 10 + d);
        assert(v >= 10) by (nonlinear_arith)
            requires
                pv >= 1,
                d >= 0,
                v == pv * 10 + d,
        ;
        assert(v / 10 == pv && v % 10 == d) by (nonlinear_arith)
            requires
                0 <= d < 10,
                pv >= 0,
                v == pv * 10 + d,
        ;
        assert(spec_dec(v as nat) == spec_dec(pv as nat).push(spec_digit_char(d)));
        assert(s =~= prev.push(s.last()));
    }
}

/// Unfolding of `spec_dec_val` for a one-character string.
proof fn lemma_dec_val1(s: Seq<char>)
    requires
        s.len() == 1,
    ensures
        spec_dec_val(s) == spec_digit_val(s[0]),
{
    assert(s.drop_last() =~= Seq::<char>::empty());
    assert(spec_dec_val(s.drop_last()) == 0);
    assert(s.last() == s[0]);
    assert(spec_dec_val(s) == spec_dec_val(s.drop_last()) * 10 + spec_digit_val(s.last()));
}

/// Unfolding of `spec_dec_val` for a two-character string.
proof fn lemma_dec_val2(s: Seq<char>)
    requires
        s.len() == 2,
    ensures
        spec_dec_val(s) == spec_digit_val(s[0]) * 10 + spec_digit_val(s[1]),
{
    let prev = s.drop_last();
    lemma_dec_val1(prev);
    assert(prev[0] == s[0]);
    assert(s.last() == s[1]);
    assert(spec_dec_val(s) == spec_dec_val(prev) * 10 + spec_digit_val(s.last()));
}

/// Unfolding of `spec_dec_val` for a three-character string.
proof fn lemma_dec_val3(s: Seq<char>)
    requires
        s.len() == 3,
    ensures
        spec_dec_val(s) == (spec_digit_val(s[0]) * 10 + spec_digit_val(s[1])) * 10
            + spec_digit_val(s[2]),
{
    let prev = s.drop_last();
    lemma_dec_val2(prev);
    assert(prev[0] == s[0]);
    assert(prev[1] == s[1]);
    assert(s.last() == s[2]);
    assert(spec_dec_val(s) == spec_dec_val(prev) * 10 + spec_digit_val(s.last()));
}

/// Appends the character for one decimal digit.
fn append_digit(out: &mut String, d: u32)
    requires
        d < 10,
    ensures
        final(out)@ == old(out)@ + seq![spec_digit_char(d as int)],
{
    let ghost before = out@;
    if d == 0 {
        out.append("0");
        proof {
            reveal_strlit("0");
            assert("0"@ =~= seq!['0']);
        }
    } else if d == 1 {
        out.append("1");
        proof {
            reveal_strlit("1");
            assert("1"@ =~= seq!['1']);
        }
    } else if d == 2 {
        out.append("2");
        proof {
            reveal_strlit("2");
            assert("2"@ =~= seq!['2']);
        }
    } else if d == 3 {
        out.append("3");
        proof {
            reveal_strlit("3");
            assert("3"@ =~= seq!['3']);
        }
    } else if d == 4 {
        out.append("4");
        proof {
            reveal_strlit("4");
            assert("4"@ =~= seq!['4']);
        }
    } else if d == 5 {
        out.append("5");
        proof {
            reveal_strlit("5");
            assert("5"@ =~= seq!['5']);
        }
    } else if d == 6 {
        out.append("6");
        proof {
            reveal_strlit("6");
            assert("6"@ =~= seq!['6']);
        }
    } else if d == 7 {
        out.append("7");
        proof {
            reveal_strlit("7");
            assert("7"@ =~= seq!['7']);
        }
    } else if d == 8 {
        out.append("8");
        proof {
            reveal_strlit("8");
            assert("8"@ =~= seq!['8']);
        }
    } else {
        out.append("9");
        proof {
            reveal_strlit("9");
            assert("9"@ =~= seq!['9']);
        }
    }
}

/// Appends the canonical decimal form of `n`.
pub fn push_dec_u32(out: &mut String, n: u32)
    ensures
        final(out)@ == old(out)@ + spec_dec(n as nat),
    decreases n,
{
    if n >= 10 {
        push_dec_u32(out, n / 10);
        append_digit(out, n % 10);
        proof {
            assert(spec_dec(n as nat) == spec_dec((n as nat) / 10).push(
                spec_digit_char(((n as nat) % 10) as int),
            ));
            assert((n / 10) as nat == (n as nat) / 10);
            assert((n % 10) as nat == (n as nat) % 10);
            assert(spec_dec((n as nat) / 10).push(spec_digit_char(((n as nat) % 10) as int))
                =~= spec_dec((n as nat) / 10) + seq![spec_digit_char(((n as nat) % 10) as int)]);
            assert(out@ =~= old(out)@ + spec_dec(n as nat));
        }
    } else {
        append_digit(out, n);
        proof {
            assert(spec_dec(n as nat) =~= seq![spec_digit_char(n as int)]);
            assert(out@ =~= old(out)@ + spec_dec(n as nat));
        }
    }
}

/// The canonical decimal string of `n`.
pub fn u32_to_dec_string(n: u32) -> (r: String)
    ensures
        r@ == spec_dec(n as nat),
{
    let mut out = String::new();
    push_dec_u32(&mut out, n);
    proof {
        assert(Seq::<char>::empty() + spec_dec(n as nat) =~= spec_dec(n as nat));
    }
    out
}

/// The digit value of `c`, when `c` is a decimal digit.
fn digit_value(c: char) -> (r: Option<u32>)
    ensures
        match r {
            Some(v) => is_dec_digit(c) && v == spec_digit_val(c) && v < 10,
            None => !is_dec_digit(c),
        },
{
    let u = c as u32;
    if u >= '0' as u32 && u <= '9' as u32 {
        Some(u - '0' as u32)
    } else {
        None
    }
}

/// Canonical decimal strings of byte values, and nothing else: `Some(b)`
/// exactly when `s` is the canonical decimal form of a value in [0, 255].
pub fn parse_dec_octet(s: &str) -> (r: Option<u8>)
    ensures
        match r {
            Some(b) => s@ == spec_dec(b as nat),
            None => forall|b: u8| s@ != spec_dec(b as nat),
        },
{
    proof {
        lemma_all_octet_shapes();
    }
    let n = s.unicode_len();
    if n == 0 || n > 3 {
        return None;
    }
    let c0 = s.get_char(0);
    let d0 = match digit_value(c0) {
        Some(d) => d,
        None => {
            return None;
        },
    };
    if n == 1 {
        proof {
            assert(s@ =~= seq![c0]);
            lemma_dec_val1(s@);
            lemma_canonical_unique(s@);
        }
        return Some(d0 as u8);
    }
    if c0 == '0' {
        // a leading zero is not canonical
        return None;
    }
    let c1 = s.get_char(1);
    let d1 = match digit_value(c1) {
        Some(d) => d,
        None => {
            return None;
        },
    };
    if n == 2 {
        proof {
            assert(s@ =~= seq![c0, c1]);
            lemma_dec_val2(s@);
            lemma_canonical_unique(s@);
        }
        return Some((d0 * 10 + d1) as u8);
    }
    let c2 = s.get_char(2);
    let d2 = match digit_value(c2) {
        Some(d) => d,
        None => {
            return None;
        },
    };
    let v = (d0 * 10 + d1) * 10 + d2;
    proof {
        assert(s@ =~= seq![c0, c1, c2]);
        lemma_dec_val3(s@);
        lemma_canonical_unique(s@);
    }
    if v > 255 {
        return None;
    }
    Some(v as u8)
}

/// The canonical decimal form of every byte value is canonical, evaluates to
/// that value, and is at most three characters long.
proof fn lemma_all_octet_shapes()
    ensures
        forall|b: u8| is_canonical_dec(#[trigger] spec_dec(b as nat)),
        forall|b: u8| spec_dec_val(#[trigger] spec_dec(b as nat)) == b,
        forall|b: u8| 1 <= (#[trigger] spec_dec(b as nat)).len() <= 3,
{
    assert forall|b: u8| is_canonical_dec(#[trigger] spec_dec(b as nat)) && spec_dec_val(
        spec_dec(b as nat),
    ) == b && 1 <= spec_dec(b as nat).len() <= 3 by {
        lemma_spec_dec_canonical(b as nat);
        lemma_spec_dec_val(b as nat);
        lemma_spec_dec_len3(b as nat);
    }
}

/// The network mask selecting the `prefix` most significant bits.
///
/// `prefix` 32 is the full mask; for 1 <= prefix < 32 the mask is
/// `(2^prefix - 1) << (32 - prefix)`.
pub open spec fn spec_mask(prefix: u32) -> u32 {
    if prefix == 32 {
        0xffff_ffffu32
    } else {
        ((((1u32 << prefix) - 1) as u32) << ((32 - prefix) as u32)) as u32
    }
}

/// Number of set bits of `x` among bit positions `[0, n)`.
pub open spec fn spec_bits_set(x: u32, n: int) -> int
    decreases n,
{
    if n <= 0 {
        0
    } else {
        spec_bits_set(x, n - 1) + if x & (1u32 << (n - 1)) != 0 {
            1int
        } else {
            0int
        }
    }
}

/// Prefix length to network mask; prefix lengths outside [1, 32] are not
/// meaningful masks and are excluded.
pub fn convert_prefix_to_mask(prefix: u32) -> (mask: u32)
    requires
        1 <= prefix <= 32,
    ensures
        mask == spec_mask(prefix),
{
    if prefix == 32 {
        0xffff_ffffu32
    } else {
        assert(prefix < 32);
        assert((1u32 << prefix) >= 1) by (bit_vector)
            requires
                prefix < 32,
        ;
        ((1u32 << prefix) - 1) << (32 - prefix)
    }
}

/// Bit `i` of `spec_mask(p)` is set exactly when `i` is one of the `p`
/// most significant positions, i.e. `32 - p <= i < 32`.
pub proof fn lemma_mask_bits(p: u32, i: u32)
    requires
        1 <= p <= 32,
        i < 32,
    ensures
        (spec_mask(p) & (1u32 << i) != 0) <==> (32 - p <= i),
{
    if p == 32 {
        assert(0xffff_ffffu32 & (1u32 << i) != 0) by (bit_vector)
            requires
                i < 32,
        ;
    } else {
        assert((((((1u32 << p) - 1) as u32) << ((32 - p) as u32)) as u32) & (1u32 << i) != 0
            <==> 32 - p <= i) by (bit_vector)
            requires
                1 <= p < 32,
                i < 32,
        ;
    }
}

proof fn lemma_mask_bits_set_up_to(p: u32, n: int)
    requires
        1 <= p <= 32,
        0 <= n <= 32,
    ensures
        spec_bits_set(spec_mask(p), n) == if n <= 32 - p {
            0int
        } else {
            n - (32 - p)
        },
    decreases n,
{
    if n > 0 {
        lemma_mask_bits_set_up_to(p, n - 1);
        lemma_mask_bits(p, (n - 1) as u32);
    }
}

/// The mask for prefix length `p` has exactly `p` set bits.
pub proof fn lemma_mask_popcount(p: u32)
    requires
        1 <= p <= 32,
    ensures
        spec_bits_set(spec_mask(p), 32) == p,
{
    lemma_mask_bits_set_up_to(p, 32);
}

/// Highest octet of an address value.
pub open spec fn spec_oct_a(v: u32) -> u32 {
    v >> 24u32
}

pub open spec fn spec_oct_b(v: u32) -> u32 {
    (v >> 16u32) & 0xffu32
}

pub open spec fn spec_oct_c(v: u32) -> u32 {
    (v >> 8u32) & 0xffu32
}

/// Lowest octet of an address value.
pub open spec fn spec_oct_d(v: u32) -> u32 {
    v & 0xffu32
}

/// The address value assembled from four octets `a.b.c.d`.
pub open spec fn spec_ipv4_value(a: u32, b: u32, c: u32, d: u32) -> u32 {
    (a << 24u32) | (b << 16u32) | (c << 8u32) | d
}

/// The canonical dotted-decimal string of an address value.
pub open spec fn spec_ipv4_string(v: u32) -> Seq<char> {
    spec_dec(spec_oct_a(v) as nat) + seq!['.'] + spec_dec(spec_oct_b(v) as nat) + seq!['.']
        + spec_dec(spec_oct_c(v) as nat) + seq!['.'] + spec_dec(spec_oct_d(v) as nat)
}

/// Index of the first dot of the dotted-decimal string.
pub open spec fn spec_ipv4_q1(v: u32) -> int {
    spec_dec(spec_oct_a(v) as nat).len() as int
}

/// Index of the second dot of the dotted-decimal string.
pub open spec fn spec_ipv4_q2(v: u32) -> int {
    spec_ipv4_q1(v) + 1 + spec_dec(spec_oct_b(v) as nat).len()
}

/// Index of the third dot of the dotted-decimal string.
pub open spec fn spec_ipv4_q3(v: u32) -> int {
    spec_ipv4_q2(v) + 1 + spec_dec(spec_oct_c(v) as nat).len()
}

pub proof fn lemma_octets_range(v: u32)
    ensures
        spec_oct_a(v) < 256,
        spec_oct_b(v) < 256,
        spec_oct_c(v) < 256,
        spec_oct_d(v) < 256,
{
    assert((v >> 24u32) < 256 && ((v >> 16u32) & 0xffu32) < 256 && ((v >> 8u32) & 0xffu32) < 256
        && (v & 0xffu32) < 256) by (bit_vector);
}

/// Reading the octets back out of an assembled address value.
pub proof fn lemma_value_octets(a: u32, b: u32, c: u32, d: u32)
    requires
        a < 256,
        b < 256,
        c < 256,
        d < 256,
    ensures
        spec_oct_a(spec_ipv4_value(a, b, c, d)) == a,
        spec_oct_b(spec_ipv4_value(a, b, c, d)) == b,
        spec_oct_c(spec_ipv4_value(a, b, c, d)) == c,
        spec_oct_d(spec_ipv4_value(a, b, c, d)) == d,
{
    let v = spec_ipv4_value(a, b, c, d);
    assert(((a << 24u32) | (b << 16u32) | (c << 8u32) | d) >> 24u32 == a && (((a << 24u32) | (b
        << 16u32) | (c << 8u32) | d) >> 16u32) & 0xffu32 == b && (((a << 24u32) | (b << 16u32) | (c
        << 8u32) | d) >> 8u32) & 0xffu32 == c && ((a << 24u32) | (b << 16u32) | (c << 8u32) | d)
        & 0xffu32 == d) by (bit_vector)
        requires
            a < 256,
            b < 256,
            c < 256,
            d < 256,
    ;
}

/// The canonical dotted-decimal form of `v`.
pub fn format_ipv4(v: u32) -> (r: String)
    ensures
        r@ == spec_ipv4_string(v),
{
    let mut out = String::new();
    push_dec_u32(&mut out, v >> 24);
    out.append(".");
    push_dec_u32(&mut out, (v >> 16) & 0xff);
    out.append(".");
    push_dec_u32(&mut out, (v >> 8) & 0xff);
    out.append(".");
    push_dec_u32(&mut out, v & 0xff);
    proof {
        reveal_strlit(".");
        assert("."@ =~= seq!['.']);
        assert(out@ =~= spec_ipv4_string(v));
    }
    out
}

/// Shape of the dotted-decimal string: the three dot positions, the four
/// decimal substrings between them, and the fact that no other character
/// is a dot.
proof fn lemma_ipv4_structure(v: u32)
    ensures
        spec_ipv4_string(v).len() == spec_ipv4_q3(v) + 1 + spec_dec(spec_oct_d(v) as nat).len(),
        0 < spec_ipv4_q1(v) < spec_ipv4_q2(v) < spec_ipv4_q3(v) < spec_ipv4_string(v).len(),
        spec_ipv4_string(v)[spec_ipv4_q1(v)] == '.',
        spec_ipv4_string(v)[spec_ipv4_q2(v)] == '.',
        spec_ipv4_string(v)[spec_ipv4_q3(v)] == '.',
        spec_ipv4_string(v).subrange(0, spec_ipv4_q1(v)) == spec_dec(spec_oct_a(v) as nat),
        spec_ipv4_string(v).subrange(spec_ipv4_q1(v) + 1, spec_ipv4_q2(v)) == spec_dec(
            spec_oct_b(v) as nat,
        ),
        spec_ipv4_string(v).subrange(spec_ipv4_q2(v) + 1, spec_ipv4_q3(v)) == spec_dec(
            spec_oct_c(v) as nat,
        ),
        spec_ipv4_string(v).subrange(spec_ipv4_q3(v) + 1, spec_ipv4_string(v).len() as int)
            == spec_dec(spec_oct_d(v) as nat),
        forall|j: int|
            0 <= j < spec_ipv4_string(v).len() && spec_ipv4_string(v)[j] == '.' ==> j
                == spec_ipv4_q1(v) || j == spec_ipv4_q2(v) || j == spec_ipv4_q3(v),
{
    let s = spec_ipv4_string(v);
    let aa = spec_dec(spec_oct_a(v) as nat);
    let bb = spec_dec(spec_oct_b(v) as nat);
    let cc = spec_dec(spec_oct_c(v) as nat);
    let dd = spec_dec(spec_oct_d(v) as nat);
    let q1 = spec_ipv4_q1(v);
    let q2 = spec_ipv4_q2(v);
    let q3 = spec_ipv4_q3(v);
    lemma_spec_dec_canonical(spec_oct_a(v) as nat);
    lemma_spec_dec_canonical(spec_oct_b(v) as nat);
    lemma_spec_dec_canonical(spec_oct_c(v) as nat);
    lemma_spec_dec_canonical(spec_oct_d(v) as nat);
    assert(s.subrange(0, q1) =~= aa);
    assert(s.subrange(q1 + 1, q2) =~= bb);
    assert(s.subrange(q2 + 1, q3) =~= cc);
    assert(s.subrange(q3 + 1, s.len() as int) =~= dd);
    assert forall|j: int| 0 <= j < s.len() && s[j] == '.' implies j == q1 || j == q2 || j == q3 by {
        if j < q1 {
            assert(s[j] == aa[j]);
            assert(is_dec_digit(aa[j]));
        } else if q1 < j < q2 {
            assert(s[j] == bb[j - q1 - 1]);
            assert(is_dec_digit(bb[j - q1 - 1]));
        } else if q2 < j < q3 {
            assert(s[j] == cc[j - q2 - 1]);
            assert(is_dec_digit(cc[j - q2 - 1]));
        } else if q3 < j {
            assert(s[j] == dd[j - q3 - 1]);
            assert(is_dec_digit(dd[j - q3 - 1]));
        }
    }
}

proof fn lemma_dec_eq(x: nat, y: nat)
    requires
        spec_dec(x) == spec_dec(y),
    ensures
        x == y,
{
    lemma_spec_dec_val(x);
    lemma_spec_dec_val(y);
}

/// Distinct address values have distinct dotted-decimal strings.
pub proof fn lemma_ipv4_string_injective(v1: u32, v2: u32)
    requires
        spec_ipv4_string(v1) == spec_ipv4_string(v2),
    ensures
        v1 == v2,
{
    lemma_ipv4_structure(v1);
    lemma_ipv4_structure(v2);
    let s = spec_ipv4_string(v1);
    let q1 = spec_ipv4_q1(v1);
    let q2 = spec_ipv4_q2(v1);
    let q3 = spec_ipv4_q3(v1);
    let r1 = spec_ipv4_q1(v2);
    let r2 = spec_ipv4_q2(v2);
    let r3 = spec_ipv4_q3(v2);
    assert(q1 == r1 && q2 == r2 && q3 == r3);
    assert(s.subrange(0, q1) == spec_dec(spec_oct_a(v1) as nat));
    lemma_dec_eq(spec_oct_a(v1) as nat, spec_oct_a(v2) as nat);
    lemma_dec_eq(spec_oct_b(v1) as nat, spec_oct_b(v2) as nat);
    lemma_dec_eq(spec_oct_c(v1) as nat, spec_oct_c(v2) as nat);
    lemma_dec_eq(spec_oct_d(v1) as nat, spec_oct_d(v2) as nat);
    let x1 = v1;
    let x2 = v2;
    assert(v1 == v2) by (bit_vector)
        requires
            x1 >> 24u32 == x2 >> 24u32,
            (x1 >> 16u32) & 0xffu32 == (x2 >> 16u32) & 0xffu32,
            (x1 >> 8u32) & 0xffu32 == (x2 >> 8u32) & 0xffu32,
            x1 & 0xffu32 == x2 & 0xffu32,
            v1 == x1,
            v2 == x2,
    ;
}

/// When a string with dots exactly at `p1 < p2 < p3` is the dotted-decimal
/// form of `v`, those positions are the canonical ones and the pieces
/// between them are the octet strings.
proof fn lemma_dots_determined(s: Seq<char>, v: u32, p1: int, p2: int, p3: int)
    requires
        s == spec_ipv4_string(v),
        0 <= p1 < p2 < p3 < s.len(),
        s[p1] == '.',
        s[p2] == '.',
        s[p3] == '.',
        forall|j: int| 0 <= j < s.len() && s[j] == '.' ==> j == p1 || j == p2 || j == p3,
    ensures
        p1 == spec_ipv4_q1(v),
        p2 == spec_ipv4_q2(v),
        p3 == spec_ipv4_q3(v),
        s.subrange(0, p1) == spec_dec(spec_oct_a(v) as nat),
        s.subrange(p1 + 1, p2) == spec_dec(spec_oct_b(v) as nat),
        s.subrange(p2 + 1, p3) == spec_dec(spec_oct_c(v) as nat),
        s.subrange(p3 + 1, s.len() as int) == spec_dec(spec_oct_d(v) as nat),
{
    lemma_ipv4_structure(v);
}

/// The address value whose canonical dotted-decimal form is `s`, if any.
pub open spec fn spec_ipv4_of(s: Seq<char>) -> Option<u32> {
    if exists|v: u32| s == spec_ipv4_string(v) {
        Some(choose|v: u32| s == spec_ipv4_string(v))
    } else {
        None
    }
}

/// `spec_ipv4_of` picks the one value a canonical string stands for.
pub proof fn lemma_ipv4_of(s: Seq<char>)
    ensures
        forall|v: u32| s == spec_ipv4_string(v) ==> spec_ipv4_of(s) == Some(v),
        (forall|v: u32| s != spec_ipv4_string(v)) ==> spec_ipv4_of(s) is None,
{
    assert forall|v: u32| s == spec_ipv4_string(v) implies spec_ipv4_of(s) == Some(v) by {
        let w = choose|w: u32| s == spec_ipv4_string(w);
        lemma_ipv4_string_injective(v, w);
    }
}

/// Round trip: the canonical dotted-decimal form of any address value
/// parses back to exactly that value.
pub proof fn lemma_ipv4_round_trip(v: u32)
    ensures
        spec_ipv4_of(spec_ipv4_string(v)) == Some(v),
{
    lemma_ipv4_of(spec_ipv4_string(v));
}

/// Parsing a dotted-decimal string `a.b.c.d` yields the value
/// `(a<<24) | (b<<16) | (c<<8) | d`.
pub proof fn lemma_parse_dotted_value(a: u32, b: u32, c: u32, d: u32)
    requires
        a < 256,
        b < 256,
        c < 256,
        d < 256,
    ensures
        spec_ipv4_of(
            spec_dec(a as nat) + seq!['.'] + spec_dec(b as nat) + seq!['.'] + spec_dec(c as nat)
                + seq!['.'] + spec_dec(d as nat),
        ) == Some(spec_ipv4_value(a, b, c, d)),
{
    let v = spec_ipv4_value(a, b, c, d);
    lemma_value_octets(a, b, c, d);
    assert(spec_ipv4_string(v) == spec_dec(a as nat) + seq!['.'] + spec_dec(b as nat) + seq!['.']
        + spec_dec(c as nat) + seq!['.'] + spec_dec(d as nat));
    lemma_ipv4_of(spec_ipv4_string(v));
}

/// Inverse of [`format_ipv4`]: `Some(v)` exactly when `s` is the canonical
/// dotted-decimal form of `v`.
pub fn parse_ipv4(s: &str) -> (r: Option<u32>)
    ensures
        match r {
            Some(v) => s@ == spec_ipv4_string(v),
            None => forall|v: u32| s@ != spec_ipv4_string(v),
        },
{
    let n = s.unicode_len();
    let mut i: usize = 0;
    let mut count: usize = 0;
    let mut p1: usize = 0;
    let mut p2: usize = 0;
    let mut p3: usize = 0;
    while i < n
        invariant
            n == s@.len(),
            0 <= i <= n,
            count <= 3,
            count >= 1 ==> p1 < i && s@[p1 as int] == '.',
            count >= 2 ==> p1 < p2 < i && s@[p2 as int] == '.',
            count >= 3 ==> p2 < p3 < i && s@[p3 as int] == '.',
            forall|j: int|
                0 <= j < i ==> (s@[j] == '.' <==> ((count >= 1 && j == p1 as int) || (count >= 2
                    && j == p2 as int) || (count >= 3 && j == p3 as int))),
        decreases n - i,
    {
        let c = s.get_char(i);
        if c == '.' {
            if count == 0 {
                p1 = i;
            } else if count == 1 {
                p2 = i;
            } else if count == 2 {
                p3 = i;
            } else {
                // a fourth dot: no dotted-decimal string has one
                proof {
                    assert forall|v: u32| s@ != spec_ipv4_string(v) by {
                        if s@ == spec_ipv4_string(v) {
                            lemma_ipv4_structure(v);
                            assert(s@[p1 as int] == '.' && s@[p2 as int] == '.' && s@[p3 as int]
                                == '.' && s@[i as int] == '.');
                            assert(false);
                        }
                    }
                }
                return None;
            }
            count = count + 1;
        }
        i = i + 1;
    }
    if count != 3 {
        proof {
            assert forall|v: u32| s@ != spec_ipv4_string(v) by {
                if s@ == spec_ipv4_string(v) {
                    lemma_ipv4_structure(v);
                    assert(s@[spec_ipv4_q1(v)] == '.' && s@[spec_ipv4_q2(v)] == '.'
                        && s@[spec_ipv4_q3(v)] == '.');
                    assert(false);
                }
            }
        }
        return None;
    }
    let part_a = s.substring_char(0, p1);
    let part_b = s.substring_char(p1 + 1, p2);
    let part_c = s.substring_char(p2 + 1, p3);
    let part_d = s.substring_char(p3 + 1, n);
    let oa = parse_dec_octet(part_a);
    let ob = parse_dec_octet(part_b);
    let oc = parse_dec_octet(part_c);
    let od = parse_dec_octet(part_d);
    proof {
        assert forall|v: u32|
            s@ == spec_ipv4_string(v) implies oa is Some && ob is Some && oc is Some
            && od is Some by {
            lemma_dots_determined(s@, v, p1 as int, p2 as int, p3 as int);
            lemma_octets_range(v);
            if oa is None {
                assert(part_a@ != spec_dec((spec_oct_a(v) as u8) as nat));
                assert(false);
            }
            if ob is None {
                assert(part_b@ != spec_dec((spec_oct_b(v) as u8) as nat));
                assert(false);
            }
            if oc is None {
                assert(part_c@ != spec_dec((spec_oct_c(v) as u8) as nat));
                assert(false);
            }
            if od is None {
                assert(part_d@ != spec_dec((spec_oct_d(v) as u8) as nat));
                assert(false);
            }
        }
    }
    let (b0, b1, b2, b3) = match (oa, ob, oc, od) {
        (Some(b0), Some(b1), Some(b2), Some(b3)) => (b0, b1, b2, b3),
        _ => {
            return None;
        },
    };
    let v = ((b0 as u32) << 24) | ((b1 as u32) << 16) | ((b2 as u32) << 8) | (b3 as u32);
    proof {
        lemma_value_octets(b0 as u32, b1 as u32, b2 as u32, b3 as u32);
        assert(s@ =~= part_a@ + seq!['.'] + part_b@ + seq!['.'] + part_c@ + seq!['.'] + part_d@);
        assert(s@ =~= spec_ipv4_string(v));
    }
    Some(v)
}

} // verus!
