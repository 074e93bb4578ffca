//! Signed hexadecimal rendering of a big-endian byte string.
//!
//! A digest is read as a two's-complement signed integer, most significant
//! byte first, and rendered in lowercase hexadecimal with no leading zero
//! digits and a `-` sign for negative values.

use vstd::prelude::*;
use vstd::arithmetic::power2::pow2;
use vstd::arithmetic::power2::lemma_pow2_adds;
use vstd::arithmetic::power2::lemma2_to64;

verus! {

/// The unsigned value of a byte string read in big-endian order.
pub open spec fn be_val(s: Seq<u8>) -> nat
    decreases s.len(),
{
    if s.len() == 0 {
        0
    } else {
        be_val(s.drop_last()) * 256 + s.last() as nat
    }
}

/// The two's-complement signed value of a byte string read in big-endian
/// order: negative exactly when the high bit of the first byte is set.
pub open spec fn signed_val(s: Seq<u8>) -> int {
    if s.len() > 0 && s[0] >= 128 {
        be_val(s) - pow2(8 * s.len())
    } else {
        be_val(s) as int
    }
}

/// The lowercase hexadecimal digit for a nibble value.
pub open spec fn nibble_char(n: int) -> char {
    if n == 0 { '0' }
    else if n == 1 { '1' }
    else if n == 2 { '2' }
    else if n == 3 { '3' }
    else if n == 4 { '4' }
    else if n == 5 { '5' }
    else if n == 6 { '6' }
    else if n == 7 { '7' }
    else if n == 8 { '8' }
    else if n == 9 { '9' }
    else if n == 10 { 'a' }
    else if n == 11 { 'b' }
    else if n == 12 { 'c' }
    else if n == 13 { 'd' }
    else if n == 14 { 'e' }
    else { 'f' }
}

/// The hexadecimal digits of `n`, most significant first, with no leading
/// zeros; empty for zero.
pub open spec fn hex_digits(n: nat) -> Seq<char>
    decreases n,
{
    if n == 0 {
        Seq::empty()
    } else {
        hex_digits(n / 16) + seq![nibble_char((n % 16) as int)]
    }
}

/// The signed hexadecimal rendering of an integer: `0` for zero, the bare
/// digits of the magnitude for positive values, and a `-` followed by the
/// digits of the magnitude for negative values.
pub open spec fn signed_hex(v: int) -> Seq<char> {
    if v == 0 {
        seq!['0']
    } else if v > 0 {
        hex_digits(v as nat)
    } else {
        seq!['-'] + hex_digits((-v) as nat)
    }
}

/// Whether `c` is a lowercase hexadecimal digit.
pub open spec fn is_lower_hex(c: char) -> bool {
    ||| c == '0' ||| c == '1' ||| c == '2' ||| c == '3'
    ||| c == '4' ||| c == '5' ||| c == '6' ||| c == '7'
    ||| c == '8' ||| c == '9' ||| c == 'a' ||| c == 'b'
    ||| c == 'c' ||| c == 'd' ||| c == 'e' ||| c == 'f'
}

/// The nibble value of a hexadecimal digit.
pub open spec fn hex_char_val(c: char) -> int {
    if c == '0' { 0 }
    else if c == '1' { 1 }
    else if c == '2' { 2 }
    else if c == '3' { 3 }
    else if c == '4' { 4 }
    else if c == '5' { 5 }
    else if c == '6' { 6 }
    else if c == '7' { 7 }
    else if c == '8' { 8 }
    else if c == '9' { 9 }
    else if c == 'a' { 10 }
    else if c == 'b' { 11 }
    else if c == 'c' { 12 }
    else if c == 'd' { 13 }
    else if c == 'e' { 14 }
    else if c == 'f' { 15 }
    else { 0 }
}

/// The unsigned value of a string of hexadecimal digits.
pub open spec fn parse_hex_digits(s: Seq<char>) -> int
    decreases s.len(),
{
    if s.len() == 0 {
        0
    } else {
        parse_hex_digits(s.drop_last()) * 16 + hex_char_val(s.last())
    }
}

/// The signed value of a hexadecimal string with an optional leading `-`.
pub open spec fn parse_signed_hex(s: Seq<char>) -> int {
    if s.len() > 0 && s[0] == '-' {
        -parse_hex_digits(s.subrange(1, s.len() as int))
    } else {
        parse_hex_digits(s)
    }
}

/// The lowercase hexadecimal digit for a nibble value.
pub(crate) fn nibble_to_char(n: u8) -> (c: char)
    requires
        n < 16,
    ensures
        c == nibble_char(n as int),
{
    if n == 0 { '0' }
    else if n == 1 { '1' }
    else if n == 2 { '2' }
    else if n == 3 { '3' }
    else if n == 4 { '4' }
    else if n == 5 { '5' }
    else if n == 6 { '6' }
    else if n == 7 { '7' }
    else if n == 8 { '8' }
    else if n == 9 { '9' }
    else if n == 10 { 'a' }
    else if n == 11 { 'b' }
    else if n == 12 { 'c' }
    else if n == 13 { 'd' }
    else if n == 14 { 'e' }
    else { 'f' }
}

/// Relies on `String::push`: appends the one character to the string.
#[verifier::external_body]
pub(crate) fn push_char(s: &mut String, c: char)
    ensures
        final(s)@ == old(s)@ + seq![c],
{
    s.push(c);
}

/// Reading one more byte multiplies the prefix value by 256 and adds it.
proof fn lemma_be_val_take_step(s: Seq<u8>, i: int)
    requires
        0 <= i < s.len(),
    ensures
        be_val(s.take(i + 1)) == be_val(s.take(i)) * 256 + s[i],
{
    assert(s.take(i + 1).drop_last() =~= s.take(i));
    assert(s.take(i + 1).last() == s[i]);
}

/// The value of a byte string is below two to its bit length.
proof fn lemma_be_val_upper(s: Seq<u8>)
    ensures
        be_val(s) < pow2(8 * s.len()),
    decreases s.len(),
{
    lemma2_to64();
    if s.len() == 0 {
    } else {
        lemma_be_val_upper(s.drop_last());
        lemma_pow2_adds(8 * (s.len() - 1) as nat, 8);
    }
}

/// Appending a byte to a positive value appends its two hexadecimal digits.
proof fn lemma_hex_digits_step(n: nat, b: u8)
    requires
        n > 0,
    ensures
        hex_digits(n * 256 + b as nat) == hex_digits(n) + seq![
            nibble_char(b as int / 16),
            nibble_char(b as int % 16),
        ],
{
    let t: nat = n * 256 + b as nat;
    assert(t / 16 == n * 16 + b / 16 && t % 16 == b % 16);
    let u: nat = n * 16 + (b / 16) as nat;
    assert(u / 16 == n && u % 16 == b / 16);
    assert(hex_digits(t) == hex_digits(u) + seq![nibble_char(b as int % 16)]);
    assert(hex_digits(u) == hex_digits(n) + seq![nibble_char(b as int / 16)]);
    assert(hex_digits(t) =~= hex_digits(n) + seq![
        nibble_char(b as int / 16),
        nibble_char(b as int % 16),
    ]);
}

/// The hexadecimal digits of a single nonzero byte.
proof fn lemma_hex_digits_byte(b: u8)
    requires
        b > 0,
    ensures
        b < 16 ==> hex_digits(b as nat) == seq![nibble_char(b as int)],
        b >= 16 ==> hex_digits(b as nat) == seq![
            nibble_char(b as int / 16),
            nibble_char(b as int % 16),
        ],
{
    assert(hex_digits(0) =~= Seq::<char>::empty());
    if b < 16 {
        assert(b as nat / 16 == 0 && b as nat % 16 == b);
        assert(hex_digits(b as nat) =~= seq![nibble_char(b as int)]);
    } else {
        assert(b as nat / 16 < 16 && b as nat / 16 > 0);
        assert(hex_digits(b as nat / 16) =~= seq![nibble_char(b as int / 16)]);
        assert(hex_digits(b as nat) =~= seq![
            nibble_char(b as int / 16),
            nibble_char(b as int % 16),
        ]);
    }
}

/// For a positive value the digits are nonempty, lowercase hexadecimal, and
/// do not begin with a zero.
proof fn lemma_hex_digits_shape(n: nat)
    requires
        n > 0,
    ensures
        hex_digits(n).len() > 0,
        hex_digits(n)[0] != '0',
        forall|i: int| 0 <= i < hex_digits(n).len() ==> is_lower_hex(#[trigger] hex_digits(n)[i]),
    decreases n,
{
    assert(hex_digits(0) =~= Seq::<char>::empty());
    if n < 16 {
        assert(n / 16 == 0 && n % 16 == n);
    } else {
        lemma_hex_digits_shape(n / 16);
    }
}

/// The rendering of a digest's value is nonempty and begins with a sign
/// exactly when the high bit of the digest's first byte is set.
pub proof fn lemma_sign_char(d: Seq<u8>)
    requires
        d.len() == 20,
    ensures
        signed_hex(signed_val(d)).len() > 0,
        (signed_hex(signed_val(d))[0] == '-') <==> d[0] >= 128,
{
    lemma_be_val_upper(d);
    let v = signed_val(d);
    if d[0] < 128 && v != 0 {
        lemma_hex_digits_shape(v as nat);
    }
}

/// The rendering of an integer is a single `0` for zero and otherwise
/// lowercase hexadecimal digits with no leading zero digit, preceded by `-`
/// exactly when the value is negative.
pub proof fn lemma_hex_shape(v: int)
    ensures
        signed_hex(v).len() > 0,
        v == 0 ==> signed_hex(v) == seq!['0'],
        v > 0 ==> signed_hex(v)[0] != '0' && forall|i: int|
            0 <= i < signed_hex(v).len() ==> is_lower_hex(#[trigger] signed_hex(v)[i]),
        v < 0 ==> signed_hex(v)[0] == '-' && signed_hex(v).len() >= 2 && signed_hex(v)[1] != '0'
            && forall|i: int|
            1 <= i < signed_hex(v).len() ==> is_lower_hex(#[trigger] signed_hex(v)[i]),
{
    if v > 0 {
        lemma_hex_digits_shape(v as nat);
    } else if v < 0 {
        lemma_hex_digits_shape((-v) as nat);
        assert(forall|i: int| 1 <= i < signed_hex(v).len() ==> signed_hex(v)[i]
            == hex_digits((-v) as nat)[i - 1]);
    }
}

/// Parsing the bare digits of a value recovers the value.
proof fn lemma_parse_hex_digits_round_trip(n: nat)
    ensures
        parse_hex_digits(hex_digits(n)) == n,
    decreases n,
{
    if n > 0 {
        lemma_parse_hex_digits_round_trip(n / 16);
        assert(hex_digits(n).drop_last() =~= hex_digits(n / 16));
        assert(hex_digits(n).last() == nibble_char((n % 16) as int));
    }
}

/// Parsing the rendering of an integer back as a signed hexadecimal integer
/// recovers the integer.
pub proof fn lemma_round_trip(v: int)
    ensures
        parse_signed_hex(signed_hex(v)) == v,
{
    if v == 0 {
        assert(seq!['0'].drop_last() =~= Seq::<char>::empty());
        assert(seq!['0'][0] != '-');
        assert(parse_hex_digits(Seq::<char>::empty()) == 0);
        assert(parse_hex_digits(seq!['0']) == 0);
    } else if v > 0 {
        lemma_hex_digits_shape(v as nat);
        lemma_parse_hex_digits_round_trip(v as nat);
    } else {
        lemma_parse_hex_digits_round_trip((-v) as nat);
        let s = signed_hex(v);
        assert(s.subrange(1, s.len() as int) =~= hex_digits((-v) as nat));
    }
}

/// A digest's rendering parses back to the digest's two's-complement signed
/// value.
pub proof fn lemma_digest_round_trip(d: Seq<u8>)
    requires
        d.len() == 20,
    ensures
        parse_signed_hex(signed_hex(signed_val(d))) == signed_val(d),
{
    lemma_round_trip(signed_val(d));
}

/// The bare hexadecimal digits of a byte string's unsigned value: lowercase,
/// no leading zeros, and empty when the value is zero.
fn hex_str(bytes: &[u8]) -> (r: String)
    ensures
        r@ == hex_digits(be_val(bytes@)),
{
    let n = bytes.len();
    let mut r = String::new();
    let mut started: bool = false;
    let mut i: usize = 0;
    while i < n
        invariant
            n == bytes@.len(),
            i <= n,
            started == (be_val(bytes@.take(i as int)) != 0),
            r@ == hex_digits(be_val(bytes@.take(i as int))),
        decreases n - i,
    {
        let b = bytes[i];
        let ghost v = be_val(bytes@.take(i as int));
        proof {
            lemma_be_val_take_step(bytes@, i as int);
        }
        if started {
            proof {
                lemma_hex_digits_step(v, b);
            }
            push_char(&mut r, nibble_to_char(b / 16));
            push_char(&mut r, nibble_to_char(b % 16));
            proof {
                assert(r@ =~= hex_digits(be_val(bytes@.take(i + 1))));
            }
        } else if b > 0 {
            proof {
                lemma_hex_digits_byte(b);
            }
            if b >= 16 {
                push_char(&mut r, nibble_to_char(b / 16));
            }
            push_char(&mut r, nibble_to_char(b % 16));
            started = true;
            proof {
                assert(r@ =~= hex_digits(be_val(bytes@.take(i + 1))));
            }
        }
        i += 1;
    }
    proof {
        assert(bytes@.take(n as int) =~= bytes@);
    }
    r
}

/// The two's-complement negation of a 20-byte string: the byte string whose
/// unsigned value is `pow2(160)` minus the argument's.
fn negate_bytes(bytes: &[u8; 20]) -> (m: Vec<u8>)
    requires
        bytes@[0] != 0,
    ensures
        m@.len() == 20,
        be_val(m@) == pow2(160) - be_val(bytes@),
{
    let mut j: usize = 0;
    let mut k: usize = 1;
    while k < 20
        invariant
            j < k <= 20,
            bytes@[j as int] != 0,
            forall|t: int| j < t < k ==> bytes@[t] == 0,
        decreases 20 - k,
    {
        if bytes[k] != 0 {
            j = k;
        }
        k += 1;
    }
    let mut m: Vec<u8> = Vec::new();
    let mut i: usize = 0;
    proof {
        lemma2_to64();
        assert(bytes@.take(0) =~= Seq::<u8>::empty());
    }
    while i < 20
        invariant
            m@.len() == i,
            i <= 20,
            j < 20,
            bytes@[j as int] != 0,
            forall|t: int| j < t < 20 ==> bytes@[t] == 0,
            i <= j ==> be_val(m@) == pow2(8 * i as nat) - 1 - be_val(bytes@.take(i as int)),
            i > j ==> be_val(m@) == pow2(8 * i as nat) - be_val(bytes@.take(i as int)),
        decreases 20 - i,
    {
        proof {
            lemma_be_val_take_step(bytes@, i as int);
            lemma_pow2_adds(8 * i as nat, 8);
            lemma2_to64();
            assert(m@.push(0u8).drop_last() =~= m@);
        }
        let ghost mprev = m@;
        if i < j {
            m.push(255 - bytes[i]);
            proof {
                assert(m@.drop_last() =~= mprev);
            }
        } else if i == j {
            m.push(255 - bytes[i] + 1);
            proof {
                assert(m@.drop_last() =~= mprev);
            }
        } else {
            m.push(0);
            proof {
                assert(m@.drop_last() =~= mprev);
            }
        }
        i += 1;
    }
    proof {
        assert(bytes@.take(20) =~= bytes@);
    }
    m
}

/// Renders a 20-byte digest as the hexadecimal form of its two's-complement
/// signed value: `0` for zero, lowercase digits with no leading zeros, and a
/// leading `-` exactly when the value is negative.
pub fn format_signed_hex(digest: &[u8; 20]) -> (r: String)
    ensures
        r@ == signed_hex(signed_val(digest@)),
{
    proof {
        lemma_be_val_upper(digest@);
    }
    if digest[0] >= 128 {
        let neg = negate_bytes(digest);
        let h = hex_str(neg.as_slice());
        let mut out = String::new();
        push_char(&mut out, '-');
        out.append(h.as_str());
        proof {
            assert(out@ =~= signed_hex(signed_val(digest@)));
        }
        out
    } else {
        let mut h = hex_str(digest.as_slice());
        if h.as_str().is_empty() {
            assert(be_val(digest@) == 0);
            push_char(&mut h, '0');
            proof {
                assert(h@ =~= signed_hex(signed_val(digest@)));
            }
        }
        h
    }
}

} // verus!
