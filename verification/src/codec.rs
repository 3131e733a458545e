//! Hex/decimal codec for JSON-RPC quantities.
//!
//! Block numbers and other quantities travel on the wire as `0x`-prefixed
//! hexadecimal strings. This module renders a `u64` into that form, renders
//! plain decimal digits for the dev-node control parameters, and parses a
//! quantity string back into a `u64`, with the round trip proved exact.

use vstd::prelude::*;
use vstd::string::StringExecFns;
use vstd::string::StrSliceExecFns;

verus! {

/// Why a quantity string was rejected.
#[derive(Debug, PartialEq, Eq)]
pub enum FormatError {
    /// Not a `0x`-prefixed string of hexadecimal digits.
    Malformed,
    /// A valid quantity, but its value does not fit in 64 bits.
    Overflow,
}

/// The character for one digit value (base up to 16, lower case).
pub open spec fn digit_char(d: int) -> char {
    if d == 0 { '0' }
    else if d == 1 { '1' }
    else if d == 2 { '2' }
    else if d == 3 { '3' }
    else if d == 4 { '4' }
    else if d == 5 { '5' }
    else if d == 6 { '6' }
    else if d == 7 { '7' }
    else if d == 8 { '8' }
    else if d == 9 { '9' }
    else if d == 10 { 'a' }
    else if d == 11 { 'b' }
    else if d == 12 { 'c' }
    else if d == 13 { 'd' }
    else if d == 14 { 'e' }
    else { 'f' }
}

/// The hexadecimal digits of `n`, most significant first, no leading zeros
/// (`0` itself is the single digit `0`).
pub open spec fn hex_seq(n: nat) -> Seq<char>
    decreases n,
{
    if n < 16 { seq![digit_char(n as int)] }
    else { hex_seq(n / 16) + seq![digit_char((n % 16) as int)] }
}

/// The decimal digits of `n`, most significant first, no leading zeros.
pub open spec fn dec_seq(n: nat) -> Seq<char>
    decreases n,
{
    if n < 10 { seq![digit_char(n as int)] }
    else { dec_seq(n / 10) + seq![digit_char((n % 10) as int)] }
}

/// The wire form of a quantity: `0x` followed by its hexadecimal digits.
pub open spec fn quantity_hex(n: nat) -> Seq<char> {
    seq!['0', 'x'] + hex_seq(n)
}

/// One lower-case digit character as a string slice.
pub(crate) fn digit_str(d: u64) -> (s: &'static str)
    requires
        d < 16,
    ensures
        s@ == seq![digit_char(d as int)],
{
    if d == 0 { proof { reveal_strlit("0"); } "0" }
    else if d == 1 { proof { reveal_strlit("1"); } "1" }
    else if d == 2 { proof { reveal_strlit("2"); } "2" }
    else if d == 3 { proof { reveal_strlit("3"); } "3" }
    else if d == 4 { proof { reveal_strlit("4"); } "4" }
    else if d == 5 { proof { reveal_strlit("5"); } "5" }
    else if d == 6 { proof { reveal_strlit("6"); } "6" }
    else if d == 7 { proof { reveal_strlit("7"); } "7" }
    else if d == 8 { proof { reveal_strlit("8"); } "8" }
    else if d == 9 { proof { reveal_strlit("9"); } "9" }
    else if d == 10 { proof { reveal_strlit("a"); } "a" }
    else if d == 11 { proof { reveal_strlit("b"); } "b" }
    else if d == 12 { proof { reveal_strlit("c"); } "c" }
    else if d == 13 { proof { reveal_strlit("d"); } "d" }
    else if d == 14 { proof { reveal_strlit("e"); } "e" }
    else { proof { reveal_strlit("f"); } "f" }
}

/// The hexadecimal digits of `n`, most significant first.
fn hex_digits(n: u64) -> (r: String)
    ensures
        r@ == hex_seq(n as nat),
    decreases n,
{
    let d = digit_str(n % 16);
    if n < 16 {
        String::from_str(d)
    } else {
        let mut r = hex_digits(n / 16);
        r.append(d);
        proof {
            assert(r@ =~= hex_seq(n as nat));
        }
        r
    }
}

/// The decimal digits of `n`, most significant first.
fn dec_digits(n: u64) -> (r: String)
    ensures
        r@ == dec_seq(n as nat),
    decreases n,
{
    let d = digit_str(n % 10);
    if n < 10 {
        String::from_str(d)
    } else {
        let mut r = dec_digits(n / 10);
        r.append(d);
        proof {
            assert(r@ =~= dec_seq(n as nat));
        }
        r
    }
}

/// Renders `n` as a `0x`-prefixed hexadecimal quantity string.
pub fn decimal_to_hex(n: u64) -> (r: String)
    ensures
        r@ == quantity_hex(n as nat),
{
    let mut r = String::from_str("0x");
    proof {
        reveal_strlit("0x");
    }
    let digits = hex_digits(n);
    r.append(digits.as_str());
    proof {
        assert(r@ =~= quantity_hex(n as nat));
    }
    r
}

/// Renders `n` as plain decimal digits.
pub fn decimal_string(n: u64) -> (r: String)
    ensures
        r@ == dec_seq(n as nat),
{
    dec_digits(n)
}

/// The value of one hexadecimal digit character, or -1 if it is none.
pub open spec fn hex_char_val(c: char) -> int {
    if c == '0' { 0 }
    else if c == '1' { 1 }
    else if c == '2' { 2 }
    else if c == '3' { 3 }
    else if c == '4' { 4 }
    else if c == '5' { 5 }
    else if c == '6' { 6 }
    else if c == '7' { 7 }
    else if c == '8' { 8 }
    else if c == '9' { 9 }
    else if c == 'a' || c == 'A' { 10 }
    else if c == 'b' || c == 'B' { 11 }
    else if c == 'c' || c == 'C' { 12 }
    else if c == 'd' || c == 'D' { 13 }
    else if c == 'e' || c == 'E' { 14 }
    else if c == 'f' || c == 'F' { 15 }
    else { -1 }
}

pub open spec fn is_hex_char(c: char) -> bool {
    hex_char_val(c) >= 0
}

pub open spec fn all_hex(s: Seq<char>) -> bool {
    forall|i: int| 0 <= i < s.len() ==> is_hex_char(#[trigger] s[i])
}

/// The value of a string of hexadecimal digits, most significant first.
pub open spec fn hex_value(s: Seq<char>) -> int
    decreases s.len(),
{
    if s.len() == 0 { 0 } else { hex_value(s.drop_last()) * 16 + hex_char_val(s.last()) }
}

/// The value of a `0x`-prefixed quantity string, or `None` where the string
/// is not of that shape.
pub open spec fn parse_quantity(s: Seq<char>) -> Option<int> {
    if s.len() > 2 && s[0] == '0' && s[1] == 'x' && all_hex(s.subrange(2, s.len() as int)) {
        Some(hex_value(s.subrange(2, s.len() as int)))
    } else {
        None
    }
}

/// The value of one hexadecimal digit character.
fn hex_char_value(c: char) -> (r: Option<u64>)
    ensures
        r is Some <==> is_hex_char(c),
        r is Some ==> r.unwrap() == hex_char_val(c),
{
    if c == '0' { Some(0) }
    else if c == '1' { Some(1) }
    else if c == '2' { Some(2) }
    else if c == '3' { Some(3) }
    else if c == '4' { Some(4) }
    else if c == '5' { Some(5) }
    else if c == '6' { Some(6) }
    else if c == '7' { Some(7) }
    else if c == '8' { Some(8) }
    else if c == '9' { Some(9) }
    else if c == 'a' || c == 'A' { Some(10) }
    else if c == 'b' || c == 'B' { Some(11) }
    else if c == 'c' || c == 'C' { Some(12) }
    else if c == 'd' || c == 'D' { Some(13) }
    else if c == 'e' || c == 'E' { Some(14) }
    else if c == 'f' || c == 'F' { Some(15) }
    else { None }
}

proof fn lemma_hex_value_nonneg(s: Seq<char>)
    requires
        all_hex(s),
    ensures
        hex_value(s) >= 0,
    decreases s.len(),
{
    if s.len() > 0 {
        assert(all_hex(s.drop_last())) by {
            assert forall|i: int| 0 <= i < s.drop_last().len() implies is_hex_char(
                #[trigger] s.drop_last()[i],
            ) by {
                assert(s.drop_last()[i] == s[i]);
            }
        }
        lemma_hex_value_nonneg(s.drop_last());
    }
}

/// Extending a digit string to the right can only grow its value.
proof fn lemma_hex_value_prefix_le(s: Seq<char>, i: int)
    requires
        all_hex(s),
        0 <= i <= s.len(),
    ensures
        hex_value(s.subrange(0, i)) <= hex_value(s),
    decreases s.len() - i,
{
    if i == s.len() {
        assert(s.subrange(0, i) =~= s);
    } else {
        let shorter = s.subrange(0, i);
        let longer = s.subrange(0, i + 1);
        assert(longer.drop_last() =~= shorter);
        assert(longer.last() == s[i]);
        lemma_hex_value_nonneg(shorter);
        assert(hex_value(longer) == hex_value(shorter) * 16 + hex_char_val(s[i]));
        assert(hex_value(shorter) * 16 >= hex_value(shorter)) by (nonlinear_arith)
            requires hex_value(shorter) >= 0,
        ;
        lemma_hex_value_prefix_le(s, i + 1);
    }
}

/// Parses a `0x`-prefixed hexadecimal quantity string into a `u64`.
///
/// Succeeds exactly on well-formed quantities whose value fits in 64 bits;
/// tells a malformed string apart from one whose value is too large.
pub fn hex_to_decimal(s: &str) -> (r: Result<u64, FormatError>)
    ensures
        r is Ok ==> parse_quantity(s@) == Some(r.unwrap() as int),
        r == Err::<u64, FormatError>(FormatError::Malformed) <==> parse_quantity(s@) is None,
        r == Err::<u64, FormatError>(FormatError::Overflow) <==> (parse_quantity(s@) is Some
            && parse_quantity(s@).unwrap() > u64::MAX as int),
{
    let len = s.unicode_len();
    if len <= 2 {
        return Err(FormatError::Malformed);
    }
    if s.get_char(0) != '0' || s.get_char(1) != 'x' {
        return Err(FormatError::Malformed);
    }
    let ghost digits = s@.subrange(2, s@.len() as int);
    let mut i: usize = 2;
    // First pass: every character after the prefix must be a hexadecimal digit.
    while i < len
        invariant
            2 <= i <= len,
            len == s@.len(),
            digits == s@.subrange(2, s@.len() as int),
            forall|j: int| 2 <= j < i ==> is_hex_char(#[trigger] s@[j]),
        decreases len - i,
    {
        let c = s.get_char(i);
        if hex_char_value(c).is_none() {
            proof {
                assert(!is_hex_char(digits[i - 2]));
            }
            return Err(FormatError::Malformed);
        }
        i += 1;
    }
    proof {
        assert forall|j: int| 0 <= j < digits.len() implies is_hex_char(#[trigger] digits[j]) by {
            assert(digits[j] == s@[j + 2]);
        }
    }
    // Second pass: accumulate, watching for 64-bit overflow.
    let mut acc: u64 = 0;
    let mut k: usize = 2;
    while k < len
        invariant
            2 <= k <= len,
            len == s@.len(),
            s@.len() > 2,
            s@[0] == '0',
            s@[1] == 'x',
            digits == s@.subrange(2, s@.len() as int),
            all_hex(digits),
            acc as int == hex_value(digits.subrange(0, k - 2)),
        decreases len - k,
    {
        let c = s.get_char(k);
        let d = match hex_char_value(c) {
            Some(d) => d,
            None => {
                proof {
                    assert(is_hex_char(digits[k - 2]));
                }
                return Err(FormatError::Malformed);
            },
        };
        proof {
            assert(digits.subrange(0, k - 2 + 1).drop_last() =~= digits.subrange(0, k - 2));
            assert(digits.subrange(0, k - 2 + 1).last() == s@[k as int]);
        }
        if acc >= 0x1000_0000_0000_0000u64 {
            proof {
                assert(hex_value(digits.subrange(0, k - 2 + 1)) == acc * 16 + d);
                assert(acc * 16 >= 0x1000_0000_0000_0000 * 16) by (nonlinear_arith)
                    requires acc >= 0x1000_0000_0000_0000,
                ;
                lemma_hex_value_prefix_le(digits, k - 2 + 1);
                assert(hex_value(digits) >= acc * 16);
                assert(hex_value(digits) > u64::MAX as int);
                assert(parse_quantity(s@) == Some(hex_value(digits)));
            }
            return Err(FormatError::Overflow);
        }
        acc = acc * 16 + d;
        k += 1;
    }
    proof {
        assert(digits.subrange(0, digits.len() as int) =~= digits);
    }
    Ok(acc)
}

proof fn lemma_hex_seq_all_hex(n: nat)
    ensures
        all_hex(hex_seq(n)),
        hex_seq(n).len() >= 1,
        hex_value(hex_seq(n)) == n,
    decreases n,
{
    assert forall|d: int| 0 <= d < 16 implies is_hex_char(digit_char(d)) && hex_char_val(
        digit_char(d),
    ) == d by {
    }
    if n < 16 {
        let s1 = seq![digit_char(n as int)];
        assert(hex_seq(n) =~= s1);
        assert(s1.drop_last() =~= Seq::<char>::empty());
        assert(hex_value(Seq::<char>::empty()) == 0);
        assert(hex_value(s1) == hex_char_val(digit_char(n as int)));
    } else {
        lemma_hex_seq_all_hex(n / 16);
        let tail = seq![digit_char((n % 16) as int)];
        assert(hex_seq(n) == hex_seq(n / 16) + tail);
        assert forall|i: int| 0 <= i < hex_seq(n).len() implies is_hex_char(
            #[trigger] hex_seq(n)[i],
        ) by {
            if i < hex_seq(n / 16).len() {
                assert(hex_seq(n)[i] == hex_seq(n / 16)[i]);
            } else {
                assert(hex_seq(n)[i] == digit_char((n % 16) as int));
            }
        }
        assert(hex_seq(n).drop_last() =~= hex_seq(n / 16));
        assert(hex_seq(n).last() == digit_char((n % 16) as int));
        let q = n / 16;
        let r = n % 16;
        assert(hex_value(hex_seq(n)) == hex_value(hex_seq(n).drop_last()) * 16 + hex_char_val(
            hex_seq(n).last(),
        ));
        assert(hex_char_val(digit_char(r as int)) == r as int);
        assert(hex_value(hex_seq(n)) == q * 16 + r);
        vstd::arithmetic::div_mod::lemma_fundamental_div_mod(n as int, 16);
        assert(n == 16 * q + r);
    }
}

/// Law: rendering a 64-bit quantity to its `0x` wire form and parsing it back
/// returns the same value, for every `n`.
pub proof fn lemma_hex_round_trip(n: u64)
    ensures
        parse_quantity(quantity_hex(n as nat)) == Some(n as int),
{
    lemma_hex_seq_all_hex(n as nat);
    let s = quantity_hex(n as nat);
    assert(s.subrange(2, s.len() as int) =~= hex_seq(n as nat));
    assert(s[0] == '0' && s[1] == 'x');
}

/// The text between the outer double quotes of a JSON string value, or `None`
/// where the text is not quoted.
pub open spec fn unquoted(s: Seq<char>) -> Option<Seq<char>> {
    if s.len() >= 2 && s[0] == '"' && s.last() == '"' {
        Some(s.subrange(1, s.len() - 1))
    } else {
        None
    }
}

/// Strips the outer double quotes from the JSON text of a string result.
///
/// The `result` member of a JSON-RPC response arrives as JSON text; for the
/// string-valued methods that text is the value between double quotes.
pub fn unquote(s: &str) -> (r: Result<String, FormatError>)
    ensures
        r is Ok <==> unquoted(s@) is Some,
        r is Ok ==> r.unwrap()@ == unquoted(s@).unwrap(),
        r is Err ==> r == Err::<String, FormatError>(FormatError::Malformed),
{
    let len = s.unicode_len();
    if len < 2 {
        return Err(FormatError::Malformed);
    }
    if s.get_char(0) != '"' || s.get_char(len - 1) != '"' {
        return Err(FormatError::Malformed);
    }
    let inner = s.substring_char(1, len - 1);
    Ok(String::from_str(inner))
}

/// The 64-bit value of a quoted quantity result, or `None` where the text is
/// not a quoted `0x` quantity.
pub open spec fn quantity_of_result(s: Seq<char>) -> Option<int> {
    match unquoted(s) {
        Option::None => Option::None,
        Option::Some(inner) => parse_quantity(inner),
    }
}

/// Decodes the JSON text of a quantity result (`"0x10"`, quotes included)
/// into its numeric value.
pub fn decode_quantity(s: &str) -> (r: Result<u64, FormatError>)
    ensures
        r is Ok ==> quantity_of_result(s@) == Some(r.unwrap() as int),
        r == Err::<u64, FormatError>(FormatError::Malformed) <==> quantity_of_result(s@) is None,
        r == Err::<u64, FormatError>(FormatError::Overflow) <==> (quantity_of_result(s@) is Some
            && quantity_of_result(s@).unwrap() > u64::MAX as int),
{
    let inner = match unquote(s) {
        Ok(inner) => inner,
        Err(_) => {
            return Err(FormatError::Malformed);
        },
    };
    hex_to_decimal(inner.as_str())
}

} // verus!
