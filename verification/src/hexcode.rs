//! Lowercase hex text as the canonical encoding of byte strings: spec-level
//! definitions of hex digits, encoders and decoders over character sequences,
//! and the round-trip facts the identifier types build on.
use vstd::prelude::*;

verus! {

/// Why a text form was rejected: the wrong total length, or a character
/// where a hex digit was expected.
#[derive(Clone, Copy, PartialEq, Eq, Structural, Debug)]
pub enum ParseError {
    InvalidStringLength,
    InvalidHexDigit,
}

/// The value of a hex digit character, if it is one. Both cases are accepted
/// on input; only lowercase is ever produced.
pub open spec fn hex_digit_value(c: char) -> Option<u8> {
    if c == '0' { Some(0u8) }
    else if c == '1' { Some(1u8) }
    else if c == '2' { Some(2u8) }
    else if c == '3' { Some(3u8) }
    else if c == '4' { Some(4u8) }
    else if c == '5' { Some(5u8) }
    else if c == '6' { Some(6u8) }
    else if c == '7' { Some(7u8) }
    else if c == '8' { Some(8u8) }
    else if c == '9' { Some(9u8) }
    else if c == 'a' || c == 'A' { Some(10u8) }
    else if c == 'b' || c == 'B' { Some(11u8) }
    else if c == 'c' || c == 'C' { Some(12u8) }
    else if c == 'd' || c == 'D' { Some(13u8) }
    else if c == 'e' || c == 'E' { Some(14u8) }
    else if c == 'f' || c == 'F' { Some(15u8) }
    else { None }
}

pub open spec fn is_hex_digit(c: char) -> bool {
    hex_digit_value(c) is Some
}

/// The lowercase hex digit character for a value below 16.
pub open spec fn hex_digit_char(n: u8) -> char
    recommends
        n < 16,
{
    if n == 0 { '0' }
    else if n == 1 { '1' }
    else if n == 2 { '2' }
    else if n == 3 { '3' }
    else if n == 4 { '4' }
    else if n == 5 { '5' }
    else if n == 6 { '6' }
    else if n == 7 { '7' }
    else if n == 8 { '8' }
    else if n == 9 { '9' }
    else if n == 10 { 'a' }
    else if n == 11 { 'b' }
    else if n == 12 { 'c' }
    else if n == 13 { 'd' }
    else if n == 14 { 'e' }
    else { 'f' }
}

pub proof fn lemma_hex_digit_char_value(n: u8)
    requires
        n < 16,
    ensures
        hex_digit_value(hex_digit_char(n)) == Some(n),
{
}

/// Decodes one character, exactly as `hex_digit_value` says.
pub fn hex_digit_of_char(c: char) -> (r: Option<u8>)
    ensures
        r == hex_digit_value(c),
{
    match c {
        '0' => Some(0u8),
        '1' => Some(1u8),
        '2' => Some(2u8),
        '3' => Some(3u8),
        '4' => Some(4u8),
        '5' => Some(5u8),
        '6' => Some(6u8),
        '7' => Some(7u8),
        '8' => Some(8u8),
        '9' => Some(9u8),
        'a' | 'A' => Some(10u8),
        'b' | 'B' => Some(11u8),
        'c' | 'C' => Some(12u8),
        'd' | 'D' => Some(13u8),
        'e' | 'E' => Some(14u8),
        'f' | 'F' => Some(15u8),
        _ => None,
    }
}

/// A one-character string slice holding the lowercase digit for `n`.
pub(crate) fn hex_digit_str(n: u8) -> (r: &'static str)
    requires
        n < 16,
    ensures
        r@ =~= seq![hex_digit_char(n)],
{
    if n == 0 { proof { reveal_strlit("0"); } "0" }
    else if n == 1 { proof { reveal_strlit("1"); } "1" }
    else if n == 2 { proof { reveal_strlit("2"); } "2" }
    else if n == 3 { proof { reveal_strlit("3"); } "3" }
    else if n == 4 { proof { reveal_strlit("4"); } "4" }
    else if n == 5 { proof { reveal_strlit("5"); } "5" }
    else if n == 6 { proof { reveal_strlit("6"); } "6" }
    else if n == 7 { proof { reveal_strlit("7"); } "7" }
    else if n == 8 { proof { reveal_strlit("8"); } "8" }
    else if n == 9 { proof { reveal_strlit("9"); } "9" }
    else if n == 10 { proof { reveal_strlit("a"); } "a" }
    else if n == 11 { proof { reveal_strlit("b"); } "b" }
    else if n == 12 { proof { reveal_strlit("c"); } "c" }
    else if n == 13 { proof { reveal_strlit("d"); } "d" }
    else if n == 14 { proof { reveal_strlit("e"); } "e" }
    else { proof { reveal_strlit("f"); } "f" }
}

/// The canonical text of a byte string: two lowercase digits per byte,
/// high nibble first.
pub open spec fn hex_of_bytes(bs: Seq<u8>) -> Seq<char> {
    Seq::new(
        2 * bs.len(),
        |i: int|
            if i % 2 == 0 {
                hex_digit_char((bs[i / 2] / 16) as u8)
            } else {
                hex_digit_char((bs[i / 2] % 16) as u8)
            },
    )
}

pub open spec fn all_hex_digits(s: Seq<char>) -> bool {
    forall|i: int| 0 <= i < s.len() ==> is_hex_digit(#[trigger] s[i])
}

/// The bytes a hex text stands for: each pair of digits one byte.
/// Meaningful when the length is even and every character is a hex digit.
pub open spec fn bytes_of_hex(s: Seq<char>) -> Seq<u8> {
    Seq::new(
        s.len() / 2,
        |i: int|
            (hex_digit_value(s[2 * i]).unwrap() * 16 + hex_digit_value(s[2 * i + 1]).unwrap()) as u8,
    )
}

pub proof fn lemma_hex_digit_value_bound(c: char)
    ensures
        is_hex_digit(c) ==> hex_digit_value(c).unwrap() < 16,
{
}

/// Encoding a byte string gives only hex digits, and decoding them
/// gives the bytes back.
pub proof fn lemma_hex_of_bytes_round_trip(bs: Seq<u8>)
    ensures
        hex_of_bytes(bs).len() == 2 * bs.len(),
        all_hex_digits(hex_of_bytes(bs)),
        bytes_of_hex(hex_of_bytes(bs)) =~= bs,
{
    let h = hex_of_bytes(bs);
    assert forall|i: int| 0 <= i < h.len() implies is_hex_digit(#[trigger] h[i]) by {
        let b = bs[i / 2];
        lemma_hex_digit_char_value((b / 16) as u8);
        lemma_hex_digit_char_value((b % 16) as u8);
    }
    assert forall|i: int| 0 <= i < bs.len() implies bytes_of_hex(h)[i] == bs[i] by {
        let b = bs[i];
        assert(h[2 * i] == hex_digit_char((b / 16) as u8));
        assert(h[2 * i + 1] == hex_digit_char((b % 16) as u8));
        lemma_hex_digit_char_value((b / 16) as u8);
        lemma_hex_digit_char_value((b % 16) as u8);
        assert((b / 16) * 16 + b % 16 == b);
    }
}

proof fn lemma_hex_of_bytes_step(bs: Seq<u8>, i: int)
    requires
        0 <= i < bs.len(),
    ensures
        hex_of_bytes(bs.take(i + 1)) =~= hex_of_bytes(bs.take(i)) + seq![
            hex_digit_char((bs[i] / 16) as u8),
            hex_digit_char((bs[i] % 16) as u8),
        ],
{
    let lhs = hex_of_bytes(bs.take(i + 1));
    let rhs = hex_of_bytes(bs.take(i)) + seq![
        hex_digit_char((bs[i] / 16) as u8),
        hex_digit_char((bs[i] % 16) as u8),
    ];
    assert forall|j: int| 0 <= j < lhs.len() implies lhs[j] == rhs[j] by {
        assert(bs.take(i + 1)[j / 2] == bs[j / 2]);
        if j < 2 * i {
            assert(bs.take(i)[j / 2] == bs[j / 2]);
        }
    }
}

/// The lowercase hex text of a byte string.
pub fn hex_string_of_bytes(bs: &Vec<u8>) -> (r: String)
    ensures
        r@ == hex_of_bytes(bs@),
{
    let mut out = String::new();
    let mut i: usize = 0;
    while i < bs.len()
        invariant
            i <= bs@.len(),
            out@ =~= hex_of_bytes(bs@.take(i as int)),
        decreases bs@.len() - i,
    {
        let b = bs[i];
        out.append(hex_digit_str(b / 16));
        out.append(hex_digit_str(b % 16));
        proof {
            lemma_hex_of_bytes_step(bs@, i as int);
        }
        i = i + 1;
    }
    proof {
        assert(bs@.take(bs@.len() as int) =~= bs@);
        assert(out@ =~= hex_of_bytes(bs@));
    }
    out
}

proof fn lemma_bytes_of_hex_step(t: Seq<char>, k: int)
    requires
        0 <= 2 * k,
        2 * k + 2 <= t.len(),
    ensures
        bytes_of_hex(t.take(2 * k + 2)) =~= bytes_of_hex(t.take(2 * k)) + seq![
            (hex_digit_value(t[2 * k]).unwrap() * 16 + hex_digit_value(t[2 * k + 1]).unwrap()) as u8,
        ],
{
    let lhs = bytes_of_hex(t.take(2 * k + 2));
    let rhs = bytes_of_hex(t.take(2 * k)) + seq![
        (hex_digit_value(t[2 * k]).unwrap() * 16 + hex_digit_value(t[2 * k + 1]).unwrap()) as u8,
    ];
    assert forall|j: int| 0 <= j < lhs.len() implies lhs[j] == rhs[j] by {
        assert(t.take(2 * k + 2)[2 * j] == t[2 * j]);
        assert(t.take(2 * k + 2)[2 * j + 1] == t[2 * j + 1]);
        if j < k {
            assert(t.take(2 * k)[2 * j] == t[2 * j]);
            assert(t.take(2 * k)[2 * j + 1] == t[2 * j + 1]);
        }
    }
}

/// Decodes the characters of `s` between `from` and `to` as hex, two digits
/// per byte; `None` exactly when some character there is not a hex digit.
pub fn bytes_of_hex_str(s: &str, from: usize, to: usize) -> (r: Option<Vec<u8>>)
    requires
        from <= to <= s@.len(),
        (to - from) % 2 == 0,
    ensures
        match r {
            Some(bs) => all_hex_digits(s@.subrange(from as int, to as int)) && bs@
                == bytes_of_hex(s@.subrange(from as int, to as int)),
            None => !all_hex_digits(s@.subrange(from as int, to as int)),
        },
{
    let ghost t = s@.subrange(from as int, to as int);
    let pairs: usize = (to - from) / 2;
    let mut out: Vec<u8> = Vec::new();
    let mut k: usize = 0;
    while k < pairs
        invariant
            from <= to <= s@.len(),
            (to - from) % 2 == 0,
            pairs == (to - from) / 2,
            k <= pairs,
            t == s@.subrange(from as int, to as int),
            out@ =~= bytes_of_hex(t.take(2 * k as int)),
            forall|j: int| 0 <= j < 2 * k ==> is_hex_digit(#[trigger] t[j]),
        decreases pairs - k,
    {
        let c1 = s.get_char(from + 2 * k);
        let c2 = s.get_char(from + 2 * k + 1);
        proof {
            assert(t[2 * k as int] == s@[from + 2 * k as int]);
            assert(t[2 * k as int + 1] == s@[from + 2 * k as int + 1]);
        }
        let v1 = hex_digit_of_char(c1);
        let v2 = hex_digit_of_char(c2);
        match (v1, v2) {
            (Some(h), Some(l)) => {
                proof {
                    lemma_hex_digit_value_bound(c1);
                    lemma_hex_digit_value_bound(c2);
                    lemma_bytes_of_hex_step(t, k as int);
                }
                out.push(h * 16 + l);
            },
            _ => {
                proof {
                    assert(!is_hex_digit(t[2 * k as int]) || !is_hex_digit(t[2 * k as int + 1]));
                }
                return None;
            },
        }
        k = k + 1;
    }
    proof {
        assert(t.take(2 * pairs as int) =~= t);
        assert(forall|j: int| 0 <= j < t.len() ==> is_hex_digit(#[trigger] t[j]));
    }
    Some(out)
}

} // verus!

