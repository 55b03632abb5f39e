//! The tenant identifier: an opaque 16-byte value, shown as 32 lowercase
//! hex characters. Nothing inside it is interpreted here; it only needs a
//! raw-byte form, a text form, equality and ordering.
use core::cmp::Ordering;
use vstd::prelude::*;

use crate::hexcode::{
    all_hex_digits, bytes_of_hex, bytes_of_hex_str, hex_of_bytes, hex_string_of_bytes,
    lemma_hex_of_bytes_round_trip, ParseError,
};

verus! {

/// A 16-byte tenant identifier, treated as an already-correct opaque value.
#[derive(Clone, Copy, Eq, Ord, Hash)]
pub struct TenantId(pub [u8; 16]);

/// Lexicographic order on byte strings: the first differing byte decides;
/// a proper prefix comes first.
pub open spec fn lex_cmp_bytes(a: Seq<u8>, b: Seq<u8>) -> Ordering
    decreases a.len(),
{
    if a.len() == 0 && b.len() == 0 {
        Ordering::Equal
    } else if a.len() == 0 {
        Ordering::Less
    } else if b.len() == 0 {
        Ordering::Greater
    } else if a[0] < b[0] {
        Ordering::Less
    } else if a[0] > b[0] {
        Ordering::Greater
    } else {
        lex_cmp_bytes(a.drop_first(), b.drop_first())
    }
}

/// On byte strings of one length, comparing as equal is being equal.
pub proof fn lemma_lex_cmp_equal(a: Seq<u8>, b: Seq<u8>)
    requires
        a.len() == b.len(),
    ensures
        lex_cmp_bytes(a, b) == Ordering::Equal <==> a == b,
    decreases a.len(),
{
    if a.len() == 0 {
        assert(a =~= b);
    } else {
        lemma_lex_cmp_equal(a.drop_first(), b.drop_first());
        if a[0] == b[0] {
            if lex_cmp_bytes(a.drop_first(), b.drop_first()) == Ordering::Equal {
                assert forall|i: int| 0 <= i < a.len() implies a[i] == b[i] by {
                    if i > 0 {
                        assert(a[i] == a.drop_first()[i - 1]);
                        assert(b[i] == b.drop_first()[i - 1]);
                    }
                }
                assert(a =~= b);
            }
            if a == b {
                assert(a.drop_first() =~= b.drop_first());
            }
        }
    }
}

impl View for TenantId {
    type V = Seq<u8>;

    open spec fn view(&self) -> Seq<u8> {
        self.0@
    }
}

impl PartialEq for TenantId {
    fn eq(&self, other: &Self) -> (r: bool) {
        let mut i: usize = 0;
        while i < 16
            invariant
                i <= 16,
                forall|j: int| 0 <= j < i ==> self.0@[j] == other.0@[j],
            decreases 16 - i,
        {
            if self.0[i] != other.0[i] {
                return false;
            }
            i = i + 1;
        }
        proof {
            assert(self.0@ =~= other.0@);
        }
        true
    }
}

impl vstd::std_specs::cmp::PartialEqSpecImpl for TenantId {
    open spec fn obeys_eq_spec() -> bool {
        true
    }

    open spec fn eq_spec(&self, other: &Self) -> bool {
        self@ == other@
    }
}

impl PartialOrd for TenantId {
    fn partial_cmp(&self, other: &Self) -> (r: Option<Ordering>) {
        Some(self.cmp_bytes(other))
    }
}

impl vstd::std_specs::cmp::PartialOrdSpecImpl for TenantId {
    open spec fn obeys_partial_cmp_spec() -> bool {
        true
    }

    open spec fn partial_cmp_spec(&self, other: &Self) -> Option<Ordering> {
        Some(lex_cmp_bytes(self@, other@))
    }
}

impl TenantId {
    /// Compares the raw bytes lexicographically, as `lex_cmp_bytes` says.
    pub fn cmp_bytes(&self, other: &Self) -> (r: Ordering)
        ensures
            r == lex_cmp_bytes(self@, other@),
    {
        let mut i: usize = 0;
        proof {
            assert(self@.skip(0) =~= self@);
            assert(other@.skip(0) =~= other@);
        }
        while i < 16
            invariant
                i <= 16,
                lex_cmp_bytes(self@, other@) == lex_cmp_bytes(
                    self@.skip(i as int),
                    other@.skip(i as int),
                ),
            decreases 16 - i,
        {
            let x = self.0[i];
            let y = other.0[i];
            if x < y {
                return Ordering::Less;
            }
            if x > y {
                return Ordering::Greater;
            }
            proof {
                assert(self@.skip(i as int).drop_first() =~= self@.skip(i as int + 1));
                assert(other@.skip(i as int).drop_first() =~= other@.skip(i as int + 1));
            }
            i = i + 1;
        }
        Ordering::Equal
    }

    /// The identifier with exactly these 16 raw bytes.
    pub fn from_arr(b: [u8; 16]) -> (r: Self)
        ensures
            r@ == b@,
    {
        TenantId(b)
    }

    /// The 16 raw bytes of the identifier.
    pub fn as_arr(&self) -> (r: [u8; 16])
        ensures
            r@ == self@,
    {
        self.0
    }

    pub(crate) fn from_vec(v: &Vec<u8>) -> (r: Self)
        requires
            v@.len() == 16,
        ensures
            r@ == v@,
    {
        let mut a: [u8; 16] = [0u8; 16];
        let mut i: usize = 0;
        while i < 16
            invariant
                i <= 16,
                v@.len() == 16,
                a@.len() == 16,
                forall|j: int| 0 <= j < i ==> a@[j] == v@[j],
            decreases 16 - i,
        {
            a[i] = v[i];
            i = i + 1;
        }
        proof {
            assert(a@ =~= v@);
        }
        TenantId(a)
    }

    /// Parses exactly 32 hex characters; upper and lower case are both
    /// accepted. Any other length is `InvalidStringLength`; a non-hex
    /// character at the right length is `InvalidHexDigit`.
    pub fn parse(s: &str) -> (r: Result<Self, ParseError>)
        ensures
            match r {
                Ok(t) => s@.len() == 32 && all_hex_digits(s@) && t@ == bytes_of_hex(s@),
                Err(e) => (e == ParseError::InvalidStringLength && s@.len() != 32) || (e
                    == ParseError::InvalidHexDigit && s@.len() == 32 && !all_hex_digits(s@)),
            },
    {
        if s.unicode_len() != 32 {
            return Err(ParseError::InvalidStringLength);
        }
        match bytes_of_hex_str(s, 0, 32) {
            Some(v) => {
                proof {
                    assert(s@.subrange(0, 32) =~= s@);
                }
                Ok(Self::from_vec(&v))
            },
            None => {
                proof {
                    assert(s@.subrange(0, 32) =~= s@);
                }
                Err(ParseError::InvalidHexDigit)
            },
        }
    }

    /// The canonical text form: 32 lowercase hex characters.
    pub fn to_text(&self) -> (r: String)
        ensures
            r@ == hex_of_bytes(self@),
            r@.len() == 32,
    {
        let v = vstd::slice::slice_to_vec(self.0.as_slice());
        hex_string_of_bytes(&v)
    }
}

/// Formatting a tenant identifier and parsing the text back gives the
/// identifier again.
pub proof fn lemma_tenant_text_round_trip(t: Seq<u8>)
    requires
        t.len() == 16,
    ensures
        hex_of_bytes(t).len() == 32,
        all_hex_digits(hex_of_bytes(t)),
        bytes_of_hex(hex_of_bytes(t)) == t,
{
    lemma_hex_of_bytes_round_trip(t);
}

} // verus!
