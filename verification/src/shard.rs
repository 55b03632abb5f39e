//! Shard coordinates and the identifiers built from them: `ShardIndex`
//! names a shard within some tenant's shard set, `TenantShardId` names a
//! shard of a given tenant and doubles as the storage and routing key.
use core::cmp::Ordering;
use vstd::prelude::*;

use crate::decimal::{decimal_of, decimal_string_of_u32};
use crate::hexcode::{
    all_hex_digits, bytes_of_hex, bytes_of_hex_str, hex_of_bytes, hex_string_of_bytes,
    lemma_hex_of_bytes_round_trip, ParseError,
};
use crate::tenant_id::{lemma_lex_cmp_equal, lex_cmp_bytes, TenantId};

verus! {

/// The ordinal of a shard within its tenant's shard set. Any byte value is
/// legal; ordering is numeric.
#[derive(Clone, Copy, PartialEq, Eq, Structural, PartialOrd, Ord, Hash, Debug)]
pub struct ShardNumber(pub u8);

/// How many shards a tenant's data is split into. Zero is the legacy
/// "unsharded" sentinel, distinct from a single shard-aware shard (one).
#[derive(Clone, Copy, PartialEq, Eq, Structural, PartialOrd, Ord, Hash, Debug)]
pub struct ShardCount(pub u8);

/// The stripe size routing parameter; stored and shown, never interpreted.
#[derive(Clone, Copy, PartialEq, Eq, Structural, Debug)]
pub struct ShardStripeSize(pub u32);

/// A shard's coordinates without its tenant: (shard_number, shard_count).
/// No relation between the two is enforced here.
#[derive(Clone, Copy, PartialEq, Eq, Structural, Ord, Hash)]
pub struct ShardIndex {
    pub shard_number: ShardNumber,
    pub shard_count: ShardCount,
}

/// Order on shard coordinates: lexicographic, the number first, then the
/// count.
pub open spec fn cmp_index_spec(a: ShardIndex, b: ShardIndex) -> Ordering {
    if a.shard_number.0 < b.shard_number.0 {
        Ordering::Less
    } else if a.shard_number.0 > b.shard_number.0 {
        Ordering::Greater
    } else if a.shard_count.0 < b.shard_count.0 {
        Ordering::Less
    } else if a.shard_count.0 > b.shard_count.0 {
        Ordering::Greater
    } else {
        Ordering::Equal
    }
}

impl PartialOrd for ShardIndex {
    fn partial_cmp(&self, other: &Self) -> (r: Option<Ordering>) {
        if self.shard_number.0 < other.shard_number.0 {
            Some(Ordering::Less)
        } else if self.shard_number.0 > other.shard_number.0 {
            Some(Ordering::Greater)
        } else if self.shard_count.0 < other.shard_count.0 {
            Some(Ordering::Less)
        } else if self.shard_count.0 > other.shard_count.0 {
            Some(Ordering::Greater)
        } else {
            Some(Ordering::Equal)
        }
    }
}

impl vstd::std_specs::cmp::PartialOrdSpecImpl for ShardIndex {
    open spec fn obeys_partial_cmp_spec() -> bool {
        true
    }

    open spec fn partial_cmp_spec(&self, other: &Self) -> Option<Ordering> {
        Some(cmp_index_spec(*self, *other))
    }
}

impl ShardNumber {
    /// The bare value shown as a decimal number, not hex.
    pub fn to_text(&self) -> (r: String)
        ensures
            r@ == decimal_of(self.0 as nat),
    {
        decimal_string_of_u32(self.0 as u32)
    }
}

impl ShardCount {
    /// The bare value shown as a decimal number, not hex.
    pub fn to_text(&self) -> (r: String)
        ensures
            r@ == decimal_of(self.0 as nat),
    {
        decimal_string_of_u32(self.0 as u32)
    }
}

impl ShardStripeSize {
    /// The bare value shown as a decimal number, not hex.
    pub fn to_text(&self) -> (r: String)
        ensures
            r@ == decimal_of(self.0 as nat),
    {
        decimal_string_of_u32(self.0)
    }
}

/// The text of a (shard_number, shard_count) pair: four lowercase hex
/// characters, two per byte.
pub open spec fn text_of_index(number: u8, count: u8) -> Seq<char> {
    hex_of_bytes(seq![number, count])
}

/// What parsing a shard index text yields: the two bytes of a four-digit
/// hex string, or the error naming what was wrong with the input.
pub open spec fn parse_index_spec(s: Seq<char>) -> Result<(u8, u8), ParseError> {
    if s.len() != 4 {
        Err(ParseError::InvalidStringLength)
    } else if !all_hex_digits(s) {
        Err(ParseError::InvalidHexDigit)
    } else {
        Ok((bytes_of_hex(s)[0], bytes_of_hex(s)[1]))
    }
}

impl ShardIndex {
    /// The four-character lowercase hex slug, e.g. number 1 of 4 is "0104".
    pub fn to_text(&self) -> (r: String)
        ensures
            r@ == text_of_index(self.shard_number.0, self.shard_count.0),
            r@.len() == 4,
    {
        let v: Vec<u8> = vec![self.shard_number.0, self.shard_count.0];
        proof {
            assert(v@ =~= seq![self.shard_number.0, self.shard_count.0]);
        }
        hex_string_of_bytes(&v)
    }

    /// Parses a four-character hex slug, exactly as `parse_index_spec` says.
    pub fn parse(s: &str) -> (r: Result<Self, ParseError>)
        ensures
            match r {
                Ok(x) => parse_index_spec(s@) == Ok::<(u8, u8), ParseError>(
                    (x.shard_number.0, x.shard_count.0),
                ),
                Err(e) => parse_index_spec(s@) == Err::<(u8, u8), ParseError>(e),
            },
    {
        if s.unicode_len() != 4 {
            return Err(ParseError::InvalidStringLength);
        }
        match bytes_of_hex_str(s, 0, 4) {
            Some(v) => {
                proof {
                    assert(s@.subrange(0, 4) =~= s@);
                }
                Ok(ShardIndex { shard_number: ShardNumber(v[0]), shard_count: ShardCount(v[1]) })
            },
            None => {
                proof {
                    assert(s@.subrange(0, 4) =~= s@);
                }
                Err(ParseError::InvalidHexDigit)
            },
        }
    }

    /// The packed binary form: the two raw bytes, number then count.
    pub fn to_bytes(&self) -> (r: [u8; 2])
        ensures
            r@ == seq![self.shard_number.0, self.shard_count.0],
    {
        let r: [u8; 2] = [self.shard_number.0, self.shard_count.0];
        proof {
            assert(r@ =~= seq![self.shard_number.0, self.shard_count.0]);
        }
        r
    }

    /// Rebuilds the index from its packed form; trusted input, no checks.
    pub fn from_bytes(b: [u8; 2]) -> (r: Self)
        ensures
            r.shard_number.0 == b@[0],
            r.shard_count.0 == b@[1],
    {
        ShardIndex { shard_number: ShardNumber(b[0]), shard_count: ShardCount(b[1]) }
    }
}

/// Both shard-index encodings invert: parsing the four-digit slug of any
/// (number, count) pair gives the pair back, and the two packed bytes read
/// back as the pair as well.
pub proof fn lemma_index_round_trip(number: u8, count: u8)
    ensures
        parse_index_spec(text_of_index(number, count)) == Ok::<(u8, u8), ParseError>(
            (number, count),
        ),
        seq![number, count][0] == number,
        seq![number, count][1] == count,
{
    lemma_hex_of_bytes_round_trip(seq![number, count]);
}

/// The fully qualified shard identifier: a tenant plus that tenant-local
/// shard coordinates. With shard_count zero it is the legacy, unsharded
/// identifier, and shard_number is zero as well.
#[derive(Clone, Copy, Eq, Ord, Hash)]
pub struct TenantShardId {
    pub tenant_id: TenantId,
    pub shard_number: ShardNumber,
    pub shard_count: ShardCount,
}

/// A display-only projection of a `TenantShardId`'s shard coordinates,
/// borrowed for the duration of one formatting call.
pub struct ShardSlug<'a>(&'a TenantShardId);

/// The identifiers the rest of the system may hold: a legacy identifier
/// carries no shard number.
pub open spec fn id_well_formed(number: u8, count: u8) -> bool {
    count == 0 ==> number == 0
}

/// The text of a tenant shard identifier: the bare 32-character tenant
/// text in the legacy case, else tenant text, a separator, and the
/// four-character shard slug — 37 characters in all.
pub open spec fn text_of_id(t: Seq<u8>, number: u8, count: u8) -> Seq<char> {
    if count == 0 {
        hex_of_bytes(t)
    } else {
        hex_of_bytes(t) + seq!['-'] + text_of_index(number, count)
    }
}

/// What parsing a tenant shard identifier text yields. Only the total
/// length disambiguates: 32 characters are a legacy identifier, 37 a
/// sharded one whose character at position 32 is skipped unchecked.
pub open spec fn parse_id_spec(s: Seq<char>) -> Result<(Seq<u8>, u8, u8), ParseError> {
    if s.len() == 32 {
        if all_hex_digits(s) {
            Ok((bytes_of_hex(s), 0u8, 0u8))
        } else {
            Err(ParseError::InvalidHexDigit)
        }
    } else if s.len() == 37 {
        let tpart = s.subrange(0, 32);
        let spart = s.subrange(33, 37);
        if all_hex_digits(tpart) && all_hex_digits(spart) {
            Ok((bytes_of_hex(tpart), bytes_of_hex(spart)[0], bytes_of_hex(spart)[1]))
        } else {
            Err(ParseError::InvalidHexDigit)
        }
    } else {
        Err(ParseError::InvalidStringLength)
    }
}

/// The packed binary form: 16 tenant bytes, then shard number and count.
pub open spec fn id_bytes(t: Seq<u8>, number: u8, count: u8) -> Seq<u8> {
    t.push(number).push(count)
}

impl<'a> ShardSlug<'a> {
    /// The identifier this slug projects.
    pub closed spec fn parent(&self) -> TenantShardId {
        *self.0
    }

    /// The four-character lowercase hex slug of the parent's coordinates.
    pub fn to_text(&self) -> (r: String)
        ensures
            r@ == text_of_index(self.parent().shard_number.0, self.parent().shard_count.0),
            r@.len() == 4,
    {
        let idx = ShardIndex {
            shard_number: self.0.shard_number,
            shard_count: self.0.shard_count,
        };
        idx.to_text()
    }
}

impl TenantShardId {
    /// The shard coordinates alone, as a borrowed formatting helper.
    pub fn shard_slug<'a>(&'a self) -> (r: ShardSlug<'a>)
        ensures
            r.parent() == *self,
    {
        ShardSlug(self)
    }

    /// The coordinates without the tenant.
    pub open spec fn spec_index(&self) -> ShardIndex {
        ShardIndex { shard_number: self.shard_number, shard_count: self.shard_count }
    }

    /// The canonical text form, exactly `text_of_id` of the fields: the
    /// bare tenant text when the count is zero (legacy), else tenant text,
    /// separator and slug.
    pub fn to_text(&self) -> (r: String)
        ensures
            r@ == text_of_id(self.tenant_id@, self.shard_number.0, self.shard_count.0),
            self.shard_count.0 == 0 ==> r@.len() == 32,
            self.shard_count.0 != 0 ==> r@.len() == 37,
    {
        let mut out = self.tenant_id.to_text();
        if self.shard_count.0 != 0 {
            proof {
                reveal_strlit("-");
            }
            out.append("-");
            let slug = self.shard_slug().to_text();
            out.append(slug.as_str());
            proof {
                assert(out@ =~= text_of_id(
                    self.tenant_id@,
                    self.shard_number.0,
                    self.shard_count.0,
                ));
            }
        }
        out
    }

    /// Parses the text form, exactly as `parse_id_spec` says: length 32 is
    /// legacy, length 37 is sharded, everything else is rejected.
    pub fn parse(s: &str) -> (r: Result<Self, ParseError>)
        ensures
            match r {
                Ok(x) => parse_id_spec(s@) == Ok::<(Seq<u8>, u8, u8), ParseError>(
                    (x.tenant_id@, x.shard_number.0, x.shard_count.0),
                ),
                Err(e) => parse_id_spec(s@) == Err::<(Seq<u8>, u8, u8), ParseError>(e),
            },
    {
        let n = s.unicode_len();
        if n == 32 {
            match TenantId::parse(s) {
                Ok(t) => Ok(TenantShardId {
                    tenant_id: t,
                    shard_number: ShardNumber(0),
                    shard_count: ShardCount(0),
                }),
                Err(e) => Err(e),
            }
        } else if n == 37 {
            let tv = match bytes_of_hex_str(s, 0, 32) {
                Some(tv) => tv,
                None => {
                    return Err(ParseError::InvalidHexDigit);
                },
            };
            let sv = match bytes_of_hex_str(s, 33, 37) {
                Some(sv) => sv,
                None => {
                    return Err(ParseError::InvalidHexDigit);
                },
            };
            Ok(TenantShardId {
                tenant_id: TenantId::from_vec(&tv),
                shard_number: ShardNumber(sv[0]),
                shard_count: ShardCount(sv[1]),
            })
        } else {
            Err(ParseError::InvalidStringLength)
        }
    }

    /// The packed 18-byte binary form. It is not stable across format
    /// versions; only the text form is.
    pub fn to_bytes(&self) -> (r: [u8; 18])
        ensures
            r@ == id_bytes(self.tenant_id@, self.shard_number.0, self.shard_count.0),
    {
        let t = self.tenant_id.as_arr();
        let mut r: [u8; 18] = [0u8; 18];
        let mut i: usize = 0;
        while i < 16
            invariant
                i <= 16,
                t@.len() == 16,
                r@.len() == 18,
                forall|j: int| 0 <= j < i ==> r@[j] == t@[j],
            decreases 16 - i,
        {
            r[i] = t[i];
            i = i + 1;
        }
        r[16] = self.shard_number.0;
        r[17] = self.shard_count.0;
        proof {
            assert(r@ =~= id_bytes(self.tenant_id@, self.shard_number.0, self.shard_count.0));
        }
        r
    }

    /// Rebuilds the identifier from its packed form; trusted input, no
    /// checks.
    pub fn from_bytes(b: [u8; 18]) -> (r: Self)
        ensures
            r.tenant_id@ == b@.subrange(0, 16),
            r.shard_number.0 == b@[16],
            r.shard_count.0 == b@[17],
    {
        let mut t: [u8; 16] = [0u8; 16];
        let mut i: usize = 0;
        while i < 16
            invariant
                i <= 16,
                b@.len() == 18,
                t@.len() == 16,
                forall|j: int| 0 <= j < i ==> t@[j] == b@[j],
            decreases 16 - i,
        {
            t[i] = b[i];
            i = i + 1;
        }
        proof {
            assert(t@ =~= b@.subrange(0, 16));
        }
        TenantShardId {
            tenant_id: TenantId::from_arr(t),
            shard_number: ShardNumber(b[16]),
            shard_count: ShardCount(b[17]),
        }
    }
}

impl PartialEq for TenantShardId {
    fn eq(&self, other: &Self) -> (r: bool) {
        self.tenant_id == other.tenant_id && self.shard_number.0 == other.shard_number.0
            && self.shard_count.0 == other.shard_count.0
    }
}

impl vstd::std_specs::cmp::PartialEqSpecImpl for TenantShardId {
    open spec fn obeys_eq_spec() -> bool {
        true
    }

    open spec fn eq_spec(&self, other: &Self) -> bool {
        self.tenant_id@ == other.tenant_id@ && self.shard_number == other.shard_number
            && self.shard_count == other.shard_count
    }
}

/// A well-formed identifier survives both encodings: parsing its text form
/// gives the fields back, and so does reading its 18 packed bytes. The
/// legacy text carries no shard number, which is why well-formedness
/// (a zero count forces a zero number) is required for the text direction.
pub proof fn lemma_id_round_trip(t: Seq<u8>, number: u8, count: u8)
    requires
        t.len() == 16,
        id_well_formed(number, count),
    ensures
        parse_id_spec(text_of_id(t, number, count)) == Ok::<(Seq<u8>, u8, u8), ParseError>(
            (t, number, count),
        ),
        id_bytes(t, number, count).subrange(0, 16) == t,
        id_bytes(t, number, count)[16] == number,
        id_bytes(t, number, count)[17] == count,
{
    lemma_hex_of_bytes_round_trip(t);
    assert(id_bytes(t, number, count).subrange(0, 16) =~= t);
    if count == 0 {
        assert(bytes_of_hex(hex_of_bytes(t)) =~= t);
    } else {
        let s = text_of_id(t, number, count);
        let slug = text_of_index(number, count);
        assert(s.len() == 37);
        assert(s.subrange(0, 32) =~= hex_of_bytes(t));
        assert(s.subrange(33, 37) =~= slug);
        lemma_index_round_trip(number, count);
        assert(bytes_of_hex(hex_of_bytes(t)) =~= t);
    }
}

/// Legacy equivalence: with a zero shard count the identifier's text is
/// exactly the bare 32-character tenant text, indistinguishable from the
/// tenant identifier formatted alone.
pub proof fn lemma_legacy_text(t: Seq<u8>, number: u8)
    ensures
        text_of_id(t, number, 0) == hex_of_bytes(t),
{
}

/// Order on tenant shard identifiers: the tenant decides; only between
/// shards of one tenant do the coordinates speak.
pub open spec fn cmp_id_spec(a: TenantShardId, b: TenantShardId) -> Ordering {
    if lex_cmp_bytes(a.tenant_id@, b.tenant_id@) != Ordering::Equal {
        lex_cmp_bytes(a.tenant_id@, b.tenant_id@)
    } else {
        cmp_index_spec(a.spec_index(), b.spec_index())
    }
}

impl PartialOrd for TenantShardId {
    fn partial_cmp(&self, other: &Self) -> (r: Option<Ordering>) {
        match self.tenant_id.cmp_bytes(&other.tenant_id) {
            Ordering::Equal => {
                let a = ShardIndex {
                    shard_number: self.shard_number,
                    shard_count: self.shard_count,
                };
                let b = ShardIndex {
                    shard_number: other.shard_number,
                    shard_count: other.shard_count,
                };
                a.partial_cmp(&b)
            },
            o => Some(o),
        }
    }
}

impl vstd::std_specs::cmp::PartialOrdSpecImpl for TenantShardId {
    open spec fn obeys_partial_cmp_spec() -> bool {
        true
    }

    open spec fn partial_cmp_spec(&self, other: &Self) -> Option<Ordering> {
        Some(cmp_id_spec(*self, *other))
    }
}

/// For two identifiers of one tenant, the order is decided solely by the
/// shard coordinates.
pub proof fn lemma_order_same_tenant(a: TenantShardId, b: TenantShardId)
    requires
        a.tenant_id@ == b.tenant_id@,
    ensures
        cmp_id_spec(a, b) == cmp_index_spec(a.spec_index(), b.spec_index()),
{
    lemma_lex_cmp_equal(a.tenant_id@, b.tenant_id@);
}

/// For two identifiers of different tenants, the order is decided solely
/// by the tenant bytes, whatever the shard coordinates are.
pub proof fn lemma_order_different_tenant(a: TenantShardId, b: TenantShardId)
    requires
        a.tenant_id@ != b.tenant_id@,
    ensures
        cmp_id_spec(a, b) == lex_cmp_bytes(a.tenant_id@, b.tenant_id@),
{
    lemma_lex_cmp_equal(a.tenant_id@, b.tenant_id@);
}

/// Two identifiers compare as equal exactly when they are the same
/// identifier: same tenant bytes, same number, same count.
pub proof fn lemma_order_equals_equality(a: TenantShardId, b: TenantShardId)
    ensures
        cmp_id_spec(a, b) == Ordering::Equal <==> (a.tenant_id@ == b.tenant_id@ && a.shard_number
            == b.shard_number && a.shard_count == b.shard_count),
{
    lemma_lex_cmp_equal(a.tenant_id@, b.tenant_id@);
}

} // verus!
