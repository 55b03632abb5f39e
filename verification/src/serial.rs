//! Dual-mode wire encoding: one logical identifier, two incompatible wire
//! shapes. A human-readable target carries the canonical text; any other
//! target carries the packed bytes. The branch is taken once per call, on
//! the target's declared mode, never per value.
use vstd::prelude::*;

use crate::hexcode::ParseError;
use crate::shard::{
    id_bytes, id_well_formed, lemma_id_round_trip, lemma_index_round_trip, parse_id_spec,
    parse_index_spec, text_of_id, text_of_index, ShardIndex, TenantShardId,
};

verus! {

/// What goes on the wire: a text token for human-readable targets, raw
/// bytes for the rest.
pub enum Encoded {
    Text(String),
    Bytes(Vec<u8>),
}

/// Why a wire value was rejected: its text failed to parse, or it had the
/// wrong shape for the target's mode — text where bytes belong, bytes
/// where text belongs, or the wrong byte count.
#[derive(Clone, Copy, PartialEq, Eq, Structural, Debug)]
pub enum DecodeError {
    Parse(ParseError),
    UnexpectedShape,
}

/// What decoding a shard index from the wire yields in each mode.
pub open spec fn decode_index_spec(e: Encoded, human_readable: bool) -> Result<
    (u8, u8),
    DecodeError,
> {
    match e {
        Encoded::Text(s) => if human_readable {
            match parse_index_spec(s@) {
                Ok(p) => Ok(p),
                Err(pe) => Err(DecodeError::Parse(pe)),
            }
        } else {
            Err(DecodeError::UnexpectedShape)
        },
        Encoded::Bytes(b) => if !human_readable && b@.len() == 2 {
            Ok((b@[0], b@[1]))
        } else {
            Err(DecodeError::UnexpectedShape)
        },
    }
}

/// What decoding a tenant shard identifier from the wire yields in each
/// mode.
pub open spec fn decode_id_spec(e: Encoded, human_readable: bool) -> Result<
    (Seq<u8>, u8, u8),
    DecodeError,
> {
    match e {
        Encoded::Text(s) => if human_readable {
            match parse_id_spec(s@) {
                Ok(p) => Ok(p),
                Err(pe) => Err(DecodeError::Parse(pe)),
            }
        } else {
            Err(DecodeError::UnexpectedShape)
        },
        Encoded::Bytes(b) => if !human_readable && b@.len() == 18 {
            Ok((b@.subrange(0, 16), b@[16], b@[17]))
        } else {
            Err(DecodeError::UnexpectedShape)
        },
    }
}

impl ShardIndex {
    /// The wire form for a target of the given mode: the four-digit slug
    /// when human-readable, the two packed bytes otherwise.
    pub fn encode(&self, human_readable: bool) -> (r: Encoded)
        ensures
            human_readable ==> (r matches Encoded::Text(s) && s@ == text_of_index(
                self.shard_number.0,
                self.shard_count.0,
            )),
            !human_readable ==> (r matches Encoded::Bytes(b) && b@ == seq![
                self.shard_number.0,
                self.shard_count.0,
            ]),
    {
        if human_readable {
            Encoded::Text(self.to_text())
        } else {
            let a = self.to_bytes();
            Encoded::Bytes(vstd::slice::slice_to_vec(a.as_slice()))
        }
    }

    /// Reads a wire value back in the given mode, exactly as
    /// `decode_index_spec` says.
    pub fn decode(e: &Encoded, human_readable: bool) -> (r: Result<Self, DecodeError>)
        ensures
            match r {
                Ok(x) => decode_index_spec(*e, human_readable) == Ok::<(u8, u8), DecodeError>(
                    (x.shard_number.0, x.shard_count.0),
                ),
                Err(er) => decode_index_spec(*e, human_readable) == Err::<(u8, u8), DecodeError>(
                    er,
                ),
            },
    {
        match e {
            Encoded::Text(s) => {
                if human_readable {
                    match ShardIndex::parse(s.as_str()) {
                        Ok(x) => Ok(x),
                        Err(pe) => Err(DecodeError::Parse(pe)),
                    }
                } else {
                    Err(DecodeError::UnexpectedShape)
                }
            },
            Encoded::Bytes(b) => {
                if !human_readable && b.len() == 2 {
                    let a: [u8; 2] = [b[0], b[1]];
                    proof {
                        assert(a@ =~= seq![b@[0], b@[1]]);
                    }
                    Ok(ShardIndex::from_bytes(a))
                } else {
                    Err(DecodeError::UnexpectedShape)
                }
            },
        }
    }
}

impl TenantShardId {
    /// The wire form for a target of the given mode: the canonical text
    /// when human-readable, the packed 18 bytes otherwise.
    pub fn encode(&self, human_readable: bool) -> (r: Encoded)
        ensures
            human_readable ==> (r matches Encoded::Text(s) && s@ == text_of_id(
                self.tenant_id@,
                self.shard_number.0,
                self.shard_count.0,
            )),
            !human_readable ==> (r matches Encoded::Bytes(b) && b@ == id_bytes(
                self.tenant_id@,
                self.shard_number.0,
                self.shard_count.0,
            )),
    {
        if human_readable {
            Encoded::Text(self.to_text())
        } else {
            let a = self.to_bytes();
            Encoded::Bytes(vstd::slice::slice_to_vec(a.as_slice()))
        }
    }

    /// Reads a wire value back in the given mode, exactly as
    /// `decode_id_spec` says.
    pub fn decode(e: &Encoded, human_readable: bool) -> (r: Result<Self, DecodeError>)
        ensures
            match r {
                Ok(x) => decode_id_spec(*e, human_readable) == Ok::<(Seq<u8>, u8, u8), DecodeError>(
                    (x.tenant_id@, x.shard_number.0, x.shard_count.0),
                ),
                Err(er) => decode_id_spec(*e, human_readable) == Err::<
                    (Seq<u8>, u8, u8),
                    DecodeError,
                >(er),
            },
    {
        match e {
            Encoded::Text(s) => {
                if human_readable {
                    match TenantShardId::parse(s.as_str()) {
                        Ok(x) => Ok(x),
                        Err(pe) => Err(DecodeError::Parse(pe)),
                    }
                } else {
                    Err(DecodeError::UnexpectedShape)
                }
            },
            Encoded::Bytes(b) => {
                if !human_readable && b.len() == 18 {
                    let mut a: [u8; 18] = [0u8; 18];
                    let mut i: usize = 0;
                    while i < 18
                        invariant
                            i <= 18,
                            b@.len() == 18,
                            a@.len() == 18,
                            forall|j: int| 0 <= j < i ==> a@[j] == b@[j],
                        decreases 18 - i,
                    {
                        a[i] = b[i];
                        i = i + 1;
                    }
                    proof {
                        assert(a@ =~= b@);
                        assert(a@.subrange(0, 16) =~= b@.subrange(0, 16));
                    }
                    Ok(TenantShardId::from_bytes(a))
                } else {
                    Err(DecodeError::UnexpectedShape)
                }
            },
        }
    }
}

/// Dual-mode round trip for shard indexes: whatever the target's mode, the
/// wire form the encoder promises decodes back to the same coordinates in
/// that mode.
pub proof fn lemma_dual_mode_index(e: Encoded, number: u8, count: u8, human_readable: bool)
    requires
        human_readable ==> (e matches Encoded::Text(s) && s@ == text_of_index(number, count)),
        !human_readable ==> (e matches Encoded::Bytes(b) && b@ == seq![number, count]),
    ensures
        decode_index_spec(e, human_readable) == Ok::<(u8, u8), DecodeError>((number, count)),
{
    lemma_index_round_trip(number, count);
}

/// Dual-mode round trip for tenant shard identifiers: whatever the
/// target's mode, the wire form the encoder promises decodes back to the
/// same well-formed identifier in that mode.
pub proof fn lemma_dual_mode_id(
    e: Encoded,
    t: Seq<u8>,
    number: u8,
    count: u8,
    human_readable: bool,
)
    requires
        t.len() == 16,
        id_well_formed(number, count),
        human_readable ==> (e matches Encoded::Text(s) && s@ == text_of_id(t, number, count)),
        !human_readable ==> (e matches Encoded::Bytes(b) && b@ == id_bytes(t, number, count)),
    ensures
        decode_id_spec(e, human_readable) == Ok::<(Seq<u8>, u8, u8), DecodeError>(
            (t, number, count),
        ),
{
    lemma_id_round_trip(t, number, count);
}

} // verus!
