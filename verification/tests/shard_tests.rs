use shard_id::{
    DecodeError, Encoded, ParseError, ShardCount, ShardIndex, ShardNumber, ShardStripeSize,
    TenantId, TenantShardId,
};

fn tid(bytes: [u8; 16]) -> TenantId {
    TenantId::from_arr(bytes)
}

fn tsid(bytes: [u8; 16], number: u8, count: u8) -> TenantShardId {
    TenantShardId {
        tenant_id: tid(bytes),
        shard_number: ShardNumber(number),
        shard_count: ShardCount(count),
    }
}

const ZEROS32: &str = "00000000000000000000000000000000";

#[test]
fn shard_index_formats_one_of_four() {
    let x = ShardIndex {
        shard_number: ShardNumber(1),
        shard_count: ShardCount(4),
    };
    assert!(x.to_text() == "0104");
    let parsed = ShardIndex::parse("0104").unwrap();
    assert!(parsed == x);
}

#[test]
fn shard_index_rejects_bad_hex() {
    assert!(ShardIndex::parse("zz01") == Err(ParseError::InvalidHexDigit));
}

#[test]
fn shard_index_rejects_bad_length() {
    assert!(ShardIndex::parse("010") == Err(ParseError::InvalidStringLength));
    assert!(ShardIndex::parse("01040") == Err(ParseError::InvalidStringLength));
    assert!(ShardIndex::parse("") == Err(ParseError::InvalidStringLength));
}

#[test]
fn shard_index_accepts_uppercase_hex() {
    let parsed = ShardIndex::parse("0A0F").unwrap();
    assert!(parsed.shard_number == ShardNumber(10));
    assert!(parsed.shard_count == ShardCount(15));
    // formats back to lowercase
    assert!(parsed.to_text() == "0a0f");
}

#[test]
fn shard_index_text_round_trip() {
    for number in [0u8, 1, 2, 15, 16, 127, 255] {
        for count in [0u8, 1, 4, 255] {
            let x = ShardIndex {
                shard_number: ShardNumber(number),
                shard_count: ShardCount(count),
            };
            let text = x.to_text();
            assert!(text.len() == 4);
            assert!(ShardIndex::parse(&text).unwrap() == x);
        }
    }
}

#[test]
fn shard_index_bytes_round_trip() {
    let x = ShardIndex {
        shard_number: ShardNumber(250),
        shard_count: ShardCount(3),
    };
    let b = x.to_bytes();
    assert!(b == [250u8, 3u8]);
    assert!(ShardIndex::from_bytes(b) == x);
}

#[test]
fn legacy_id_formats_to_bare_tenant_text() {
    let id = tsid([0u8; 16], 0, 0);
    let text = id.to_text();
    assert!(text == ZEROS32);
    // identical to formatting the tenant id alone
    assert!(text == id.tenant_id.to_text());
}

#[test]
fn sharded_id_formats_with_slug() {
    let id = tsid([0u8; 16], 2, 8);
    let text = id.to_text();
    assert!(text == "00000000000000000000000000000000-0208");
    assert!(text.len() == 37);
    let parsed = TenantShardId::parse(&text).unwrap();
    assert!(parsed.shard_number == ShardNumber(2));
    assert!(parsed.shard_count == ShardCount(8));
    assert!(parsed == id);
}

#[test]
fn sharded_id_packs_to_eighteen_bytes() {
    let id = tsid([0u8; 16], 2, 8);
    let b = id.to_bytes();
    assert!(b.len() == 18);
    assert!(b[16] == 0x02);
    assert!(b[17] == 0x08);
    assert!(&b[0..16] == &[0u8; 16][..]);
}

#[test]
fn tenant_shard_id_bytes_round_trip() {
    let tenant: [u8; 16] = [
        0x01, 0x23, 0x45, 0x67, 0x89, 0xab, 0xcd, 0xef, 0x10, 0x32, 0x54, 0x76, 0x98, 0xba, 0xdc,
        0xfe,
    ];
    let id = tsid(tenant, 7, 9);
    let b = id.to_bytes();
    assert!(&b[0..16] == &tenant[..]);
    assert!(TenantShardId::from_bytes(b) == id);
}

#[test]
fn tenant_shard_id_text_round_trip() {
    let tenant: [u8; 16] = [
        0xde, 0xad, 0xbe, 0xef, 0x00, 0x11, 0x22, 0x33, 0x44, 0x55, 0x66, 0x77, 0x88, 0x99, 0xaa,
        0xbb,
    ];
    // legacy (count 0, number 0) and sharded values
    for (number, count) in [(0u8, 0u8), (0, 1), (2, 8), (255, 255)] {
        let id = tsid(tenant, number, count);
        let text = id.to_text();
        assert!(TenantShardId::parse(&text).unwrap() == id);
    }
}

#[test]
fn tenant_shard_id_parse_lengths() {
    assert!(TenantShardId::parse("") == Err(ParseError::InvalidStringLength));
    assert!(TenantShardId::parse("0011") == Err(ParseError::InvalidStringLength));
    let thirtythree = "000000000000000000000000000000000";
    assert!(TenantShardId::parse(thirtythree) == Err(ParseError::InvalidStringLength));
    let thirtysix = "000000000000000000000000000000000000";
    assert!(TenantShardId::parse(thirtysix) == Err(ParseError::InvalidStringLength));
    let thirtyeight = "00000000000000000000000000000000-02080";
    assert!(TenantShardId::parse(thirtyeight) == Err(ParseError::InvalidStringLength));
}

#[test]
fn tenant_shard_id_parse_bad_hex() {
    let legacy_bad = "0000000000000000000000000000000g";
    assert!(TenantShardId::parse(legacy_bad) == Err(ParseError::InvalidHexDigit));
    let sharded_bad_tenant = "0000000000000000000000000000000g-0208";
    assert!(TenantShardId::parse(sharded_bad_tenant) == Err(ParseError::InvalidHexDigit));
    let sharded_bad_slug = "00000000000000000000000000000000-02x8";
    assert!(TenantShardId::parse(sharded_bad_slug) == Err(ParseError::InvalidHexDigit));
}

#[test]
fn tenant_shard_id_parse_legacy() {
    let id = TenantShardId::parse(ZEROS32).unwrap();
    assert!(id.shard_number == ShardNumber(0));
    assert!(id.shard_count == ShardCount(0));
    assert!(id.tenant_id == TenantId::from_arr([0u8; 16]));
}

#[test]
fn separator_position_is_not_checked() {
    // only the total length disambiguates; the byte at position 32 is
    // skipped without being compared to '-'
    let odd = "00000000000000000000000000000000x0208";
    let parsed = TenantShardId::parse(odd).unwrap();
    assert!(parsed.shard_number == ShardNumber(2));
    assert!(parsed.shard_count == ShardCount(8));
}

#[test]
fn tenant_id_text_round_trip() {
    let tenant: [u8; 16] = [
        0x0f, 0x1e, 0x2d, 0x3c, 0x4b, 0x5a, 0x69, 0x78, 0x87, 0x96, 0xa5, 0xb4, 0xc3, 0xd2, 0xe1,
        0xf0,
    ];
    let t = tid(tenant);
    let text = t.to_text();
    assert!(text == "0f1e2d3c4b5a69788796a5b4c3d2e1f0");
    assert!(TenantId::parse(&text).unwrap() == t);
    assert!(t.as_arr() == tenant);
}

#[test]
fn tenant_id_parse_accepts_uppercase() {
    let t = TenantId::parse("0F1E2D3C4B5A69788796A5B4C3D2E1F0").unwrap();
    assert!(t.to_text() == "0f1e2d3c4b5a69788796a5b4c3d2e1f0");
}

#[test]
fn tenant_id_parse_errors() {
    assert!(TenantId::parse("00ff") == Err(ParseError::InvalidStringLength));
    assert!(
        TenantId::parse("0000000000000000000000000000000%") == Err(ParseError::InvalidHexDigit)
    );
}

#[test]
fn shard_slug_shows_coordinates() {
    let id = tsid([7u8; 16], 1, 4);
    assert!(id.shard_slug().to_text() == "0104");
}

#[test]
fn ordering_same_tenant_uses_coordinates() {
    let tenant = [9u8; 16];
    let a = tsid(tenant, 1, 4);
    let b = tsid(tenant, 2, 4);
    let c = tsid(tenant, 2, 8);
    assert!(a < b);
    assert!(b < c);
    assert!(a < c);
}

#[test]
fn ordering_different_tenant_ignores_coordinates() {
    let lo = tsid([1u8; 16], 255, 255);
    let hi = tsid([2u8; 16], 0, 0);
    assert!(lo < hi);
}

#[test]
fn sorted_ids_keep_one_tenant_contiguous() {
    let ta = [1u8; 16];
    let tb = [2u8; 16];
    let mut v = vec![
        tsid(tb, 0, 2),
        tsid(ta, 1, 2),
        tsid(tb, 1, 2),
        tsid(ta, 0, 2),
    ];
    v.sort();
    assert!(v[0] == tsid(ta, 0, 2));
    assert!(v[1] == tsid(ta, 1, 2));
    assert!(v[2] == tsid(tb, 0, 2));
    assert!(v[3] == tsid(tb, 1, 2));
}

#[test]
fn shard_index_ordering_is_lexicographic() {
    let a = ShardIndex {
        shard_number: ShardNumber(1),
        shard_count: ShardCount(200),
    };
    let b = ShardIndex {
        shard_number: ShardNumber(2),
        shard_count: ShardCount(0),
    };
    assert!(a < b);
    let c = ShardIndex {
        shard_number: ShardNumber(1),
        shard_count: ShardCount(201),
    };
    assert!(a < c);
}

#[test]
fn dual_mode_index_human_readable() {
    let x = ShardIndex {
        shard_number: ShardNumber(1),
        shard_count: ShardCount(4),
    };
    match x.encode(true) {
        Encoded::Text(s) => {
            assert!(s == "0104");
            let back = ShardIndex::decode(&Encoded::Text(s), true).unwrap();
            assert!(back == x);
        }
        Encoded::Bytes(_) => panic!("human-readable encoding must be text"),
    }
}

#[test]
fn dual_mode_index_binary() {
    let x = ShardIndex {
        shard_number: ShardNumber(1),
        shard_count: ShardCount(4),
    };
    match x.encode(false) {
        Encoded::Bytes(b) => {
            assert!(b == vec![1u8, 4u8]);
            let back = ShardIndex::decode(&Encoded::Bytes(b), false).unwrap();
            assert!(back == x);
        }
        Encoded::Text(_) => panic!("binary encoding must be bytes"),
    }
}

#[test]
fn dual_mode_id_both_targets() {
    let id = tsid([3u8; 16], 2, 8);
    match id.encode(true) {
        Encoded::Text(s) => {
            assert!(s == "03030303030303030303030303030303-0208");
            assert!(TenantShardId::decode(&Encoded::Text(s), true).unwrap() == id);
        }
        Encoded::Bytes(_) => panic!("human-readable encoding must be text"),
    }
    match id.encode(false) {
        Encoded::Bytes(b) => {
            assert!(b.len() == 18);
            assert!(b[16] == 2 && b[17] == 8);
            assert!(TenantShardId::decode(&Encoded::Bytes(b), false).unwrap() == id);
        }
        Encoded::Text(_) => panic!("binary encoding must be bytes"),
    }
}

#[test]
fn dual_mode_rejects_wrong_shape() {
    let id = tsid([3u8; 16], 2, 8);
    let text = match id.encode(true) {
        Encoded::Text(s) => s,
        Encoded::Bytes(_) => panic!("human-readable encoding must be text"),
    };
    // text handed to a binary target
    assert!(
        TenantShardId::decode(&Encoded::Text(text), false) == Err(DecodeError::UnexpectedShape)
    );
    // bytes handed to a human-readable target
    let bytes = match id.encode(false) {
        Encoded::Bytes(b) => b,
        Encoded::Text(_) => panic!("binary encoding must be bytes"),
    };
    assert!(TenantShardId::decode(&Encoded::Bytes(bytes), true) == Err(DecodeError::UnexpectedShape));
    // the wrong byte count for a binary target
    assert!(
        TenantShardId::decode(&Encoded::Bytes(vec![0u8; 17]), false)
            == Err(DecodeError::UnexpectedShape)
    );
    assert!(
        ShardIndex::decode(&Encoded::Bytes(vec![0u8; 3]), false)
            == Err(DecodeError::UnexpectedShape)
    );
    // a parse failure inside a human-readable target keeps its cause
    assert!(
        ShardIndex::decode(&Encoded::Text("zz01".to_string()), true)
            == Err(DecodeError::Parse(ParseError::InvalidHexDigit))
    );
}

#[test]
fn stripe_size_holds_its_value() {
    let s = ShardStripeSize(32768);
    assert!(s == ShardStripeSize(32768));
    assert!(s.0 == 32768);
}

#[test]
fn bare_numbers_display_as_decimal() {
    // bare wrappers show decimal, in contrast to the hex used inside
    // composite identifiers
    assert!(ShardNumber(0).to_text() == "0");
    assert!(ShardNumber(7).to_text() == "7");
    assert!(ShardNumber(255).to_text() == "255");
    assert!(ShardCount(10).to_text() == "10");
    assert!(ShardStripeSize(32768).to_text() == "32768");
    assert!(ShardStripeSize(4294967295).to_text() == "4294967295");
}
