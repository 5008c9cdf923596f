//! The wire codec of launch requests.
//!
//! A request is encoded as a discriminant tag followed by the configuration
//! fields in declared order: variable-length byte strings carry a four-byte
//! little-endian length prefix, fixed-width integers are little-endian,
//! booleans are a single zero-or-one byte, and identities are 32 raw bytes.
//!
//! Decoding accepts exactly the encodings: `decode_instruction` returns `Ok`
//! on a byte string if and only if it is `spec_encode_request` of some
//! well-formed request, and then returns that request.

use vstd::bytes::*;
use vstd::prelude::*;
use vstd::slice::*;

use crate::identity::Identity;
use crate::state::{
    Asset, AssetType, AssetV, LaunchConfig, LaunchConfigV, LaunchError, LaunchpadInstruction,
    LaunchpadInstructionV,
};

verus! {

/// Tag byte of an asset type.
pub open spec fn asset_type_tag(t: AssetType) -> u8 {
    match t {
        AssetType::SplTokenLegacy => 0,
        AssetType::SplToken2022 => 1,
        AssetType::StandardNft => 2,
    }
}

/// Tag byte of a boolean.
pub open spec fn bool_byte(b: bool) -> u8 {
    if b {
        1
    } else {
        0
    }
}

/// A byte string with its four-byte little-endian length prefix.
pub open spec fn enc_bytes(b: Seq<u8>) -> Seq<u8> {
    spec_u32_to_le_bytes(b.len() as u32) + b
}

/// A configuration is representable on the wire: every variable-length field
/// fits its four-byte length prefix and the creator identity is 32 bytes.
pub open spec fn config_wf(c: LaunchConfigV) -> bool {
    &&& c.name.len() < 0x100000000
    &&& c.symbol.len() < 0x100000000
    &&& c.metadata_uri.len() < 0x100000000
    &&& c.creator.len() == 32
}

/// The encoding of a configuration: fields in declared order.
pub open spec fn spec_encode_config(c: LaunchConfigV) -> Seq<u8> {
    seq![asset_type_tag(c.asset_type)] + enc_bytes(c.name) + enc_bytes(c.symbol) + seq![c.decimals]
        + spec_u64_to_le_bytes(c.total_supply) + enc_bytes(c.metadata_uri) + c.creator + seq![
        bool_byte(c.is_mutable),
    ]
}

/// An asset record is representable on the wire.
pub open spec fn asset_wf(a: AssetV) -> bool {
    &&& a.name.len() < 0x100000000
    &&& a.symbol.len() < 0x100000000
    &&& a.mint.len() == 32
    &&& a.creator.len() == 32
}

/// The encoding of a persisted asset record: fields in declared order, the
/// timestamp as the two's-complement little-endian image of its value.
pub open spec fn spec_encode_asset(a: AssetV) -> Seq<u8> {
    seq![asset_type_tag(a.asset_type)] + a.mint + a.creator + enc_bytes(a.name) + enc_bytes(
        a.symbol,
    ) + spec_u64_to_le_bytes(a.total_supply) + spec_u64_to_le_bytes(a.launch_timestamp as u64)
}

/// A request is representable on the wire.
pub open spec fn request_wf(r: LaunchpadInstructionV) -> bool {
    match r {
        LaunchpadInstructionV::LaunchAsset { config } => config_wf(config),
    }
}

/// The encoding of a request: its tag byte, then its payload.
pub open spec fn spec_encode_request(r: LaunchpadInstructionV) -> Seq<u8> {
    match r {
        LaunchpadInstructionV::LaunchAsset { config } => seq![0u8] + spec_encode_config(config),
    }
}

// ---------------------------------------------------------------------------
// The specification-level parser. Each function reads one component at
// position `i` of `d` and yields the component and the next position.
// ---------------------------------------------------------------------------

/// Read one byte.
pub open spec fn parse_u8_at(d: Seq<u8>, i: int) -> Option<(u8, int)> {
    if 0 <= i && i + 1 <= d.len() {
        Some((d[i], i + 1))
    } else {
        None
    }
}

/// Read a four-byte little-endian integer.
pub open spec fn parse_u32_at(d: Seq<u8>, i: int) -> Option<(u32, int)> {
    if 0 <= i && i + 4 <= d.len() {
        Some((spec_u32_from_le_bytes(d.subrange(i, i + 4)), i + 4))
    } else {
        None
    }
}

/// Read an eight-byte little-endian integer.
pub open spec fn parse_u64_at(d: Seq<u8>, i: int) -> Option<(u64, int)> {
    if 0 <= i && i + 8 <= d.len() {
        Some((spec_u64_from_le_bytes(d.subrange(i, i + 8)), i + 8))
    } else {
        None
    }
}

/// Read a length-prefixed byte string.
pub open spec fn parse_bytes_at(d: Seq<u8>, i: int) -> Option<(Seq<u8>, int)> {
    match parse_u32_at(d, i) {
        Some((n, j)) => if j + n <= d.len() {
            Some((d.subrange(j, j + n), j + n))
        } else {
            None
        },
        None => None,
    }
}

/// Read a 32-byte identity.
pub open spec fn parse_identity_at(d: Seq<u8>, i: int) -> Option<(Seq<u8>, int)> {
    if 0 <= i && i + 32 <= d.len() {
        Some((d.subrange(i, i + 32), i + 32))
    } else {
        None
    }
}

/// Read an asset-type tag.
pub open spec fn parse_asset_type_at(d: Seq<u8>, i: int) -> Option<(AssetType, int)> {
    match parse_u8_at(d, i) {
        Some((t, j)) => if t == 0 {
            Some((AssetType::SplTokenLegacy, j))
        } else if t == 1 {
            Some((AssetType::SplToken2022, j))
        } else if t == 2 {
            Some((AssetType::StandardNft, j))
        } else {
            None
        },
        None => None,
    }
}

/// Read a boolean tag.
pub open spec fn parse_bool_at(d: Seq<u8>, i: int) -> Option<(bool, int)> {
    match parse_u8_at(d, i) {
        Some((t, j)) => if t == 0 {
            Some((false, j))
        } else if t == 1 {
            Some((true, j))
        } else {
            None
        },
        None => None,
    }
}

/// Read a whole configuration.
pub open spec fn parse_config_at(d: Seq<u8>, i: int) -> Option<(LaunchConfigV, int)> {
    match parse_asset_type_at(d, i) {
        Some((asset_type, i1)) => match parse_bytes_at(d, i1) {
            Some((name, i2)) => match parse_bytes_at(d, i2) {
                Some((symbol, i3)) => match parse_u8_at(d, i3) {
                    Some((decimals, i4)) => match parse_u64_at(d, i4) {
                        Some((total_supply, i5)) => match parse_bytes_at(d, i5) {
                            Some((metadata_uri, i6)) => match parse_identity_at(d, i6) {
                                Some((creator, i7)) => match parse_bool_at(d, i7) {
                                    Some((is_mutable, i8)) => Some(
                                        (
                                            LaunchConfigV {
                                                asset_type,
                                                name,
                                                symbol,
                                                decimals,
                                                total_supply,
                                                metadata_uri,
                                                creator,
                                                is_mutable,
                                            },
                                            i8,
                                        ),
                                    ),
                                    None => None,
                                },
                                None => None,
                            },
                            None => None,
                        },
                        None => None,
                    },
                    None => None,
                },
                None => None,
            },
            None => None,
        },
        None => None,
    }
}

/// The whole-message parser: the request whose encoding is exactly `d`,
/// if any.
pub open spec fn spec_decode_request(d: Seq<u8>) -> Option<LaunchpadInstructionV> {
    match parse_u8_at(d, 0) {
        Some((tag, i)) => if tag == 0 {
            match parse_config_at(d, i) {
                Some((config, j)) => if j == d.len() {
                    Some(LaunchpadInstructionV::LaunchAsset { config })
                } else {
                    None
                },
                None => None,
            }
        } else {
            None
        },
        None => None,
    }
}

// ---------------------------------------------------------------------------
// Soundness: whatever the parser accepts is the encoding of what it yields.
// ---------------------------------------------------------------------------

/// A parsed byte string sits in `d` exactly as its encoding.
proof fn lemma_parse_bytes_sound(d: Seq<u8>, i: int)
    requires
        parse_bytes_at(d, i) is Some,
    ensures
        ({
            let (b, j) = parse_bytes_at(d, i)->Some_0;
            &&& i + 4 <= j <= d.len()
            &&& b.len() < 0x100000000
            &&& j == i + 4 + b.len()
            &&& d.subrange(i, j) =~= enc_bytes(b)
        }),
{
    let (n, j0) = parse_u32_at(d, i)->Some_0;
    let (b, j) = parse_bytes_at(d, i)->Some_0;
    lemma_auto_spec_u32_to_from_le_bytes();
    assert(spec_u32_to_le_bytes(n) == d.subrange(i, i + 4));
    assert(b.len() == n);
    assert(b.len() as u32 == n);
    assert(d.subrange(i, j) =~= enc_bytes(b));
}

/// A parsed configuration sits in `d` exactly as its encoding.
proof fn lemma_parse_config_sound(d: Seq<u8>, i: int)
    requires
        parse_config_at(d, i) is Some,
    ensures
        ({
            let (c, j) = parse_config_at(d, i)->Some_0;
            &&& i <= j <= d.len()
            &&& config_wf(c)
            &&& d.subrange(i, j) =~= spec_encode_config(c)
        }),
{
    let (c, j) = parse_config_at(d, i)->Some_0;
    let (asset_type, i1) = parse_asset_type_at(d, i)->Some_0;
    let (name, i2) = parse_bytes_at(d, i1)->Some_0;
    let (symbol, i3) = parse_bytes_at(d, i2)->Some_0;
    let (decimals, i4) = parse_u8_at(d, i3)->Some_0;
    let (total_supply, i5) = parse_u64_at(d, i4)->Some_0;
    let (metadata_uri, i6) = parse_bytes_at(d, i5)->Some_0;
    let (creator, i7) = parse_identity_at(d, i6)->Some_0;
    let (is_mutable, i8) = parse_bool_at(d, i7)->Some_0;
    lemma_auto_spec_u32_to_from_le_bytes();
    lemma_parse_bytes_sound(d, i1);
    lemma_parse_bytes_sound(d, i2);
    lemma_parse_bytes_sound(d, i5);
    lemma_auto_spec_u64_to_from_le_bytes();
    assert(spec_u64_to_le_bytes(total_supply) == d.subrange(i4, i4 + 8));
    assert(d.subrange(i, i1) =~= seq![asset_type_tag(asset_type)]);
    assert(d.subrange(i3, i4) =~= seq![decimals]);
    assert(d.subrange(i7, i8) =~= seq![bool_byte(is_mutable)]);
    assert(d.subrange(i, j) =~= spec_encode_config(c));
}

/// Soundness of the whole-message parser.
pub proof fn lemma_decode_sound(d: Seq<u8>)
    requires
        spec_decode_request(d) is Some,
    ensures
        ({
            let r = spec_decode_request(d)->Some_0;
            &&& request_wf(r)
            &&& d =~= spec_encode_request(r)
        }),
{
    let r = spec_decode_request(d)->Some_0;
    let (config, j) = parse_config_at(d, 1)->Some_0;
    lemma_parse_config_sound(d, 1);
    assert(d.subrange(0, 1) =~= seq![0u8]);
    assert(d =~= spec_encode_request(r));
}

// ---------------------------------------------------------------------------
// Completeness: the parser accepts every encoding placed at its position.
// ---------------------------------------------------------------------------

/// The parser reads back a byte string whose encoding sits at `i`.
proof fn lemma_parse_bytes_complete(d: Seq<u8>, i: int, b: Seq<u8>)
    requires
        0 <= i,
        b.len() < 0x100000000,
        i + 4 + b.len() <= d.len(),
        d.subrange(i, i + 4 + b.len()) =~= enc_bytes(b),
    ensures
        parse_bytes_at(d, i) == Some((b, i + 4 + b.len())),
{
    lemma_auto_spec_u32_to_from_le_bytes();
    let e = enc_bytes(b);
    let w = d.subrange(i, i + 4 + b.len() as int);
    assert(w == e);
    assert(d.subrange(i, i + 4) =~= spec_u32_to_le_bytes(b.len() as u32));
    let n = spec_u32_from_le_bytes(d.subrange(i, i + 4));
    assert(n == b.len() as u32);
    assert(w.subrange(4, 4 + b.len() as int) =~= d.subrange(i + 4, i + 4 + b.len() as int));
    assert(w.subrange(4, 4 + b.len() as int) =~= b);
}

/// The parser reads back a configuration whose encoding sits at `i`.
proof fn lemma_parse_config_complete(d: Seq<u8>, i: int, c: LaunchConfigV)
    requires
        0 <= i,
        config_wf(c),
        i + spec_encode_config(c).len() <= d.len(),
        d.subrange(i, i + spec_encode_config(c).len()) =~= spec_encode_config(c),
    ensures
        parse_config_at(d, i) == Some((c, i + spec_encode_config(c).len())),
{
    lemma_auto_spec_u32_to_from_le_bytes();
    lemma_auto_spec_u64_to_from_le_bytes();
    let e = spec_encode_config(c);
    let len = e.len() as int;
    let n1 = c.name.len() as int;
    let n2 = c.symbol.len() as int;
    let n3 = c.metadata_uri.len() as int;
    assert(len == 1 + (4 + n1) + (4 + n2) + 1 + 8 + (4 + n3) + 32 + 1);
    let i1 = i + 1;
    let i2 = i1 + 4 + n1;
    let i3 = i2 + 4 + n2;
    let i4 = i3 + 1;
    let i5 = i4 + 8;
    let i6 = i5 + 4 + n3;
    let i7 = i6 + 32;
    let i8 = i7 + 1;
    assert(i8 == i + len);
    // The tag byte.
    assert(d.subrange(i, i1) =~= e.subrange(0, 1));
    assert(e.subrange(0, 1) =~= seq![asset_type_tag(c.asset_type)]);
    assert(d.subrange(i, i1)[0] == asset_type_tag(c.asset_type));
    assert(d[i] == asset_type_tag(c.asset_type));
    assert(parse_asset_type_at(d, i) == Some((c.asset_type, i1)));
    // The name.
    assert(d.subrange(i1, i2) =~= e.subrange(1, 1 + 4 + n1));
    assert(e.subrange(1, 1 + 4 + n1) =~= enc_bytes(c.name));
    lemma_parse_bytes_complete(d, i1, c.name);
    // The symbol.
    assert(d.subrange(i2, i3) =~= e.subrange(i2 - i, i3 - i));
    assert(e.subrange(i2 - i, i3 - i) =~= enc_bytes(c.symbol));
    lemma_parse_bytes_complete(d, i2, c.symbol);
    // The decimals byte.
    assert(d.subrange(i3, i4) =~= e.subrange(i3 - i, i4 - i));
    assert(e.subrange(i3 - i, i4 - i) =~= seq![c.decimals]);
    assert(d.subrange(i3, i4)[0] == c.decimals);
    assert(d[i3] == c.decimals);
    assert(parse_u8_at(d, i3) == Some((c.decimals, i4)));
    // The total supply.
    assert(d.subrange(i4, i5) =~= e.subrange(i4 - i, i5 - i));
    assert(e.subrange(i4 - i, i5 - i) =~= spec_u64_to_le_bytes(c.total_supply));
    assert(parse_u64_at(d, i4) == Some((c.total_supply, i5)));
    // The metadata URI.
    assert(d.subrange(i5, i6) =~= e.subrange(i5 - i, i6 - i));
    assert(e.subrange(i5 - i, i6 - i) =~= enc_bytes(c.metadata_uri));
    lemma_parse_bytes_complete(d, i5, c.metadata_uri);
    // The creator identity.
    assert(d.subrange(i6, i7) =~= e.subrange(i6 - i, i7 - i));
    assert(e.subrange(i6 - i, i7 - i) =~= c.creator);
    assert(parse_identity_at(d, i6) == Some((c.creator, i7)));
    // The mutability flag.
    assert(d.subrange(i7, i8) =~= e.subrange(i7 - i, i8 - i));
    assert(e.subrange(i7 - i, i8 - i) =~= seq![bool_byte(c.is_mutable)]);
    assert(d.subrange(i7, i8)[0] == bool_byte(c.is_mutable));
    assert(d[i7] == bool_byte(c.is_mutable));
    assert(parse_bool_at(d, i7) == Some((c.is_mutable, i8)));
}

/// Round trip: the whole-message parser reads back every well-formed
/// request from its encoding, so `decode` after `encode` is the identity.
pub proof fn lemma_decode_of_encode(r: LaunchpadInstructionV)
    requires
        request_wf(r),
    ensures
        spec_decode_request(spec_encode_request(r)) == Some(r),
{
    let d = spec_encode_request(r);
    let config = r->config;
    let e = spec_encode_config(config);
    assert(d[0] == 0u8);
    assert(d.subrange(1, 1 + e.len() as int) =~= e);
    lemma_parse_config_complete(d, 1, config);
}

// ---------------------------------------------------------------------------
// The executable codec.
// ---------------------------------------------------------------------------

/// Append an identity's 32 raw bytes.
pub(crate) fn write_identity(out: &mut Vec<u8>, id: &Identity)
    ensures
        final(out)@ == old(out)@ + id@,
{
    let bytes = id.to_bytes();
    let ghost mid = out@;
    let mut k: usize = 0;
    while k < 32
        invariant
            0 <= k <= 32,
            bytes@ == id@,
            out@ =~= mid + bytes@.subrange(0, k as int),
        decreases 32 - k,
    {
        out.push(bytes[k]);
        k += 1;
    }
    proof {
        assert(out@ =~= old(out)@ + id@);
    }
}

/// Append a byte string's length prefix and bytes.
fn write_bytes(out: &mut Vec<u8>, b: &Vec<u8>)
    requires
        b@.len() < 0x100000000,
    ensures
        final(out)@ == old(out)@ + enc_bytes(b@),
{
    let mut prefix = u32_to_le_bytes(b.len() as u32);
    out.append(&mut prefix);
    let ghost mid = out@;
    let mut k: usize = 0;
    while k < b.len()
        invariant
            0 <= k <= b@.len(),
            out@ =~= mid + b@.subrange(0, k as int),
        decreases b@.len() - k,
    {
        out.push(b[k]);
        k += 1;
    }
    proof {
        assert(out@ =~= old(out)@ + enc_bytes(b@));
    }
}

/// Append a configuration's encoding.
fn write_config(out: &mut Vec<u8>, config: &LaunchConfig)
    requires
        config_wf(config@),
    ensures
        final(out)@ == old(out)@ + spec_encode_config(config@),
{
    match config.asset_type {
        AssetType::SplTokenLegacy => out.push(0u8),
        AssetType::SplToken2022 => out.push(1u8),
        AssetType::StandardNft => out.push(2u8),
    }
    write_bytes(out, &config.name);
    write_bytes(out, &config.symbol);
    out.push(config.decimals);
    let mut supply = u64_to_le_bytes(config.total_supply);
    out.append(&mut supply);
    write_bytes(out, &config.metadata_uri);
    write_identity(out, &config.creator);
    if config.is_mutable {
        out.push(1u8);
    } else {
        out.push(0u8);
    }
    proof {
        assert(out@ =~= old(out)@ + spec_encode_config(config@));
    }
}

/// Encode a request for the wire.
pub fn encode_instruction(instruction: &LaunchpadInstruction) -> (r: Vec<u8>)
    requires
        request_wf(instruction@),
    ensures
        r@ == spec_encode_request(instruction@),
{
    match instruction {
        LaunchpadInstruction::LaunchAsset { config } => {
            let mut out: Vec<u8> = Vec::new();
            out.push(0u8);
            write_config(&mut out, config);
            proof {
                assert(out@ =~= spec_encode_request(instruction@));
            }
            out
        },
    }
}

/// Encode a persisted asset record for its storage slot.
pub fn encode_asset(asset: &Asset) -> (r: Vec<u8>)
    requires
        asset_wf(asset@),
    ensures
        r@ == spec_encode_asset(asset@),
{
    let mut out: Vec<u8> = Vec::new();
    match asset.asset_type {
        AssetType::SplTokenLegacy => out.push(0u8),
        AssetType::SplToken2022 => out.push(1u8),
        AssetType::StandardNft => out.push(2u8),
    }
    write_identity(&mut out, &asset.mint);
    write_identity(&mut out, &asset.creator);
    write_bytes(&mut out, &asset.name);
    write_bytes(&mut out, &asset.symbol);
    let mut supply = u64_to_le_bytes(asset.total_supply);
    out.append(&mut supply);
    let mut stamp = u64_to_le_bytes(asset.launch_timestamp as u64);
    out.append(&mut stamp);
    proof {
        assert(out@ =~= spec_encode_asset(asset@));
    }
    out
}

/// Read a length-prefixed byte string.
fn read_bytes(data: &[u8], i: usize) -> (r: Option<(Vec<u8>, usize)>)
    ensures
        match r {
            Some(p) => parse_bytes_at(data@, i as int) == Some((p.0@, p.1 as int)),
            None => parse_bytes_at(data@, i as int) is None,
        },
{
    if data.len() < 4 || i > data.len() - 4 {
        return None;
    }
    let prefix = slice_subrange(data, i, i + 4);
    let n = u32_from_le_bytes(prefix);
    let j = i + 4;
    if n as usize > data.len() - j {
        return None;
    }
    let body = slice_subrange(data, j, j + n as usize);
    let b = slice_to_vec(body);
    Some((b, j + n as usize))
}

/// Read a 32-byte identity.
fn read_identity(data: &[u8], i: usize) -> (r: Option<(Identity, usize)>)
    ensures
        match r {
            Some(p) => parse_identity_at(data@, i as int) == Some((p.0@, p.1 as int)),
            None => parse_identity_at(data@, i as int) is None,
        },
{
    if data.len() < 32 || i > data.len() - 32 {
        return None;
    }
    let mut bytes: [u8; 32] = [0u8; 32];
    let mut k: usize = 0;
    while k < 32
        invariant
            0 <= k <= 32,
            i + 32 <= data@.len() <= usize::MAX,
            forall|m: int| 0 <= m < k ==> bytes@[m] == data@[i + m],
        decreases 32 - k,
    {
        let byte = data[i + k];
        bytes[k] = byte;
        k += 1;
    }
    proof {
        assert(bytes@ =~= data@.subrange(i as int, i + 32));
    }
    Some((Identity::new(bytes), i + 32))
}

/// Read a configuration.
fn read_config(data: &[u8], i: usize) -> (r: Option<(LaunchConfig, usize)>)
    ensures
        match r {
            Some(p) => parse_config_at(data@, i as int) == Some((p.0@, p.1 as int)),
            None => parse_config_at(data@, i as int) is None,
        },
{
    let (tag, i1) = if i < data.len() {
        (data[i], i + 1)
    } else {
        return None;
    };
    let asset_type = if tag == 0 {
        AssetType::SplTokenLegacy
    } else if tag == 1 {
        AssetType::SplToken2022
    } else if tag == 2 {
        AssetType::StandardNft
    } else {
        return None;
    };
    let (name, i2) = match read_bytes(data, i1) {
        Some(p) => p,
        None => {
            return None;
        },
    };
    let (symbol, i3) = match read_bytes(data, i2) {
        Some(p) => p,
        None => {
            return None;
        },
    };
    let (decimals, i4) = if i3 < data.len() {
        (data[i3], i3 + 1)
    } else {
        return None;
    };
    if data.len() < 8 || i4 > data.len() - 8 {
        return None;
    }
    let supply_bytes = slice_subrange(data, i4, i4 + 8);
    let total_supply = u64_from_le_bytes(supply_bytes);
    let i5 = i4 + 8;
    let (metadata_uri, i6) = match read_bytes(data, i5) {
        Some(p) => p,
        None => {
            return None;
        },
    };
    let (creator, i7) = match read_identity(data, i6) {
        Some(p) => p,
        None => {
            return None;
        },
    };
    let (flag, i8) = if i7 < data.len() {
        (data[i7], i7 + 1)
    } else {
        return None;
    };
    let is_mutable = if flag == 0 {
        false
    } else if flag == 1 {
        true
    } else {
        return None;
    };
    let config = LaunchConfig {
        asset_type,
        name,
        symbol,
        decimals,
        total_supply,
        metadata_uri,
        creator,
        is_mutable,
    };
    Some((config, i8))
}

/// Decode a wire payload into a request.
///
/// Returns `Ok` exactly on the byte strings that are the encoding of a
/// well-formed request, and then returns that request; every other payload
/// is rejected as `InvalidInstructionData` before any effect takes place.
pub fn decode_instruction(data: &[u8]) -> (r: Result<LaunchpadInstruction, LaunchError>)
    ensures
        r is Ok <==> spec_decode_request(data@) is Some,
        r matches Ok(req) ==> {
            &&& spec_decode_request(data@) == Some(req@)
            &&& request_wf(req@)
            &&& data@ == spec_encode_request(req@)
        },
        r matches Err(e) ==> e == LaunchError::InvalidInstructionData,
        forall|v: LaunchpadInstructionV|
            request_wf(v) && data@ == spec_encode_request(v) ==> (r matches Ok(req) && req@ == v),
{
    let result: Result<LaunchpadInstruction, LaunchError> = if data.len() < 1 {
        Err(LaunchError::InvalidInstructionData)
    } else if data[0] != 0 {
        Err(LaunchError::InvalidInstructionData)
    } else {
        match read_config(data, 1) {
            Some((config, j)) => {
                if j == data.len() {
                    Ok(LaunchpadInstruction::LaunchAsset { config })
                } else {
                    Err(LaunchError::InvalidInstructionData)
                }
            },
            None => Err(LaunchError::InvalidInstructionData),
        }
    };
    proof {
        if spec_decode_request(data@) is Some {
            lemma_decode_sound(data@);
        }
        if result is Ok {
            lemma_decode_sound(data@);
        }
        assert forall|v: LaunchpadInstructionV|
            request_wf(v) && data@ == spec_encode_request(v) implies (result matches Ok(req)
            && req@ == v) by {
            lemma_decode_of_encode(v);
        }
    }
    result
}

} // verus!
