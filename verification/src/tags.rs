//! CBOR tag numbers and CoRIM map keys.
use vstd::prelude::*;

verus! {

/// `#6.18` — COSE_Sign1 (signed CoRIM).
pub const TAG_SIGNED_CORIM: u64 = 18;
/// `#6.37` — UUID.
pub const TAG_UUID: u64 = 37;
/// `#6.111` — OID.
pub const TAG_OID: u64 = 111;
/// `#6.500` — legacy top-level CoRIM wrapper (pre draft-10 / TCG).
pub const TAG_LEGACY_TOP: u64 = 500;
/// `#6.501` — tagged-unsigned-corim-map.
pub const TAG_CORIM: u64 = 501;
/// `#6.502` — legacy signed CoRIM wrapper (pre draft-10 / TCG).
pub const TAG_LEGACY_SIGNED: u64 = 502;
/// `#6.505` — CoSWID.
pub const TAG_COSWID: u64 = 505;
/// `#6.506` — CoMID.
pub const TAG_COMID: u64 = 506;
/// `#6.508` — CoTL.
pub const TAG_COTL: u64 = 508;
/// `#6.552` — tagged-svn.
pub const TAG_SVN: u64 = 552;
/// `#6.553` — tagged-min-svn.
pub const TAG_MIN_SVN: u64 = 553;
/// `#6.560` — tagged-bytes.
pub const TAG_BYTES: u64 = 560;
/// `#6.563` — tagged-masked-raw-value.
pub const TAG_MASKED_RAW_VALUE: u64 = 563;
/// `#6.564` — tagged-int-range.
pub const TAG_INT_RANGE: u64 = 564;

/// `corim-map` key `id`.
pub const CORIM_KEY_ID: i64 = 0;
/// `corim-map` key `tags`.
pub const CORIM_KEY_TAGS: i64 = 1;
/// `corim-map` key `dependent-rims`.
pub const CORIM_KEY_DEPENDENT_RIMS: i64 = 2;
/// `corim-map` key `profile`.
pub const CORIM_KEY_PROFILE: i64 = 3;
/// `corim-map` key `rim-validity`.
pub const CORIM_KEY_RIM_VALIDITY: i64 = 4;
/// `corim-map` key `entities`.
pub const CORIM_KEY_ENTITIES: i64 = 5;

}
