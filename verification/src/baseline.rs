//! Structural conformance of a CoRIM against a baseline: the whole document
//! ([`compare`]: profile, identifier, then the CoMIDs paired by tag id, down to their
//! triples, measurements and measurement values) and the protected header of a signed CoRIM
//! ([`compare_headers`]).
//!
//! Differences come in two classes. A *structural mismatch* means the input does not
//! follow the baseline's structure (a field present in one and not the other, or a
//! discriminant such as the algorithm that differs). A *value difference* means the same
//! structure carries another concrete value; such differences are reported for visibility
//! and never make the input non-conformant.
pub mod document;

use vstd::prelude::*;
use crate::cbor::{Value, VModel, value_eq, values_equal, clone_value, copy_bytes, bytes_equal};
use crate::intmap::{IntMap, ascending};
use crate::text::{dec_int, hex, hex_text, push_str, push_i128, push_i64, push_usize, str_eq};
use crate::types::common::{ValidityMap, validity_model, validity_value};
use crate::types::corim::{
    CorimMetaMap, MetaModel, meta_model, CorimMap, CorimMapModel, ProfileChoice, ProfileChoiceModel, profile_value, corim_id_value,
};
use crate::baseline::document::{comids_findings, comids_of, comids_self, compare_comids, decode_comids, lemma_comids_self};
use crate::types::measurement::{DigestAlg, DigestAlgModel};
use crate::types::signed::algorithm::{CoseAlgorithm, alg_text};
use crate::types::signed::cwt::{CwtClaims, CwtModel};
use crate::types::signed::header::{ProtectedCorimHeaderMap, HeaderModel};
use crate::types::signed::x509::{CoseCertHash, CoseX509, X509Model, x509_value, cert_hash_value, serialize_cose_x509};

verus! {

// ---------------------------------------------------------------------------
// Report types.
// ---------------------------------------------------------------------------

/// One step of a path locating a difference in the CoRIM tree.
#[derive(Clone, Debug, PartialEq, Eq)]
#[non_exhaustive]
pub enum PathSegment {
    /// A CoMID selected by its tag id (or `#<index>`).
    Comid(String),
    /// A triple list of the named kind, at an index.
    Triple {
        /// The triple kind (`reference`, `endorsed`, ...).
        kind: &'static str,
        /// Position within that kind's list.
        index: usize,
    },
    /// A measurement selected by its `mkey` (or `#<index>`).
    Measurement(String),
    /// A named field.
    Field(&'static str),
    /// An array index within a field.
    Index(usize),
    /// An integer map key.
    MapKey(i64),
}

/// Mathematical form of a [`PathSegment`].
pub enum SegModel {
    Comid(Seq<char>),
    Triple { kind: Seq<char>, index: nat },
    Measurement(Seq<char>),
    Field(Seq<char>),
    Index(nat),
    MapKey(i64),
}

impl View for PathSegment {
    type V = SegModel;

    open spec fn view(&self) -> SegModel {
        match self {
            PathSegment::Comid(s) => SegModel::Comid(s@),
            PathSegment::Triple { kind, index } => SegModel::Triple { kind: kind@, index: *index as nat },
            PathSegment::Measurement(s) => SegModel::Measurement(s@),
            PathSegment::Field(f) => SegModel::Field(f@),
            PathSegment::Index(i) => SegModel::Index(*i as nat),
            PathSegment::MapKey(k) => SegModel::MapKey(*k),
        }
    }
}

pub open spec fn path_model(p: Seq<PathSegment>) -> Seq<SegModel> {
    p.map_values(|s: PathSegment| s@)
}

/// The nature of a structural mismatch.
#[derive(Clone, Debug, PartialEq, Eq)]
#[non_exhaustive]
pub enum MismatchKind {
    /// Present in the baseline but absent from the input.
    MissingInInput,
    /// Present in the input but absent from the baseline.
    UnexpectedInInput,
    /// Present in both with a different discriminant.
    TypeMismatch {
        /// The baseline's description.
        baseline: String,
        /// The input's description.
        input: String,
    },
}

/// Mathematical form of a [`MismatchKind`].
pub enum KindModel {
    MissingInInput,
    UnexpectedInInput,
    TypeMismatch { baseline: Seq<char>, input: Seq<char> },
}

impl View for MismatchKind {
    type V = KindModel;

    open spec fn view(&self) -> KindModel {
        match self {
            MismatchKind::MissingInInput => KindModel::MissingInInput,
            MismatchKind::UnexpectedInInput => KindModel::UnexpectedInInput,
            MismatchKind::TypeMismatch { baseline, input } => KindModel::TypeMismatch {
                baseline: baseline@,
                input: input@,
            },
        }
    }
}

/// A structural mismatch: the input does not conform to the baseline.
#[derive(Clone, Debug, PartialEq)]
pub struct StructuralMismatch {
    /// Where the mismatch is.
    pub path: Vec<PathSegment>,
    /// What kind of mismatch it is.
    pub kind: MismatchKind,
    /// Human-readable detail.
    pub detail: String,
}

/// Mathematical form of a [`StructuralMismatch`].
pub struct MismatchModel {
    pub path: Seq<SegModel>,
    pub kind: KindModel,
    pub detail: Seq<char>,
}

impl View for StructuralMismatch {
    type V = MismatchModel;

    open spec fn view(&self) -> MismatchModel {
        MismatchModel { path: path_model(self.path@), kind: self.kind@, detail: self.detail@ }
    }
}

/// A value difference: the same structure with another concrete value.
#[derive(Clone, Debug, PartialEq)]
pub struct ValueDifference {
    /// Where the difference is.
    pub path: Vec<PathSegment>,
    /// The attribute whose value differs.
    pub field: &'static str,
    /// The baseline's value.
    pub baseline: Value,
    /// The input's value.
    pub input: Value,
}

/// Mathematical form of a [`ValueDifference`].
pub struct DiffModel {
    pub path: Seq<SegModel>,
    pub field: Seq<char>,
    pub baseline: VModel,
    pub input: VModel,
}

impl View for ValueDifference {
    type V = DiffModel;

    open spec fn view(&self) -> DiffModel {
        DiffModel {
            path: path_model(self.path@),
            field: self.field@,
            baseline: self.baseline@,
            input: self.input@,
        }
    }
}

/// The result of comparing an input against a baseline.
#[derive(Clone, Debug, PartialEq, Default)]
#[non_exhaustive]
pub struct ConformanceReport {
    /// Structural mismatches (conformance failures).
    pub structural_mismatches: Vec<StructuralMismatch>,
    /// Value differences (informational).
    pub value_differences: Vec<ValueDifference>,
}

/// The findings of a comparison: mismatches and differences, each in report order.
pub struct Findings {
    pub mismatches: Seq<MismatchModel>,
    pub diffs: Seq<DiffModel>,
}

impl View for ConformanceReport {
    type V = Findings;

    open spec fn view(&self) -> Findings {
        Findings {
            mismatches: self.structural_mismatches@.map_values(|m: StructuralMismatch| m@),
            diffs: self.value_differences@.map_values(|d: ValueDifference| d@),
        }
    }
}

/// The findings of `a` followed by those of `b`.
pub open spec fn join(a: Findings, b: Findings) -> Findings {
    Findings { mismatches: a.mismatches + b.mismatches, diffs: a.diffs + b.diffs }
}

pub open spec fn no_findings() -> Findings {
    Findings { mismatches: Seq::empty(), diffs: Seq::empty() }
}

impl ConformanceReport {
    /// An empty report.
    pub fn new() -> (r: Self)
        ensures
            r@ == no_findings(),
    {
        let r = ConformanceReport { structural_mismatches: Vec::new(), value_differences: Vec::new() };
        assert(r@.mismatches =~= Seq::<MismatchModel>::empty());
        assert(r@.diffs =~= Seq::<DiffModel>::empty());
        r
    }

    /// The input conforms: there is no structural mismatch (value differences do not count).
    pub fn is_conformant(&self) -> (b: bool)
        ensures
            b == (self@.mismatches.len() == 0),
    {
        self.structural_mismatches.len() == 0
    }

    /// Append another report's findings to this one.
    pub fn merge(&mut self, other: ConformanceReport)
        ensures
            final(self)@ == join(old(self)@, other@),
    {
        let ghost a = self@;
        let ghost o = other@;
        let mut other = other;
        let ghost om = other.structural_mismatches@;
        let ghost od = other.value_differences@;
        self.structural_mismatches.append(&mut other.structural_mismatches);
        self.value_differences.append(&mut other.value_differences);
        proof {
            assert(self@.mismatches =~= a.mismatches + o.mismatches);
            assert(self@.diffs =~= a.diffs + o.diffs);
        }
    }
}

// ---------------------------------------------------------------------------
// Paths as text.
// ---------------------------------------------------------------------------

/// The text of one path segment.
pub open spec fn segment_text(s: SegModel) -> Seq<char> {
    match s {
        SegModel::Comid(id) => ".comid["@ + id + "]"@,
        SegModel::Triple { kind, index } => "."@ + kind + "["@ + dec_int(index as int) + "]"@,
        SegModel::Measurement(k) => ".measurement["@ + k + "]"@,
        SegModel::Field(f) => "."@ + f,
        SegModel::Index(i) => "["@ + dec_int(i as int) + "]"@,
        SegModel::MapKey(k) => "["@ + dec_int(k as int) + "]"@,
    }
}

/// The text of a path: `$` followed by each segment.
pub open spec fn path_text(p: Seq<SegModel>) -> Seq<char>
    decreases p.len(),
{
    if p.len() == 0 {
        "$"@
    } else {
        path_text(p.drop_last()) + segment_text(p.last())
    }
}

/// Render a path as a dotted location such as `$.protected-header.alg`.
pub fn render_path(path: &[PathSegment]) -> (s: String)
    ensures
        s@ == path_text(path_model(path@)),
{
    let ghost pm = path_model(path@);
    let mut s = String::from_str("$");
    let mut i: usize = 0;
    proof {
        reveal_strlit("$");
        assert(pm.take(0) =~= Seq::<SegModel>::empty());
    }
    while i < path.len()
        invariant
            i <= path@.len(),
            pm == path_model(path@),
            s@ == path_text(pm.take(i as int)),
        decreases path@.len() - i,
    {
        proof {
            assert(pm.take(i + 1).drop_last() =~= pm.take(i as int));
        }
        match &path[i] {
            PathSegment::Comid(id) => {
                push_str(&mut s, ".comid[");
                push_str(&mut s, id.as_str());
                push_str(&mut s, "]");
            },
            PathSegment::Triple { kind, index } => {
                push_str(&mut s, ".");
                push_str(&mut s, kind);
                push_str(&mut s, "[");
                push_usize(&mut s, *index);
                push_str(&mut s, "]");
            },
            PathSegment::Measurement(k) => {
                push_str(&mut s, ".measurement[");
                push_str(&mut s, k.as_str());
                push_str(&mut s, "]");
            },
            PathSegment::Field(f) => {
                push_str(&mut s, ".");
                push_str(&mut s, f);
            },
            PathSegment::Index(x) => {
                push_str(&mut s, "[");
                push_usize(&mut s, *x);
                push_str(&mut s, "]");
            },
            PathSegment::MapKey(k) => {
                push_str(&mut s, "[");
                push_i64(&mut s, *k);
                push_str(&mut s, "]");
            },
        }
        proof {
            assert(s@ =~= path_text(pm.take(i as int)) + segment_text(pm[i as int]));
        }
        i = i + 1;
    }
    proof {
        assert(pm.take(i as int) =~= pm);
    }
    s
}


// ---------------------------------------------------------------------------
// Findings of single fields.
// ---------------------------------------------------------------------------

pub open spec fn field_path(base: Seq<SegModel>, field: Seq<char>) -> Seq<SegModel> {
    base.push(SegModel::Field(field))
}

pub open spec fn one_mismatch(path: Seq<SegModel>, kind: KindModel, detail: Seq<char>) -> Findings {
    Findings { mismatches: seq![MismatchModel { path, kind, detail }], diffs: Seq::empty() }
}

pub open spec fn one_diff(path: Seq<SegModel>, field: Seq<char>, b: VModel, i: VModel) -> Findings {
    Findings {
        mismatches: Seq::empty(),
        diffs: seq![DiffModel { path, field, baseline: b, input: i }],
    }
}

/// `field` missing from the input, reported at `path`.
pub open spec fn missing_at(path: Seq<SegModel>, field: Seq<char>) -> Findings {
    one_mismatch(path, KindModel::MissingInInput, field + " present in baseline but missing in input"@)
}

/// `field` unexpected in the input, reported at `path`.
pub open spec fn unexpected_at(path: Seq<SegModel>, field: Seq<char>) -> Findings {
    one_mismatch(path, KindModel::UnexpectedInInput, field + " present in input but not in baseline"@)
}

/// Values that have a short description: text, bytes, integers, and tags of those.
pub open spec fn describable(v: VModel) -> bool
    decreases v,
{
    match v {
        VModel::Text(_) => true,
        VModel::Bytes(_) => true,
        VModel::Int(_) => true,
        VModel::Tag(_, inner) => describable(*inner),
        _ => false,
    }
}

/// A short description of a value for mismatch details.
pub open spec fn describe(v: VModel) -> Seq<char>
    decreases v,
{
    match v {
        VModel::Text(t) => t,
        VModel::Bytes(b) => hex_text(b),
        VModel::Int(n) => dec_int(n),
        VModel::Tag(t, inner) => "#6."@ + dec_int(t as int) + "("@ + describe(*inner) + ")"@,
        _ => Seq::empty(),
    }
}

/// An optional attribute: presence differences are structural for a structural field and
/// value differences (against `null`) otherwise; a different value in both is structural
/// for a structural field and a value difference otherwise.
pub open spec fn opt_value_findings(
    path: Seq<SegModel>,
    field: Seq<char>,
    b: Option<VModel>,
    i: Option<VModel>,
    structural: bool,
) -> Findings {
    match (b, i) {
        (None, None) => no_findings(),
        (Some(x), None) => if structural {
            missing_at(path, field)
        } else {
            one_diff(path, field, x, VModel::Null)
        },
        (None, Some(y)) => if structural {
            unexpected_at(path, field)
        } else {
            one_diff(path, field, VModel::Null, y)
        },
        (Some(x), Some(y)) => if value_eq(x, y) {
            no_findings()
        } else if structural {
            one_mismatch(
                path,
                KindModel::TypeMismatch { baseline: describe(x), input: describe(y) },
                field + " differs; the documents follow different structures"@,
            )
        } else {
            one_diff(path, field, x, y)
        },
    }
}

/// Presence of a structural field.
pub open spec fn presence_findings(base: Seq<SegModel>, field: Seq<char>, bp: bool, ip: bool) -> Findings {
    if bp && !ip {
        missing_at(field_path(base, field), field)
    } else if !bp && ip {
        unexpected_at(field_path(base, field), field)
    } else {
        no_findings()
    }
}

/// Presence is structural; contents that differ (`same` false) are a value difference
/// between the values `b` and `i` stand for.
pub open spec fn opt_with_findings(
    base: Seq<SegModel>,
    field: Seq<char>,
    b: Option<VModel>,
    i: Option<VModel>,
    same: bool,
) -> Findings {
    match (b, i) {
        (Some(_), None) => missing_at(field_path(base, field), field),
        (None, Some(_)) => unexpected_at(field_path(base, field), field),
        (Some(x), Some(y)) => if same {
            no_findings()
        } else {
            one_diff(field_path(base, field), field, x, y)
        },
        _ => no_findings(),
    }
}

/// The value stored under `k` (first match).
pub open spec fn keyed_get(s: Seq<(i64, VModel)>, k: i64) -> Option<VModel>
    decreases s.len(),
{
    if s.len() == 0 {
        None
    } else if s[0].0 == k {
        Some(s[0].1)
    } else {
        keyed_get(s.drop_first(), k)
    }
}

pub open spec fn key_path(base: Seq<SegModel>, field: Seq<char>, k: i64) -> Seq<SegModel> {
    base.push(SegModel::Field(field)).push(SegModel::MapKey(k))
}

/// Baseline keys whose value differs in the input (a missing key reads as `null`).
pub open spec fn extra_left(base: Seq<SegModel>, field: Seq<char>, b: Seq<(i64, VModel)>, i: Seq<(i64, VModel)>) -> Findings
    decreases b.len(),
{
    if b.len() == 0 {
        no_findings()
    } else {
        let (k, bv) = b.last();
        let iv = match keyed_get(i, k) {
            Some(x) => x,
            None => VModel::Null,
        };
        join(extra_left(base, field, b.drop_last(), i), if value_eq(iv, bv) {
            no_findings()
        } else {
            one_diff(key_path(base, field, k), field, bv, iv)
        })
    }
}

/// Input keys absent from the baseline.
pub open spec fn extra_right(base: Seq<SegModel>, field: Seq<char>, b: Seq<(i64, VModel)>, i: Seq<(i64, VModel)>) -> Findings
    decreases i.len(),
{
    if i.len() == 0 {
        no_findings()
    } else {
        let (k, iv) = i.last();
        join(extra_right(base, field, b, i.drop_last()), if keyed_get(b, k) is None {
            one_diff(key_path(base, field, k), field, VModel::Null, iv)
        } else {
            no_findings()
        })
    }
}

/// Differences of integer-keyed extensions, all reported as value differences.
pub open spec fn extra_findings(base: Seq<SegModel>, field: Seq<char>, b: Seq<(i64, VModel)>, i: Seq<(i64, VModel)>) -> Findings {
    join(extra_left(base, field, b, i), extra_right(base, field, b, i))
}

pub open spec fn text_value(o: Option<Seq<char>>) -> Option<VModel> {
    match o {
        Some(t) => Some(VModel::Text(t)),
        None => None,
    }
}

pub open spec fn int_value(o: Option<int>) -> Option<VModel> {
    match o {
        Some(n) => Some(VModel::Int(n)),
        None => None,
    }
}

pub open spec fn bytes_value(o: Option<Seq<u8>>) -> Option<VModel> {
    match o {
        Some(b) => Some(VModel::Bytes(b)),
        None => None,
    }
}

/// `corim-meta` present in both: signer name and uri and the signature validity are values.
pub open spec fn meta_findings(base: Seq<SegModel>, b: MetaModel, i: MetaModel) -> Findings {
    let p = field_path(base, "corim-meta"@);
    join(
        join(
            opt_value_findings(p, "signer-name"@, Some(VModel::Text(b.0.0)), Some(VModel::Text(i.0.0)), false),
            opt_value_findings(p, "signer-uri"@, text_value(b.0.1), text_value(i.0.1), false),
        ),
        opt_value_findings(
            p,
            "signature-validity"@,
            match b.1 {
                Some(v) => Some(validity_value(v)),
                None => None,
            },
            match i.1 {
                Some(v) => Some(validity_value(v)),
                None => None,
            },
            false,
        ),
    )
}

/// CWT claims present in both: `iss` is structural, the rest are values.
pub open spec fn cwt_findings(base: Seq<SegModel>, b: CwtModel, i: CwtModel) -> Findings {
    let p = field_path(base, "cwt-claims"@);
    join(
        join(
            join(
                join(
                    opt_value_findings(p, "iss"@, Some(VModel::Text(b.iss)), Some(VModel::Text(i.iss)), true),
                    opt_value_findings(p, "sub"@, text_value(b.sub), text_value(i.sub), false),
                ),
                opt_value_findings(p, "exp"@, int_value(b.exp), int_value(i.exp), false),
            ),
            opt_value_findings(p, "nbf"@, int_value(b.nbf), int_value(i.nbf), false),
        ),
        extra_findings(p, "cwt-extension"@, b.extra, i.extra),
    )
}

/// A structural mismatch when the algorithms differ.
pub open spec fn alg_findings(base: Seq<SegModel>, b: CoseAlgorithm, i: CoseAlgorithm) -> Findings {
    if b != i {
        one_mismatch(
            field_path(base, "alg"@),
            KindModel::TypeMismatch { baseline: alg_text(b), input: alg_text(i) },
            "protected-header alg differs"@,
        )
    } else {
        no_findings()
    }
}

pub open spec fn x509_opt(o: Option<X509Model>) -> Option<VModel> {
    match o {
        Some(x) => Some(x509_value(x)),
        None => None,
    }
}

pub open spec fn cert_hash_opt(o: Option<(DigestAlgModel, Seq<u8>)>) -> Option<VModel> {
    match o {
        Some(h) => Some(cert_hash_value(h)),
        None => None,
    }
}

/// The findings of comparing an input protected header with a baseline one.
///
/// Structural: `alg`, `content-type`, the hash-envelope parameters, the presence of
/// `corim-meta`, CWT claims, `kid` and the X.509 parameters, and the CWT `iss`. Values: the
/// signer metadata, the other CWT claims, certificate and key bytes, `payload_location` and
/// further header parameters. Findings are located under `$.protected-header`.
pub open spec fn header_findings(i: HeaderModel, b: HeaderModel) -> Findings {
    let base = seq![SegModel::Field("protected-header"@)];
    let f1 = join(
        join(
            join(
                join(
                    alg_findings(base, b.alg, i.alg),
                    opt_value_findings(base, "content-type"@, text_value(b.content_type), text_value(i.content_type), true),
                ),
                opt_value_findings(base, "payload-hash-alg"@, int_value(b.payload_hash_alg), int_value(i.payload_hash_alg), true),
            ),
            opt_value_findings(
                base,
                "payload-preimage-content-type"@,
                text_value(b.payload_preimage_content_type),
                text_value(i.payload_preimage_content_type),
                true,
            ),
        ),
        opt_value_findings(base, "payload-location"@, text_value(b.payload_location), text_value(i.payload_location), false),
    );
    let f2 = join(
        join(
            join(
                presence_findings(base, "corim-meta"@, b.corim_meta is Some, i.corim_meta is Some),
                match (b.corim_meta, i.corim_meta) {
                    (Some(x), Some(y)) => meta_findings(base, x, y),
                    _ => no_findings(),
                },
            ),
            presence_findings(base, "cwt-claims"@, b.cwt_claims is Some, i.cwt_claims is Some),
        ),
        match (b.cwt_claims, i.cwt_claims) {
            (Some(x), Some(y)) => cwt_findings(base, x, y),
            _ => no_findings(),
        },
    );
    let f3 = join(
        join(
            join(
                join(
                    opt_with_findings(base, "kid"@, bytes_value(b.kid), bytes_value(i.kid), b.kid == i.kid),
                    opt_with_findings(base, "x5bag"@, x509_opt(b.x5bag), x509_opt(i.x5bag), b.x5bag == i.x5bag),
                ),
                opt_with_findings(base, "x5chain"@, x509_opt(b.x5chain), x509_opt(i.x5chain), b.x5chain == i.x5chain),
            ),
            opt_with_findings(base, "x5t"@, cert_hash_opt(b.x5t), cert_hash_opt(i.x5t), b.x5t == i.x5t),
        ),
        opt_with_findings(base, "x5u"@, text_value(b.x5u), text_value(i.x5u), b.x5u == i.x5u),
    );
    join(join(join(f1, f2), f3), extra_findings(base, "header-extension"@, b.extra, i.extra))
}

// ---------------------------------------------------------------------------
// Executable comparison.
// ---------------------------------------------------------------------------

fn copy_segment(s: &PathSegment) -> (r: PathSegment)
    ensures
        r@ == s@,
{
    match s {
        PathSegment::Comid(x) => PathSegment::Comid(x.clone()),
        PathSegment::Triple { kind, index } => PathSegment::Triple { kind: *kind, index: *index },
        PathSegment::Measurement(x) => PathSegment::Measurement(x.clone()),
        PathSegment::Field(f) => PathSegment::Field(*f),
        PathSegment::Index(i) => PathSegment::Index(*i),
        PathSegment::MapKey(k) => PathSegment::MapKey(*k),
    }
}

fn copy_path(p: &Vec<PathSegment>) -> (r: Vec<PathSegment>)
    ensures
        path_model(r@) == path_model(p@),
{
    let mut out: Vec<PathSegment> = Vec::new();
    let mut i: usize = 0;
    while i < p.len()
        invariant
            i <= p@.len(),
            path_model(out@) =~= path_model(p@).take(i as int),
        decreases p@.len() - i,
    {
        let c = copy_segment(&p[i]);
        let ghost prev = out@;
        out.push(c);
        proof {
            assert(path_model(out@) =~= path_model(prev).push(c@));
            assert(path_model(p@).take(i + 1) =~= path_model(p@).take(i as int).push(p@[i as int]@));
        }
        i = i + 1;
    }
    proof {
        assert(path_model(p@).take(i as int) =~= path_model(p@));
    }
    out
}

/// `base` followed by `seg`.
fn path_with(base: &Vec<PathSegment>, seg: PathSegment) -> (r: Vec<PathSegment>)
    ensures
        path_model(r@) == path_model(base@).push(seg@),
{
    let mut out = copy_path(base);
    let ghost prev = out@;
    out.push(seg);
    proof {
        assert(path_model(out@) =~= path_model(prev).push(seg@));
    }
    out
}

fn push_mismatch(r: &mut ConformanceReport, path: Vec<PathSegment>, kind: MismatchKind, detail: String)
    ensures
        final(r)@ == join(old(r)@, one_mismatch(path_model(path@), kind@, detail@)),
{
    let m = StructuralMismatch { path, kind, detail };
    let ghost prev = r@;
    r.structural_mismatches.push(m);
    proof {
        assert(r@.mismatches =~= prev.mismatches + seq![m@]);
        assert(r@.diffs =~= prev.diffs + Seq::<DiffModel>::empty());
    }
}

fn push_diff(r: &mut ConformanceReport, path: Vec<PathSegment>, field: &'static str, b: Value, i: Value)
    ensures
        final(r)@ == join(old(r)@, one_diff(path_model(path@), field@, b@, i@)),
{
    let d = ValueDifference { path, field, baseline: b, input: i };
    let ghost prev = r@;
    r.value_differences.push(d);
    proof {
        assert(r@.diffs =~= prev.diffs + seq![d@]);
        assert(r@.mismatches =~= prev.mismatches + Seq::<MismatchModel>::empty());
    }
}

proof fn lemma_join_none(f: Findings)
    ensures
        join(f, no_findings()) == f,
{
    assert(join(f, no_findings()).mismatches =~= f.mismatches);
    assert(join(f, no_findings()).diffs =~= f.diffs);
}

proof fn lemma_join_assoc(a: Findings, b: Findings, c: Findings)
    ensures
        join(join(a, b), c) == join(a, join(b, c)),
{
    assert(join(join(a, b), c).mismatches =~= join(a, join(b, c)).mismatches);
    assert(join(join(a, b), c).diffs =~= join(a, join(b, c)).diffs);
}

fn missing(r: &mut ConformanceReport, path: Vec<PathSegment>, field: &str)
    ensures
        final(r)@ == join(old(r)@, missing_at(path_model(path@), field@)),
{
    let mut d = String::from_str(field);
    push_str(&mut d, " present in baseline but missing in input");
    push_mismatch(r, path, MismatchKind::MissingInInput, d);
}

fn unexpected(r: &mut ConformanceReport, path: Vec<PathSegment>, field: &str)
    ensures
        final(r)@ == join(old(r)@, unexpected_at(path_model(path@), field@)),
{
    let mut d = String::from_str(field);
    push_str(&mut d, " present in input but not in baseline");
    push_mismatch(r, path, MismatchKind::UnexpectedInInput, d);
}

fn describe_value(v: &Value) -> (s: String)
    requires
        describable(v@),
    ensures
        s@ == describe(v@),
    decreases v,
{
    match v {
        Value::Text(t) => t.clone(),
        Value::Bytes(b) => hex(b.as_slice()),
        Value::Integer(n) => {
            let mut s = String::new();
            push_i128(&mut s, *n);
            s
        },
        Value::Tag(t, inner) => {
            let iv: &Value = inner;
            assert(v@ == VModel::Tag(*t, Box::new(iv@)));
            let mut s = String::from_str("#6.");
            push_i128(&mut s, *t as i128);
            push_str(&mut s, "(");
            let d = describe_value(iv);
            push_str(&mut s, d.as_str());
            push_str(&mut s, ")");
            s
        },
        _ => String::new(),
    }
}

fn compare_opt_value(
    path: &Vec<PathSegment>,
    field: &'static str,
    baseline: Option<Value>,
    input: Option<Value>,
    r: &mut ConformanceReport,
    structural: bool,
)
    requires
        structural ==> (baseline matches Some(x) ==> describable(x@)),
        structural ==> (input matches Some(y) ==> describable(y@)),
    ensures
        final(r)@ == join(
            old(r)@,
            opt_value_findings(
                path_model(path@),
                field@,
                match baseline {
                    Some(x) => Some(x@),
                    None => None,
                },
                match input {
                    Some(y) => Some(y@),
                    None => None,
                },
                structural,
            ),
        ),
{
    proof {
        lemma_join_none(r@);
    }
    match (baseline, input) {
        (None, None) => {},
        (Some(x), None) => {
            if structural {
                missing(r, copy_path(path), field);
            } else {
                push_diff(r, copy_path(path), field, x, Value::Null);
            }
        },
        (None, Some(y)) => {
            if structural {
                unexpected(r, copy_path(path), field);
            } else {
                push_diff(r, copy_path(path), field, Value::Null, y);
            }
        },
        (Some(x), Some(y)) => {
            if values_equal(&x, &y) {
            } else if structural {
                let kind = MismatchKind::TypeMismatch {
                    baseline: describe_value(&x),
                    input: describe_value(&y),
                };
                let mut d = String::from_str(field);
                push_str(&mut d, " differs; the documents follow different structures");
                push_mismatch(r, copy_path(path), kind, d);
            } else {
                push_diff(r, copy_path(path), field, x, y);
            }
        },
    }
}

fn compare_presence(base: &Vec<PathSegment>, field: &'static str, bp: bool, ip: bool, r: &mut ConformanceReport)
    ensures
        final(r)@ == join(old(r)@, presence_findings(path_model(base@), field@, bp, ip)),
{
    proof {
        lemma_join_none(r@);
    }
    if bp && !ip {
        missing(r, path_with(base, PathSegment::Field(field)), field);
    } else if !bp && ip {
        unexpected(r, path_with(base, PathSegment::Field(field)), field);
    }
}

fn compare_opt_with(
    base: &Vec<PathSegment>,
    field: &'static str,
    baseline: Option<Value>,
    input: Option<Value>,
    same: bool,
    r: &mut ConformanceReport,
)
    ensures
        final(r)@ == join(
            old(r)@,
            opt_with_findings(
                path_model(base@),
                field@,
                match baseline {
                    Some(x) => Some(x@),
                    None => None,
                },
                match input {
                    Some(y) => Some(y@),
                    None => None,
                },
                same,
            ),
        ),
{
    proof {
        lemma_join_none(r@);
    }
    match (baseline, input) {
        (Some(_), None) => missing(r, path_with(base, PathSegment::Field(field)), field),
        (None, Some(_)) => unexpected(r, path_with(base, PathSegment::Field(field)), field),
        (Some(x), Some(y)) => {
            if !same {
                push_diff(r, path_with(base, PathSegment::Field(field)), field, x, y);
            }
        },
        _ => {},
    }
}

proof fn lemma_keyed_get(s: Seq<(i64, VModel)>, k: i64)
    requires
        ascending(s),
    ensures
        keyed_get(s, k) is None <==> !(exists|j: int| 0 <= j < s.len() && #[trigger] s[j].0 == k),
        forall|j: int| 0 <= j < s.len() && #[trigger] s[j].0 == k ==> keyed_get(s, k) == Some(s[j].1),
    decreases s.len(),
{
    if s.len() > 0 {
        let t = s.drop_first();
        assert(ascending(t));
        lemma_keyed_get(t, k);
        assert forall|j: int| 0 <= j < s.len() && #[trigger] s[j].0 == k implies keyed_get(s, k) == Some(s[j].1) by {
            if j > 0 {
                assert(t[j - 1] == s[j]);
                assert(s[0].0 < s[j].0);
            }
        }
        if keyed_get(s, k) is None {
            assert forall|j: int| 0 <= j < s.len() implies #[trigger] s[j].0 != k by {
                if j > 0 {
                    assert(t[j - 1] == s[j]);
                }
            }
        }
        if exists|j: int| 0 <= j < t.len() && #[trigger] t[j].0 == k {
            let j = choose|j: int| 0 <= j < t.len() && #[trigger] t[j].0 == k;
            assert(s[j + 1].0 == k);
        }
    }
}

fn lookup_or_null(m: &IntMap, k: i64) -> (v: Value)
    requires
        m.wf(),
    ensures
        v@ == match keyed_get(m.entries_spec(), k) {
            Some(x) => x,
            None => VModel::Null,
        },
{
    proof {
        lemma_keyed_get(m.entries_spec(), k);
    }
    match m.get(k) {
        Some(x) => clone_value(x),
        None => Value::Null,
    }
}

fn compare_extra_values(
    base: &Vec<PathSegment>,
    field: &'static str,
    baseline: &IntMap,
    input: &IntMap,
    r: &mut ConformanceReport,
)
    requires
        baseline.wf(),
        input.wf(),
    ensures
        final(r)@ == join(
            old(r)@,
            extra_findings(path_model(base@), field@, baseline.entries_spec(), input.entries_spec()),
        ),
{
    let ghost start = r@;
    let ghost bp = path_model(base@);
    let ghost bs = baseline.entries_spec();
    let ghost is = input.entries_spec();
    let be = baseline.entries();
    let ie = input.entries();
    let mut j: usize = 0;
    proof {
        lemma_join_none(start);
        assert(crate::intmap::keyed_model(be@).take(0) =~= Seq::<(i64, VModel)>::empty());
    }
    while j < be.len()
        invariant
            j <= be@.len(),
            crate::intmap::keyed_model(be@) == bs,
            bs.len() == be@.len(),
            input.wf(),
            is == input.entries_spec(),
            bp == path_model(base@),
            r@ == join(start, extra_left(bp, field@, bs.take(j as int), is)),
        decreases be@.len() - j,
    {
        proof {
            assert(bs.take(j + 1).drop_last() =~= bs.take(j as int));
            assert(bs[j as int] == (be@[j as int].0, be@[j as int].1@));
        }
        let k = be[j].0;
        let bv = &be[j].1;
        let iv = lookup_or_null(input, k);
        let ghost before = r@;
        if !values_equal(&iv, bv) {
            let p = path_with(&path_with(base, PathSegment::Field(field)), PathSegment::MapKey(k));
            push_diff(r, p, field, clone_value(bv), iv);
        } else {
            proof {
                lemma_join_none(before);
            }
        }
        proof {
            lemma_join_assoc(start, extra_left(bp, field@, bs.take(j as int), is), if value_eq(iv@, bv@) {
                no_findings()
            } else {
                one_diff(key_path(bp, field@, k), field@, bv@, iv@)
            });
        }
        j = j + 1;
    }
    proof {
        assert(bs.take(j as int) =~= bs);
    }
    let ghost mid = r@;
    let mut i: usize = 0;
    proof {
        lemma_join_none(mid);
        assert(crate::intmap::keyed_model(ie@).take(0) =~= Seq::<(i64, VModel)>::empty());
        lemma_keyed_get(bs, 0);
    }
    while i < ie.len()
        invariant
            i <= ie@.len(),
            crate::intmap::keyed_model(ie@) == is,
            is.len() == ie@.len(),
            baseline.wf(),
            bs == baseline.entries_spec(),
            bp == path_model(base@),
            r@ == join(mid, extra_right(bp, field@, bs, is.take(i as int))),
        decreases ie@.len() - i,
    {
        proof {
            assert(is.take(i + 1).drop_last() =~= is.take(i as int));
            assert(is[i as int] == (ie@[i as int].0, ie@[i as int].1@));
        }
        let k = ie[i].0;
        let ghost before = r@;
        proof {
            lemma_keyed_get(bs, k);
        }
        if baseline.get(k).is_none() {
            let p = path_with(&path_with(base, PathSegment::Field(field)), PathSegment::MapKey(k));
            push_diff(r, p, field, Value::Null, clone_value(&ie[i].1));
        } else {
            proof {
                lemma_join_none(before);
            }
        }
        proof {
            lemma_join_assoc(mid, extra_right(bp, field@, bs, is.take(i as int)), if keyed_get(bs, k) is None {
                one_diff(key_path(bp, field@, k), field@, VModel::Null, ie@[i as int].1@)
            } else {
                no_findings()
            });
        }
        i = i + 1;
    }
    proof {
        assert(is.take(i as int) =~= is);
        lemma_join_assoc(start, extra_left(bp, field@, bs, is), extra_right(bp, field@, bs, is));
    }
}


fn opt_text_val(o: &Option<String>) -> (r: Option<Value>)
    ensures
        match r {
            Some(x) => Some(x@),
            None => None,
        } == text_value(match o {
            Some(t) => Some(t@),
            None => None,
        }),
{
    match o {
        Some(t) => Some(Value::Text(t.clone())),
        None => None,
    }
}

fn opt_int_val(o: Option<i64>) -> (r: Option<Value>)
    ensures
        match r {
            Some(x) => Some(x@),
            None => None,
        } == int_value(match o {
            Some(n) => Some(n as int),
            None => None,
        }),
{
    match o {
        Some(n) => Some(Value::Integer(n as i128)),
        None => None,
    }
}

fn opt_validity_val(o: &Option<ValidityMap>) -> (r: Option<Value>)
    ensures
        match r {
            Some(x) => Some(x@),
            None => None,
        } == match o {
            Some(v) => Some(validity_value(validity_model(*v))),
            None => None,
        },
{
    match o {
        Some(v) => Some(v.to_value()),
        None => None,
    }
}

fn compare_corim_meta(base: &Vec<PathSegment>, baseline: &CorimMetaMap, input: &CorimMetaMap, r: &mut ConformanceReport)
    ensures
        final(r)@ == join(old(r)@, meta_findings(path_model(base@), meta_model(*baseline), meta_model(*input))),
{
    let ghost start = r@;
    let p = path_with(base, PathSegment::Field("corim-meta"));
    compare_opt_value(
        &p,
        "signer-name",
        Some(Value::Text(baseline.signer.signer_name.clone())),
        Some(Value::Text(input.signer.signer_name.clone())),
        r,
        false,
    );
    let ghost r1 = r@;
    compare_opt_value(
        &p,
        "signer-uri",
        opt_text_val(&baseline.signer.signer_uri),
        opt_text_val(&input.signer.signer_uri),
        r,
        false,
    );
    let ghost r2 = r@;
    compare_opt_value(
        &p,
        "signature-validity",
        opt_validity_val(&baseline.signature_validity),
        opt_validity_val(&input.signature_validity),
        r,
        false,
    );
    proof {
        let pm = path_model(p@);
        let b = meta_model(*baseline);
        let i = meta_model(*input);
        let a = opt_value_findings(pm, "signer-name"@, Some(VModel::Text(b.0.0)), Some(VModel::Text(i.0.0)), false);
        let c = opt_value_findings(pm, "signer-uri"@, text_value(b.0.1), text_value(i.0.1), false);
        lemma_join_assoc(start, a, c);
        let d = opt_value_findings(
            pm,
            "signature-validity"@,
            match b.1 {
                Some(v) => Some(validity_value(v)),
                None => None,
            },
            match i.1 {
                Some(v) => Some(validity_value(v)),
                None => None,
            },
            false,
        );
        lemma_join_assoc(start, join(a, c), d);
    }
}

fn compare_cwt_claims(base: &Vec<PathSegment>, baseline: &CwtClaims, input: &CwtClaims, r: &mut ConformanceReport)
    requires
        baseline.extra.wf(),
        input.extra.wf(),
    ensures
        final(r)@ == join(old(r)@, cwt_findings(path_model(base@), baseline@, input@)),
{
    let ghost start = r@;
    let p = path_with(base, PathSegment::Field("cwt-claims"));
    let ghost pm = path_model(p@);
    let ghost b = baseline@;
    let ghost i = input@;
    proof {
        assert(describable(VModel::Text(b.iss)));
        assert(describable(VModel::Text(i.iss)));
    }
    compare_opt_value(
        &p,
        "iss",
        Some(Value::Text(baseline.iss.clone())),
        Some(Value::Text(input.iss.clone())),
        r,
        true,
    );
    compare_opt_value(&p, "sub", opt_text_val(&baseline.sub), opt_text_val(&input.sub), r, false);
    compare_opt_value(&p, "exp", opt_int_val(baseline.exp), opt_int_val(input.exp), r, false);
    compare_opt_value(&p, "nbf", opt_int_val(baseline.nbf), opt_int_val(input.nbf), r, false);
    compare_extra_values(&p, "cwt-extension", &baseline.extra, &input.extra, r);
    proof {
        let f1 = opt_value_findings(pm, "iss"@, Some(VModel::Text(b.iss)), Some(VModel::Text(i.iss)), true);
        let f2 = opt_value_findings(pm, "sub"@, text_value(b.sub), text_value(i.sub), false);
        let f3 = opt_value_findings(pm, "exp"@, int_value(b.exp), int_value(i.exp), false);
        let f4 = opt_value_findings(pm, "nbf"@, int_value(b.nbf), int_value(i.nbf), false);
        let f5 = extra_findings(pm, "cwt-extension"@, b.extra, i.extra);
        lemma_join_assoc(start, f1, f2);
        lemma_join_assoc(start, join(f1, f2), f3);
        lemma_join_assoc(start, join(join(f1, f2), f3), f4);
        lemma_join_assoc(start, join(join(join(f1, f2), f3), f4), f5);
    }
}

fn opt_bytes_equal(a: &Option<Vec<u8>>, b: &Option<Vec<u8>>) -> (r: bool)
    ensures
        r == (crate::types::signed::header::opt_bytes(*a) == crate::types::signed::header::opt_bytes(*b)),
{
    match (a, b) {
        (Some(x), Some(y)) => bytes_equal(x.as_slice(), y.as_slice()),
        (None, None) => true,
        _ => false,
    }
}

fn opt_text_equal(a: &Option<String>, b: &Option<String>) -> (r: bool)
    ensures
        r == (crate::types::signed::cwt::opt_text(*a) == crate::types::signed::cwt::opt_text(*b)),
{
    match (a, b) {
        (Some(x), Some(y)) => str_eq(x.as_str(), y.as_str()),
        (None, None) => true,
        _ => false,
    }
}

fn x509_equal(a: &CoseX509, b: &CoseX509) -> (r: bool)
    ensures
        r == (a@ == b@),
{
    match (a, b) {
        (CoseX509::Single(x), CoseX509::Single(y)) => bytes_equal(x.as_slice(), y.as_slice()),
        (CoseX509::Chain(xs), CoseX509::Chain(ys)) => {
            if xs.len() != ys.len() {
                proof {
                    assert(crate::types::signed::x509::certs_model(xs@).len() != crate::types::signed::x509::certs_model(ys@).len());
                }
                return false;
            }
            let ghost mx = crate::types::signed::x509::certs_model(xs@);
            let ghost my = crate::types::signed::x509::certs_model(ys@);
            assert(a@ == X509Model::Chain(mx) && b@ == X509Model::Chain(my));
            let mut i: usize = 0;
            while i < xs.len()
                invariant
                    i <= xs@.len(),
                    xs@.len() == ys@.len(),
                    mx == crate::types::signed::x509::certs_model(xs@),
                    my == crate::types::signed::x509::certs_model(ys@),
                    forall|j: int| 0 <= j < i ==> mx[j] == my[j],
                    mx.len() == xs@.len(),
                    my.len() == ys@.len(),
                    a@ == X509Model::Chain(mx),
                    b@ == X509Model::Chain(my),
                decreases xs@.len() - i,
            {
                if !bytes_equal(xs[i].as_slice(), ys[i].as_slice()) {
                    proof {
                        assert(mx[i as int] == xs@[i as int]@);
                        assert(my[i as int] == ys@[i as int]@);
                        assert(mx[i as int] != my[i as int]);
                        assert(mx != my);
                        assert(a@ != b@);
                    }
                    return false;
                }
                i = i + 1;
            }
            proof {
                assert(mx =~= my);
            }
            true
        },
        _ => false,
    }
}

fn opt_x509_equal(a: &Option<CoseX509>, b: &Option<CoseX509>) -> (r: bool)
    ensures
        r == (crate::types::signed::header::opt_x509(*a) == crate::types::signed::header::opt_x509(*b)),
{
    match (a, b) {
        (Some(x), Some(y)) => x509_equal(x, y),
        (None, None) => true,
        _ => false,
    }
}

fn digest_alg_equal(a: &DigestAlg, b: &DigestAlg) -> (r: bool)
    ensures
        r == (a@ == b@),
{
    match (a, b) {
        (DigestAlg::Int(x), DigestAlg::Int(y)) => *x == *y,
        (DigestAlg::Text(x), DigestAlg::Text(y)) => str_eq(x.as_str(), y.as_str()),
        _ => false,
    }
}

fn opt_cert_hash_equal(a: &Option<CoseCertHash>, b: &Option<CoseCertHash>) -> (r: bool)
    ensures
        r == (crate::types::signed::header::opt_cert_hash(*a) == crate::types::signed::header::opt_cert_hash(*b)),
{
    match (a, b) {
        (Some(x), Some(y)) => digest_alg_equal(&x.hash_alg, &y.hash_alg) && bytes_equal(
            x.hash_value.as_slice(),
            y.hash_value.as_slice(),
        ),
        (None, None) => true,
        _ => false,
    }
}

fn opt_x509_val(o: &Option<CoseX509>) -> (r: Option<Value>)
    ensures
        match r {
            Some(x) => Some(x@),
            None => None,
        } == x509_opt(crate::types::signed::header::opt_x509(*o)),
{
    match o {
        Some(x) => Some(serialize_cose_x509(x)),
        None => None,
    }
}

fn opt_cert_hash_val(o: &Option<CoseCertHash>) -> (r: Option<Value>)
    ensures
        match r {
            Some(x) => Some(x@),
            None => None,
        } == cert_hash_opt(crate::types::signed::header::opt_cert_hash(*o)),
{
    match o {
        Some(h) => Some(h.to_value()),
        None => None,
    }
}

fn opt_bytes_val(o: &Option<Vec<u8>>) -> (r: Option<Value>)
    ensures
        match r {
            Some(x) => Some(x@),
            None => None,
        } == bytes_value(crate::types::signed::header::opt_bytes(*o)),
{
    match o {
        Some(b) => Some(Value::Bytes(copy_bytes(b.as_slice()))),
        None => None,
    }
}

/// The first part of a header comparison: the algorithm, content types and hash-envelope
/// parameters.
fn compare_header_modes(base: &Vec<PathSegment>, input: &ProtectedCorimHeaderMap, baseline: &ProtectedCorimHeaderMap, r: &mut ConformanceReport)
    ensures
        final(r)@ == join(
            old(r)@,
            join(
                join(
                    join(
                        join(
                            alg_findings(path_model(base@), baseline@.alg, input@.alg),
                            opt_value_findings(path_model(base@), "content-type"@, text_value(baseline@.content_type), text_value(input@.content_type), true),
                        ),
                        opt_value_findings(path_model(base@), "payload-hash-alg"@, int_value(baseline@.payload_hash_alg), int_value(input@.payload_hash_alg), true),
                    ),
                    opt_value_findings(
                        path_model(base@),
                        "payload-preimage-content-type"@,
                        text_value(baseline@.payload_preimage_content_type),
                        text_value(input@.payload_preimage_content_type),
                        true,
                    ),
                ),
                opt_value_findings(path_model(base@), "payload-location"@, text_value(baseline@.payload_location), text_value(input@.payload_location), false),
            ),
        ),
{
    let ghost start = r@;
    let ghost bm = path_model(base@);
    let ghost b = baseline@;
    let ghost i = input@;
    if baseline.alg != input.alg {
        let p = path_with(base, PathSegment::Field("alg"));
        let kind = MismatchKind::TypeMismatch { baseline: baseline.alg.to_text(), input: input.alg.to_text() };
        push_mismatch(r, p, kind, String::from_str("protected-header alg differs"));
    } else {
        proof {
            lemma_join_none(start);
        }
    }
    compare_opt_value(base, "content-type", opt_text_val(&baseline.content_type), opt_text_val(&input.content_type), r, true);
    compare_opt_value(base, "payload-hash-alg", opt_int_val(baseline.payload_hash_alg), opt_int_val(input.payload_hash_alg), r, true);
    compare_opt_value(
        base,
        "payload-preimage-content-type",
        opt_text_val(&baseline.payload_preimage_content_type),
        opt_text_val(&input.payload_preimage_content_type),
        r,
        true,
    );
    compare_opt_value(base, "payload-location", opt_text_val(&baseline.payload_location), opt_text_val(&input.payload_location), r, false);
    proof {
        let f0 = alg_findings(bm, b.alg, i.alg);
        let f1 = opt_value_findings(bm, "content-type"@, text_value(b.content_type), text_value(i.content_type), true);
        let f2 = opt_value_findings(bm, "payload-hash-alg"@, int_value(b.payload_hash_alg), int_value(i.payload_hash_alg), true);
        let f3 = opt_value_findings(bm, "payload-preimage-content-type"@, text_value(b.payload_preimage_content_type), text_value(i.payload_preimage_content_type), true);
        let f4 = opt_value_findings(bm, "payload-location"@, text_value(b.payload_location), text_value(i.payload_location), false);
        lemma_join_assoc(start, f0, f1);
        lemma_join_assoc(start, join(f0, f1), f2);
        lemma_join_assoc(start, join(join(f0, f1), f2), f3);
        lemma_join_assoc(start, join(join(join(f0, f1), f2), f3), f4);
    }
}

/// The second part: signer metadata and CWT claims.
fn compare_header_signer(base: &Vec<PathSegment>, input: &ProtectedCorimHeaderMap, baseline: &ProtectedCorimHeaderMap, r: &mut ConformanceReport)
    requires
        input.wf(),
        baseline.wf(),
    ensures
        final(r)@ == join(
            old(r)@,
            join(
                join(
                    join(
                        presence_findings(path_model(base@), "corim-meta"@, baseline@.corim_meta is Some, input@.corim_meta is Some),
                        match (baseline@.corim_meta, input@.corim_meta) {
                            (Some(x), Some(y)) => meta_findings(path_model(base@), x, y),
                            _ => no_findings(),
                        },
                    ),
                    presence_findings(path_model(base@), "cwt-claims"@, baseline@.cwt_claims is Some, input@.cwt_claims is Some),
                ),
                match (baseline@.cwt_claims, input@.cwt_claims) {
                    (Some(x), Some(y)) => cwt_findings(path_model(base@), x, y),
                    _ => no_findings(),
                },
            ),
        ),
{
    let ghost start = r@;
    let ghost bm = path_model(base@);
    let ghost b = baseline@;
    let ghost i = input@;
    compare_presence(base, "corim-meta", baseline.corim_meta.is_some(), input.corim_meta.is_some(), r);
    let ghost r1 = r@;
    match (&baseline.corim_meta, &input.corim_meta) {
        (Some(x), Some(y)) => compare_corim_meta(base, x, y, r),
        _ => {
            proof {
                lemma_join_none(r1);
            }
        },
    }
    compare_presence(base, "cwt-claims", baseline.cwt_claims.is_some(), input.cwt_claims.is_some(), r);
    let ghost r3 = r@;
    match (&baseline.cwt_claims, &input.cwt_claims) {
        (Some(x), Some(y)) => compare_cwt_claims(base, x, y, r),
        _ => {
            proof {
                lemma_join_none(r3);
            }
        },
    }
    proof {
        let f0 = presence_findings(bm, "corim-meta"@, b.corim_meta is Some, i.corim_meta is Some);
        let f1 = match (b.corim_meta, i.corim_meta) {
            (Some(x), Some(y)) => meta_findings(bm, x, y),
            _ => no_findings(),
        };
        let f2 = presence_findings(bm, "cwt-claims"@, b.cwt_claims is Some, i.cwt_claims is Some);
        let f3 = match (b.cwt_claims, i.cwt_claims) {
            (Some(x), Some(y)) => cwt_findings(bm, x, y),
            _ => no_findings(),
        };
        lemma_join_assoc(start, f0, f1);
        lemma_join_assoc(start, join(f0, f1), f2);
        lemma_join_assoc(start, join(join(f0, f1), f2), f3);
    }
}

/// The third part: `kid` and the X.509 parameters.
fn compare_header_keys(base: &Vec<PathSegment>, input: &ProtectedCorimHeaderMap, baseline: &ProtectedCorimHeaderMap, r: &mut ConformanceReport)
    ensures
        final(r)@ == join(
            old(r)@,
            join(
                join(
                    join(
                        join(
                            opt_with_findings(path_model(base@), "kid"@, bytes_value(baseline@.kid), bytes_value(input@.kid), baseline@.kid == input@.kid),
                            opt_with_findings(path_model(base@), "x5bag"@, x509_opt(baseline@.x5bag), x509_opt(input@.x5bag), baseline@.x5bag == input@.x5bag),
                        ),
                        opt_with_findings(path_model(base@), "x5chain"@, x509_opt(baseline@.x5chain), x509_opt(input@.x5chain), baseline@.x5chain == input@.x5chain),
                    ),
                    opt_with_findings(path_model(base@), "x5t"@, cert_hash_opt(baseline@.x5t), cert_hash_opt(input@.x5t), baseline@.x5t == input@.x5t),
                ),
                opt_with_findings(path_model(base@), "x5u"@, text_value(baseline@.x5u), text_value(input@.x5u), baseline@.x5u == input@.x5u),
            ),
        ),
{
    let ghost start = r@;
    let ghost bm = path_model(base@);
    let ghost b = baseline@;
    let ghost i = input@;
    compare_opt_with(base, "kid", opt_bytes_val(&baseline.kid), opt_bytes_val(&input.kid), opt_bytes_equal(&baseline.kid, &input.kid), r);
    compare_opt_with(base, "x5bag", opt_x509_val(&baseline.x5bag), opt_x509_val(&input.x5bag), opt_x509_equal(&baseline.x5bag, &input.x5bag), r);
    compare_opt_with(base, "x5chain", opt_x509_val(&baseline.x5chain), opt_x509_val(&input.x5chain), opt_x509_equal(&baseline.x5chain, &input.x5chain), r);
    compare_opt_with(base, "x5t", opt_cert_hash_val(&baseline.x5t), opt_cert_hash_val(&input.x5t), opt_cert_hash_equal(&baseline.x5t, &input.x5t), r);
    compare_opt_with(base, "x5u", opt_text_val(&baseline.x5u), opt_text_val(&input.x5u), opt_text_equal(&baseline.x5u, &input.x5u), r);
    proof {
        let f0 = opt_with_findings(bm, "kid"@, bytes_value(b.kid), bytes_value(i.kid), b.kid == i.kid);
        let f1 = opt_with_findings(bm, "x5bag"@, x509_opt(b.x5bag), x509_opt(i.x5bag), b.x5bag == i.x5bag);
        let f2 = opt_with_findings(bm, "x5chain"@, x509_opt(b.x5chain), x509_opt(i.x5chain), b.x5chain == i.x5chain);
        let f3 = opt_with_findings(bm, "x5t"@, cert_hash_opt(b.x5t), cert_hash_opt(i.x5t), b.x5t == i.x5t);
        let f4 = opt_with_findings(bm, "x5u"@, text_value(b.x5u), text_value(i.x5u), b.x5u == i.x5u);
        lemma_join_assoc(start, f0, f1);
        lemma_join_assoc(start, join(f0, f1), f2);
        lemma_join_assoc(start, join(join(f0, f1), f2), f3);
        lemma_join_assoc(start, join(join(join(f0, f1), f2), f3), f4);
    }
}

/// Compare the protected header of an input signed CoRIM with a baseline's (see
/// [`header_findings`] for what is structural and what is a value).
pub fn compare_headers(input: &ProtectedCorimHeaderMap, baseline: &ProtectedCorimHeaderMap) -> (r: ConformanceReport)
    requires
        input.wf(),
        baseline.wf(),
    ensures
        r@ == header_findings(input@, baseline@),
{
    let mut r = ConformanceReport::new();
    let mut base: Vec<PathSegment> = Vec::new();
    base.push(PathSegment::Field("protected-header"));
    let ghost bm = path_model(base@);
    proof {
        assert(bm =~= seq![SegModel::Field("protected-header"@)]);
    }
    compare_header_modes(&base, input, baseline, &mut r);
    let ghost r1 = r@;
    compare_header_signer(&base, input, baseline, &mut r);
    let ghost r2 = r@;
    compare_header_keys(&base, input, baseline, &mut r);
    let ghost r3 = r@;
    compare_extra_values(&base, "header-extension", &baseline.extra, &input.extra, &mut r);
    proof {
        let b = baseline@;
        let i = input@;
        let f1 = join(
            join(
                join(
                    join(
                        alg_findings(bm, b.alg, i.alg),
                        opt_value_findings(bm, "content-type"@, text_value(b.content_type), text_value(i.content_type), true),
                    ),
                    opt_value_findings(bm, "payload-hash-alg"@, int_value(b.payload_hash_alg), int_value(i.payload_hash_alg), true),
                ),
                opt_value_findings(bm, "payload-preimage-content-type"@, text_value(b.payload_preimage_content_type), text_value(i.payload_preimage_content_type), true),
            ),
            opt_value_findings(bm, "payload-location"@, text_value(b.payload_location), text_value(i.payload_location), false),
        );
        assert(r1 =~~= join(no_findings(), f1));
        let z = no_findings();
        assert(join(z, f1) =~~= f1);
    }
    r
}


/// The item a profile is written as, where there is one.
pub open spec fn profile_opt(p: Option<ProfileChoiceModel>) -> Option<VModel> {
    match p {
        Some(x) => Some(profile_value(x)),
        None => None,
    }
}

/// The findings of comparing an input CoRIM with a baseline: the profile (structural), the
/// identifier (a value), then the CoMIDs, paired by tag id.
pub open spec fn corim_findings(input: CorimMapModel, baseline: CorimMapModel) -> Findings {
    join(
        join(
            opt_value_findings(seq![SegModel::Field("profile"@)], "profile"@, profile_opt(baseline.profile), profile_opt(input.profile), true),
            opt_value_findings(
                seq![SegModel::Field("corim-id"@)],
                "corim-id"@,
                Some(corim_id_value(baseline.id)),
                Some(corim_id_value(input.id)),
                false,
            ),
        ),
        comids_findings(comids_of(baseline.tags), comids_of(input.tags)),
    )
}

fn profile_item(p: &Option<ProfileChoice>) -> (r: Option<Value>)
    ensures
        match r {
            Some(x) => Some(x@),
            None => None,
        } == profile_opt(match p {
            Some(q) => Some(q@),
            None => None,
        }),
        r matches Some(x) ==> describable(x@),
{
    match p {
        Some(q) => {
            let v = q.to_value();
            proof {
                reveal_with_fuel(describable, 2);
            }
            Some(v)
        },
        None => None,
    }
}

/// Compare an input CoRIM with a baseline for structural conformance; the input conforms
/// exactly when the report's [`ConformanceReport::is_conformant`] is `true`.
pub fn compare(input: &CorimMap, baseline: &CorimMap) -> (r: ConformanceReport)
    ensures
        r@ == corim_findings(input@, baseline@),
{
    let mut r = ConformanceReport::new();
    let ghost r0 = r@;
    let mut pp: Vec<PathSegment> = Vec::new();
    pp.push(PathSegment::Field("profile"));
    proof {
        assert(path_model(pp@) =~= seq![SegModel::Field("profile"@)]);
    }
    let bp = profile_item(&baseline.profile);
    let ip = profile_item(&input.profile);
    compare_opt_value(&pp, "profile", bp, ip, &mut r, true);
    let ghost r1 = r@;
    let mut ip2: Vec<PathSegment> = Vec::new();
    ip2.push(PathSegment::Field("corim-id"));
    proof {
        assert(path_model(ip2@) =~= seq![SegModel::Field("corim-id"@)]);
    }
    compare_opt_value(&ip2, "corim-id", Some(baseline.id.to_value()), Some(input.id.to_value()), &mut r, false);
    let ghost r2 = r@;
    let bc = decode_comids(&baseline.tags);
    let ic = decode_comids(&input.tags);
    compare_comids(&bc, &ic, &mut r);
    proof {
        let f0 = opt_value_findings(seq![SegModel::Field("profile"@)], "profile"@, profile_opt(baseline@.profile), profile_opt(input@.profile), true);
        let f1 = opt_value_findings(
            seq![SegModel::Field("corim-id"@)],
            "corim-id"@,
            Some(corim_id_value(baseline@.id)),
            Some(corim_id_value(input@.id)),
            false,
        );
        let f2 = comids_findings(comids_of(baseline@.tags), comids_of(input@.tags));
        assert(r1.mismatches =~= f0.mismatches && r1.diffs =~= f0.diffs);
        assert(r@.mismatches =~= join(join(f0, f1), f2).mismatches);
        assert(r@.diffs =~= join(join(f0, f1), f2).diffs);
    }
    r
}


// ---------------------------------------------------------------------------
// Laws.
// ---------------------------------------------------------------------------

proof fn lemma_extra_no_mismatch(base: Seq<SegModel>, field: Seq<char>, b: Seq<(i64, VModel)>, i: Seq<(i64, VModel)>)
    ensures
        extra_left(base, field, b, i).mismatches.len() == 0,
        extra_right(base, field, b, i).mismatches.len() == 0,
    decreases b.len() + i.len(),
{
    if b.len() > 0 {
        lemma_extra_no_mismatch(base, field, b.drop_last(), i);
    }
    if i.len() > 0 {
        lemma_extra_no_mismatch(base, field, b, i.drop_last());
    }
}

/// A protected header compared with itself is conformant: every structural field agrees,
/// so only value differences (from `NaN` floats in further parameters) can remain.
pub proof fn lemma_compare_headers_self_conformant(h: HeaderModel)
    ensures
        header_findings(h, h).mismatches.len() == 0,
{
    let base = seq![SegModel::Field("protected-header"@)];
    lemma_extra_no_mismatch(base, "header-extension"@, h.extra, h.extra);
    if let Some(c) = h.cwt_claims {
        let p = field_path(base, "cwt-claims"@);
        lemma_extra_no_mismatch(p, "cwt-extension"@, c.extra, c.extra);
    }
}

/// A CoRIM compared with itself is conformant, when every pairing finds the element itself:
/// each CoMID is the first with its tag id, each triple record the first with its
/// environment, each keyed measurement the first with its key, and the items compared for
/// structure (environments, keys, authorities, digest algorithms, whole triples) equal
/// themselves, which only a `NaN` inside them prevents.
pub proof fn lemma_compare_self_conformant(c: CorimMapModel)
    requires
        comids_self(comids_of(c.tags)),
    ensures
        corim_findings(c, c).mismatches.len() == 0,
{
    lemma_comids_self(comids_of(c.tags));
    if let Some(p) = c.profile {
        reveal_with_fuel(value_eq, 2);
        assert(value_eq(profile_value(p), profile_value(p)));
    }
}

/// An optional integer claim as a data item, `null` when absent.
pub open spec fn int_or_null(o: Option<int>) -> VModel {
    match o {
        Some(n) => VModel::Int(n),
        None => VModel::Null,
    }
}

proof fn lemma_join_keeps_diff(a: Findings, b: Findings, d: DiffModel)
    requires
        a.diffs.contains(d) || b.diffs.contains(d),
    ensures
        join(a, b).diffs.contains(d),
{
    if a.diffs.contains(d) {
        let k = choose|k: int| 0 <= k < a.diffs.len() && a.diffs[k] == d;
        assert(join(a, b).diffs[k] == d);
    } else {
        let k = choose|k: int| 0 <= k < b.diffs.len() && b.diffs[k] == d;
        assert(join(a, b).diffs[a.diffs.len() + k] == d);
    }
}

/// When both headers carry CWT claims whose `exp` differ, the header comparison reports a
/// value difference for `exp` under `$.protected-header.cwt-claims`, carrying the
/// baseline's and the input's expiry (`null` for one that is absent). So a comparison
/// without value differences implies equal expiries.
pub proof fn lemma_compare_headers_reports_exp(i: HeaderModel, b: HeaderModel)
    requires
        b.cwt_claims is Some,
        i.cwt_claims is Some,
        b.cwt_claims->0.exp != i.cwt_claims->0.exp,
    ensures
        header_findings(i, b).diffs.contains(
            DiffModel {
                path: seq![SegModel::Field("protected-header"@), SegModel::Field("cwt-claims"@)],
                field: "exp"@,
                baseline: int_or_null(b.cwt_claims->0.exp),
                input: int_or_null(i.cwt_claims->0.exp),
            },
        ),
        header_findings(i, b).diffs.len() > 0,
{
    let base = seq![SegModel::Field("protected-header"@)];
    let p = field_path(base, "cwt-claims"@);
    assert(p =~= seq![SegModel::Field("protected-header"@), SegModel::Field("cwt-claims"@)]);
    let bc = b.cwt_claims->0;
    let ic = i.cwt_claims->0;
    let d = DiffModel { path: p, field: "exp"@, baseline: int_or_null(bc.exp), input: int_or_null(ic.exp) };
    let fe = opt_value_findings(p, "exp"@, int_value(bc.exp), int_value(ic.exp), false);
    assert(fe.diffs[0] == d);
    assert(fe.diffs.contains(d));
    let f0 = join(
        opt_value_findings(p, "iss"@, Some(VModel::Text(bc.iss)), Some(VModel::Text(ic.iss)), true),
        opt_value_findings(p, "sub"@, text_value(bc.sub), text_value(ic.sub), false),
    );
    lemma_join_keeps_diff(f0, fe, d);
    let f1 = join(f0, fe);
    let f2 = join(f1, opt_value_findings(p, "nbf"@, int_value(bc.nbf), int_value(ic.nbf), false));
    lemma_join_keeps_diff(f1, opt_value_findings(p, "nbf"@, int_value(bc.nbf), int_value(ic.nbf), false), d);
    lemma_join_keeps_diff(f2, extra_findings(p, "cwt-extension"@, bc.extra, ic.extra), d);
    let cw = cwt_findings(base, bc, ic);
    assert(cw.diffs.contains(d));
    let g1 = join(
        join(
            presence_findings(base, "corim-meta"@, b.corim_meta is Some, i.corim_meta is Some),
            match (b.corim_meta, i.corim_meta) {
                (Some(x), Some(y)) => meta_findings(base, x, y),
                _ => no_findings(),
            },
        ),
        presence_findings(base, "cwt-claims"@, b.cwt_claims is Some, i.cwt_claims is Some),
    );
    lemma_join_keeps_diff(g1, cw, d);
    let f2h = join(g1, cw);
    let hf = header_findings(i, b);
    let f1h = join(
        join(
            join(
                join(
                    alg_findings(base, b.alg, i.alg),
                    opt_value_findings(base, "content-type"@, text_value(b.content_type), text_value(i.content_type), true),
                ),
                opt_value_findings(base, "payload-hash-alg"@, int_value(b.payload_hash_alg), int_value(i.payload_hash_alg), true),
            ),
            opt_value_findings(
                base,
                "payload-preimage-content-type"@,
                text_value(b.payload_preimage_content_type),
                text_value(i.payload_preimage_content_type),
                true,
            ),
        ),
        opt_value_findings(base, "payload-location"@, text_value(b.payload_location), text_value(i.payload_location), false),
    );
    let f3h = join(
        join(
            join(
                join(
                    opt_with_findings(base, "kid"@, bytes_value(b.kid), bytes_value(i.kid), b.kid == i.kid),
                    opt_with_findings(base, "x5bag"@, x509_opt(b.x5bag), x509_opt(i.x5bag), b.x5bag == i.x5bag),
                ),
                opt_with_findings(base, "x5chain"@, x509_opt(b.x5chain), x509_opt(i.x5chain), b.x5chain == i.x5chain),
            ),
            opt_with_findings(base, "x5t"@, cert_hash_opt(b.x5t), cert_hash_opt(i.x5t), b.x5t == i.x5t),
        ),
        opt_with_findings(base, "x5u"@, text_value(b.x5u), text_value(i.x5u), b.x5u == i.x5u),
    );
    lemma_join_keeps_diff(f1h, f2h, d);
    lemma_join_keeps_diff(join(f1h, f2h), f3h, d);
    lemma_join_keeps_diff(join(join(f1h, f2h), f3h), extra_findings(base, "header-extension"@, b.extra, i.extra), d);
    assert(hf == join(join(join(f1h, f2h), f3h), extra_findings(base, "header-extension"@, b.extra, i.extra)));
}

} // verus!
