//! Diagnostic decoding: a best-effort structural walk of a CoRIM document that never stops
//! at the first problem and reports every issue it recognises, with a path, what was
//! expected and what was found.
//!
//! Covered: the top-level envelope (`#6.18` signed or `#6.501` unsigned), the four
//! `COSE_Sign1` elements, every known key of the protected header (including the
//! `bstr .cbor corim-meta-map` form of key 8 and the inline / hash-envelope mode rules), the
//! keys of the unsigned CoRIM map, and the dispatch of `tags[]` entries (their inner CBOR is
//! not walked).
use vstd::prelude::*;
use crate::cbor::{Value, VModel, decode, decode_spec, decode_failure_message, kind_name, value_kind};
use crate::tags::{
    CORIM_KEY_DEPENDENT_RIMS, CORIM_KEY_ENTITIES, CORIM_KEY_ID, CORIM_KEY_PROFILE,
    CORIM_KEY_RIM_VALIDITY, CORIM_KEY_TAGS, TAG_COMID, TAG_CORIM, TAG_COSWID, TAG_COTL, TAG_OID,
    TAG_SIGNED_CORIM, TAG_UUID,
};
use crate::text::{dec_int, debug_quoted, push_str, push_i128, push_i64, push_usize, str_debug, str_eq};
use crate::types::signed::header::{corim_content_type, corim_content_type_str};

verus! {

// ---------------------------------------------------------------------------
// Report types.
// ---------------------------------------------------------------------------

/// Severity of a diagnostic.
#[derive(Clone, Copy, Debug, PartialEq, Eq, Structural)]
#[non_exhaustive]
pub enum Severity {
    /// A structural violation that prevents strict decoding.
    Error,
    /// A concern (such as a SHOULD violation) that does not prevent decoding.
    Warning,
    /// Informational: a section was recognised.
    Info,
}

/// The label of a severity in a report (padded to five characters).
pub open spec fn severity_label(s: Severity) -> Seq<char> {
    match s {
        Severity::Error => "error"@,
        Severity::Warning => "warn "@,
        Severity::Info => "ok   "@,
    }
}

impl Severity {
    /// The label of the severity in a report.
    pub fn to_text(&self) -> (s: &'static str)
        ensures
            s@ == severity_label(*self),
    {
        match self {
            Severity::Error => "error",
            Severity::Warning => "warn ",
            Severity::Info => "ok   ",
        }
    }
}

/// What the top-level tag indicates.
#[derive(Clone, Copy, Debug, Default, PartialEq, Eq, Structural)]
#[non_exhaustive]
pub enum EnvelopeKind {
    /// Neither of the two envelopes.
    #[default]
    Unknown,
    /// `#6.18(...)`: COSE_Sign1-corim.
    Signed,
    /// `#6.501(...)`: tagged-unsigned-corim-map.
    Unsigned,
}

/// One issue (or recognised section) found by the walk.
#[derive(Clone, Debug, PartialEq, Eq)]
pub struct DecodeIssue {
    severity: Severity,
    path: String,
    message: String,
    hint: Option<&'static str>,
}

/// Mathematical form of a [`DecodeIssue`].
pub struct IssueModel {
    pub severity: Severity,
    pub path: Seq<char>,
    pub message: Seq<char>,
    pub hint: Option<Seq<char>>,
}

impl View for DecodeIssue {
    type V = IssueModel;

    closed spec fn view(&self) -> IssueModel {
        IssueModel {
            severity: self.severity,
            path: self.path@,
            message: self.message@,
            hint: match self.hint {
                Some(h) => Some(h@),
                None => None,
            },
        }
    }
}

impl DecodeIssue {
    /// Severity of the issue.
    pub fn severity(&self) -> (s: Severity)
        ensures
            s == self@.severity,
    {
        self.severity
    }

    /// Path of the issue in the document (such as `$.protected.8`).
    pub fn path(&self) -> (s: &str)
        ensures
            s@ == self@.path,
    {
        self.path.as_str()
    }

    /// What was expected and what was found.
    pub fn message(&self) -> (s: &str)
        ensures
            s@ == self@.message,
    {
        self.message.as_str()
    }

    /// A remediation hint for the producer, when there is one.
    pub fn hint(&self) -> (h: Option<&'static str>)
        ensures
            h matches Some(x) ==> self@.hint == Some(x@),
            h is None ==> self@.hint is None,
    {
        self.hint
    }
}

/// The result of [`inspect`]: the issues in walk order and the envelope found.
#[derive(Clone, Debug, Default, PartialEq, Eq)]
pub struct DecodeReport {
    issues: Vec<DecodeIssue>,
    envelope: EnvelopeKind,
}

/// Mathematical form of a [`DecodeReport`].
pub struct ReportModel {
    pub envelope: EnvelopeKind,
    pub issues: Seq<IssueModel>,
}

/// The models of a list of issues.
pub open spec fn issues_model(v: Seq<DecodeIssue>) -> Seq<IssueModel> {
    v.map_values(|i: DecodeIssue| i@)
}

impl View for DecodeReport {
    type V = ReportModel;

    closed spec fn view(&self) -> ReportModel {
        ReportModel { envelope: self.envelope, issues: issues_model(self.issues@) }
    }
}

/// The number of issues of a severity.
pub open spec fn count_severity(s: Seq<IssueModel>, sev: Severity) -> nat
    decreases s.len(),
{
    if s.len() == 0 {
        0
    } else {
        count_severity(s.drop_last(), sev) + if s.last().severity == sev {
            1nat
        } else {
            0nat
        }
    }
}

impl DecodeReport {
    /// All issues in walk order.
    pub fn issues(&self) -> (r: &[DecodeIssue])
        ensures
            issues_model(r@) == self@.issues,
    {
        self.issues.as_slice()
    }

    /// What the top-level tag indicated.
    pub fn envelope(&self) -> (e: EnvelopeKind)
        ensures
            e == self@.envelope,
    {
        self.envelope
    }

    fn count(&self, sev: Severity) -> (n: usize)
        ensures
            n == count_severity(self@.issues, sev),
    {
        let mut n: usize = 0;
        let mut i: usize = 0;
        let ghost all = self@.issues;
        while i < self.issues.len()
            invariant
                i <= self.issues@.len(),
                all == issues_model(self.issues@),
                n == count_severity(all.take(i as int), sev),
                n <= i,
            decreases self.issues@.len() - i,
        {
            proof {
                assert(all.take(i + 1).drop_last() =~= all.take(i as int));
                assert(all.take(i + 1).last() == self.issues@[i as int]@);
            }
            if self.issues[i].severity == sev {
                n = n + 1;
            }
            i = i + 1;
        }
        proof {
            assert(all.take(i as int) =~= all);
        }
        n
    }

    /// Number of `Error` issues.
    pub fn error_count(&self) -> (n: usize)
        ensures
            n == count_severity(self@.issues, Severity::Error),
    {
        self.count(Severity::Error)
    }

    /// Number of `Warning` issues.
    pub fn warning_count(&self) -> (n: usize)
        ensures
            n == count_severity(self@.issues, Severity::Warning),
    {
        self.count(Severity::Warning)
    }
}

// ---------------------------------------------------------------------------
// The report as text.
// ---------------------------------------------------------------------------

/// The envelope line of a report.
pub open spec fn envelope_label(k: EnvelopeKind) -> Seq<char> {
    match k {
        EnvelopeKind::Signed => "signed CoRIM (tag 18)"@,
        EnvelopeKind::Unsigned => "unsigned CoRIM (tag 501)"@,
        EnvelopeKind::Unknown => "unrecognized envelope"@,
    }
}

/// The lines of one issue.
pub open spec fn issue_text(i: IssueModel) -> Seq<char> {
    "  ["@ + severity_label(i.severity) + "] "@ + i.path + "\n"@ + "         "@ + i.message + "\n"@
        + match i.hint {
        Some(h) => "         hint: "@ + h + "\n"@,
        None => Seq::empty(),
    }
}

/// The lines of the issues.
pub open spec fn issues_text(s: Seq<IssueModel>) -> Seq<char>
    decreases s.len(),
{
    if s.len() == 0 {
        Seq::empty()
    } else {
        issues_text(s.drop_last()) + issue_text(s.last())
    }
}

/// The text of a report: the envelope, each issue, and a summary line.
pub open spec fn report_text(r: ReportModel) -> Seq<char> {
    "Diagnose: "@ + envelope_label(r.envelope) + "\n"@ + issues_text(r.issues) + "Summary: "@
        + dec_int(count_severity(r.issues, Severity::Error) as int) + " error(s), "@ + dec_int(
        count_severity(r.issues, Severity::Warning) as int,
    ) + " warning(s)\n"@
}

impl DecodeReport {
    /// The report as text.
    pub fn to_text(&self) -> (s: String)
        ensures
            s@ == report_text(self@),
    {
        let ghost all = self@.issues;
        let mut s = String::from_str("Diagnose: ");
        let kind = match self.envelope {
            EnvelopeKind::Signed => "signed CoRIM (tag 18)",
            EnvelopeKind::Unsigned => "unsigned CoRIM (tag 501)",
            EnvelopeKind::Unknown => "unrecognized envelope",
        };
        push_str(&mut s, kind);
        push_str(&mut s, "\n");
        let ghost head = s@;
        let mut i: usize = 0;
        while i < self.issues.len()
            invariant
                i <= self.issues@.len(),
                all == issues_model(self.issues@),
                s@ == head + issues_text(all.take(i as int)),
            decreases self.issues@.len() - i,
        {
            let issue = &self.issues[i];
            let ghost before = s@;
            push_str(&mut s, "  [");
            push_str(&mut s, issue.severity.to_text());
            push_str(&mut s, "] ");
            push_str(&mut s, issue.path.as_str());
            push_str(&mut s, "\n");
            push_str(&mut s, "         ");
            push_str(&mut s, issue.message.as_str());
            push_str(&mut s, "\n");
            let ghost mid = s@;
            match issue.hint {
                Some(h) => {
                    push_str(&mut s, "         hint: ");
                    push_str(&mut s, h);
                    push_str(&mut s, "\n");
                },
                None => {},
            }
            proof {
                assert(all.take(i + 1).drop_last() =~= all.take(i as int));
                assert(all.take(i + 1).last() == issue@);
                assert(s@ =~= before + issue_text(issue@));
            }
            i = i + 1;
        }
        proof {
            assert(all.take(i as int) =~= all);
        }
        push_str(&mut s, "Summary: ");
        push_usize(&mut s, self.error_count());
        push_str(&mut s, " error(s), ");
        push_usize(&mut s, self.warning_count());
        push_str(&mut s, " warning(s)\n");
        s
    }
}


// ---------------------------------------------------------------------------
// What the walk reports.
// ---------------------------------------------------------------------------

pub open spec fn issue(sev: Severity, path: Seq<char>, message: Seq<char>) -> IssueModel {
    IssueModel { severity: sev, path, message, hint: None }
}

pub open spec fn err(path: Seq<char>, message: Seq<char>) -> Seq<IssueModel> {
    seq![issue(Severity::Error, path, message)]
}

pub open spec fn warn(path: Seq<char>, message: Seq<char>) -> Seq<IssueModel> {
    seq![issue(Severity::Warning, path, message)]
}

pub open spec fn info(path: Seq<char>, message: Seq<char>) -> Seq<IssueModel> {
    seq![issue(Severity::Info, path, message)]
}

pub open spec fn err_hint(path: Seq<char>, message: Seq<char>, hint: Seq<char>) -> Seq<IssueModel> {
    seq![IssueModel { severity: Severity::Error, path, message, hint: Some(hint) }]
}

pub open spec fn none() -> Seq<IssueModel> {
    Seq::empty()
}

/// The message of a data item that does not decode.
pub open spec fn cbor_error(b: Seq<u8>) -> Seq<char> {
    "CBOR deserialization failed: "@ + decode_failure_message(b)
}

/// `{base}.{key}`.
pub open spec fn key_path(base: Seq<char>, n: int) -> Seq<char> {
    base + "."@ + dec_int(n)
}

/// `{base}[{i}]`.
pub open spec fn index_path(base: Seq<char>, i: int) -> Seq<char> {
    base + "["@ + dec_int(i) + "]"@
}

pub open spec fn cose_hint() -> Seq<char> {
    "RFC 9052 §4: COSE_Sign1 = [protected, unprotected, payload, signature]"@
}

/// What was seen of the protected header so far.
#[derive(Clone, Copy)]
pub struct HeaderSeen {
    pub alg: bool,
    pub corim_meta: bool,
    pub cwt_claims: bool,
    pub content_type: bool,
    pub preimage_content_type: bool,
    pub cwt_iss_flat: bool,
}

pub open spec fn header_seen_init() -> HeaderSeen {
    HeaderSeen {
        alg: false,
        corim_meta: false,
        cwt_claims: false,
        content_type: false,
        preimage_content_type: false,
        cwt_iss_flat: false,
    }
}

/// The issues of one protected header parameter with key `n` (in `i64`) at `path`.
pub open spec fn header_key_issues(f: HeaderSeen, n: int, path: Seq<char>, v: VModel) -> (HeaderSeen, Seq<IssueModel>) {
    if n == 1 {
        (HeaderSeen { alg: true, ..f }, if v is Int {
            none()
        } else {
            err(path, "alg (key 1) must be int (COSE algorithm registry), found "@ + kind_name(v))
        })
    } else if n == 3 {
        match v {
            VModel::Text(t) => (HeaderSeen { content_type: true, ..f }, if t == corim_content_type() {
                none()
            } else {
                warn(
                    path,
                    "content-type (key 3) is "@ + str_debug(t) + ", expected "@ + str_debug(
                        corim_content_type(),
                    ),
                )
            }),
            VModel::Int(_) => (
                HeaderSeen { content_type: true, ..f },
                warn(
                    path,
                    "content-type (key 3) is an integer (CoAP content-format); CoRIM §4.2.1 requires the tstr form"@,
                ),
            ),
            _ => (f, err(path, "content-type (key 3) must be tstr, found "@ + kind_name(v))),
        }
    } else if n == 4 {
        match v {
            VModel::Bytes(_) => (
                f,
                warn(
                    path,
                    "kid (key 4) appears in the protected header; RFC 9052 §3.1 puts kid in unprotected"@,
                ),
            ),
            VModel::Text(_) => (
                HeaderSeen { cwt_iss_flat: true, ..f },
                info(
                    path,
                    "key 4 is a tstr — interpreted as CWT iss claim placed flat in protected header"@,
                ),
            ),
            _ => (f, err(path, "key 4 must be bstr (kid) or tstr (CWT iss), found "@ + kind_name(v))),
        }
    } else if n == 8 {
        match v {
            VModel::Bytes(b) => (HeaderSeen { corim_meta: true, ..f }, match decode_spec(b) {
                Some(VModel::Mapping(_)) => info(
                    path,
                    "corim-meta (key 8) decoded as bstr .cbor map ("@ + dec_int(b.len() as int)
                        + " bytes)"@,
                ),
                Some(o) => err(
                    path,
                    "corim-meta (key 8) byte-string contents are CBOR "@ + kind_name(o)
                        + ", expected map"@,
                ),
                None => err(path, "corim-meta (key 8) inner CBOR did not parse: "@ + cbor_error(b)),
            }),
            VModel::Mapping(_) => (
                f,
                err_hint(
                    path,
                    "corim-meta (key 8) is a bare CBOR map, but the spec requires `bstr .cbor corim-meta-map` (a byte string wrapping the CBOR-encoded map)"@,
                    "Producer should encode the corim-meta-map to bytes, then store those bytes as a CBOR byte string at key 8"@,
                ),
            ),
            _ => (
                f,
                err(
                    path,
                    "corim-meta (key 8) must be a byte string wrapping a CBOR map, found "@
                        + kind_name(v),
                ),
            ),
        }
    } else if n == 15 {
        match v {
            VModel::Mapping(_) => (
                HeaderSeen { cwt_claims: true, ..f },
                info(path, "CWT-Claims (key 15) is a CBOR map"@),
            ),
            _ => (f, err(path, "CWT-Claims (key 15) must be a map, found "@ + kind_name(v))),
        }
    } else if n == 258 {
        (f, if v is Int {
            none()
        } else {
            err(path, "payload_hash_alg (key 258) must be int, found "@ + kind_name(v))
        })
    } else if n == 259 {
        match v {
            VModel::Text(_) => (HeaderSeen { preimage_content_type: true, ..f }, none()),
            _ => (
                f,
                err(
                    path,
                    "payload_preimage_content_type (key 259) must be tstr, found "@ + kind_name(v),
                ),
            ),
        }
    } else if n == 260 {
        (f, if v is Text {
            none()
        } else {
            err(path, "payload_location (key 260) must be tstr, found "@ + kind_name(v))
        })
    } else if n == 32 || n == 33 {
        (f, if v is Bytes || v is Array {
            none()
        } else {
            err(
                path,
                "x5bag/x5chain (key "@ + dec_int(n)
                    + ") must be bstr or array of bstr per RFC 9360, found "@ + kind_name(v),
            )
        })
    } else if n == 34 {
        (f, if v is Array {
            none()
        } else {
            err(path, "x5t (key 34) must be a [hashAlg, hashValue] array, found "@ + kind_name(v))
        })
    } else if n == 35 {
        (f, if v is Text {
            none()
        } else {
            err(path, "x5u (key 35) must be tstr (URI), found "@ + kind_name(v))
        })
    } else {
        (f, info(path, "unrecognized header key "@ + dec_int(n) + " (passed through as extra)"@))
    }
}

/// The issues of one protected header entry.
pub open spec fn header_entry_issues(f: HeaderSeen, k: VModel, v: VModel) -> (HeaderSeen, Seq<IssueModel>) {
    match k {
        VModel::Int(n) => if !(i64::MIN <= n <= i64::MAX) {
            (
                f,
                warn(
                    "$.protected"@,
                    "integer header key "@ + dec_int(n) + " is out of i64 range; skipped"@,
                ),
            )
        } else {
            header_key_issues(f, n, key_path("$.protected"@, n), v)
        },
        _ => (
            f,
            warn(
                "$.protected"@,
                "non-integer header key ("@ + kind_name(k) + "); RFC 9052 expects int/tstr labels"@,
            ),
        ),
    }
}

/// The issues of the first entries of a protected header map.
pub open spec fn header_fold(m: Seq<(VModel, VModel)>) -> (HeaderSeen, Seq<IssueModel>)
    decreases m.len(),
{
    if m.len() == 0 {
        (header_seen_init(), none())
    } else {
        let (f, s) = header_fold(m.drop_last());
        let (g, t) = header_entry_issues(f, m.last().0, m.last().1);
        (g, s + t)
    }
}

/// The rules checked after all parameters: `alg` is required, exactly one of the inline and
/// hash-envelope content types, and the meta-group.
pub open spec fn header_rule_issues(f: HeaderSeen) -> Seq<IssueModel> {
    (if !f.alg {
        err("$.protected"@, "missing required key 1 (alg)"@)
    } else {
        none()
    }) + (if !f.content_type && !f.preimage_content_type {
        err_hint(
            "$.protected"@,
            "missing both content-type (key 3, inline mode) and payload_preimage_content_type (key 259, hash-envelope mode)"@,
            "draft-ietf-rats-corim-10 §4.2.1 requires exactly one of these"@,
        )
    } else if f.content_type && f.preimage_content_type {
        warn(
            "$.protected"@,
            "both content-type (key 3) and payload_preimage_content_type (key 259) are present; pick one mode"@,
        )
    } else {
        none()
    }) + (if !f.corim_meta && !f.cwt_claims && !f.cwt_iss_flat {
        err_hint(
            "$.protected"@,
            "meta-group violation: at least one of corim-meta (key 8) or CWT-Claims (key 15) must be present"@,
            "draft-ietf-rats-corim-10 §4.2.1 meta-group: ((corim-meta-identity, ?cwt-claims-identity) // cwt-claims-identity)"@,
        )
    } else {
        none()
    })
}

/// The issues of the decoded protected header.
pub open spec fn header_map_issues(v: VModel) -> Seq<IssueModel> {
    match v {
        VModel::Mapping(m) => header_fold(m).1 + header_rule_issues(header_fold(m).0),
        _ => err(
            "$.protected"@,
            "protected header inner CBOR must be a map, found "@ + kind_name(v),
        ),
    }
}

/// The issues of the `id` (key 0) of a CoRIM map.
pub open spec fn id_issues(path: Seq<char>, v: VModel) -> Seq<IssueModel> {
    match v {
        VModel::Text(_) => none(),
        VModel::Bytes(b) if b.len() == 16 => none(),
        VModel::Tag(t, inner) if t == TAG_UUID => match *inner {
            VModel::Bytes(b) if b.len() == 16 => none(),
            o => err(
                path,
                "id (key 0) tagged-uuid inner must be 16-byte bstr, found "@ + kind_name(o)
                    + " of len "@ + dec_int(
                    match o {
                        VModel::Bytes(b) => b.len() as int,
                        _ => 0,
                    },
                ),
            ),
        },
        _ => err(path, "id (key 0) must be tstr or (tagged-)uuid-type, found "@ + kind_name(v)),
    }
}

/// What was seen of a CoRIM map so far: `id`, `tags`, and the last `tags` value.
pub struct CorimSeen {
    pub id: bool,
    pub tags: bool,
    pub tags_value: Option<VModel>,
}

/// The issues of one CoRIM map entry with key `n` (in `i64`) at `path`.
pub open spec fn corim_key_issues(f: CorimSeen, n: int, path: Seq<char>, v: VModel) -> (CorimSeen, Seq<IssueModel>) {
    if n == 0 {
        (CorimSeen { id: true, ..f }, id_issues(path, v))
    } else if n == 1 {
        (CorimSeen { tags: true, tags_value: Some(v), ..f }, none())
    } else if n == 2 {
        (f, if v is Array {
            none()
        } else {
            err(
                path,
                "dependent-rims (key 2) must be array of corim-locator-map, found "@ + kind_name(v),
            )
        })
    } else if n == 3 {
        (f, match v {
            VModel::Text(_) => none(),
            VModel::Tag(t, _) if t == TAG_OID => none(),
            _ => err(
                path,
                "profile (key 3) must be uri (tstr) or tagged-oid-type, found "@ + kind_name(v),
            ),
        })
    } else if n == 4 {
        (f, if v is Mapping {
            none()
        } else {
            err(path, "rim-validity (key 4) must be a validity-map, found "@ + kind_name(v))
        })
    } else if n == 5 {
        (f, if v is Array {
            none()
        } else {
            err(path, "entities (key 5) must be array of corim-entity-map, found "@ + kind_name(v))
        })
    } else {
        (f, info(path, "unrecognized corim-map key "@ + dec_int(n) + " (extension)"@))
    }
}

/// The issues of one CoRIM map entry.
pub open spec fn corim_entry_issues(base: Seq<char>, f: CorimSeen, k: VModel, v: VModel) -> (CorimSeen, Seq<IssueModel>) {
    match k {
        VModel::Int(n) => if !(i64::MIN <= n <= i64::MAX) {
            (f, warn(base, "corim-map key "@ + dec_int(n) + " out of i64 range; skipped"@))
        } else {
            corim_key_issues(f, n, key_path(base, n), v)
        },
        _ => (f, warn(base, "corim-map has non-integer key ("@ + kind_name(k) + "); ignored"@)),
    }
}

/// The issues of the first entries of a CoRIM map.
pub open spec fn corim_fold(base: Seq<char>, m: Seq<(VModel, VModel)>) -> (CorimSeen, Seq<IssueModel>)
    decreases m.len(),
{
    if m.len() == 0 {
        (CorimSeen { id: false, tags: false, tags_value: None }, none())
    } else {
        let (f, s) = corim_fold(base, m.drop_last());
        let (g, t) = corim_entry_issues(base, f, m.last().0, m.last().1);
        (g, s + t)
    }
}

/// The issues of one `tags[]` entry.
pub open spec fn tag_entry_issues(path: Seq<char>, v: VModel) -> Seq<IssueModel> {
    match v {
        VModel::Tag(t, inner) => if t == TAG_COMID {
            match *inner {
                VModel::Bytes(b) => info(
                    path,
                    "tagged-concise-mid-tag (#6.506), "@ + dec_int(b.len() as int)
                        + " bytes inner CBOR"@,
                ),
                o => err(
                    path,
                    "#6.506 (CoMID) inner must be bstr .cbor concise-mid-tag, found "@ + kind_name(o),
                ),
            }
        } else if t == TAG_COSWID {
            match *inner {
                VModel::Bytes(b) => info(
                    path,
                    "tagged-concise-swid-tag (#6.505), "@ + dec_int(b.len() as int)
                        + " bytes inner CBOR"@,
                ),
                o => err(
                    path,
                    "#6.505 (CoSWID) inner must be bstr .cbor concise-swid-tag, found "@
                        + kind_name(o),
                ),
            }
        } else if t == TAG_COTL {
            match *inner {
                VModel::Bytes(b) => info(
                    path,
                    "tagged-concise-tl-tag (#6.508), "@ + dec_int(b.len() as int)
                        + " bytes inner CBOR"@,
                ),
                o => err(
                    path,
                    "#6.508 (CoTL) inner must be bstr .cbor concise-tl-tag, found "@ + kind_name(o),
                ),
            }
        } else {
            warn(
                path,
                "tag #6."@ + dec_int(t as int)
                    + " is not a recognized CoRIM tag type (505/506/508 expected)"@,
            )
        },
        _ => err(path, "tags[] entry must be a CBOR-tagged item, found bare "@ + kind_name(v)),
    }
}

/// The issues of the first `n` entries of `tags[]`.
pub open spec fn tags_fold(base: Seq<char>, a: Seq<VModel>, n: int) -> Seq<IssueModel>
    decreases n,
{
    if n <= 0 {
        none()
    } else {
        tags_fold(base, a, n - 1) + tag_entry_issues(index_path(base, n - 1), a[n - 1])
    }
}

/// The issues of `tags` (key 1).
pub open spec fn tags_issues(base: Seq<char>, v: VModel) -> Seq<IssueModel> {
    match v {
        VModel::Array(a) => if a.len() == 0 {
            err(base, "tags array is empty (CDDL requires at least one)"@)
        } else {
            tags_fold(base, a, a.len() as int)
        },
        _ => err(base, "tags (key 1) must be a non-empty array, found "@ + kind_name(v)),
    }
}

/// The issues of an unsigned CoRIM map at `base`.
pub open spec fn corim_map_issues(base: Seq<char>, v: VModel) -> Seq<IssueModel> {
    match v {
        VModel::Mapping(m) => {
            let (f, s) = corim_fold(base, m);
            s + (if !f.id {
                err(base, "missing required key 0 (id)"@)
            } else {
                none()
            }) + (if !f.tags {
                err(base, "missing required key 1 (tags)"@)
            } else {
                none()
            }) + match f.tags_value {
                Some(t) => tags_issues(base + ".1"@, t),
                None => none(),
            }
        },
        _ => err(
            base,
            "tagged-unsigned-corim-map inner value must be a map, found "@ + kind_name(v),
        ),
    }
}

/// The issues of the `protected` element of `COSE_Sign1`.
pub open spec fn protected_issues(v: VModel) -> Seq<IssueModel> {
    match v {
        VModel::Bytes(b) => if b.len() == 0 {
            err(
                "$.protected"@,
                "protected header byte string is empty (must encode a non-empty CBOR map)"@,
            )
        } else {
            match decode_spec(b) {
                None => err(
                    "$.protected"@,
                    "inner CBOR of protected header is not valid: "@ + cbor_error(b),
                ),
                Some(x) => header_map_issues(x),
            }
        },
        _ => err_hint(
            "$.protected"@,
            "protected header must be a byte string (bstr .cbor protected-corim-header-map), found "@
                + kind_name(v),
            "RFC 9052 §4: protected MUST be `bstr .cbor header_map`"@,
        ),
    }
}

/// The issues of the `unprotected` element.
pub open spec fn unprotected_issues(v: VModel) -> Seq<IssueModel> {
    match v {
        VModel::Mapping(_) => info(
            "$.unprotected"@,
            "unprotected header is a CBOR map (contents not inspected)"@,
        ),
        _ => err("$.unprotected"@, "unprotected header must be a CBOR map, found "@ + kind_name(v)),
    }
}

/// The issues of the `payload` element.
pub open spec fn payload_issues(v: VModel) -> Seq<IssueModel> {
    match v {
        VModel::Null => info("$.payload"@, "payload is nil (detached or hash-envelope mode)"@),
        VModel::Bytes(b) => if b.len() == 0 {
            warn("$.payload"@, "payload byte string is empty"@)
        } else {
            match decode_spec(b) {
                Some(VModel::Tag(t, inner)) => if t == TAG_CORIM {
                    info(
                        "$.payload"@,
                        "payload decodes as #6.501(unsigned-corim-map) ("@ + dec_int(b.len() as int)
                            + " bytes)"@,
                    ) + corim_map_issues("$.payload"@, *inner)
                } else {
                    err_hint(
                        "$.payload"@,
                        "payload CBOR is tagged #6."@ + dec_int(t as int)
                            + "; expected #6.501 (tagged-unsigned-corim-map)"@,
                        "If this is a hash-envelope, payload should be raw digest bytes (no CBOR wrapping)"@,
                    )
                },
                Some(o) => warn(
                    "$.payload"@,
                    "payload bytes parse as bare CBOR "@ + kind_name(o)
                        + " (not tagged); could be a hash-envelope digest or malformed payload"@,
                ),
                None => info(
                    "$.payload"@,
                    "payload is "@ + dec_int(b.len() as int)
                        + " bytes that do not parse as CBOR; treated as hash-envelope digest"@,
                ),
            }
        },
        _ => err("$.payload"@, "payload must be a byte string or nil, found "@ + kind_name(v)),
    }
}

/// The issues of the `signature` element.
pub open spec fn signature_issues(v: VModel) -> Seq<IssueModel> {
    match v {
        VModel::Bytes(b) => if b.len() == 0 {
            err("$.signature"@, "signature byte string is empty"@)
        } else {
            info("$.signature"@, "signature is "@ + dec_int(b.len() as int) + " bytes"@)
        },
        _ => err("$.signature"@, "signature must be a byte string, found "@ + kind_name(v)),
    }
}

/// The issues of the content of a `#6.18` envelope: its arity, then each element present.
pub open spec fn cose_issues(v: VModel) -> Seq<IssueModel> {
    match v {
        VModel::Array(a) => (if a.len() != 4 {
            err_hint(
                "$"@,
                "COSE_Sign1 array has "@ + dec_int(a.len() as int) + " element(s), expected 4"@,
                cose_hint(),
            )
        } else {
            none()
        }) + (if a.len() > 0 {
            protected_issues(a[0])
        } else {
            none()
        }) + (if a.len() > 1 {
            unprotected_issues(a[1])
        } else {
            none()
        }) + (if a.len() > 2 {
            payload_issues(a[2])
        } else {
            none()
        }) + (if a.len() > 3 {
            signature_issues(a[3])
        } else {
            none()
        }),
        _ => err_hint(
            "$"@,
            "COSE_Sign1 must be a 4-element array, found "@ + kind_name(v),
            cose_hint(),
        ),
    }
}

/// The report for a document.
pub open spec fn inspect_spec(b: Seq<u8>) -> ReportModel {
    if b.len() == 0 {
        ReportModel { envelope: EnvelopeKind::Unknown, issues: err("$"@, "input is empty"@) }
    } else {
        match decode_spec(b) {
            None => ReportModel {
                envelope: EnvelopeKind::Unknown,
                issues: err("$"@, "not valid CBOR: "@ + cbor_error(b)),
            },
            Some(VModel::Tag(t, inner)) => if t == TAG_SIGNED_CORIM {
                ReportModel {
                    envelope: EnvelopeKind::Signed,
                    issues: info("$"@, "recognized CBOR tag 18 (signed-corim)"@) + cose_issues(
                        *inner,
                    ),
                }
            } else if t == TAG_CORIM {
                ReportModel {
                    envelope: EnvelopeKind::Unsigned,
                    issues: info("$"@, "recognized CBOR tag 501 (tagged-unsigned-corim-map)"@)
                        + corim_map_issues("$"@, *inner),
                }
            } else {
                ReportModel {
                    envelope: EnvelopeKind::Unknown,
                    issues: err(
                        "$"@,
                        "expected CBOR tag 501 (unsigned-corim) or 18 (signed-corim), found tag "@
                            + dec_int(t as int),
                    ),
                }
            },
            Some(o) => ReportModel {
                envelope: EnvelopeKind::Unknown,
                issues: err(
                    "$"@,
                    "expected a CBOR-tagged value (#6.501 or #6.18), found bare "@ + kind_name(o),
                ),
            },
        }
    }
}


// ---------------------------------------------------------------------------
// The walk.
// ---------------------------------------------------------------------------

fn push_issue(
    issues: &mut Vec<DecodeIssue>,
    severity: Severity,
    path: String,
    message: String,
    hint: Option<&'static str>,
)
    ensures
        issues_model(final(issues)@) == issues_model(old(issues)@) + seq![
            IssueModel {
                severity,
                path: path@,
                message: message@,
                hint: match hint {
                    Some(h) => Some(h@),
                    None => None,
                },
            },
        ],
{
    let i = DecodeIssue { severity, path, message, hint };
    let ghost prev = issues@;
    issues.push(i);
    proof {
        assert(issues_model(issues@) =~= issues_model(prev) + seq![i@]);
    }
}

fn push_err(issues: &mut Vec<DecodeIssue>, path: String, message: String)
    ensures
        issues_model(final(issues)@) == issues_model(old(issues)@) + err(path@, message@),
{
    push_issue(issues, Severity::Error, path, message, None);
}

fn push_warn(issues: &mut Vec<DecodeIssue>, path: String, message: String)
    ensures
        issues_model(final(issues)@) == issues_model(old(issues)@) + warn(path@, message@),
{
    push_issue(issues, Severity::Warning, path, message, None);
}

fn push_info(issues: &mut Vec<DecodeIssue>, path: String, message: String)
    ensures
        issues_model(final(issues)@) == issues_model(old(issues)@) + info(path@, message@),
{
    push_issue(issues, Severity::Info, path, message, None);
}

fn push_err_hint(issues: &mut Vec<DecodeIssue>, path: String, message: String, hint: &'static str)
    ensures
        issues_model(final(issues)@) == issues_model(old(issues)@) + err_hint(path@, message@, hint@),
{
    push_issue(issues, Severity::Error, path, message, Some(hint));
}

fn text(s: &str) -> (r: String)
    ensures
        r@ == s@,
{
    String::from_str(s)
}

/// `prefix` followed by the kind of `v`.
fn found(prefix: &str, v: &Value) -> (r: String)
    ensures
        r@ == prefix@ + kind_name(v@),
{
    let mut r = String::from_str(prefix);
    push_str(&mut r, value_kind(v));
    r
}

/// `prefix`, the number `n`, then `suffix`.
fn numbered(prefix: &str, n: i128, suffix: &str) -> (r: String)
    ensures
        r@ == prefix@ + dec_int(n as int) + suffix@,
{
    let mut r = String::from_str(prefix);
    push_i128(&mut r, n);
    push_str(&mut r, suffix);
    r
}

fn keyed(base: &str, n: i64) -> (r: String)
    ensures
        r@ == key_path(base@, n as int),
{
    let mut r = String::from_str(base);
    push_str(&mut r, ".");
    push_i64(&mut r, n);
    r
}

fn indexed(base: &str, i: usize) -> (r: String)
    ensures
        r@ == index_path(base@, i as int),
{
    let mut r = String::from_str(base);
    push_str(&mut r, "[");
    push_usize(&mut r, i);
    push_str(&mut r, "]");
    r
}

fn header_key(issues: &mut Vec<DecodeIssue>, f: HeaderSeen, n: i64, path: String, v: &Value) -> (g: HeaderSeen)
    ensures
        g == header_key_issues(f, n as int, path@, v@).0,
        issues_model(final(issues)@) == issues_model(old(issues)@) + header_key_issues(
            f,
            n as int,
            path@,
            v@,
        ).1,
{
    let ghost start = issues_model(issues@);
    if n == 1 {
        if !matches!(v, Value::Integer(_)) {
            push_err(issues, path, found("alg (key 1) must be int (COSE algorithm registry), found ", v));
        } else {
            assert(start + none() =~= start);
        }
        HeaderSeen { alg: true, ..f }
    } else if n == 3 {
        match v {
            Value::Text(t) => {
                if str_eq(t.as_str(), corim_content_type_str()) {
                    assert(start + none() =~= start);
                } else {
                    let mut m = String::from_str("content-type (key 3) is ");
                    let d = debug_quoted(t.as_str());
                    push_str(&mut m, d.as_str());
                    push_str(&mut m, ", expected ");
                    let e = debug_quoted(corim_content_type_str());
                    push_str(&mut m, e.as_str());
                    push_warn(issues, path, m);
                }
                HeaderSeen { content_type: true, ..f }
            },
            Value::Integer(_) => {
                push_warn(
                    issues,
                    path,
                    text(
                        "content-type (key 3) is an integer (CoAP content-format); CoRIM §4.2.1 requires the tstr form",
                    ),
                );
                HeaderSeen { content_type: true, ..f }
            },
            _ => {
                push_err(issues, path, found("content-type (key 3) must be tstr, found ", v));
                f
            },
        }
    } else if n == 4 {
        match v {
            Value::Bytes(_) => {
                push_warn(
                    issues,
                    path,
                    text(
                        "kid (key 4) appears in the protected header; RFC 9052 §3.1 puts kid in unprotected",
                    ),
                );
                f
            },
            Value::Text(_) => {
                push_info(
                    issues,
                    path,
                    text(
                        "key 4 is a tstr — interpreted as CWT iss claim placed flat in protected header",
                    ),
                );
                HeaderSeen { cwt_iss_flat: true, ..f }
            },
            _ => {
                push_err(issues, path, found("key 4 must be bstr (kid) or tstr (CWT iss), found ", v));
                f
            },
        }
    } else if n == 8 {
        match v {
            Value::Bytes(b) => {
                match decode(b.as_slice()) {
                    Ok(Value::Mapping(_)) => {
                        let m = numbered(
                            "corim-meta (key 8) decoded as bstr .cbor map (",
                            b.len() as i128,
                            " bytes)",
                        );
                        push_info(issues, path, m);
                    },
                    Ok(o) => {
                        let mut m = found("corim-meta (key 8) byte-string contents are CBOR ", &o);
                        push_str(&mut m, ", expected map");
                        push_err(issues, path, m);
                    },
                    Err(e) => {
                        let mut m = String::from_str("corim-meta (key 8) inner CBOR did not parse: ");
                        let t = e.to_text();
                        push_str(&mut m, t.as_str());
                        push_err(issues, path, m);
                    },
                }
                HeaderSeen { corim_meta: true, ..f }
            },
            Value::Mapping(_) => {
                push_err_hint(
                    issues,
                    path,
                    text(
                        "corim-meta (key 8) is a bare CBOR map, but the spec requires `bstr .cbor corim-meta-map` (a byte string wrapping the CBOR-encoded map)",
                    ),
                    "Producer should encode the corim-meta-map to bytes, then store those bytes as a CBOR byte string at key 8",
                );
                f
            },
            _ => {
                push_err(
                    issues,
                    path,
                    found("corim-meta (key 8) must be a byte string wrapping a CBOR map, found ", v),
                );
                f
            },
        }
    } else if n == 15 {
        match v {
            Value::Mapping(_) => {
                push_info(issues, path, text("CWT-Claims (key 15) is a CBOR map"));
                HeaderSeen { cwt_claims: true, ..f }
            },
            _ => {
                push_err(issues, path, found("CWT-Claims (key 15) must be a map, found ", v));
                f
            },
        }
    } else if n == 258 {
        if !matches!(v, Value::Integer(_)) {
            push_err(issues, path, found("payload_hash_alg (key 258) must be int, found ", v));
        } else {
            assert(start + none() =~= start);
        }
        f
    } else if n == 259 {
        match v {
            Value::Text(_) => {
                assert(start + none() =~= start);
                HeaderSeen { preimage_content_type: true, ..f }
            },
            _ => {
                push_err(
                    issues,
                    path,
                    found("payload_preimage_content_type (key 259) must be tstr, found ", v),
                );
                f
            },
        }
    } else if n == 260 {
        if !matches!(v, Value::Text(_)) {
            push_err(issues, path, found("payload_location (key 260) must be tstr, found ", v));
        } else {
            assert(start + none() =~= start);
        }
        f
    } else if n == 32 || n == 33 {
        if !matches!(v, Value::Bytes(_) | Value::Array(_)) {
            let mut m = numbered(
                "x5bag/x5chain (key ",
                n as i128,
                ") must be bstr or array of bstr per RFC 9360, found ",
            );
            push_str(&mut m, value_kind(v));
            push_err(issues, path, m);
        } else {
            assert(start + none() =~= start);
        }
        f
    } else if n == 34 {
        if !matches!(v, Value::Array(_)) {
            push_err(issues, path, found("x5t (key 34) must be a [hashAlg, hashValue] array, found ", v));
        } else {
            assert(start + none() =~= start);
        }
        f
    } else if n == 35 {
        if !matches!(v, Value::Text(_)) {
            push_err(issues, path, found("x5u (key 35) must be tstr (URI), found ", v));
        } else {
            assert(start + none() =~= start);
        }
        f
    } else {
        let m = numbered("unrecognized header key ", n as i128, " (passed through as extra)");
        push_info(issues, path, m);
        f
    }
}

fn header_entry(issues: &mut Vec<DecodeIssue>, f: HeaderSeen, k: &Value, v: &Value) -> (g: HeaderSeen)
    ensures
        g == header_entry_issues(f, k@, v@).0,
        issues_model(final(issues)@) == issues_model(old(issues)@) + header_entry_issues(f, k@, v@).1,
{
    match k {
        Value::Integer(n) => {
            if *n < i64::MIN as i128 || *n > i64::MAX as i128 {
                let m = numbered("integer header key ", *n, " is out of i64 range; skipped");
                push_warn(issues, text("$.protected"), m);
                f
            } else {
                let key = *n as i64;
                header_key(issues, f, key, keyed("$.protected", key), v)
            }
        },
        _ => {
            let mut m = found("non-integer header key (", k);
            push_str(&mut m, "); RFC 9052 expects int/tstr labels");
            push_warn(issues, text("$.protected"), m);
            f
        },
    }
}

fn header_rules(issues: &mut Vec<DecodeIssue>, f: HeaderSeen)
    ensures
        issues_model(final(issues)@) == issues_model(old(issues)@) + header_rule_issues(f),
{
    let ghost s0 = issues_model(issues@);
    if !f.alg {
        push_err(issues, text("$.protected"), text("missing required key 1 (alg)"));
    }
    let ghost s1 = issues_model(issues@);
    assert(s1 == s0 + (if !f.alg {
        err("$.protected"@, "missing required key 1 (alg)"@)
    } else {
        none()
    })) by {
        assert(s0 + none() =~= s0);
    }
    if !f.content_type && !f.preimage_content_type {
        push_err_hint(
            issues,
            text("$.protected"),
            text(
                "missing both content-type (key 3, inline mode) and payload_preimage_content_type (key 259, hash-envelope mode)",
            ),
            "draft-ietf-rats-corim-10 §4.2.1 requires exactly one of these",
        );
    } else if f.content_type && f.preimage_content_type {
        push_warn(
            issues,
            text("$.protected"),
            text(
                "both content-type (key 3) and payload_preimage_content_type (key 259) are present; pick one mode",
            ),
        );
    } else {
        assert(s1 + none() =~= s1);
    }
    let ghost s2 = issues_model(issues@);
    if !f.corim_meta && !f.cwt_claims && !f.cwt_iss_flat {
        push_err_hint(
            issues,
            text("$.protected"),
            text(
                "meta-group violation: at least one of corim-meta (key 8) or CWT-Claims (key 15) must be present",
            ),
            "draft-ietf-rats-corim-10 §4.2.1 meta-group: ((corim-meta-identity, ?cwt-claims-identity) // cwt-claims-identity)",
        );
    } else {
        assert(s2 + none() =~= s2);
    }
    proof {
        assert(issues_model(issues@) =~= s0 + header_rule_issues(f));
    }
}

fn header_map(issues: &mut Vec<DecodeIssue>, v: &Value)
    ensures
        issues_model(final(issues)@) == issues_model(old(issues)@) + header_map_issues(v@),
{
    let ghost start = issues_model(issues@);
    match v {
        Value::Mapping(m) => {
            let ghost ms = crate::cbor::model_pairs(m@);
            proof {
                crate::cbor::lemma_model_pairs(m@);
            }
            let mut f = HeaderSeen {
                alg: false,
                corim_meta: false,
                cwt_claims: false,
                content_type: false,
                preimage_content_type: false,
                cwt_iss_flat: false,
            };
            let mut i: usize = 0;
            proof {
                assert(ms.take(0) =~= Seq::<(VModel, VModel)>::empty());
                assert(start + none() =~= start);
            }
            while i < m.len()
                invariant
                    i <= m@.len(),
                    ms == crate::cbor::model_pairs(m@),
                    ms.len() == m@.len(),
                    forall|j: int| 0 <= j < m@.len() ==> #[trigger] ms[j] == (m@[j].0@, m@[j].1@),
                    f == header_fold(ms.take(i as int)).0,
                    issues_model(issues@) == start + header_fold(ms.take(i as int)).1,
                decreases m@.len() - i,
            {
                proof {
                    assert(ms.take(i + 1).drop_last() =~= ms.take(i as int));
                }
                let ghost before = issues_model(issues@);
                f = header_entry(issues, f, &m[i].0, &m[i].1);
                proof {
                    let t = header_entry_issues(header_fold(ms.take(i as int)).0, ms[i as int].0, ms[i as int].1).1;
                    assert(issues_model(issues@) =~= start + (header_fold(ms.take(i as int)).1 + t));
                }
                i = i + 1;
            }
            proof {
                assert(ms.take(i as int) =~= ms);
            }
            header_rules(issues, f);
            proof {
                assert(issues_model(issues@) =~= start + (header_fold(ms).1 + header_rule_issues(header_fold(ms).0)));
            }
        },
        _ => {
            push_err(
                issues,
                text("$.protected"),
                found("protected header inner CBOR must be a map, found ", v),
            );
        },
    }
}


fn id_check(issues: &mut Vec<DecodeIssue>, path: String, v: &Value)
    ensures
        issues_model(final(issues)@) == issues_model(old(issues)@) + id_issues(path@, v@),
{
    let ghost start = issues_model(issues@);
    match v {
        Value::Text(_) => {
            assert(start + none() =~= start);
        },
        Value::Bytes(b) if b.len() == 16 => {
            assert(start + none() =~= start);
        },
        Value::Tag(t, inner) if *t == TAG_UUID => {
            let iv: &Value = inner;
            assert(v@ == VModel::Tag(*t, Box::new(iv@)));
            match iv {
                Value::Bytes(b) if b.len() == 16 => {
                    assert(start + none() =~= start);
                },
                o => {
                    let mut m = found("id (key 0) tagged-uuid inner must be 16-byte bstr, found ", o);
                    push_str(&mut m, " of len ");
                    let n: usize = match o {
                        Value::Bytes(b) => b.len(),
                        _ => 0,
                    };
                    push_usize(&mut m, n);
                    push_err(issues, path, m);
                },
            }
        },
        _ => {
            push_err(issues, path, found("id (key 0) must be tstr or (tagged-)uuid-type, found ", v));
        },
    }
}

/// What was seen of a CoRIM map so far.
struct CorimState<'a> {
    id: bool,
    tags: bool,
    tags_value: Option<&'a Value>,
}

spec fn corim_state_view(s: CorimState) -> CorimSeen {
    CorimSeen {
        id: s.id,
        tags: s.tags,
        tags_value: match s.tags_value {
            Some(v) => Some(v@),
            None => None,
        },
    }
}

fn corim_key<'a>(issues: &mut Vec<DecodeIssue>, f: CorimState<'a>, n: i64, path: String, v: &'a Value) -> (g: CorimState<'a>)
    ensures
        corim_state_view(g) == corim_key_issues(corim_state_view(f), n as int, path@, v@).0,
        issues_model(final(issues)@) == issues_model(old(issues)@) + corim_key_issues(
            corim_state_view(f),
            n as int,
            path@,
            v@,
        ).1,
{
    let ghost start = issues_model(issues@);
    if n == CORIM_KEY_ID {
        id_check(issues, path, v);
        CorimState { id: true, ..f }
    } else if n == CORIM_KEY_TAGS {
        assert(start + none() =~= start);
        CorimState { tags: true, tags_value: Some(v), ..f }
    } else if n == CORIM_KEY_DEPENDENT_RIMS {
        if !matches!(v, Value::Array(_)) {
            push_err(
                issues,
                path,
                found("dependent-rims (key 2) must be array of corim-locator-map, found ", v),
            );
        } else {
            assert(start + none() =~= start);
        }
        f
    } else if n == CORIM_KEY_PROFILE {
        match v {
            Value::Text(_) => {
                assert(start + none() =~= start);
            },
            Value::Tag(t, _) if *t == TAG_OID => {
                assert(start + none() =~= start);
            },
            _ => {
                push_err(
                    issues,
                    path,
                    found("profile (key 3) must be uri (tstr) or tagged-oid-type, found ", v),
                );
            },
        }
        f
    } else if n == CORIM_KEY_RIM_VALIDITY {
        if !matches!(v, Value::Mapping(_)) {
            push_err(issues, path, found("rim-validity (key 4) must be a validity-map, found ", v));
        } else {
            assert(start + none() =~= start);
        }
        f
    } else if n == CORIM_KEY_ENTITIES {
        if !matches!(v, Value::Array(_)) {
            push_err(
                issues,
                path,
                found("entities (key 5) must be array of corim-entity-map, found ", v),
            );
        } else {
            assert(start + none() =~= start);
        }
        f
    } else {
        push_info(issues, path, numbered("unrecognized corim-map key ", n as i128, " (extension)"));
        f
    }
}

fn corim_entry<'a>(issues: &mut Vec<DecodeIssue>, base: &str, f: CorimState<'a>, k: &Value, v: &'a Value) -> (g: CorimState<'a>)
    ensures
        corim_state_view(g) == corim_entry_issues(base@, corim_state_view(f), k@, v@).0,
        issues_model(final(issues)@) == issues_model(old(issues)@) + corim_entry_issues(
            base@,
            corim_state_view(f),
            k@,
            v@,
        ).1,
{
    match k {
        Value::Integer(n) => {
            if *n < i64::MIN as i128 || *n > i64::MAX as i128 {
                push_warn(issues, text(base), numbered("corim-map key ", *n, " out of i64 range; skipped"));
                f
            } else {
                let key = *n as i64;
                corim_key(issues, f, key, keyed(base, key), v)
            }
        },
        _ => {
            let mut m = found("corim-map has non-integer key (", k);
            push_str(&mut m, "); ignored");
            push_warn(issues, text(base), m);
            f
        },
    }
}

fn tag_entry(issues: &mut Vec<DecodeIssue>, path: String, v: &Value)
    ensures
        issues_model(final(issues)@) == issues_model(old(issues)@) + tag_entry_issues(path@, v@),
{
    match v {
        Value::Tag(t, inner) => {
            let iv: &Value = inner;
            assert(v@ == VModel::Tag(*t, Box::new(iv@)));
            if *t == TAG_COMID {
                match iv {
                    Value::Bytes(b) => push_info(
                        issues,
                        path,
                        numbered("tagged-concise-mid-tag (#6.506), ", b.len() as i128, " bytes inner CBOR"),
                    ),
                    o => push_err(
                        issues,
                        path,
                        found("#6.506 (CoMID) inner must be bstr .cbor concise-mid-tag, found ", o),
                    ),
                }
            } else if *t == TAG_COSWID {
                match iv {
                    Value::Bytes(b) => push_info(
                        issues,
                        path,
                        numbered("tagged-concise-swid-tag (#6.505), ", b.len() as i128, " bytes inner CBOR"),
                    ),
                    o => push_err(
                        issues,
                        path,
                        found("#6.505 (CoSWID) inner must be bstr .cbor concise-swid-tag, found ", o),
                    ),
                }
            } else if *t == TAG_COTL {
                match iv {
                    Value::Bytes(b) => push_info(
                        issues,
                        path,
                        numbered("tagged-concise-tl-tag (#6.508), ", b.len() as i128, " bytes inner CBOR"),
                    ),
                    o => push_err(
                        issues,
                        path,
                        found("#6.508 (CoTL) inner must be bstr .cbor concise-tl-tag, found ", o),
                    ),
                }
            } else {
                push_warn(
                    issues,
                    path,
                    numbered(
                        "tag #6.",
                        *t as i128,
                        " is not a recognized CoRIM tag type (505/506/508 expected)",
                    ),
                );
            }
        },
        _ => {
            push_err(issues, path, found("tags[] entry must be a CBOR-tagged item, found bare ", v));
        },
    }
}

fn tags_check(issues: &mut Vec<DecodeIssue>, base: &str, v: &Value)
    ensures
        issues_model(final(issues)@) == issues_model(old(issues)@) + tags_issues(base@, v@),
{
    let ghost start = issues_model(issues@);
    match v {
        Value::Array(a) => {
            let ghost ms = crate::cbor::model_list(a@);
            proof {
                crate::cbor::lemma_model_list(a@);
            }
            if a.len() == 0 {
                push_err(issues, text(base), text("tags array is empty (CDDL requires at least one)"));
                return;
            }
            let mut i: usize = 0;
            proof {
                assert(start + none() =~= start);
            }
            while i < a.len()
                invariant
                    i <= a@.len(),
                    ms == crate::cbor::model_list(a@),
                    ms.len() == a@.len(),
                    forall|j: int| 0 <= j < a@.len() ==> #[trigger] ms[j] == a@[j]@,
                    issues_model(issues@) == start + tags_fold(base@, ms, i as int),
                decreases a@.len() - i,
            {
                let ghost before = issues_model(issues@);
                tag_entry(issues, indexed(base, i), &a[i]);
                proof {
                    assert(issues_model(issues@) =~= start + tags_fold(base@, ms, i + 1));
                }
                i = i + 1;
            }
        },
        _ => {
            push_err(issues, text(base), found("tags (key 1) must be a non-empty array, found ", v));
        },
    }
}

fn corim_map(issues: &mut Vec<DecodeIssue>, base: &str, v: &Value)
    ensures
        issues_model(final(issues)@) == issues_model(old(issues)@) + corim_map_issues(base@, v@),
{
    let ghost start = issues_model(issues@);
    match v {
        Value::Mapping(m) => {
            let ghost ms = crate::cbor::model_pairs(m@);
            proof {
                crate::cbor::lemma_model_pairs(m@);
            }
            let mut f = CorimState { id: false, tags: false, tags_value: None };
            let mut i: usize = 0;
            proof {
                assert(ms.take(0) =~= Seq::<(VModel, VModel)>::empty());
                assert(start + none() =~= start);
            }
            while i < m.len()
                invariant
                    i <= m@.len(),
                    ms == crate::cbor::model_pairs(m@),
                    ms.len() == m@.len(),
                    forall|j: int| 0 <= j < m@.len() ==> #[trigger] ms[j] == (m@[j].0@, m@[j].1@),
                    corim_state_view(f) == corim_fold(base@, ms.take(i as int)).0,
                    issues_model(issues@) == start + corim_fold(base@, ms.take(i as int)).1,
                decreases m@.len() - i,
            {
                proof {
                    assert(ms.take(i + 1).drop_last() =~= ms.take(i as int));
                }
                f = corim_entry(issues, base, f, &m[i].0, &m[i].1);
                proof {
                    let t = corim_entry_issues(base@, corim_fold(base@, ms.take(i as int)).0, ms[i as int].0, ms[i as int].1).1;
                    assert(issues_model(issues@) =~= start + (corim_fold(base@, ms.take(i as int)).1 + t));
                }
                i = i + 1;
            }
            proof {
                assert(ms.take(i as int) =~= ms);
            }
            let ghost s0 = issues_model(issues@);
            if !f.id {
                push_err(issues, text(base), text("missing required key 0 (id)"));
            } else {
                assert(s0 + none() =~= s0);
            }
            let ghost s1 = issues_model(issues@);
            if !f.tags {
                push_err(issues, text(base), text("missing required key 1 (tags)"));
            } else {
                assert(s1 + none() =~= s1);
            }
            let ghost s2 = issues_model(issues@);
            match f.tags_value {
                Some(t) => {
                    let mut p = String::from_str(base);
                    push_str(&mut p, ".1");
                    tags_check(issues, p.as_str(), t);
                },
                None => {
                    assert(s2 + none() =~= s2);
                },
            }
            proof {
                let (g, sfold) = corim_fold(base@, ms);
                assert(issues_model(issues@) =~= start + corim_map_issues(base@, v@));
            }
        },
        _ => {
            push_err(
                issues,
                text(base),
                found("tagged-unsigned-corim-map inner value must be a map, found ", v),
            );
        },
    }
}

fn protected_check(issues: &mut Vec<DecodeIssue>, v: &Value)
    ensures
        issues_model(final(issues)@) == issues_model(old(issues)@) + protected_issues(v@),
{
    match v {
        Value::Bytes(b) => {
            if b.len() == 0 {
                push_err(
                    issues,
                    text("$.protected"),
                    text("protected header byte string is empty (must encode a non-empty CBOR map)"),
                );
                return;
            }
            match decode(b.as_slice()) {
                Ok(inner) => header_map(issues, &inner),
                Err(e) => {
                    let mut m = String::from_str("inner CBOR of protected header is not valid: ");
                    let t = e.to_text();
                    push_str(&mut m, t.as_str());
                    push_err(issues, text("$.protected"), m);
                },
            }
        },
        _ => {
            push_err_hint(
                issues,
                text("$.protected"),
                found(
                    "protected header must be a byte string (bstr .cbor protected-corim-header-map), found ",
                    v,
                ),
                "RFC 9052 §4: protected MUST be `bstr .cbor header_map`",
            );
        },
    }
}

fn unprotected_check(issues: &mut Vec<DecodeIssue>, v: &Value)
    ensures
        issues_model(final(issues)@) == issues_model(old(issues)@) + unprotected_issues(v@),
{
    match v {
        Value::Mapping(_) => push_info(
            issues,
            text("$.unprotected"),
            text("unprotected header is a CBOR map (contents not inspected)"),
        ),
        _ => push_err(
            issues,
            text("$.unprotected"),
            found("unprotected header must be a CBOR map, found ", v),
        ),
    }
}

fn payload_check(issues: &mut Vec<DecodeIssue>, v: &Value)
    ensures
        issues_model(final(issues)@) == issues_model(old(issues)@) + payload_issues(v@),
{
    match v {
        Value::Null => push_info(
            issues,
            text("$.payload"),
            text("payload is nil (detached or hash-envelope mode)"),
        ),
        Value::Bytes(b) => {
            if b.len() == 0 {
                push_warn(issues, text("$.payload"), text("payload byte string is empty"));
                return;
            }
            match decode(b.as_slice()) {
                Ok(Value::Tag(t, inner)) => {
                    let iv: &Value = &inner;
                    if t == TAG_CORIM {
                        let ghost start = issues_model(issues@);
                        push_info(
                            issues,
                            text("$.payload"),
                            numbered(
                                "payload decodes as #6.501(unsigned-corim-map) (",
                                b.len() as i128,
                                " bytes)",
                            ),
                        );
                        corim_map(issues, "$.payload", iv);
                        proof {
                            assert(issues_model(issues@) =~= start + payload_issues(v@));
                        }
                    } else {
                        push_err_hint(
                            issues,
                            text("$.payload"),
                            numbered(
                                "payload CBOR is tagged #6.",
                                t as i128,
                                "; expected #6.501 (tagged-unsigned-corim-map)",
                            ),
                            "If this is a hash-envelope, payload should be raw digest bytes (no CBOR wrapping)",
                        );
                    }
                },
                Ok(o) => {
                    let mut m = found("payload bytes parse as bare CBOR ", &o);
                    push_str(
                        &mut m,
                        " (not tagged); could be a hash-envelope digest or malformed payload",
                    );
                    push_warn(issues, text("$.payload"), m);
                },
                Err(_) => {
                    push_info(
                        issues,
                        text("$.payload"),
                        numbered(
                            "payload is ",
                            b.len() as i128,
                            " bytes that do not parse as CBOR; treated as hash-envelope digest",
                        ),
                    );
                },
            }
        },
        _ => push_err(
            issues,
            text("$.payload"),
            found("payload must be a byte string or nil, found ", v),
        ),
    }
}

fn signature_check(issues: &mut Vec<DecodeIssue>, v: &Value)
    ensures
        issues_model(final(issues)@) == issues_model(old(issues)@) + signature_issues(v@),
{
    match v {
        Value::Bytes(b) => {
            if b.len() == 0 {
                push_err(issues, text("$.signature"), text("signature byte string is empty"));
            } else {
                push_info(
                    issues,
                    text("$.signature"),
                    numbered("signature is ", b.len() as i128, " bytes"),
                );
            }
        },
        _ => push_err(
            issues,
            text("$.signature"),
            found("signature must be a byte string, found ", v),
        ),
    }
}

fn cose_check(issues: &mut Vec<DecodeIssue>, v: &Value)
    ensures
        issues_model(final(issues)@) == issues_model(old(issues)@) + cose_issues(v@),
{
    match v {
        Value::Array(a) => {
            let ghost ms = crate::cbor::model_list(a@);
            proof {
                crate::cbor::lemma_model_list(a@);
            }
            let ghost s0 = issues_model(issues@);
            if a.len() != 4 {
                push_err_hint(
                    issues,
                    text("$"),
                    numbered("COSE_Sign1 array has ", a.len() as i128, " element(s), expected 4"),
                    "RFC 9052 §4: COSE_Sign1 = [protected, unprotected, payload, signature]",
                );
            } else {
                assert(s0 + none() =~= s0);
            }
            let ghost s1 = issues_model(issues@);
            if a.len() > 0 {
                protected_check(issues, &a[0]);
            } else {
                assert(s1 + none() =~= s1);
            }
            let ghost s2 = issues_model(issues@);
            if a.len() > 1 {
                unprotected_check(issues, &a[1]);
            } else {
                assert(s2 + none() =~= s2);
            }
            let ghost s3 = issues_model(issues@);
            if a.len() > 2 {
                payload_check(issues, &a[2]);
            } else {
                assert(s3 + none() =~= s3);
            }
            let ghost s4 = issues_model(issues@);
            if a.len() > 3 {
                signature_check(issues, &a[3]);
            } else {
                assert(s4 + none() =~= s4);
            }
            proof {
                assert(issues_model(issues@) =~= s0 + cose_issues(v@));
            }
        },
        _ => {
            push_err_hint(
                issues,
                text("$"),
                found("COSE_Sign1 must be a 4-element array, found ", v),
                "RFC 9052 §4: COSE_Sign1 = [protected, unprotected, payload, signature]",
            );
        },
    }
}

/// Inspect an encoded CoRIM document and report every structural issue recognised.
pub fn inspect(bytes: &[u8]) -> (r: DecodeReport)
    ensures
        r@ == inspect_spec(bytes@),
{
    let mut issues: Vec<DecodeIssue> = Vec::new();
    proof {
        assert(issues_model(issues@) =~= Seq::<IssueModel>::empty());
    }
    if bytes.len() == 0 {
        push_err(&mut issues, text("$"), text("input is empty"));
        return DecodeReport { issues, envelope: EnvelopeKind::Unknown };
    }
    let top = match decode(bytes) {
        Ok(v) => v,
        Err(e) => {
            let mut m = String::from_str("not valid CBOR: ");
            let t = e.to_text();
            push_str(&mut m, t.as_str());
            push_err(&mut issues, text("$"), m);
            assert(issues_model(issues@) =~= err("$"@, "not valid CBOR: "@ + cbor_error(bytes@)));
            return DecodeReport { issues, envelope: EnvelopeKind::Unknown };
        },
    };
    proof {
        assert(Seq::<IssueModel>::empty() + err("$"@, "input is empty"@) =~= err("$"@, "input is empty"@));
    }
    let ghost e0 = Seq::<IssueModel>::empty();
    match &top {
        Value::Tag(t, inner) => {
            let iv: &Value = inner;
            assert(top@ == VModel::Tag(*t, Box::new(iv@)));
            assert(forall|x: Seq<IssueModel>| e0 + x =~= x);
            if *t == TAG_SIGNED_CORIM {
                push_info(&mut issues, text("$"), text("recognized CBOR tag 18 (signed-corim)"));
                cose_check(&mut issues, iv);
                DecodeReport { issues, envelope: EnvelopeKind::Signed }
            } else if *t == TAG_CORIM {
                push_info(
                    &mut issues,
                    text("$"),
                    text("recognized CBOR tag 501 (tagged-unsigned-corim-map)"),
                );
                corim_map(&mut issues, "$", iv);
                DecodeReport { issues, envelope: EnvelopeKind::Unsigned }
            } else {
                let mut m = String::from_str(
                    "expected CBOR tag 501 (unsigned-corim) or 18 (signed-corim), found tag ",
                );
                push_i128(&mut m, *t as i128);
                push_err(&mut issues, text("$"), m);
                DecodeReport { issues, envelope: EnvelopeKind::Unknown }
            }
        },
        other => {
            assert(forall|x: Seq<IssueModel>| e0 + x =~= x);
            push_err(
                &mut issues,
                text("$"),
                found("expected a CBOR-tagged value (#6.501 or #6.18), found bare ", other),
            );
            DecodeReport { issues, envelope: EnvelopeKind::Unknown }
        },
    }
}


} // verus!
