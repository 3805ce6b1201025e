//! Intel CoRIM profile (`draft-cds-rats-intel-corim-profile-07`, profile OID
//! `2.16.840.1.113741.1.16.1`): the names of its `measurement-values-map` extension keys,
//! their one-line rendering for diagnostics, and the per-key appraisal of reference values
//! against evidence.
use vstd::prelude::*;
use vstd::utf8::*;
use crate::cbor::{Value, VModel, model, model_list, model_pairs, lemma_model_list, lemma_model_pairs, copy_bytes};
use crate::profile::{MatchContext, Profile, is_summarizable, summarizable};
use crate::text::{concat, push_str, push_i128, push_u64, push_usize, dec_int};
use crate::types::corim::{ProfileChoice, ProfileChoiceModel};
use self::eval::{Verdict, combine, combine_spec, evaluate_one_key, key_pass, verdict_of};
use self::expression::{
    Expression, display_expression, display_spec, from_tag_spec, has_float_operand,
    is_expression_tag,
};

pub mod eval;
pub mod expression;
pub mod tcbdate;

verus! {

/// The DER content octets of the Intel profile OID `2.16.840.1.113741.1.16.1`.
pub open spec fn intel_oid() -> Seq<u8> {
    seq![0x60u8, 0x86, 0x48, 0x01, 0x86, 0xF8, 0x4D, 0x01, 0x10, 0x01]
}

/// The Intel profile OID `2.16.840.1.113741.1.16.1`, DER-encoded (content octets only).
pub fn intel_profile_oid_der() -> (r: Vec<u8>)
    ensures
        r@ == intel_oid(),
{
    let r = vec![0x60u8, 0x86, 0x48, 0x01, 0x86, 0xF8, 0x4D, 0x01, 0x10, 0x01];
    assert(r@ =~= intel_oid());
    r
}

/// `tee.vendor` (§8.3.15).
pub const MVAL_TEE_VENDOR: i64 = -70;
/// `tee.model` (§8.3.9).
pub const MVAL_TEE_MODEL: i64 = -71;
/// `tee.tcbdate` (§8.3.4).
pub const MVAL_TEE_TCBDATE: i64 = -72;
/// `tee.isvsvn` (§8.3.11).
pub const MVAL_TEE_ISVSVN: i64 = -73;
/// `tee.pceid` (§8.3.10).
pub const MVAL_TEE_PCEID: i64 = -80;
/// `tee.miscselect` (§8.3.8).
pub const MVAL_TEE_MISCSELECT: i64 = -81;
/// `tee.attributes` (§8.3.2).
pub const MVAL_TEE_ATTRIBUTES: i64 = -82;
/// `tee.mrtee` (§8.3.5).
pub const MVAL_TEE_MRTEE: i64 = -83;
/// `tee.mrsigner` (§8.3.5).
pub const MVAL_TEE_MRSIGNER: i64 = -84;
/// `tee.isvprodid` (§8.3.7).
pub const MVAL_TEE_ISVPRODID: i64 = -85;
/// `tee.tcb-eval-num` (§8.3.13).
pub const MVAL_TEE_TCB_EVAL_NUM: i64 = -86;
/// `tee.tcbstatus` (§8.3.14).
pub const MVAL_TEE_TCBSTATUS: i64 = -88;
/// `tee.advisory-ids` (§8.3.1).
pub const MVAL_TEE_ADVISORY_IDS: i64 = -89;
/// `tee.cryptokeys` (§8.3.3).
pub const MVAL_TEE_CRYPTOKEYS: i64 = -91;
/// `tee.platform-instance-id` (§8.3.6).
pub const MVAL_TEE_PLATFORM_INSTANCE_ID: i64 = -101;
/// `tee.tcb-comp-svn` (§8.3.12).
pub const MVAL_TEE_TCB_COMP_SVN: i64 = -125;

/// The Intel-spec name of an extension key.
pub open spec fn mval_name_spec(key: i64) -> Option<Seq<char>> {
    if key == -70 {
        Some("tee.vendor"@)
    } else if key == -71 {
        Some("tee.model"@)
    } else if key == -72 {
        Some("tee.tcbdate"@)
    } else if key == -73 {
        Some("tee.isvsvn"@)
    } else if key == -80 {
        Some("tee.pceid"@)
    } else if key == -81 {
        Some("tee.miscselect"@)
    } else if key == -82 {
        Some("tee.attributes"@)
    } else if key == -83 {
        Some("tee.mrtee"@)
    } else if key == -84 {
        Some("tee.mrsigner"@)
    } else if key == -85 {
        Some("tee.isvprodid"@)
    } else if key == -86 {
        Some("tee.tcb-eval-num"@)
    } else if key == -88 {
        Some("tee.tcbstatus"@)
    } else if key == -89 {
        Some("tee.advisory-ids"@)
    } else if key == -91 {
        Some("tee.cryptokeys"@)
    } else if key == -101 {
        Some("tee.platform-instance-id"@)
    } else if key == -125 {
        Some("tee.tcb-comp-svn"@)
    } else {
        None
    }
}

/// The Intel-spec name of a `measurement-values-map` extension key (e.g. `tee.mrtee` for
/// `-83`), or `None` if the profile does not define the key.
pub fn intel_mval_name(key: i64) -> (r: Option<&'static str>)
    ensures
        r matches Some(s) ==> mval_name_spec(key) == Some(s@),
        r is None ==> mval_name_spec(key) is None,
{
    proof {
        reveal_strlit("tee.vendor");
        reveal_strlit("tee.model");
        reveal_strlit("tee.tcbdate");
        reveal_strlit("tee.isvsvn");
        reveal_strlit("tee.pceid");
        reveal_strlit("tee.miscselect");
        reveal_strlit("tee.attributes");
        reveal_strlit("tee.mrtee");
        reveal_strlit("tee.mrsigner");
        reveal_strlit("tee.isvprodid");
        reveal_strlit("tee.tcb-eval-num");
        reveal_strlit("tee.tcbstatus");
        reveal_strlit("tee.advisory-ids");
        reveal_strlit("tee.cryptokeys");
        reveal_strlit("tee.platform-instance-id");
        reveal_strlit("tee.tcb-comp-svn");
    }
    match key {
        -70 => Some("tee.vendor"),
        -71 => Some("tee.model"),
        -72 => Some("tee.tcbdate"),
        -73 => Some("tee.isvsvn"),
        -80 => Some("tee.pceid"),
        -81 => Some("tee.miscselect"),
        -82 => Some("tee.attributes"),
        -83 => Some("tee.mrtee"),
        -84 => Some("tee.mrsigner"),
        -85 => Some("tee.isvprodid"),
        -86 => Some("tee.tcb-eval-num"),
        -88 => Some("tee.tcbstatus"),
        -89 => Some("tee.advisory-ids"),
        -91 => Some("tee.cryptokeys"),
        -101 => Some("tee.platform-instance-id"),
        -125 => Some("tee.tcb-comp-svn"),
        _ => None,
    }
}

/// `"#6.<tag>(…)"`.
pub open spec fn opaque_tag_text(tag: u64) -> Seq<char> {
    "#6."@ + dec_int(tag as int) + "(…)"@
}

/// The one-line shape description of a value (for the values [`summarizable`] admits).
pub open spec fn summary_spec(v: VModel) -> Seq<char> {
    match v {
        VModel::Int(n) => dec_int(n),
        VModel::Text(t) => {
            let b = encode_utf8(t);
            if b.len() <= 48 {
                "\""@ + t + "\""@
            } else {
                "\""@ + decode_utf8(b.take(47)) + "…\" ("@ + dec_int(b.len() as int) + " chars)"@
            }
        },
        VModel::Bytes(b) => "<"@ + dec_int(b.len() as int) + "-byte bstr>"@,
        VModel::Array(a) => "array["@ + dec_int(a.len() as int) + "]"@,
        VModel::Mapping(m) => "map("@ + dec_int(m.len() as int) + " entries)"@,
        VModel::Tag(tag, inner) => if is_expression_tag(tag) {
            match from_tag_spec(v) {
                Ok(x) => display_spec(x),
                Err(_) => opaque_tag_text(tag),
            }
        } else if tag == 1001 {
            "etime(…)"@
        } else if tag == 1002 {
            "duration(…)"@
        } else if tag == 1003 {
            "period(…)"@
        } else if tag == 0 {
            match *inner {
                VModel::Text(t) => "tdate(\""@ + t + "\")"@,
                _ => "#6.0(…)"@,
            }
        } else if tag == 1 {
            match *inner {
                VModel::Int(n) => "time("@ + dec_int(n) + ")"@,
                _ => "#6.1(…)"@,
            }
        } else {
            opaque_tag_text(tag)
        },
        VModel::Bool(b) => if b {
            "true"@
        } else {
            "false"@
        },
        VModel::Null => "null"@,
        VModel::Float(_) => Seq::empty(),
    }
}

fn push_opaque_tag(s: &mut String, tag: u64)
    ensures
        final(s)@ == old(s)@ + opaque_tag_text(tag),
{
    proof {
        reveal_strlit("#6.");
        reveal_strlit("(…)");
    }
    push_str(s, "#6.");
    push_u64(s, tag);
    push_str(s, "(…)");
}

/// Render a value as a short, human-readable shape description for one-line diagnostic
/// output: operator-shaped tags as decoded expressions (`"ge 5"`), RFC 9581 time tags by
/// name, long texts cut after 47 bytes, other tags as `"#6.<tag>(…)"`.
pub fn value_summary(v: &Value) -> (s: String)
    requires
        summarizable(v@),
    ensures
        s@ == summary_spec(v@),
{
    match v {
        Value::Integer(n) => {
            let mut s = String::new();
            assert(s@ == Seq::<char>::empty());
            push_i128(&mut s, *n);
            assert(s@ == summary_spec(v@));
            s
        },
        Value::Text(t) => {
            proof {
                reveal_strlit("\"");
                reveal_strlit("…\" (");
                reveal_strlit(" chars)");
            }
            let len = t.as_str().as_bytes().len();
            assert(len == encode_utf8(t@).len());
            assert(v@ == VModel::Text(t@));
            if len <= 48 {
                let mut s = String::from_str("\"");
                push_str(&mut s, t.as_str());
                push_str(&mut s, "\"");
                assert(s@ == summary_spec(v@));
                s
            } else {
                let (head, _) = t.as_str().split_at(47);
                proof {
                    encode_utf8_decode_utf8(head@);
                    assert(encode_utf8(head@) =~= encode_utf8(t@).take(47));
                }
                let mut s = String::from_str("\"");
                push_str(&mut s, head);
                push_str(&mut s, "…\" (");
                push_usize(&mut s, len);
                push_str(&mut s, " chars)");
                assert(s@ == summary_spec(v@));
                s
            }
        },
        Value::Bytes(b) => {
            proof {
                reveal_strlit("<");
                reveal_strlit("-byte bstr>");
            }
            let mut s = String::from_str("<");
            push_usize(&mut s, b.len());
            push_str(&mut s, "-byte bstr>");
            s
        },
        Value::Array(a) => {
            proof {
                lemma_model_list(a@);
                reveal_strlit("array[");
                reveal_strlit("]");
            }
            let mut s = String::from_str("array[");
            push_usize(&mut s, a.len());
            push_str(&mut s, "]");
            s
        },
        Value::Mapping(m) => {
            proof {
                lemma_model_pairs(m@);
                reveal_strlit("map(");
                reveal_strlit(" entries)");
            }
            let mut s = String::from_str("map(");
            push_usize(&mut s, m.len());
            push_str(&mut s, " entries)");
            s
        },
        Value::Tag(tag, inner) => {
            assert(v@ == VModel::Tag(*tag, Box::new(inner@)));
            if Expression::is_intel_expression_tag(*tag) {
                match Expression::from_tag(v) {
                    Ok(expr) => {
                        let s = display_expression(&expr);
                        assert(s@ == summary_spec(v@));
                        s
                    },
                    Err(_) => {
                        let mut s = String::new();
                        assert(s@ == Seq::<char>::empty());
                        push_opaque_tag(&mut s, *tag);
                        s
                    },
                }
            } else if *tag == 1001 {
                proof {
                    reveal_strlit("etime(…)");
                }
                String::from_str("etime(…)")
            } else if *tag == 1002 {
                proof {
                    reveal_strlit("duration(…)");
                }
                String::from_str("duration(…)")
            } else if *tag == 1003 {
                proof {
                    reveal_strlit("period(…)");
                }
                String::from_str("period(…)")
            } else if *tag == 0 {
                proof {
                    reveal_strlit("tdate(\"");
                    reveal_strlit("\")");
                    reveal_strlit("#6.0(…)");
                }
                match &**inner {
                    Value::Text(t) => {
                        let mut s = String::from_str("tdate(\"");
                        push_str(&mut s, t.as_str());
                        push_str(&mut s, "\")");
                        s
                    },
                    _ => String::from_str("#6.0(…)"),
                }
            } else if *tag == 1 {
                proof {
                    reveal_strlit("time(");
                    reveal_strlit(")");
                    reveal_strlit("#6.1(…)");
                }
                match &**inner {
                    Value::Integer(n) => {
                        let mut s = String::from_str("time(");
                        push_i128(&mut s, *n);
                        push_str(&mut s, ")");
                        s
                    },
                    _ => String::from_str("#6.1(…)"),
                }
            } else {
                let mut s = String::new();
                assert(s@ == Seq::<char>::empty());
                push_opaque_tag(&mut s, *tag);
                s
            }
        },
        Value::Bool(b) => {
            proof {
                reveal_strlit("true");
                reveal_strlit("false");
            }
            if *b {
                String::from_str("true")
            } else {
                String::from_str("false")
            }
        },
        Value::Null => {
            proof {
                reveal_strlit("null");
            }
            String::from_str("null")
        },
        Value::Float(_) => String::new(),
    }
}

/// The diagnostic label of an Intel extension entry: `"<name> = <summary>"`.
pub open spec fn diagnose_spec(key: i64, v: VModel) -> Option<Seq<char>> {
    match mval_name_spec(key) {
        Some(name) => Some(name + " = "@ + summary_spec(v)),
        None => None,
    }
}

/// Intel CoRIM profile implementation.
#[derive(Debug)]
pub struct IntelProfile {
    id: ProfileChoice,
}

impl IntelProfile {
    /// Create a new Intel profile instance with the OID identifier.
    pub fn new() -> (p: Self)
        ensures
            p.id_spec() == ProfileChoiceModel::Oid(intel_oid()),
    {
        IntelProfile { id: ProfileChoice::Oid(intel_profile_oid_der()) }
    }

    /// The diagnostic label of an Intel extension entry, `None` for keys the profile does
    /// not define.
    pub fn diagnose_entry(key: i64, value: &Value) -> (r: Option<String>)
        requires
            summarizable(value@),
        ensures
            r matches Some(s) ==> diagnose_spec(key, value@) == Some(s@),
            r is None ==> diagnose_spec(key, value@) is None,
    {
        let name = match intel_mval_name(key) {
            Some(n) => n,
            None => return None,
        };
        proof {
            reveal_strlit(" = ");
        }
        let mut s = concat(name, " = ");
        let summary = value_summary(value);
        push_str(&mut s, summary.as_str());
        Some(s)
    }
}

impl Default for IntelProfile {
    /// The same as [`IntelProfile::new`].
    fn default() -> (p: Self)
        ensures
            p.id_spec() == ProfileChoiceModel::Oid(intel_oid()),
    {
        IntelProfile::new()
    }
}

impl Profile for IntelProfile {
    closed spec fn id_spec(&self) -> ProfileChoiceModel {
        self.id@
    }

    fn identifier(&self) -> (r: &ProfileChoice) {
        &self.id
    }

    /// The label of [`IntelProfile::diagnose_entry`]; `None` (the generic rendering) for a
    /// value whose rendering is not computed here (see [`summarizable`]).
    fn diagnose_mval_entry(&self, key: i64, value: &Value) -> (r: Option<String>)
        ensures
            !summarizable(value@) ==> r is None,
            summarizable(value@) ==> (r matches Some(s) ==> diagnose_spec(key, value@) == Some(s@)),
            summarizable(value@) ==> (r is None ==> diagnose_spec(key, value@) is None),
    {
        if !is_summarizable(value) {
            return None;
        }
        IntelProfile::diagnose_entry(key, value)
    }
}

// ---------------------------------------------------------------------------
// Appraisal of the Intel extension entries of a measurement.
// ---------------------------------------------------------------------------

/// The value under `key` in an extension-entry list (the first such entry).
pub open spec fn entry_lookup(entries: Seq<(i64, VModel)>, key: i64) -> Option<VModel>
    decreases entries.len(),
{
    if entries.len() == 0 {
        None
    } else if entries[0].0 == key {
        Some(entries[0].1)
    } else {
        entry_lookup(entries.drop_first(), key)
    }
}

/// The models of extension entries.
pub open spec fn entries_model(s: Seq<(i64, Value)>) -> Seq<(i64, VModel)> {
    s.map_values(|e: (i64, Value)| (e.0, e.1@))
}

/// Whether an entry of the reference is Intel-keyed and has no evidence entry.
pub open spec fn missing_evidence(r: Seq<(i64, VModel)>, e: Seq<(i64, VModel)>) -> bool {
    exists|i: int|
        0 <= i < r.len() && mval_name_spec(#[trigger] r[i].0) is Some && entry_lookup(e, r[i].0) is None
}

/// The verdicts of the Intel-keyed reference entries, in order, when every one of them has
/// an evidence entry.
pub open spec fn intel_verdicts(r: Seq<(i64, VModel)>, e: Seq<(i64, VModel)>) -> Seq<Verdict>
    decreases r.len(),
{
    if r.len() == 0 {
        Seq::empty()
    } else {
        let rest = intel_verdicts(r.drop_last(), e);
        let (k, v) = r.last();
        if mval_name_spec(k) is Some {
            rest.push(verdict_of(key_pass(k, v, entry_lookup(e, k)->0)))
        } else {
            rest
        }
    }
}

/// The Intel extension verdict of a reference measurement against evidence:
/// `Some(false)` if an Intel-keyed reference entry has no evidence entry or fails,
/// `Some(true)` if there is at least one and all pass, `None` if there are none.
pub open spec fn extension_verdict_spec(r: Seq<(i64, VModel)>, e: Seq<(i64, VModel)>) -> Option<bool> {
    if missing_evidence(r, e) {
        Some(false)
    } else {
        combine_spec(intel_verdicts(r, e))
    }
}

pub(crate) fn lookup_entry<'a>(entries: &'a Vec<(i64, Value)>, key: i64) -> (r: Option<&'a Value>)
    ensures
        r matches Some(v) ==> entry_lookup(entries_model(entries@), key) == Some(v@),
        r is None ==> entry_lookup(entries_model(entries@), key) is None,
{
    let ghost em = entries_model(entries@);
    let mut i: usize = 0;
    proof {
        assert(em.skip(0) =~= em);
    }
    while i < entries.len()
        invariant
            i <= entries@.len(),
            em == entries_model(entries@),
            em.len() == entries@.len(),
            entry_lookup(em, key) == entry_lookup(em.skip(i as int), key),
        decreases entries@.len() - i,
    {
        proof {
            assert(em.skip(i as int)[0] == em[i as int]);
            assert(em.skip(i as int).drop_first() =~= em.skip(i + 1));
        }
        if entries[i].0 == key {
            return Some(&entries[i].1);
        }
        i += 1;
    }
    proof {
        assert(em.skip(i as int).len() == 0);
    }
    None
}

impl IntelProfile {
    /// Appraise the Intel-keyed extension entries of a reference measurement against the
    /// evidence's entries. `Some(true)` certifies the Intel constraints only; the core
    /// fields of the measurement are compared separately.
    pub fn extension_verdict(
        reference: &Vec<(i64, Value)>,
        evidence: &Vec<(i64, Value)>,
        ctx: &MatchContext,
    ) -> (r: Option<bool>)
        ensures
            r == extension_verdict_spec(entries_model(reference@), entries_model(evidence@)),
    {
        let ghost rm = entries_model(reference@);
        let ghost em = entries_model(evidence@);
        let mut verdicts: Vec<Verdict> = Vec::new();
        let mut i: usize = 0;
        while i < reference.len()
            invariant
                i <= reference@.len(),
                rm == entries_model(reference@),
                em == entries_model(evidence@),
                rm.len() == reference@.len(),
                !missing_evidence(rm.take(i as int), em),
                verdicts@ == intel_verdicts(rm.take(i as int), em),
            decreases reference@.len() - i,
        {
            let key = reference[i].0;
            let ref_val = &reference[i].1;
            proof {
                assert(rm.take(i + 1).drop_last() =~= rm.take(i as int));
                assert(rm.take(i + 1).last() == rm[i as int]);
                assert(rm[i as int] == (key, ref_val@));
            }
            if intel_mval_name(key).is_none() {
                proof {
                    assert(!missing_evidence(rm.take(i + 1), em)) by {
                        if missing_evidence(rm.take(i + 1), em) {
                            let k = choose|k: int| 0 <= k < rm.take(i + 1).len() && mval_name_spec(#[trigger] rm.take(i + 1)[k].0) is Some
                                && entry_lookup(em, rm.take(i + 1)[k].0) is None;
                            assert(rm.take(i as int)[k] == rm.take(i + 1)[k]);
                        }
                    }
                }
                i += 1;
                continue;
            }
            match lookup_entry(evidence, key) {
                Some(ev_val) => {
                    let v = evaluate_one_key(key, ref_val, ev_val, ctx);
                    verdicts.push(v);
                    proof {
                        assert(!missing_evidence(rm.take(i + 1), em)) by {
                            if missing_evidence(rm.take(i + 1), em) {
                                let k = choose|k: int| 0 <= k < rm.take(i + 1).len() && mval_name_spec(#[trigger] rm.take(i + 1)[k].0) is Some
                                    && entry_lookup(em, rm.take(i + 1)[k].0) is None;
                                assert(rm.take(i as int)[k] == rm.take(i + 1)[k]);
                            }
                        }
                    }
                },
                None => {
                    proof {
                        assert(missing_evidence(rm, em)) by {
                            assert(mval_name_spec(rm[i as int].0) is Some);
                        }
                    }
                    return Some(false);
                },
            }
            i += 1;
        }
        proof {
            assert(rm.take(i as int) =~= rm);
        }
        combine(verdicts.as_slice())
    }
}

proof fn lemma_intel_verdicts_fail(r: Seq<(i64, VModel)>, e: Seq<(i64, VModel)>, j: int)
    requires
        0 <= j < r.len(),
        mval_name_spec(r[j].0) is Some,
        entry_lookup(e, r[j].0) is Some,
        !key_pass(r[j].0, r[j].1, entry_lookup(e, r[j].0)->0),
    ensures
        exists|k: int| 0 <= k < intel_verdicts(r, e).len() && intel_verdicts(r, e)[k] == Verdict::Fail,
    decreases r.len(),
{
    let t = r.drop_last();
    if j == r.len() - 1 {
        let v = intel_verdicts(r, e);
        assert(r.last() == r[j]);
        assert(v == intel_verdicts(t, e).push(Verdict::Fail));
        assert(v[v.len() - 1] == Verdict::Fail);
    } else {
        assert(t[j] == r[j]);
        lemma_intel_verdicts_fail(t, e, j);
        let k = choose|k: int| 0 <= k < intel_verdicts(t, e).len() && intel_verdicts(t, e)[k] == Verdict::Fail;
        let (kk, vv) = r.last();
        if mval_name_spec(kk) is Some {
            assert(intel_verdicts(r, e) == intel_verdicts(t, e).push(verdict_of(key_pass(kk, vv, entry_lookup(e, kk)->0))));
            assert(intel_verdicts(r, e)[k] == intel_verdicts(t, e)[k]);
        } else {
            assert(intel_verdicts(r, e) == intel_verdicts(t, e));
        }
        assert(0 <= k < intel_verdicts(r, e).len() && intel_verdicts(r, e)[k] == Verdict::Fail);
    }
}

/// Intel appraisal fails whenever an Intel-keyed reference entry fails against its
/// evidence, wherever that entry stands among the reference entries.
pub proof fn lemma_extension_verdict_any_fail(r: Seq<(i64, VModel)>, e: Seq<(i64, VModel)>, j: int)
    requires
        0 <= j < r.len(),
        mval_name_spec(r[j].0) is Some,
        entry_lookup(e, r[j].0) is Some,
        !key_pass(r[j].0, r[j].1, entry_lookup(e, r[j].0)->0),
    ensures
        extension_verdict_spec(r, e) == Some(false),
{
    if !missing_evidence(r, e) {
        lemma_intel_verdicts_fail(r, e, j);
        let k = choose|k: int| 0 <= k < intel_verdicts(r, e).len() && intel_verdicts(r, e)[k] == Verdict::Fail;
        self::eval::lemma_combine_any_fail(intel_verdicts(r, e), k);
    }
}

/// An Intel-keyed reference entry without an evidence entry makes the appraisal fail.
pub proof fn lemma_extension_verdict_missing(r: Seq<(i64, VModel)>, e: Seq<(i64, VModel)>, j: int)
    requires
        0 <= j < r.len(),
        mval_name_spec(r[j].0) is Some,
        entry_lookup(e, r[j].0) is None,
    ensures
        extension_verdict_spec(r, e) == Some(false),
{
    assert(missing_evidence(r, e));
}

} // verus!
