//! CWT claims (RFC 8392 / RFC 9597) carried in the protected header of a signed CoRIM.
use vstd::prelude::*;
use crate::binary64::{binary64_to_i64, truncate_spec};
use crate::cbor::{Value, VModel, model, model_pairs, lemma_model_pairs, clone_value};
use crate::intmap::{IntMap, insert_spec, keyed_model};

verus! {

/// CWT claim `iss` (key 1).
pub const CWT_CLAIM_ISS: i64 = 1;
/// CWT claim `sub` (key 2).
pub const CWT_CLAIM_SUB: i64 = 2;
/// CWT claim `exp` (key 4).
pub const CWT_CLAIM_EXP: i64 = 4;
/// CWT claim `nbf` (key 5).
pub const CWT_CLAIM_NBF: i64 = 5;

/// CWT claims: `{ 1: iss, ? 2: sub, ? 4: exp, ? 5: nbf, * int => any }`.
#[derive(Debug, Clone, PartialEq)]
pub struct CwtClaims {
    /// `iss` (key 1): the issuer, identifying the CoRIM signer.
    pub iss: String,
    /// `sub` (key 2): the subject.
    pub sub: Option<String>,
    /// `exp` (key 4): expiration time, epoch seconds.
    pub exp: Option<i64>,
    /// `nbf` (key 5): not-before time, epoch seconds.
    pub nbf: Option<i64>,
    /// Further claims, by integer key.
    pub extra: IntMap,
}

/// Mathematical form of [`CwtClaims`].
pub struct CwtModel {
    pub iss: Seq<char>,
    pub sub: Option<Seq<char>>,
    pub exp: Option<int>,
    pub nbf: Option<int>,
    pub extra: Seq<(i64, VModel)>,
}

pub open spec fn opt_text(o: Option<String>) -> Option<Seq<char>> {
    match o {
        Some(s) => Some(s@),
        None => None,
    }
}

pub open spec fn opt_i64(o: Option<i64>) -> Option<int> {
    match o {
        Some(x) => Some(x as int),
        None => None,
    }
}

impl View for CwtClaims {
    type V = CwtModel;

    open spec fn view(&self) -> CwtModel {
        CwtModel {
            iss: self.iss@,
            sub: opt_text(self.sub),
            exp: opt_i64(self.exp),
            nbf: opt_i64(self.nbf),
            extra: self.extra.entries_spec(),
        }
    }
}

impl CwtClaims {
    /// Claims with just the issuer.
    pub fn new(iss: &str) -> (c: Self)
        ensures
            c@.iss == iss@,
            c@.sub is None,
            c@.exp is None,
            c@.nbf is None,
            c@.extra.len() == 0,
            c.extra.wf(),
    {
        CwtClaims { iss: String::from_str(iss), sub: None, exp: None, nbf: None, extra: IntMap::new() }
    }

    /// Set the subject.
    pub fn with_sub(self, sub: &str) -> (c: Self)
        ensures
            c@ == (CwtModel { sub: Some(sub@), ..self@ }),
            c.extra.wf() == self.extra.wf(),
    {
        CwtClaims { sub: Some(String::from_str(sub)), ..self }
    }

    /// Set the expiration time.
    pub fn with_exp(self, exp: i64) -> (c: Self)
        ensures
            c@ == (CwtModel { exp: Some(exp as int), ..self@ }),
            c.extra.wf() == self.extra.wf(),
    {
        CwtClaims { exp: Some(exp), ..self }
    }

    /// Set the not-before time.
    pub fn with_nbf(self, nbf: i64) -> (c: Self)
        ensures
            c@ == (CwtModel { nbf: Some(nbf as int), ..self@ }),
            c.extra.wf() == self.extra.wf(),
    {
        CwtClaims { nbf: Some(nbf), ..self }
    }

    /// A deep copy.
    pub fn copy(&self) -> (c: Self)
        ensures
            c@ == self@,
            c.extra.wf() == self.extra.wf(),
    {
        CwtClaims {
            iss: self.iss.clone(),
            sub: match &self.sub {
                Some(s) => Some(s.clone()),
                None => None,
            },
            exp: self.exp,
            nbf: self.nbf,
            extra: self.extra.clone_map(),
        }
    }
}

/// Epoch seconds of a time claim: an integer in 64 bits, or a binary64 value truncated
/// toward zero (NaN, infinities and values outside `[-2^63, 2^63]` rejected).
pub open spec fn epoch_spec(v: VModel) -> Result<int, Seq<char>> {
    match v {
        VModel::Int(n) => if i64::MIN <= n <= i64::MAX {
            Ok(n)
        } else {
            Err("epoch time out of i64 range"@)
        },
        VModel::Float(f) => match truncate_spec(f) {
            Some(x) => Ok(x),
            None => Err("epoch float out of i64 range"@),
        },
        _ => Err("epoch time must be int or float"@),
    }
}

/// Convert an integer or float item to epoch seconds.
pub fn value_to_epoch(v: &Value) -> (r: Result<i64, String>)
    ensures
        r matches Ok(x) ==> epoch_spec(v@) == Ok::<int, Seq<char>>(x as int),
        r matches Err(m) ==> epoch_spec(v@) == Err::<int, Seq<char>>(m@),
{
    proof {
        reveal_strlit("epoch time out of i64 range");
        reveal_strlit("epoch float out of i64 range");
        reveal_strlit("epoch time must be int or float");
    }
    match v {
        Value::Integer(n) => {
            if *n >= -0x8000_0000_0000_0000i128 && *n <= 0x7fff_ffff_ffff_ffffi128 {
                Ok(*n as i64)
            } else {
                Err(String::from_str("epoch time out of i64 range"))
            }
        },
        Value::Float(f) => match binary64_to_i64(*f) {
            Some(x) => Ok(x),
            None => Err(String::from_str("epoch float out of i64 range")),
        },
        _ => Err(String::from_str("epoch time must be int or float")),
    }
}

/// Claims read so far from a claims map.
pub struct CwtState {
    pub iss: Option<Seq<char>>,
    pub sub: Option<Seq<char>>,
    pub exp: Option<int>,
    pub nbf: Option<int>,
    pub extra: Seq<(i64, VModel)>,
}

pub open spec fn cwt_init() -> CwtState {
    CwtState { iss: None, sub: None, exp: None, nbf: None, extra: Seq::empty() }
}

/// One entry of a claims map: non-integer keys are skipped; later entries replace earlier
/// ones.
pub open spec fn cwt_step(s: CwtState, k: VModel, v: VModel) -> Result<CwtState, Seq<char>> {
    match k {
        VModel::Int(n) => if !(i64::MIN <= n <= i64::MAX) {
            Err("cwt key out of range"@)
        } else if n == CWT_CLAIM_ISS {
            match v {
                VModel::Text(t) => Ok(CwtState { iss: Some(t), ..s }),
                _ => Err("iss must be tstr"@),
            }
        } else if n == CWT_CLAIM_SUB {
            match v {
                VModel::Text(t) => Ok(CwtState { sub: Some(t), ..s }),
                _ => Err("sub must be tstr"@),
            }
        } else if n == CWT_CLAIM_EXP {
            match epoch_spec(v) {
                Ok(e) => Ok(CwtState { exp: Some(e), ..s }),
                Err(m) => Err(m),
            }
        } else if n == CWT_CLAIM_NBF {
            match epoch_spec(v) {
                Ok(e) => Ok(CwtState { nbf: Some(e), ..s }),
                Err(m) => Err(m),
            }
        } else {
            Ok(CwtState { extra: insert_spec(s.extra, n as i64, v), ..s })
        },
        _ => Ok(s),
    }
}

/// The claims read from the first entries of a map.
pub open spec fn cwt_fold(m: Seq<(VModel, VModel)>) -> Result<CwtState, Seq<char>>
    decreases m.len(),
{
    if m.len() == 0 {
        Ok(cwt_init())
    } else {
        match cwt_fold(m.drop_last()) {
            Ok(s) => cwt_step(s, m.last().0, m.last().1),
            Err(e) => Err(e),
        }
    }
}

/// Once reading fails, it fails with the same message on any longer prefix.
pub proof fn lemma_cwt_fold_err(m: Seq<(VModel, VModel)>, i: int)
    requires
        0 <= i <= m.len(),
        cwt_fold(m.take(i)) is Err,
    ensures
        cwt_fold(m) == cwt_fold(m.take(i)),
    decreases m.len() - i,
{
    if i < m.len() {
        assert(m.take(i + 1).drop_last() =~= m.take(i));
        lemma_cwt_fold_err(m, i + 1);
    } else {
        assert(m.take(i) =~= m);
    }
}

/// The claims a data item denotes, or why it does not denote claims.
pub open spec fn cwt_spec(v: VModel) -> Result<CwtModel, Seq<char>> {
    match v {
        VModel::Mapping(m) => match cwt_fold(m) {
            Err(e) => Err(e),
            Ok(s) => match s.iss {
                None => Err("cwt-claims: missing iss (key 1)"@),
                Some(iss) => Ok(CwtModel { iss, sub: s.sub, exp: s.exp, nbf: s.nbf, extra: s.extra }),
            },
        },
        _ => Err("cwt-claims must be a map"@),
    }
}

/// The item claims are written as: `iss`, `sub`, `exp`, `nbf`, then the further claims in
/// key order.
pub open spec fn cwt_value(c: CwtModel) -> VModel {
    VModel::Mapping(cwt_entries(c))
}

pub open spec fn extra_entries(e: Seq<(i64, VModel)>) -> Seq<(VModel, VModel)> {
    e.map_values(|x: (i64, VModel)| (VModel::Int(x.0 as int), x.1))
}

pub open spec fn cwt_entries(c: CwtModel) -> Seq<(VModel, VModel)> {
    seq![(VModel::Int(1), VModel::Text(c.iss))] + (match c.sub {
        Some(s) => seq![(VModel::Int(2), VModel::Text(s))],
        None => Seq::empty(),
    }) + (match c.exp {
        Some(x) => seq![(VModel::Int(4), VModel::Int(x))],
        None => Seq::empty(),
    }) + (match c.nbf {
        Some(x) => seq![(VModel::Int(5), VModel::Int(x))],
        None => Seq::empty(),
    }) + extra_entries(c.extra)
}

/// Append the entries of an integer-keyed map to a map under construction.
pub fn push_extra(entries: &mut Vec<(Value, Value)>, extra: &IntMap)
    ensures
        model_pairs(final(entries)@) == model_pairs(old(entries)@) + extra_entries(extra.entries_spec()),
{
    let es = extra.entries();
    let ghost start = model_pairs(entries@);
    let mut i: usize = 0;
    proof {
        lemma_model_pairs(entries@);
        assert(extra_entries(keyed_model(es@)).take(0) =~= Seq::<(VModel, VModel)>::empty());
        assert(start + Seq::<(VModel, VModel)>::empty() =~= start);
    }
    while i < es.len()
        invariant
            i <= es@.len(),
            model_pairs(entries@) == start + extra_entries(keyed_model(es@)).take(i as int),
            keyed_model(es@) == extra.entries_spec(),
        decreases es@.len() - i,
    {
        let v = clone_value(&es[i].1);
        let ghost prev = entries@;
        entries.push((Value::Integer(es[i].0 as i128), v));
        proof {
            crate::cbor::lemma_model_pairs_push(prev, (Value::Integer(es@[i as int].0 as i128), v));
            assert(extra_entries(keyed_model(es@)).take(i + 1) =~= extra_entries(keyed_model(es@)).take(i as int).push(
                (VModel::Int(es@[i as int].0 as int), es@[i as int].1@),
            ));
            assert(model_pairs(entries@) =~= start + extra_entries(keyed_model(es@)).take(i + 1));
        }
        i += 1;
    }
    proof {
        assert(extra_entries(keyed_model(es@)).take(i as int) =~= extra_entries(keyed_model(es@)));
    }
}

impl CwtClaims {
    /// Write the claims as a map.
    pub fn to_value(&self) -> (r: Value)
        ensures
            r@ == cwt_value(self@),
    {
        let mut entries: Vec<(Value, Value)> = Vec::new();
        entries.push((Value::Integer(1), Value::Text(self.iss.clone())));
        if let Some(s) = &self.sub {
            entries.push((Value::Integer(2), Value::Text(s.clone())));
        }
        if let Some(x) = self.exp {
            entries.push((Value::Integer(4), Value::Integer(x as i128)));
        }
        if let Some(x) = self.nbf {
            entries.push((Value::Integer(5), Value::Integer(x as i128)));
        }
        proof {
            lemma_model_pairs(entries@);
            let head = seq![(VModel::Int(1), VModel::Text(self.iss@))] + (match self@.sub {
                Some(s) => seq![(VModel::Int(2), VModel::Text(s))],
                None => Seq::empty(),
            }) + (match self@.exp {
                Some(x) => seq![(VModel::Int(4), VModel::Int(x))],
                None => Seq::empty(),
            }) + (match self@.nbf {
                Some(x) => seq![(VModel::Int(5), VModel::Int(x))],
                None => Seq::empty(),
            });
            assert(model_pairs(entries@) =~= head);
        }
        push_extra(&mut entries, &self.extra);
        Value::Mapping(entries)
    }

    /// Read claims from a map.
    pub fn from_value(v: &Value) -> (r: Result<CwtClaims, String>)
        ensures
            r matches Ok(c) ==> cwt_spec(v@) == Ok::<CwtModel, Seq<char>>(c@) && c.extra.wf(),
            r matches Err(m) ==> cwt_spec(v@) == Err::<CwtModel, Seq<char>>(m@),
    {
        proof {
            reveal_strlit("cwt key out of range");
            reveal_strlit("iss must be tstr");
            reveal_strlit("sub must be tstr");
            reveal_strlit("cwt-claims: missing iss (key 1)");
            reveal_strlit("cwt-claims must be a map");
        }
        let map = match v {
            Value::Mapping(m) => m,
            _ => return Err(String::from_str("cwt-claims must be a map")),
        };
        proof {
            lemma_model_pairs(map@);
        }
        let ghost ms = model_pairs(map@);
        let mut iss: Option<String> = None;
        let mut sub: Option<String> = None;
        let mut exp: Option<i64> = None;
        let mut nbf: Option<i64> = None;
        let mut extra = IntMap::new();
        let mut i: usize = 0;
        proof {
            assert(ms.take(0) =~= Seq::<(VModel, VModel)>::empty());
            assert(extra.entries_spec() =~= Seq::<(i64, VModel)>::empty());
        }
        while i < map.len()
            invariant
                i <= map@.len(),
                ms == model_pairs(map@),
                ms.len() == map@.len(),
                v@ == VModel::Mapping(ms),
                forall|j: int| 0 <= j < map@.len() ==> #[trigger] ms[j] == (model(map@[j].0), model(map@[j].1)),
                extra.wf(),
                cwt_fold(ms.take(i as int)) == Ok::<CwtState, Seq<char>>(
                    CwtState {
                        iss: opt_text(iss),
                        sub: opt_text(sub),
                        exp: opt_i64(exp),
                        nbf: opt_i64(nbf),
                        extra: extra.entries_spec(),
                    },
                ),
            decreases map@.len() - i,
        {
            proof {
                assert(ms.take(i + 1).drop_last() =~= ms.take(i as int));
                assert(ms.take(i + 1).last() == ms[i as int]);
            }
            let k = &map[i].0;
            let val = &map[i].1;
            let key: i64 = match k {
                Value::Integer(n) => {
                    if *n >= -0x8000_0000_0000_0000i128 && *n <= 0x7fff_ffff_ffff_ffffi128 {
                        *n as i64
                    } else {
                        { proof { lemma_cwt_fold_err(ms, i + 1); } return Err(String::from_str("cwt key out of range")); }
                    }
                },
                _ => {
                    i += 1;
                    continue;
                },
            };
            if key == CWT_CLAIM_ISS {
                match val {
                    Value::Text(t) => {
                        iss = Some(t.clone());
                    },
                    _ => { proof { lemma_cwt_fold_err(ms, i + 1); } return Err(String::from_str("iss must be tstr")); },
                }
            } else if key == CWT_CLAIM_SUB {
                match val {
                    Value::Text(t) => {
                        sub = Some(t.clone());
                    },
                    _ => { proof { lemma_cwt_fold_err(ms, i + 1); } return Err(String::from_str("sub must be tstr")); },
                }
            } else if key == CWT_CLAIM_EXP {
                match value_to_epoch(val) {
                    Ok(e) => {
                        exp = Some(e);
                    },
                    Err(m) => {
                        proof {
                            lemma_cwt_fold_err(ms, i + 1);
                        }
                        return Err(m);
                    },
                }
            } else if key == CWT_CLAIM_NBF {
                match value_to_epoch(val) {
                    Ok(e) => {
                        nbf = Some(e);
                    },
                    Err(m) => {
                        proof {
                            lemma_cwt_fold_err(ms, i + 1);
                        }
                        return Err(m);
                    },
                }
            } else {
                extra.insert(key, clone_value(val));
            }
            i += 1;
        }
        proof {
            assert(ms.take(i as int) =~= ms);
        }
        match iss {
            Some(iss) => Ok(CwtClaims { iss, sub, exp, nbf, extra }),
            None => Err(String::from_str("cwt-claims: missing iss (key 1)")),
        }
    }
}


/// The claim keys with a meaning of their own: `iss`, `sub`, `exp`, `nbf`.
pub open spec fn cwt_reserved(k: i64) -> bool {
    k == CWT_CLAIM_ISS || k == CWT_CLAIM_SUB || k == CWT_CLAIM_EXP || k == CWT_CLAIM_NBF
}

proof fn lemma_cwt_fold_extra(head: Seq<(VModel, VModel)>, s0: CwtState, x: Seq<(i64, VModel)>, n: int)
    requires
        cwt_fold(head) == Ok::<CwtState, Seq<char>>(s0),
        s0.extra.len() == 0,
        crate::intmap::ascending(x),
        forall|j: int| 0 <= j < x.len() ==> !cwt_reserved(#[trigger] x[j].0),
        0 <= n <= x.len(),
    ensures
        cwt_fold(head + extra_entries(x.take(n))) == Ok::<CwtState, Seq<char>>(CwtState { extra: x.take(n), ..s0 }),
    decreases n,
{
    if n == 0 {
        assert(head + extra_entries(x.take(0)) =~= head);
        assert(x.take(0) =~= s0.extra);
    } else {
        lemma_cwt_fold_extra(head, s0, x, n - 1);
        let pre = head + extra_entries(x.take(n - 1));
        let e = (VModel::Int(x[n - 1].0 as int), x[n - 1].1);
        assert(head + extra_entries(x.take(n)) =~= pre.push(e));
        assert(pre.push(e).drop_last() =~= pre);
        assert(!cwt_reserved(x[n - 1].0));
        let t = x.take(n - 1);
        assert(crate::intmap::ascending(t));
        assert forall|j: int| 0 <= j < t.len() implies #[trigger] t[j].0 < x[n - 1].0 by {
            assert(t[j] == x[j]);
        }
        crate::intmap::lemma_insert_last(t, x[n - 1].0, x[n - 1].1);
        assert(t.push((x[n - 1].0, x[n - 1].1)) =~= x.take(n));
    }
}

/// Reading back written claims gives them back, when the further claims are in key order
/// and avoid the keys of `iss`, `sub`, `exp` and `nbf`.
pub proof fn lemma_cwt_round_trip(c: CwtClaims)
    requires
        c.extra.wf(),
        forall|j: int| 0 <= j < c@.extra.len() ==> !cwt_reserved(#[trigger] c@.extra[j].0),
    ensures
        cwt_spec(cwt_value(c@)) == Ok::<CwtModel, Seq<char>>(c@),
{
    let m = c@;
    let p1 = seq![(VModel::Int(1), VModel::Text(m.iss))];
    let p2 = match m.sub {
        Some(s) => seq![(VModel::Int(2), VModel::Text(s))],
        None => Seq::empty(),
    };
    let p3 = match m.exp {
        Some(x) => seq![(VModel::Int(4), VModel::Int(x))],
        None => Seq::empty(),
    };
    let p4 = match m.nbf {
        Some(x) => seq![(VModel::Int(5), VModel::Int(x))],
        None => Seq::empty(),
    };
    let s1 = CwtState { iss: Some(m.iss), ..cwt_init() };
    assert(p1.drop_last() =~= Seq::<(VModel, VModel)>::empty());
    assert(cwt_fold(Seq::<(VModel, VModel)>::empty()) == Ok::<CwtState, Seq<char>>(cwt_init()));
    assert(p1.last() == (VModel::Int(1), VModel::Text(m.iss)));
    assert(cwt_fold(p1) == Ok::<CwtState, Seq<char>>(s1));
    let s2 = CwtState { sub: m.sub, ..s1 };
    if p2.len() == 1 {
        assert((p1 + p2).drop_last() =~= p1);
    } else {
        assert(p1 + p2 =~= p1);
    }
    assert(cwt_fold(p1 + p2) == Ok::<CwtState, Seq<char>>(s2));
    let s3 = CwtState { exp: m.exp, ..s2 };
    if p3.len() == 1 {
        assert((p1 + p2 + p3).drop_last() =~= p1 + p2);
    } else {
        assert(p1 + p2 + p3 =~= p1 + p2);
    }
    assert(cwt_fold(p1 + p2 + p3) == Ok::<CwtState, Seq<char>>(s3));
    let s4 = CwtState { nbf: m.nbf, ..s3 };
    if p4.len() == 1 {
        assert((p1 + p2 + p3 + p4).drop_last() =~= p1 + p2 + p3);
    } else {
        assert(p1 + p2 + p3 + p4 =~= p1 + p2 + p3);
    }
    assert(cwt_fold(p1 + p2 + p3 + p4) == Ok::<CwtState, Seq<char>>(s4));
    lemma_cwt_fold_extra(p1 + p2 + p3 + p4, s4, m.extra, m.extra.len() as int);
    assert(m.extra.take(m.extra.len() as int) =~= m.extra);
    assert(cwt_entries(m) =~= p1 + p2 + p3 + p4 + extra_entries(m.extra));
}

} // verus!
