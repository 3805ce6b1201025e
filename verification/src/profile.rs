//! Profile extension framework for CoRIM.
//!
//! A CoRIM may name a profile (`corim-map.profile`, a URI or OID) that defines extra
//! `measurement-values-map` keys and their appraisal semantics. Implementations of
//! [`Profile`] describe one profile each; a [`ProfileRegistry`] holds them keyed by
//! identifier.
use vstd::prelude::*;
use vstd::utf8::*;
use crate::cbor::{Value, VModel};
use crate::profile::intel::expression::{Expression, Numeric, from_tag_spec, has_float_operand, is_expression_tag};
use crate::types::common::CborTime;
use crate::types::corim::{
    ProfileChoice, ProfileChoiceModel, choice_equal, choice_less, choice_lt, clone_choice,
    lemma_choice_lt_order,
};

pub mod azure;
pub mod cca;
pub mod intel;
pub mod psa;

verus! {

/// Per-call context threaded through profile-aware matching.
#[derive(Clone, Copy, Debug, PartialEq, Eq, Structural)]
#[non_exhaustive]
pub struct MatchContext {
    /// Verifier-current-time, as CBOR epoch seconds; `None` means "no clock available".
    pub now: Option<CborTime>,
}

impl MatchContext {
    /// Empty context: no clock.
    pub fn new() -> (c: Self)
        ensures
            c.now is None,
    {
        MatchContext { now: None }
    }

    /// Set the verifier-current-time.
    pub fn with_now(self, now: CborTime) -> (c: Self)
        ensures
            c.now == Some(now),
    {
        MatchContext { now: Some(now) }
    }

    /// A context whose clock reads `since_epoch` seconds since the Unix epoch, saturated to
    /// `i64::MAX`; `None` (a clock before the epoch) gives the empty context.
    pub fn from_clock(since_epoch: Option<u64>) -> (c: Self)
        ensures
            since_epoch is None ==> c.now is None,
            since_epoch matches Some(s) ==> c.now matches Some(t) && t.seconds == (if s
                > i64::MAX {
                i64::MAX as int
            } else {
                s as int
            }),
    {
        match since_epoch {
            Some(s) => {
                let secs: i64 = if s > 0x7fff_ffff_ffff_ffffu64 {
                    0x7fff_ffff_ffff_ffffi64
                } else {
                    s as i64
                };
                MatchContext { now: Some(CborTime::new(secs)) }
            },
            None => MatchContext::new(),
        }
    }
}

/// A CoRIM profile: its identifier, and its rendering and naming of its
/// `measurement-values-map` extension keys. Only `identifier` must be written; the other
/// methods default to "nothing to say".
pub trait Profile {
    /// The identifier, as a mathematical value.
    spec fn id_spec(&self) -> ProfileChoiceModel;

    /// The profile identifier this implementation handles; stable across calls.
    fn identifier(&self) -> (r: &ProfileChoice)
        ensures
            r@ == self.id_spec(),
    ;

    /// Render an extension key/value pair for diagnostic output, or `None` to fall back
    /// to the generic rendering.
    fn diagnose_mval_entry(&self, key: i64, value: &Value) -> Option<String> {
        None
    }

    /// Resolve a human-authored extension alias to its integer key.
    fn mval_json_alias(&self, name: &str) -> Option<i64> {
        None
    }

    /// The human-authored alias of an integer extension key.
    fn mval_json_name(&self, key: i64) -> Option<&'static str> {
        None
    }
}

/// The values whose one-line rendering is computed here: no binary64 operand is printed
/// (its decimal text is left to the caller), and a long text is cut at a character
/// boundary (after its first 47 bytes).
pub open spec fn summarizable(v: VModel) -> bool {
    match v {
        VModel::Float(_) => false,
        VModel::Text(t) => encode_utf8(t).len() <= 48 || is_char_boundary(encode_utf8(t), 47),
        VModel::Tag(t, inner) => if t == 1 {
            !(*inner is Float)
        } else if is_expression_tag(t) {
            match from_tag_spec(v) {
                Ok(x) => !has_float_operand(x),
                Err(_) => true,
            }
        } else {
            true
        },
        _ => true,
    }
}

/// Whether the one-line rendering of a value is computed here (see [`summarizable`]).
pub fn is_summarizable(v: &Value) -> (r: bool)
    ensures
        r == summarizable(v@),
{
    match v {
        Value::Float(_) => false,
        Value::Text(t) => {
            let b = t.as_str().as_bytes();
            b.len() <= 48 || t.as_str().is_char_boundary(47)
        },
        Value::Tag(t, inner) => {
            assert(v@ == VModel::Tag(*t, Box::new(inner@)));
            if *t == 1 {
                !matches!(**inner, Value::Float(_))
            } else if Expression::is_intel_expression_tag(*t) {
                match Expression::from_tag(v) {
                    Ok(e) => match e {
                        Expression::Numeric { value: Numeric::Float(_), .. } => false,
                        _ => true,
                    },
                    Err(_) => true,
                }
            } else {
                true
            }
        },
        _ => true,
    }
}

/// Owns a set of profiles keyed by identifier, in identifier order.
pub struct ProfileRegistry {
    profiles: Vec<(ProfileChoice, Box<dyn Profile>)>,
}

impl ProfileRegistry {
    /// The identifiers of the registered profiles, in order.
    pub closed spec fn ids(&self) -> Seq<ProfileChoiceModel> {
        self.profiles@.map_values(|p: (ProfileChoice, Box<dyn Profile>)| p.0@)
    }

    /// Identifiers are strictly increasing (hence distinct), and each profile is registered
    /// under its own identifier.
    pub closed spec fn wf(&self) -> bool {
        &&& forall|i: int, j: int| 0 <= i < j < self.ids().len() ==> choice_lt(self.ids()[i], self.ids()[j])
        &&& forall|i: int| 0 <= i < self.profiles@.len() ==> (#[trigger] self.profiles@[i]).1.id_spec() == self.profiles@[i].0@
    }

    /// The registered profiles, by identifier.
    pub closed spec fn profiles_map(&self) -> Map<ProfileChoiceModel, Box<dyn Profile>> {
        Map::new(
            |k: ProfileChoiceModel| self.ids().contains(k),
            |k: ProfileChoiceModel| self.profiles@[self.ids().index_of(k)].1,
        )
    }

    /// The identifiers of the map are the registered ones.
    proof fn lemma_map_dom(&self)
        ensures
            forall|k: ProfileChoiceModel| #[trigger] self.profiles_map().dom().contains(k) <==> self.ids().contains(k),
    {
        assert forall|k: ProfileChoiceModel| #[trigger] self.profiles_map().dom().contains(k) <==> self.ids().contains(k) by {
            assert(Set::new(|k: ProfileChoiceModel| self.ids().contains(k)).contains(k) == self.ids().contains(k));
        }
    }

    /// In a well-formed registry the entry at a position is the one its identifier maps to.
    proof fn lemma_entry(&self, i: int)
        requires
            self.wf(),
            0 <= i < self.profiles@.len(),
        ensures
            self.ids()[i] == self.profiles@[i].0@,
            self.profiles_map().dom().contains(self.profiles@[i].0@),
            self.profiles_map()[self.profiles@[i].0@] == self.profiles@[i].1,
    {
        let id = self.profiles@[i].0@;
        assert(self.ids()[i] == id);
        assert(self.ids().contains(id));
        let k = self.ids().index_of(id);
        lemma_choice_lt_order(id, id, id);
        if k < i {
            assert(choice_lt(self.ids()[k], self.ids()[i]));
        } else if k > i {
            assert(choice_lt(self.ids()[i], self.ids()[k]));
        }
        assert(k == i);
    }

    /// Create an empty registry.
    pub fn new() -> (r: Self)
        ensures
            r.wf(),
            r.ids().len() == 0,
    {
        let r = ProfileRegistry { profiles: Vec::new() };
        assert(r.ids() =~= Seq::empty());
        r
    }

    /// Number of registered profiles.
    pub fn len(&self) -> (n: usize)
        ensures
            n == self.ids().len(),
    {
        self.profiles.len()
    }

    /// Whether no profile is registered.
    pub fn is_empty(&self) -> (b: bool)
        ensures
            b == (self.ids().len() == 0),
    {
        self.profiles.len() == 0
    }

    /// Register a profile under its identifier. A profile registered under the same
    /// identifier is replaced and returned.
    pub fn register(&mut self, profile: Box<dyn Profile>) -> (old_profile: Option<Box<dyn Profile>>)
        requires
            old(self).wf(),
        ensures
            final(self).wf(),
            final(self).ids().to_set() == old(self).ids().to_set().insert(profile.id_spec()),
            old_profile is Some <==> old(self).ids().contains(profile.id_spec()),
            old_profile matches Some(q) ==> q == old(self).profiles_map()[profile.id_spec()],
            final(self).ids().len() == old(self).ids().len() + (if old(self).ids().contains(profile.id_spec()) {
                0int
            } else {
                1int
            }),
            forall|k: ProfileChoiceModel| #[trigger] final(self).profiles_map().dom().contains(k) <==> (old(self).profiles_map().dom().contains(k) || k == profile.id_spec()),
            final(self).profiles_map()[profile.id_spec()] == profile,
            forall|k: ProfileChoiceModel| k != profile.id_spec() && old(self).profiles_map().dom().contains(k) ==> #[trigger] final(self).profiles_map()[k] == old(self).profiles_map()[k],
    {
        let id = clone_choice(profile.identifier());
        let ghost before = self.ids();
        let mut i: usize = 0;
        loop
            invariant
                self.wf(),
                self == old(self),
                before == self.ids(),
                i <= self.ids().len(),
                self.ids().len() == self.profiles@.len(),
                id@ == profile.id_spec(),
                forall|j: int| 0 <= j < i ==> choice_lt(#[trigger] self.ids()[j], id@),
            ensures
                i <= self.ids().len(),
                forall|j: int| 0 <= j < i ==> choice_lt(#[trigger] self.ids()[j], id@),
                i < self.ids().len() ==> choice_lt(id@, self.ids()[i as int]) || self.ids()[i as int] == id@,
            decreases self.profiles@.len() - i,
        {
            if i >= self.profiles.len() {
                break;
            }
            proof {
                assert(self.ids()[i as int] == self.profiles@[i as int].0@);
            }
            if choice_equal(&self.profiles[i].0, &id) {
                break;
            }
            if choice_less(&id, &self.profiles[i].0) {
                break;
            }
            proof {
                lemma_choice_lt_order(self.ids()[i as int], id@, id@);
            }
            i += 1;
        }
        let ghost pos = i as int;
        let ghost old_profiles = self.profiles@;
        let ghost old_reg = *self;
        if i < self.profiles.len() && choice_equal(&self.profiles[i].0, &id) {
            proof {
                old_reg.lemma_entry(pos);
            }
            let removed = self.profiles.remove(i);
            assert(removed.1 == old_reg.profiles_map()[id@]);
            let old_profile = removed.1;
            let ghost mid = self.profiles@;
            proof {
                old_profiles.remove_ensures(pos);
            }
            let ghost gid = id@;
            let entry = (id, profile);
            let ghost ge = entry;
            self.profiles.insert(i, entry);
            proof {
                mid.insert_ensures(pos, ge);
                assert forall|j: int| 0 <= j < before.len() implies #[trigger] self.ids()[j] == before[j] by {
                    assert(self.ids()[j] == self.profiles@[j].0@);
                    assert(before[j] == old_profiles[j].0@);
                    if j > pos {
                        assert(self.profiles@[j] == mid[j - 1]);
                    }
                }
                assert(self.ids() =~= before);
                assert(before.to_set().insert(gid) =~= before.to_set()) by {
                    assert(before[pos] == gid);
                    assert(before.contains(gid));
                }
                assert forall|j: int| 0 <= j < self.profiles@.len() implies (#[trigger] self.profiles@[j]).1.id_spec()
                    == self.profiles@[j].0@ by {
                    if j > pos {
                        assert(self.profiles@[j] == mid[j - 1]);
                        assert(mid[j - 1] == old_profiles[j]);
                    } else if j < pos {
                        assert(self.profiles@[j] == old_profiles[j]);
                    }
                }
                assert(self.profiles@[pos] == ge);
                self.lemma_entry(pos);
                assert(before[pos] == gid);
                assert(old_reg.ids() == before);
                self.lemma_map_dom();
                old_reg.lemma_map_dom();
                assert forall|k: ProfileChoiceModel| #[trigger] self.profiles_map().dom().contains(k) <==> (old_reg.profiles_map().dom().contains(k) || k == gid) by {
                    if k == gid {
                        assert(before.contains(gid));
                    }
                }
                assert forall|k: ProfileChoiceModel| k != gid && old_reg.profiles_map().dom().contains(k) implies #[trigger] self.profiles_map()[k]
                    == old_reg.profiles_map()[k] by {
                    {
                        assert(self.ids().contains(k));
                        let j = choose|j: int| 0 <= j < self.ids().len() && self.ids()[j] == k;
                        assert(j != pos);
                        if j > pos {
                            assert(self.profiles@[j] == mid[j - 1]);
                            assert(mid[j - 1] == old_profiles[j]);
                        } else {
                            assert(self.profiles@[j] == mid[j]);
                            assert(mid[j] == old_profiles[j]);
                        }
                        assert(self.profiles@[j] == old_profiles[j]);
                        self.lemma_entry(j);
                        old_reg.lemma_entry(j);
                    }
                }
            }
            let res = Some(old_profile);
            assert(res matches Some(q) ==> q == old_reg.profiles_map()[id@]);
            assert(old_reg == *old(self));
            return res;
        }
        proof {
            if pos < before.len() {
                assert(choice_lt(id@, before[pos]));
            }
            assert forall|j: int| pos <= j < before.len() implies choice_lt(id@, #[trigger] before[j]) by {
                if j > pos {
                    lemma_choice_lt_order(id@, before[pos], before[j]);
                }
            }
            assert(!before.contains(id@)) by {
                if before.contains(id@) {
                    let k = choose|k: int| 0 <= k < before.len() && before[k] == id@;
                    lemma_choice_lt_order(id@, id@, id@);
                }
            }
        }
        let ghost gid = id@;
        let entry = (id, profile);
        let ghost ge = entry;
        self.profiles.insert(i, entry);
        proof {
            old_profiles.insert_ensures(pos, ge);
            before.insert_ensures(pos, gid);
            assert forall|j: int| 0 <= j < before.len() + 1 implies #[trigger] self.ids()[j] == before.insert(pos, gid)[j] by {
                assert(self.ids()[j] == self.profiles@[j].0@);
                if j < pos {
                    assert(before[j] == old_profiles[j].0@);
                } else if j > pos {
                    assert(self.profiles@[j] == old_profiles[j - 1]);
                    assert(before[j - 1] == old_profiles[j - 1].0@);
                }
            }
            assert(self.ids() =~= before.insert(pos, gid));
            assert forall|a: int, b: int| 0 <= a < b < self.ids().len() implies choice_lt(self.ids()[a], self.ids()[b]) by {
                if a < pos && b == pos {
                } else if a == pos {
                    assert(self.ids()[b] == before[b - 1]);
                } else if b < pos {
                } else if a < pos {
                    assert(self.ids()[b] == before[b - 1]);
                    lemma_choice_lt_order(before[a], gid, before[b - 1]);
                } else {
                    assert(self.ids()[a] == before[a - 1]);
                    assert(self.ids()[b] == before[b - 1]);
                }
            }
            assert(self.ids().to_set() =~= before.to_set().insert(gid)) by {
                assert forall|x: ProfileChoiceModel| self.ids().to_set().contains(x) <==> before.to_set().insert(gid).contains(x) by {
                    if self.ids().contains(x) {
                        let k = choose|k: int| 0 <= k < self.ids().len() && self.ids()[k] == x;
                        if k < pos {
                            assert(before[k] == x);
                        } else if k > pos {
                            assert(before[k - 1] == x);
                        }
                    }
                    if before.contains(x) {
                        let k = choose|k: int| 0 <= k < before.len() && before[k] == x;
                        if k < pos {
                            assert(self.ids()[k] == x);
                        } else {
                            assert(self.ids()[k + 1] == x);
                        }
                    }
                    if x == gid {
                        assert(self.ids()[pos] == x);
                    }
                }
            }
            assert forall|j: int| 0 <= j < self.profiles@.len() implies (#[trigger] self.profiles@[j]).1.id_spec()
                == self.profiles@[j].0@ by {
                if j > pos {
                    assert(self.profiles@[j] == old_profiles[j - 1]);
                } else if j < pos {
                    assert(self.profiles@[j] == old_profiles[j]);
                }
            }
            assert(self.profiles@[pos] == ge);
            self.lemma_entry(pos);
            self.lemma_map_dom();
            old_reg.lemma_map_dom();
            assert forall|k: ProfileChoiceModel| #[trigger] self.profiles_map().dom().contains(k) <==> (old_reg.profiles_map().dom().contains(k) || k == gid) by {
                assert(self.ids().to_set().contains(k) == self.ids().contains(k));
                assert(before.to_set().contains(k) == before.contains(k));
            }
            assert forall|k: ProfileChoiceModel| k != gid && old_reg.profiles_map().dom().contains(k) implies #[trigger] self.profiles_map()[k]
                == old_reg.profiles_map()[k] by {
                {
                    let j = choose|j: int| 0 <= j < before.len() && before[j] == k;
                    old_reg.lemma_entry(j);
                    if j < pos {
                        assert(self.profiles@[j] == old_profiles[j]);
                        self.lemma_entry(j);
                    } else {
                        assert(self.profiles@[j + 1] == old_profiles[j]);
                        self.lemma_entry(j + 1);
                    }
                }
            }
        }
        None
    }

    /// The profile registered under `id`, if any.
    pub fn get(&self, id: &ProfileChoice) -> (r: Option<&Box<dyn Profile>>)
        requires
            self.wf(),
        ensures
            r is Some <==> self.ids().contains(id@),
            r matches Some(p) ==> p.id_spec() == id@,
            r matches Some(p) ==> *p == self.profiles_map()[id@],
    {
        let mut i: usize = 0;
        while i < self.profiles.len()
            invariant
                self.wf(),
                i <= self.profiles@.len(),
                self.ids().len() == self.profiles@.len(),
                forall|j: int| 0 <= j < i ==> #[trigger] self.ids()[j] != id@,
            decreases self.profiles@.len() - i,
        {
            proof {
                assert(self.ids()[i as int] == self.profiles@[i as int].0@);
            }
            if choice_equal(&self.profiles[i].0, id) {
                proof {
                    self.lemma_entry(i as int);
                }
                return Some(&self.profiles[i].1);
            }
            i += 1;
        }
        None
    }

    /// The registered `(identifier, profile)` pairs, in identifier order.
    pub fn iter(&self) -> (r: Vec<(&ProfileChoice, &Box<dyn Profile>)>)
        requires
            self.wf(),
        ensures
            r@.len() == self.ids().len(),
            forall|i: int| 0 <= i < r@.len() ==> (#[trigger] r@[i]).0@ == self.ids()[i],
            forall|i: int, j: int| 0 <= i < j < r@.len() ==> choice_lt(r@[i].0@, r@[j].0@),
            forall|i: int| 0 <= i < r@.len() ==> (#[trigger] r@[i]).1.id_spec() == r@[i].0@,
            forall|i: int| 0 <= i < r@.len() ==> self.profiles_map().dom().contains((#[trigger] r@[i]).0@) && *r@[i].1 == self.profiles_map()[r@[i].0@],
    {
        let mut out: Vec<(&ProfileChoice, &Box<dyn Profile>)> = Vec::new();
        let mut i: usize = 0;
        while i < self.profiles.len()
            invariant
                i <= self.profiles@.len(),
                self.ids().len() == self.profiles@.len(),
                self.wf(),
                out@.len() == i,
                forall|j: int| 0 <= j < i ==> (#[trigger] out@[j]).0@ == self.ids()[j],
                forall|j: int| 0 <= j < i ==> (#[trigger] out@[j]).1.id_spec() == out@[j].0@,
                forall|j: int| 0 <= j < i ==> self.profiles_map().dom().contains((#[trigger] out@[j]).0@) && *out@[j].1
                    == self.profiles_map()[out@[j].0@],
            decreases self.profiles@.len() - i,
        {
            proof {
                assert(self.ids()[i as int] == self.profiles@[i as int].0@);
                self.lemma_entry(i as int);
            }
            let p = &self.profiles[i];
            out.push((&p.0, &p.1));
            i += 1;
        }
        out
    }
}

} // verus!
