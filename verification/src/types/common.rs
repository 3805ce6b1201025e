//! Types shared across CoRIM structures.
use vstd::prelude::*;
use crate::cbor::{Value, VModel, pairs_lookup, map_lookup, copy_bytes, model_pairs};
use crate::error::DecodeError;

verus! {

/// A `$crypto-key-type-choice` (a tagged key, certificate, thumbprint or key identifier),
/// carried as its data item.
pub type CryptoKey = Value;

/// `linked-tag-map` — `{ 0: linked-tag-id, 1: tag-rel }`, carried as its data item.
pub type LinkedTagMap = Value;

/// A CBOR epoch time (`#6.1(int)`), in seconds since the Unix epoch.
#[derive(Clone, Copy, Debug, PartialEq, Eq, Structural)]
pub struct CborTime {
    /// Seconds since 1970-01-01T00:00:00Z.
    pub seconds: i64,
}

impl CborTime {
    /// A time of `seconds` since the epoch.
    pub fn new(seconds: i64) -> (t: Self)
        ensures
            t.seconds == seconds,
    {
        CborTime { seconds }
    }
}

impl CborTime {
    /// Seconds since the epoch.
    pub fn epoch_secs(&self) -> (s: i64)
        ensures
            s == self.seconds,
    {
        self.seconds
    }
}

/// `$tag-id-type-choice` — text or a 16-byte UUID.
#[derive(Clone, Debug, PartialEq, Eq)]
#[non_exhaustive]
pub enum TagIdChoice {
    /// A text tag identifier.
    Text(String),
    /// A UUID tag identifier.
    Uuid(Vec<u8>),
}

/// Mathematical form of a [`TagIdChoice`].
pub enum TagIdModel {
    Text(Seq<char>),
    Uuid(Seq<u8>),
}

impl View for TagIdChoice {
    type V = TagIdModel;

    open spec fn view(&self) -> TagIdModel {
        match self {
            TagIdChoice::Text(t) => TagIdModel::Text(t@),
            TagIdChoice::Uuid(u) => TagIdModel::Uuid(u@),
        }
    }
}

/// `tag-identity-map` — `{ 0: tag-id, ? 1: tag-version }`.
#[derive(Clone, Debug, PartialEq, Eq)]
pub struct TagIdentity {
    /// `tag-id` (key 0).
    pub tag_id: TagIdChoice,
    /// `tag-version` (key 1).
    pub tag_version: Option<u64>,
}

/// The tag identifier a data item denotes: text, a 16-byte string, or `#6.37` around one.
pub open spec fn tag_id_spec(v: VModel) -> Option<TagIdModel> {
    match v {
        VModel::Text(t) => Some(TagIdModel::Text(t)),
        VModel::Bytes(b) => if b.len() == 16 {
            Some(TagIdModel::Uuid(b))
        } else {
            None
        },
        VModel::Tag(t, inner) => if t == 37 {
            match *inner {
                VModel::Bytes(b) => if b.len() == 16 {
                    Some(TagIdModel::Uuid(b))
                } else {
                    None
                },
                _ => None,
            }
        } else {
            None
        },
        _ => None,
    }
}

/// The `tag-identity-map` a data item denotes, or the reason it does not denote one.
pub open spec fn tag_identity_spec(v: VModel) -> Result<(TagIdModel, Option<int>), Seq<char>> {
    match v {
        VModel::Mapping(m) => match pairs_lookup(m, 0) {
            None => Err("tag-identity: missing tag-id (key 0)"@),
            Some(x) => match tag_id_spec(x) {
                None => Err("tag-identity: tag-id must be text or a 16-byte uuid"@),
                Some(id) => match pairs_lookup(m, 1) {
                    None => Ok((id, None)),
                    Some(VModel::Int(n)) => if 0 <= n <= u64::MAX {
                        Ok((id, Some(n)))
                    } else {
                        Err("tag-identity: tag-version must be uint"@)
                    },
                    Some(_) => Err("tag-identity: tag-version must be uint"@),
                },
            },
        },
        _ => Err("tag-identity must be a map"@),
    }
}

fn tag_id_of(v: &Value) -> (r: Option<TagIdChoice>)
    ensures
        r matches Some(id) ==> tag_id_spec(v@) == Some(id@),
        r is None ==> tag_id_spec(v@) is None,
{
    match v {
        Value::Text(t) => Some(TagIdChoice::Text(t.clone())),
        Value::Bytes(b) => {
            if b.len() == 16 {
                Some(TagIdChoice::Uuid(copy_bytes(b.as_slice())))
            } else {
                None
            }
        },
        Value::Tag(t, inner) => {
            assert(v@ == VModel::Tag(*t, Box::new(inner@)));
            if *t == 37 {
                match &**inner {
                    Value::Bytes(b) => {
                        if b.len() == 16 {
                            Some(TagIdChoice::Uuid(copy_bytes(b.as_slice())))
                        } else {
                            None
                        }
                    },
                    _ => None,
                }
            } else {
                None
            }
        },
        _ => None,
    }
}

impl TagIdentity {
    /// Read a `tag-identity-map`.
    pub fn from_value(v: &Value) -> (r: Result<TagIdentity, DecodeError>)
        ensures
            r matches Ok(t) ==> tag_identity_spec(v@) == Ok::<(TagIdModel, Option<int>), Seq<char>>(
                (t.tag_id@, match t.tag_version { Some(x) => Some(x as int), None => None }),
            ),
            r matches Err(e) ==> tag_identity_spec(v@) matches Err(m) && e == DecodeError::Deserialization(
                e->Deserialization_0,
            ) && e->Deserialization_0@ == m,
    {
        proof {
            reveal_strlit("tag-identity: missing tag-id (key 0)");
            reveal_strlit("tag-identity: tag-id must be text or a 16-byte uuid");
            reveal_strlit("tag-identity: tag-version must be uint");
            reveal_strlit("tag-identity must be a map");
        }
        let m = match v {
            Value::Mapping(m) => m,
            _ => return Err(DecodeError::Deserialization(String::from_str("tag-identity must be a map"))),
        };
        let id_val = match map_lookup(m, 0) {
            Some(x) => x,
            None => return Err(
                DecodeError::Deserialization(String::from_str("tag-identity: missing tag-id (key 0)")),
            ),
        };
        let tag_id = match tag_id_of(id_val) {
            Some(id) => id,
            None => return Err(
                DecodeError::Deserialization(
                    String::from_str("tag-identity: tag-id must be text or a 16-byte uuid"),
                ),
            ),
        };
        let tag_version = match map_lookup(m, 1) {
            None => None,
            Some(Value::Integer(n)) => {
                if *n >= 0 && *n <= 0xffff_ffff_ffff_ffffi128 {
                    Some(*n as u64)
                } else {
                    return Err(
                        DecodeError::Deserialization(
                            String::from_str("tag-identity: tag-version must be uint"),
                        ),
                    );
                }
            },
            Some(_) => return Err(
                DecodeError::Deserialization(String::from_str("tag-identity: tag-version must be uint")),
            ),
        };
        Ok(TagIdentity { tag_id, tag_version })
    }
}

/// The epoch seconds a `time` item denotes: `#6.1(int)` or a bare integer, in 64 bits.
pub open spec fn time_spec(v: VModel) -> Option<int> {
    match v {
        VModel::Int(n) => if i64::MIN <= n <= i64::MAX {
            Some(n)
        } else {
            None
        },
        VModel::Tag(t, inner) => if t == 1 {
            match *inner {
                VModel::Int(n) => if i64::MIN <= n <= i64::MAX {
                    Some(n)
                } else {
                    None
                },
                _ => None,
            }
        } else {
            None
        },
        _ => None,
    }
}

/// The item a time is written as: `#6.1(int)`.
pub open spec fn time_value(secs: int) -> VModel {
    VModel::Tag(1, Box::new(VModel::Int(secs)))
}

impl CborTime {
    /// Read a `time` item.
    pub fn from_value(v: &Value) -> (r: Option<CborTime>)
        ensures
            r matches Some(t) ==> time_spec(v@) == Some(t.seconds as int),
            r is None ==> time_spec(v@) is None,
    {
        match v {
            Value::Integer(n) => {
                if *n >= -0x8000_0000_0000_0000i128 && *n <= 0x7fff_ffff_ffff_ffffi128 {
                    Some(CborTime { seconds: *n as i64 })
                } else {
                    None
                }
            },
            Value::Tag(t, inner) => {
                assert(v@ == VModel::Tag(*t, Box::new(inner@)));
                if *t == 1 {
                    match &**inner {
                        Value::Integer(n) => {
                            if *n >= -0x8000_0000_0000_0000i128 && *n <= 0x7fff_ffff_ffff_ffffi128 {
                                Some(CborTime { seconds: *n as i64 })
                            } else {
                                None
                            }
                        },
                        _ => None,
                    }
                } else {
                    None
                }
            },
            _ => None,
        }
    }

    /// The item the time is written as, `#6.1(seconds)`.
    pub fn to_value(&self) -> (v: Value)
        ensures
            v@ == time_value(self.seconds as int),
    {
        let inner = Value::Integer(self.seconds as i128);
        assert(inner@ == VModel::Int(self.seconds as int));
        let r = Value::Tag(1, Box::new(inner));
        assert(r@ == VModel::Tag(1, Box::new(inner@)));
        r
    }
}

/// `validity-map` — `{ ? 0: not-before, 1: not-after }`.
#[derive(Clone, Copy, Debug, PartialEq, Eq, Structural)]
pub struct ValidityMap {
    /// `not-before` (key 0).
    pub not_before: Option<CborTime>,
    /// `not-after` (key 1).
    pub not_after: CborTime,
}

/// Mathematical form of a [`ValidityMap`]: `(not-before, not-after)` in epoch seconds.
pub open spec fn validity_model(v: ValidityMap) -> (Option<int>, int) {
    (
        match v.not_before {
            Some(t) => Some(t.seconds as int),
            None => None,
        },
        v.not_after.seconds as int,
    )
}

/// The validity map a data item denotes, or why it does not denote one.
pub open spec fn validity_spec(v: VModel) -> Result<(Option<int>, int), Seq<char>> {
    match v {
        VModel::Mapping(m) => match pairs_lookup(m, 1) {
            None => Err("validity-map: missing not-after (key 1)"@),
            Some(na) => match time_spec(na) {
                None => Err("validity-map: not-after must be a time"@),
                Some(after) => match pairs_lookup(m, 0) {
                    None => Ok((None, after)),
                    Some(nb) => match time_spec(nb) {
                        None => Err("validity-map: not-before must be a time"@),
                        Some(before) => Ok((Some(before), after)),
                    },
                },
            },
        },
        _ => Err("validity-map must be a map"@),
    }
}

/// The item a validity map is written as.
pub open spec fn validity_value(v: (Option<int>, int)) -> VModel {
    match v.0 {
        Some(b) => VModel::Mapping(seq![(VModel::Int(0), time_value(b)), (VModel::Int(1), time_value(v.1))]),
        None => VModel::Mapping(seq![(VModel::Int(1), time_value(v.1))]),
    }
}

impl ValidityMap {
    /// Read a validity map.
    pub fn from_value(v: &Value) -> (r: Result<ValidityMap, String>)
        ensures
            r matches Ok(x) ==> validity_spec(v@) == Ok::<(Option<int>, int), Seq<char>>(validity_model(x)),
            r matches Err(m) ==> validity_spec(v@) == Err::<(Option<int>, int), Seq<char>>(m@),
    {
        proof {
            reveal_strlit("validity-map: missing not-after (key 1)");
            reveal_strlit("validity-map: not-after must be a time");
            reveal_strlit("validity-map: not-before must be a time");
            reveal_strlit("validity-map must be a map");
        }
        let m = match v {
            Value::Mapping(m) => m,
            _ => return Err(String::from_str("validity-map must be a map")),
        };
        let na = match map_lookup(m, 1) {
            Some(x) => x,
            None => return Err(String::from_str("validity-map: missing not-after (key 1)")),
        };
        let not_after = match CborTime::from_value(na) {
            Some(t) => t,
            None => return Err(String::from_str("validity-map: not-after must be a time")),
        };
        let not_before = match map_lookup(m, 0) {
            None => None,
            Some(nb) => match CborTime::from_value(nb) {
                Some(t) => Some(t),
                None => return Err(String::from_str("validity-map: not-before must be a time")),
            },
        };
        Ok(ValidityMap { not_before, not_after })
    }

    /// The item the validity map is written as.
    pub fn to_value(&self) -> (r: Value)
        ensures
            r@ == validity_value(validity_model(*self)),
    {
        let mut entries: Vec<(Value, Value)> = Vec::new();
        if let Some(nb) = self.not_before {
            entries.push((Value::Integer(0), nb.to_value()));
        }
        entries.push((Value::Integer(1), self.not_after.to_value()));
        proof {
            crate::cbor::lemma_model_pairs(entries@);
        }
        let r = Value::Mapping(entries);
        proof {
            assert(model_pairs(entries@) =~= validity_value(validity_model(*self))->Mapping_0);
        }
        r
    }
}


/// Reading back a written validity map gives it back.
pub proof fn lemma_validity_round_trip(v: ValidityMap)
    ensures
        validity_spec(validity_value(validity_model(v))) == Ok::<(Option<int>, int), Seq<char>>(validity_model(v)),
{
    let m = validity_model(v);
    match m.0 {
        Some(b) => {
            let s = seq![(VModel::Int(0), time_value(b)), (VModel::Int(1), time_value(m.1))];
            assert(s.drop_first().drop_first() =~= Seq::<(VModel, VModel)>::empty());
            assert(pairs_lookup(s.drop_first(), 1) == Some(time_value(m.1)));
            assert(pairs_lookup(s, 0) == Some(time_value(b)));
        },
        None => {
            let s = seq![(VModel::Int(1), time_value(m.1))];
            assert(s.drop_first() =~= Seq::<(VModel, VModel)>::empty());
            assert(pairs_lookup(s.drop_first(), 0) is None);
            assert(pairs_lookup(s, 0) is None);
        },
    }
}


/// The item a tag identifier is written as.
pub open spec fn tag_id_value(id: TagIdModel) -> VModel {
    match id {
        TagIdModel::Text(t) => VModel::Text(t),
        TagIdModel::Uuid(u) => VModel::Tag(37, Box::new(VModel::Bytes(u))),
    }
}

/// The item a tag identity is written as.
pub open spec fn tag_identity_value(t: (TagIdModel, Option<int>)) -> VModel {
    match t.1 {
        Some(v) => VModel::Mapping(seq![(VModel::Int(0), tag_id_value(t.0)), (VModel::Int(1), VModel::Int(v))]),
        None => VModel::Mapping(seq![(VModel::Int(0), tag_id_value(t.0))]),
    }
}

/// Mathematical form of a [`TagIdentity`].
pub open spec fn tag_identity_model(t: TagIdentity) -> (TagIdModel, Option<int>) {
    (t.tag_id@, match t.tag_version {
        Some(x) => Some(x as int),
        None => None,
    })
}

impl TagIdentity {
    /// The item the tag identity is written as.
    pub fn to_value(&self) -> (r: Value)
        ensures
            r@ == tag_identity_value(tag_identity_model(*self)),
    {
        let id = match &self.tag_id {
            TagIdChoice::Text(t) => Value::Text(t.clone()),
            TagIdChoice::Uuid(u) => {
                let inner = Value::Bytes(copy_bytes(u.as_slice()));
                let r = Value::Tag(37, Box::new(inner));
                assert(r@ == VModel::Tag(37, Box::new(inner@)));
                r
            },
        };
        let mut entries: Vec<(Value, Value)> = Vec::new();
        entries.push((Value::Integer(0), id));
        if let Some(v) = self.tag_version {
            entries.push((Value::Integer(1), Value::Integer(v as i128)));
        }
        proof {
            crate::cbor::lemma_model_pairs(entries@);
            assert(model_pairs(entries@) =~= match tag_identity_value(tag_identity_model(*self)) {
                VModel::Mapping(s) => s,
                _ => Seq::empty(),
            });
        }
        Value::Mapping(entries)
    }

    /// A copy.
    pub fn copy(&self) -> (r: TagIdentity)
        ensures
            tag_identity_model(r) == tag_identity_model(*self),
    {
        TagIdentity {
            tag_id: match &self.tag_id {
                TagIdChoice::Text(t) => TagIdChoice::Text(t.clone()),
                TagIdChoice::Uuid(u) => TagIdChoice::Uuid(copy_bytes(u.as_slice())),
            },
            tag_version: self.tag_version,
        }
    }
}


/// `entity-map` — `{ 0: entity-name, ? 1: reg-id, 2: [+ role] }`: a named party and its
/// roles.
#[derive(Clone, Debug, PartialEq, Eq)]
pub struct EntityMap {
    /// `entity-name` (key 0).
    pub entity_name: String,
    /// `reg-id` (key 1): a URI.
    pub reg_id: Option<String>,
    /// `role` (key 2): role codes (0 tag-creator, 1 creator, 2 maintainer, ...).
    pub roles: Vec<i64>,
}

/// Mathematical form of an [`EntityMap`].
pub struct EntityModel {
    pub entity_name: Seq<char>,
    pub reg_id: Option<Seq<char>>,
    pub roles: Seq<i64>,
}

impl View for EntityMap {
    type V = EntityModel;

    open spec fn view(&self) -> EntityModel {
        EntityModel {
            entity_name: self.entity_name@,
            reg_id: match self.reg_id {
                Some(r) => Some(r@),
                None => None,
            },
            roles: self.roles@,
        }
    }
}

/// The role codes of the first `n` items, or `None` when one is not an integer in 64 bits.
pub open spec fn roles_spec(a: Seq<VModel>, n: int) -> Option<Seq<i64>>
    decreases n,
{
    if n <= 0 {
        Some(Seq::empty())
    } else {
        match roles_spec(a, n - 1) {
            None => None,
            Some(s) => match a[n - 1] {
                VModel::Int(r) => if i64::MIN <= r <= i64::MAX {
                    Some(s.push(r as i64))
                } else {
                    None
                },
                _ => None,
            },
        }
    }
}

/// The entity a data item denotes.
pub open spec fn entity_spec(v: VModel) -> Result<EntityModel, Seq<char>> {
    match v {
        VModel::Mapping(m) => match pairs_lookup(m, 0) {
            Some(VModel::Text(name)) => match pairs_lookup(m, 1) {
                Some(VModel::Text(r)) => entity_roles(m, name, Some(r)),
                Some(_) => Err("entity-map: reg-id must be text"@),
                None => entity_roles(m, name, None),
            },
            Some(_) => Err("entity-map: entity-name must be text"@),
            None => Err("entity-map: missing entity-name (key 0)"@),
        },
        _ => Err("entity-map must be a map"@),
    }
}

pub open spec fn entity_roles(m: Seq<(VModel, VModel)>, name: Seq<char>, reg_id: Option<Seq<char>>) -> Result<EntityModel, Seq<char>> {
    match pairs_lookup(m, 2) {
        Some(VModel::Array(a)) => match roles_spec(a, a.len() as int) {
            Some(roles) => Ok(EntityModel { entity_name: name, reg_id, roles }),
            None => Err("entity-map: roles must be integers"@),
        },
        Some(_) => Err("entity-map: role must be an array"@),
        None => Err("entity-map: missing role (key 2)"@),
    }
}

/// The item an entity is written as.
pub open spec fn entity_value(e: EntityModel) -> VModel {
    VModel::Mapping(
        seq![(VModel::Int(0), VModel::Text(e.entity_name))] + (match e.reg_id {
            Some(r) => seq![(VModel::Int(1), VModel::Text(r))],
            None => Seq::empty(),
        }) + seq![(VModel::Int(2), VModel::Array(e.roles.map_values(|r: i64| VModel::Int(r as int))))],
    )
}

proof fn lemma_roles_none(a: Seq<VModel>, i: int, n: int)
    requires
        0 < i <= n,
        roles_spec(a, i) is None,
    ensures
        roles_spec(a, n) is None,
    decreases n - i,
{
    if i < n {
        lemma_roles_none(a, i + 1, n);
    }
}

impl EntityMap {
    /// Read an entity.
    #[verifier::loop_isolation(false)]
    pub fn from_value(v: &Value) -> (r: Result<EntityMap, String>)
        ensures
            r matches Ok(e) ==> entity_spec(v@) == Ok::<EntityModel, Seq<char>>(e@),
            r matches Err(m) ==> entity_spec(v@) == Err::<EntityModel, Seq<char>>(m@),
    {
        let m = match v {
            Value::Mapping(m) => m,
            _ => return Err(String::from_str("entity-map must be a map")),
        };
        let entity_name = match map_lookup(m, 0) {
            Some(Value::Text(n)) => n.clone(),
            Some(_) => return Err(String::from_str("entity-map: entity-name must be text")),
            None => return Err(String::from_str("entity-map: missing entity-name (key 0)")),
        };
        let reg_id = match map_lookup(m, 1) {
            Some(Value::Text(r)) => Some(r.clone()),
            Some(_) => return Err(String::from_str("entity-map: reg-id must be text")),
            None => None,
        };
        let a = match map_lookup(m, 2) {
            Some(Value::Array(a)) => a,
            Some(_) => return Err(String::from_str("entity-map: role must be an array")),
            None => return Err(String::from_str("entity-map: missing role (key 2)")),
        };
        let ghost ms = crate::cbor::model_list(a@);
        proof {
            crate::cbor::lemma_model_list(a@);
        }
        let mut roles: Vec<i64> = Vec::new();
        let mut i: usize = 0;
        assert(roles@ =~= Seq::<i64>::empty());
        while i < a.len()
            invariant
                i <= a@.len(),
                ms == crate::cbor::model_list(a@),
                ms.len() == a@.len(),
                forall|j: int| 0 <= j < a@.len() ==> #[trigger] ms[j] == a@[j]@,
                roles_spec(ms, i as int) == Some(roles@),
            decreases a@.len() - i,
        {
            match &a[i] {
                Value::Integer(n) => {
                    if *n < -0x8000_0000_0000_0000i128 || *n > 0x7fff_ffff_ffff_ffffi128 {
                        proof {
                            lemma_roles_none(ms, i as int + 1, a@.len() as int);
                        }
                        return Err(String::from_str("entity-map: roles must be integers"));
                    }
                    roles.push(*n as i64);
                },
                _ => {
                    proof {
                        lemma_roles_none(ms, i as int + 1, a@.len() as int);
                    }
                    return Err(String::from_str("entity-map: roles must be integers"));
                },
            }
            i = i + 1;
        }
        Ok(EntityMap { entity_name, reg_id, roles })
    }

    /// The item the entity is written as.
    pub fn to_value(&self) -> (r: Value)
        ensures
            r@ == entity_value(self@),
    {
        let ghost target = self.roles@.map_values(|r: i64| VModel::Int(r as int));
        let mut items: Vec<Value> = Vec::new();
        let mut i: usize = 0;
        while i < self.roles.len()
            invariant
                i <= self.roles@.len(),
                target == self.roles@.map_values(|r: i64| VModel::Int(r as int)),
                crate::cbor::model_list(items@) == target.take(i as int),
            decreases self.roles@.len() - i,
        {
            let x = Value::Integer(self.roles[i] as i128);
            proof {
                crate::cbor::lemma_model_list_push(items@, x);
                assert(target.take(i + 1) =~= target.take(i as int).push(x@));
            }
            items.push(x);
            i = i + 1;
        }
        proof {
            assert(target.take(i as int) =~= target);
        }
        let mut entries: Vec<(Value, Value)> = Vec::new();
        entries.push((Value::Integer(0), Value::Text(self.entity_name.clone())));
        if let Some(r) = &self.reg_id {
            entries.push((Value::Integer(1), Value::Text(r.clone())));
        }
        entries.push((Value::Integer(2), Value::Array(items)));
        proof {
            crate::cbor::lemma_model_pairs(entries@);
            assert(model_pairs(entries@) =~= match entity_value(self@) {
                VModel::Mapping(s) => s,
                _ => Seq::empty(),
            });
        }
        Value::Mapping(entries)
    }
}


proof fn lemma_roles_round_trip(rs: Seq<i64>, n: int)
    requires
        0 <= n <= rs.len(),
    ensures
        roles_spec(rs.map_values(|r: i64| VModel::Int(r as int)), n) == Some(rs.take(n)),
    decreases n,
{
    if n == 0 {
        assert(rs.take(0) =~= Seq::<i64>::empty());
    } else {
        lemma_roles_round_trip(rs, n - 1);
        assert(rs.take(n) =~= rs.take(n - 1).push(rs[n - 1]));
    }
}

/// Reading back a written entity gives it back.
pub proof fn lemma_entity_round_trip(e: EntityMap)
    ensures
        entity_spec(entity_value(e@)) == Ok::<EntityModel, Seq<char>>(e@),
{
    let m = e@;
    lemma_roles_round_trip(m.roles, m.roles.len() as int);
    assert(m.roles.take(m.roles.len() as int) =~= m.roles);
    let s = entity_value(m)->Mapping_0;
    let roles_item = VModel::Array(m.roles.map_values(|r: i64| VModel::Int(r as int)));
    match m.reg_id {
        Some(r) => {
            assert(s =~= seq![(VModel::Int(0), VModel::Text(m.entity_name)), (VModel::Int(1), VModel::Text(r)), (VModel::Int(2), roles_item)]);
            assert(s.drop_first().drop_first().drop_first() =~= Seq::<(VModel, VModel)>::empty());
            assert(pairs_lookup(s.drop_first().drop_first(), 2) == Some(roles_item));
            assert(pairs_lookup(s.drop_first(), 2) == Some(roles_item));
            assert(pairs_lookup(s.drop_first(), 1) == Some(VModel::Text(r)));
        },
        None => {
            assert(s =~= seq![(VModel::Int(0), VModel::Text(m.entity_name)), (VModel::Int(2), roles_item)]);
            assert(s.drop_first().drop_first() =~= Seq::<(VModel, VModel)>::empty());
            assert(pairs_lookup(s.drop_first().drop_first(), 1) is None);
            assert(pairs_lookup(s.drop_first(), 1) is None);
            assert(pairs_lookup(s.drop_first(), 2) == Some(roles_item));
        },
    }
}


/// A tag identifier that can be written and read back: a text, or a UUID of 16 bytes.
pub open spec fn tag_id_ok(id: TagIdModel) -> bool {
    id matches TagIdModel::Uuid(u) ==> u.len() == 16
}

/// Reading back a written tag identity gives it back, when its UUID (if any) has 16 bytes.
pub proof fn lemma_tag_identity_round_trip(t: TagIdentity)
    requires
        tag_id_ok(t.tag_id@),
    ensures
        tag_identity_spec(tag_identity_value(tag_identity_model(t))) == Ok::<(TagIdModel, Option<int>), Seq<char>>(
            tag_identity_model(t),
        ),
{
    let m = tag_identity_model(t);
    match m.1 {
        Some(v) => {
            let s = seq![(VModel::Int(0), tag_id_value(m.0)), (VModel::Int(1), VModel::Int(v))];
            assert(s.drop_first().drop_first() =~= Seq::<(VModel, VModel)>::empty());
            assert(pairs_lookup(s.drop_first(), 1) == Some(VModel::Int(v)));
        },
        None => {
            let s = seq![(VModel::Int(0), tag_id_value(m.0))];
            assert(s.drop_first() =~= Seq::<(VModel, VModel)>::empty());
            assert(pairs_lookup(s.drop_first(), 1) is None);
        },
    }
}

} // verus!
