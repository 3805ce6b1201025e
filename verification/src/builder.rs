//! Builders for CoMID and CoTL tags and for the top-level CoRIM map.
pub mod comid;

pub use self::comid::{ComidBuilder, EnvRef, EnvSpec};
use vstd::prelude::*;
use crate::cbor::{Value, VModel, decode_spec, enc, encode, wf};
use crate::error::{BuilderError, EncodeError};
use crate::tags::{TAG_CORIM, TAG_COTL};
use crate::types::comid::{ComidTag, comid_value};
use crate::types::common::{
    CborTime, EntityMap, TagIdChoice, TagIdModel, TagIdentity, ValidityMap, tag_identity_model,
};
use crate::types::corim::{
    ConciseTagChoice, ConciseTlTag, CorimId, CorimLocator, CorimLocatorThumbprint, CorimMap,
    CorimMapModel, CotlModel, ProfileChoice, TagChoiceModel, ThumbModel, corim_map_spec,
    corim_map_value, cotl_value, lemma_corim_map_round_trip,
};

verus! {

// ---------------------------------------------------------------------------
// CotlBuilder
// ---------------------------------------------------------------------------

/// Builder of a [`ConciseTlTag`]: the tags a verifier should treat as active during a
/// period.
#[must_use]
pub struct CotlBuilder {
    tag_id: TagIdChoice,
    tag_version: Option<u64>,
    tags_list: Vec<TagIdentity>,
    not_before: Option<i64>,
    not_after: i64,
}

/// Mathematical form of a [`CotlBuilder`].
pub struct CotlBuilderModel {
    pub tag_id: TagIdModel,
    pub tag_version: Option<int>,
    pub tags_list: Seq<(TagIdModel, Option<int>)>,
    pub not_before: Option<int>,
    pub not_after: int,
}

impl View for CotlBuilder {
    type V = CotlBuilderModel;

    closed spec fn view(&self) -> CotlBuilderModel {
        CotlBuilderModel {
            tag_id: self.tag_id@,
            tag_version: match self.tag_version {
                Some(v) => Some(v as int),
                None => None,
            },
            tags_list: self.tags_list@.map_values(|t: TagIdentity| tag_identity_model(t)),
            not_before: match self.not_before {
                Some(n) => Some(n as int),
                None => None,
            },
            not_after: self.not_after as int,
        }
    }
}

impl CotlBuilder {
    /// A builder for a CoTL with the given identifier, valid until `not_after`.
    pub fn new(tag_id: TagIdChoice, not_after: i64) -> (b: Self)
        ensures
            b@ == (CotlBuilderModel {
                tag_id: tag_id@,
                tag_version: None,
                tags_list: Seq::empty(),
                not_before: None,
                not_after: not_after as int,
            }),
    {
        let b = CotlBuilder { tag_id, tag_version: None, tags_list: Vec::new(), not_before: None, not_after };
        assert(b@.tags_list =~= Seq::<(TagIdModel, Option<int>)>::empty());
        b
    }

    /// Set the tag version.
    pub fn set_tag_version(self, version: u64) -> (b: Self)
        ensures
            b@ == (CotlBuilderModel { tag_version: Some(version as int), ..self@ }),
    {
        CotlBuilder { tag_version: Some(version), ..self }
    }

    /// Set the start of the validity period.
    pub fn set_not_before(self, not_before: i64) -> (b: Self)
        ensures
            b@ == (CotlBuilderModel { not_before: Some(not_before as int), ..self@ }),
    {
        CotlBuilder { not_before: Some(not_before), ..self }
    }

    /// Add a tag to the list.
    pub fn add_tag(self, tag_identity: TagIdentity) -> (b: Self)
        ensures
            b@ == (CotlBuilderModel {
                tags_list: self@.tags_list.push(tag_identity_model(tag_identity)),
                ..self@
            }),
    {
        let mut b = self;
        let ghost prev = b.tags_list@;
        b.tags_list.push(tag_identity);
        proof {
            assert(b.tags_list@.map_values(|t: TagIdentity| tag_identity_model(t)) =~= prev.map_values(
                |t: TagIdentity| tag_identity_model(t),
            ).push(tag_identity_model(tag_identity)));
        }
        b
    }

    /// Add a tag by identifier, with no version.
    pub fn add_tag_id(self, tag_id: TagIdChoice) -> (b: Self)
        ensures
            b@ == (CotlBuilderModel { tags_list: self@.tags_list.push((tag_id@, None)), ..self@ }),
    {
        self.add_tag(TagIdentity { tag_id, tag_version: None })
    }

    /// The CoTL: fails when the list is empty or the period starts after it ends.
    pub fn build(self) -> (r: Result<ConciseTlTag, BuilderError>)
        ensures
            self@.tags_list.len() == 0 ==> (r matches Err(BuilderError::EmptyList { field }) && field@
                == "tags-list"@),
            self@.tags_list.len() > 0 && (self@.not_before matches Some(nb) && nb > self@.not_after)
                ==> r matches Err(BuilderError::InvalidValidity),
            self@.tags_list.len() > 0 && !(self@.not_before matches Some(nb) && nb > self@.not_after)
                ==> (r matches Ok(c) && c@ == (CotlModel {
                tag_identity: (self@.tag_id, self@.tag_version),
                tags_list: self@.tags_list,
                tl_validity: (self@.not_before, self@.not_after),
            })),
    {
        if self.tags_list.len() == 0 {
            return Err(BuilderError::EmptyList { field: "tags-list" });
        }
        if let Some(nb) = self.not_before {
            if nb > self.not_after {
                return Err(BuilderError::InvalidValidity);
            }
        }
        let not_before = match self.not_before {
            Some(nb) => Some(CborTime::new(nb)),
            None => None,
        };
        Ok(
            ConciseTlTag {
                tag_identity: TagIdentity { tag_id: self.tag_id, tag_version: self.tag_version },
                tags_list: self.tags_list,
                tl_validity: ValidityMap { not_before, not_after: CborTime::new(self.not_after) },
            },
        )
    }
}

// ---------------------------------------------------------------------------
// CorimBuilder
// ---------------------------------------------------------------------------

/// Builder of a [`CorimMap`]; at least one tag must be added before building.
#[must_use]
pub struct CorimBuilder {
    id: CorimId,
    profile: Option<ProfileChoice>,
    rim_validity: Option<ValidityMap>,
    entities: Option<Vec<EntityMap>>,
    dependent_rims: Option<Vec<CorimLocator>>,
    tags: Vec<ConciseTagChoice>,
}

impl View for CorimBuilder {
    type V = CorimMapModel;

    closed spec fn view(&self) -> CorimMapModel {
        CorimMap {
            id: self.id,
            tags: self.tags,
            dependent_rims: self.dependent_rims,
            profile: self.profile,
            rim_validity: self.rim_validity,
            entities: self.entities,
        }@
    }
}

impl CorimBuilder {
    /// A builder for a CoRIM with the given identifier.
    pub fn new(id: CorimId) -> (b: Self)
        ensures
            b@ == (CorimMapModel {
                id: id@,
                tags: Seq::empty(),
                dependent_rims: None,
                profile: None,
                rim_validity: None,
                entities: None,
            }),
    {
        let b = CorimBuilder {
            id,
            profile: None,
            rim_validity: None,
            entities: None,
            dependent_rims: None,
            tags: Vec::new(),
        };
        assert(b@.tags =~= Seq::<TagChoiceModel>::empty());
        b
    }

    /// Set the profile.
    pub fn set_profile(self, profile: ProfileChoice) -> (b: Self)
        ensures
            b@ == (CorimMapModel { profile: Some(profile@), ..self@ }),
    {
        CorimBuilder { profile: Some(profile), ..self }
    }

    /// Set the validity period; fails when it starts after it ends.
    pub fn set_validity(self, not_before: Option<i64>, not_after: i64) -> (r: Result<Self, BuilderError>)
        ensures
            (not_before matches Some(nb) && nb > not_after) ==> r matches Err(BuilderError::InvalidValidity),
            !(not_before matches Some(nb) && nb > not_after) ==> (r matches Ok(b) && b@ == (CorimMapModel {
                rim_validity: Some(
                    (
                        match not_before {
                            Some(nb) => Some(nb as int),
                            None => None,
                        },
                        not_after as int,
                    ),
                ),
                ..self@
            })),
    {
        if let Some(nb) = not_before {
            if nb > not_after {
                return Err(BuilderError::InvalidValidity);
            }
        }
        let nb = match not_before {
            Some(n) => Some(CborTime::new(n)),
            None => None,
        };
        Ok(CorimBuilder { rim_validity: Some(ValidityMap { not_before: nb, not_after: CborTime::new(not_after) }), ..self })
    }

    /// Add an entity.
    pub fn add_entity(self, entity: EntityMap) -> (b: Self)
        ensures
            b@ == (CorimMapModel {
                entities: Some(
                    match self@.entities {
                        Some(l) => l,
                        None => Seq::empty(),
                    }.push(entity@),
                ),
                ..self@
            }),
    {
        let mut b = self;
        let mut list = match b.entities {
            Some(l) => l,
            None => {
                let v: Vec<EntityMap> = Vec::new();
                assert(v@.map_values(|x: EntityMap| x@) =~= Seq::<crate::types::common::EntityModel>::empty());
                v
            },
        };
        let ghost prev = list@;
        list.push(entity);
        proof {
            assert(list@.map_values(|x: EntityMap| x@) =~= prev.map_values(|x: EntityMap| x@).push(entity@));
        }
        CorimBuilder { entities: Some(list), ..b }
    }

    /// Add a dependent-manifest locator.
    pub fn add_dependent_rim(self, locator: CorimLocator) -> (b: Self)
        ensures
            b@ == (CorimMapModel {
                dependent_rims: Some(
                    match self@.dependent_rims {
                        Some(l) => l,
                        None => Seq::empty(),
                    }.push(locator@),
                ),
                ..self@
            }),
    {
        let mut b = self;
        let mut list = match b.dependent_rims {
            Some(l) => l,
            None => {
                let v: Vec<CorimLocator> = Vec::new();
                assert(v@.map_values(|x: CorimLocator| x@) =~= Seq::<crate::types::corim::LocatorModel>::empty());
                v
            },
        };
        let ghost prev = list@;
        list.push(locator);
        proof {
            assert(list@.map_values(|x: CorimLocator| x@) =~= prev.map_values(|x: CorimLocator| x@).push(locator@));
        }
        CorimBuilder { dependent_rims: Some(list), ..b }
    }

    /// Add a tag entry.
    pub fn add_tag(self, tag: ConciseTagChoice) -> (b: Self)
        ensures
            b@ == (CorimMapModel { tags: self@.tags.push(tag@), ..self@ }),
    {
        let mut b = self;
        let ghost prev = b.tags@;
        b.tags.push(tag);
        proof {
            assert(b.tags@.map_values(|x: ConciseTagChoice| x@) =~= prev.map_values(|x: ConciseTagChoice| x@).push(tag@));
        }
        b
    }

    /// Add a CoSWID tag given as its encoded bytes.
    pub fn add_coswid_tag(self, coswid_bytes: Vec<u8>) -> (b: Self)
        ensures
            b@ == (CorimMapModel { tags: self@.tags.push(TagChoiceModel::Coswid(coswid_bytes@)), ..self@ }),
    {
        self.add_tag(ConciseTagChoice::Coswid(coswid_bytes))
    }

    /// Add a CoTL tag given as its encoded bytes.
    pub fn add_cotl_tag(self, cotl_bytes: Vec<u8>) -> (b: Self)
        ensures
            b@ == (CorimMapModel { tags: self@.tags.push(TagChoiceModel::Cotl(cotl_bytes@)), ..self@ }),
    {
        self.add_tag(ConciseTagChoice::Cotl(cotl_bytes))
    }

    /// Add a CoMID, encoded, as a `#6.506` entry; fails when the CoMID cannot be encoded.
    pub fn add_comid_tag(self, comid: ComidTag) -> (r: Result<Self, BuilderError>)
        ensures
            wf(comid_value(comid@)) ==> (r matches Ok(b) && b@ == (CorimMapModel {
                tags: self@.tags.push(TagChoiceModel::Comid(enc(comid_value(comid@)))),
                ..self@
            })),
            !wf(comid_value(comid@)) ==> (r matches Err(BuilderError::Encode(e)) && e@
                == "integer outside the CBOR range"@),
    {
        match encode(&comid.to_value()) {
            Ok(bytes) => Ok(self.add_tag(ConciseTagChoice::Comid(bytes))),
            Err(e) => Err(BuilderError::Encode(e)),
        }
    }

    /// Add a CoTL, encoded, as a `#6.508` entry; fails when it cannot be encoded.
    pub fn add_cotl(self, cotl: ConciseTlTag) -> (r: Result<Self, BuilderError>)
        ensures
            wf(cotl_value(cotl@)) ==> (r matches Ok(b) && b@ == (CorimMapModel {
                tags: self@.tags.push(TagChoiceModel::Cotl(enc(cotl_value(cotl@)))),
                ..self@
            })),
            !wf(cotl_value(cotl@)) ==> (r matches Err(BuilderError::Encode(e)) && e@
                == "integer outside the CBOR range"@),
    {
        match encode(&cotl.to_value()) {
            Ok(bytes) => Ok(self.add_tag(ConciseTagChoice::Cotl(bytes))),
            Err(e) => Err(BuilderError::Encode(e)),
        }
    }

    /// The CoRIM map; fails when no tag was added.
    pub fn build(self) -> (r: Result<CorimMap, BuilderError>)
        ensures
            self@.tags.len() == 0 ==> r matches Err(BuilderError::NoTags),
            self@.tags.len() > 0 ==> (r matches Ok(c) && c@ == self@),
    {
        if self.tags.len() == 0 {
            return Err(BuilderError::NoTags);
        }
        Ok(
            CorimMap {
                id: self.id,
                tags: self.tags,
                dependent_rims: self.dependent_rims,
                profile: self.profile,
                rim_validity: self.rim_validity,
                entities: self.entities,
            },
        )
    }

    /// The encoded `#6.501(corim-map)`; fails when no tag was added or an integer is outside
    /// the CBOR range.
    pub fn build_bytes(self) -> (r: Result<Vec<u8>, BuilderError>)
        ensures
            self@.tags.len() == 0 ==> r matches Err(BuilderError::NoTags),
            self@.tags.len() > 0 && wf(corim_value(self@)) ==> (r matches Ok(b) && b@ == enc(corim_value(self@))),
            self@.tags.len() > 0 && !wf(corim_value(self@)) ==> (r matches Err(BuilderError::Encode(e)) && e@
                == "integer outside the CBOR range"@),
    {
        let ghost m = self@;
        let corim = match self.build() {
            Ok(c) => c,
            Err(e) => return Err(e),
        };
        let inner = corim.to_value();
        let tagged = Value::Tag(TAG_CORIM, Box::new(inner));
        assert(tagged@ == VModel::Tag(TAG_CORIM, Box::new(inner@)));
        match encode(&tagged) {
            Ok(b) => Ok(b),
            Err(e) => Err(BuilderError::Encode(e)),
        }
    }
}

/// The item an unsigned CoRIM is written as: `#6.501(corim-map)`.
pub open spec fn corim_value(m: CorimMapModel) -> VModel {
    VModel::Tag(TAG_CORIM, Box::new(corim_map_value(m)))
}


/// Decoding what [`CorimBuilder::build_bytes`] writes gives back the built CoRIM: the bytes
/// decode to `#6.501` around the written map, and reading that map gives the builder's
/// CoRIM, when no tag entry is `Unknown` and no locator has an empty thumbprint list.
pub proof fn lemma_build_bytes_decode(b: CorimBuilder)
    requires
        wf(corim_value(b@)),
        forall|j: int| 0 <= j < b@.tags.len() ==> !(#[trigger] b@.tags[j] is Unknown),
        b@.dependent_rims matches Some(l) ==> forall|j: int| 0 <= j < l.len() ==> !((#[trigger] l[j]).thumbprint matches Some(
            ThumbModel::Multiple(ds),
        ) && ds.len() == 0),
    ensures
        decode_spec(enc(corim_value(b@))) == Some(corim_value(b@)),
        corim_map_spec(corim_map_value(b@)) == Ok::<CorimMapModel, Seq<char>>(b@),
{
    crate::cbor::lemma_decode_encode(corim_value(b@));
    let c = CorimMap {
        id: b.id,
        tags: b.tags,
        dependent_rims: b.dependent_rims,
        profile: b.profile,
        rim_validity: b.rim_validity,
        entities: b.entities,
    };
    assert(c@ == b@);
    assert forall|j: int| 0 <= j < c.tags@.len() implies !(#[trigger] c.tags@[j] is Unknown) by {
        assert(b@.tags[j] == c.tags@[j]@);
    }
    if let Some(l) = c.dependent_rims {
        assert forall|j: int| 0 <= j < l@.len() implies !((#[trigger] l@[j]).thumbprint matches Some(
            CorimLocatorThumbprint::Multiple(ds),
        ) && ds@.len() == 0) by {
            assert(b@.dependent_rims->0[j] == l@[j]@);
        }
    }
    lemma_corim_map_round_trip(c);
}

} // verus!
