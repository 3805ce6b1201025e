//! Builder of a CoMID: its identity, entities, linked tags and the nine kinds of triples,
//! with an optional catalog of named environments and an optional anchoring lint.
//!
//! An environment may be given inline or by an [`EnvRef`] that [`ComidBuilder::declare_env`]
//! handed out; references are resolved when the CoMID is built and never reach the
//! encoding. With [`ComidBuilder::strict_links`] on, every condition environment of an
//! endorsed, conditional-endorsement or conditional-endorsement-series triple must equal a
//! reference-triple environment, and every selecting measurement must equal a measurement
//! that a reference triple claims of the same environment.
use vstd::prelude::*;
use crate::cbor::{Value, VModel, model_list, model_pairs, lemma_model_list, lemma_model_list_push, lemma_model_pairs_push, clone_value, clone_list, value_eq, values_equal};
use crate::error::BuilderError;
use crate::text::str_eq;
use crate::types::comid::{ComidModel, ComidTag};
use crate::types::common::{CryptoKey, EntityMap, EntityModel, LinkedTagMap, TagIdChoice, TagIdModel, TagIdentity, entity_value};
use crate::types::environment::EnvironmentMap;
use crate::types::measurement::MeasurementMap;
use crate::types::triples::{
    CeModel, CesCondition, CesModel, ConditionalEndorsementSeriesTriple, ConditionalEndorsementTriple,
    ConditionalSeriesRecord, CoswidModel, CoswidTriple, DomainTriple, EnvClaims, EnvListModel, KeyModel,
    KeyTriple, KeyTripleConditions, SeriesModel, WrittenAs, claims_models, items, opt_item, opt_items,
    series_models, tag_id_models, values_of, env_list_values, key_values, coswid_values, ces_values,
    ce_values,
};

verus! {

// ---------------------------------------------------------------------------
// The first failure of a sequence of checks.
// ---------------------------------------------------------------------------

/// The failure of the first element, in order, for which `f` (given the element's position
/// and the element) reports one; `None` when every element passes.
pub open spec fn first_fail<A, E>(s: Seq<A>, f: spec_fn(int, A) -> Option<E>) -> Option<E>
    decreases s.len(),
{
    if s.len() == 0 {
        None
    } else {
        match first_fail(s.drop_last(), f) {
            Some(e) => Some(e),
            None => f(s.len() - 1, s.last()),
        }
    }
}

/// `a`, or `b` where `a` is `None`.
pub open spec fn or_else<E>(a: Option<E>, b: Option<E>) -> Option<E> {
    match a {
        Some(e) => Some(e),
        None => b,
    }
}

/// One more element: its failure counts only where the elements before it all pass.
pub proof fn lemma_first_fail_step<A, E>(s: Seq<A>, f: spec_fn(int, A) -> Option<E>, k: int)
    requires
        0 <= k < s.len(),
    ensures
        first_fail(s.take(k + 1), f) == or_else(first_fail(s.take(k), f), f(k, s[k])),
{
    assert(s.take(k + 1).drop_last() =~= s.take(k));
}

/// All of a sequence is its longest prefix.
pub proof fn lemma_first_fail_all<A, E>(s: Seq<A>, f: spec_fn(int, A) -> Option<E>)
    ensures
        first_fail(s.take(s.len() as int), f) == first_fail(s, f),
{
    assert(s.take(s.len() as int) =~= s);
}

/// A failure within a prefix is the failure of the whole sequence.
pub proof fn lemma_first_fail_prefix<A, E>(s: Seq<A>, f: spec_fn(int, A) -> Option<E>, k: int)
    requires
        0 <= k <= s.len(),
        first_fail(s.take(k), f) is Some,
    ensures
        first_fail(s, f) == first_fail(s.take(k), f),
    decreases s.len() - k,
{
    if k == s.len() {
        assert(s.take(k) =~= s);
    } else {
        let t = s.drop_last();
        assert(t.take(k) =~= s.take(k));
        lemma_first_fail_prefix(t, f, k);
    }
}

/// Where no element fails, the sequence passes; where one fails, some failure is reported.
pub proof fn lemma_first_fail_none<A, E>(s: Seq<A>, f: spec_fn(int, A) -> Option<E>)
    ensures
        first_fail(s, f) is None <==> forall|i: int| 0 <= i < s.len() ==> (#[trigger] f(i, s[i])) is None,
    decreases s.len(),
{
    if s.len() > 0 {
        lemma_first_fail_none(s.drop_last(), f);
        assert forall|i: int| 0 <= i < s.len() - 1 implies #[trigger] s.drop_last()[i] == s[i] by {}
        if first_fail(s, f) is None {
            assert forall|i: int| 0 <= i < s.len() implies (#[trigger] f(i, s[i])) is None by {
                if i < s.len() - 1 {
                    assert(f(i, s.drop_last()[i]) is None);
                }
            }
        } else if forall|i: int| 0 <= i < s.len() ==> (#[trigger] f(i, s[i])) is None {
            assert forall|i: int| 0 <= i < s.drop_last().len() implies (#[trigger] f(i, s.drop_last()[i])) is None by {
                assert(f(i, s[i]) is None);
            }
            assert(f(s.len() - 1, s[s.len() - 1]) is None);
        }
    }
}

// ---------------------------------------------------------------------------
// Environment references.
// ---------------------------------------------------------------------------

/// A handle on an environment declared in one builder's catalog.
///
/// It records the intent that several triples concern the same environment; building
/// replaces it by the environment itself. A handle works only with the builder that made it.
#[derive(Clone, Debug, PartialEq, Eq)]
pub struct EnvRef {
    builder_id: u64,
    label: String,
    uid: u32,
}

/// Mathematical form of an [`EnvRef`].
pub struct RefModel {
    pub builder_id: int,
    pub label: Seq<char>,
    pub uid: int,
}

impl View for EnvRef {
    type V = RefModel;

    closed spec fn view(&self) -> RefModel {
        RefModel { builder_id: self.builder_id as int, label: self.label@, uid: self.uid as int }
    }
}

impl EnvRef {
    /// The label the environment was declared with.
    pub fn label(&self) -> (r: &str)
        ensures
            r@ == self@.label,
    {
        self.label.as_str()
    }

    /// A copy.
    pub fn copy(&self) -> (r: EnvRef)
        ensures
            r@ == self@,
    {
        EnvRef { builder_id: self.builder_id, label: self.label.clone(), uid: self.uid }
    }
}

/// An environment given inline or by a reference into the builder's catalog.
#[derive(Clone, Debug, PartialEq)]
#[non_exhaustive]
pub enum EnvSpec {
    /// An environment given as itself.
    Inline(EnvironmentMap),
    /// An environment declared with [`ComidBuilder::declare_env`].
    Ref(EnvRef),
}

/// Mathematical form of an [`EnvSpec`].
pub enum SpecModel {
    Inline(VModel),
    Ref(RefModel),
}

impl View for EnvSpec {
    type V = SpecModel;

    open spec fn view(&self) -> SpecModel {
        match self {
            EnvSpec::Inline(v) => SpecModel::Inline(v@),
            EnvSpec::Ref(r) => SpecModel::Ref(r@),
        }
    }
}

impl From<Value> for EnvSpec {
    fn from(env: Value) -> (r: EnvSpec) {
        EnvSpec::Inline(env)
    }
}

impl vstd::std_specs::convert::FromSpecImpl<Value> for EnvSpec {
    open spec fn obeys_from_spec() -> bool {
        true
    }

    open spec fn from_spec(v: Value) -> EnvSpec {
        EnvSpec::Inline(v)
    }
}

impl From<EnvRef> for EnvSpec {
    fn from(r: EnvRef) -> (s: EnvSpec) {
        EnvSpec::Ref(r)
    }
}

impl vstd::std_specs::convert::FromSpecImpl<EnvRef> for EnvSpec {
    open spec fn obeys_from_spec() -> bool {
        true
    }

    open spec fn from_spec(v: EnvRef) -> EnvSpec {
        EnvSpec::Ref(v)
    }
}

impl EnvSpec {
    /// A reference to a declared environment.
    pub fn of_ref(r: &EnvRef) -> (s: EnvSpec)
        ensures
            s@ == SpecModel::Ref(r@),
    {
        EnvSpec::Ref(r.copy())
    }
}

// ---------------------------------------------------------------------------
// Models.
// ---------------------------------------------------------------------------

/// The triples of a CoMID, by kind, in the order they were added.
#[verifier::ext_equal]
pub struct TriplesModel {
    pub reference: Seq<EnvListModel>,
    pub endorsed: Seq<EnvListModel>,
    pub identity: Seq<KeyModel>,
    pub attest_key: Seq<KeyModel>,
    pub dependency: Seq<EnvListModel>,
    pub membership: Seq<EnvListModel>,
    pub coswid: Seq<CoswidModel>,
    pub ces: Seq<CesModel>,
    pub ce: Seq<CeModel>,
}

/// The triples added through an environment specification, resolved when building.
#[verifier::ext_equal]
pub struct PendingModel {
    pub reference: Seq<(SpecModel, Seq<VModel>)>,
    pub endorsed: Seq<(SpecModel, Seq<VModel>)>,
    pub identity: Seq<(SpecModel, Seq<VModel>, Option<VModel>)>,
    pub attest_key: Seq<(SpecModel, Seq<VModel>, Option<VModel>)>,
    pub dependency: Seq<(SpecModel, Seq<SpecModel>)>,
    pub membership: Seq<(SpecModel, Seq<SpecModel>)>,
    pub coswid: Seq<(SpecModel, Seq<TagIdModel>)>,
    pub ces: Seq<(SpecModel, Seq<VModel>, Option<Seq<VModel>>, Seq<SeriesModel>)>,
    pub ce: Seq<(Seq<(SpecModel, Seq<VModel>)>, Seq<EnvListModel>)>,
}

/// Mathematical form of a [`ComidBuilder`].
pub struct ComidBuilderModel {
    pub tag_id: TagIdModel,
    pub tag_version: Option<int>,
    pub language: Option<Seq<char>>,
    pub entities: Seq<EntityModel>,
    pub linked_tags: Seq<VModel>,
    /// Triples added as themselves.
    pub triples: TriplesModel,
    pub strict_links: bool,
    /// The number that tells this builder's references from others'.
    pub builder_id: int,
    /// The declared environments: label, number and environment, in declaration order.
    pub catalog: Seq<(Seq<char>, int, VModel)>,
    /// The number the next declared environment gets.
    pub next_uid: int,
    pub pending: PendingModel,
}

/// The models of a list of environment specifications.
pub open spec fn spec_models(s: Seq<EnvSpec>) -> Seq<SpecModel> {
    s.map_values(|x: EnvSpec| x@)
}

/// The models of pending environment records.
pub open spec fn pc_models(s: Seq<(EnvSpec, Vec<Value>)>) -> Seq<(SpecModel, Seq<VModel>)> {
    s.map_values(|x: (EnvSpec, Vec<Value>)| (x.0@, model_list(x.1@)))
}

/// The models of pending key triples.
pub open spec fn pk_models(s: Seq<(EnvSpec, Vec<Value>, Option<Value>)>) -> Seq<(SpecModel, Seq<VModel>, Option<VModel>)> {
    s.map_values(|x: (EnvSpec, Vec<Value>, Option<Value>)| (x.0@, model_list(x.1@), opt_item(x.2)))
}

/// The models of pending domain triples.
pub open spec fn pd_models(s: Seq<(EnvSpec, Vec<EnvSpec>)>) -> Seq<(SpecModel, Seq<SpecModel>)> {
    s.map_values(|x: (EnvSpec, Vec<EnvSpec>)| (x.0@, spec_models(x.1@)))
}

/// The models of pending CoMID-CoSWID triples.
pub open spec fn pw_models(s: Seq<(EnvSpec, Vec<TagIdChoice>)>) -> Seq<(SpecModel, Seq<TagIdModel>)> {
    s.map_values(|x: (EnvSpec, Vec<TagIdChoice>)| (x.0@, tag_id_models(x.1@)))
}

/// The models of pending conditional-endorsement-series triples.
pub open spec fn ps_models(
    s: Seq<(EnvSpec, Vec<Value>, Option<Vec<Value>>, Vec<ConditionalSeriesRecord>)>,
) -> Seq<(SpecModel, Seq<VModel>, Option<Seq<VModel>>, Seq<SeriesModel>)> {
    s.map_values(
        |x: (EnvSpec, Vec<Value>, Option<Vec<Value>>, Vec<ConditionalSeriesRecord>)|
            (x.0@, model_list(x.1@), opt_items(x.2), series_models(x.3@)),
    )
}

/// The models of pending conditional-endorsement triples.
pub open spec fn pe_models(s: Seq<(Vec<(EnvSpec, Vec<Value>)>, Vec<EnvClaims>)>) -> Seq<(Seq<(SpecModel, Seq<VModel>)>, Seq<EnvListModel>)> {
    s.map_values(|x: (Vec<(EnvSpec, Vec<Value>)>, Vec<EnvClaims>)| (pc_models(x.0@), claims_models(x.1@)))
}

/// The models of key triples.
pub open spec fn key_models(s: Seq<KeyTriple>) -> Seq<KeyModel> {
    s.map_values(|x: KeyTriple| x@)
}

/// The models of domain triples.
pub open spec fn domain_models(s: Seq<DomainTriple>) -> Seq<EnvListModel> {
    s.map_values(|x: DomainTriple| x@)
}

/// The models of CoMID-CoSWID triples.
pub open spec fn coswid_models(s: Seq<CoswidTriple>) -> Seq<CoswidModel> {
    s.map_values(|x: CoswidTriple| x@)
}

/// The models of conditional-endorsement-series triples.
pub open spec fn ces_models(s: Seq<ConditionalEndorsementSeriesTriple>) -> Seq<CesModel> {
    s.map_values(|x: ConditionalEndorsementSeriesTriple| x@)
}

/// The models of conditional-endorsement triples.
pub open spec fn ce_models(s: Seq<ConditionalEndorsementTriple>) -> Seq<CeModel> {
    s.map_values(|x: ConditionalEndorsementTriple| x@)
}

/// The models of entities.
pub open spec fn entity_models(s: Seq<EntityMap>) -> Seq<EntityModel> {
    s.map_values(|x: EntityMap| x@)
}

/// The models of catalog entries.
pub open spec fn catalog_models(s: Seq<(String, u32, Value)>) -> Seq<(Seq<char>, int, VModel)> {
    s.map_values(|x: (String, u32, Value)| (x.0@, x.1 as int, x.2@))
}


/// The triples of a CoMID, by kind.
struct Triples {
    reference: Vec<EnvClaims>,
    endorsed: Vec<EnvClaims>,
    identity: Vec<KeyTriple>,
    attest_key: Vec<KeyTriple>,
    dependency: Vec<DomainTriple>,
    membership: Vec<DomainTriple>,
    coswid: Vec<CoswidTriple>,
    ces: Vec<ConditionalEndorsementSeriesTriple>,
    ce: Vec<ConditionalEndorsementTriple>,
}

impl View for Triples {
    type V = TriplesModel;

    closed spec fn view(&self) -> TriplesModel {
        TriplesModel {
            reference: claims_models(self.reference@),
            endorsed: claims_models(self.endorsed@),
            identity: key_models(self.identity@),
            attest_key: key_models(self.attest_key@),
            dependency: domain_models(self.dependency@),
            membership: domain_models(self.membership@),
            coswid: coswid_models(self.coswid@),
            ces: ces_models(self.ces@),
            ce: ce_models(self.ce@),
        }
    }
}

impl Triples {
    fn empty() -> (t: Triples)
        ensures
            t@ == no_triples(),
    {
        let t = Triples {
            reference: Vec::new(),
            endorsed: Vec::new(),
            identity: Vec::new(),
            attest_key: Vec::new(),
            dependency: Vec::new(),
            membership: Vec::new(),
            coswid: Vec::new(),
            ces: Vec::new(),
            ce: Vec::new(),
        };
        assert(t@ =~= no_triples());
        t
    }
}

// ---------------------------------------------------------------------------
// The builder.
// ---------------------------------------------------------------------------

/// Builder of a [`ComidTag`]: a tag identifier and any combination of the nine triple
/// kinds; at least one triple must be present to build.
#[must_use]
pub struct ComidBuilder {
    tag_id: TagIdChoice,
    tag_version: Option<u64>,
    language: Option<String>,
    entities: Vec<EntityMap>,
    linked_tags: Vec<LinkedTagMap>,
    triples: Triples,
    strict_links: bool,
    builder_id: u64,
    env_catalog: Vec<(String, u32, EnvironmentMap)>,
    next_env_uid: u32,
    pending_reference: Vec<(EnvSpec, Vec<MeasurementMap>)>,
    pending_endorsed: Vec<(EnvSpec, Vec<MeasurementMap>)>,
    pending_identity: Vec<(EnvSpec, Vec<CryptoKey>, Option<KeyTripleConditions>)>,
    pending_attest_key: Vec<(EnvSpec, Vec<CryptoKey>, Option<KeyTripleConditions>)>,
    pending_dependency: Vec<(EnvSpec, Vec<EnvSpec>)>,
    pending_membership: Vec<(EnvSpec, Vec<EnvSpec>)>,
    pending_coswid: Vec<(EnvSpec, Vec<TagIdChoice>)>,
    pending_ces: Vec<(EnvSpec, Vec<MeasurementMap>, Option<Vec<CryptoKey>>, Vec<ConditionalSeriesRecord>)>,
    pending_ce: Vec<(Vec<(EnvSpec, Vec<MeasurementMap>)>, Vec<EnvClaims>)>,
}

impl View for ComidBuilder {
    type V = ComidBuilderModel;

    closed spec fn view(&self) -> ComidBuilderModel {
        ComidBuilderModel {
            tag_id: self.tag_id@,
            tag_version: match self.tag_version {
                Some(v) => Some(v as int),
                None => None,
            },
            language: match self.language {
                Some(l) => Some(l@),
                None => None,
            },
            entities: entity_models(self.entities@),
            linked_tags: model_list(self.linked_tags@),
            triples: self.triples@,
            strict_links: self.strict_links,
            builder_id: self.builder_id as int,
            catalog: catalog_models(self.env_catalog@),
            next_uid: self.next_env_uid as int,
            pending: PendingModel {
                reference: pc_models(self.pending_reference@),
                endorsed: pc_models(self.pending_endorsed@),
                identity: pk_models(self.pending_identity@),
                attest_key: pk_models(self.pending_attest_key@),
                dependency: pd_models(self.pending_dependency@),
                membership: pd_models(self.pending_membership@),
                coswid: pw_models(self.pending_coswid@),
                ces: ps_models(self.pending_ces@),
                ce: pe_models(self.pending_ce@),
            },
        }
    }
}

/// std's `RandomState::new`: a hasher builder whose keys differ from those of the
/// previous one made in the same thread. Nothing is stated of it.
#[verifier::external_body]
fn random_state() -> std::hash::RandomState {
    std::hash::RandomState::new()
}

/// std's `BuildHasher::hash_one` of the byte 0 under the given keys. The number depends on
/// the keys, which are drawn at random: nothing is stated of it.
#[verifier::external_body]
fn hash_of_zero(s: &std::hash::RandomState) -> u64 {
    std::hash::BuildHasher::hash_one(s, 0u8)
}

/// The (empty) triples of a new builder.
pub open spec fn no_triples() -> TriplesModel {
    TriplesModel {
        reference: Seq::empty(),
        endorsed: Seq::empty(),
        identity: Seq::empty(),
        attest_key: Seq::empty(),
        dependency: Seq::empty(),
        membership: Seq::empty(),
        coswid: Seq::empty(),
        ces: Seq::empty(),
        ce: Seq::empty(),
    }
}

/// The (empty) pending triples of a new builder.
pub open spec fn no_pending() -> PendingModel {
    PendingModel {
        reference: Seq::empty(),
        endorsed: Seq::empty(),
        identity: Seq::empty(),
        attest_key: Seq::empty(),
        dependency: Seq::empty(),
        membership: Seq::empty(),
        coswid: Seq::empty(),
        ces: Seq::empty(),
        ce: Seq::empty(),
    }
}

impl ComidBuilder {
    /// A builder for a CoMID with the given tag identifier; it draws a number that tells its
    /// environment references from those of other builders.
    pub fn new(tag_id: TagIdChoice) -> (b: Self)
        ensures
            b@.tag_id == tag_id@,
            b@.tag_version is None,
            b@.language is None,
            b@.entities.len() == 0,
            b@.linked_tags.len() == 0,
            b@.triples == no_triples(),
            !b@.strict_links,
            b@.catalog.len() == 0,
            b@.next_uid == 0,
            b@.pending == no_pending(),
    {
        let keys = random_state();
        let builder_id = hash_of_zero(&keys);
        let b = ComidBuilder {
            tag_id,
            tag_version: None,
            language: None,
            entities: Vec::new(),
            linked_tags: Vec::new(),
            triples: Triples::empty(),
            strict_links: false,
            builder_id,
            env_catalog: Vec::new(),
            next_env_uid: 0,
            pending_reference: Vec::new(),
            pending_endorsed: Vec::new(),
            pending_identity: Vec::new(),
            pending_attest_key: Vec::new(),
            pending_dependency: Vec::new(),
            pending_membership: Vec::new(),
            pending_coswid: Vec::new(),
            pending_ces: Vec::new(),
            pending_ce: Vec::new(),
        };
        assert(b@.pending =~= no_pending());
        assert(b@.entities =~= Seq::<EntityModel>::empty());
        assert(b@.catalog =~= Seq::<(Seq<char>, int, VModel)>::empty());
        b
    }
}

impl ComidBuilder {
    /// Turn the anchoring lint on or off.
    pub fn strict_links(self, enable: bool) -> (b: Self)
        ensures
            b@ == (ComidBuilderModel { strict_links: enable, ..self@ }),
    {
        ComidBuilder { strict_links: enable, ..self }
    }

    /// Set the tag version.
    pub fn set_tag_version(self, version: u64) -> (b: Self)
        ensures
            b@ == (ComidBuilderModel { tag_version: Some(version as int), ..self@ }),
    {
        ComidBuilder { tag_version: Some(version), ..self }
    }

    /// Set the language tag.
    pub fn set_language(self, lang: &str) -> (b: Self)
        ensures
            b@ == (ComidBuilderModel { language: Some(lang@), ..self@ }),
    {
        ComidBuilder { language: Some(String::from_str(lang)), ..self }
    }

    /// Add an entity.
    pub fn add_entity(self, entity: EntityMap) -> (b: Self)
        ensures
            b@ == (ComidBuilderModel { entities: self@.entities.push(entity@), ..self@ }),
    {
        let mut b = self;
        let ghost prev = b.entities@;
        b.entities.push(entity);
        proof {
            assert(entity_models(b.entities@) =~= entity_models(prev).push(entity@));
        }
        b
    }

    /// Add a linked tag.
    pub fn add_linked_tag(self, linked_tag: LinkedTagMap) -> (b: Self)
        ensures
            b@ == (ComidBuilderModel { linked_tags: self@.linked_tags.push(linked_tag@), ..self@ }),
    {
        let mut b = self;
        let ghost prev = b.linked_tags@;
        proof {
            lemma_model_list_push(prev, linked_tag);
        }
        b.linked_tags.push(linked_tag);
        assert(model_list(b.linked_tags@) =~= self@.linked_tags.push(linked_tag@));
        b
    }

    /// Add a reference-values triple.
    pub fn add_reference_triple(self, triple: EnvClaims) -> (b: Self)
        ensures
            b@ == (ComidBuilderModel { triples: TriplesModel { reference: self@.triples.reference.push(triple@), ..self@.triples }, ..self@ }),
    {
        let mut b = self;
        let ghost prev = b.triples.reference@;
        b.triples.reference.push(triple);
        proof {
            assert(claims_models(b.triples.reference@) =~= claims_models(prev).push(triple@));
        }
        b
    }

    /// Add an endorsed-values triple.
    pub fn add_endorsed_triple(self, triple: EnvClaims) -> (b: Self)
        ensures
            b@ == (ComidBuilderModel { triples: TriplesModel { endorsed: self@.triples.endorsed.push(triple@), ..self@.triples }, ..self@ }),
    {
        let mut b = self;
        let ghost prev = b.triples.endorsed@;
        b.triples.endorsed.push(triple);
        proof {
            assert(claims_models(b.triples.endorsed@) =~= claims_models(prev).push(triple@));
        }
        b
    }

    /// Add a device-identity triple.
    pub fn add_identity_triple(self, triple: KeyTriple) -> (b: Self)
        ensures
            b@ == (ComidBuilderModel { triples: TriplesModel { identity: self@.triples.identity.push(triple@), ..self@.triples }, ..self@ }),
    {
        let mut b = self;
        let ghost prev = b.triples.identity@;
        b.triples.identity.push(triple);
        proof {
            assert(key_models(b.triples.identity@) =~= key_models(prev).push(triple@));
        }
        b
    }

    /// Add an attest-key triple.
    pub fn add_attest_key_triple(self, triple: KeyTriple) -> (b: Self)
        ensures
            b@ == (ComidBuilderModel { triples: TriplesModel { attest_key: self@.triples.attest_key.push(triple@), ..self@.triples }, ..self@ }),
    {
        let mut b = self;
        let ghost prev = b.triples.attest_key@;
        b.triples.attest_key.push(triple);
        proof {
            assert(key_models(b.triples.attest_key@) =~= key_models(prev).push(triple@));
        }
        b
    }

    /// Add a domain-dependency triple.
    pub fn add_dependency_triple(self, triple: DomainTriple) -> (b: Self)
        ensures
            b@ == (ComidBuilderModel { triples: TriplesModel { dependency: self@.triples.dependency.push(triple@), ..self@.triples }, ..self@ }),
    {
        let mut b = self;
        let ghost prev = b.triples.dependency@;
        b.triples.dependency.push(triple);
        proof {
            assert(domain_models(b.triples.dependency@) =~= domain_models(prev).push(triple@));
        }
        b
    }

    /// Add a domain-membership triple.
    pub fn add_membership_triple(self, triple: DomainTriple) -> (b: Self)
        ensures
            b@ == (ComidBuilderModel { triples: TriplesModel { membership: self@.triples.membership.push(triple@), ..self@.triples }, ..self@ }),
    {
        let mut b = self;
        let ghost prev = b.triples.membership@;
        b.triples.membership.push(triple);
        proof {
            assert(domain_models(b.triples.membership@) =~= domain_models(prev).push(triple@));
        }
        b
    }

    /// Add a CoMID-CoSWID linking triple.
    pub fn add_coswid_triple(self, triple: CoswidTriple) -> (b: Self)
        ensures
            b@ == (ComidBuilderModel { triples: TriplesModel { coswid: self@.triples.coswid.push(triple@), ..self@.triples }, ..self@ }),
    {
        let mut b = self;
        let ghost prev = b.triples.coswid@;
        b.triples.coswid.push(triple);
        proof {
            assert(coswid_models(b.triples.coswid@) =~= coswid_models(prev).push(triple@));
        }
        b
    }

    /// Add a conditional-endorsement-series triple.
    pub fn add_conditional_endorsement_series(self, triple: ConditionalEndorsementSeriesTriple) -> (b: Self)
        ensures
            b@ == (ComidBuilderModel { triples: TriplesModel { ces: self@.triples.ces.push(triple@), ..self@.triples }, ..self@ }),
    {
        let mut b = self;
        let ghost prev = b.triples.ces@;
        b.triples.ces.push(triple);
        proof {
            assert(ces_models(b.triples.ces@) =~= ces_models(prev).push(triple@));
        }
        b
    }

    /// Add a conditional-endorsement triple.
    pub fn add_conditional_endorsement(self, triple: ConditionalEndorsementTriple) -> (b: Self)
        ensures
            b@ == (ComidBuilderModel { triples: TriplesModel { ce: self@.triples.ce.push(triple@), ..self@.triples }, ..self@ }),
    {
        let mut b = self;
        let ghost prev = b.triples.ce@;
        b.triples.ce.push(triple);
        proof {
            assert(ce_models(b.triples.ce@) =~= ce_models(prev).push(triple@));
        }
        b
    }

    /// Add a reference-values triple whose environment is given inline or by reference;
    /// references are resolved when building.
    pub fn add_reference_triple_for(self, env: EnvSpec, measurements: Vec<MeasurementMap>) -> (b: Self)
        ensures
            b@ == (ComidBuilderModel { pending: PendingModel { reference: self@.pending.reference.push((env@, model_list(measurements@))), ..self@.pending }, ..self@ }),
    {
        let mut b = self;
        let ghost prev = b.pending_reference@;
        let ghost added = (env@, model_list(measurements@));
        b.pending_reference.push((env, measurements));
        proof {
            assert(pc_models(b.pending_reference@) =~= pc_models(prev).push(added));
        }
        b
    }

    /// Add an endorsed-values triple whose environment is given inline or by reference.
    pub fn add_endorsed_triple_for(self, env: EnvSpec, endorsement: Vec<MeasurementMap>) -> (b: Self)
        ensures
            b@ == (ComidBuilderModel { pending: PendingModel { endorsed: self@.pending.endorsed.push((env@, model_list(endorsement@))), ..self@.pending }, ..self@ }),
    {
        let mut b = self;
        let ghost prev = b.pending_endorsed@;
        let ghost added = (env@, model_list(endorsement@));
        b.pending_endorsed.push((env, endorsement));
        proof {
            assert(pc_models(b.pending_endorsed@) =~= pc_models(prev).push(added));
        }
        b
    }

    /// Add a device-identity triple whose environment is given inline or by reference.
    pub fn add_identity_triple_for(self, env: EnvSpec, keys: Vec<CryptoKey>, conditions: Option<KeyTripleConditions>) -> (b: Self)
        ensures
            b@ == (ComidBuilderModel { pending: PendingModel { identity: self@.pending.identity.push((env@, model_list(keys@), opt_item(conditions))), ..self@.pending }, ..self@ }),
    {
        let mut b = self;
        let ghost prev = b.pending_identity@;
        let ghost added = (env@, model_list(keys@), opt_item(conditions));
        b.pending_identity.push((env, keys, conditions));
        proof {
            assert(pk_models(b.pending_identity@) =~= pk_models(prev).push(added));
        }
        b
    }

    /// Add an attest-key triple whose environment is given inline or by reference.
    pub fn add_attest_key_triple_for(self, env: EnvSpec, keys: Vec<CryptoKey>, conditions: Option<KeyTripleConditions>) -> (b: Self)
        ensures
            b@ == (ComidBuilderModel { pending: PendingModel { attest_key: self@.pending.attest_key.push((env@, model_list(keys@), opt_item(conditions))), ..self@.pending }, ..self@ }),
    {
        let mut b = self;
        let ghost prev = b.pending_attest_key@;
        let ghost added = (env@, model_list(keys@), opt_item(conditions));
        b.pending_attest_key.push((env, keys, conditions));
        proof {
            assert(pk_models(b.pending_attest_key@) =~= pk_models(prev).push(added));
        }
        b
    }

    /// Add a domain-dependency triple whose domain and trustees are given inline or by
    /// reference.
    pub fn add_dependency_triple_for(self, domain: EnvSpec, trustees: Vec<EnvSpec>) -> (b: Self)
        ensures
            b@ == (ComidBuilderModel { pending: PendingModel { dependency: self@.pending.dependency.push((domain@, spec_models(trustees@))), ..self@.pending }, ..self@ }),
    {
        let mut b = self;
        let ghost prev = b.pending_dependency@;
        let ghost added = (domain@, spec_models(trustees@));
        b.pending_dependency.push((domain, trustees));
        proof {
            assert(pd_models(b.pending_dependency@) =~= pd_models(prev).push(added));
        }
        b
    }

    /// Add a domain-membership triple whose domain and members are given inline or by
    /// reference.
    pub fn add_membership_triple_for(self, domain: EnvSpec, members: Vec<EnvSpec>) -> (b: Self)
        ensures
            b@ == (ComidBuilderModel { pending: PendingModel { membership: self@.pending.membership.push((domain@, spec_models(members@))), ..self@.pending }, ..self@ }),
    {
        let mut b = self;
        let ghost prev = b.pending_membership@;
        let ghost added = (domain@, spec_models(members@));
        b.pending_membership.push((domain, members));
        proof {
            assert(pd_models(b.pending_membership@) =~= pd_models(prev).push(added));
        }
        b
    }

    /// Add a CoMID-CoSWID linking triple whose environment is given inline or by reference.
    pub fn add_coswid_triple_for(self, env: EnvSpec, tag_ids: Vec<TagIdChoice>) -> (b: Self)
        ensures
            b@ == (ComidBuilderModel { pending: PendingModel { coswid: self@.pending.coswid.push((env@, tag_id_models(tag_ids@))), ..self@.pending }, ..self@ }),
    {
        let mut b = self;
        let ghost prev = b.pending_coswid@;
        let ghost added = (env@, tag_id_models(tag_ids@));
        b.pending_coswid.push((env, tag_ids));
        proof {
            assert(pw_models(b.pending_coswid@) =~= pw_models(prev).push(added));
        }
        b
    }

    /// Add a conditional-endorsement-series triple from the parts of its condition (the
    /// environment given inline or by reference) and its series.
    pub fn add_conditional_endorsement_series_for(self, condition_env: EnvSpec, condition_claims_list: Vec<MeasurementMap>, condition_authorized_by: Option<Vec<CryptoKey>>, series: Vec<ConditionalSeriesRecord>) -> (b: Self)
        ensures
            b@ == (ComidBuilderModel { pending: PendingModel { ces: self@.pending.ces.push((condition_env@, model_list(condition_claims_list@), opt_items(condition_authorized_by), series_models(series@))), ..self@.pending }, ..self@ }),
    {
        let mut b = self;
        let ghost prev = b.pending_ces@;
        let ghost added = (condition_env@, model_list(condition_claims_list@), opt_items(condition_authorized_by), series_models(series@));
        b.pending_ces.push((condition_env, condition_claims_list, condition_authorized_by, series));
        proof {
            assert(ps_models(b.pending_ces@) =~= ps_models(prev).push(added));
        }
        b
    }

    /// Add a conditional-endorsement triple whose condition environments are given inline
    /// or by reference.
    pub fn add_conditional_endorsement_for(self, conditions: Vec<(EnvSpec, Vec<MeasurementMap>)>, endorsements: Vec<EnvClaims>) -> (b: Self)
        ensures
            b@ == (ComidBuilderModel { pending: PendingModel { ce: self@.pending.ce.push((pc_models(conditions@), claims_models(endorsements@))), ..self@.pending }, ..self@ }),
    {
        let mut b = self;
        let ghost prev = b.pending_ce@;
        let ghost added = (pc_models(conditions@), claims_models(endorsements@));
        b.pending_ce.push((conditions, endorsements));
        proof {
            assert(pe_models(b.pending_ce@) =~= pe_models(prev).push(added));
        }
        b
    }
}

// ---------------------------------------------------------------------------
// The environment catalog.
// ---------------------------------------------------------------------------

/// The environment declared under a label (the first entry with it).
pub open spec fn catalog_lookup(c: Seq<(Seq<char>, int, VModel)>, label: Seq<char>) -> Option<VModel>
    decreases c.len(),
{
    if c.len() == 0 {
        None
    } else if c[0].0 == label {
        Some(c[0].2)
    } else {
        catalog_lookup(c.drop_first(), label)
    }
}

/// The environment a specification stands for, or the label of a reference that this
/// builder did not hand out.
pub open spec fn resolve_env(m: ComidBuilderModel, s: SpecModel) -> Result<VModel, Seq<char>> {
    match s {
        SpecModel::Inline(v) => Ok(v),
        SpecModel::Ref(r) => if r.builder_id == m.builder_id {
            match catalog_lookup(m.catalog, r.label) {
                Some(v) => Ok(v),
                None => Err(r.label),
            }
        } else {
            Err(r.label)
        },
    }
}

impl ComidBuilder {
    /// The environment declared under a label.
    fn lookup(&self, label: &str) -> (r: Option<&Value>)
        ensures
            match catalog_lookup(self@.catalog, label@) {
                Some(v) => r matches Some(x) && x@ == v,
                None => r is None,
            },
    {
        let ghost c = self@.catalog;
        let mut i: usize = 0;
        assert(c.subrange(0, c.len() as int) =~= c);
        while i < self.env_catalog.len()
            invariant
                i <= self.env_catalog@.len(),
                c == catalog_models(self.env_catalog@),
                c.len() == self.env_catalog@.len(),
                catalog_lookup(c, label@) == catalog_lookup(c.subrange(i as int, c.len() as int), label@),
            decreases self.env_catalog@.len() - i,
        {
            let ghost rest = c.subrange(i as int, c.len() as int);
            assert(rest.drop_first() =~= c.subrange(i + 1, c.len() as int));
            assert(rest[0] == c[i as int]);
            if str_eq(self.env_catalog[i].0.as_str(), label) {
                return Some(&self.env_catalog[i].2);
            }
            i += 1;
        }
        None
    }

    /// The environment a specification stands for, or the label of a foreign reference.
    fn resolve(&self, spec: &EnvSpec) -> (r: Result<Value, String>)
        ensures
            match resolve_env(self@, spec@) {
                Ok(v) => r matches Ok(x) && x@ == v,
                Err(l) => r matches Err(x) && x@ == l,
            },
    {
        match spec {
            EnvSpec::Inline(v) => Ok(clone_value(v)),
            EnvSpec::Ref(r) => {
                if r.builder_id != self.builder_id {
                    return Err(r.label.clone());
                }
                match self.lookup(r.label.as_str()) {
                    Some(v) => Ok(clone_value(v)),
                    None => Err(r.label.clone()),
                }
            },
        }
    }

    /// Declare an environment under a label and get a reference to it; fails when the label
    /// is taken or the numbering is exhausted, leaving the builder as it was.
    pub fn declare_env(&mut self, label: &str, env: EnvironmentMap) -> (r: Result<EnvRef, BuilderError>)
        ensures
            catalog_lookup(old(self)@.catalog, label@) is Some ==> (r matches Err(
                BuilderError::DuplicateEnvLabel { label: l },
            ) && l@ == label@ && final(self)@ == old(self)@),
            catalog_lookup(old(self)@.catalog, label@) is None && old(self)@.next_uid == u32::MAX ==> (r matches Err(
                BuilderError::Validation(msg),
            ) && msg@ == "env-catalog uid counter overflow"@ && final(self)@ == old(self)@),
            catalog_lookup(old(self)@.catalog, label@) is None && old(self)@.next_uid < u32::MAX ==> (r matches Ok(e)
                && e@ == (RefModel { builder_id: old(self)@.builder_id, label: label@, uid: old(self)@.next_uid })
                && final(self)@ == (ComidBuilderModel {
                catalog: old(self)@.catalog.push((label@, old(self)@.next_uid, env@)),
                next_uid: old(self)@.next_uid + 1,
                ..old(self)@
            })),
    {
        if self.lookup(label).is_some() {
            return Err(BuilderError::DuplicateEnvLabel { label: String::from_str(label) });
        }
        let uid = self.next_env_uid;
        if uid == u32::MAX {
            return Err(BuilderError::Validation(String::from_str("env-catalog uid counter overflow")));
        }
        self.next_env_uid = uid + 1;
        let ghost prev = self.env_catalog@;
        self.env_catalog.push((String::from_str(label), uid, env));
        proof {
            assert(catalog_models(self.env_catalog@) =~= catalog_models(prev).push((label@, uid as int, env@)));
        }
        Ok(EnvRef { builder_id: self.builder_id, label: String::from_str(label), uid })
    }
}

// ---------------------------------------------------------------------------
// Resolving the pending triples.
// ---------------------------------------------------------------------------

/// The label of a specification that does not resolve.
pub open spec fn spec_err(m: ComidBuilderModel, s: SpecModel) -> Option<Seq<char>> {
    match resolve_env(m, s) {
        Err(l) => Some(l),
        Ok(_) => None,
    }
}

/// The environment a resolvable specification stands for.
pub open spec fn env_of(m: ComidBuilderModel, s: SpecModel) -> VModel {
    match resolve_env(m, s) {
        Ok(v) => v,
        Err(_) => VModel::Null,
    }
}

/// The environments of a list of resolvable specifications.
pub open spec fn envs_of(m: ComidBuilderModel, s: Seq<SpecModel>) -> Seq<VModel> {
    s.map_values(|x: SpecModel| env_of(m, x))
}

/// Resolving one specification of a list.
pub open spec fn specs_check(m: ComidBuilderModel) -> spec_fn(int, SpecModel) -> Option<Seq<char>> {
    |i: int, x: SpecModel| spec_err(m, x)
}

/// Resolving the environment of a pending record.
pub open spec fn pc_check(m: ComidBuilderModel) -> spec_fn(int, (SpecModel, Seq<VModel>)) -> Option<Seq<char>> {
    |i: int, x: (SpecModel, Seq<VModel>)| spec_err(m, x.0)
}

/// Resolving the environment of a pending key triple.
pub open spec fn pk_check(m: ComidBuilderModel) -> spec_fn(int, (SpecModel, Seq<VModel>, Option<VModel>)) -> Option<Seq<char>> {
    |i: int, x: (SpecModel, Seq<VModel>, Option<VModel>)| spec_err(m, x.0)
}

/// Resolving the domain, then each environment, of a pending domain triple.
pub open spec fn pd_check(m: ComidBuilderModel) -> spec_fn(int, (SpecModel, Seq<SpecModel>)) -> Option<Seq<char>> {
    |i: int, x: (SpecModel, Seq<SpecModel>)| or_else(spec_err(m, x.0), first_fail(x.1, specs_check(m)))
}

/// Resolving the environment of a pending CoMID-CoSWID triple.
pub open spec fn pw_check(m: ComidBuilderModel) -> spec_fn(int, (SpecModel, Seq<TagIdModel>)) -> Option<Seq<char>> {
    |i: int, x: (SpecModel, Seq<TagIdModel>)| spec_err(m, x.0)
}

/// Resolving the condition environment of a pending conditional-endorsement-series triple.
pub open spec fn ps_check(m: ComidBuilderModel) -> spec_fn(int, (SpecModel, Seq<VModel>, Option<Seq<VModel>>, Seq<SeriesModel>)) -> Option<Seq<char>> {
    |i: int, x: (SpecModel, Seq<VModel>, Option<Seq<VModel>>, Seq<SeriesModel>)| spec_err(m, x.0)
}

/// Resolving each condition environment of a pending conditional-endorsement triple.
pub open spec fn pe_check(m: ComidBuilderModel) -> spec_fn(int, (Seq<(SpecModel, Seq<VModel>)>, Seq<EnvListModel>)) -> Option<Seq<char>> {
    |i: int, x: (Seq<(SpecModel, Seq<VModel>)>, Seq<EnvListModel>)| first_fail(x.0, pc_check(m))
}

/// The pending records with their environments resolved.
pub open spec fn pc_resolved(m: ComidBuilderModel, s: Seq<(SpecModel, Seq<VModel>)>) -> Seq<EnvListModel> {
    s.map_values(|x: (SpecModel, Seq<VModel>)| (env_of(m, x.0), x.1))
}

/// The pending key triples with their environments resolved.
pub open spec fn pk_resolved(m: ComidBuilderModel, s: Seq<(SpecModel, Seq<VModel>, Option<VModel>)>) -> Seq<KeyModel> {
    s.map_values(|x: (SpecModel, Seq<VModel>, Option<VModel>)| (env_of(m, x.0), x.1, x.2))
}

/// The pending domain triples with their environments resolved.
pub open spec fn pd_resolved(m: ComidBuilderModel, s: Seq<(SpecModel, Seq<SpecModel>)>) -> Seq<EnvListModel> {
    s.map_values(|x: (SpecModel, Seq<SpecModel>)| (env_of(m, x.0), envs_of(m, x.1)))
}

/// The pending CoMID-CoSWID triples with their environments resolved.
pub open spec fn pw_resolved(m: ComidBuilderModel, s: Seq<(SpecModel, Seq<TagIdModel>)>) -> Seq<CoswidModel> {
    s.map_values(|x: (SpecModel, Seq<TagIdModel>)| (env_of(m, x.0), x.1))
}

/// The pending conditional-endorsement-series triples with their environments resolved.
pub open spec fn ps_resolved(m: ComidBuilderModel, s: Seq<(SpecModel, Seq<VModel>, Option<Seq<VModel>>, Seq<SeriesModel>)>) -> Seq<CesModel> {
    s.map_values(
        |x: (SpecModel, Seq<VModel>, Option<Seq<VModel>>, Seq<SeriesModel>)| ((env_of(m, x.0), x.1, x.2), x.3),
    )
}

/// The pending conditional-endorsement triples with their environments resolved.
pub open spec fn pe_resolved(m: ComidBuilderModel, s: Seq<(Seq<(SpecModel, Seq<VModel>)>, Seq<EnvListModel>)>) -> Seq<CeModel> {
    s.map_values(|x: (Seq<(SpecModel, Seq<VModel>)>, Seq<EnvListModel>)| (pc_resolved(m, x.0), x.1))
}

/// The label of the first reference, in the order of kinds and of addition, that this
/// builder did not hand out.
pub open spec fn resolution_error(m: ComidBuilderModel) -> Option<Seq<char>> {
    or_else(
        first_fail(m.pending.reference, pc_check(m)),
        or_else(
            first_fail(m.pending.endorsed, pc_check(m)),
            or_else(
                first_fail(m.pending.identity, pk_check(m)),
                or_else(
                    first_fail(m.pending.attest_key, pk_check(m)),
                    or_else(
                        first_fail(m.pending.dependency, pd_check(m)),
                        or_else(
                            first_fail(m.pending.membership, pd_check(m)),
                            or_else(
                                first_fail(m.pending.coswid, pw_check(m)),
                                or_else(first_fail(m.pending.ces, ps_check(m)), first_fail(m.pending.ce, pe_check(m))),
                            ),
                        ),
                    ),
                ),
            ),
        ),
    )
}

/// All the triples of a builder: those added as themselves, then the resolved pending ones,
/// kind by kind.
pub open spec fn full_triples(m: ComidBuilderModel) -> TriplesModel {
    TriplesModel {
        reference: m.triples.reference + pc_resolved(m, m.pending.reference),
        endorsed: m.triples.endorsed + pc_resolved(m, m.pending.endorsed),
        identity: m.triples.identity + pk_resolved(m, m.pending.identity),
        attest_key: m.triples.attest_key + pk_resolved(m, m.pending.attest_key),
        dependency: m.triples.dependency + pd_resolved(m, m.pending.dependency),
        membership: m.triples.membership + pd_resolved(m, m.pending.membership),
        coswid: m.triples.coswid + pw_resolved(m, m.pending.coswid),
        ces: m.triples.ces + ps_resolved(m, m.pending.ces),
        ce: m.triples.ce + pe_resolved(m, m.pending.ce),
    }
}

fn clone_opt(o: &Option<Value>) -> (r: Option<Value>)
    ensures
        opt_item(r) == opt_item(*o),
{
    match o {
        Some(v) => Some(clone_value(v)),
        None => None,
    }
}

fn clone_opt_list(o: &Option<Vec<Value>>) -> (r: Option<Vec<Value>>)
    ensures
        opt_items(r) == opt_items(*o),
{
    match o {
        Some(v) => Some(clone_list(v)),
        None => None,
    }
}

fn copy_tag_ids(v: &Vec<TagIdChoice>) -> (r: Vec<TagIdChoice>)
    ensures
        tag_id_models(r@) == tag_id_models(v@),
{
    let mut out: Vec<TagIdChoice> = Vec::new();
    let mut i: usize = 0;
    while i < v.len()
        invariant
            i <= v@.len(),
            tag_id_models(out@) == tag_id_models(v@).take(i as int),
        decreases v@.len() - i,
    {
        let x = match &v[i] {
            TagIdChoice::Text(t) => TagIdChoice::Text(t.clone()),
            TagIdChoice::Uuid(u) => TagIdChoice::Uuid(crate::cbor::copy_bytes(u.as_slice())),
        };
        let ghost prev = out@;
        out.push(x);
        proof {
            assert(x@ == v@[i as int]@);
            assert(tag_id_models(out@) =~= tag_id_models(prev).push(x@));
            assert(tag_id_models(v@).take(i + 1) =~= tag_id_models(v@).take(i as int).push(x@));
        }
        i += 1;
    }
    proof {
        assert(tag_id_models(v@).take(i as int) =~= tag_id_models(v@));
    }
    out
}

fn copy_series(v: &Vec<ConditionalSeriesRecord>) -> (r: Vec<ConditionalSeriesRecord>)
    ensures
        series_models(r@) == series_models(v@),
{
    let mut out: Vec<ConditionalSeriesRecord> = Vec::new();
    let mut i: usize = 0;
    while i < v.len()
        invariant
            i <= v@.len(),
            series_models(out@) == series_models(v@).take(i as int),
        decreases v@.len() - i,
    {
        let x = ConditionalSeriesRecord(clone_list(&v[i].0), clone_list(&v[i].1));
        let ghost prev = out@;
        out.push(x);
        proof {
            assert(x@ == v@[i as int]@);
            assert(series_models(out@) =~= series_models(prev).push(x@));
            assert(series_models(v@).take(i + 1) =~= series_models(v@).take(i as int).push(x@));
        }
        i += 1;
    }
    proof {
        assert(series_models(v@).take(i as int) =~= series_models(v@));
    }
    out
}

fn copy_claims(v: &Vec<EnvClaims>) -> (r: Vec<EnvClaims>)
    ensures
        claims_models(r@) == claims_models(v@),
{
    let mut out: Vec<EnvClaims> = Vec::new();
    let mut i: usize = 0;
    while i < v.len()
        invariant
            i <= v@.len(),
            claims_models(out@) == claims_models(v@).take(i as int),
        decreases v@.len() - i,
    {
        let x = v[i].copy();
        let ghost prev = out@;
        out.push(x);
        proof {
            assert(claims_models(out@) =~= claims_models(prev).push(x@));
            assert(claims_models(v@).take(i + 1) =~= claims_models(v@).take(i as int).push(x@));
        }
        i += 1;
    }
    proof {
        assert(claims_models(v@).take(i as int) =~= claims_models(v@));
    }
    out
}

impl ComidBuilder {
    /// The environments of a list of specifications, or the label of the first foreign one.
    fn resolve_list(&self, specs: &Vec<EnvSpec>) -> (r: Result<Vec<Value>, String>)
        ensures
            match first_fail(spec_models(specs@), specs_check(self@)) {
                Some(l) => r matches Err(x) && x@ == l,
                None => r matches Ok(v) && model_list(v@) == envs_of(self@, spec_models(specs@)),
            },
    {
        let ghost ps = spec_models(specs@);
        let mut out: Vec<Value> = Vec::new();
        let mut i: usize = 0;
        while i < specs.len()
            invariant
                i <= specs@.len(),
                ps == spec_models(specs@),
                first_fail(ps.take(i as int), specs_check(self@)) is None,
                model_list(out@) == envs_of(self@, ps).take(i as int),
            decreases specs@.len() - i,
        {
            proof {
                lemma_first_fail_step(ps, specs_check(self@), i as int);
            }
            match self.resolve(&specs[i]) {
                Err(l) => {
                    proof {
                        lemma_first_fail_prefix(ps, specs_check(self@), i + 1);
                    }
                    return Err(l);
                },
                Ok(env) => {
                    proof {
                        lemma_model_list_push(out@, env);
                        assert(envs_of(self@, ps).take(i + 1) =~= envs_of(self@, ps).take(i as int).push(env@));
                    }
                    out.push(env);
                },
            }
            i += 1;
        }
        proof {
            lemma_first_fail_all(ps, specs_check(self@));
            assert(envs_of(self@, ps).take(i as int) =~= envs_of(self@, ps));
        }
        Ok(out)
    }

    /// Pending records with their environments resolved, or the label of the first foreign
    /// reference.
    fn resolve_claims(&self, p: &Vec<(EnvSpec, Vec<Value>)>) -> (r: Result<Vec<EnvClaims>, String>)
        ensures
            match first_fail(pc_models(p@), pc_check(self@)) {
                Some(l) => r matches Err(x) && x@ == l,
                None => r matches Ok(v) && claims_models(v@) == pc_resolved(self@, pc_models(p@)),
            },
    {
        let ghost ps = pc_models(p@);
        let mut out: Vec<EnvClaims> = Vec::new();
        let mut i: usize = 0;
        while i < p.len()
            invariant
                i <= p@.len(),
                ps == pc_models(p@),
                first_fail(ps.take(i as int), pc_check(self@)) is None,
                claims_models(out@) == pc_resolved(self@, ps).take(i as int),
            decreases p@.len() - i,
        {
            proof {
                lemma_first_fail_step(ps, pc_check(self@), i as int);
            }
            match self.resolve(&p[i].0) {
                Err(l) => {
                    proof {
                        lemma_first_fail_prefix(ps, pc_check(self@), i + 1);
                    }
                    return Err(l);
                },
                Ok(env) => {
                    let x = EnvClaims(env, clone_list(&p[i].1));
                    let ghost prev = out@;
                    out.push(x);
                    proof {
                        assert(ps[i as int] == (p@[i as int].0@, model_list(p@[i as int].1@)));
                        assert(claims_models(out@) =~= claims_models(prev).push(x@));
                        assert(pc_resolved(self@, ps).take(i + 1) =~= pc_resolved(self@, ps).take(i as int).push(x@));
                    }
                },
            }
            i += 1;
        }
        proof {
            lemma_first_fail_all(ps, pc_check(self@));
            assert(pc_resolved(self@, ps).take(i as int) =~= pc_resolved(self@, ps));
        }
        Ok(out)
    }

    /// Pending key triples with their environments resolved, or the label of the first
    /// foreign reference.
    fn resolve_keys(&self, p: &Vec<(EnvSpec, Vec<Value>, Option<Value>)>) -> (r: Result<Vec<KeyTriple>, String>)
        ensures
            match first_fail(pk_models(p@), pk_check(self@)) {
                Some(l) => r matches Err(x) && x@ == l,
                None => r matches Ok(v) && key_models(v@) == pk_resolved(self@, pk_models(p@)),
            },
    {
        let ghost ps = pk_models(p@);
        let mut out: Vec<KeyTriple> = Vec::new();
        let mut i: usize = 0;
        while i < p.len()
            invariant
                i <= p@.len(),
                ps == pk_models(p@),
                first_fail(ps.take(i as int), pk_check(self@)) is None,
                key_models(out@) == pk_resolved(self@, ps).take(i as int),
            decreases p@.len() - i,
        {
            proof {
                lemma_first_fail_step(ps, pk_check(self@), i as int);
            }
            match self.resolve(&p[i].0) {
                Err(l) => {
                    proof {
                        lemma_first_fail_prefix(ps, pk_check(self@), i + 1);
                    }
                    return Err(l);
                },
                Ok(env) => {
                    let x = KeyTriple(env, clone_list(&p[i].1), clone_opt(&p[i].2));
                    let ghost prev = out@;
                    out.push(x);
                    proof {
                        assert(ps[i as int] == (p@[i as int].0@, model_list(p@[i as int].1@), opt_item(p@[i as int].2)));
                        assert(key_models(out@) =~= key_models(prev).push(x@));
                        assert(pk_resolved(self@, ps).take(i + 1) =~= pk_resolved(self@, ps).take(i as int).push(x@));
                    }
                },
            }
            i += 1;
        }
        proof {
            lemma_first_fail_all(ps, pk_check(self@));
            assert(pk_resolved(self@, ps).take(i as int) =~= pk_resolved(self@, ps));
        }
        Ok(out)
    }

    /// Pending domain triples with their environments resolved, or the label of the first
    /// foreign reference.
    fn resolve_domains(&self, p: &Vec<(EnvSpec, Vec<EnvSpec>)>) -> (r: Result<Vec<DomainTriple>, String>)
        ensures
            match first_fail(pd_models(p@), pd_check(self@)) {
                Some(l) => r matches Err(x) && x@ == l,
                None => r matches Ok(v) && domain_models(v@) == pd_resolved(self@, pd_models(p@)),
            },
    {
        let ghost ps = pd_models(p@);
        let mut out: Vec<DomainTriple> = Vec::new();
        let mut i: usize = 0;
        while i < p.len()
            invariant
                i <= p@.len(),
                ps == pd_models(p@),
                first_fail(ps.take(i as int), pd_check(self@)) is None,
                domain_models(out@) == pd_resolved(self@, ps).take(i as int),
            decreases p@.len() - i,
        {
            proof {
                lemma_first_fail_step(ps, pd_check(self@), i as int);
            }
            let domain = match self.resolve(&p[i].0) {
                Err(l) => {
                    proof {
                        lemma_first_fail_prefix(ps, pd_check(self@), i + 1);
                    }
                    return Err(l);
                },
                Ok(env) => env,
            };
            let envs = match self.resolve_list(&p[i].1) {
                Err(l) => {
                    proof {
                        lemma_first_fail_prefix(ps, pd_check(self@), i + 1);
                    }
                    return Err(l);
                },
                Ok(v) => v,
            };
            let x = DomainTriple(domain, envs);
            let ghost prev = out@;
            out.push(x);
            proof {
                assert(ps[i as int] == (p@[i as int].0@, spec_models(p@[i as int].1@)));
                assert(domain_models(out@) =~= domain_models(prev).push(x@));
                assert(pd_resolved(self@, ps).take(i + 1) =~= pd_resolved(self@, ps).take(i as int).push(x@));
            }
            i += 1;
        }
        proof {
            lemma_first_fail_all(ps, pd_check(self@));
            assert(pd_resolved(self@, ps).take(i as int) =~= pd_resolved(self@, ps));
        }
        Ok(out)
    }

    /// Pending CoMID-CoSWID triples with their environments resolved, or the label of the
    /// first foreign reference.
    fn resolve_coswid(&self, p: &Vec<(EnvSpec, Vec<TagIdChoice>)>) -> (r: Result<Vec<CoswidTriple>, String>)
        ensures
            match first_fail(pw_models(p@), pw_check(self@)) {
                Some(l) => r matches Err(x) && x@ == l,
                None => r matches Ok(v) && coswid_models(v@) == pw_resolved(self@, pw_models(p@)),
            },
    {
        let ghost ps = pw_models(p@);
        let mut out: Vec<CoswidTriple> = Vec::new();
        let mut i: usize = 0;
        while i < p.len()
            invariant
                i <= p@.len(),
                ps == pw_models(p@),
                first_fail(ps.take(i as int), pw_check(self@)) is None,
                coswid_models(out@) == pw_resolved(self@, ps).take(i as int),
            decreases p@.len() - i,
        {
            proof {
                lemma_first_fail_step(ps, pw_check(self@), i as int);
            }
            match self.resolve(&p[i].0) {
                Err(l) => {
                    proof {
                        lemma_first_fail_prefix(ps, pw_check(self@), i + 1);
                    }
                    return Err(l);
                },
                Ok(env) => {
                    let x = CoswidTriple(env, copy_tag_ids(&p[i].1));
                    let ghost prev = out@;
                    out.push(x);
                    proof {
                        assert(ps[i as int] == (p@[i as int].0@, tag_id_models(p@[i as int].1@)));
                        assert(coswid_models(out@) =~= coswid_models(prev).push(x@));
                        assert(pw_resolved(self@, ps).take(i + 1) =~= pw_resolved(self@, ps).take(i as int).push(x@));
                    }
                },
            }
            i += 1;
        }
        proof {
            lemma_first_fail_all(ps, pw_check(self@));
            assert(pw_resolved(self@, ps).take(i as int) =~= pw_resolved(self@, ps));
        }
        Ok(out)
    }

    /// Pending conditional-endorsement-series triples with their condition environments
    /// resolved, or the label of the first foreign reference.
    fn resolve_ces(&self, p: &Vec<(EnvSpec, Vec<Value>, Option<Vec<Value>>, Vec<ConditionalSeriesRecord>)>) -> (r: Result<Vec<ConditionalEndorsementSeriesTriple>, String>)
        ensures
            match first_fail(ps_models(p@), ps_check(self@)) {
                Some(l) => r matches Err(x) && x@ == l,
                None => r matches Ok(v) && ces_models(v@) == ps_resolved(self@, ps_models(p@)),
            },
    {
        let ghost ps = ps_models(p@);
        let mut out: Vec<ConditionalEndorsementSeriesTriple> = Vec::new();
        let mut i: usize = 0;
        while i < p.len()
            invariant
                i <= p@.len(),
                ps == ps_models(p@),
                first_fail(ps.take(i as int), ps_check(self@)) is None,
                ces_models(out@) == ps_resolved(self@, ps).take(i as int),
            decreases p@.len() - i,
        {
            proof {
                lemma_first_fail_step(ps, ps_check(self@), i as int);
            }
            match self.resolve(&p[i].0) {
                Err(l) => {
                    proof {
                        lemma_first_fail_prefix(ps, ps_check(self@), i + 1);
                    }
                    return Err(l);
                },
                Ok(env) => {
                    let cond = CesCondition {
                        environment: env,
                        claims_list: clone_list(&p[i].1),
                        authorized_by: clone_opt_list(&p[i].2),
                    };
                    let x = ConditionalEndorsementSeriesTriple(cond, copy_series(&p[i].3));
                    let ghost prev = out@;
                    out.push(x);
                    proof {
                        assert(ps[i as int] == (p@[i as int].0@, model_list(p@[i as int].1@), opt_items(p@[i as int].2), series_models(p@[i as int].3@)));
                        assert(ces_models(out@) =~= ces_models(prev).push(x@));
                        assert(ps_resolved(self@, ps).take(i + 1) =~= ps_resolved(self@, ps).take(i as int).push(x@));
                    }
                },
            }
            i += 1;
        }
        proof {
            lemma_first_fail_all(ps, ps_check(self@));
            assert(ps_resolved(self@, ps).take(i as int) =~= ps_resolved(self@, ps));
        }
        Ok(out)
    }

    /// Pending conditional-endorsement triples with their condition environments resolved,
    /// or the label of the first foreign reference.
    fn resolve_ce(&self, p: &Vec<(Vec<(EnvSpec, Vec<Value>)>, Vec<EnvClaims>)>) -> (r: Result<Vec<ConditionalEndorsementTriple>, String>)
        ensures
            match first_fail(pe_models(p@), pe_check(self@)) {
                Some(l) => r matches Err(x) && x@ == l,
                None => r matches Ok(v) && ce_models(v@) == pe_resolved(self@, pe_models(p@)),
            },
    {
        let ghost ps = pe_models(p@);
        let mut out: Vec<ConditionalEndorsementTriple> = Vec::new();
        let mut i: usize = 0;
        while i < p.len()
            invariant
                i <= p@.len(),
                ps == pe_models(p@),
                first_fail(ps.take(i as int), pe_check(self@)) is None,
                ce_models(out@) == pe_resolved(self@, ps).take(i as int),
            decreases p@.len() - i,
        {
            proof {
                lemma_first_fail_step(ps, pe_check(self@), i as int);
            }
            match self.resolve_claims(&p[i].0) {
                Err(l) => {
                    proof {
                        lemma_first_fail_prefix(ps, pe_check(self@), i + 1);
                    }
                    return Err(l);
                },
                Ok(conds) => {
                    let x = ConditionalEndorsementTriple(conds, copy_claims(&p[i].1));
                    let ghost prev = out@;
                    out.push(x);
                    proof {
                        assert(ps[i as int] == (pc_models(p@[i as int].0@), claims_models(p@[i as int].1@)));
                        assert(ce_models(out@) =~= ce_models(prev).push(x@));
                        assert(pe_resolved(self@, ps).take(i + 1) =~= pe_resolved(self@, ps).take(i as int).push(x@));
                    }
                },
            }
            i += 1;
        }
        proof {
            lemma_first_fail_all(ps, pe_check(self@));
            assert(pe_resolved(self@, ps).take(i as int) =~= pe_resolved(self@, ps));
        }
        Ok(out)
    }
}

impl ComidBuilder {
    /// The pending triples with their environments resolved, or the label of the first
    /// foreign reference.
    fn resolve_all(&self) -> (r: Result<Triples, String>)
        ensures
            match resolution_error(self@) {
                Some(l) => r matches Err(x) && x@ == l,
                None => r matches Ok(t) && t@ == (TriplesModel {
                    reference: pc_resolved(self@, self@.pending.reference),
                    endorsed: pc_resolved(self@, self@.pending.endorsed),
                    identity: pk_resolved(self@, self@.pending.identity),
                    attest_key: pk_resolved(self@, self@.pending.attest_key),
                    dependency: pd_resolved(self@, self@.pending.dependency),
                    membership: pd_resolved(self@, self@.pending.membership),
                    coswid: pw_resolved(self@, self@.pending.coswid),
                    ces: ps_resolved(self@, self@.pending.ces),
                    ce: pe_resolved(self@, self@.pending.ce),
                }),
            },
    {
        let reference = match self.resolve_claims(&self.pending_reference) {
            Ok(v) => v,
            Err(l) => return Err(l),
        };
        let endorsed = match self.resolve_claims(&self.pending_endorsed) {
            Ok(v) => v,
            Err(l) => return Err(l),
        };
        let identity = match self.resolve_keys(&self.pending_identity) {
            Ok(v) => v,
            Err(l) => return Err(l),
        };
        let attest_key = match self.resolve_keys(&self.pending_attest_key) {
            Ok(v) => v,
            Err(l) => return Err(l),
        };
        let dependency = match self.resolve_domains(&self.pending_dependency) {
            Ok(v) => v,
            Err(l) => return Err(l),
        };
        let membership = match self.resolve_domains(&self.pending_membership) {
            Ok(v) => v,
            Err(l) => return Err(l),
        };
        let coswid = match self.resolve_coswid(&self.pending_coswid) {
            Ok(v) => v,
            Err(l) => return Err(l),
        };
        let ces = match self.resolve_ces(&self.pending_ces) {
            Ok(v) => v,
            Err(l) => return Err(l),
        };
        let ce = match self.resolve_ce(&self.pending_ce) {
            Ok(v) => v,
            Err(l) => return Err(l),
        };
        Ok(Triples { reference, endorsed, identity, attest_key, dependency, membership, coswid, ces, ce })
    }
}

/// Two sets of triples, kind by kind, the first before the second.
pub open spec fn concat_triples(a: TriplesModel, b: TriplesModel) -> TriplesModel {
    TriplesModel {
        reference: a.reference + b.reference,
        endorsed: a.endorsed + b.endorsed,
        identity: a.identity + b.identity,
        attest_key: a.attest_key + b.attest_key,
        dependency: a.dependency + b.dependency,
        membership: a.membership + b.membership,
        coswid: a.coswid + b.coswid,
        ces: a.ces + b.ces,
        ce: a.ce + b.ce,
    }
}

impl Triples {
    /// Append the triples of another set, kind by kind.
    fn append(&mut self, other: Triples)
        ensures
            final(self)@ == concat_triples(old(self)@, other@),
    {
        let mut o = other;
        let ghost a = *self;
        let ghost b = o;
        self.reference.append(&mut o.reference);
        self.endorsed.append(&mut o.endorsed);
        self.identity.append(&mut o.identity);
        self.attest_key.append(&mut o.attest_key);
        self.dependency.append(&mut o.dependency);
        self.membership.append(&mut o.membership);
        self.coswid.append(&mut o.coswid);
        self.ces.append(&mut o.ces);
        self.ce.append(&mut o.ce);
        proof {
            assert(claims_models(self.reference@) =~= claims_models(a.reference@) + claims_models(b.reference@));
            assert(claims_models(self.endorsed@) =~= claims_models(a.endorsed@) + claims_models(b.endorsed@));
            assert(key_models(self.identity@) =~= key_models(a.identity@) + key_models(b.identity@));
            assert(key_models(self.attest_key@) =~= key_models(a.attest_key@) + key_models(b.attest_key@));
            assert(domain_models(self.dependency@) =~= domain_models(a.dependency@) + domain_models(b.dependency@));
            assert(domain_models(self.membership@) =~= domain_models(a.membership@) + domain_models(b.membership@));
            assert(coswid_models(self.coswid@) =~= coswid_models(a.coswid@) + coswid_models(b.coswid@));
            assert(ces_models(self.ces@) =~= ces_models(a.ces@) + ces_models(b.ces@));
            assert(ce_models(self.ce@) =~= ce_models(a.ce@) + ce_models(b.ce@));
        }
    }
}

// ---------------------------------------------------------------------------
// What building checks.
// ---------------------------------------------------------------------------

/// Why a CoMID could not be built.
pub enum BuildFailure {
    /// A reference that this builder did not hand out, by its label.
    Foreign(Seq<char>),
    /// No triple at all.
    EmptyTriples,
    /// A list that must not be empty is, by its field name.
    EmptyList(Seq<char>),
    /// A condition environment no reference triple has: triple kind and position.
    UnanchoredEnv(Seq<char>, int),
    /// A selecting measurement no reference triple claims of its environment: triple kind,
    /// triple position and measurement position.
    UnanchoredMeas(Seq<char>, int, int),
}

/// The build failure an error reports.
pub open spec fn failure_of(e: BuilderError) -> Option<BuildFailure> {
    match e {
        BuilderError::RefFromOtherBuilder { label } => Some(BuildFailure::Foreign(label@)),
        BuilderError::EmptyTriples => Some(BuildFailure::EmptyTriples),
        BuilderError::EmptyList { field } => Some(BuildFailure::EmptyList(field@)),
        BuilderError::UnanchoredConditionEnv { triple_kind, index } => Some(
            BuildFailure::UnanchoredEnv(triple_kind@, index as int),
        ),
        BuilderError::UnanchoredConditionMeasurement { triple_kind, triple_index, measurement_index } => Some(
            BuildFailure::UnanchoredMeas(triple_kind@, triple_index as int, measurement_index as int),
        ),
        _ => None,
    }
}

/// No triple of any kind.
pub open spec fn no_triple(t: TriplesModel) -> bool {
    &&& t.reference.len() == 0
    &&& t.endorsed.len() == 0
    &&& t.identity.len() == 0
    &&& t.attest_key.len() == 0
    &&& t.dependency.len() == 0
    &&& t.membership.len() == 0
    &&& t.coswid.len() == 0
    &&& t.ces.len() == 0
    &&& t.ce.len() == 0
}

/// Some record has an empty list.
pub open spec fn has_empty_list(s: Seq<EnvListModel>) -> bool {
    exists|i: int| 0 <= i < s.len() && (#[trigger] s[i]).1.len() == 0
}

/// Some key triple has an empty key list.
pub open spec fn has_empty_keys(s: Seq<KeyModel>) -> bool {
    exists|i: int| 0 <= i < s.len() && (#[trigger] s[i]).1.len() == 0
}

/// Some CoMID-CoSWID triple has an empty tag list.
pub open spec fn has_empty_tag_ids(s: Seq<CoswidModel>) -> bool {
    exists|i: int| 0 <= i < s.len() && (#[trigger] s[i]).1.len() == 0
}

/// The field of the first kind, in order, with a record whose `[+ T]` list is empty.
pub open spec fn empty_list_error(t: TriplesModel) -> Option<Seq<char>> {
    if has_empty_list(t.reference) {
        Some("ref-claims"@)
    } else if has_empty_list(t.endorsed) {
        Some("endorsement"@)
    } else if has_empty_keys(t.identity) {
        Some("key-list"@)
    } else if has_empty_keys(t.attest_key) {
        Some("key-list"@)
    } else if has_empty_list(t.dependency) {
        Some("trustees"@)
    } else if has_empty_list(t.membership) {
        Some("members"@)
    } else if has_empty_tag_ids(t.coswid) {
        Some("tag-ids"@)
    } else {
        None
    }
}

/// Some reference triple has the environment.
pub open spec fn anchored(refs: Seq<EnvListModel>, env: VModel) -> bool {
    exists|j: int| 0 <= j < refs.len() && value_eq((#[trigger] refs[j]).0, env)
}

/// Some reference triple with the environment claims the measurement.
pub open spec fn in_pool(refs: Seq<EnvListModel>, env: VModel, x: VModel) -> bool {
    exists|j: int, k: int|
        #![trigger refs[j].1[k]]
        0 <= j < refs.len() && value_eq(refs[j].0, env) && 0 <= k < refs[j].1.len() && value_eq(refs[j].1[k], x)
}

/// A selecting measurement must be claimed of its environment by a reference triple.
pub open spec fn meas_check(refs: Seq<EnvListModel>, env: VModel, kind: Seq<char>, ti: int) -> spec_fn(int, VModel) -> Option<BuildFailure> {
    |mi: int, x: VModel| if in_pool(refs, env, x) {
        None
    } else {
        Some(BuildFailure::UnanchoredMeas(kind, ti, mi))
    }
}

/// The selection of each series record must be anchored.
pub open spec fn series_check(refs: Seq<EnvListModel>, env: VModel, ti: int) -> spec_fn(int, SeriesModel) -> Option<BuildFailure> {
    |si: int, x: SeriesModel| first_fail(x.0, meas_check(refs, env, "conditional-endorsement-series-condition"@, ti))
}

/// A conditional-endorsement-series triple: its environment, then its claims, then each
/// series selection.
pub open spec fn ces_check(refs: Seq<EnvListModel>) -> spec_fn(int, CesModel) -> Option<BuildFailure> {
    |i: int, t: CesModel| if !anchored(refs, t.0.0) {
        Some(BuildFailure::UnanchoredEnv("conditional-endorsement-series"@, i))
    } else {
        or_else(
            first_fail(t.0.1, meas_check(refs, t.0.0, "conditional-endorsement-series"@, i)),
            first_fail(t.1, series_check(refs, t.0.0, i)),
        )
    }
}

/// An endorsed-values triple: its environment.
pub open spec fn endorsed_check(refs: Seq<EnvListModel>) -> spec_fn(int, EnvListModel) -> Option<BuildFailure> {
    |i: int, t: EnvListModel| if anchored(refs, t.0) {
        None
    } else {
        Some(BuildFailure::UnanchoredEnv("endorsed"@, i))
    }
}

/// A stateful-environment record of the conditional-endorsement triple at `i`: its
/// environment, then its measurements.
pub open spec fn stateful_check(refs: Seq<EnvListModel>, i: int) -> spec_fn(int, EnvListModel) -> Option<BuildFailure> {
    |k: int, x: EnvListModel| if !anchored(refs, x.0) {
        Some(BuildFailure::UnanchoredEnv("conditional-endorsement"@, i))
    } else {
        first_fail(x.1, meas_check(refs, x.0, "conditional-endorsement"@, i))
    }
}

/// A conditional-endorsement triple: each of its conditions.
pub open spec fn ce_check(refs: Seq<EnvListModel>) -> spec_fn(int, CeModel) -> Option<BuildFailure> {
    |i: int, t: CeModel| first_fail(t.0, stateful_check(refs, i))
}

/// The first failure of the anchoring lint: conditional-endorsement-series triples, then
/// endorsed-values triples, then conditional-endorsement triples.
pub open spec fn strict_error(t: TriplesModel) -> Option<BuildFailure> {
    or_else(
        first_fail(t.ces, ces_check(t.reference)),
        or_else(first_fail(t.endorsed, endorsed_check(t.reference)), first_fail(t.ce, ce_check(t.reference))),
    )
}

fn any_empty_claims(v: &Vec<EnvClaims>) -> (r: bool)
    ensures
        r == has_empty_list(claims_models(v@)),
{
    let mut i: usize = 0;
    while i < v.len()
        invariant
            i <= v@.len(),
            forall|j: int| 0 <= j < i ==> (#[trigger] claims_models(v@)[j]).1.len() != 0,
        decreases v@.len() - i,
    {
        proof {
            lemma_model_list(v@[i as int].1@);
        }
        if v[i].1.len() == 0 {
            assert(claims_models(v@)[i as int].1.len() == 0);
            return true;
        }
        i += 1;
    }
    false
}

fn any_empty_domain(v: &Vec<DomainTriple>) -> (r: bool)
    ensures
        r == has_empty_list(domain_models(v@)),
{
    let mut i: usize = 0;
    while i < v.len()
        invariant
            i <= v@.len(),
            forall|j: int| 0 <= j < i ==> (#[trigger] domain_models(v@)[j]).1.len() != 0,
        decreases v@.len() - i,
    {
        proof {
            lemma_model_list(v@[i as int].1@);
        }
        if v[i].1.len() == 0 {
            assert(domain_models(v@)[i as int].1.len() == 0);
            return true;
        }
        i += 1;
    }
    false
}

fn any_empty_keys(v: &Vec<KeyTriple>) -> (r: bool)
    ensures
        r == has_empty_keys(key_models(v@)),
{
    let mut i: usize = 0;
    while i < v.len()
        invariant
            i <= v@.len(),
            forall|j: int| 0 <= j < i ==> (#[trigger] key_models(v@)[j]).1.len() != 0,
        decreases v@.len() - i,
    {
        proof {
            lemma_model_list(v@[i as int].1@);
        }
        if v[i].1.len() == 0 {
            assert(key_models(v@)[i as int].1.len() == 0);
            return true;
        }
        i += 1;
    }
    false
}

fn any_empty_tag_ids(v: &Vec<CoswidTriple>) -> (r: bool)
    ensures
        r == has_empty_tag_ids(coswid_models(v@)),
{
    let mut i: usize = 0;
    while i < v.len()
        invariant
            i <= v@.len(),
            forall|j: int| 0 <= j < i ==> (#[trigger] coswid_models(v@)[j]).1.len() != 0,
        decreases v@.len() - i,
    {
        if v[i].1.len() == 0 {
            assert(coswid_models(v@)[i as int].1.len() == 0);
            return true;
        }
        i += 1;
    }
    false
}

impl Triples {
    /// The field of the first kind with a record whose `[+ T]` list is empty.
    fn empty_list(&self) -> (r: Option<&'static str>)
        ensures
            match empty_list_error(self@) {
                Some(f) => r matches Some(x) && x@ == f,
                None => r is None,
            },
    {
        if any_empty_claims(&self.reference) {
            Some("ref-claims")
        } else if any_empty_claims(&self.endorsed) {
            Some("endorsement")
        } else if any_empty_keys(&self.identity) {
            Some("key-list")
        } else if any_empty_keys(&self.attest_key) {
            Some("key-list")
        } else if any_empty_domain(&self.dependency) {
            Some("trustees")
        } else if any_empty_domain(&self.membership) {
            Some("members")
        } else if any_empty_tag_ids(&self.coswid) {
            Some("tag-ids")
        } else {
            None
        }
    }

    /// No triple of any kind.
    fn is_empty(&self) -> (r: bool)
        ensures
            r == no_triple(self@),
    {
        self.reference.len() == 0 && self.endorsed.len() == 0 && self.identity.len() == 0
            && self.attest_key.len() == 0 && self.dependency.len() == 0 && self.membership.len() == 0
            && self.coswid.len() == 0 && self.ces.len() == 0 && self.ce.len() == 0
    }
}

/// Whether some reference triple has the environment.
fn anchored_in(refs: &Vec<EnvClaims>, env: &Value) -> (r: bool)
    ensures
        r == anchored(claims_models(refs@), env@),
{
    let ghost rs = claims_models(refs@);
    let mut j: usize = 0;
    while j < refs.len()
        invariant
            j <= refs@.len(),
            rs == claims_models(refs@),
            forall|jj: int| 0 <= jj < j ==> !value_eq((#[trigger] rs[jj]).0, env@),
        decreases refs@.len() - j,
    {
        if values_equal(&refs[j].0, env) {
            assert(rs[j as int].0 == refs@[j as int].0@);
            return true;
        }
        j += 1;
    }
    false
}

/// Whether some reference triple with the environment claims the measurement.
#[verifier::loop_isolation(false)]
fn in_pool_of(refs: &Vec<EnvClaims>, env: &Value, x: &Value) -> (r: bool)
    ensures
        r == in_pool(claims_models(refs@), env@, x@),
{
    let ghost rs = claims_models(refs@);
    let mut j: usize = 0;
    while j < refs.len()
        invariant
            j <= refs@.len(),
            rs == claims_models(refs@),
            rs.len() == refs@.len(),
            forall|jj: int, k: int|
                #![trigger rs[jj].1[k]]
                0 <= jj < j && value_eq(rs[jj].0, env@) && 0 <= k < rs[jj].1.len() ==> !value_eq(rs[jj].1[k], x@),
        decreases refs@.len() - j,
    {
        assert(rs[j as int] == refs@[j as int]@);
        if values_equal(&refs[j].0, env) {
            let ms = &refs[j].1;
            proof {
                lemma_model_list(ms@);
            }
            let mut k: usize = 0;
            while k < ms.len()
                invariant
                    k <= ms@.len(),
                    j < refs@.len(),
                    rs == claims_models(refs@),
                    rs[j as int].1 == model_list(ms@),
                    model_list(ms@).len() == ms@.len(),
                    forall|i: int| 0 <= i < ms@.len() ==> #[trigger] model_list(ms@)[i] == ms@[i]@,
                    forall|kk: int| 0 <= kk < k ==> !value_eq(#[trigger] rs[j as int].1[kk], x@),
                decreases ms@.len() - k,
            {
                if values_equal(&ms[k], x) {
                    assert(rs[j as int].1[k as int] == ms@[k as int]@);
                    assert(value_eq(rs[j as int].1[k as int], x@));
                    assert(in_pool(rs, env@, x@));
                    return true;
                }
                k += 1;
            }
        }
        j += 1;
    }
    false
}

/// The first selecting measurement not claimed of the environment by a reference triple.
fn check_meas(refs: &Vec<EnvClaims>, env: &Value, list: &Vec<Value>, kind: &'static str, ti: usize) -> (r: Result<(), BuilderError>)
    ensures
        match first_fail(model_list(list@), meas_check(claims_models(refs@), env@, kind@, ti as int)) {
            Some(f) => r matches Err(e) && failure_of(e) == Some(f),
            None => r is Ok,
        },
{
    let ghost ms = model_list(list@);
    let ghost f = meas_check(claims_models(refs@), env@, kind@, ti as int);
    proof {
        lemma_model_list(list@);
    }
    let mut mi: usize = 0;
    while mi < list.len()
        invariant
            mi <= list@.len(),
            ms == model_list(list@),
            ms.len() == list@.len(),
            forall|i: int| 0 <= i < list@.len() ==> #[trigger] ms[i] == list@[i]@,
            f == meas_check(claims_models(refs@), env@, kind@, ti as int),
            first_fail(ms.take(mi as int), f) is None,
        decreases list@.len() - mi,
    {
        proof {
            lemma_first_fail_step(ms, f, mi as int);
            assert(ms[mi as int] == list@[mi as int]@);
        }
        if !in_pool_of(refs, env, &list[mi]) {
            proof {
                lemma_first_fail_prefix(ms, f, mi + 1);
            }
            return Err(
                BuilderError::UnanchoredConditionMeasurement {
                    triple_kind: kind,
                    triple_index: ti,
                    measurement_index: mi,
                },
            );
        }
        mi += 1;
    }
    proof {
        lemma_first_fail_all(ms, f);
    }
    Ok(())
}

/// The anchoring check of one conditional-endorsement-series triple.
#[verifier::loop_isolation(false)]
fn check_ces_one(refs: &Vec<EnvClaims>, t: &ConditionalEndorsementSeriesTriple, i: usize) -> (r: Result<(), BuilderError>)
    ensures
        match ces_check(claims_models(refs@))(i as int, t@) {
            Some(f) => r matches Err(e) && failure_of(e) == Some(f),
            None => r is Ok,
        },
{
    let env = &t.0.environment;
    if !anchored_in(refs, env) {
        return Err(BuilderError::UnanchoredConditionEnv { triple_kind: "conditional-endorsement-series", index: i });
    }
    match check_meas(refs, env, &t.0.claims_list, "conditional-endorsement-series", i) {
        Err(e) => return Err(e),
        Ok(()) => {},
    }
    let ghost ss = series_models(t.1@);
    let ghost g = series_check(claims_models(refs@), env@, i as int);
    let mut si: usize = 0;
    while si < t.1.len()
        invariant
            si <= t.1@.len(),
            ss == series_models(t.1@),
            g == series_check(claims_models(refs@), env@, i as int),
            first_fail(ss.take(si as int), g) is None,
        decreases t.1@.len() - si,
    {
        proof {
            lemma_first_fail_step(ss, g, si as int);
            assert(ss[si as int] == t.1@[si as int]@);
        }
        match check_meas(refs, env, &t.1[si].0, "conditional-endorsement-series-condition", i) {
            Err(e) => {
                proof {
                    lemma_first_fail_prefix(ss, g, si + 1);
                }
                return Err(e);
            },
            Ok(()) => {},
        }
        si += 1;
    }
    proof {
        lemma_first_fail_all(ss, g);
    }
    Ok(())
}

/// The anchoring check of one conditional-endorsement triple.
fn check_ce_one(refs: &Vec<EnvClaims>, t: &ConditionalEndorsementTriple, i: usize) -> (r: Result<(), BuilderError>)
    ensures
        match ce_check(claims_models(refs@))(i as int, t@) {
            Some(f) => r matches Err(e) && failure_of(e) == Some(f),
            None => r is Ok,
        },
{
    let ghost cs = claims_models(t.0@);
    let ghost g = stateful_check(claims_models(refs@), i as int);
    let mut k: usize = 0;
    while k < t.0.len()
        invariant
            k <= t.0@.len(),
            cs == claims_models(t.0@),
            g == stateful_check(claims_models(refs@), i as int),
            first_fail(cs.take(k as int), g) is None,
        decreases t.0@.len() - k,
    {
        proof {
            lemma_first_fail_step(cs, g, k as int);
            assert(cs[k as int] == t.0@[k as int]@);
        }
        let rec = &t.0[k];
        if !anchored_in(refs, &rec.0) {
            proof {
                lemma_first_fail_prefix(cs, g, k + 1);
            }
            return Err(BuilderError::UnanchoredConditionEnv { triple_kind: "conditional-endorsement", index: i });
        }
        match check_meas(refs, &rec.0, &rec.1, "conditional-endorsement", i) {
            Err(e) => {
                proof {
                    lemma_first_fail_prefix(cs, g, k + 1);
                }
                return Err(e);
            },
            Ok(()) => {},
        }
        k += 1;
    }
    proof {
        lemma_first_fail_all(cs, g);
    }
    Ok(())
}

impl Triples {
    /// The first failure of the anchoring lint.
    #[verifier::loop_isolation(false)]
    fn check_links(&self) -> (r: Result<(), BuilderError>)
        ensures
            match strict_error(self@) {
                Some(f) => r matches Err(e) && failure_of(e) == Some(f),
                None => r is Ok,
            },
    {
        let refs = &self.reference;
        let ghost rs = claims_models(refs@);
        let ghost cs = ces_models(self.ces@);
        let mut i: usize = 0;
        while i < self.ces.len()
            invariant
                i <= self.ces@.len(),
                cs == ces_models(self.ces@),
                rs == claims_models(refs@),
                first_fail(cs.take(i as int), ces_check(rs)) is None,
            decreases self.ces@.len() - i,
        {
            proof {
                lemma_first_fail_step(cs, ces_check(rs), i as int);
                assert(cs[i as int] == self.ces@[i as int]@);
            }
            match check_ces_one(refs, &self.ces[i], i) {
                Err(e) => {
                    proof {
                        lemma_first_fail_prefix(cs, ces_check(rs), i + 1);
                    }
                    return Err(e);
                },
                Ok(()) => {},
            }
            i += 1;
        }
        proof {
            lemma_first_fail_all(cs, ces_check(rs));
        }
        let ghost es = claims_models(self.endorsed@);
        let mut i: usize = 0;
        while i < self.endorsed.len()
            invariant
                i <= self.endorsed@.len(),
                es == claims_models(self.endorsed@),
                rs == claims_models(refs@),
                first_fail(es.take(i as int), endorsed_check(rs)) is None,
            decreases self.endorsed@.len() - i,
        {
            proof {
                lemma_first_fail_step(es, endorsed_check(rs), i as int);
                assert(es[i as int] == self.endorsed@[i as int]@);
            }
            if !anchored_in(refs, &self.endorsed[i].0) {
                proof {
                    lemma_first_fail_prefix(es, endorsed_check(rs), i + 1);
                }
                return Err(BuilderError::UnanchoredConditionEnv { triple_kind: "endorsed", index: i });
            }
            i += 1;
        }
        proof {
            lemma_first_fail_all(es, endorsed_check(rs));
        }
        let ghost xs = ce_models(self.ce@);
        let mut i: usize = 0;
        while i < self.ce.len()
            invariant
                i <= self.ce@.len(),
                xs == ce_models(self.ce@),
                rs == claims_models(refs@),
                first_fail(xs.take(i as int), ce_check(rs)) is None,
            decreases self.ce@.len() - i,
        {
            proof {
                lemma_first_fail_step(xs, ce_check(rs), i as int);
                assert(xs[i as int] == self.ce@[i as int]@);
            }
            match check_ce_one(refs, &self.ce[i], i) {
                Err(e) => {
                    proof {
                        lemma_first_fail_prefix(xs, ce_check(rs), i + 1);
                    }
                    return Err(e);
                },
                Ok(()) => {},
            }
            i += 1;
        }
        proof {
            lemma_first_fail_all(xs, ce_check(rs));
        }
        Ok(())
    }
}

// ---------------------------------------------------------------------------
// The built CoMID.
// ---------------------------------------------------------------------------

/// The map entry of a kind: its key with the array of its records, or nothing where it has
/// none.
pub open spec fn triples_entry(k: int, items: Seq<VModel>) -> Seq<(VModel, VModel)> {
    if items.len() == 0 {
        Seq::empty()
    } else {
        seq![(VModel::Int(k), VModel::Array(items))]
    }
}

/// `triples-map` — reference (0), endorsed (1), identity (2), attest-key (3),
/// domain-dependency (4), domain-membership (5), CoMID-CoSWID (6),
/// conditional-endorsement-series (8) and conditional-endorsement (10) triples, each kind
/// that has triples as an array of its records, in that order.
pub open spec fn triples_value(t: TriplesModel) -> VModel {
    VModel::Mapping(
        triples_entry(0, env_list_values(t.reference)) + triples_entry(1, env_list_values(t.endorsed))
            + triples_entry(2, key_values(t.identity)) + triples_entry(3, key_values(t.attest_key))
            + triples_entry(4, env_list_values(t.dependency)) + triples_entry(5, env_list_values(t.membership))
            + triples_entry(6, coswid_values(t.coswid)) + triples_entry(8, ces_values(t.ces))
            + triples_entry(10, ce_values(t.ce)),
    )
}

/// The data items of a list of entities.
pub open spec fn entity_values(s: Seq<EntityModel>) -> Seq<VModel> {
    s.map_values(|e: EntityModel| entity_value(e))
}

/// The CoMID a builder makes from the given triples.
pub open spec fn comid_output(m: ComidBuilderModel, t: TriplesModel) -> ComidModel {
    ComidModel {
        language: m.language,
        tag_identity: (m.tag_id, m.tag_version),
        entities: if m.entities.len() == 0 {
            None
        } else {
            Some(VModel::Array(entity_values(m.entities)))
        },
        linked_tags: if m.linked_tags.len() == 0 {
            None
        } else {
            Some(VModel::Array(m.linked_tags))
        },
        triples: triples_value(t),
    }
}

/// What building gives: the first foreign reference; else no triple at all; else the
/// first empty `[+ T]` list; else, with the lint on, its first failure; else the CoMID.
pub open spec fn comid_build(m: ComidBuilderModel) -> Result<ComidModel, BuildFailure> {
    match resolution_error(m) {
        Some(l) => Err(BuildFailure::Foreign(l)),
        None => {
            let t = full_triples(m);
            if no_triple(t) {
                Err(BuildFailure::EmptyTriples)
            } else {
                match empty_list_error(t) {
                    Some(f) => Err(BuildFailure::EmptyList(f)),
                    None => match (if m.strict_links {
                        strict_error(t)
                    } else {
                        None
                    }) {
                        Some(e) => Err(e),
                        None => Ok(comid_output(m, t)),
                    },
                }
            }
        },
    }
}

/// Append the entry of a kind.
fn push_entry(entries: &mut Vec<(Value, Value)>, k: i128, items: Vec<Value>)
    ensures
        model_pairs(final(entries)@) == model_pairs(old(entries)@) + triples_entry(k as int, model_list(items@)),
{
    proof {
        lemma_model_list(items@);
    }
    if items.len() > 0 {
        let ghost prev = entries@;
        let e = (Value::Integer(k), Value::Array(items));
        proof {
            lemma_model_pairs_push(prev, e);
        }
        entries.push(e);
    } else {
        assert(triples_entry(k as int, model_list(items@)) =~= Seq::<(VModel, VModel)>::empty());
        assert(model_pairs(entries@) + Seq::<(VModel, VModel)>::empty() =~= model_pairs(entries@));
    }
}

/// The data items of a list of entities.
fn entity_items(v: &Vec<EntityMap>) -> (r: Vec<Value>)
    ensures
        model_list(r@) == entity_values(entity_models(v@)),
{
    let ghost target = entity_values(entity_models(v@));
    let mut out: Vec<Value> = Vec::new();
    let mut i: usize = 0;
    while i < v.len()
        invariant
            i <= v@.len(),
            target == entity_values(entity_models(v@)),
            model_list(out@) == target.take(i as int),
        decreases v@.len() - i,
    {
        let x = v[i].to_value();
        proof {
            lemma_model_list_push(out@, x);
            assert(target.take(i + 1) =~= target.take(i as int).push(x@));
        }
        out.push(x);
        i += 1;
    }
    proof {
        assert(target.take(i as int) =~= target);
    }
    out
}

impl Triples {
    /// The triples map.
    fn to_value(&self) -> (r: Value)
        ensures
            r@ == triples_value(self@),
    {
        let ghost t = self@;
        let mut entries: Vec<(Value, Value)> = Vec::new();
        let ghost e0 = model_pairs(entries@);
        assert(e0 =~= Seq::<(VModel, VModel)>::empty());
        let a = values_of(&self.reference);
        assert(items(self.reference@) =~= env_list_values(t.reference));
        push_entry(&mut entries, 0, a);
        let a = values_of(&self.endorsed);
        assert(items(self.endorsed@) =~= env_list_values(t.endorsed));
        push_entry(&mut entries, 1, a);
        let a = values_of(&self.identity);
        assert(items(self.identity@) =~= key_values(t.identity));
        push_entry(&mut entries, 2, a);
        let a = values_of(&self.attest_key);
        assert(items(self.attest_key@) =~= key_values(t.attest_key));
        push_entry(&mut entries, 3, a);
        let a = values_of(&self.dependency);
        assert(items(self.dependency@) =~= env_list_values(t.dependency));
        push_entry(&mut entries, 4, a);
        let a = values_of(&self.membership);
        assert(items(self.membership@) =~= env_list_values(t.membership));
        push_entry(&mut entries, 5, a);
        let a = values_of(&self.coswid);
        assert(items(self.coswid@) =~= coswid_values(t.coswid));
        push_entry(&mut entries, 6, a);
        let a = values_of(&self.ces);
        assert(items(self.ces@) =~= ces_values(t.ces));
        push_entry(&mut entries, 8, a);
        let a = values_of(&self.ce);
        assert(items(self.ce@) =~= ce_values(t.ce));
        push_entry(&mut entries, 10, a);
        proof {
            assert(model_pairs(entries@) =~= match triples_value(t) {
                VModel::Mapping(s) => s,
                _ => Seq::empty(),
            });
        }
        Value::Mapping(entries)
    }
}

impl ComidBuilder {
    /// The CoMID: references are resolved, then the lists checked, then (with the lint on)
    /// the anchoring; the first failure is reported.
    pub fn build(self) -> (r: Result<ComidTag, BuilderError>)
        ensures
            match comid_build(self@) {
                Ok(c) => r matches Ok(t) && t@ == c,
                Err(f) => r matches Err(e) && failure_of(e) == Some(f),
            },
    {
        let ghost m = self@;
        let resolved = match self.resolve_all() {
            Ok(t) => t,
            Err(l) => return Err(BuilderError::RefFromOtherBuilder { label: l }),
        };
        let ComidBuilder { tag_id, tag_version, language, entities, linked_tags, triples, strict_links, .. } = self;
        let mut all = triples;
        all.append(resolved);
        assert(all@ =~= full_triples(m));
        if all.is_empty() {
            return Err(BuilderError::EmptyTriples);
        }
        match all.empty_list() {
            Some(f) => return Err(BuilderError::EmptyList { field: f }),
            None => {},
        }
        if strict_links {
            match all.check_links() {
                Err(e) => return Err(e),
                Ok(()) => {},
            }
        }
        let tv = all.to_value();
        proof {
            lemma_model_list(linked_tags@);
        }
        let ents = if entities.len() == 0 {
            None
        } else {
            Some(Value::Array(entity_items(&entities)))
        };
        let links = if linked_tags.len() == 0 {
            None
        } else {
            Some(Value::Array(linked_tags))
        };
        let c = ComidTag { language, tag_identity: TagIdentity { tag_id, tag_version }, entities: ents, linked_tags: links, triples: tv };
        assert(c@ == comid_output(m, full_triples(m)));
        Ok(c)
    }
}

// ---------------------------------------------------------------------------
// Laws.
// ---------------------------------------------------------------------------

/// Resolution reads only a builder's number and catalog.
proof fn lemma_same_catalog(m1: ComidBuilderModel, m2: ComidBuilderModel)
    requires
        m1.builder_id == m2.builder_id,
        m1.catalog == m2.catalog,
    ensures
        forall|x: SpecModel| #[trigger] resolve_env(m1, x) == resolve_env(m2, x),
        specs_check(m1) == specs_check(m2),
        pc_check(m1) == pc_check(m2),
        pk_check(m1) == pk_check(m2),
        pd_check(m1) == pd_check(m2),
        pw_check(m1) == pw_check(m2),
        ps_check(m1) == ps_check(m2),
        pe_check(m1) == pe_check(m2),
        forall|s: Seq<(SpecModel, Seq<VModel>)>| #[trigger] pc_resolved(m1, s) == pc_resolved(m2, s),
        forall|s: Seq<(SpecModel, Seq<VModel>, Option<VModel>)>| #[trigger] pk_resolved(m1, s) == pk_resolved(m2, s),
        forall|s: Seq<(SpecModel, Seq<SpecModel>)>| #[trigger] pd_resolved(m1, s) == pd_resolved(m2, s),
        forall|s: Seq<(SpecModel, Seq<TagIdModel>)>| #[trigger] pw_resolved(m1, s) == pw_resolved(m2, s),
        forall|s: Seq<(SpecModel, Seq<VModel>, Option<Seq<VModel>>, Seq<SeriesModel>)>| #[trigger] ps_resolved(m1, s)
            == ps_resolved(m2, s),
        forall|s: Seq<(Seq<(SpecModel, Seq<VModel>)>, Seq<EnvListModel>)>| #[trigger] pe_resolved(m1, s) == pe_resolved(m2, s),
{
    assert(specs_check(m1) =~= specs_check(m2));
    assert(pc_check(m1) =~= pc_check(m2));
    assert(pk_check(m1) =~= pk_check(m2));
    assert(pd_check(m1) =~= pd_check(m2));
    assert(pw_check(m1) =~= pw_check(m2));
    assert(ps_check(m1) =~= ps_check(m2));
    assert(pe_check(m1) =~= pe_check(m2));
    assert forall|s: Seq<(SpecModel, Seq<VModel>)>| #[trigger] pc_resolved(m1, s) == pc_resolved(m2, s) by {
        assert(pc_resolved(m1, s) =~= pc_resolved(m2, s));
    }
    assert forall|s: Seq<(SpecModel, Seq<VModel>, Option<VModel>)>| #[trigger] pk_resolved(m1, s) == pk_resolved(m2, s) by {
        assert(pk_resolved(m1, s) =~= pk_resolved(m2, s));
    }
    assert forall|s: Seq<(SpecModel, Seq<SpecModel>)>| #[trigger] pd_resolved(m1, s) == pd_resolved(m2, s) by {
        assert forall|i: int| 0 <= i < s.len() implies envs_of(m1, s[i].1) == envs_of(m2, s[i].1) by {
            assert(envs_of(m1, s[i].1) =~= envs_of(m2, s[i].1));
        }
        assert(pd_resolved(m1, s) =~= pd_resolved(m2, s));
    }
    assert forall|s: Seq<(SpecModel, Seq<TagIdModel>)>| #[trigger] pw_resolved(m1, s) == pw_resolved(m2, s) by {
        assert(pw_resolved(m1, s) =~= pw_resolved(m2, s));
    }
    assert forall|s: Seq<(SpecModel, Seq<VModel>, Option<Seq<VModel>>, Seq<SeriesModel>)>| #[trigger] ps_resolved(m1, s)
        == ps_resolved(m2, s) by {
        assert(ps_resolved(m1, s) =~= ps_resolved(m2, s));
    }
    assert forall|s: Seq<(Seq<(SpecModel, Seq<VModel>)>, Seq<EnvListModel>)>| #[trigger] pe_resolved(m1, s) == pe_resolved(m2, s) by {
        assert forall|i: int| 0 <= i < s.len() implies pc_resolved(m1, s[i].0) == pc_resolved(m2, s[i].0) by {
            assert(pc_resolved(m1, s[i].0) =~= pc_resolved(m2, s[i].0));
        }
        assert(pe_resolved(m1, s) =~= pe_resolved(m2, s));
    }
}

/// A declared environment is what a reference to it stands for: after declaring `env`
/// under a free label, the reference [`ComidBuilder::declare_env`] hands out resolves to
/// `env`.
pub proof fn lemma_declared_env_resolves(m: ComidBuilderModel, label: Seq<char>, env: VModel)
    requires
        catalog_lookup(m.catalog, label) is None,
    ensures
        resolve_env(
            ComidBuilderModel { catalog: m.catalog.push((label, m.next_uid, env)), next_uid: m.next_uid + 1, ..m },
            SpecModel::Ref(RefModel { builder_id: m.builder_id, label, uid: m.next_uid }),
        ) == Ok::<VModel, Seq<char>>(env),
{
    lemma_lookup_push(m.catalog, label, (label, m.next_uid, env));
}

proof fn lemma_lookup_push(c: Seq<(Seq<char>, int, VModel)>, label: Seq<char>, x: (Seq<char>, int, VModel))
    requires
        catalog_lookup(c, label) is None,
        x.0 == label,
    ensures
        catalog_lookup(c.push(x), label) == Some(x.2),
    decreases c.len(),
{
    if c.len() == 0 {
        assert(c.push(x)[0] == x);
    } else {
        assert(c.push(x).drop_first() =~= c.drop_first().push(x));
        assert(c.push(x)[0] == c[0]);
        lemma_lookup_push(c.drop_first(), label, x);
    }
}

/// References never reach the encoding: on a builder with no reference-values triple
/// added by specification, adding one through a specification that resolves to an
/// environment (given inline, or a reference this builder handed out) builds the same
/// CoMID, or fails in the same way, as adding the triple with that environment itself.
pub proof fn lemma_ref_builds_as_inline(m: ComidBuilderModel, spec: SpecModel, env: VModel, measurements: Seq<VModel>)
    requires
        m.pending.reference.len() == 0,
        resolve_env(m, spec) == Ok::<VModel, Seq<char>>(env),
    ensures
        comid_build(
            ComidBuilderModel {
                pending: PendingModel { reference: seq![(spec, measurements)], ..m.pending },
                ..m
            },
        ) == comid_build(
            ComidBuilderModel {
                triples: TriplesModel { reference: m.triples.reference.push((env, measurements)), ..m.triples },
                ..m
            },
        ),
{
    let by_ref = ComidBuilderModel {
        pending: PendingModel { reference: seq![(spec, measurements)], ..m.pending },
        ..m
    };
    let inline = ComidBuilderModel {
        triples: TriplesModel { reference: m.triples.reference.push((env, measurements)), ..m.triples },
        ..m
    };
    lemma_same_catalog(by_ref, inline);
    let p = by_ref.pending.reference;
    assert(p.drop_last() =~= Seq::<(SpecModel, Seq<VModel>)>::empty());
    assert(first_fail(p.drop_last(), pc_check(by_ref)) is None);
    assert(p.last() == (spec, measurements));
    assert(resolve_env(by_ref, spec) == resolve_env(m, spec));
    assert(pc_check(by_ref)(0, p.last()) is None);
    assert(first_fail(p, pc_check(by_ref)) is None);
    assert(first_fail(inline.pending.reference, pc_check(inline)) is None);
    assert(resolution_error(by_ref) == resolution_error(inline));
    assert(pc_resolved(by_ref, p) =~= seq![(env, measurements)]);
    assert(pc_resolved(inline, inline.pending.reference) =~= Seq::<EnvListModel>::empty());
    assert(full_triples(by_ref).reference =~= full_triples(inline).reference);
    assert(full_triples(by_ref) =~= full_triples(inline));
}

/// The three ways of adding a reference-values triple build alike: on a builder that has
/// declared `env` under a fresh `label` and holds no reference-values triple added by
/// specification, adding `[env, measurements]` through the reference that declaration
/// handed out, through `env` given inline, or as the triple itself builds the same CoMID
/// (or fails in the same way).
pub proof fn lemma_three_ways_build_alike(m: ComidBuilderModel, label: Seq<char>, env: VModel, measurements: Seq<VModel>)
    requires
        m.pending.reference.len() == 0,
        catalog_lookup(m.catalog, label) is None,
    ensures
        ({
            let d = ComidBuilderModel { catalog: m.catalog.push((label, m.next_uid, env)), next_uid: m.next_uid + 1, ..m };
            let r = SpecModel::Ref(RefModel { builder_id: m.builder_id, label, uid: m.next_uid });
            let direct = comid_build(
                ComidBuilderModel { triples: TriplesModel { reference: d.triples.reference.push((env, measurements)), ..d.triples }, ..d },
            );
            &&& comid_build(ComidBuilderModel { pending: PendingModel { reference: seq![(r, measurements)], ..d.pending }, ..d }) == direct
            &&& comid_build(
                ComidBuilderModel { pending: PendingModel { reference: seq![(SpecModel::Inline(env), measurements)], ..d.pending }, ..d },
            ) == direct
        }),
{
    let d = ComidBuilderModel { catalog: m.catalog.push((label, m.next_uid, env)), next_uid: m.next_uid + 1, ..m };
    let r = SpecModel::Ref(RefModel { builder_id: m.builder_id, label, uid: m.next_uid });
    lemma_declared_env_resolves(m, label, env);
    lemma_ref_builds_as_inline(d, r, env, measurements);
    lemma_ref_builds_as_inline(d, SpecModel::Inline(env), env, measurements);
}

/// A reference another builder handed out makes building fail with a foreign-reference
/// failure, wherever it stands among the environments of the triples added by
/// specification.
pub proof fn lemma_foreign_ref_fails(m: ComidBuilderModel, s: SpecModel)
    requires
        s matches SpecModel::Ref(r) && r.builder_id != m.builder_id,
        (exists|i: int| 0 <= i < m.pending.reference.len() && (#[trigger] m.pending.reference[i]).0 == s)
            || (exists|i: int| 0 <= i < m.pending.endorsed.len() && (#[trigger] m.pending.endorsed[i]).0 == s)
            || (exists|i: int| 0 <= i < m.pending.identity.len() && (#[trigger] m.pending.identity[i]).0 == s)
            || (exists|i: int| 0 <= i < m.pending.attest_key.len() && (#[trigger] m.pending.attest_key[i]).0 == s)
            || (exists|i: int| 0 <= i < m.pending.dependency.len() && (#[trigger] m.pending.dependency[i]).0 == s)
            || (exists|i: int| 0 <= i < m.pending.membership.len() && (#[trigger] m.pending.membership[i]).0 == s)
            || (exists|i: int| 0 <= i < m.pending.coswid.len() && (#[trigger] m.pending.coswid[i]).0 == s)
            || (exists|i: int| 0 <= i < m.pending.ces.len() && (#[trigger] m.pending.ces[i]).0 == s),
    ensures
        comid_build(m) matches Err(BuildFailure::Foreign(_)),
{
    assert(spec_err(m, s) is Some);
    lemma_first_fail_none(m.pending.reference, pc_check(m));
    lemma_first_fail_none(m.pending.endorsed, pc_check(m));
    lemma_first_fail_none(m.pending.identity, pk_check(m));
    lemma_first_fail_none(m.pending.attest_key, pk_check(m));
    lemma_first_fail_none(m.pending.dependency, pd_check(m));
    lemma_first_fail_none(m.pending.membership, pd_check(m));
    lemma_first_fail_none(m.pending.coswid, pw_check(m));
    lemma_first_fail_none(m.pending.ces, ps_check(m));
    if exists|i: int| 0 <= i < m.pending.reference.len() && (#[trigger] m.pending.reference[i]).0 == s {
        let i = choose|i: int| 0 <= i < m.pending.reference.len() && (#[trigger] m.pending.reference[i]).0 == s;
        assert(pc_check(m)(i, m.pending.reference[i]) is Some);
    } else if exists|i: int| 0 <= i < m.pending.endorsed.len() && (#[trigger] m.pending.endorsed[i]).0 == s {
        let i = choose|i: int| 0 <= i < m.pending.endorsed.len() && (#[trigger] m.pending.endorsed[i]).0 == s;
        assert(pc_check(m)(i, m.pending.endorsed[i]) is Some);
    } else if exists|i: int| 0 <= i < m.pending.identity.len() && (#[trigger] m.pending.identity[i]).0 == s {
        let i = choose|i: int| 0 <= i < m.pending.identity.len() && (#[trigger] m.pending.identity[i]).0 == s;
        assert(pk_check(m)(i, m.pending.identity[i]) is Some);
    } else if exists|i: int| 0 <= i < m.pending.attest_key.len() && (#[trigger] m.pending.attest_key[i]).0 == s {
        let i = choose|i: int| 0 <= i < m.pending.attest_key.len() && (#[trigger] m.pending.attest_key[i]).0 == s;
        assert(pk_check(m)(i, m.pending.attest_key[i]) is Some);
    } else if exists|i: int| 0 <= i < m.pending.dependency.len() && (#[trigger] m.pending.dependency[i]).0 == s {
        let i = choose|i: int| 0 <= i < m.pending.dependency.len() && (#[trigger] m.pending.dependency[i]).0 == s;
        assert(pd_check(m)(i, m.pending.dependency[i]) is Some);
    } else if exists|i: int| 0 <= i < m.pending.membership.len() && (#[trigger] m.pending.membership[i]).0 == s {
        let i = choose|i: int| 0 <= i < m.pending.membership.len() && (#[trigger] m.pending.membership[i]).0 == s;
        assert(pd_check(m)(i, m.pending.membership[i]) is Some);
    } else if exists|i: int| 0 <= i < m.pending.coswid.len() && (#[trigger] m.pending.coswid[i]).0 == s {
        let i = choose|i: int| 0 <= i < m.pending.coswid.len() && (#[trigger] m.pending.coswid[i]).0 == s;
        assert(pw_check(m)(i, m.pending.coswid[i]) is Some);
    } else {
        let i = choose|i: int| 0 <= i < m.pending.ces.len() && (#[trigger] m.pending.ces[i]).0 == s;
        assert(ps_check(m)(i, m.pending.ces[i]) is Some);
    }
}

/// With the lint off, building never reports an anchoring failure.
pub proof fn lemma_no_lint_no_anchoring_failure(m: ComidBuilderModel)
    requires
        !m.strict_links,
    ensures
        !(comid_build(m) matches Err(BuildFailure::UnanchoredEnv(_, _))),
        !(comid_build(m) matches Err(BuildFailure::UnanchoredMeas(_, _, _))),
{
}

/// What a CoMID built with the lint on guarantees: every condition environment of an
/// endorsed-values, conditional-endorsement-series or conditional-endorsement triple is a
/// reference-triple environment, and every selecting measurement (the claims and each
/// series selection of a conditional-endorsement-series triple, the measurements of each
/// condition of a conditional-endorsement triple) is claimed of that environment by a
/// reference triple.
pub proof fn lemma_strict_build_anchors(m: ComidBuilderModel)
    requires
        m.strict_links,
        comid_build(m) is Ok,
    ensures
        ({
            let t = full_triples(m);
            &&& forall|i: int| 0 <= i < t.endorsed.len() ==> anchored(t.reference, (#[trigger] t.endorsed[i]).0)
            &&& forall|i: int| 0 <= i < t.ces.len() ==> anchored(t.reference, (#[trigger] t.ces[i]).0.0)
            &&& forall|i: int, k: int|
                0 <= i < t.ces.len() && 0 <= k < t.ces[i].0.1.len() ==> in_pool(
                    t.reference,
                    t.ces[i].0.0,
                    #[trigger] t.ces[i].0.1[k],
                )
            &&& forall|i: int, j: int, k: int|
                0 <= i < t.ces.len() && 0 <= j < t.ces[i].1.len() && 0 <= k < t.ces[i].1[j].0.len() ==> in_pool(
                    t.reference,
                    t.ces[i].0.0,
                    #[trigger] t.ces[i].1[j].0[k],
                )
            &&& forall|i: int, j: int|
                0 <= i < t.ce.len() && 0 <= j < t.ce[i].0.len() ==> anchored(t.reference, (#[trigger] t.ce[i].0[j]).0)
            &&& forall|i: int, j: int, k: int|
                0 <= i < t.ce.len() && 0 <= j < t.ce[i].0.len() && 0 <= k < t.ce[i].0[j].1.len() ==> in_pool(
                    t.reference,
                    t.ce[i].0[j].0,
                    #[trigger] t.ce[i].0[j].1[k],
                )
        }),
{
    let t = full_triples(m);
    let refs = t.reference;
    assert(strict_error(t) is None);
    lemma_first_fail_none(t.ces, ces_check(refs));
    lemma_first_fail_none(t.endorsed, endorsed_check(refs));
    lemma_first_fail_none(t.ce, ce_check(refs));
    assert forall|i: int| 0 <= i < t.endorsed.len() implies anchored(refs, (#[trigger] t.endorsed[i]).0) by {
        assert(endorsed_check(refs)(i, t.endorsed[i]) is None);
    }
    assert forall|i: int| 0 <= i < t.ces.len() implies anchored(refs, (#[trigger] t.ces[i]).0.0) by {
        assert(ces_check(refs)(i, t.ces[i]) is None);
    }
    assert forall|i: int, k: int| 0 <= i < t.ces.len() && 0 <= k < t.ces[i].0.1.len() implies in_pool(
        refs,
        t.ces[i].0.0,
        #[trigger] t.ces[i].0.1[k],
    ) by {
        assert(ces_check(refs)(i, t.ces[i]) is None);
        let f = meas_check(refs, t.ces[i].0.0, "conditional-endorsement-series"@, i);
        lemma_first_fail_none(t.ces[i].0.1, f);
        assert(f(k, t.ces[i].0.1[k]) is None);
    }
    assert forall|i: int, j: int, k: int|
        0 <= i < t.ces.len() && 0 <= j < t.ces[i].1.len() && 0 <= k < t.ces[i].1[j].0.len() implies in_pool(
        refs,
        t.ces[i].0.0,
        #[trigger] t.ces[i].1[j].0[k],
    ) by {
        assert(ces_check(refs)(i, t.ces[i]) is None);
        let g = series_check(refs, t.ces[i].0.0, i);
        lemma_first_fail_none(t.ces[i].1, g);
        assert(g(j, t.ces[i].1[j]) is None);
        let f = meas_check(refs, t.ces[i].0.0, "conditional-endorsement-series-condition"@, i);
        lemma_first_fail_none(t.ces[i].1[j].0, f);
        assert(f(k, t.ces[i].1[j].0[k]) is None);
    }
    assert forall|i: int, j: int| 0 <= i < t.ce.len() && 0 <= j < t.ce[i].0.len() implies anchored(
        refs,
        (#[trigger] t.ce[i].0[j]).0,
    ) by {
        assert(ce_check(refs)(i, t.ce[i]) is None);
        let g = stateful_check(refs, i);
        lemma_first_fail_none(t.ce[i].0, g);
        assert(g(j, t.ce[i].0[j]) is None);
    }
    assert forall|i: int, j: int, k: int|
        0 <= i < t.ce.len() && 0 <= j < t.ce[i].0.len() && 0 <= k < t.ce[i].0[j].1.len() implies in_pool(
        refs,
        t.ce[i].0[j].0,
        #[trigger] t.ce[i].0[j].1[k],
    ) by {
        assert(ce_check(refs)(i, t.ce[i]) is None);
        let g = stateful_check(refs, i);
        lemma_first_fail_none(t.ce[i].0, g);
        assert(g(j, t.ce[i].0[j]) is None);
        let f = meas_check(refs, t.ce[i].0[j].0, "conditional-endorsement"@, i);
        lemma_first_fail_none(t.ce[i].0[j].1, f);
        assert(f(k, t.ce[i].0[j].1[k]) is None);
    }
}

} // verus!
