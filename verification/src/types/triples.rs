//! The triple records of a CoMID, with the data items they are written as.
//!
//! Environments, measurements and keys are carried as data items (see
//! [`EnvironmentMap`], [`MeasurementMap`], [`CryptoKey`]); a triple record is a CBOR array
//! of its parts, and the triples map keys each list of records by its kind.
use vstd::prelude::*;
use crate::cbor::{Value, VModel, model_list, lemma_model_list, lemma_model_list_push, clone_value, clone_list};
use crate::types::common::{CryptoKey, TagIdChoice, TagIdModel, tag_id_value};
use crate::types::environment::EnvironmentMap;
use crate::types::measurement::MeasurementMap;

verus! {

/// A value written as one CBOR data item.
pub trait WrittenAs {
    /// The data item the value is written as.
    spec fn item(&self) -> VModel;

    /// The value as a data item.
    fn to_value(&self) -> (r: Value)
        ensures
            r@ == self.item(),
    ;
}

/// The data items a list of values is written as, in order.
pub open spec fn items<T: WrittenAs>(s: Seq<T>) -> Seq<VModel> {
    s.map_values(|x: T| x.item())
}

/// The data items of a list, in order.
pub fn values_of<T: WrittenAs>(v: &Vec<T>) -> (r: Vec<Value>)
    ensures
        model_list(r@) == items(v@),
{
    let mut out: Vec<Value> = Vec::new();
    let mut i: usize = 0;
    while i < v.len()
        invariant
            i <= v@.len(),
            model_list(out@) == items(v@).take(i as int),
        decreases v@.len() - i,
    {
        let x = v[i].to_value();
        proof {
            lemma_model_list_push(out@, x);
            assert(items(v@).take(i + 1) =~= items(v@).take(i as int).push(x@));
        }
        out.push(x);
        i += 1;
    }
    proof {
        assert(items(v@).take(i as int) =~= items(v@));
    }
    out
}

/// An array of the given items.
fn array_of(items: Vec<Value>) -> (r: Value)
    ensures
        r@ == VModel::Array(model_list(items@)),
{
    Value::Array(items)
}

/// A two-element array.
fn pair_array(a: Value, b: Value) -> (r: Value)
    ensures
        r@ == VModel::Array(seq![a@, b@]),
{
    let mut v: Vec<Value> = Vec::new();
    v.push(a);
    v.push(b);
    proof {
        lemma_model_list(v@);
        assert(model_list(v@) =~= seq![a@, b@]);
    }
    Value::Array(v)
}

/// A two-element array with an optional third element.
fn pair_array_opt(a: Value, b: Value, c: Option<Value>) -> (r: Value)
    ensures
        r@ == VModel::Array(
            seq![a@, b@] + match c {
                Some(x) => seq![x@],
                None => Seq::<VModel>::empty(),
            },
        ),
{
    let mut v: Vec<Value> = Vec::new();
    v.push(a);
    v.push(b);
    let ghost third = match c {
        Some(ref x) => seq![x@],
        None => Seq::<VModel>::empty(),
    };
    if let Some(x) = c {
        v.push(x);
    }
    proof {
        lemma_model_list(v@);
        assert(model_list(v@) =~= seq![a@, b@] + third);
    }
    Value::Array(v)
}

/// Mathematical form of an environment with a list of items about it.
pub type EnvListModel = (VModel, Seq<VModel>);

/// The array `[environment, [items]]`.
pub open spec fn env_list_value(t: EnvListModel) -> VModel {
    VModel::Array(seq![t.0, VModel::Array(t.1)])
}

/// An environment with the measurements claimed of it: `[environment-map,
/// [+ measurement-map]]`. It is the shape of a reference-values triple, of an
/// endorsed-values triple and of a stateful-environment record.
#[derive(Clone, Debug, PartialEq)]
pub struct EnvClaims(pub EnvironmentMap, pub Vec<MeasurementMap>);

/// `reference-triple-record` — `[ref-env, [+ ref-claims]]`.
pub type ReferenceTriple = EnvClaims;

/// `endorsed-triple-record` — `[condition, [+ endorsement]]`.
pub type EndorsedTriple = EnvClaims;

/// `stateful-environment-record` — `[environment, [+ claims]]`.
pub type StatefulEnvironmentRecord = EnvClaims;

impl View for EnvClaims {
    type V = EnvListModel;

    open spec fn view(&self) -> EnvListModel {
        (self.0@, model_list(self.1@))
    }
}

impl EnvClaims {
    /// The record of an environment and its measurements.
    pub fn new(env: EnvironmentMap, measurements: Vec<MeasurementMap>) -> (r: Self)
        ensures
            r@ == (env@, model_list(measurements@)),
    {
        EnvClaims(env, measurements)
    }

    /// A deep copy.
    pub fn copy(&self) -> (r: Self)
        ensures
            r@ == self@,
    {
        EnvClaims(clone_value(&self.0), clone_list(&self.1))
    }
}

impl WrittenAs for EnvClaims {
    open spec fn item(&self) -> VModel {
        env_list_value(self@)
    }

    fn to_value(&self) -> (r: Value) {
        pair_array(clone_value(&self.0), array_of(clone_list(&self.1)))
    }
}

/// Mathematical form of a key triple: environment, keys and optional conditions.
pub type KeyModel = (VModel, Seq<VModel>, Option<VModel>);

/// `non-empty<{ ? 0: mkey, ? 1: authorized-by }>` of a key triple, carried as its data item.
pub type KeyTripleConditions = Value;

/// The array `[environment, [keys], ? conditions]`.
pub open spec fn key_value(t: KeyModel) -> VModel {
    VModel::Array(
        seq![t.0, VModel::Array(t.1)] + match t.2 {
            Some(c) => seq![c],
            None => Seq::<VModel>::empty(),
        },
    )
}

/// An environment with keys bound to it: `[environment-map, [+ key], ? conditions]`, the
/// shape of an identity triple and of an attest-key triple.
#[derive(Clone, Debug, PartialEq)]
pub struct KeyTriple(pub EnvironmentMap, pub Vec<CryptoKey>, pub Option<KeyTripleConditions>);

/// `identity-triple-record` — `[environment, [+ key-list], ? conditions]`.
pub type IdentityTriple = KeyTriple;

/// `attest-key-triple-record` — `[environment, [+ key-list], ? conditions]`.
pub type AttestKeyTriple = KeyTriple;

/// The model of an optional data item.
pub open spec fn opt_item(o: Option<Value>) -> Option<VModel> {
    match o {
        Some(v) => Some(v@),
        None => None,
    }
}

impl View for KeyTriple {
    type V = KeyModel;

    open spec fn view(&self) -> KeyModel {
        (self.0@, model_list(self.1@), opt_item(self.2))
    }
}

fn clone_opt_value(o: &Option<Value>) -> (r: Option<Value>)
    ensures
        opt_item(r) == opt_item(*o),
{
    match o {
        Some(v) => Some(clone_value(v)),
        None => None,
    }
}

impl KeyTriple {
    /// The record of an environment, its keys and optional conditions.
    pub fn new(env: EnvironmentMap, keys: Vec<CryptoKey>, conditions: Option<KeyTripleConditions>) -> (r: Self)
        ensures
            r@ == (env@, model_list(keys@), opt_item(conditions)),
    {
        KeyTriple(env, keys, conditions)
    }
}

impl WrittenAs for KeyTriple {
    open spec fn item(&self) -> VModel {
        key_value(self@)
    }

    fn to_value(&self) -> (r: Value) {
        pair_array_opt(clone_value(&self.0), array_of(clone_list(&self.1)), clone_opt_value(&self.2))
    }
}

/// A domain with the environments it relates to: `[domain, [+ environment]]`, the shape of a
/// domain-dependency triple (trustees) and of a domain-membership triple (members).
#[derive(Clone, Debug, PartialEq)]
pub struct DomainTriple(pub EnvironmentMap, pub Vec<EnvironmentMap>);

/// `domain-dependency-triple-record` — `[domain, [+ trustees]]`.
pub type DomainDependencyTriple = DomainTriple;

/// `domain-membership-triple-record` — `[domain, [+ members]]`.
pub type DomainMembershipTriple = DomainTriple;

impl View for DomainTriple {
    type V = EnvListModel;

    open spec fn view(&self) -> EnvListModel {
        (self.0@, model_list(self.1@))
    }
}

impl DomainTriple {
    /// The record of a domain and the environments it relates to.
    pub fn new(domain: EnvironmentMap, envs: Vec<EnvironmentMap>) -> (r: Self)
        ensures
            r@ == (domain@, model_list(envs@)),
    {
        DomainTriple(domain, envs)
    }
}

impl WrittenAs for DomainTriple {
    open spec fn item(&self) -> VModel {
        env_list_value(self@)
    }

    fn to_value(&self) -> (r: Value) {
        pair_array(clone_value(&self.0), array_of(clone_list(&self.1)))
    }
}

/// Mathematical form of a CoMID-CoSWID triple.
pub type CoswidModel = (VModel, Seq<TagIdModel>);

/// The models of a list of tag identifiers.
pub open spec fn tag_id_models(s: Seq<TagIdChoice>) -> Seq<TagIdModel> {
    s.map_values(|t: TagIdChoice| t@)
}

/// The data items a list of tag identifiers is written as.
pub open spec fn tag_id_values(s: Seq<TagIdModel>) -> Seq<VModel> {
    s.map_values(|t: TagIdModel| tag_id_value(t))
}

/// The array `[environment, [+ tag-id]]`.
pub open spec fn coswid_value(t: CoswidModel) -> VModel {
    VModel::Array(seq![t.0, VModel::Array(tag_id_values(t.1))])
}

/// `coswid-triple-record` — `[environment-map, [+ concise-swid-tag-id]]`.
#[derive(Clone, Debug, PartialEq)]
pub struct CoswidTriple(pub EnvironmentMap, pub Vec<TagIdChoice>);

impl View for CoswidTriple {
    type V = CoswidModel;

    open spec fn view(&self) -> CoswidModel {
        (self.0@, tag_id_models(self.1@))
    }
}

impl CoswidTriple {
    /// The record of an environment and the CoSWID tags that describe it.
    pub fn new(env: EnvironmentMap, tag_ids: Vec<TagIdChoice>) -> (r: Self)
        ensures
            r@ == (env@, tag_id_models(tag_ids@)),
    {
        CoswidTriple(env, tag_ids)
    }
}

/// The data items of a list of tag identifiers.
fn tag_id_items(ids: &Vec<TagIdChoice>) -> (r: Vec<Value>)
    ensures
        model_list(r@) == tag_id_values(tag_id_models(ids@)),
{
    let ghost target = tag_id_values(tag_id_models(ids@));
    let mut out: Vec<Value> = Vec::new();
    let mut i: usize = 0;
    while i < ids.len()
        invariant
            i <= ids@.len(),
            target == tag_id_values(tag_id_models(ids@)),
            target.len() == ids@.len(),
            model_list(out@) == target.take(i as int),
        decreases ids@.len() - i,
    {
        let x = match &ids[i] {
            TagIdChoice::Text(t) => Value::Text(t.clone()),
            TagIdChoice::Uuid(u) => {
                let inner = Value::Bytes(crate::cbor::copy_bytes(u.as_slice()));
                let r = Value::Tag(37, Box::new(inner));
                assert(r@ == VModel::Tag(37, Box::new(inner@)));
                r
            },
        };
        proof {
            assert(x@ == target[i as int]);
            lemma_model_list_push(out@, x);
            assert(target.take(i + 1) =~= target.take(i as int).push(x@));
        }
        out.push(x);
        i += 1;
    }
    proof {
        assert(target.take(i as int) =~= target);
    }
    out
}

impl WrittenAs for CoswidTriple {
    open spec fn item(&self) -> VModel {
        coswid_value(self@)
    }

    fn to_value(&self) -> (r: Value) {
        pair_array(clone_value(&self.0), array_of(tag_id_items(&self.1)))
    }
}

/// Mathematical form of the condition of a conditional-endorsement-series triple:
/// environment, claims and optional authorising keys.
pub type CesConditionModel = (VModel, Seq<VModel>, Option<Seq<VModel>>);

/// The array `[environment, [* claims], ? [+ authorized-by]]`.
pub open spec fn ces_condition_value(c: CesConditionModel) -> VModel {
    VModel::Array(
        seq![c.0, VModel::Array(c.1)] + match c.2 {
            Some(a) => seq![VModel::Array(a)],
            None => Seq::<VModel>::empty(),
        },
    )
}

/// The condition of a conditional-endorsement-series triple.
#[derive(Clone, Debug, PartialEq)]
pub struct CesCondition {
    /// The environment the series applies to.
    pub environment: EnvironmentMap,
    /// Measurements the environment must match (may be empty).
    pub claims_list: Vec<MeasurementMap>,
    /// Keys that must have authorised the matched claims.
    pub authorized_by: Option<Vec<CryptoKey>>,
}

/// The models of an optional list of data items.
pub open spec fn opt_items(o: Option<Vec<Value>>) -> Option<Seq<VModel>> {
    match o {
        Some(v) => Some(model_list(v@)),
        None => None,
    }
}

impl View for CesCondition {
    type V = CesConditionModel;

    open spec fn view(&self) -> CesConditionModel {
        (self.environment@, model_list(self.claims_list@), opt_items(self.authorized_by))
    }
}

impl WrittenAs for CesCondition {
    open spec fn item(&self) -> VModel {
        ces_condition_value(self@)
    }

    fn to_value(&self) -> (r: Value) {
        let auth = match &self.authorized_by {
            Some(a) => Some(array_of(clone_list(a))),
            None => None,
        };
        pair_array_opt(clone_value(&self.environment), array_of(clone_list(&self.claims_list)), auth)
    }
}

/// Mathematical form of a series record: the selection and the addition.
pub type SeriesModel = (Seq<VModel>, Seq<VModel>);

/// The array `[[+ selection], [+ addition]]`.
pub open spec fn series_value(s: SeriesModel) -> VModel {
    VModel::Array(seq![VModel::Array(s.0), VModel::Array(s.1)])
}

/// `conditional-series-record` — `[selection: [+ measurement-map], addition:
/// [+ measurement-map]]`.
#[derive(Clone, Debug, PartialEq)]
pub struct ConditionalSeriesRecord(pub Vec<MeasurementMap>, pub Vec<MeasurementMap>);

impl View for ConditionalSeriesRecord {
    type V = SeriesModel;

    open spec fn view(&self) -> SeriesModel {
        (model_list(self.0@), model_list(self.1@))
    }
}

impl ConditionalSeriesRecord {
    /// The record of a selection and the measurements it adds.
    pub fn new(selection: Vec<MeasurementMap>, addition: Vec<MeasurementMap>) -> (r: Self)
        ensures
            r@ == (model_list(selection@), model_list(addition@)),
    {
        ConditionalSeriesRecord(selection, addition)
    }
}

impl WrittenAs for ConditionalSeriesRecord {
    open spec fn item(&self) -> VModel {
        series_value(self@)
    }

    fn to_value(&self) -> (r: Value) {
        pair_array(array_of(clone_list(&self.0)), array_of(clone_list(&self.1)))
    }
}

/// The models of a list of series records.
pub open spec fn series_models(s: Seq<ConditionalSeriesRecord>) -> Seq<SeriesModel> {
    s.map_values(|r: ConditionalSeriesRecord| r@)
}

/// Mathematical form of a conditional-endorsement-series triple.
pub type CesModel = (CesConditionModel, Seq<SeriesModel>);

/// The data items of a list of series records.
pub open spec fn series_values(s: Seq<SeriesModel>) -> Seq<VModel> {
    s.map_values(|r: SeriesModel| series_value(r))
}

/// The array `[condition, [+ series]]`.
pub open spec fn ces_value(t: CesModel) -> VModel {
    VModel::Array(seq![ces_condition_value(t.0), VModel::Array(series_values(t.1))])
}

/// `conditional-endorsement-series-triple-record` — `[condition, [+ series]]`.
#[derive(Clone, Debug, PartialEq)]
pub struct ConditionalEndorsementSeriesTriple(pub CesCondition, pub Vec<ConditionalSeriesRecord>);

impl View for ConditionalEndorsementSeriesTriple {
    type V = CesModel;

    open spec fn view(&self) -> CesModel {
        (self.0@, series_models(self.1@))
    }
}

impl ConditionalEndorsementSeriesTriple {
    /// The triple of a condition and its series.
    pub fn new(condition: CesCondition, series: Vec<ConditionalSeriesRecord>) -> (r: Self)
        ensures
            r@ == (condition@, series_models(series@)),
    {
        ConditionalEndorsementSeriesTriple(condition, series)
    }
}

impl WrittenAs for ConditionalEndorsementSeriesTriple {
    open spec fn item(&self) -> VModel {
        ces_value(self@)
    }

    fn to_value(&self) -> (r: Value) {
        let series = values_of(&self.1);
        proof {
            assert(items(self.1@) =~= series_values(series_models(self.1@)));
        }
        pair_array(self.0.to_value(), array_of(series))
    }
}

/// The models of a list of environment records.
pub open spec fn claims_models(s: Seq<EnvClaims>) -> Seq<EnvListModel> {
    s.map_values(|r: EnvClaims| r@)
}

/// The data items of a list of environment records.
pub open spec fn env_list_values(s: Seq<EnvListModel>) -> Seq<VModel> {
    s.map_values(|r: EnvListModel| env_list_value(r))
}

/// Mathematical form of a conditional-endorsement triple: conditions and endorsements.
pub type CeModel = (Seq<EnvListModel>, Seq<EnvListModel>);

/// The array `[[+ stateful-environment-record], [+ endorsed-triple-record]]`.
pub open spec fn ce_value(t: CeModel) -> VModel {
    VModel::Array(seq![VModel::Array(env_list_values(t.0)), VModel::Array(env_list_values(t.1))])
}

/// `conditional-endorsement-triple-record` — `[conditions: [+ stateful-environment-record],
/// endorsements: [+ endorsed-triple-record]]`.
#[derive(Clone, Debug, PartialEq)]
pub struct ConditionalEndorsementTriple(pub Vec<StatefulEnvironmentRecord>, pub Vec<EndorsedTriple>);

impl View for ConditionalEndorsementTriple {
    type V = CeModel;

    open spec fn view(&self) -> CeModel {
        (claims_models(self.0@), claims_models(self.1@))
    }
}

impl ConditionalEndorsementTriple {
    /// The triple of conditions and the endorsements they unlock.
    pub fn new(conditions: Vec<StatefulEnvironmentRecord>, endorsements: Vec<EndorsedTriple>) -> (r: Self)
        ensures
            r@ == (claims_models(conditions@), claims_models(endorsements@)),
    {
        ConditionalEndorsementTriple(conditions, endorsements)
    }
}

impl WrittenAs for ConditionalEndorsementTriple {
    open spec fn item(&self) -> VModel {
        ce_value(self@)
    }

    fn to_value(&self) -> (r: Value) {
        let conds = values_of(&self.0);
        let ends = values_of(&self.1);
        proof {
            assert(items(self.0@) =~= env_list_values(claims_models(self.0@)));
            assert(items(self.1@) =~= env_list_values(claims_models(self.1@)));
        }
        pair_array(array_of(conds), array_of(ends))
    }
}

/// The data items of a list of key triples.
pub open spec fn key_values(s: Seq<KeyModel>) -> Seq<VModel> {
    s.map_values(|t: KeyModel| key_value(t))
}

/// The data items of a list of CoMID-CoSWID triples.
pub open spec fn coswid_values(s: Seq<CoswidModel>) -> Seq<VModel> {
    s.map_values(|t: CoswidModel| coswid_value(t))
}

/// The data items of a list of conditional-endorsement-series triples.
pub open spec fn ces_values(s: Seq<CesModel>) -> Seq<VModel> {
    s.map_values(|t: CesModel| ces_value(t))
}

/// The data items of a list of conditional-endorsement triples.
pub open spec fn ce_values(s: Seq<CeModel>) -> Seq<VModel> {
    s.map_values(|t: CeModel| ce_value(t))
}

} // verus!
