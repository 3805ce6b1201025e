//! The `concise-mid-tag` (CoMID) envelope: its identity and language, with the entity,
//! linked-tag and triple sections carried as data items.
use vstd::prelude::*;
use crate::cbor::{Value, VModel, pairs_lookup, map_lookup, clone_value, model_pairs, lemma_model_pairs};
use crate::error::DecodeError;
use crate::types::common::{TagIdentity, TagIdModel, tag_identity_spec, tag_identity_value};

verus! {

/// `concise-mid-tag` — `{ ? 0: language, 1: tag-identity, ? 2: entities, ? 3: linked-tags,
/// 4: triples }`.
#[derive(Clone, Debug, PartialEq)]
pub struct ComidTag {
    /// `language` (key 0).
    pub language: Option<String>,
    /// `tag-identity` (key 1).
    pub tag_identity: TagIdentity,
    /// `entities` (key 2), as carried.
    pub entities: Option<Value>,
    /// `linked-tags` (key 3), as carried.
    pub linked_tags: Option<Value>,
    /// `triples` (key 4): a non-empty map, as carried.
    pub triples: Value,
}

/// Mathematical form of a [`ComidTag`].
pub struct ComidModel {
    pub language: Option<Seq<char>>,
    pub tag_identity: (TagIdModel, Option<int>),
    pub entities: Option<VModel>,
    pub linked_tags: Option<VModel>,
    pub triples: VModel,
}

pub open spec fn opt_model(o: Option<Value>) -> Option<VModel> {
    match o {
        Some(v) => Some(v@),
        None => None,
    }
}

impl View for ComidTag {
    type V = ComidModel;

    open spec fn view(&self) -> ComidModel {
        ComidModel {
            language: match self.language {
                Some(l) => Some(l@),
                None => None,
            },
            tag_identity: (
                self.tag_identity.tag_id@,
                match self.tag_identity.tag_version {
                    Some(x) => Some(x as int),
                    None => None,
                },
            ),
            entities: opt_model(self.entities),
            linked_tags: opt_model(self.linked_tags),
            triples: self.triples@,
        }
    }
}

/// The CoMID a data item denotes, or the reason it does not denote one.
pub open spec fn comid_spec(v: VModel) -> Result<ComidModel, Seq<char>> {
    match v {
        VModel::Mapping(m) => {
            let language = pairs_lookup(m, 0);
            if language is Some && !(language->0 is Text) {
                Err("concise-mid-tag: language must be text"@)
            } else {
                match pairs_lookup(m, 1) {
                    None => Err("concise-mid-tag: missing tag-identity (key 1)"@),
                    Some(ti) => match tag_identity_spec(ti) {
                        Err(e) => Err(e),
                        Ok(id) => match pairs_lookup(m, 4) {
                            None => Err("concise-mid-tag: missing triples (key 4)"@),
                            Some(t) => if t matches VModel::Mapping(tm) && tm.len() > 0 {
                                Ok(
                                    ComidModel {
                                        language: match language {
                                            Some(VModel::Text(l)) => Some(l),
                                            _ => None,
                                        },
                                        tag_identity: id,
                                        entities: pairs_lookup(m, 2),
                                        linked_tags: pairs_lookup(m, 3),
                                        triples: t,
                                    },
                                )
                            } else {
                                Err("concise-mid-tag: triples must be a non-empty map"@)
                            },
                        },
                    },
                }
            }
        },
        _ => Err("concise-mid-tag must be a map"@),
    }
}

fn clone_opt(o: Option<&Value>) -> (r: Option<Value>)
    ensures
        opt_model(r) == (match o {
            Some(v) => Some(v@),
            None => None::<VModel>,
        }),
{
    match o {
        Some(v) => Some(clone_value(v)),
        None => None,
    }
}

impl ComidTag {
    /// Read a `concise-mid-tag` map.
    pub fn from_value(v: &Value) -> (r: Result<ComidTag, DecodeError>)
        ensures
            r matches Ok(c) ==> comid_spec(v@) == Ok::<ComidModel, Seq<char>>(c@),
            r matches Err(e) ==> comid_spec(v@) matches Err(m) && e is Deserialization
                && e->Deserialization_0@ == m,
    {
        proof {
            reveal_strlit("concise-mid-tag: language must be text");
            reveal_strlit("concise-mid-tag: missing tag-identity (key 1)");
            reveal_strlit("concise-mid-tag: missing triples (key 4)");
            reveal_strlit("concise-mid-tag: triples must be a non-empty map");
            reveal_strlit("concise-mid-tag must be a map");
        }
        let m = match v {
            Value::Mapping(m) => m,
            _ => return Err(DecodeError::Deserialization(String::from_str("concise-mid-tag must be a map"))),
        };
        let language = match map_lookup(m, 0) {
            None => None,
            Some(Value::Text(l)) => Some(l.clone()),
            Some(_) => return Err(
                DecodeError::Deserialization(String::from_str("concise-mid-tag: language must be text")),
            ),
        };
        let ti = match map_lookup(m, 1) {
            Some(x) => x,
            None => return Err(
                DecodeError::Deserialization(
                    String::from_str("concise-mid-tag: missing tag-identity (key 1)"),
                ),
            ),
        };
        let tag_identity = match TagIdentity::from_value(ti) {
            Ok(t) => t,
            Err(e) => return Err(e),
        };
        let triples = match map_lookup(m, 4) {
            Some(t) => t,
            None => return Err(
                DecodeError::Deserialization(String::from_str("concise-mid-tag: missing triples (key 4)")),
            ),
        };
        match triples {
            Value::Mapping(tm) => {
                proof {
                    lemma_model_pairs(tm@);
                }
                if tm.len() == 0 {
                    return Err(
                        DecodeError::Deserialization(
                            String::from_str("concise-mid-tag: triples must be a non-empty map"),
                        ),
                    );
                }
            },
            _ => return Err(
                DecodeError::Deserialization(
                    String::from_str("concise-mid-tag: triples must be a non-empty map"),
                ),
            ),
        }
        let entities = clone_opt(map_lookup(m, 2));
        let linked_tags = clone_opt(map_lookup(m, 3));
        Ok(ComidTag { language, tag_identity, entities, linked_tags, triples: clone_value(triples) })
    }
}


/// The item a CoMID is written as: the present keys in order 0 to 4.
pub open spec fn comid_value(c: ComidModel) -> VModel {
    VModel::Mapping(
        (match c.language {
            Some(l) => seq![(VModel::Int(0), VModel::Text(l))],
            None => Seq::empty(),
        }) + seq![(VModel::Int(1), tag_identity_value(c.tag_identity))] + (match c.entities {
            Some(e) => seq![(VModel::Int(2), e)],
            None => Seq::empty(),
        }) + (match c.linked_tags {
            Some(l) => seq![(VModel::Int(3), l)],
            None => Seq::empty(),
        }) + seq![(VModel::Int(4), c.triples)],
    )
}

impl ComidTag {
    /// The item the CoMID is written as.
    pub fn to_value(&self) -> (r: Value)
        ensures
            r@ == comid_value(self@),
    {
        let mut entries: Vec<(Value, Value)> = Vec::new();
        if let Some(l) = &self.language {
            entries.push((Value::Integer(0), Value::Text(l.clone())));
        }
        entries.push((Value::Integer(1), self.tag_identity.to_value()));
        if let Some(e) = &self.entities {
            entries.push((Value::Integer(2), clone_value(e)));
        }
        if let Some(l) = &self.linked_tags {
            entries.push((Value::Integer(3), clone_value(l)));
        }
        entries.push((Value::Integer(4), clone_value(&self.triples)));
        proof {
            lemma_model_pairs(entries@);
            assert(model_pairs(entries@) =~= match comid_value(self@) {
                VModel::Mapping(s) => s,
                _ => Seq::empty(),
            });
        }
        Value::Mapping(entries)
    }
}

} // verus!
