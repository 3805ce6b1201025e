//! Environments: what a triple's claims are about.
use vstd::prelude::*;
use crate::cbor::Value;

verus! {

/// `environment-map` — `{ ? 0: class, ? 1: instance, ? 2: group }`, carried as its data
/// item. The builders and the anchoring rules read an environment only through structural
/// equality of that item.
pub type EnvironmentMap = Value;

} // verus!
