//! The common metadata block carried by every resource instance: name,
//! namespace, version tokens, labels, annotations, owner references and
//! finalizers.

use crate::string_map::StringMap;
use vstd::prelude::*;

verus! {

/// The single failure kind of the convenience accessors: a field that the
/// caller assumed present was absent from the metadata block.
#[derive(Clone, Copy, Debug, PartialEq, Eq, Structural)]
pub enum Error {
    MissingField,
}

/// A back-link record from a resource to another resource that logically
/// owns it.
#[derive(Clone, Debug)]
pub struct OwnerReference {
    pub api_version: String,
    pub kind: String,
    pub name: String,
    pub uid: String,
    pub controller: Option<bool>,
    pub block_owner_deletion: Option<bool>,
}

/// The metadata block embedded in, and exclusively owned by, a resource
/// instance. Absent optional fields stay absent: no accessor defaults them
/// to an empty string.
pub struct ObjectMeta {
    /// Present for objects returned by or referencing a specific server
    /// object; may be absent for create requests using name generation.
    pub name: Option<String>,
    /// Absent for cluster-scoped resources.
    pub namespace: Option<String>,
    /// Opaque server-assigned version token.
    pub resource_version: Option<String>,
    /// Absent before first persistence; unique per object identity.
    pub uid: Option<String>,
    /// Key/value labels; keys unique, order irrelevant.
    pub labels: StringMap,
    /// Key/value annotations; keys unique, order irrelevant.
    pub annotations: StringMap,
    /// Ordered sequence of owner-reference records.
    pub owner_references: Vec<OwnerReference>,
    /// Ordered sequence of finalizer tokens; order is significant.
    pub finalizers: Vec<String>,
}

impl Default for ObjectMeta {
    /// A metadata block with every optional field absent and every
    /// collection empty.
    fn default() -> (r: Self)
        ensures
            r.name is None,
            r.namespace is None,
            r.resource_version is None,
            r.uid is None,
            r.labels@ == Map::<Seq<char>, Seq<char>>::empty(),
            r.annotations@ == Map::<Seq<char>, Seq<char>>::empty(),
            r.owner_references@ == Seq::<OwnerReference>::empty(),
            r.finalizers@ == Seq::<String>::empty(),
    {
        ObjectMeta {
            name: None,
            namespace: None,
            resource_version: None,
            uid: None,
            labels: StringMap::new(),
            annotations: StringMap::new(),
            owner_references: Vec::new(),
            finalizers: Vec::new(),
        }
    }
}

} // verus!
