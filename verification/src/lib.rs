//! Typed access to API objects that describe themselves by a
//! (group, version, kind, plural) identity and carry a common metadata
//! block (name, namespace, labels, annotations, owner references,
//! finalizers).
//!
//! The two central abstractions are [`resource::Resource`], which derives
//! the composite `apiVersion` string and the REST request path for a
//! resource, and [`resource::ResourceExt`], which offers convenience
//! accessors over the metadata block.

pub mod metadata;
pub mod paths;
pub mod resource;
pub mod string_map;

pub use crate::metadata::Error;
pub use crate::metadata::ObjectMeta;
pub use crate::metadata::OwnerReference;
pub use crate::resource::DynamicObject;
pub use crate::resource::Resource;
pub use crate::resource::ResourceExt;
pub use crate::resource::ResourceIdentity;
pub use crate::string_map::StringMap;
