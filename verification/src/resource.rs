//! The accessor capabilities for typed API objects: [`Resource`] derives
//! the composite `apiVersion` string and the hierarchical request path from
//! a type's identity and exposes its metadata block; [`ResourceExt`] layers
//! convenience accessors over that metadata.

use crate::metadata::Error;
use crate::metadata::ObjectMeta;
use crate::metadata::OwnerReference;
use crate::paths::api_version_view;
use crate::paths::namespaces_marker;
use crate::paths::url_path_view;
use crate::string_map::StringMap;
use vstd::prelude::*;
use vstd::string::StringExecFns;

verus! {

/// An accessor capability for an API object that describes itself by a
/// (group, version, kind, plural) identity and carries an [`ObjectMeta`]
/// block.
pub trait Resource {
    /// Identity information for types that do not know their resource
    /// information at compile time. Types whose identity is fixed at
    /// compile time select `DynamicType = ()`; types resolved at runtime
    /// select the descriptor that carries the information.
    type DynamicType: Send + Sync + 'static;

    /// The kind the descriptor determines.
    spec fn spec_kind(dt: &Self::DynamicType) -> Seq<char>;

    /// The group the descriptor determines; empty means the core group.
    spec fn spec_group(dt: &Self::DynamicType) -> Seq<char>;

    /// The version the descriptor determines.
    spec fn spec_version(dt: &Self::DynamicType) -> Seq<char>;

    /// The plural collection name the descriptor determines.
    spec fn spec_plural(dt: &Self::DynamicType) -> Seq<char>;

    /// The metadata block embedded in this instance.
    spec fn spec_meta(&self) -> ObjectMeta;

    /// Returns the kind of this object.
    fn kind(dt: &Self::DynamicType) -> (r: String)
        ensures
            r@ == Self::spec_kind(dt),
    ;

    /// Returns the group of this object; the empty string names the core
    /// (unnamed) group.
    fn group(dt: &Self::DynamicType) -> (r: String)
        ensures
            r@ == Self::spec_group(dt),
    ;

    /// Returns the version of this object.
    fn version(dt: &Self::DynamicType) -> (r: String)
        ensures
            r@ == Self::spec_version(dt),
    ;

    /// Returns the plural name of the kind, used as the collection segment
    /// of request paths.
    fn plural(dt: &Self::DynamicType) -> (r: String)
        ensures
            r@ == Self::spec_plural(dt),
    ;

    /// Returns the composite `apiVersion` of this object: the bare version
    /// for the core group, `group/version` otherwise.
    fn api_version(dt: &Self::DynamicType) -> (r: String)
        ensures
            r@ == api_version_view(Self::spec_group(dt), Self::spec_version(dt)),
    {
        let group = Self::group(dt);
        if group.as_str().is_empty() {
            return Self::version(dt);
        }
        let mut s = group;
        s.append("/");
        let v = Self::version(dt);
        s.append(v.as_str());
        proof {
            reveal_strlit("/");
            assert("/"@ =~= seq!['/']);
            assert(s@ =~= api_version_view(Self::spec_group(dt), Self::spec_version(dt)));
        }
        s
    }

    /// Builds the request path for this resource:
    /// `/api/<version>/[namespaces/<ns>/]<plural>` for the core group,
    /// `/apis/<group>/<version>/[namespaces/<ns>/]<plural>` otherwise.
    /// No trailing slash; nothing is URL-encoded (the identity fields are
    /// assumed path-safe).
    fn url_path(dt: &Self::DynamicType, namespace: Option<&str>) -> (r: String)
        ensures
            r@ == url_path_view(
                Self::spec_group(dt),
                Self::spec_version(dt),
                Self::spec_plural(dt),
                namespace.deep_view(),
            ),
    {
        let group = Self::group(dt);
        let api_version = Self::api_version(dt);
        let plural = Self::plural(dt);
        let mut path = String::new();
        if group.as_str().is_empty() {
            path.append("/api/");
        } else {
            path.append("/apis/");
        }
        path.append(api_version.as_str());
        path.append("/");
        if let Some(ns) = namespace {
            path.append("namespaces/");
            path.append(ns);
            path.append("/");
        }
        path.append(plural.as_str());
        proof {
            reveal_strlit("/api/");
            reveal_strlit("/apis/");
            reveal_strlit("/");
            reveal_strlit("namespaces/");
            assert("/api/"@ =~= seq!['/', 'a', 'p', 'i', '/']);
            assert("/apis/"@ =~= seq!['/', 'a', 'p', 'i', 's', '/']);
            assert("/"@ =~= seq!['/']);
            assert("namespaces/"@ =~= namespaces_marker());
            assert(path@ =~= url_path_view(
                Self::spec_group(dt),
                Self::spec_version(dt),
                Self::spec_plural(dt),
                namespace.deep_view(),
            ));
        }
        path
    }

    /// Metadata that all persisted resources must have. The returned
    /// reference aliases the embedded block; nothing is copied.
    fn meta(&self) -> (m: &ObjectMeta)
        ensures
            *m == self.spec_meta(),
    ;

    /// Mutable access to the same embedded metadata block: changes made
    /// through the returned reference are immediately visible to every
    /// subsequent accessor.
    fn meta_mut(&mut self) -> (m: &mut ObjectMeta)
        ensures
            *m == old(self).spec_meta(),
            final(self).spec_meta() == *final(m),
    ;
}

/// A runtime-supplied resource identity: kind, group, version and plural
/// collection name. The composite `apiVersion` is always derived from
/// these fields, never stored.
pub struct ResourceIdentity {
    /// Human-readable type name.
    pub kind: String,
    /// API group; the empty string names the core (unnamed) group.
    pub group: String,
    /// API version within the group; non-empty for well-formed identities.
    pub version: String,
    /// Lowercase resource-collection name used in request paths.
    pub plural: String,
}

/// An API object whose identity is resolved at runtime from a
/// [`ResourceIdentity`] descriptor rather than fixed at compile time.
pub struct DynamicObject {
    /// The embedded metadata block, exclusively owned by this instance.
    pub metadata: ObjectMeta,
}

impl Resource for DynamicObject {
    type DynamicType = ResourceIdentity;

    open spec fn spec_kind(dt: &ResourceIdentity) -> Seq<char> {
        dt.kind@
    }

    open spec fn spec_group(dt: &ResourceIdentity) -> Seq<char> {
        dt.group@
    }

    open spec fn spec_version(dt: &ResourceIdentity) -> Seq<char> {
        dt.version@
    }

    open spec fn spec_plural(dt: &ResourceIdentity) -> Seq<char> {
        dt.plural@
    }

    open spec fn spec_meta(&self) -> ObjectMeta {
        self.metadata
    }

    fn kind(dt: &ResourceIdentity) -> String {
        dt.kind.clone()
    }

    fn group(dt: &ResourceIdentity) -> String {
        dt.group.clone()
    }

    fn version(dt: &ResourceIdentity) -> String {
        dt.version.clone()
    }

    fn plural(dt: &ResourceIdentity) -> String {
        dt.plural.clone()
    }

    fn meta(&self) -> &ObjectMeta {
        &self.metadata
    }

    fn meta_mut(&mut self) -> &mut ObjectMeta {
        &mut self.metadata
    }
}

/// Convenience accessors over the metadata block of any [`Resource`].
/// Every accessor reads or returns the embedded block itself; none copies
/// it, so a mutation is visible to every later read.
pub trait ResourceExt: Resource {
    /// The name of the resource, or [`Error::MissingField`] when the
    /// metadata block has no name; because of name generation, objects not
    /// yet persisted may lack one.
    fn name(&self) -> (r: Result<String, Error>)
        ensures
            r is Ok <==> self.spec_meta().name is Some,
            r matches Ok(n) ==> Some(n) == self.spec_meta().name,
            r matches Err(e) ==> e == Error::MissingField,
    ;

    /// The namespace the resource is in, when it is namespace-scoped.
    fn namespace(&self) -> (r: Option<String>)
        ensures
            r == self.spec_meta().namespace,
    ;

    /// The opaque server-assigned resource version token, when present.
    fn resource_version(&self) -> (r: Option<String>)
        ensures
            r == self.spec_meta().resource_version,
    ;

    /// The unique id of the object, when it has been persisted; deleting
    /// an object and recreating it under the same name yields a new id.
    fn uid(&self) -> (r: Option<String>)
        ensures
            r == self.spec_meta().uid,
    ;

    /// The resource labels; an object with none set has an empty mapping.
    fn labels(&self) -> (r: &StringMap)
        ensures
            *r == self.spec_meta().labels,
    ;

    /// Mutable access to the labels; the returned reference aliases the
    /// stored mapping, so changes are visible to subsequent reads.
    fn labels_mut(&mut self) -> (r: &mut StringMap)
        ensures
            *r == old(self).spec_meta().labels,
            final(self).spec_meta() == (ObjectMeta {
                labels: *final(r),
                ..old(self).spec_meta()
            }),
    ;

    /// The resource annotations; an object with none set has an empty
    /// mapping.
    fn annotations(&self) -> (r: &StringMap)
        ensures
            *r == self.spec_meta().annotations,
    ;

    /// Mutable access to the annotations; the returned reference aliases
    /// the stored mapping.
    fn annotations_mut(&mut self) -> (r: &mut StringMap)
        ensures
            *r == old(self).spec_meta().annotations,
            final(self).spec_meta() == (ObjectMeta {
                annotations: *final(r),
                ..old(self).spec_meta()
            }),
    ;

    /// The owner references, in stored order.
    fn owner_references(&self) -> (r: &[OwnerReference])
        ensures
            r@ == self.spec_meta().owner_references@,
    ;

    /// Mutable access to the owner-reference sequence.
    fn owner_references_mut(&mut self) -> (r: &mut Vec<OwnerReference>)
        ensures
            *r == old(self).spec_meta().owner_references,
            final(self).spec_meta() == (ObjectMeta {
                owner_references: *final(r),
                ..old(self).spec_meta()
            }),
    ;

    /// The finalizer tokens, in stored (processing) order.
    fn finalizers(&self) -> (r: &[String])
        ensures
            r@ == self.spec_meta().finalizers@,
    ;

    /// Mutable access to the finalizer sequence.
    fn finalizers_mut(&mut self) -> (r: &mut Vec<String>)
        ensures
            *r == old(self).spec_meta().finalizers,
            final(self).spec_meta() == (ObjectMeta {
                finalizers: *final(r),
                ..old(self).spec_meta()
            }),
    ;
}

impl<K: Resource> ResourceExt for K {
    fn name(&self) -> Result<String, Error> {
        match &self.meta().name {
            Some(n) => Ok(n.clone()),
            None => Err(Error::MissingField),
        }
    }

    fn namespace(&self) -> Option<String> {
        match &self.meta().namespace {
            Some(ns) => Some(ns.clone()),
            None => None,
        }
    }

    fn resource_version(&self) -> Option<String> {
        match &self.meta().resource_version {
            Some(rv) => Some(rv.clone()),
            None => None,
        }
    }

    fn uid(&self) -> Option<String> {
        match &self.meta().uid {
            Some(uid) => Some(uid.clone()),
            None => None,
        }
    }

    fn labels(&self) -> &StringMap {
        &self.meta().labels
    }

    fn labels_mut(&mut self) -> &mut StringMap {
        &mut self.meta_mut().labels
    }

    fn annotations(&self) -> &StringMap {
        &self.meta().annotations
    }

    fn annotations_mut(&mut self) -> &mut StringMap {
        &mut self.meta_mut().annotations
    }

    fn owner_references(&self) -> &[OwnerReference] {
        self.meta().owner_references.as_slice()
    }

    fn owner_references_mut(&mut self) -> &mut Vec<OwnerReference> {
        &mut self.meta_mut().owner_references
    }

    fn finalizers(&self) -> &[String] {
        self.meta().finalizers.as_slice()
    }

    fn finalizers_mut(&mut self) -> &mut Vec<String> {
        &mut self.meta_mut().finalizers
    }
}

} // verus!
