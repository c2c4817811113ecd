use kube_core::DynamicObject;
use kube_core::Error;
use kube_core::ObjectMeta;
use kube_core::OwnerReference;
use kube_core::Resource;
use kube_core::ResourceExt;
use kube_core::ResourceIdentity;

fn identity(kind: &str, group: &str, version: &str, plural: &str) -> ResourceIdentity {
    ResourceIdentity {
        kind: kind.to_string(),
        group: group.to_string(),
        version: version.to_string(),
        plural: plural.to_string(),
    }
}

fn fresh_object() -> DynamicObject {
    DynamicObject { metadata: ObjectMeta::default() }
}

#[test]
fn core_group_namespaced_pod_path() {
    let dt = identity("Pod", "", "v1", "pods");
    assert_eq!(
        <DynamicObject as Resource>::url_path(&dt, Some("default")),
        "/api/v1/namespaces/default/pods"
    );
}

#[test]
fn named_group_namespaced_deployment_path() {
    let dt = identity("Deployment", "apps", "v1", "deployments");
    assert_eq!(
        <DynamicObject as Resource>::url_path(&dt, Some("kube-system")),
        "/apis/apps/v1/namespaces/kube-system/deployments"
    );
}

#[test]
fn core_group_cluster_scoped_node_path() {
    let dt = identity("Node", "", "v1", "nodes");
    let path = <DynamicObject as Resource>::url_path(&dt, None);
    assert_eq!(path, "/api/v1/nodes");
    assert!(!path.contains("namespaces/"));
}

#[test]
fn namespaced_path_places_segment_between_api_version_and_plural() {
    let dt = identity("Pod", "", "v1", "pods");
    let path = <DynamicObject as Resource>::url_path(&dt, Some("team-a"));
    assert!(path.contains("namespaces/team-a/"));
    assert!(path.starts_with("/api/v1/namespaces/team-a/"));
    assert!(path.ends_with("/pods"));
}

#[test]
fn named_group_cluster_scoped_path() {
    let dt = identity(
        "ClusterRole",
        "rbac.authorization.k8s.io",
        "v1",
        "clusterroles",
    );
    assert_eq!(
        <DynamicObject as Resource>::url_path(&dt, None),
        "/apis/rbac.authorization.k8s.io/v1/clusterroles"
    );
}

#[test]
fn api_version_of_core_group_is_bare_version() {
    let dt = identity("Pod", "", "v1", "pods");
    assert_eq!(<DynamicObject as Resource>::api_version(&dt), "v1");
}

#[test]
fn api_version_of_named_group_is_composite() {
    let dt = identity("Deployment", "apps", "v1", "deployments");
    assert_eq!(<DynamicObject as Resource>::api_version(&dt), "apps/v1");
}

#[test]
fn identity_getters_return_descriptor_fields() {
    let dt = identity("Deployment", "apps", "v1", "deployments");
    assert_eq!(<DynamicObject as Resource>::kind(&dt), "Deployment");
    assert_eq!(<DynamicObject as Resource>::group(&dt), "apps");
    assert_eq!(<DynamicObject as Resource>::version(&dt), "v1");
    assert_eq!(<DynamicObject as Resource>::plural(&dt), "deployments");
}

#[test]
fn name_of_generated_object_is_missing_field() {
    let obj = fresh_object();
    assert_eq!(obj.name(), Err(Error::MissingField));
    assert_eq!(obj.namespace(), None);
}

#[test]
fn name_returns_stored_value_when_present() {
    let mut obj = fresh_object();
    obj.meta_mut().name = Some("pod-1".to_string());
    assert_eq!(obj.name(), Ok("pod-1".to_string()));
}

#[test]
fn namespace_returns_set_value_without_failing() {
    let mut obj = fresh_object();
    obj.meta_mut().namespace = Some("default".to_string());
    assert_eq!(obj.namespace(), Some("default".to_string()));
    assert_eq!(obj.name(), Err(Error::MissingField));
}

#[test]
fn resource_version_and_uid_pass_through() {
    let mut obj = fresh_object();
    assert_eq!(obj.resource_version(), None);
    assert_eq!(obj.uid(), None);
    obj.meta_mut().resource_version = Some("12345".to_string());
    obj.meta_mut().uid = Some("aa-bb-cc".to_string());
    assert_eq!(obj.resource_version(), Some("12345".to_string()));
    assert_eq!(obj.uid(), Some("aa-bb-cc".to_string()));
}

#[test]
fn fresh_labels_empty_then_mutation_is_visible() {
    let mut obj = fresh_object();
    assert!(obj.labels().is_empty());
    obj.labels_mut().insert("k".to_string(), "v".to_string());
    assert_eq!(obj.labels().len(), 1);
    assert_eq!(obj.labels().get("k"), Some(&"v".to_string()));
}

#[test]
fn fresh_annotations_empty_then_mutation_is_visible() {
    let mut obj = fresh_object();
    assert!(obj.annotations().is_empty());
    assert_eq!(obj.annotations().get("note"), None);
    obj.annotations_mut().insert("note".to_string(), "hello".to_string());
    assert_eq!(obj.annotations().get("note"), Some(&"hello".to_string()));
    assert!(obj.labels().is_empty());
}

#[test]
fn owner_references_mutation_is_visible() {
    let mut obj = fresh_object();
    assert!(obj.owner_references().is_empty());
    obj.owner_references_mut().push(OwnerReference {
        api_version: "v1".to_string(),
        kind: "ReplicaSet".to_string(),
        name: "rs-1".to_string(),
        uid: "u-1".to_string(),
        controller: Some(true),
        block_owner_deletion: None,
    });
    assert_eq!(obj.owner_references().len(), 1);
    assert_eq!(obj.owner_references()[0].name, "rs-1");
    assert_eq!(obj.owner_references()[0].controller, Some(true));
}

#[test]
fn finalizers_keep_insertion_order_and_duplicates() {
    let mut obj = fresh_object();
    assert!(obj.finalizers().is_empty());
    obj.finalizers_mut().push("a/cleanup".to_string());
    obj.finalizers_mut().push("b/cleanup".to_string());
    obj.finalizers_mut().push("a/cleanup".to_string());
    assert_eq!(
        obj.finalizers().to_vec(),
        vec![
            "a/cleanup".to_string(),
            "b/cleanup".to_string(),
            "a/cleanup".to_string()
        ]
    );
}

#[test]
fn meta_returns_embedded_block() {
    let mut obj = fresh_object();
    obj.meta_mut().name = Some("seen".to_string());
    assert_eq!(obj.meta().name, Some("seen".to_string()));
    assert_eq!(obj.meta().namespace, None);
}
