use hake::digitalocean::{
    cluster_create_request, cluster_url, bearer_auth, create_succeeded, delete_succeeded,
    droplet_ids_of_cluster, kubeconfig_url, load_balancer_url, load_balancers_pointing_at,
    same_id_set, KubernetesCluster, LoadBalancer, Metadata, Node, NodePool, NodeStatus,
};

fn empty_cluster(name: &str) -> KubernetesCluster {
    KubernetesCluster {
        id: None,
        name: String::from(name),
        region: String::new(),
        version: String::new(),
        cluster_subnet: None,
        service_subnet: None,
        vpc_uuid: None,
        ipv4: None,
        endpoint: None,
        tags: None,
        node_pools: Vec::new(),
    }
}

fn node_with_droplet(droplet_id: Option<&str>) -> Node {
    Node {
        id: String::from("n"),
        name: String::from("n"),
        status: NodeStatus { state: String::from("running") },
        droplet_id: droplet_id.map(String::from),
        created_at: String::new(),
        updated_at: String::new(),
    }
}

fn pool_of(nodes: Vec<Node>) -> NodePool {
    NodePool {
        id: None,
        name: String::from("pool"),
        size: String::from("s-1vcpu-2gb"),
        count: 1,
        tags: None,
        nodes,
    }
}

fn lb(id: &str, droplet_ids: Vec<u32>) -> LoadBalancer {
    LoadBalancer {
        id: Some(String::from(id)),
        name: String::from("lb"),
        ip: None,
        algorithm: String::from("round_robin"),
        status: None,
        tag: None,
        droplet_ids,
    }
}

#[test]
fn metadata_defaults_match_the_documented_cluster_shape() {
    let m = Metadata::default();
    assert_eq!(m.region, "lon1");
    assert_eq!(m.version, "1.17.6-do.0");
    assert_eq!(m.nodepool_size, "s-6vcpu-16gb");
    assert_eq!(m.nodepool_count, 2);
}

#[test]
fn from_string_overrides_named_fields() {
    assert!(Metadata::accepts("region=fra1&nodepool.count=3"));
    let m = Metadata::from_string("region=fra1&nodepool.count=3");
    assert_eq!(m.region, "fra1");
    assert_eq!(m.version, "1.17.6-do.0");
    assert_eq!(m.nodepool_size, "s-6vcpu-16gb");
    assert_eq!(m.nodepool_count, 3);
}

#[test]
fn from_string_skips_unknown_and_malformed_fields() {
    assert!(Metadata::accepts("colour=blue&noequals&version=1.18.8-do.0&a=b=c"));
    let m = Metadata::from_string("colour=blue&noequals&version=1.18.8-do.0&a=b=c");
    assert_eq!(m.region, "lon1");
    assert_eq!(m.version, "1.18.8-do.0");
    assert_eq!(m.nodepool_count, 2);
}

#[test]
fn from_string_on_empty_input_keeps_the_defaults() {
    assert!(Metadata::accepts(""));
    let m = Metadata::from_string("");
    assert_eq!(m.region, "lon1");
    assert_eq!(m.nodepool_count, 2);
}

#[test]
fn accepts_refuses_an_unparsable_nodepool_count() {
    assert!(!Metadata::accepts("nodepool.count=70000"));
    assert!(!Metadata::accepts("nodepool.count=two"));
    assert!(!Metadata::accepts("nodepool.count="));
    assert!(Metadata::accepts("nodepool.count=+17"));
}

#[test]
fn create_request_names_the_pool_after_the_cluster() {
    let r = cluster_create_request("mycluster", Some(String::from("nodepool.size=s-1vcpu-2gb")));
    assert_eq!(r.name, "mycluster");
    assert_eq!(r.region, "lon1");
    assert_eq!(r.version, "1.17.6-do.0");
    assert_eq!(r.id, None);
    assert_eq!(r.node_pools.len(), 1);
    assert_eq!(r.node_pools[0].name, "nodepool-mycluster");
    assert_eq!(r.node_pools[0].size, "s-1vcpu-2gb");
    assert_eq!(r.node_pools[0].count, 2);
    assert!(r.node_pools[0].nodes.is_empty());
}

#[test]
fn create_request_without_metadata_uses_defaults() {
    let r = cluster_create_request("c", None);
    assert_eq!(r.node_pools[0].size, "s-6vcpu-16gb");
    assert_eq!(r.node_pools[0].count, 2);
}

#[test]
fn droplet_ids_flatten_pools_in_order() {
    let mut c = empty_cluster("c");
    c.node_pools.push(pool_of(vec![
        node_with_droplet(Some("11")),
        node_with_droplet(None),
        node_with_droplet(Some("22")),
    ]));
    c.node_pools.push(pool_of(vec![node_with_droplet(Some("33"))]));
    assert_eq!(droplet_ids_of_cluster(&c), Some(vec![11, 22, 33]));
}

#[test]
fn droplet_ids_fail_on_an_unparsable_id() {
    let mut c = empty_cluster("c");
    c.node_pools.push(pool_of(vec![
        node_with_droplet(Some("11")),
        node_with_droplet(Some("not-a-number")),
    ]));
    assert_eq!(droplet_ids_of_cluster(&c), None);
}

#[test]
fn same_id_set_ignores_order_and_repetition() {
    assert!(same_id_set(&vec![1, 2, 3], &vec![3, 1, 2]));
    assert!(same_id_set(&vec![1, 1, 2], &vec![2, 1]));
    assert!(!same_id_set(&vec![1, 2], &vec![1, 2, 3]));
    assert!(!same_id_set(&vec![1, 2, 3], &vec![1, 2]));
    assert!(same_id_set(&vec![], &vec![]));
}

#[test]
fn load_balancer_reconciliation_keeps_exact_matches_only() {
    let lbs = vec![
        lb("a", vec![10, 20]),
        lb("b", vec![20, 10]),
        lb("c", vec![10]),
        lb("d", vec![10, 20, 30]),
    ];
    let matching = load_balancers_pointing_at(&vec![10, 20], lbs);
    let ids: Vec<String> = matching.into_iter().map(|l| l.id.unwrap()).collect();
    assert_eq!(ids, vec!["a", "b"]);
}

#[test]
fn api_urls_follow_the_documented_layout() {
    assert_eq!(
        cluster_url("abc-123"),
        "https://api.digitalocean.com/v2/kubernetes/clusters/abc-123"
    );
    assert_eq!(
        kubeconfig_url("abc-123"),
        "https://api.digitalocean.com/v2/kubernetes/clusters/abc-123/kubeconfig"
    );
    assert_eq!(
        load_balancer_url("lb-9"),
        "https://api.digitalocean.com/v2/load_balancers/lb-9"
    );
}

#[test]
fn auth_header_and_status_decisions() {
    assert_eq!(bearer_auth("tok"), "Bearer tok");
    assert!(create_succeeded(201));
    assert!(!create_succeeded(200));
    assert!(!create_succeeded(500));
    assert!(delete_succeeded(204));
    assert!(!delete_succeeded(404));
}
