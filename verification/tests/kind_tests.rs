use hake::kind::{ContainerInfo, Kind};

#[test]
fn test_get_cluster_name() {
    assert_eq!(Kind::get_cluster_name("not-us"), None);
    assert_eq!(
        Kind::get_cluster_name("this-is-us-control-plane"),
        Some(String::from("this-is-us"))
    );
    assert_eq!(
        Kind::get_cluster_name("/this-is-us-control-plane"),
        Some(String::from("this-is-us"))
    );
}

#[test]
fn test_new() {
    let k = Kind::new("test").expect("user has no home directory");

    let home = dirs::home_dir().unwrap();

    assert_eq!(k.name, "test");
    assert_eq!(k.ecr_repo, None);
    assert_eq!(
        k.config_dir,
        format!("{}/.hake/test", home.to_str().unwrap())
    );
    assert_eq!(k.local_registry, None);
}

#[test]
fn get_cluster_name_removes_every_occurrence() {
    assert_eq!(
        Kind::get_cluster_name("a-control-plane-b-control-plane"),
        Some(String::from("a-b"))
    );
    assert_eq!(Kind::get_cluster_name(""), None);
    assert_eq!(
        Kind::get_cluster_name("-control-plane"),
        Some(String::from(""))
    );
}

#[test]
fn with_config_root_fills_fields() {
    let k = Kind::with_config_root("demo", "/tmp/hake-root");
    assert_eq!(k.name, "demo");
    assert_eq!(k.config_dir, "/tmp/hake-root/demo");
    assert_eq!(k.ecr_repo, None);
    assert_eq!(k.local_registry, None);
    assert_eq!(k.extra_port_mapping, None);
    assert!(!k.verbose);
}

#[test]
fn get_kube_config_points_into_config_dir() {
    let k = Kind::with_config_root("demo", "/home/u/.hake");
    assert_eq!(k.get_kube_config(), "/home/u/.hake/demo/kubeconfig");
}

#[test]
fn setters_record_options() {
    let mut k = Kind::with_config_root("demo", "/r");
    k.configure_private_registry(Some(String::from("123.dkr.ecr.io")));
    assert_eq!(k.ecr_repo, Some(String::from("123.dkr.ecr.io")));
    k.set_verbose(true);
    assert!(k.verbose);
    k.use_local_registry(" 172.17.0.2\n");
    assert_eq!(k.local_registry, Some(String::from("172.17.0.2")));
    k.extra_port_mapping("80:80:TCP");
    assert_eq!(k.extra_port_mapping, Some(String::from("80:80:TCP")));
    assert_eq!(k.name, "demo");
    assert_eq!(k.config_dir, "/r/demo");
}

#[test]
fn parse_extra_port_mappings_accepts_the_documented_shapes() {
    let pm = Kind::parse_extra_port_mappings("80:80:TCP").unwrap();
    assert_eq!(pm.container_port, 80);
    assert_eq!(pm.host_port, 80);
    assert_eq!(pm.protocol, "TCP");

    let pm = Kind::parse_extra_port_mappings("12:34:HTTP").unwrap();
    assert_eq!(pm.container_port, 12);
    assert_eq!(pm.host_port, 34);
    assert_eq!(pm.protocol, "HTTP");
}

#[test]
fn parse_extra_port_mappings_rejects_everything_else() {
    assert!(Kind::parse_extra_port_mappings("80:80").is_none());
    assert!(Kind::parse_extra_port_mappings("80").is_none());
    assert!(Kind::parse_extra_port_mappings("8:80:TCP").is_none());
    assert!(Kind::parse_extra_port_mappings("80:80:UDP").is_none());
    assert!(Kind::parse_extra_port_mappings("800:80:TCP").is_none());
    assert!(Kind::parse_extra_port_mappings("").is_none());
}

#[test]
fn kind_node_builds_one_control_plane_node() {
    let nodes = Kind::kind_node("control-plane", Some("/c"), Some("/h"));
    assert_eq!(nodes.len(), 1);
    assert_eq!(nodes[0].role, "control-plane");
    assert_eq!(nodes[0].extra_mounts.len(), 1);
    assert_eq!(nodes[0].extra_mounts[0].container_path, "/c");
    assert_eq!(nodes[0].extra_mounts[0].host_path, "/h");
    assert!(nodes[0].extra_port_mappings.is_empty());
    assert!(nodes[0].kubeadm_config_patches.is_empty());

    let bare = Kind::kind_node("worker", None, None);
    assert_eq!(bare[0].role, "worker");
    assert_eq!(bare[0].extra_mounts[0].container_path, "");
    assert_eq!(bare[0].extra_mounts[0].host_path, "");
}

#[test]
fn init_config_labels_the_node_ingress_ready() {
    assert_eq!(
        Kind::init_config_ingress_ready(),
        "kind: InitConfiguration\nnodeRegistration:\n  kubeletExtraArgs:\n    node-labels: \"ingress-ready=true\""
    );
}

#[test]
fn containerd_patch_mirrors_the_trimmed_address() {
    let patch = Kind::get_containerd_config_patch_to_local_registry("172.17.0.2\n");
    assert_eq!(
        patch,
        "\n[plugins.\"io.containerd.grpc.v1.cri\".registry.mirrors.\"localhost:5000\"]\n  endpoint = [\"http://172.17.0.2:5000\"]"
    );
}

#[test]
fn cluster_config_reflects_registry_choices() {
    let mut k = Kind::with_config_root("demo", "/r");
    let cc = k.get_kind_cluster_config(None);
    assert_eq!(cc.kind, "Cluster");
    assert_eq!(cc.api_version, "kind.x-k8s.io/v1alpha4");
    assert!(cc.nodes.is_empty());
    assert!(cc.containerd_config_patches.is_empty());

    k.use_local_registry("10.0.0.9");
    let cc = k.get_kind_cluster_config(Some("/r/demo/docker_config"));
    assert_eq!(cc.nodes.len(), 1);
    assert_eq!(cc.nodes[0].extra_mounts[0].container_path, "/var/lib/kubelet/config.json");
    assert_eq!(cc.nodes[0].extra_mounts[0].host_path, "/r/demo/docker_config");
    assert_eq!(cc.containerd_config_patches.len(), 1);
    assert!(cc.containerd_config_patches[0].contains("http://10.0.0.9:5000"));
}

#[test]
fn docker_login_encodes_credentials() {
    let doc = Kind::get_docker_login("reg.example.com", "user", "secret");
    assert_eq!(
        doc,
        "{\"auths\":{\"reg.example.com\":{\"auth\":\"dXNlcjpzZWNyZXQ=\"}}}"
    );
}

#[test]
fn docker_login_escapes_the_registry_name() {
    let doc = Kind::get_docker_login("re\"g", "user", "secret");
    assert_eq!(doc, "{\"auths\":{\"re\\\"g\":{\"auth\":\"dXNlcjpzZWNyZXQ=\"}}}");
}

#[test]
fn create_plan_lays_out_the_kind_invocation() {
    let k = Kind::with_config_root("demo", "/r");
    let plan = k.create_plan(None);
    assert_eq!(
        plan.args,
        vec![
            "create",
            "cluster",
            "--name",
            "demo",
            "--kubeconfig",
            "/r/demo/kubeconfig",
            "--config",
            "/r/demo/kind_config",
        ]
    );
    assert_eq!(
        plan.args_line,
        "create cluster --name demo --kubeconfig /r/demo/kubeconfig --config /r/demo/kind_config"
    );
    assert_eq!(plan.config_path, "/r/demo/kind_config");
    assert_eq!(plan.kubeconfig_path, "/r/demo/kubeconfig");
    assert_eq!(plan.args_path, "/r/demo/kind_args");
    assert!(plan.config.nodes.is_empty());
}

#[test]
fn create_plan_patches_a_port_mapping_onto_a_fresh_node() {
    let mut k = Kind::with_config_root("demo", "/r");
    k.extra_port_mapping("80:81:TCP");
    let plan = k.create_plan(None);
    assert_eq!(plan.config.nodes.len(), 1);
    assert_eq!(plan.config.nodes[0].role, "control-plane");
    assert_eq!(plan.config.nodes[0].extra_port_mappings.len(), 1);
    assert_eq!(plan.config.nodes[0].extra_port_mappings[0].container_port, 80);
    assert_eq!(plan.config.nodes[0].extra_port_mappings[0].host_port, 81);
    assert_eq!(plan.config.nodes[0].extra_port_mappings[0].protocol, "TCP");
}

#[test]
fn create_plan_patches_a_port_mapping_onto_the_registry_node() {
    let mut k = Kind::with_config_root("demo", "/r");
    k.extra_port_mapping("10:20:HTTP");
    let plan = k.create_plan(Some("/r/demo/docker_config"));
    assert_eq!(plan.config.nodes.len(), 1);
    assert_eq!(plan.config.nodes[0].extra_mounts[0].host_path, "/r/demo/docker_config");
    assert_eq!(plan.config.nodes[0].extra_port_mappings.len(), 1);
    assert_eq!(plan.config.nodes[0].extra_port_mappings[0].host_port, 20);
}

#[test]
fn create_plan_ignores_a_malformed_port_mapping() {
    let mut k = Kind::with_config_root("demo", "/r");
    k.extra_port_mapping("nonsense");
    let plan = k.create_plan(None);
    assert!(plan.config.nodes.is_empty());
}

#[test]
fn delete_cluster_args_name_the_cluster() {
    assert_eq!(
        Kind::delete_cluster_args("demo"),
        vec!["delete", "cluster", "--name", "demo"]
    );
}

#[test]
fn kind_cluster_names_keeps_only_kind_control_planes() {
    let containers = vec![
        ContainerInfo {
            image: String::from("kindest/node:v1.18.2"),
            name: String::from("/demo-control-plane"),
        },
        ContainerInfo {
            image: String::from("nginx:latest"),
            name: String::from("/web-control-plane"),
        },
        ContainerInfo {
            image: String::from("kindest/node:v1.18.2"),
            name: String::from("/demo-worker"),
        },
        ContainerInfo {
            image: String::from("kindest/node:v1.18.2"),
            name: String::from("other-control-plane"),
        },
    ];
    let names = hake::kind::kind_cluster_names(&containers);
    assert_eq!(names, vec!["demo", "other"]);
}
