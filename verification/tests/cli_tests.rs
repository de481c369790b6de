use hake::add::{add, cert_manager, ingress_nginx, kubectl_args};
use hake::config::{
    cluster_type, cluster_uuid_path, clusters_to_clean, config_dir_under, get_config_dir,
    kubeconfig_path, path_join, ClusterType,
};

#[test]
fn cert_manager_applies_the_published_manifest() {
    assert_eq!(
        cert_manager(),
        vec![
            "apply",
            "--validate=false",
            "-f",
            "https://github.com/jetstack/cert-manager/releases/download/v0.15.0/cert-manager.yaml",
        ]
    );
}

#[test]
fn ingress_nginx_applies_the_published_manifest() {
    assert_eq!(
        ingress_nginx(),
        vec![
            "apply",
            "-f",
            "https://raw.githubusercontent.com/kubernetes/ingress-nginx/master/deploy/static/provider/kind/deploy.yaml",
        ]
    );
}

#[test]
fn kubectl_args_split_on_single_spaces() {
    assert_eq!(kubectl_args("apply -f x.yaml"), vec!["apply", "-f", "x.yaml"]);
    assert_eq!(kubectl_args("get"), vec!["get"]);
}

#[test]
fn add_knows_exactly_two_capabilities() {
    assert_eq!(add("cert-manager"), Some(cert_manager()));
    assert_eq!(add("ingress-nginx"), Some(ingress_nginx()));
    assert_eq!(add("something-else"), None);
    assert_eq!(add(""), None);
}

#[test]
fn config_paths_are_laid_out_per_cluster() {
    assert_eq!(path_join("/root/.hake", "demo"), "/root/.hake/demo");
    assert_eq!(config_dir_under("/root"), "/root/.hake");
    assert_eq!(cluster_uuid_path("/root/.hake/demo"), "/root/.hake/demo/cluster_uuid");
    assert_eq!(kubeconfig_path("/root/.hake/demo"), "/root/.hake/demo/kubeconfig");
}

#[test]
fn config_dir_sits_under_the_home_directory() {
    let d = get_config_dir().expect("user has no home directory");
    let home = dirs::home_dir().unwrap();
    assert_eq!(d, format!("{}/.hake", home.to_str().unwrap()));
}

#[test]
fn cluster_type_reads_the_uuid_marker() {
    assert!(matches!(cluster_type(true), ClusterType::DigitalOcean));
    assert!(matches!(cluster_type(false), ClusterType::Kind));
}

#[test]
fn clean_selects_directories_without_containers() {
    let clusters = vec![
        String::from("alive"),
        String::from("stale"),
        String::from("gone"),
    ];
    let running = vec![String::from("alive")];
    assert_eq!(clusters_to_clean(&clusters, &running), vec!["stale", "gone"]);
    assert_eq!(
        clusters_to_clean(&clusters, &Vec::new()),
        vec!["alive", "stale", "gone"]
    );
    assert_eq!(clusters_to_clean(&Vec::new(), &running), Vec::<String>::new());
}
