//! Local clusters run with `kind`: the cluster configuration document,
//! the command lines handed to the `kind` binary, and the naming rules
//! that tie Docker containers back to clusters.

use crate::config;
use crate::encoding;
use crate::text;
use vstd::prelude::*;
use vstd::string::*;

verus! {

/// A host path mounted into a kind node.
#[derive(Debug)]
pub struct ExtraMount {
    pub container_path: String,
    pub host_path: String,
}

/// A port forwarded from the host into a kind node.
#[derive(Debug)]
pub struct PortMapping {
    pub container_port: u32,
    pub host_port: u32,
    pub protocol: String,
}

/// One node of a kind cluster configuration.
#[derive(Debug)]
pub struct Node {
    pub role: String,
    pub extra_mounts: Vec<ExtraMount>,
    pub extra_port_mappings: Vec<PortMapping>,
    pub kubeadm_config_patches: Vec<String>,
}

/// The document handed to `kind create cluster --config`.
#[derive(Debug)]
pub struct ClusterConfig {
    pub kind: String,
    pub api_version: String,
    pub nodes: Vec<Node>,
    pub containerd_config_patches: Vec<String>,
}

/// A kind cluster as the tool sees it: its name, its directory under
/// `~/.hake`, and the options gathered before creation.
#[derive(Debug)]
pub struct Kind {
    pub name: String,
    pub ecr_repo: Option<String>,
    pub config_dir: String,
    pub local_registry: Option<String>,
    pub extra_port_mapping: Option<String>,
    pub verbose: bool,
}

impl Kind {
    /// A fresh handle on the cluster `name`, with its directory under
    /// `~/.hake`; `None` when the user has no home directory.
    pub fn new(name: &str) -> (r: Option<Kind>)
        ensures
            r matches Some(k) ==> k.name@ == name@ && k.ecr_repo is None && k.local_registry
                is None && k.extra_port_mapping is None && !k.verbose && (exists|home: Seq<char>|
                k.config_dir@ == home + "/.hake/"@ + name@),
    {
        match config::get_config_dir() {
            None => None,
            Some(root) => {
                let k = Kind::with_config_root(name, root.as_str());
                proof {
                    let home = choose|h: Seq<char>| root@ == h + "/.hake"@;
                    reveal_strlit("/.hake");
                    reveal_strlit("/");
                    reveal_strlit("/.hake/");
                    assert(k.config_dir@ =~= home + "/.hake/"@ + name@);
                }
                Some(k)
            },
        }
    }

    /// The same handle with the configuration directory given by the
    /// caller instead of found in the environment.
    pub fn with_config_root(name: &str, config_root: &str) -> (k: Kind)
        ensures
            k.name@ == name@,
            k.ecr_repo is None,
            k.config_dir@ == config_root@ + "/"@ + name@,
            k.local_registry is None,
            k.extra_port_mapping is None,
            !k.verbose,
    {
        Kind {
            name: String::from_str(name),
            ecr_repo: None,
            config_dir: config::path_join(config_root, name),
            local_registry: None,
            extra_port_mapping: None,
            verbose: false,
        }
    }

    /// The kind cluster name behind a Docker container name: container
    /// names ending in `-control-plane` belong to kind clusters, and the
    /// cluster name is what remains once that suffix and every `/` are
    /// removed.
    pub fn get_cluster_name(container_name: &str) -> (r: Option<String>)
        ensures
            r is Some <==> text::ends_with_spec(container_name@, "-control-plane"@),
            r matches Some(n) ==> n@ == text::remove_all_spec(
                text::remove_all_spec(container_name@, "-control-plane"@),
                "/"@,
            ),
    {
        if !text::str_ends_with(container_name, "-control-plane") {
            None
        } else {
            proof {
                reveal_strlit("-control-plane");
                reveal_strlit("/");
            }
            let stripped = text::remove_all(container_name, "-control-plane");
            Some(text::remove_all(stripped.as_str(), "/"))
        }
    }

    /// The kubeconfig file of this cluster.
    pub fn get_kube_config(self) -> (r: String)
        ensures
            r@ == self.config_dir@ + "/kubeconfig"@,
    {
        let mut out = self.config_dir;
        out.append("/kubeconfig");
        out
    }

    /// Records the private registry whose credentials the cluster's
    /// kubelet should carry.
    pub fn configure_private_registry(&mut self, reg: Option<String>)
        ensures
            final(self).ecr_repo == reg,
            final(self).name == old(self).name,
            final(self).config_dir == old(self).config_dir,
            final(self).local_registry == old(self).local_registry,
            final(self).extra_port_mapping == old(self).extra_port_mapping,
            final(self).verbose == old(self).verbose,
    {
        self.ecr_repo = reg;
    }

    /// Records whether the `kind` binary should run with its output
    /// shown.
    pub fn set_verbose(&mut self, verbose: bool)
        ensures
            final(self).verbose == verbose,
            final(self).name == old(self).name,
            final(self).ecr_repo == old(self).ecr_repo,
            final(self).config_dir == old(self).config_dir,
            final(self).local_registry == old(self).local_registry,
            final(self).extra_port_mapping == old(self).extra_port_mapping,
    {
        self.verbose = verbose;
    }

    /// Records the address of a local Docker registry, trimmed as the
    /// `docker inspect` output it comes from needs.
    pub fn use_local_registry(&mut self, registry_ip: &str)
        ensures
            final(self).local_registry matches Some(r) && r@ == text::trim_spec(registry_ip@),
            final(self).name == old(self).name,
            final(self).ecr_repo == old(self).ecr_repo,
            final(self).config_dir == old(self).config_dir,
            final(self).extra_port_mapping == old(self).extra_port_mapping,
            final(self).verbose == old(self).verbose,
    {
        self.local_registry = Some(text::trim(registry_ip));
    }

    /// Records an extra port mapping request, parsed only at creation.
    pub fn extra_port_mapping(&mut self, extra_port_mapping: &str)
        ensures
            final(self).extra_port_mapping matches Some(e) && e@ == extra_port_mapping@,
            final(self).name == old(self).name,
            final(self).ecr_repo == old(self).ecr_repo,
            final(self).config_dir == old(self).config_dir,
            final(self).local_registry == old(self).local_registry,
            final(self).verbose == old(self).verbose,
    {
        self.extra_port_mapping = Some(String::from_str(extra_port_mapping));
    }
}

impl Kind {
    /// A single control-plane node mounting `host_path` (when given) at
    /// `container_path`, with no port mappings and no kubeadm patches.
    pub fn kind_node(role: &str, container_path: Option<&str>, host_path: Option<&str>) -> (r: Vec<
        Node,
    >)
        ensures
            r@.len() == 1,
            r@[0].role@ == role@,
            r@[0].extra_mounts@.len() == 1,
            r@[0].extra_mounts@[0].container_path@ == (match container_path {
                Some(p) => p@,
                None => Seq::<char>::empty(),
            }),
            r@[0].extra_mounts@[0].host_path@ == (match host_path {
                Some(p) => p@,
                None => Seq::<char>::empty(),
            }),
            r@[0].extra_port_mappings@.len() == 0,
            r@[0].kubeadm_config_patches@.len() == 0,
    {
        let container = match container_path {
            Some(p) => String::from_str(p),
            None => String::new(),
        };
        let host = match host_path {
            Some(p) => String::from_str(p),
            None => String::new(),
        };
        let mut mounts: Vec<ExtraMount> = Vec::new();
        mounts.push(ExtraMount { container_path: container, host_path: host });
        let node = Node {
            role: String::from_str(role),
            extra_mounts: mounts,
            extra_port_mappings: Vec::new(),
            kubeadm_config_patches: Vec::new(),
        };
        let mut nodes: Vec<Node> = Vec::new();
        nodes.push(node);
        nodes
    }

    /// The kubeadm patch that labels the node so an ingress controller
    /// schedules onto it.
    pub fn init_config_ingress_ready() -> (r: String)
        ensures
            r@
                == "kind: InitConfiguration\nnodeRegistration:\n  kubeletExtraArgs:\n    node-labels: \"ingress-ready=true\""@,
    {
        String::from_str(
            "kind: InitConfiguration\nnodeRegistration:\n  kubeletExtraArgs:\n    node-labels: \"ingress-ready=true\"",
        )
    }

    /// The containerd patch that mirrors `localhost:5000` to a registry
    /// at the given address, trimmed of surrounding whitespace.
    pub fn get_containerd_config_patch_to_local_registry(ip: &str) -> (r: String)
        ensures
            r@
                == "\n[plugins.\"io.containerd.grpc.v1.cri\".registry.mirrors.\"localhost:5000\"]\n  endpoint = [\"http://"@
                + text::trim_spec(ip@) + ":5000\"]"@,
    {
        let mut out = String::from_str(
            "\n[plugins.\"io.containerd.grpc.v1.cri\".registry.mirrors.\"localhost:5000\"]\n  endpoint = [\"http://",
        );
        let trimmed = text::trim(ip);
        out.append(trimmed.as_str());
        out.append(":5000\"]");
        out
    }

    /// The strings the port-mapping option accepts: two digits, `:`, two
    /// digits, `:`, then `TCP` or `HTTP`.
    pub open spec fn epm_matches(s: Seq<char>) -> bool {
        s.len() >= 7 && text::is_digit(s[0]) && text::is_digit(s[1]) && s[2] == ':'
            && text::is_digit(s[3]) && text::is_digit(s[4]) && s[5] == ':' && (s.subrange(
            6,
            s.len() as int,
        ) == "TCP"@ || s.subrange(6, s.len() as int) == "HTTP"@)
    }

    /// Parses a port-mapping option such as `80:80:TCP`: container port,
    /// host port and protocol, or `None` for anything of another shape.
    pub fn parse_extra_port_mappings(epm: &str) -> (r: Option<PortMapping>)
        ensures
            r is Some <==> Kind::epm_matches(epm@),
            r matches Some(pm) ==> pm.container_port == text::digit_val(epm@[0]) * 10
                + text::digit_val(epm@[1]) && pm.host_port == text::digit_val(epm@[3]) * 10
                + text::digit_val(epm@[4]) && pm.protocol@ == epm@.subrange(6, epm@.len() as int),
    {
        let n = epm.unicode_len();
        if n < 7 {
            return None;
        }
        let c0 = epm.get_char(0);
        let c1 = epm.get_char(1);
        let c3 = epm.get_char(3);
        let c4 = epm.get_char(4);
        if !(c0 >= '0' && c0 <= '9' && c1 >= '0' && c1 <= '9' && epm.get_char(2) == ':' && c3 >= '0'
            && c3 <= '9' && c4 >= '0' && c4 <= '9' && epm.get_char(5) == ':') {
            return None;
        }
        let proto = epm.substring_char(6, n);
        if !(text::str_eq(proto, "TCP") || text::str_eq(proto, "HTTP")) {
            return None;
        }
        let container_port: u32 = (c0 as u32 - 48) * 10 + (c1 as u32 - 48);
        let host_port: u32 = (c3 as u32 - 48) * 10 + (c4 as u32 - 48);
        Some(
            PortMapping {
                container_port,
                host_port,
                protocol: String::from_str(proto),
            },
        )
    }

    /// The cluster configuration document before any port mapping is
    /// patched in: a control-plane node mounting the written docker
    /// credential file when there is one, and a containerd mirror patch
    /// when a local registry was recorded.
    pub fn get_kind_cluster_config(&self, docker_config_path: Option<&str>) -> (r: ClusterConfig)
        ensures
            r.kind@ == "Cluster"@,
            r.api_version@ == "kind.x-k8s.io/v1alpha4"@,
            (match docker_config_path {
                Some(p) => r.nodes@.len() == 1 && r.nodes@[0].role@ == "control-plane"@
                    && r.nodes@[0].extra_mounts@.len() == 1
                    && r.nodes@[0].extra_mounts@[0].container_path@
                    == "/var/lib/kubelet/config.json"@ && r.nodes@[0].extra_mounts@[0].host_path@
                    == p@ && r.nodes@[0].extra_port_mappings@.len() == 0
                    && r.nodes@[0].kubeadm_config_patches@.len() == 0,
                None => r.nodes@.len() == 0,
            }),
            (match self.local_registry {
                Some(reg) => r.containerd_config_patches@.len() == 1
                    && r.containerd_config_patches@[0]@
                    == "\n[plugins.\"io.containerd.grpc.v1.cri\".registry.mirrors.\"localhost:5000\"]\n  endpoint = [\"http://"@
                    + text::trim_spec(reg@) + ":5000\"]"@,
                None => r.containerd_config_patches@.len() == 0,
            }),
    {
        let nodes = match docker_config_path {
            Some(p) => Kind::kind_node("control-plane", Some("/var/lib/kubelet/config.json"), Some(p)),
            None => Vec::new(),
        };
        let mut patches: Vec<String> = Vec::new();
        match &self.local_registry {
            Some(reg) => {
                patches.push(Kind::get_containerd_config_patch_to_local_registry(reg.as_str()));
            },
            None => {},
        }
        ClusterConfig {
            kind: String::from_str("Cluster"),
            api_version: String::from_str("kind.x-k8s.io/v1alpha4"),
            nodes,
            containerd_config_patches: patches,
        }
    }

    /// The kubelet credential file for a private registry, as the JSON
    /// document `{"auths":{<registry>:{"auth":<base64 of user:secret>}}}`.
    pub fn get_docker_login(registry: &str, username: &str, secret: &str) -> (r: String)
        ensures
            r@ == "{\"auths\":{"@ + encoding::json_quoted(registry@) + ":{\"auth\":"@
                + encoding::json_quoted(encoding::base64_of(username@ + ":"@ + secret@)) + "}}}"@,
    {
        let mut user_secret = String::from_str(username);
        user_secret.append(":");
        user_secret.append(secret);
        let encoded = encoding::base64_encode(user_secret.as_str());
        let quoted_registry = encoding::json_quote(registry);
        let quoted_auth = encoding::json_quote(encoded.as_str());
        let mut out = String::from_str("{\"auths\":{");
        out.append(quoted_registry.as_str());
        out.append(":{\"auth\":");
        out.append(quoted_auth.as_str());
        out.append("}}}");
        out
    }
}

/// Everything `create` computes before touching the system: the `kind`
/// command line, the configuration document to write, where to write it,
/// and the line saved for `recreate`.
#[derive(Debug)]
pub struct CreatePlan {
    pub args: Vec<String>,
    pub config: ClusterConfig,
    pub config_path: String,
    pub kubeconfig_path: String,
    pub args_path: String,
    pub args_line: String,
}

impl Kind {
    /// Lays out the creation of this cluster.  `docker_config_path` is
    /// the credential file already written for a private registry, when
    /// there is one; it becomes a kubelet mount.  A recorded port
    /// mapping that parses is patched onto the (possibly fresh)
    /// control-plane node.
    pub fn create_plan(&self, docker_config_path: Option<&str>) -> (r: CreatePlan)
        ensures
            r.config_path@ == self.config_dir@ + "/kind_config"@,
            r.kubeconfig_path@ == self.config_dir@ + "/kubeconfig"@,
            r.args_path@ == self.config_dir@ + "/kind_args"@,
            r.args.deep_view() =~= seq![
                "create"@,
                "cluster"@,
                "--name"@,
                self.name@,
                "--kubeconfig"@,
                self.config_dir@ + "/kubeconfig"@,
                "--config"@,
                self.config_dir@ + "/kind_config"@,
            ],
            r.args_line@ == text::join_spec(r.args.deep_view(), " "@),
            r.config.kind@ == "Cluster"@,
            r.config.api_version@ == "kind.x-k8s.io/v1alpha4"@,
            (match self.local_registry {
                Some(reg) => r.config.containerd_config_patches@.len() == 1
                    && r.config.containerd_config_patches@[0]@
                    == "\n[plugins.\"io.containerd.grpc.v1.cri\".registry.mirrors.\"localhost:5000\"]\n  endpoint = [\"http://"@
                    + text::trim_spec(reg@) + ":5000\"]"@,
                None => r.config.containerd_config_patches@.len() == 0,
            }),
            (match docker_config_path {
                Some(p) => r.config.nodes@.len() == 1 && r.config.nodes@[0].role@
                    == "control-plane"@ && r.config.nodes@[0].extra_mounts@.len() == 1
                    && r.config.nodes@[0].extra_mounts@[0].container_path@
                    == "/var/lib/kubelet/config.json"@
                    && r.config.nodes@[0].extra_mounts@[0].host_path@ == p@
                    && r.config.nodes@[0].kubeadm_config_patches@.len() == 0,
                None => (if self.wants_port_mapping() {
                    r.config.nodes@.len() == 1 && r.config.nodes@[0].role@ == "control-plane"@
                        && r.config.nodes@[0].extra_mounts@.len() == 1
                        && r.config.nodes@[0].extra_mounts@[0].container_path@
                        =~= Seq::<char>::empty() && r.config.nodes@[0].extra_mounts@[0].host_path@
                        =~= Seq::<char>::empty() && r.config.nodes@[0].kubeadm_config_patches@.len()
                        == 0
                } else {
                    r.config.nodes@.len() == 0
                }),
            }),
            r.config.nodes@.len() == 1 ==> (if self.wants_port_mapping() {
                r.config.nodes@[0].extra_port_mappings@.len() == 1 && ({
                    let e = self.extra_port_mapping->0@;
                    let pm = r.config.nodes@[0].extra_port_mappings@[0];
                    pm.container_port == text::digit_val(e[0]) * 10 + text::digit_val(e[1])
                        && pm.host_port == text::digit_val(e[3]) * 10 + text::digit_val(e[4])
                        && pm.protocol@ == e.subrange(6, e.len() as int)
                })
            } else {
                r.config.nodes@[0].extra_port_mappings@.len() == 0
            }),
    {
        let pm: Option<PortMapping> = match &self.extra_port_mapping {
            Some(e) => Kind::parse_extra_port_mappings(e.as_str()),
            None => None,
        };
        let mut config = self.get_kind_cluster_config(docker_config_path);
        match pm {
            Some(mapping) => {
                let mut node = if config.nodes.len() == 0 {
                    let mut fresh = Kind::kind_node("control-plane", None, None);
                    fresh.remove(0)
                } else {
                    config.nodes.remove(0)
                };
                let mut mappings: Vec<PortMapping> = Vec::new();
                mappings.push(mapping);
                node.extra_port_mappings = mappings;
                let mut nodes: Vec<Node> = Vec::new();
                nodes.push(node);
                config.nodes = nodes;
            },
            None => {},
        }
        let mut kubeconfig = String::from_str(self.config_dir.as_str());
        kubeconfig.append("/kubeconfig");
        let mut config_path = String::from_str(self.config_dir.as_str());
        config_path.append("/kind_config");
        let mut args_path = String::from_str(self.config_dir.as_str());
        args_path.append("/kind_args");
        let mut args: Vec<String> = Vec::new();
        args.push(String::from_str("create"));
        args.push(String::from_str("cluster"));
        args.push(String::from_str("--name"));
        args.push(String::from_str(self.name.as_str()));
        args.push(String::from_str("--kubeconfig"));
        args.push(String::from_str(kubeconfig.as_str()));
        args.push(String::from_str("--config"));
        args.push(String::from_str(config_path.as_str()));
        let args_line = text::join_with(&args, " ");
        proof {
            assert(args.deep_view() =~~= seq![
                "create"@,
                "cluster"@,
                "--name"@,
                self.name@,
                "--kubeconfig"@,
                self.config_dir@ + "/kubeconfig"@,
                "--config"@,
                self.config_dir@ + "/kind_config"@,
            ]);
        }
        CreatePlan {
            args,
            config,
            config_path,
            kubeconfig_path: kubeconfig,
            args_path,
            args_line,
        }
    }

    /// The argument line that `create` saves reads back as the same
    /// argument list: splitting it on whitespace, as `recreate` does,
    /// yields exactly the arguments that created the cluster — provided
    /// the cluster's name is non-empty and neither it nor the
    /// configuration directory carries ASCII whitespace.
    pub proof fn lemma_saved_args_survive_recreate(
        args: Seq<Seq<char>>,
        name: Seq<char>,
        config_dir: Seq<char>,
    )
        requires
            args =~~= seq![
                "create"@,
                "cluster"@,
                "--name"@,
                name,
                "--kubeconfig"@,
                config_dir + "/kubeconfig"@,
                "--config"@,
                config_dir + "/kind_config"@,
            ],
            name.len() > 0,
            text::no_spaces(name),
            text::no_spaces(config_dir),
        ensures
            text::split_spaces_spec(text::join_spec(args, " "@)) == args,
    {
        reveal_strlit("create");
        reveal_strlit("cluster");
        reveal_strlit("--name");
        reveal_strlit("--kubeconfig");
        reveal_strlit("--config");
        reveal_strlit("/kubeconfig");
        reveal_strlit("/kind_config");
        assert(text::no_spaces("create"@)) by {
            assert forall|k: int| 0 <= k < "create"@.len() implies !text::is_ascii_space(
                "create"@[k],
            ) by {
                assert("create"@.len() == 6);
            }
        }
        assert(text::no_spaces("cluster"@)) by {
            assert forall|k: int| 0 <= k < "cluster"@.len() implies !text::is_ascii_space(
                "cluster"@[k],
            ) by {
                assert("cluster"@.len() == 7);
            }
        }
        assert(text::no_spaces("--name"@)) by {
            assert forall|k: int| 0 <= k < "--name"@.len() implies !text::is_ascii_space(
                "--name"@[k],
            ) by {
                assert("--name"@.len() == 6);
            }
        }
        assert(text::no_spaces("--kubeconfig"@)) by {
            assert forall|k: int| 0 <= k < "--kubeconfig"@.len() implies !text::is_ascii_space(
                "--kubeconfig"@[k],
            ) by {
                assert("--kubeconfig"@.len() == 12);
            }
        }
        assert(text::no_spaces("--config"@)) by {
            assert forall|k: int| 0 <= k < "--config"@.len() implies !text::is_ascii_space(
                "--config"@[k],
            ) by {
                assert("--config"@.len() == 8);
            }
        }
        assert(text::no_spaces("/kubeconfig"@)) by {
            assert forall|k: int| 0 <= k < "/kubeconfig"@.len() implies !text::is_ascii_space(
                "/kubeconfig"@[k],
            ) by {
                assert("/kubeconfig"@.len() == 11);
            }
        }
        assert(text::no_spaces("/kind_config"@)) by {
            assert forall|k: int| 0 <= k < "/kind_config"@.len() implies !text::is_ascii_space(
                "/kind_config"@[k],
            ) by {
                assert("/kind_config"@.len() == 12);
            }
        }
        text::lemma_no_spaces_concat(config_dir, "/kubeconfig"@);
        text::lemma_no_spaces_concat(config_dir, "/kind_config"@);
        assert forall|i: int| 0 <= i < args.len() implies (#[trigger] args[i]).len() > 0
            && text::no_spaces(args[i]) by {
            if i == 3 {
                assert(args[i] == name);
            }
            if i == 5 {
                assert(args[i] == config_dir + "/kubeconfig"@);
                assert(args[i].len() > 0);
            }
            if i == 7 {
                assert(args[i] == config_dir + "/kind_config"@);
                assert(args[i].len() > 0);
            }
        }
        text::lemma_join_split_spaces(args);
    }

    /// Whether a port mapping was recorded and has the accepted shape.
    pub open spec fn wants_port_mapping(&self) -> bool {
        match self.extra_port_mapping {
            Some(e) => Kind::epm_matches(e@),
            None => false,
        }
    }

    /// The command line that deletes the kind cluster `name`.
    pub fn delete_cluster_args(name: &str) -> (r: Vec<String>)
        ensures
            r.deep_view() =~= seq!["delete"@, "cluster"@, "--name"@, name@],
    {
        let mut args: Vec<String> = Vec::new();
        args.push(String::from_str("delete"));
        args.push(String::from_str("cluster"));
        args.push(String::from_str("--name"));
        args.push(String::from_str(name));
        proof {
            assert(args.deep_view() =~~= seq!["delete"@, "cluster"@, "--name"@, name@]);
        }
        args
    }
}

/// What the library needs to know of a running Docker container: its
/// image and its first name.
#[derive(Debug)]
pub struct ContainerInfo {
    pub image: String,
    pub name: String,
}

/// The cluster names among a list of containers: those running a
/// `kindest/node` image whose name carries the `-control-plane` suffix,
/// reduced to cluster names, in order.
pub open spec fn cluster_names_spec(cs: Seq<ContainerInfo>) -> Seq<Seq<char>>
    decreases cs.len(),
{
    if cs.len() == 0 {
        Seq::empty()
    } else {
        let rest = cluster_names_spec(cs.drop_first());
        let c = cs[0];
        if text::starts_with_spec(c.image@, "kindest/node"@) && text::ends_with_spec(
            c.name@,
            "-control-plane"@,
        ) {
            seq![
                text::remove_all_spec(text::remove_all_spec(c.name@, "-control-plane"@), "/"@),
            ] + rest
        } else {
            rest
        }
    }
}

/// Maps running containers to the kind clusters they carry, as
/// `cluster_names_spec` says.
pub fn kind_cluster_names(containers: &Vec<ContainerInfo>) -> (r: Vec<String>)
    ensures
        r.deep_view() == cluster_names_spec(containers@),
{
    let n = containers.len();
    let mut r: Vec<String> = Vec::new();
    let mut i: usize = 0;
    proof {
        assert(containers@.skip(0) =~= containers@);
        assert(r.deep_view() =~~= Seq::<Seq<char>>::empty());
        assert(r.deep_view() + cluster_names_spec(containers@) =~~= cluster_names_spec(
            containers@,
        ));
    }
    while i < n
        invariant
            0 <= i <= n,
            n == containers@.len(),
            cluster_names_spec(containers@) == r.deep_view() + cluster_names_spec(
                containers@.skip(i as int),
            ),
        decreases n - i,
    {
        let ghost rem = containers@.skip(i as int);
        proof {
            assert(rem[0] == containers@[i as int]);
            assert(rem.drop_first() =~= containers@.skip(i + 1));
        }
        let is_kind = text::str_starts_with(containers[i].image.as_str(), "kindest/node");
        if is_kind {
            match Kind::get_cluster_name(containers[i].name.as_str()) {
                Some(name) => {
                    let ghost old_r = r.deep_view();
                    r.push(name);
                    proof {
                        assert(r.deep_view() =~~= old_r.push(
                            text::remove_all_spec(
                                text::remove_all_spec(containers@[i as int].name@, "-control-plane"@),
                                "/"@,
                            ),
                        ));
                        assert(r.deep_view() + cluster_names_spec(containers@.skip(i + 1))
                            =~~= old_r + cluster_names_spec(rem));
                    }
                },
                None => {},
            }
        }
        i = i + 1;
    }
    proof {
        assert(containers@.skip(n as int) =~= Seq::<ContainerInfo>::empty());
        assert(r.deep_view() + Seq::<Seq<char>>::empty() =~~= r.deep_view());
    }
    r
}

} // verus!
