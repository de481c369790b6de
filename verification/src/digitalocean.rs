//! DigitalOcean Kubernetes: the request payloads sent to the API, the
//! metadata string that configures them, and the reconciliation that
//! finds a deleted cluster's leftover load balancers.

use crate::text;
use vstd::prelude::*;
use vstd::string::*;

verus! {

/// The shape of a DigitalOcean cluster, read from the `--metadata`
/// option.
#[derive(Debug)]
pub struct Metadata {
    pub region: String,
    pub version: String,
    pub nodepool_size: String,
    pub nodepool_count: u16,
}

/// The mathematical image of a `Metadata` value.
pub ghost struct MetadataView {
    pub region: Seq<char>,
    pub version: Seq<char>,
    pub nodepool_size: Seq<char>,
    pub nodepool_count: u16,
}

impl View for Metadata {
    type V = MetadataView;

    open spec fn view(&self) -> MetadataView {
        MetadataView {
            region: self.region@,
            version: self.version@,
            nodepool_size: self.nodepool_size@,
            nodepool_count: self.nodepool_count,
        }
    }
}

/// The metadata used when the option says nothing.
pub open spec fn default_meta() -> MetadataView {
    MetadataView {
        region: "lon1"@,
        version: "1.17.6-do.0"@,
        nodepool_size: "s-6vcpu-16gb"@,
        nodepool_count: 2u16,
    }
}

/// One `key=value` field applied to the metadata: the four known keys
/// overwrite their field, anything else changes nothing, and a field
/// without exactly one `=` is skipped.
pub open spec fn apply_field(m: MetadataView, f: Seq<char>) -> MetadataView {
    let parts = text::split_spec(f, '=');
    if parts.len() != 2 {
        m
    } else {
        let k = parts[0];
        let v = parts[1];
        if k == "region"@ {
            MetadataView { region: v, ..m }
        } else if k == "version"@ {
            MetadataView { version: v, ..m }
        } else if k == "nodepool.size"@ {
            MetadataView { nodepool_size: v, ..m }
        } else if k == "nodepool.count"@ {
            MetadataView { nodepool_count: text::dec_string_val(v) as u16, ..m }
        } else {
            m
        }
    }
}

/// The fields applied in order.
pub open spec fn fold_fields(m: MetadataView, fields: Seq<Seq<char>>) -> MetadataView
    decreases fields.len(),
{
    if fields.len() == 0 {
        m
    } else {
        fold_fields(apply_field(m, fields[0]), fields.drop_first())
    }
}

/// What a metadata string means: its `&`-separated fields applied to the
/// defaults, in order.
pub open spec fn metadata_spec(data: Seq<char>) -> MetadataView {
    fold_fields(default_meta(), text::split_spec(data, '&'))
}

/// A `nodepool.count` field must carry a number that fits a `u16`;
/// nothing else can stand there.
pub open spec fn valid_count_field(f: Seq<char>) -> bool {
    let parts = text::split_spec(f, '=');
    (parts.len() == 2 && parts[0] == "nodepool.count"@) ==> text::is_dec_string(
        parts[1],
        u16::MAX as nat,
    )
}

/// Every field of the metadata string is acceptable.
pub open spec fn valid_metadata(data: Seq<char>) -> bool {
    forall|i: int| 0 <= i < text::split_spec(data, '&').len() ==> valid_count_field(
        #[trigger] text::split_spec(data, '&')[i],
    )
}

impl Default for Metadata {
    /// The defaults that an empty metadata string leaves in place.
    fn default() -> (r: Metadata)
        ensures
            r@ == default_meta(),
    {
        Metadata {
            region: String::from_str("lon1"),
            version: String::from_str("1.17.6-do.0"),
            nodepool_size: String::from_str("s-6vcpu-16gb"),
            nodepool_count: 2,
        }
    }
}

impl Metadata {
    /// Whether `from_string` accepts `data`.
    pub fn accepts(data: &str) -> (r: bool)
        ensures
            r == valid_metadata(data@),
    {
        let fields = text::split_char(data, '&');
        let ghost dv = fields.deep_view();
        let mut i: usize = 0;
        while i < fields.len()
            invariant
                0 <= i <= fields@.len(),
                dv == fields.deep_view(),
                dv == text::split_spec(data@, '&'),
                dv.len() == fields@.len(),
                forall|k: int| 0 <= k < i ==> valid_count_field(dv[k]),
            decreases fields@.len() - i,
        {
            if !Metadata::count_field_ok(fields[i].as_str()) {
                proof {
                    assert(dv[i as int] == fields@[i as int]@);
                }
                return false;
            }
            i = i + 1;
        }
        true
    }

    /// Whether one field is acceptable: either it is not a
    /// `nodepool.count` field, or its value parses as a `u16`.
    fn count_field_ok(field: &str) -> (r: bool)
        ensures
            r == valid_count_field(field@),
    {
        let parts = text::split_char(field, '=');
        let ghost pv = parts.deep_view();
        if parts.len() != 2 {
            return true;
        }
        proof {
            assert(pv[0] == parts@[0]@);
            assert(pv[1] == parts@[1]@);
        }
        if !text::str_eq(parts[0].as_str(), "nodepool.count") {
            return true;
        }
        match text::parse_u16(parts[1].as_str()) {
            Some(_) => true,
            None => false,
        }
    }

    /// Reads a metadata string such as
    /// `region=fra1&nodepool.count=3`: fields separated by `&`, each a
    /// `key=value` pair, unknown keys and malformed fields skipped.
    pub fn from_string(data: &str) -> (r: Metadata)
        requires
            valid_metadata(data@),
        ensures
            r@ == metadata_spec(data@),
    {
        let mut m = Metadata::default();
        let fields = text::split_char(data, '&');
        let ghost dv = fields.deep_view();
        let mut i: usize = 0;
        proof {
            assert(dv.skip(0) =~~= dv);
        }
        while i < fields.len()
            invariant
                0 <= i <= fields@.len(),
                dv == fields.deep_view(),
                dv == text::split_spec(data@, '&'),
                dv.len() == fields@.len(),
                valid_metadata(data@),
                fold_fields(m@, dv.skip(i as int)) == metadata_spec(data@),
            decreases fields@.len() - i,
        {
            let ghost m0 = m@;
            proof {
                assert(dv.skip(i as int)[0] == dv[i as int]);
                assert(dv.skip(i as int).drop_first() =~~= dv.skip(i + 1));
                assert(fold_fields(m0, dv.skip(i as int)) == fold_fields(
                    apply_field(m0, dv[i as int]),
                    dv.skip(i + 1),
                ));
                assert(dv[i as int] == fields@[i as int]@);
            }
            let parts = text::split_char(fields[i].as_str(), '=');
            let ghost pv = parts.deep_view();
            if parts.len() == 2 {
                proof {
                    assert(pv[0] == parts@[0]@);
                    assert(pv[1] == parts@[1]@);
                }
                let value = parts[1].as_str();
                if text::str_eq(parts[0].as_str(), "region") {
                    m.region = String::from_str(value);
                } else if text::str_eq(parts[0].as_str(), "version") {
                    m.version = String::from_str(value);
                } else if text::str_eq(parts[0].as_str(), "nodepool.size") {
                    m.nodepool_size = String::from_str(value);
                } else if text::str_eq(parts[0].as_str(), "nodepool.count") {
                    proof {
                        assert(valid_count_field(dv[i as int]));
                    }
                    match text::parse_u16(value) {
                        Some(c) => {
                            m.nodepool_count = c;
                        },
                        None => {
                            proof {
                                assert(false);
                            }
                        },
                    }
                }
            }
            proof {
                assert(m@ == apply_field(m0, dv[i as int]));
            }
            i = i + 1;
        }
        proof {
            assert(dv.skip(dv.len() as int) =~~= Seq::<Seq<char>>::empty());
        }
        m
    }
}

/// The state of one node, as the API reports it.
#[derive(Debug)]
pub struct NodeStatus {
    pub state: String,
}

/// One worker node of a DigitalOcean cluster.
#[derive(Debug)]
pub struct Node {
    pub id: String,
    pub name: String,
    pub status: NodeStatus,
    pub droplet_id: Option<String>,
    pub created_at: String,
    pub updated_at: String,
}

/// A named group of identically sized worker nodes.
#[derive(Debug)]
pub struct NodePool {
    pub id: Option<String>,
    pub name: String,
    pub size: String,
    pub count: u16,
    pub tags: Option<Vec<String>>,
    pub nodes: Vec<Node>,
}

/// A DigitalOcean Kubernetes cluster, both as sent on creation and as
/// read back from the API.
#[derive(Debug)]
pub struct KubernetesCluster {
    pub id: Option<String>,
    pub name: String,
    pub region: String,
    pub version: String,
    pub cluster_subnet: Option<String>,
    pub service_subnet: Option<String>,
    pub vpc_uuid: Option<String>,
    pub ipv4: Option<String>,
    pub endpoint: Option<String>,
    pub tags: Option<Vec<String>>,
    pub node_pools: Vec<NodePool>,
}

/// A DigitalOcean load balancer, as the API lists it.
#[derive(Debug)]
pub struct LoadBalancer {
    pub id: Option<String>,
    pub name: String,
    pub ip: Option<String>,
    pub algorithm: String,
    pub status: Option<String>,
    pub tag: Option<String>,
    pub droplet_ids: Vec<u32>,
}

/// The payload that creates a cluster called `name`: one node pool named
/// after the cluster, shaped by the metadata string, everything else
/// left for the API to fill in.
pub fn cluster_create_request(name: &str, metadata: Option<String>) -> (r: KubernetesCluster)
    requires
        (match metadata {
            Some(d) => valid_metadata(d@),
            None => true,
        }),
    ensures
        ({
            let spec = metadata_spec(
                match metadata {
                    Some(d) => d@,
                    None => ""@,
                },
            );
            r.id is None && r.name@ == name@ && r.region@ == spec.region && r.version@
                == spec.version && r.cluster_subnet is None && r.service_subnet is None
                && r.vpc_uuid is None && r.ipv4 is None && r.endpoint is None && r.tags is None
                && r.node_pools@.len() == 1 && r.node_pools@[0].id is None
                && r.node_pools@[0].name@ == "nodepool-"@ + name@ && r.node_pools@[0].size@
                == spec.nodepool_size && r.node_pools@[0].count
                == spec.nodepool_count && r.node_pools@[0].tags is None
                && r.node_pools@[0].nodes@.len() == 0
        }),
{
    let provider_metadata: &str = match &metadata {
        Some(d) => d.as_str(),
        None => "",
    };
    proof {
        if metadata is None {
            lemma_empty_metadata_is_valid();
        }
    }
    let cluster_spec = Metadata::from_string(provider_metadata);
    let mut pool_name = String::from_str("nodepool-");
    pool_name.append(name);
    let pool = NodePool {
        id: None,
        name: pool_name,
        size: cluster_spec.nodepool_size,
        count: cluster_spec.nodepool_count,
        tags: None,
        nodes: Vec::new(),
    };
    let mut pools: Vec<NodePool> = Vec::new();
    pools.push(pool);
    KubernetesCluster {
        id: None,
        name: String::from_str(name),
        region: cluster_spec.region,
        version: cluster_spec.version,
        cluster_subnet: None,
        service_subnet: None,
        vpc_uuid: None,
        ipv4: None,
        endpoint: None,
        tags: None,
        node_pools: pools,
    }
}

/// An empty metadata string has no field to object to.
proof fn lemma_empty_metadata_is_valid()
    ensures
        valid_metadata(""@),
{
    reveal_strlit("");
    let fields = text::split_spec(""@, '&');
    assert(""@.len() == 0);
    assert(text::first_index(""@, '&') == 0);
    assert(fields =~~= seq![""@]);
    assert forall|i: int| 0 <= i < fields.len() implies valid_count_field(fields[i]) by {
        assert(fields[i] == ""@);
        assert(text::first_index(""@, '=') == 0);
        assert(text::split_spec(""@, '=') =~~= seq![""@]);
        assert(text::split_spec(""@, '=').len() == 1);
    }
}

/// The droplet ids named by a run of nodes, as strings, in order.
pub open spec fn droplet_id_strings_of_nodes(nodes: Seq<Node>) -> Seq<Seq<char>>
    decreases nodes.len(),
{
    if nodes.len() == 0 {
        Seq::empty()
    } else {
        let rest = droplet_id_strings_of_nodes(nodes.drop_first());
        match nodes[0].droplet_id {
            Some(s) => seq![s@] + rest,
            None => rest,
        }
    }
}

/// The droplet ids named by a cluster's node pools, as strings, in
/// order.
pub open spec fn droplet_id_strings(pools: Seq<NodePool>) -> Seq<Seq<char>>
    decreases pools.len(),
{
    if pools.len() == 0 {
        Seq::empty()
    } else {
        droplet_id_strings_of_nodes(pools[0].nodes@) + droplet_id_strings(pools.drop_first())
    }
}

/// Every id string parses as a `u32`.
pub open spec fn all_ids_parse(ids: Seq<Seq<char>>) -> bool {
    forall|i: int| 0 <= i < ids.len() ==> text::is_dec_string(#[trigger] ids[i], u32::MAX as nat)
}

/// The id strings as numbers.
pub open spec fn parsed_ids(ids: Seq<Seq<char>>) -> Seq<u32> {
    Seq::new(ids.len(), |i: int| text::dec_string_val(ids[i]) as u32)
}

/// The droplet ids of every node of every pool of `c`, in order; `None`
/// when some id does not parse as a `u32`, since cleanup cannot reconcile
/// load balancers without the numbers.
pub fn droplet_ids_of_cluster(c: &KubernetesCluster) -> (r: Option<Vec<u32>>)
    ensures
        r is Some <==> all_ids_parse(droplet_id_strings(c.node_pools@)),
        r matches Some(v) ==> v@ == parsed_ids(droplet_id_strings(c.node_pools@)),
{
    let ghost all = droplet_id_strings(c.node_pools@);
    let ghost mut done: Seq<Seq<char>> = Seq::empty();
    let mut out: Vec<u32> = Vec::new();
    let mut p: usize = 0;
    proof {
        assert(c.node_pools@.skip(0) =~= c.node_pools@);
        assert(done + droplet_id_strings(c.node_pools@) =~~= all);
        assert(out@ =~= parsed_ids(done));
    }
    while p < c.node_pools.len()
        invariant
            0 <= p <= c.node_pools@.len(),
            all == droplet_id_strings(c.node_pools@),
            all == done + droplet_id_strings(c.node_pools@.skip(p as int)),
            out@ == parsed_ids(done),
            all_ids_parse(done),
        decreases c.node_pools@.len() - p,
    {
        let ghost pools_rem = c.node_pools@.skip(p as int);
        proof {
            assert(pools_rem[0] == c.node_pools@[p as int]);
            assert(pools_rem.drop_first() =~= c.node_pools@.skip(p + 1));
        }
        let nodes = &c.node_pools[p].nodes;
        let mut j: usize = 0;
        proof {
            assert(nodes@.skip(0) =~= nodes@);
            assert(done + (droplet_id_strings_of_nodes(nodes@) + droplet_id_strings(
                c.node_pools@.skip(p + 1),
            )) =~~= done + droplet_id_strings_of_nodes(nodes@) + droplet_id_strings(
                c.node_pools@.skip(p + 1),
            ));
        }
        while j < nodes.len()
            invariant
                0 <= j <= nodes@.len(),
                nodes@ == c.node_pools@[p as int].nodes@,
                0 <= p < c.node_pools@.len(),
                all == droplet_id_strings(c.node_pools@),
                all == done + droplet_id_strings_of_nodes(nodes@.skip(j as int))
                    + droplet_id_strings(c.node_pools@.skip(p + 1)),
                out@ == parsed_ids(done),
                all_ids_parse(done),
            decreases nodes@.len() - j,
        {
            let ghost nodes_rem = nodes@.skip(j as int);
            proof {
                assert(nodes_rem[0] == nodes@[j as int]);
                assert(nodes_rem.drop_first() =~= nodes@.skip(j + 1));
            }
            match &nodes[j].droplet_id {
                Some(id) => {
                    proof {
                        assert(droplet_id_strings_of_nodes(nodes_rem) == seq![id@]
                            + droplet_id_strings_of_nodes(nodes@.skip(j + 1)));
                        assert(all[done.len() as int] == id@);
                    }
                    match text::parse_u32(id.as_str()) {
                        Some(v) => {
                            out.push(v);
                            proof {
                                done = done.push(id@);
                                assert(out@ =~= parsed_ids(done));
                                assert(all == done + droplet_id_strings_of_nodes(
                                    nodes@.skip(j + 1),
                                ) + droplet_id_strings(c.node_pools@.skip(p + 1))) by {
                                    assert(done + droplet_id_strings_of_nodes(nodes@.skip(j + 1))
                                        + droplet_id_strings(c.node_pools@.skip(p + 1))
                                        =~~= done.drop_last() + (seq![id@]
                                        + droplet_id_strings_of_nodes(nodes@.skip(j + 1)))
                                        + droplet_id_strings(c.node_pools@.skip(p + 1)));
                                }
                            }
                        },
                        None => {
                            proof {
                                assert(!text::is_dec_string(all[done.len() as int], u32::MAX as nat));
                                assert(!all_ids_parse(all));
                            }
                            return None;
                        },
                    }
                },
                None => {
                    proof {
                        assert(droplet_id_strings_of_nodes(nodes_rem)
                            == droplet_id_strings_of_nodes(nodes@.skip(j + 1)));
                    }
                },
            }
            j = j + 1;
        }
        proof {
            assert(nodes@.skip(nodes@.len() as int) =~= Seq::<Node>::empty());
            assert(droplet_id_strings_of_nodes(Seq::<Node>::empty()) =~~= Seq::<Seq<char>>::empty());
            assert(done + Seq::<Seq<char>>::empty() + droplet_id_strings(c.node_pools@.skip(p + 1))
                =~~= done + droplet_id_strings(c.node_pools@.skip(p + 1)));
        }
        p = p + 1;
    }
    proof {
        assert(c.node_pools@.skip(c.node_pools@.len() as int) =~= Seq::<NodePool>::empty());
        assert(done + Seq::<Seq<char>>::empty() =~~= done);
        assert(done == all);
    }
    Some(out)
}

/// Whether `v` holds `x`.
fn vec_contains_u32(v: &Vec<u32>, x: u32) -> (r: bool)
    ensures
        r == v@.contains(x),
{
    let mut i: usize = 0;
    while i < v.len()
        invariant
            0 <= i <= v@.len(),
            forall|k: int| 0 <= k < i ==> v@[k] != x,
        decreases v@.len() - i,
    {
        if v[i] == x {
            return true;
        }
        i = i + 1;
    }
    false
}

/// Whether two droplet-id lists name the same set of droplets, as
/// comparing them through `HashSet`s does.
pub fn same_id_set(a: &Vec<u32>, b: &Vec<u32>) -> (r: bool)
    ensures
        r == (a@.to_set() == b@.to_set()),
{
    let mut i: usize = 0;
    while i < a.len()
        invariant
            0 <= i <= a@.len(),
            forall|k: int| 0 <= k < i ==> b@.contains(#[trigger] a@[k]),
        decreases a@.len() - i,
    {
        if !vec_contains_u32(b, a[i]) {
            proof {
                assert(a@.to_set().contains(a@[i as int]));
                assert(!b@.to_set().contains(a@[i as int]));
            }
            return false;
        }
        i = i + 1;
    }
    let mut j: usize = 0;
    while j < b.len()
        invariant
            0 <= j <= b@.len(),
            forall|k: int| 0 <= k < a@.len() ==> b@.contains(#[trigger] a@[k]),
            forall|k: int| 0 <= k < j ==> a@.contains(#[trigger] b@[k]),
        decreases b@.len() - j,
    {
        if !vec_contains_u32(a, b[j]) {
            proof {
                assert(b@.to_set().contains(b@[j as int]));
                assert(!a@.to_set().contains(b@[j as int]));
            }
            return false;
        }
        j = j + 1;
    }
    proof {
        assert(a@.to_set() =~= b@.to_set());
    }
    true
}

/// The load balancers whose droplets are exactly the given set: the
/// leftovers of a deleted cluster, in the order the API listed them.
pub fn load_balancers_pointing_at(droplet_ids: &Vec<u32>, lbs: Vec<LoadBalancer>) -> (r: Vec<
    LoadBalancer,
>)
    ensures
        r@ == lbs@.filter(
            |lb: LoadBalancer| lb.droplet_ids@.to_set() == droplet_ids@.to_set(),
        ),
{
    let ghost pred = |lb: LoadBalancer| lb.droplet_ids@.to_set() == droplet_ids@.to_set();
    let ghost orig = lbs@;
    let mut rest = lbs;
    let mut r: Vec<LoadBalancer> = Vec::new();
    let ghost mut done: Seq<LoadBalancer> = Seq::empty();
    proof {
        reveal(Seq::filter);
        assert(done.filter(pred) =~= Seq::<LoadBalancer>::empty());
        assert(r@ =~= done.filter(pred));
        assert(done + rest@ =~= orig);
    }
    while rest.len() > 0
        invariant
            pred == (|lb: LoadBalancer| lb.droplet_ids@.to_set() == droplet_ids@.to_set()),
            orig == done + rest@,
            r@ == done.filter(pred),
        decreases rest@.len(),
    {
        let ghost old_done = done;
        let lb = rest.remove(0);
        let keep = same_id_set(&lb.droplet_ids, droplet_ids);
        proof {
            done = done.push(lb);
            assert(orig =~= done + rest@);
            reveal(Seq::filter);
            assert(done.drop_last() =~= old_done);
            assert(done.last() == lb);
        }
        if keep {
            r.push(lb);
            proof {
                assert(r@ =~= old_done.filter(pred).push(done.last()));
                assert(done.filter(pred) == old_done.filter(pred).push(done.last()));
            }
        } else {
            proof {
                assert(done.filter(pred) == old_done.filter(pred));
            }
        }
    }
    proof {
        assert(rest@.len() == 0);
        assert(done =~= orig);
    }
    r
}

/// The API endpoint of one cluster.
pub fn cluster_url(cluster_id: &str) -> (r: String)
    ensures
        r@ == "https://api.digitalocean.com/v2/kubernetes/clusters/"@ + cluster_id@,
{
    let mut out = String::from_str("https://api.digitalocean.com/v2/kubernetes/clusters/");
    out.append(cluster_id);
    out
}

/// The API endpoint serving one cluster's kubeconfig.
pub fn kubeconfig_url(cluster_id: &str) -> (r: String)
    ensures
        r@ == "https://api.digitalocean.com/v2/kubernetes/clusters/"@ + cluster_id@
            + "/kubeconfig"@,
{
    let mut out = cluster_url(cluster_id);
    out.append("/kubeconfig");
    out
}

/// The API endpoint of one load balancer.
pub fn load_balancer_url(lb_id: &str) -> (r: String)
    ensures
        r@ == "https://api.digitalocean.com/v2/load_balancers/"@ + lb_id@,
{
    let mut out = String::from_str("https://api.digitalocean.com/v2/load_balancers/");
    out.append(lb_id);
    out
}

/// The `Authorization` header value for the API token.
pub fn bearer_auth(api_key: &str) -> (r: String)
    ensures
        r@ == "Bearer "@ + api_key@,
{
    let mut out = String::from_str("Bearer ");
    out.append(api_key);
    out
}

/// Whether the create call succeeded: the API answers `201 Created` for
/// a cluster it accepted, and anything else is an error.
pub fn create_succeeded(status: u16) -> (r: bool)
    ensures
        r == (status == 201),
{
    status == 201
}

/// Whether a delete call succeeded: the API answers `204 No Content`
/// once the resource is gone, and anything else is an error.
pub fn delete_succeeded(status: u16) -> (r: bool)
    ensures
        r == (status == 204),
{
    status == 204
}

} // verus!
