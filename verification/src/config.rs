//! Where the tool keeps its state: a directory per cluster under
//! `~/.hake`, and the decisions read off that layout.

use crate::text;
use vstd::prelude::*;
use vstd::string::*;

verus! {

/// The user's home directory as a string.
///
/// Relies on `dirs::home_dir`, which asks the platform for the home
/// directory; `None` is also returned here when the path is not valid
/// UTF-8.  Nothing is promised of the value: it depends on the
/// environment.
#[verifier::external_body]
pub(crate) fn home_dir() -> Option<String> {
    match dirs::home_dir() {
        Some(p) => match p.to_str() {
            Some(s) => Some(s.to_owned()),
            None => None,
        },
        None => None,
    }
}

/// Joins a directory path and an entry name with a single `/`.
pub fn path_join(dir: &str, entry: &str) -> (r: String)
    ensures
        r@ == dir@ + "/"@ + entry@,
{
    let mut out = String::from_str(dir);
    out.append("/");
    out.append(entry);
    out
}

/// The configuration directory under a given home directory.
pub fn config_dir_under(home: &str) -> (r: String)
    ensures
        r@ == home@ + "/.hake"@,
{
    let mut out = String::from_str(home);
    out.append("/.hake");
    out
}

/// The configuration directory, `~/.hake`; `None` when the user has no
/// home directory.
pub fn get_config_dir() -> (r: Option<String>)
    ensures
        r matches Some(d) ==> is_config_dir(d@),
{
    match home_dir() {
        Some(home) => {
            let d = config_dir_under(home.as_str());
            Some(d)
        },
        None => None,
    }
}

/// A path of the shape `<home>/.hake`.
pub open spec fn is_config_dir(d: Seq<char>) -> bool {
    exists|home: Seq<char>| d == home + "/.hake"@
}

/// The file whose presence marks a DigitalOcean cluster.
pub fn cluster_uuid_path(cluster_dir: &str) -> (r: String)
    ensures
        r@ == cluster_dir@ + "/cluster_uuid"@,
{
    let mut out = String::from_str(cluster_dir);
    out.append("/cluster_uuid");
    out
}

/// The kubeconfig file inside a cluster's directory.
pub fn kubeconfig_path(cluster_dir: &str) -> (r: String)
    ensures
        r@ == cluster_dir@ + "/kubeconfig"@,
{
    let mut out = String::from_str(cluster_dir);
    out.append("/kubeconfig");
    out
}

/// Which provider a cluster's directory belongs to.
pub enum ClusterType {
    Kind,
    DigitalOcean,
}

/// Classifies a cluster from its directory: a directory with a
/// `cluster_uuid` file was made for a DigitalOcean cluster, any other for
/// a kind cluster.
pub fn cluster_type(has_cluster_uuid: bool) -> (r: ClusterType)
    ensures
        (r is DigitalOcean) == has_cluster_uuid,
{
    if has_cluster_uuid {
        ClusterType::DigitalOcean
    } else {
        ClusterType::Kind
    }
}

/// The cluster directories with no running kind container of the same
/// name: the ones that `clean` offers to remove, in their original order.
pub fn clusters_to_clean(clusters: &Vec<String>, kind_clusters: &Vec<String>) -> (r: Vec<String>)
    ensures
        r.deep_view() == clusters.deep_view().filter(
            |c: Seq<char>| !kind_clusters.deep_view().contains(c),
        ),
{
    let ghost pred = |c: Seq<char>| !kind_clusters.deep_view().contains(c);
    let mut r: Vec<String> = Vec::new();
    let mut i: usize = 0;
    proof {
        reveal(Seq::filter);
        assert(clusters.deep_view().take(0) =~~= Seq::<Seq<char>>::empty());
        assert(r.deep_view() =~~= clusters.deep_view().take(0).filter(pred));
    }
    while i < clusters.len()
        invariant
            0 <= i <= clusters@.len(),
            clusters.deep_view().len() == clusters@.len(),
            pred == (|c: Seq<char>| !kind_clusters.deep_view().contains(c)),
            r.deep_view() == clusters.deep_view().take(i as int).filter(pred),
        decreases clusters@.len() - i,
    {
        let ghost dv = clusters.deep_view();
        let ghost old_r = r.deep_view();
        let keep = !text::contains_string(kind_clusters, clusters[i].as_str());
        proof {
            assert(dv[i as int] == clusters@[i as int]@);
            reveal(Seq::filter);
            assert(dv.take(i + 1).drop_last() =~~= dv.take(i as int));
            assert(dv.take(i + 1).last() == dv[i as int]);
        }
        if keep {
            r.push(clusters[i].clone());
            proof {
                assert(r.deep_view() =~~= old_r.push(dv[i as int]));
                assert(dv.take(i + 1).filter(pred) == dv.take(i as int).filter(pred).push(
                    dv[i as int],
                ));
            }
        } else {
            proof {
                assert(dv.take(i + 1).filter(pred) == dv.take(i as int).filter(pred));
            }
        }
        i = i + 1;
    }
    proof {
        assert(clusters.deep_view().take(clusters.deep_view().len() as int)
            =~~= clusters.deep_view());
    }
    r
}

} // verus!
