//! Capabilities added to a running cluster: each one is a `kubectl
//! apply` of a published manifest, and this module builds the argument
//! lists.

use crate::text;
use vstd::prelude::*;
use vstd::string::*;

verus! {

/// The words of a `kubectl` command line, split on single spaces as
/// `run_kubectl` hands them to the process.
pub fn kubectl_args(command: &str) -> (r: Vec<String>)
    ensures
        r.deep_view() == text::split_spec(command@, ' '),
{
    text::split_char(command, ' ')
}

/// The `kubectl` arguments that install cert-manager.
pub fn cert_manager() -> (r: Vec<String>)
    ensures
        r.deep_view() =~= seq![
            "apply"@,
            "--validate=false"@,
            "-f"@,
            "https://github.com/jetstack/cert-manager/releases/download/v0.15.0/cert-manager.yaml"@,
        ],
{
    let mut args: Vec<String> = Vec::new();
    args.push(String::from_str("apply"));
    args.push(String::from_str("--validate=false"));
    args.push(String::from_str("-f"));
    args.push(
        String::from_str(
            "https://github.com/jetstack/cert-manager/releases/download/v0.15.0/cert-manager.yaml",
        ),
    );
    proof {
        assert(args.deep_view() =~~= seq![
            "apply"@,
            "--validate=false"@,
            "-f"@,
            "https://github.com/jetstack/cert-manager/releases/download/v0.15.0/cert-manager.yaml"@,
        ]);
    }
    args
}

/// The `kubectl` arguments that install ingress-nginx.
pub fn ingress_nginx() -> (r: Vec<String>)
    ensures
        r.deep_view() == text::split_spec(
            "apply -f https://raw.githubusercontent.com/kubernetes/ingress-nginx/master/deploy/static/provider/kind/deploy.yaml"@,
            ' ',
        ),
{
    kubectl_args(
        "apply -f https://raw.githubusercontent.com/kubernetes/ingress-nginx/master/deploy/static/provider/kind/deploy.yaml",
    )
}

/// What the `add` subcommand does for a capability name: the `kubectl`
/// arguments for the two known capabilities, nothing for any other.
pub fn add(cap: &str) -> (r: Option<Vec<String>>)
    ensures
        cap@ == "cert-manager"@ ==> (r matches Some(v) && v.deep_view() =~= seq![
            "apply"@,
            "--validate=false"@,
            "-f"@,
            "https://github.com/jetstack/cert-manager/releases/download/v0.15.0/cert-manager.yaml"@,
        ]),
        cap@ == "ingress-nginx"@ ==> (r matches Some(v) && v.deep_view() == text::split_spec(
            "apply -f https://raw.githubusercontent.com/kubernetes/ingress-nginx/master/deploy/static/provider/kind/deploy.yaml"@,
            ' ',
        )),
        cap@ != "cert-manager"@ && cap@ != "ingress-nginx"@ ==> r is None,
{
    proof {
        reveal_strlit("cert-manager");
        reveal_strlit("ingress-nginx");
    }
    if text::str_eq(cap, "cert-manager") {
        proof {
            assert("cert-manager"@.len() != "ingress-nginx"@.len());
        }
        Some(cert_manager())
    } else if text::str_eq(cap, "ingress-nginx") {
        Some(ingress_nginx())
    } else {
        None
    }
}

} // verus!
