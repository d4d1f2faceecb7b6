//! Node parameters: naming the node, pairing names with values, and the
//! agent's answers.
use vstd::prelude::*;

use crate::protocol::messages::Response;
use crate::protocol::params::{ParamInfo, ParamValue};
use crate::text::{concat2, owned, starts_with_char, trim, trim_end_char, trim_end_char_spec, trim_spec};

verus! {

/// A node name made fully qualified and absolute (leading `/`, no trailing
/// `/`); `None` for an empty or root-only name.
pub open spec fn normalized_node_name(node: Seq<char>) -> Option<Seq<char>> {
    let t = trim_end_char_spec(trim_spec(node), '/');
    if t.len() == 0 {
        None
    } else if t[0] == '/' {
        Some(t)
    } else {
        Some("/"@ + t)
    }
}

/// Normalises a node name to a fully-qualified, absolute name.
pub fn normalize_node_name(node: &str) -> (r: Option<String>)
    ensures
        match normalized_node_name(node@) {
            Some(n) => r is Some && r->0@ == n,
            None => r is None,
        },
{
    let trimmed = trim(node);
    let t = trim_end_char(trimmed, '/');
    if t.unicode_len() == 0 {
        None
    } else if starts_with_char(t, '/') {
        Some(owned(t))
    } else {
        Some(concat2("/", t))
    }
}

/// Each name paired with the value at the same position; extra names or
/// values are dropped.
pub fn pair_parameters(names: Vec<String>, values: Vec<ParamValue>) -> (r: Vec<ParamInfo>)
    ensures
        r@.len() == if names@.len() <= values@.len() { names@.len() } else { values@.len() },
        forall|i: int| 0 <= i < r@.len() ==> #[trigger] r@[i] == (ParamInfo { name: names@[i], value: values@[i] }),
{
    let ghost n0 = names@;
    let ghost v0 = values@;
    let mut names = names;
    let mut values = values;
    let mut r: Vec<ParamInfo> = Vec::new();
    while names.len() > 0 && values.len() > 0
        invariant
            r@.len() <= n0.len(),
            r@.len() <= v0.len(),
            names@ == n0.skip(r@.len() as int),
            values@ == v0.skip(r@.len() as int),
            forall|i: int| 0 <= i < r@.len() ==> #[trigger] r@[i] == (ParamInfo { name: n0[i], value: v0[i] }),
        decreases names@.len(),
    {
        let ghost k = r@.len() as int;
        let name = names.remove(0);
        let value = values.remove(0);
        proof {
            assert(name == n0[k]);
            assert(value == v0[k]);
            assert(names@ =~= n0.skip(k + 1));
            assert(values@ =~= v0.skip(k + 1));
        }
        r.push(ParamInfo { name, value });
    }
    r
}

/// The checks every parameter request starts with: the ROS node must be up
/// and the node name must not be empty. Gives the normalised node name, or
/// the error to answer.
pub fn prepare_parameter_request(node_available: bool, node: &str) -> (r: Result<String, Response>)
    ensures
        !node_available ==> (r matches Err(Response::Error(m)) && m@ == "ROS 2 node not available yet"@),
        node_available && normalized_node_name(node@) is None ==> (r matches Err(Response::Error(m))
            && m@ == "node name must not be empty"@),
        node_available ==> (normalized_node_name(node@) matches Some(base) ==> (r matches Ok(b)
            && b@ == base)),
{
    if !node_available {
        return Err(Response::Error(owned("ROS 2 node not available yet")));
    }
    match normalize_node_name(node) {
        Some(base) => Ok(base),
        None => Err(Response::Error(owned("node name must not be empty"))),
    }
}

/// The error given when a node does not offer the parameter services.
pub fn parameters_unavailable(base: &str) -> (r: String)
    ensures
        r@ == "parameter services for '"@ + base@ + "' are not available"@,
{
    crate::text::concat3("parameter services for '", base, "' are not available")
}

/// The reply to `SetParameter` once the service answered with `results`
/// (success flag and reason for each parameter set).
pub fn parameter_set_reply(base: String, name: String, results: Vec<(bool, String)>) -> (r: Response)
    ensures
        results@.len() > 0 ==> r == (Response::ParameterSet {
            node: base,
            name,
            successful: results@[0].0,
            reason: results@[0].1,
        }),
        results@.len() == 0 ==> (r matches Response::Error(m) && m@
            == "set_parameters returned no result"@),
{
    let mut results = results;
    if results.len() > 0 {
        let (successful, reason) = results.remove(0);
        Response::ParameterSet { node: base, name, successful, reason }
    } else {
        Response::Error(owned("set_parameters returned no result"))
    }
}

} // verus!
