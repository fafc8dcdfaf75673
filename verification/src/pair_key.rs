//! Under which key the runtime of an agent is known in a workspace.
use vstd::prelude::*;

verus! {

/// The relay that an agent uses: that of the workspace, whatever its record says.
pub fn effective_agent_relay_url(record_relay_url: &str, workspace_relay_url: &str) -> (r: String)
    ensures
        r@ == workspace_relay_url@,
{
    workspace_relay_url.to_owned()
}

/// Whether `key` is what `make` gives for an agent and a relay; `None` where it gives an
/// error.
pub open spec fn keyed_pair<K, E, F: Fn(String, &str) -> Result<K, E>>(
    make: F,
    pubkey: Seq<char>,
    relay: Seq<char>,
    key: Option<K>,
) -> bool {
    exists|p: String, u: &str, made: Result<K, E>|
        {
            &&& p@ == pubkey
            &&& u@ == relay
            &&& #[trigger] call_ensures(make, (p, u), made)
            &&& key == match made {
                Ok(k) => Some(k),
                Err(_) => None,
            }
        }
}

/// The key of an agent's runtime in a workspace: that of the agent and the workspace's
/// relay, or `None` where they form no key. The relay of the record does not count.
pub fn resolve_workspace_pair_key<K, E, F: Fn(String, &str) -> Result<K, E>>(
    pubkey: &str,
    record_relay_url: &str,
    workspace_relay_url: &str,
    make: &F,
) -> (r: Option<K>)
    requires
        forall|p: String, u: &str|
            p@ == pubkey@ && u@ == workspace_relay_url@ ==> #[trigger] call_requires(
                *make,
                (p, u),
            ),
    ensures
        keyed_pair(*make, pubkey@, workspace_relay_url@, r),
{
    let relay = effective_agent_relay_url(record_relay_url, workspace_relay_url);
    let agent: String = pubkey.to_owned();
    let ghost p = agent;
    let url: &str = relay.as_str();
    let made = make(agent, url);
    assert(call_ensures(*make, (p, url), made));
    match made {
        Ok(key) => Some(key),
        Err(_) => None,
    }
}

/// The key that an optional key stands for.
pub open spec fn opt_key<K: View>(key: Option<K>) -> Option<K::V> {
    match key {
        Some(k) => Some(k@),
        None => None,
    }
}

/// Whether what `make` gives is settled by the texts it is handed: `keys` says what key an agent
/// and a relay form, if any.
pub open spec fn makes<K: View, E, F: Fn(String, &str) -> Result<K, E>>(
    make: F,
    keys: spec_fn(Seq<char>, Seq<char>) -> Option<K::V>,
) -> bool {
    forall|p: String, u: &str, made: Result<K, E>| #[trigger]
        call_ensures(make, (p, u), made) ==> keys(p@, u@) == match made {
            Ok(k) => Some(k@),
            Err(_) => None,
        }
}

/// The relay of the record is ignored: whatever two records say, an agent has the same key in a
/// workspace, the one that the agent and the workspace's relay form, and none exactly where they
/// form none.
pub proof fn law_record_relay_is_ignored<K: View, E, F: Fn(String, &str) -> Result<K, E>>(
    make: F,
    keys: spec_fn(Seq<char>, Seq<char>) -> Option<K::V>,
    pubkey: Seq<char>,
    workspace_relay_url: Seq<char>,
    first: Option<K>,
    second: Option<K>,
)
    requires
        makes(make, keys),
        keyed_pair(make, pubkey, workspace_relay_url, first),
        keyed_pair(make, pubkey, workspace_relay_url, second),
    ensures
        opt_key(first) == keys(pubkey, workspace_relay_url),
        opt_key(second) == keys(pubkey, workspace_relay_url),
        first is None <==> keys(pubkey, workspace_relay_url) is None,
{
}

} // verus!
