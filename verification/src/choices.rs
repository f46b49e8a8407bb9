//! Choices offered by the pickers: the thinking variants of the current
//! model, and the remote profile that the desktop connects to.
use vstd::prelude::*;
use crate::labels::DesktopConnectionProfile;
use crate::text::{opt_view, str_eq};

verus! {

/// A model the daemon offers, with the names of its thinking variants.
#[derive(Clone, Debug, PartialEq, Eq)]
pub struct ModelInfo {
    pub id: String,
    pub provider: String,
    pub model: String,
    pub thinking_variants: Vec<String>,
}

/// The first model with the given provider and name.
pub open spec fn find_model(ms: Seq<ModelInfo>, provider: Seq<char>, model: Seq<char>) -> Option<ModelInfo>
    decreases ms.len(),
{
    if ms.len() == 0 {
        None
    } else if ms[0].provider@ == provider && ms[0].model@ == model {
        Some(ms[0])
    } else {
        find_model(ms.drop_first(), provider, model)
    }
}

/// The names of a model's thinking variants.
pub open spec fn names_view(v: Seq<String>) -> Seq<Seq<char>> {
    v.map_values(|s: String| s@)
}

/// Copies of strings.
fn clone_strings(v: &Vec<String>) -> (r: Vec<String>)
    ensures
        names_view(r@) == names_view(v@),
{
    let mut r: Vec<String> = Vec::new();
    let mut k: usize = 0;
    while k < v.len()
        invariant
            0 <= k <= v.len(),
            names_view(r@) == names_view(v@).take(k as int),
        decreases v.len() - k,
    {
        let ghost before = r@;
        r.push(v[k].clone());
        assert(names_view(r@) =~= names_view(before).push(v@[k as int]@));
        assert(names_view(v@).take(k + 1) =~= names_view(v@).take(k as int).push(v@[k as int]@));
        k = k + 1;
    }
    assert(names_view(v@).take(k as int) =~= names_view(v@));
    r
}

/// The thinking variants offered by the session's current model; none when
/// no model is selected, the model is unknown or it has no variants.
pub fn thinking_variants_for_model(models: &[ModelInfo], provider: Option<&str>, model: Option<&str>) -> (r: Vec<String>)
    ensures
        names_view(r@) == (match (provider, model) {
            (Some(p), Some(m)) => match find_model(models@, p@, m@) {
                Some(info) => names_view(info.thinking_variants@),
                None => Seq::empty(),
            },
            _ => Seq::empty(),
        }),
{
    let (p, m) = match (provider, model) {
        (Some(p), Some(m)) => (p, m),
        _ => {
            let r: Vec<String> = Vec::new();
            assert(names_view(r@) =~= Seq::<Seq<char>>::empty());
            return r;
        },
    };
    let mut i: usize = 0;
    assert(models@.skip(0) =~= models@);
    while i < models.len()
        invariant
            0 <= i <= models@.len(),
            provider == Some(p),
            model == Some(m),
            find_model(models@, p@, m@) == find_model(models@.skip(i as int), p@, m@),
        decreases models.len() - i,
    {
        assert(models@.skip(i as int)[0] == models@[i as int]);
        assert(models@.skip(i as int).drop_first() =~= models@.skip(i + 1));
        if str_eq(models[i].provider.as_str(), p) && str_eq(models[i].model.as_str(), m) {
            return clone_strings(&models[i].thinking_variants);
        }
        i = i + 1;
    }
    let r: Vec<String> = Vec::new();
    assert(names_view(r@) =~= Seq::<Seq<char>>::empty());
    r
}

/// A saved remote profile.
#[derive(Clone, Debug, PartialEq, Eq)]
pub struct RemoteProfile {
    pub name: String,
    pub node_id: String,
    pub device_name: String,
}

/// The first saved profile for a node.
pub open spec fn find_profile(ps: Seq<RemoteProfile>, node: Seq<char>) -> Option<RemoteProfile>
    decreases ps.len(),
{
    if ps.len() == 0 {
        None
    } else if ps[0].node_id@ == node {
        Some(ps[0])
    } else {
        find_profile(ps.drop_first(), node)
    }
}

/// The first saved profile for a node.
pub(crate) fn find_profile_exec<'a>(ps: &'a [RemoteProfile], node: &str) -> (r: Option<&'a RemoteProfile>)
    ensures
        match r {
            Some(p) => find_profile(ps@, node@) == Some(*p),
            None => find_profile(ps@, node@) is None,
        },
{
    let mut i: usize = 0;
    assert(ps@.skip(0) =~= ps@);
    while i < ps.len()
        invariant
            0 <= i <= ps@.len(),
            find_profile(ps@, node@) == find_profile(ps@.skip(i as int), node@),
        decreases ps.len() - i,
    {
        assert(ps@.skip(i as int)[0] == ps@[i as int]);
        assert(ps@.skip(i as int).drop_first() =~= ps@.skip(i + 1));
        if str_eq(ps[i].node_id.as_str(), node) {
            return Some(&ps[i]);
        }
        i = i + 1;
    }
    None
}

/// The node and saved device name to connect to: the node from the
/// environment, or else the saved profile of the active node.
pub open spec fn remote_target(
    env_node_id: Option<Seq<char>>,
    active: Option<Seq<char>>,
    profiles: Seq<RemoteProfile>,
) -> Option<(Seq<char>, Option<Seq<char>>)> {
    match env_node_id {
        Some(n) => Some((n, None)),
        None => match active {
            None => None,
            Some(a) => match find_profile(profiles, a) {
                Some(p) => Some((p.node_id@, Some(p.device_name@))),
                None => None,
            },
        },
    }
}

/// The remote profile the desktop connects to, if any: the node from the
/// environment or the active saved profile, the pairing token from the
/// environment, and the device name from the environment, else the saved
/// one, else `mew desktop`.
pub fn remote_connection_profile(
    env_node_id: Option<String>,
    active: Option<String>,
    profiles: &[RemoteProfile],
    env_token: Option<String>,
    env_device_name: Option<String>,
) -> (r: Option<DesktopConnectionProfile>)
    ensures
        match remote_target(opt_view(env_node_id), opt_view(active), profiles@) {
            None => r is None,
            Some((node, saved_name)) => match r {
                Some(DesktopConnectionProfile::RemoteIroh { node_id, pairing_token, device_name }) => node_id@
                    == node && opt_view(pairing_token) == opt_view(env_token) && device_name@ == (match opt_view(
                    env_device_name,
                ) {
                    Some(d) => d,
                    None => match saved_name {
                        Some(s) => s,
                        None => "mew desktop"@,
                    },
                }),
                _ => false,
            },
        },
{
    let (node_id, saved_name) = match env_node_id {
        Some(n) => (n, None),
        None => {
            let a = match active {
                Some(a) => a,
                None => return None,
            };
            match find_profile_exec(profiles, a.as_str()) {
                Some(p) => (p.node_id.clone(), Some(p.device_name.clone())),
                None => return None,
            }
        },
    };
    let device_name = match env_device_name {
        Some(d) => d,
        None => match saved_name {
            Some(s) => s,
            None => "mew desktop".to_owned(),
        },
    };
    Some(DesktopConnectionProfile::RemoteIroh { node_id: node_id, pairing_token: env_token, device_name: device_name })
}

} // verus!
