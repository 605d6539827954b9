//! The environment a command runs in: what of the host's own variables may
//! pass, and how the caller's variables go on top.
use vstd::prelude::*;
use crate::text::same_text;

verus! {

/// One environment variable: its name and its value.
pub type EnvVar = (String, String);

/// Variables as contracts speak of them.
pub type EnvView = Seq<(Seq<char>, Seq<char>)>;

/// A host variable passes into local commands exactly when it has one of
/// these names.
pub open spec fn is_allowed(name: Seq<char>) -> bool {
    ||| name == "PATH"@
    ||| name == "CARGO_HOME"@
    ||| name == "RUST_HOME"@
    ||| name == "RUST_VERSION"@
}

/// Whether a host variable of this name passes into local commands.
pub fn allowed(name: &str) -> (r: bool)
    ensures
        r == is_allowed(name@),
{
    same_text(name, "PATH") || same_text(name, "CARGO_HOME") || same_text(name, "RUST_HOME")
        || same_text(name, "RUST_VERSION")
}

/// The variables with an allowed name, in their order.
pub open spec fn allowed_only(host: EnvView) -> EnvView
    decreases host.len(),
{
    if host.len() == 0 {
        Seq::empty()
    } else if is_allowed(host.last().0) {
        allowed_only(host.drop_last()).push(host.last())
    } else {
        allowed_only(host.drop_last())
    }
}

/// The value a list of variables gives a name: that of the last entry with
/// the name, as a later assignment replaces an earlier one.
pub open spec fn value_of(env: EnvView, name: Seq<char>) -> Option<Seq<char>>
    decreases env.len(),
{
    if env.len() == 0 {
        None
    } else if env.last().0 == name {
        Some(env.last().1)
    } else {
        value_of(env.drop_last(), name)
    }
}

/// Picks the host variables that local commands may see.
pub fn allowed_env(host: &Vec<EnvVar>) -> (kept: Vec<EnvVar>)
    ensures
        kept.deep_view() == allowed_only(host.deep_view()),
{
    let mut kept: Vec<EnvVar> = Vec::new();
    let mut i: usize = 0;
    while i < host.len()
        invariant
            i <= host.len(),
            kept.deep_view() == allowed_only(host.deep_view().take(i as int)),
        decreases host.len() - i,
    {
        proof {
            let next = host.deep_view().take(i + 1);
            assert(next.drop_last() =~= host.deep_view().take(i as int));
            assert(next.last() == host[i as int].deep_view());
        }
        if allowed(host[i].0.as_str()) {
            let entry: EnvVar = (host[i].0.clone(), host[i].1.clone());
            let ghost before = kept.deep_view();
            let ghost e = entry.deep_view();
            kept.push(entry);
            proof {
                assert(kept.deep_view() =~= before.push(e));
            }
        }
        i += 1;
    }
    proof {
        assert(host.deep_view().take(host.len() as int) =~= host.deep_view());
    }
    kept
}

/// Puts the caller's variables on top of the base: the base first, then the
/// overlay, so that the overlay's assignments are the later ones.
pub fn merge_env(base: &Vec<EnvVar>, overlay: &Vec<EnvVar>) -> (merged: Vec<EnvVar>)
    ensures
        merged.deep_view() == base.deep_view() + overlay.deep_view(),
{
    let mut merged: Vec<EnvVar> = Vec::new();
    let mut i: usize = 0;
    while i < base.len()
        invariant
            i <= base.len(),
            merged.deep_view() == base.deep_view().take(i as int),
        decreases base.len() - i,
    {
        let entry: EnvVar = (base[i].0.clone(), base[i].1.clone());
        let ghost before = merged.deep_view();
        let ghost e = entry.deep_view();
        merged.push(entry);
        proof {
            assert(merged.deep_view() =~= before.push(e));
            assert(merged.deep_view() =~= base.deep_view().take(i + 1));
        }
        i += 1;
    }
    let mut j: usize = 0;
    while j < overlay.len()
        invariant
            j <= overlay.len(),
            merged.deep_view() == base.deep_view() + overlay.deep_view().take(j as int),
        decreases overlay.len() - j,
    {
        let entry: EnvVar = (overlay[j].0.clone(), overlay[j].1.clone());
        let ghost before = merged.deep_view();
        let ghost e = entry.deep_view();
        merged.push(entry);
        proof {
            assert(merged.deep_view() =~= before.push(e));
            assert(merged.deep_view() =~= base.deep_view() + overlay.deep_view().take(j + 1));
        }
        j += 1;
    }
    proof {
        assert(overlay.deep_view().take(overlay.len() as int) =~= overlay.deep_view());
    }
    merged
}

/// Looks a name up in a list of variables.
pub fn lookup(env: &Vec<EnvVar>, name: &str) -> (value: Option<String>)
    ensures
        match value {
            Some(v) => value_of(env.deep_view(), name@) == Some(v@),
            None => value_of(env.deep_view(), name@) is None,
        },
{
    let mut i: usize = env.len();
    proof {
        assert(env.deep_view().take(i as int) =~= env.deep_view());
    }
    while i > 0
        invariant
            i <= env.len(),
            value_of(env.deep_view(), name@) == value_of(env.deep_view().take(i as int), name@),
        decreases i,
    {
        proof {
            let cur = env.deep_view().take(i as int);
            assert(cur.last() == env[i - 1].deep_view());
            assert(cur.drop_last() =~= env.deep_view().take(i - 1));
        }
        if same_text(env[i - 1].0.as_str(), name) {
            return Some(env[i - 1].1.clone());
        }
        i -= 1;
    }
    None
}

/// The caller's variables override: a name the overlay assigns has the
/// overlay's value in the merged environment, and every other name keeps the
/// value the base gave it.
pub proof fn lemma_overlay_wins(base: EnvView, overlay: EnvView, name: Seq<char>)
    ensures
        value_of(base + overlay, name) == match value_of(overlay, name) {
            Some(v) => Some(v),
            None => value_of(base, name),
        },
    decreases overlay.len(),
{
    if overlay.len() == 0 {
        assert(base + overlay =~= base);
    } else {
        assert((base + overlay).drop_last() =~= base + overlay.drop_last());
        assert((base + overlay).last() == overlay.last());
        lemma_overlay_wins(base, overlay.drop_last(), name);
    }
}

/// Only allowed names come through the allow-list, each with the value the
/// host gave it.
pub proof fn lemma_allowed_only_allowed(host: EnvView, name: Seq<char>)
    ensures
        value_of(allowed_only(host), name) == if is_allowed(name) {
            value_of(host, name)
        } else {
            None
        },
    decreases host.len(),
{
    if host.len() > 0 {
        lemma_allowed_only_allowed(host.drop_last(), name);
        if is_allowed(host.last().0) {
            let kept = allowed_only(host.drop_last()).push(host.last());
            assert(kept.drop_last() =~= allowed_only(host.drop_last()));
        }
    }
}

} // verus!
