//! Composition of the environment handed to a helper process.
use vstd::prelude::*;

verus! {

/// An environment as a sequence of (name, value) pairs.
pub open spec fn env_view(env: Seq<(String, String)>) -> Seq<(Seq<char>, Seq<char>)> {
    env.map_values(|e: (String, String)| (e.0@, e.1@))
}

/// Whether some entry of `env` sets `key`.
pub open spec fn sets_key(env: Seq<(Seq<char>, Seq<char>)>, key: Seq<char>) -> bool {
    exists|i: int| 0 <= i < env.len() && (#[trigger] env[i]).0 == key
}

/// The first `n` entries of `env` that no later entry of `env` overrides,
/// in order.
pub open spec fn last_per_key(env: Seq<(Seq<char>, Seq<char>)>, n: nat) -> Seq<
    (Seq<char>, Seq<char>),
>
    recommends
        n <= env.len(),
    decreases n,
{
    if n == 0 {
        Seq::empty()
    } else {
        let rest = last_per_key(env, (n - 1) as nat);
        let e = env[n - 1];
        if sets_key(env.subrange(n as int, env.len() as int), e.0) {
            rest
        } else {
            rest.push(e)
        }
    }
}

/// The environment of a helper: the shared variables followed by the
/// helper's own, keeping only the last entry for each variable. So the
/// helper's own value wins over a shared one, and a later entry over an
/// earlier one.
pub open spec fn merged_env(
    shared: Seq<(Seq<char>, Seq<char>)>,
    own: Seq<(Seq<char>, Seq<char>)>,
) -> Seq<(Seq<char>, Seq<char>)> {
    let all = shared + own;
    last_per_key(all, all.len())
}

/// Whether an entry at `start` or later sets `key`.
fn sets_key_from(env: &Vec<(String, String)>, start: usize, key: &String) -> (r: bool)
    requires
        start <= env@.len(),
    ensures
        r == sets_key(env_view(env@).subrange(start as int, env@.len() as int), key@),
{
    let ghost ev = env_view(env@);
    let ghost tail = ev.subrange(start as int, env@.len() as int);
    let mut i: usize = start;
    while i < env.len()
        invariant
            start <= i <= env@.len(),
            ev == env_view(env@),
            tail == ev.subrange(start as int, env@.len() as int),
            forall|k: int| 0 <= k < i - start ==> (#[trigger] tail[k]).0 != key@,
        decreases env@.len() - i,
    {
        if env[i].0.eq(key) {
            assert(tail[i - start].0 == key@);
            return true;
        }
        i = i + 1;
    }
    false
}

/// Merges the shared variables with a helper's own; see `merged_env`.
pub fn compose_env(shared: &Vec<(String, String)>, own: &Vec<(String, String)>) -> (r: Vec<
    (String, String),
>)
    ensures
        env_view(r@) == merged_env(env_view(shared@), env_view(own@)),
{
    let mut all: Vec<(String, String)> = Vec::new();
    let mut i: usize = 0;
    while i < shared.len()
        invariant
            i <= shared@.len(),
            env_view(all@) == env_view(shared@).take(i as int),
        decreases shared@.len() - i,
    {
        let ghost prev = all@;
        all.push((shared[i].0.clone(), shared[i].1.clone()));
        assert(env_view(all@) =~= env_view(prev).push(env_view(shared@)[i as int]));
        assert(env_view(shared@).take(i + 1) =~= env_view(shared@).take(i as int).push(
            env_view(shared@)[i as int],
        ));
        i = i + 1;
    }
    assert(env_view(shared@).take(shared@.len() as int) =~= env_view(shared@));
    let mut j: usize = 0;
    while j < own.len()
        invariant
            j <= own@.len(),
            env_view(all@) == env_view(shared@) + env_view(own@).take(j as int),
        decreases own@.len() - j,
    {
        let ghost prev = all@;
        all.push((own[j].0.clone(), own[j].1.clone()));
        assert(env_view(all@) =~= env_view(prev).push(env_view(own@)[j as int]));
        assert(env_view(own@).take(j + 1) =~= env_view(own@).take(j as int).push(
            env_view(own@)[j as int],
        ));
        assert(env_view(all@) =~= env_view(shared@) + env_view(own@).take(j + 1));
        j = j + 1;
    }
    assert(env_view(own@).take(own@.len() as int) =~= env_view(own@));
    let ghost av = env_view(all@);
    assert(av == env_view(shared@) + env_view(own@));
    let mut out: Vec<(String, String)> = Vec::new();
    let mut k: usize = 0;
    while k < all.len()
        invariant
            k <= all@.len(),
            av == env_view(all@),
            env_view(out@) == last_per_key(av, k as nat),
        decreases all@.len() - k,
    {
        if !sets_key_from(&all, k + 1, &all[k].0) {
            let ghost prev = out@;
            out.push((all[k].0.clone(), all[k].1.clone()));
            assert(env_view(out@) =~= env_view(prev).push(av[k as int]));
        }
        k = k + 1;
    }
    out
}

} // verus!
