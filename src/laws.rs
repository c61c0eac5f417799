use vstd::prelude::*;
use crate::version::{Version, Requirement, is_highest, any_admitted};
use crate::kernel::{Kernel, VersionIndex};
use crate::store::{StateTables, lists_kernel};
use crate::install::{Manifest, Phase, Action, resolves, holds, cached_versions};

verus! {

/// Installing again a package whose installed version the requirement admits
/// changes no table and asks for no download, extraction or launcher: the
/// resolution ends as already installed.
pub proof fn lemma_reinstall_is_noop(
    m: Manifest,
    req: Requirement,
    pk: Map<Seq<char>, (Version, Seq<char>)>,
    known: Set<(Seq<char>, Version)>,
    dl: Map<(Seq<char>, Version), Seq<char>>,
    k1: Kernel,
    phase: Phase,
    a: Action,
)
    requires
        pk.contains_key(m.name@),
        req.admits_spec(pk[m.name@].0),
        resolves(m, req, pk, known, dl, k1, phase, a),
    ensures
        a == Action::AlreadyInstalled(pk[m.name@].0),
        phase == Phase::Done,
        holds(k1, pk, known, dl),
{
}

/// A package that is not installed at an admitted version, but whose cache
/// holds an admitted version, is registered from the cache (its highest such
/// version, at the cached path) with no download: launchers are asked for next.
pub proof fn lemma_cache_precedence(
    m: Manifest,
    req: Requirement,
    pk: Map<Seq<char>, (Version, Seq<char>)>,
    known: Set<(Seq<char>, Version)>,
    dl: Map<(Seq<char>, Version), Seq<char>>,
    k1: Kernel,
    phase: Phase,
    a: Action,
)
    requires
        !(pk.contains_key(m.name@) && req.admits_spec(pk[m.name@].0)),
        any_admitted(cached_versions(dl, m.name@), req),
        resolves(m, req, pk, known, dl, k1, phase, a),
    ensures
        (a is WriteShims),
        (exists|v: Version|
            is_highest(cached_versions(dl, m.name@), req, v) && k1.packages@ == pk.insert(
                m.name@,
                (v, dl[(m.name@, v)]),
            ) && phase == (Phase::Shimming { version: v })),
        k1.downloads@ == dl,
{
}

/// Resolution never asks for a refresh: an install refreshes at most once,
/// when it starts.
pub proof fn lemma_resolution_never_refreshes(
    m: Manifest,
    req: Requirement,
    pk: Map<Seq<char>, (Version, Seq<char>)>,
    known: Set<(Seq<char>, Version)>,
    dl: Map<(Seq<char>, Version), Seq<char>>,
    k1: Kernel,
    phase: Phase,
    a: Action,
)
    requires
        resolves(m, req, pk, known, dl, k1, phase, a),
    ensures
        !(a is Refresh),
{
}

/// An index that no refresh has touched needs a fetch for every package; once
/// a refresh of a package is recorded, that package needs none.
pub proof fn lemma_refresh_clears_staleness(before: VersionIndex, after: VersionIndex, name: Seq<char>)
    requires
        before.fresh() == Set::<Seq<char>>::empty(),
        after.fresh() == before.fresh().insert(name),
    ensures
        !before.fresh().contains(name),
        after.fresh().contains(name),
{
}

/// Persisting is lossless: a kernel read back from the lists that describe a
/// kernel's tables has exactly that kernel's registry, index and cache.
pub proof fn lemma_persist_round_trip(k: Kernel, t: StateTables, back: Kernel)
    requires
        lists_kernel(k, t),
        lists_kernel(back, t),
    ensures
        back.packages@ == k.packages@,
        back.versions.known() == k.versions.known(),
        back.downloads@ == k.downloads@,
{
    assert forall|n: Seq<char>| #[trigger] back.packages@.contains_key(n) == k.packages@.contains_key(n) by {
        if back.packages@.contains_key(n) {
            let i = choose|i: int| 0 <= i < t.packages@.len() && t.packages@[i].name@ == n;
            assert(k.packages@.contains_key(t.packages@[i].name@));
        }
        if k.packages@.contains_key(n) {
            let i = choose|i: int| 0 <= i < t.packages@.len() && t.packages@[i].name@ == n;
            assert(back.packages@.contains_key(t.packages@[i].name@));
        }
    }
    assert forall|n: Seq<char>| #[trigger] back.packages@.contains_key(n) implies back.packages@[n] == k.packages@[n] by {
        let i = choose|i: int| 0 <= i < t.packages@.len() && t.packages@[i].name@ == n;
        assert(k.packages@.contains_key(t.packages@[i].name@));
    }
    assert(back.packages@ =~= k.packages@);
    assert(back.versions.known() =~= k.versions.known());
    assert forall|c: (Seq<char>, Version)| #[trigger] back.downloads@.contains_key(c) == k.downloads@.contains_key(c) by {
        if back.downloads@.contains_key(c) {
            let i = choose|i: int| 0 <= i < t.downloads@.len() && t.downloads@[i].name@ == c.0 && t.downloads@[i].version == c.1;
            assert(k.downloads@.contains_key((t.downloads@[i].name@, t.downloads@[i].version)));
        }
        if k.downloads@.contains_key(c) {
            let i = choose|i: int| 0 <= i < t.downloads@.len() && t.downloads@[i].name@ == c.0 && t.downloads@[i].version == c.1;
            assert(back.downloads@.contains_key((t.downloads@[i].name@, t.downloads@[i].version)));
        }
    }
    assert forall|c: (Seq<char>, Version)| #[trigger] back.downloads@.contains_key(c) implies back.downloads@[c] == k.downloads@[c] by {
        let i = choose|i: int| 0 <= i < t.downloads@.len() && t.downloads@[i].name@ == c.0 && t.downloads@[i].version == c.1;
        assert(k.downloads@.contains_key((t.downloads@[i].name@, t.downloads@[i].version)));
    }
    assert(back.downloads@ =~= k.downloads@);
}

} // verus!
