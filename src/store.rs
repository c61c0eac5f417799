use vstd::prelude::*;
use crate::version::Version;
use crate::kernel::{Kernel, Installed, Download, Registry, VersionIndex, DownloadCache};

verus! {

/// The three tables of a kernel as plain lists, the form in which they are
/// persisted and read back.
pub struct StateTables {
    pub packages: Vec<Installed>,
    pub versions: Vec<(String, Version)>,
    pub downloads: Vec<Download>,
}

/// Persisted tables that cannot make a kernel.
#[derive(Clone, Copy, Debug, PartialEq, Eq, Structural)]
pub enum StoreError {
    StateCorrupt,
}

/// No two records of `s` name the same package.
pub open spec fn packages_unique(s: Seq<Installed>) -> bool {
    forall|i: int, j: int|
        0 <= i < s.len() && 0 <= j < s.len() && #[trigger] s[i].name@ == #[trigger] s[j].name@ ==> i == j
}

/// No two records of `s` name the same (package, version).
pub open spec fn downloads_unique(s: Seq<Download>) -> bool {
    forall|i: int, j: int|
        0 <= i < s.len() && 0 <= j < s.len() && #[trigger] s[i].name@ == #[trigger] s[j].name@
            && s[i].version == s[j].version ==> i == j
}

/// `s` lists exactly the registry `m`.
pub open spec fn lists_registry(m: Map<Seq<char>, (Version, Seq<char>)>, s: Seq<Installed>) -> bool {
    &&& forall|i: int|
        0 <= i < s.len() ==> #[trigger] m.contains_key(s[i].name@) && m[s[i].name@] == (
            s[i].version,
            s[i].path@,
        )
    &&& forall|n: Seq<char>|
        #[trigger] m.contains_key(n) ==> exists|i: int| 0 <= i < s.len() && s[i].name@ == n
}

/// `s` lists exactly the known pairs `k`.
pub open spec fn lists_known(k: Set<(Seq<char>, Version)>, s: Seq<(String, Version)>) -> bool {
    forall|p: (Seq<char>, Version)|
        #[trigger] k.contains(p) <==> exists|i: int| 0 <= i < s.len() && s[i].0@ == p.0 && s[i].1 == p.1
}

/// `s` lists exactly the cache `m`.
pub open spec fn lists_cache(m: Map<(Seq<char>, Version), Seq<char>>, s: Seq<Download>) -> bool {
    &&& forall|i: int|
        0 <= i < s.len() ==> #[trigger] m.contains_key((s[i].name@, s[i].version)) && m[(
            s[i].name@,
            s[i].version,
        )] == s[i].path@
    &&& forall|k: (Seq<char>, Version)|
        #[trigger] m.contains_key(k) ==> exists|i: int|
            0 <= i < s.len() && s[i].name@ == k.0 && s[i].version == k.1
}

/// `t` lists exactly the tables of `k`.
pub open spec fn lists_kernel(k: Kernel, t: StateTables) -> bool {
    &&& lists_registry(k.packages@, t.packages@)
    &&& lists_known(k.versions.known(), t.versions@)
    &&& lists_cache(k.downloads@, t.downloads@)
}

impl Kernel {
    /// The kernel's tables as lists, each key once.
    pub fn snapshot(&self) -> (t: StateTables)
        requires
            self.wf(),
        ensures
            lists_kernel(*self, t),
            packages_unique(t.packages@),
            downloads_unique(t.downloads@),
    {
        let src = self.packages.entries();
        let mut packages: Vec<Installed> = Vec::new();
        let mut i: usize = 0;
        while i < src.len()
            invariant
                i <= src.len(),
                packages@.len() == i,
                forall|j: int|
                    0 <= j < i ==> #[trigger] packages@[j].name@ == src@[j].name@
                        && packages@[j].version == src@[j].version && packages@[j].path@
                        == src@[j].path@,
            decreases src.len() - i,
        {
            let e = &src[i];
            packages.push(Installed { name: e.name.clone(), version: e.version, path: e.path.clone() });
            i += 1;
        }
        let known = self.versions.pairs();
        let mut versions: Vec<(String, Version)> = Vec::new();
        let mut i: usize = 0;
        while i < known.len()
            invariant
                i <= known.len(),
                versions@.len() == i,
                forall|j: int| 0 <= j < i ==> #[trigger] versions@[j].0@ == known@[j].0@ && versions@[j].1 == known@[j].1,
            decreases known.len() - i,
        {
            versions.push((known[i].0.clone(), known[i].1));
            i += 1;
        }
        let cached = self.downloads.entries();
        let mut downloads: Vec<Download> = Vec::new();
        let mut i: usize = 0;
        while i < cached.len()
            invariant
                i <= cached.len(),
                downloads@.len() == i,
                forall|j: int|
                    0 <= j < i ==> #[trigger] downloads@[j].name@ == cached@[j].name@
                        && downloads@[j].version == cached@[j].version && downloads@[j].path@
                        == cached@[j].path@,
            decreases cached.len() - i,
        {
            let e = &cached[i];
            downloads.push(Download { name: e.name.clone(), version: e.version, path: e.path.clone() });
            i += 1;
        }
        let t = StateTables { packages, versions, downloads };
        proof {
            assert forall|i: int| 0 <= i < t.packages@.len() implies #[trigger] self.packages@.contains_key(t.packages@[i].name@) && self.packages@[t.packages@[i].name@] == (t.packages@[i].version, t.packages@[i].path@) by {
                assert(self.packages@.contains_key(src@[i].name@));
            }
            assert forall|n: Seq<char>| #[trigger] self.packages@.contains_key(n) implies exists|i: int| 0 <= i < t.packages@.len() && t.packages@[i].name@ == n by {
                let i = choose|i: int| 0 <= i < src@.len() && src@[i].name@ == n;
                assert(t.packages@[i].name@ == n);
            }
            assert forall|i: int, j: int| 0 <= i < t.packages@.len() && 0 <= j < t.packages@.len() && #[trigger] t.packages@[i].name@ == #[trigger] t.packages@[j].name@ implies i == j by {
                assert(src@[i].name@ == src@[j].name@);
            }
            assert forall|p: (Seq<char>, Version)| #[trigger] self.versions.known().contains(p) <==> exists|i: int| 0 <= i < t.versions@.len() && t.versions@[i].0@ == p.0 && t.versions@[i].1 == p.1 by {
                if self.versions.known().contains(p) {
                    let i = choose|i: int| 0 <= i < known@.len() && known@[i].0@ == p.0 && known@[i].1 == p.1;
                    assert(t.versions@[i].0@ == p.0);
                }
                if exists|i: int| 0 <= i < t.versions@.len() && t.versions@[i].0@ == p.0 && t.versions@[i].1 == p.1 {
                    let i = choose|i: int| 0 <= i < t.versions@.len() && t.versions@[i].0@ == p.0 && t.versions@[i].1 == p.1;
                    assert(known@[i].0@ == p.0);
                }
            }
            assert forall|i: int| 0 <= i < t.downloads@.len() implies #[trigger] self.downloads@.contains_key((t.downloads@[i].name@, t.downloads@[i].version)) && self.downloads@[(t.downloads@[i].name@, t.downloads@[i].version)] == t.downloads@[i].path@ by {
                assert(self.downloads@.contains_key((cached@[i].name@, cached@[i].version)));
            }
            assert forall|k: (Seq<char>, Version)| #[trigger] self.downloads@.contains_key(k) implies exists|i: int| 0 <= i < t.downloads@.len() && t.downloads@[i].name@ == k.0 && t.downloads@[i].version == k.1 by {
                let i = choose|i: int| 0 <= i < cached@.len() && cached@[i].name@ == k.0 && cached@[i].version == k.1;
                assert(t.downloads@[i].name@ == k.0);
            }
            assert forall|i: int, j: int| 0 <= i < t.downloads@.len() && 0 <= j < t.downloads@.len() && #[trigger] t.downloads@[i].name@ == #[trigger] t.downloads@[j].name@ && t.downloads@[i].version == t.downloads@[j].version implies i == j by {
                assert(cached@[i].name@ == cached@[j].name@);
            }
        }
        t
    }

    /// Builds a kernel from persisted tables. Tables that name a key twice are
    /// corrupt. No index entry starts fresh: a run refreshes an entry before
    /// it trusts it.
    pub fn restore(download_root: String, install_root: String, t: &StateTables) -> (r: Result<
        Kernel,
        StoreError,
    >)
        ensures
            r is Ok <==> packages_unique(t.packages@) && downloads_unique(t.downloads@),
            r matches Ok(k) ==> k.wf() && lists_kernel(k, *t) && k.versions.fresh() == Set::<
                Seq<char>,
            >::empty() && k.download_root@ == download_root@ && k.install_root@ == install_root@,
    {
        let mut k = Kernel::new(download_root, install_root);
        let ghost ps = t.packages@;
        let mut i: usize = 0;
        while i < t.packages.len()
            invariant
                k.wf(),
                i <= ps.len(),
                ps == t.packages@,
                k.versions.known() == Set::<(Seq<char>, Version)>::empty(),
                k.versions.fresh() == Set::<Seq<char>>::empty(),
                k.downloads@ == Map::<(Seq<char>, Version), Seq<char>>::empty(),
                k.download_root@ == download_root@,
                k.install_root@ == install_root@,
                forall|j: int|
                    0 <= j < i ==> #[trigger] k.packages@.contains_key(ps[j].name@)
                        && k.packages@[ps[j].name@] == (ps[j].version, ps[j].path@),
                forall|n: Seq<char>|
                    #[trigger] k.packages@.contains_key(n) ==> exists|j: int| 0 <= j < i && ps[j].name@ == n,
                forall|a: int, b: int|
                    0 <= a < i && 0 <= b < i && #[trigger] ps[a].name@ == #[trigger] ps[b].name@ ==> a == b,
            decreases ps.len() - i,
        {
            let e = &t.packages[i];
            if k.packages.get(&e.name).is_some() {
                proof {
                    let j = choose|j: int| 0 <= j < i && ps[j].name@ == ps[i as int].name@;
                    assert(ps[j].name@ == ps[i as int].name@ && j != i);
                }
                return Err(StoreError::StateCorrupt);
            }
            k.packages.add_package(&e.name, e.version, &e.path);
            proof {
                assert forall|n: Seq<char>| #[trigger] k.packages@.contains_key(n) implies exists|j: int|
                    0 <= j < i + 1 && ps[j].name@ == n by {
                    if n == ps[i as int].name@ {
                        assert(ps[i as int].name@ == n);
                    }
                }
            }
            i += 1;
        }
        let ghost vs = t.versions@;
        let mut i: usize = 0;
        while i < t.versions.len()
            invariant
                k.wf(),
                i <= vs.len(),
                vs == t.versions@,
                lists_registry(k.packages@, ps),
                k.versions.fresh() == Set::<Seq<char>>::empty(),
                k.downloads@ == Map::<(Seq<char>, Version), Seq<char>>::empty(),
                k.download_root@ == download_root@,
                k.install_root@ == install_root@,
                k.versions.known() == Set::new(
                    |p: (Seq<char>, Version)| exists|j: int| 0 <= j < i && vs[j].0@ == p.0 && vs[j].1 == p.1,
                ),
            decreases vs.len() - i,
        {
            k.versions.add_version(&t.versions[i].0, t.versions[i].1);
            proof {
                let next = Set::new(
                    |p: (Seq<char>, Version)| exists|j: int| 0 <= j < i + 1 && vs[j].0@ == p.0 && vs[j].1 == p.1,
                );
                assert forall|p: (Seq<char>, Version)| #[trigger] next.contains(p) implies k.versions.known().contains(p) by {
                    let j = choose|j: int| 0 <= j < i + 1 && vs[j].0@ == p.0 && vs[j].1 == p.1;
                }
                assert(k.versions.known() =~= next);
            }
            i += 1;
        }
        let ghost ds = t.downloads@;
        let mut i: usize = 0;
        while i < t.downloads.len()
            invariant
                k.wf(),
                i <= ds.len(),
                ds == t.downloads@,
                lists_registry(k.packages@, ps),
                packages_unique(ps),
                lists_known(k.versions.known(), vs),
                k.versions.fresh() == Set::<Seq<char>>::empty(),
                k.download_root@ == download_root@,
                k.install_root@ == install_root@,
                forall|j: int|
                    0 <= j < i ==> #[trigger] k.downloads@.contains_key((ds[j].name@, ds[j].version))
                        && k.downloads@[(ds[j].name@, ds[j].version)] == ds[j].path@,
                forall|c: (Seq<char>, Version)|
                    #[trigger] k.downloads@.contains_key(c) ==> exists|j: int|
                        0 <= j < i && ds[j].name@ == c.0 && ds[j].version == c.1,
                forall|a: int, b: int|
                    0 <= a < i && 0 <= b < i && #[trigger] ds[a].name@ == #[trigger] ds[b].name@
                        && ds[a].version == ds[b].version ==> a == b,
            decreases ds.len() - i,
        {
            let e = &t.downloads[i];
            if k.downloads.contains_download(&e.name, e.version) {
                proof {
                    let j = choose|j: int|
                        0 <= j < i && ds[j].name@ == ds[i as int].name@ && ds[j].version == ds[i as int].version;
                    assert(ds[j].name@ == ds[i as int].name@ && j != i);
                }
                return Err(StoreError::StateCorrupt);
            }
            k.downloads.add_download(&e.name, e.version, &e.path);
            proof {
                assert forall|c: (Seq<char>, Version)| #[trigger] k.downloads@.contains_key(c) implies exists|j: int|
                    0 <= j < i + 1 && ds[j].name@ == c.0 && ds[j].version == c.1 by {
                    if c == (ds[i as int].name@, ds[i as int].version) {
                        assert(ds[i as int].name@ == c.0);
                    }
                }
            }
            i += 1;
        }
        Ok(k)
    }
}

} // verus!
