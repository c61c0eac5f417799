use vstd::prelude::*;
use crate::version::{Version, Requirement, ver_le, is_highest, any_admitted};

verus! {

/// One installed package: its version and the directory it was installed to.
#[derive(Clone, Debug)]
pub struct Installed {
    pub name: String,
    pub version: Version,
    pub path: String,
}

/// The installed-package registry: at most one installed version per package.
pub struct Registry {
    entries: Vec<Installed>,
    model: Ghost<Map<Seq<char>, (Version, Seq<char>)>>,
}

impl View for Registry {
    type V = Map<Seq<char>, (Version, Seq<char>)>;

    closed spec fn view(&self) -> Self::V {
        self.model@
    }
}

impl Registry {
    pub closed spec fn wf(&self) -> bool {
        &&& forall|i: int|
            0 <= i < self.entries.len() ==> #[trigger] self.model@.contains_key(
                self.entries[i].name@,
            ) && self.model@[self.entries[i].name@] == (self.entries[i].version,
                self.entries[i].path@)
        &&& forall|n: Seq<char>|
            #[trigger] self.model@.contains_key(n) ==> exists|i: int|
                0 <= i < self.entries.len() && self.entries[i].name@ == n
        &&& forall|i: int, j: int|
            0 <= i < self.entries.len() && 0 <= j < self.entries.len() && #[trigger] self.entries[i].name@
                == #[trigger] self.entries[j].name@ ==> i == j
    }

    pub fn new() -> (r: Registry)
        ensures
            r.wf(),
            r@ == Map::<Seq<char>, (Version, Seq<char>)>::empty(),
    {
        Registry { entries: Vec::new(), model: Ghost(Map::empty()) }
    }

    fn find(&self, name: &String) -> (r: Option<usize>)
        requires
            self.wf(),
        ensures
            r matches Some(i) ==> i < self.entries.len() && self.entries[i as int].name@ == name@
                && self@.contains_key(name@),
            r is None ==> !self@.contains_key(name@),
    {
        let mut i: usize = 0;
        while i < self.entries.len()
            invariant
                self.wf(),
                i <= self.entries.len(),
                forall|j: int| 0 <= j < i ==> self.entries[j].name@ != name@,
            decreases self.entries.len() - i,
        {
            if self.entries[i].name == *name {
                assert(self.model@.contains_key(self.entries[i as int].name@));
                return Some(i);
            }
            i += 1;
        }
        assert(!self@.contains_key(name@));
        None
    }

    /// Every installed package, each once.
    pub fn entries(&self) -> (r: &Vec<Installed>)
        requires
            self.wf(),
        ensures
            forall|i: int|
                0 <= i < r.len() ==> #[trigger] self@.contains_key(r[i].name@) && self@[r[i].name@]
                    == (r[i].version, r[i].path@),
            forall|n: Seq<char>|
                #[trigger] self@.contains_key(n) ==> exists|i: int| 0 <= i < r.len() && r[i].name@ == n,
            forall|i: int, j: int|
                0 <= i < r.len() && 0 <= j < r.len() && #[trigger] r[i].name@ == #[trigger] r[j].name@
                    ==> i == j,
    {
        assert forall|i: int| 0 <= i < self.entries.len() implies #[trigger] self@.contains_key(
            self.entries[i].name@,
        ) && self@[self.entries[i].name@] == (self.entries[i].version, self.entries[i].path@) by {
            assert(self.model@.contains_key(self.entries[i].name@));
        }
        &self.entries
    }

    /// The installed version and path of `name`, if it is installed.
    pub fn get(&self, name: &String) -> (r: Option<(Version, String)>)
        requires
            self.wf(),
        ensures
            r is None <==> !self@.contains_key(name@),
            r matches Some(p) ==> self@[name@] == (p.0, p.1@),
    {
        match self.find(name) {
            Some(i) => {
                assert(self.model@.contains_key(self.entries[i as int].name@));
                Some((self.entries[i].version, self.entries[i].path.clone()))
            },
            None => None,
        }
    }

    /// The installed version of `name`, if any.
    pub fn get_package_version(&self, name: &String) -> (r: Option<Version>)
        requires
            self.wf(),
        ensures
            r is None <==> !self@.contains_key(name@),
            r matches Some(v) ==> self@[name@].0 == v,
    {
        match self.get(name) {
            Some(p) => Some(p.0),
            None => None,
        }
    }

    /// Whether `name` is installed at a version that `req` admits.
    pub fn is_installed(&self, name: &String, req: &Requirement) -> (r: bool)
        requires
            self.wf(),
        ensures
            r == (self@.contains_key(name@) && req.admits_spec(self@[name@].0)),
    {
        match self.get_package_version(name) {
            Some(v) => req.admits(&v),
            None => false,
        }
    }

    /// Records `name` as installed at `version` in `path`, replacing any earlier record.
    pub fn add_package(&mut self, name: &String, version: Version, path: &String)
        requires
            old(self).wf(),
        ensures
            final(self).wf(),
            final(self)@ == old(self)@.insert(name@, (version, path@)),
    {
        let entry = Installed { name: name.clone(), version, path: path.clone() };
        let found = self.find(name);
        let ghost old_entries = self.entries@;
        let ghost at: int;
        match found {
            Some(i) => {
                self.entries[i] = entry;
                proof { at = i as int; }
            },
            None => {
                self.entries.push(entry);
                proof { at = old_entries.len() as int; }
            },
        }
        self.model = Ghost(self.model@.insert(name@, (version, path@)));
        proof {
            assert(self.entries[at].name@ == name@);
            assert forall|n: Seq<char>| #[trigger] self.model@.contains_key(n) implies exists|i: int|
                0 <= i < self.entries.len() && self.entries[i].name@ == n by {
                if n != name@ {
                    let k = choose|k: int| 0 <= k < old_entries.len() && old_entries[k].name@ == n;
                    assert(self.entries[k].name@ == n);
                }
            }
        }
    }
}

/// The known-version index: the versions seen for each package, and which
/// packages have been refreshed from their remote source.
pub struct VersionIndex {
    known: Vec<(String, Version)>,
    refreshed: Vec<String>,
}

impl VersionIndex {
    /// Every (package, version) pair the index knows.
    pub closed spec fn known(&self) -> Set<(Seq<char>, Version)> {
        Set::new(
            |p: (Seq<char>, Version)|
                exists|i: int|
                    0 <= i < self.known.len() && self.known[i].0@ == p.0 && self.known[i].1 == p.1,
        )
    }

    /// The packages whose index entry is fresh.
    pub closed spec fn fresh(&self) -> Set<Seq<char>> {
        Set::new(|n: Seq<char>| exists|i: int| 0 <= i < self.refreshed.len() && self.refreshed[i]@ == n)
    }

    /// The versions known for `name`.
    pub open spec fn versions_of(&self, name: Seq<char>) -> Set<Version> {
        Set::new(|v: Version| self.known().contains((name, v)))
    }

    pub fn new() -> (r: VersionIndex)
        ensures
            r.known() == Set::<(Seq<char>, Version)>::empty(),
            r.fresh() == Set::<Seq<char>>::empty(),
    {
        let r = VersionIndex { known: Vec::new(), refreshed: Vec::new() };
        assert(r.known() =~= Set::<(Seq<char>, Version)>::empty());
        assert(r.fresh() =~= Set::<Seq<char>>::empty());
        r
    }

    /// Every known (package, version) pair.
    pub fn pairs(&self) -> (r: &Vec<(String, Version)>)
        ensures
            forall|p: (Seq<char>, Version)|
                #[trigger] self.known().contains(p) <==> exists|i: int|
                    0 <= i < r.len() && r[i].0@ == p.0 && r[i].1 == p.1,
    {
        &self.known
    }

    /// Whether the entry for `name` is missing or stale.
    pub fn needs_fetch(&self, name: &String) -> (r: bool)
        ensures
            r == !self.fresh().contains(name@),
    {
        let mut i: usize = 0;
        while i < self.refreshed.len()
            invariant
                i <= self.refreshed.len(),
                forall|j: int| 0 <= j < i ==> self.refreshed[j]@ != name@,
            decreases self.refreshed.len() - i,
        {
            if self.refreshed[i] == *name {
                assert(self.fresh().contains(name@)) by {
                    assert(self.refreshed[i as int]@ == name@);
                }
                return false;
            }
            i += 1;
        }
        true
    }

    /// Whether `version` is known for `name`.
    pub fn contains(&self, name: &String, version: Version) -> (r: bool)
        ensures
            r == self.known().contains((name@, version)),
    {
        let mut i: usize = 0;
        while i < self.known.len()
            invariant
                i <= self.known.len(),
                forall|j: int| 0 <= j < i ==> !(self.known[j].0@ == name@ && self.known[j].1 == version),
            decreases self.known.len() - i,
        {
            if self.known[i].0 == *name && self.known[i].1 == version {
                assert(self.known[i as int].0@ == name@);
                return true;
            }
            i += 1;
        }
        false
    }

    /// Adds `version` to the versions known for `name`, if it is not there yet.
    pub fn add_version(&mut self, name: &String, version: Version)
        ensures
            final(self).known() == old(self).known().insert((name@, version)),
            final(self).fresh() == old(self).fresh(),
    {
        if !self.contains(name, version) {
            let ghost before = self.known@;
            self.known.push((name.clone(), version));
            assert(self.known[before.len() as int].0@ == name@);
            assert forall|p: (Seq<char>, Version)| #[trigger] old(self).known().contains(p) implies self.known().contains(p) by {
                let k = choose|k: int| 0 <= k < before.len() && before[k].0@ == p.0 && before[k].1 == p.1;
                assert(self.known[k] == before[k]);
            }
            assert(self.known() =~= old(self).known().insert((name@, version)));
        } else {
            assert(self.known() =~= old(self).known().insert((name@, version)));
        }
    }

    /// Records a successful refresh of `name`: every version in `found` becomes
    /// known and the entry becomes fresh.
    pub fn record_refresh(&mut self, name: &String, found: &Vec<Version>)
        ensures
            final(self).fresh() == old(self).fresh().insert(name@),
            forall|v: Version| #[trigger] final(self).known().contains((name@, v)) <==> (old(self).known().contains((name@, v)) || found@.contains(v)),
            forall|n: Seq<char>, v: Version| n != name@ ==> (#[trigger] final(self).known().contains((n, v)) == old(self).known().contains((n, v))),
    {
        let mut k: usize = 0;
        while k < found.len()
            invariant
                k <= found.len(),
                self.fresh() == old(self).fresh(),
                self.known() == old(self).known().union(Set::new(|p: (Seq<char>, Version)| p.0 == name@ && exists|j: int| 0 <= j < k && found@[j] == p.1)),
            decreases found.len() - k,
        {
            self.add_version(name, found[k]);
            assert(self.known() =~= old(self).known().union(Set::new(|p: (Seq<char>, Version)| p.0 == name@ && exists|j: int| 0 <= j < k + 1 && found@[j] == p.1)));
            k += 1;
        }
        assert forall|v: Version| #[trigger] self.known().contains((name@, v)) <==> (old(self).known().contains((name@, v)) || found@.contains(v)) by {
            if found@.contains(v) {
                let j = choose|j: int| 0 <= j < found@.len() && found@[j] == v;
                assert(Set::new(|p: (Seq<char>, Version)| p.0 == name@ && exists|j: int| 0 <= j < k && found@[j] == p.1).contains((name@, v)));
            }
        }
        if !self.needs_fetch(name) {
            assert(self.fresh() =~= old(self).fresh().insert(name@));
        } else {
            let ghost before = self.refreshed@;
            self.refreshed.push(name.clone());
            assert(self.refreshed[before.len() as int]@ == name@);
            assert forall|n: Seq<char>| #[trigger] old(self).fresh().contains(n) implies self.fresh().contains(n) by {
                let i = choose|i: int| 0 <= i < before.len() && before[i]@ == n;
                assert(self.refreshed[i] == before[i]);
            }
            assert(self.fresh() =~= old(self).fresh().insert(name@));
        }
    }

    /// The highest version known for `name` that `req` admits.
    pub fn best_match(&self, name: &String, req: &Requirement) -> (r: Option<Version>)
        ensures
            r is None <==> !any_admitted(self.versions_of(name@), *req),
            r matches Some(v) ==> is_highest(self.versions_of(name@), *req, v),
    {
        let mut best: Option<Version> = None;
        let mut i: usize = 0;
        while i < self.known.len()
            invariant
                i <= self.known.len(),
                best matches Some(b) ==> self.known().contains((name@, b)) && req.admits_spec(b),
                forall|j: int|
                    0 <= j < i && #[trigger] self.known[j].0@ == name@ && req.admits_spec(self.known[j].1)
                        ==> (best matches Some(b) && ver_le(self.known[j].1, b)),
            decreases self.known.len() - i,
        {
            let cand = self.known[i].1;
            if self.known[i].0 == *name && req.admits(&cand) {
                assert(self.known().contains((name@, cand))) by {
                    assert(self.known[i as int].0@ == name@);
                }
                match best {
                    None => {
                        best = Some(cand);
                    },
                    Some(b) => {
                        if b.le(&cand) {
                            best = Some(cand);
                        }
                    },
                }
            }
            i += 1;
        }
        assert forall|w: Version| self.versions_of(name@).contains(w) && req.admits_spec(w) implies (best matches Some(b) && ver_le(w, b)) by {
            assert(self.known().contains((name@, w)));
            let j = choose|j: int| 0 <= j < self.known.len() && self.known[j].0@ == name@ && self.known[j].1 == w;
            assert(self.known[j].0@ == name@);
        }
        best
    }
}

/// One cached artifact: the unpacked tree of `name` at `version`.
#[derive(Clone, Debug)]
pub struct Download {
    pub name: String,
    pub version: Version,
    pub path: String,
}

/// The download cache, keyed by (package name, version).
pub struct DownloadCache {
    entries: Vec<Download>,
    model: Ghost<Map<(Seq<char>, Version), Seq<char>>>,
}

impl View for DownloadCache {
    type V = Map<(Seq<char>, Version), Seq<char>>;

    closed spec fn view(&self) -> Self::V {
        self.model@
    }
}

impl DownloadCache {
    pub closed spec fn wf(&self) -> bool {
        &&& forall|i: int|
            0 <= i < self.entries.len() ==> #[trigger] self.model@.contains_key(
                (self.entries[i].name@, self.entries[i].version),
            ) && self.model@[(self.entries[i].name@, self.entries[i].version)]
                == self.entries[i].path@
        &&& forall|k: (Seq<char>, Version)|
            #[trigger] self.model@.contains_key(k) ==> exists|i: int|
                0 <= i < self.entries.len() && self.entries[i].name@ == k.0
                    && self.entries[i].version == k.1
        &&& forall|i: int, j: int|
            0 <= i < self.entries.len() && 0 <= j < self.entries.len() && #[trigger] self.entries[i].name@
                == #[trigger] self.entries[j].name@ && self.entries[i].version
                == self.entries[j].version ==> i == j
    }

    /// The versions of `name` that the cache holds.
    pub open spec fn versions_of(&self, name: Seq<char>) -> Set<Version> {
        Set::new(|v: Version| self@.contains_key((name, v)))
    }

    pub fn new() -> (r: DownloadCache)
        ensures
            r.wf(),
            r@ == Map::<(Seq<char>, Version), Seq<char>>::empty(),
    {
        DownloadCache { entries: Vec::new(), model: Ghost(Map::empty()) }
    }

    fn find(&self, name: &String, version: Version) -> (r: Option<usize>)
        requires
            self.wf(),
        ensures
            r matches Some(i) ==> i < self.entries.len() && self.entries[i as int].name@ == name@
                && self.entries[i as int].version == version,
            r is None ==> !self@.contains_key((name@, version)),
    {
        let mut i: usize = 0;
        while i < self.entries.len()
            invariant
                self.wf(),
                i <= self.entries.len(),
                forall|j: int|
                    0 <= j < i ==> !(self.entries[j].name@ == name@ && self.entries[j].version
                        == version),
            decreases self.entries.len() - i,
        {
            if self.entries[i].name == *name && self.entries[i].version == version {
                return Some(i);
            }
            i += 1;
        }
        None
    }

    /// Whether the cache holds `name` at `version`.
    pub fn contains_download(&self, name: &String, version: Version) -> (r: bool)
        requires
            self.wf(),
        ensures
            r == self@.contains_key((name@, version)),
    {
        match self.find(name, version) {
            Some(i) => {
                assert(self.model@.contains_key((self.entries[i as int].name@, self.entries[i as int].version)));
                true
            },
            None => false,
        }
    }

    /// Every cached artifact, each (package, version) once.
    pub fn entries(&self) -> (r: &Vec<Download>)
        requires
            self.wf(),
        ensures
            forall|i: int|
                0 <= i < r.len() ==> #[trigger] self@.contains_key((r[i].name@, r[i].version))
                    && self@[(r[i].name@, r[i].version)] == r[i].path@,
            forall|k: (Seq<char>, Version)|
                #[trigger] self@.contains_key(k) ==> exists|i: int|
                    0 <= i < r.len() && r[i].name@ == k.0 && r[i].version == k.1,
            forall|i: int, j: int|
                0 <= i < r.len() && 0 <= j < r.len() && #[trigger] r[i].name@ == #[trigger] r[j].name@
                    && r[i].version == r[j].version ==> i == j,
    {
        assert forall|i: int| 0 <= i < self.entries.len() implies #[trigger] self@.contains_key(
            (self.entries[i].name@, self.entries[i].version),
        ) && self@[(self.entries[i].name@, self.entries[i].version)] == self.entries[i].path@ by {
            assert(self.model@.contains_key((self.entries[i].name@, self.entries[i].version)));
        }
        &self.entries
    }

    /// The highest cached version of `name` that `req` admits, with its path.
    pub fn get_download(&self, name: &String, req: &Requirement) -> (r: Option<(Version, String)>)
        requires
            self.wf(),
        ensures
            r is None <==> !any_admitted(self.versions_of(name@), *req),
            r matches Some(p) ==> is_highest(self.versions_of(name@), *req, p.0)
                && self@[(name@, p.0)] == p.1@,
    {
        let mut best: Option<usize> = None;
        let mut i: usize = 0;
        while i < self.entries.len()
            invariant
                self.wf(),
                i <= self.entries.len(),
                best matches Some(b) ==> b < self.entries.len() && self.entries[b as int].name@
                    == name@ && req.admits_spec(self.entries[b as int].version),
                forall|j: int|
                    0 <= j < i && #[trigger] self.entries[j].name@ == name@ && req.admits_spec(
                        self.entries[j].version,
                    ) ==> (best matches Some(b) && ver_le(
                        self.entries[j].version,
                        self.entries[b as int].version,
                    )),
            decreases self.entries.len() - i,
        {
            if self.entries[i].name == *name && req.admits(&self.entries[i].version) {
                match best {
                    None => {
                        best = Some(i);
                    },
                    Some(b) => {
                        if self.entries[b].version.le(&self.entries[i].version) {
                            best = Some(i);
                        }
                    },
                }
            }
            i += 1;
        }
        assert forall|w: Version| self.versions_of(name@).contains(w) && req.admits_spec(w) implies (
        best matches Some(b) && ver_le(w, self.entries[b as int].version)) by {
            assert(self.model@.contains_key((name@, w)));
            let j = choose|j: int|
                0 <= j < self.entries.len() && self.entries[j].name@ == name@
                    && self.entries[j].version == w;
            assert(self.entries[j].name@ == name@);
        }
        match best {
            Some(b) => {
                let e = &self.entries[b];
                assert(self.model@.contains_key((self.entries[b as int].name@, self.entries[b as int].version)));
                Some((e.version, e.path.clone()))
            },
            None => None,
        }
    }

    /// Records the unpacked tree of `name` at `version`, replacing any earlier record.
    pub fn add_download(&mut self, name: &String, version: Version, path: &String)
        requires
            old(self).wf(),
        ensures
            final(self).wf(),
            final(self)@ == old(self)@.insert((name@, version), path@),
    {
        let entry = Download { name: name.clone(), version, path: path.clone() };
        let found = self.find(name, version);
        let ghost old_entries = self.entries@;
        let ghost at: int;
        match found {
            Some(i) => {
                self.entries[i] = entry;
                proof { at = i as int; }
            },
            None => {
                self.entries.push(entry);
                proof { at = old_entries.len() as int; }
            },
        }
        self.model = Ghost(self.model@.insert((name@, version), path@));
        proof {
            assert(self.entries[at].name@ == name@);
            assert forall|k: (Seq<char>, Version)| #[trigger] self.model@.contains_key(k) implies exists|i: int|
                0 <= i < self.entries.len() && self.entries[i].name@ == k.0 && self.entries[i].version == k.1 by {
                if k != (name@, version) {
                    let m = choose|m: int|
                        0 <= m < old_entries.len() && old_entries[m].name@ == k.0
                            && old_entries[m].version == k.1;
                    assert(self.entries[m].name@ == k.0);
                }
            }
        }
    }
}

/// The state kernel: the three tables and the two roots they live under.
pub struct Kernel {
    pub packages: Registry,
    pub versions: VersionIndex,
    pub downloads: DownloadCache,
    pub download_root: String,
    pub install_root: String,
}

impl Kernel {
    pub open spec fn wf(&self) -> bool {
        self.packages.wf() && self.downloads.wf()
    }

    /// A kernel with empty tables.
    pub fn new(download_root: String, install_root: String) -> (r: Kernel)
        ensures
            r.wf(),
            r.packages@ == Map::<Seq<char>, (Version, Seq<char>)>::empty(),
            r.versions.known() == Set::<(Seq<char>, Version)>::empty(),
            r.versions.fresh() == Set::<Seq<char>>::empty(),
            r.downloads@ == Map::<(Seq<char>, Version), Seq<char>>::empty(),
            r.download_root@ == download_root@,
            r.install_root@ == install_root@,
    {
        Kernel {
            packages: Registry::new(),
            versions: VersionIndex::new(),
            downloads: DownloadCache::new(),
            download_root,
            install_root,
        }
    }
}

} // verus!
