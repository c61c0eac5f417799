use vstd::prelude::*;
use crate::version::{Version, Requirement, is_highest, any_admitted};
use crate::kernel::Kernel;

verus! {

/// What the install workflow needs of a package's manifest: its name and the
/// executables it exposes.
#[derive(Clone, Debug)]
pub struct Manifest {
    pub name: String,
    pub executables: Vec<String>,
}

/// A launcher to write: `executable` of the package installed in `package_path`.
#[derive(Clone, Debug)]
pub struct Shim {
    pub executable: String,
    pub package_path: String,
}

/// What a download produced: the version obtained, the compressed artifact,
/// and the directory it is to be unpacked into.
#[derive(Clone, Debug)]
pub struct Fetched {
    pub version: Version,
    pub compressed: String,
    pub unpacked: String,
}

#[derive(Clone, Copy, Debug, PartialEq, Eq, Structural)]
pub enum InstallError {
    ManifestNotFound,
    FetchFailed,
    NoMatchingVersion,
    DownloadFailed,
    ExtractFailed,
    ShimWriteFailed,
    OutOfOrder,
}

impl InstallError {
    /// Every error but a missing manifest ends the run as a failure.
    pub fn is_fatal(&self) -> (r: bool)
        ensures
            r == !(*self is ManifestNotFound),
    {
        match self {
            InstallError::ManifestNotFound => false,
            _ => true,
        }
    }
}

/// The message for a package that has no manifest.
pub open spec fn missing_message(name: Seq<char>) -> Seq<char> {
    "Package \""@ + name + "\" does not exist"@
}

/// The message shown when `name` has no manifest; this ends a run normally.
pub fn missing_package_message(name: &str) -> (r: String)
    ensures
        r@ == missing_message(name@),
{
    let s = String::from_str("Package \"");
    let s = s.concat(name);
    s.concat("\" does not exist")
}

/// Where an install stands.
#[derive(Clone, Debug)]
pub enum Phase {
    Start,
    Refreshing,
    Downloading { version: Version },
    Extracting { version: Version, path: String },
    Shimming { version: Version },
    Done,
    Failed,
}

/// What the caller is to do next.
#[derive(Clone, Debug)]
pub enum Action {
    /// Refresh the package's versions from its remote source.
    Refresh,
    /// Download this version of the package.
    Download(Version),
    /// Unpack the compressed artifact into `target`.
    Extract { compressed: String, target: String },
    /// Write these launchers.
    WriteShims(Vec<Shim>),
    /// Nothing to do: the package is installed at this version.
    AlreadyInstalled(Version),
    /// The package is now installed at this version.
    Installed(Version),
    /// The install stopped on this error.
    Fail(InstallError),
}

/// `shims` has one launcher for each executable, in order, each into `path`.
pub open spec fn is_plan(shims: Seq<Shim>, executables: Seq<String>, path: Seq<char>) -> bool {
    &&& shims.len() == executables.len()
    &&& forall|i: int|
        0 <= i < shims.len() ==> #[trigger] shims[i].executable@ == executables[i]@
            && shims[i].package_path@ == path
}

/// The cached versions of `name` in a cache model.
pub open spec fn cached_versions(dl: Map<(Seq<char>, Version), Seq<char>>, name: Seq<char>) -> Set<
    Version,
> {
    Set::new(|v: Version| dl.contains_key((name, v)))
}

/// The known versions of `name` in an index model.
pub open spec fn known_versions(known: Set<(Seq<char>, Version)>, name: Seq<char>) -> Set<Version> {
    Set::new(|v: Version| known.contains((name, v)))
}

/// `k` holds these three tables.
pub open spec fn holds(
    k: Kernel,
    pk: Map<Seq<char>, (Version, Seq<char>)>,
    known: Set<(Seq<char>, Version)>,
    dl: Map<(Seq<char>, Version), Seq<char>>,
) -> bool {
    k.packages@ == pk && k.versions.known() == known && k.downloads@ == dl
}

/// Resolving an install of `m` under `req`, from tables `pk`, `known`, `dl`,
/// leaves `k1`, moves to `phase` and asks for `a`:
/// an installed version that `req` admits ends the install untouched; else the
/// highest cached version that `req` admits is registered and shimmed; else the
/// highest known version that `req` admits is downloaded; else it fails.
pub open spec fn resolves(
    m: Manifest,
    req: Requirement,
    pk: Map<Seq<char>, (Version, Seq<char>)>,
    known: Set<(Seq<char>, Version)>,
    dl: Map<(Seq<char>, Version), Seq<char>>,
    k1: Kernel,
    phase: Phase,
    a: Action,
) -> bool {
    let n = m.name@;
    if pk.contains_key(n) && req.admits_spec(pk[n].0) {
        &&& a == Action::AlreadyInstalled(pk[n].0)
        &&& phase == Phase::Done
        &&& holds(k1, pk, known, dl)
    } else if any_admitted(cached_versions(dl, n), req) {
        exists|v: Version, s: Vec<Shim>|
            {
                &&& is_highest(cached_versions(dl, n), req, v)
                &&& a == Action::WriteShims(s)
                &&& is_plan(s@, m.executables@, dl[(n, v)])
                &&& phase == Phase::Shimming { version: v }
                &&& holds(k1, pk.insert(n, (v, dl[(n, v)])), known.insert((n, v)), dl)
            }
    } else if any_admitted(known_versions(known, n), req) {
        exists|v: Version|
            {
                &&& is_highest(known_versions(known, n), req, v)
                &&& a == Action::Download(v)
                &&& phase == Phase::Downloading { version: v }
                &&& holds(k1, pk, known, dl)
            }
    } else {
        &&& a == Action::Fail(InstallError::NoMatchingVersion)
        &&& phase == Phase::Failed
        &&& holds(k1, pk, known, dl)
    }
}

/// The index after a refresh of `name` that found `found`.
pub open spec fn refreshed_known(
    known: Set<(Seq<char>, Version)>,
    name: Seq<char>,
    found: Seq<Version>,
) -> Set<(Seq<char>, Version)> {
    known.union(Set::new(|p: (Seq<char>, Version)| p.0 == name && found.contains(p.1)))
}

/// One launcher for each of `executables`, each into `path`.
pub fn shim_plan(executables: &Vec<String>, path: &String) -> (r: Vec<Shim>)
    ensures
        is_plan(r@, executables@, path@),
{
    let mut r: Vec<Shim> = Vec::new();
    let mut i: usize = 0;
    while i < executables.len()
        invariant
            i <= executables.len(),
            is_plan(r@, executables@.take(i as int), path@),
        decreases executables.len() - i,
    {
        r.push(Shim { executable: executables[i].clone(), package_path: path.clone() });
        i += 1;
    }
    assert(executables@.take(i as int) =~= executables@);
    r
}

/// One install of one package, driven by its caller one step at a time.
pub struct Install {
    pub manifest: Manifest,
    pub req: Requirement,
    pub phase: Phase,
}

impl Install {
    pub fn new(manifest: Manifest, req: Requirement) -> (r: Install)
        ensures
            r.manifest == manifest,
            r.req == req,
            r.phase == Phase::Start,
    {
        Install { manifest, req, phase: Phase::Start }
    }

    /// Starts an install of `name` from the manifest found for it, if any.
    pub fn for_package(name: &String, manifest: Option<Manifest>, req: Requirement) -> (r: Result<
        Install,
        InstallError,
    >)
        ensures
            manifest is None ==> r == Err::<Install, InstallError>(InstallError::ManifestNotFound),
            manifest matches Some(m) ==> r == Ok::<Install, InstallError>(
                Install { manifest: m, req, phase: Phase::Start },
            ),
    {
        match manifest {
            Some(m) => Ok(Install::new(m, req)),
            None => Err(InstallError::ManifestNotFound),
        }
    }

    fn resolve(&mut self, kernel: &mut Kernel) -> (a: Action)
        requires
            old(kernel).wf(),
        ensures
            final(kernel).wf(),
            final(self).manifest == old(self).manifest,
            final(self).req == old(self).req,
            final(kernel).versions.fresh() == old(kernel).versions.fresh(),
            resolves(
                old(self).manifest,
                old(self).req,
                old(kernel).packages@,
                old(kernel).versions.known(),
                old(kernel).downloads@,
                *final(kernel),
                final(self).phase,
                a,
            ),
    {
        let name = self.manifest.name.clone();
        if kernel.packages.is_installed(&name, &self.req) {
            match kernel.packages.get_package_version(&name) {
                Some(v) => {
                    self.phase = Phase::Done;
                    return Action::AlreadyInstalled(v);
                },
                None => {
                    assert(false);
                    return Action::Fail(InstallError::OutOfOrder);
                },
            }
        }
        assert(kernel.downloads.versions_of(name@) =~= cached_versions(kernel.downloads@, name@));
        assert(kernel.versions.versions_of(name@) =~= known_versions(kernel.versions.known(), name@));
        match kernel.downloads.get_download(&name, &self.req) {
            Some((v, path)) => {
                kernel.packages.add_package(&name, v, &path);
                kernel.versions.add_version(&name, v);
                let shims = shim_plan(&self.manifest.executables, &path);
                self.phase = Phase::Shimming { version: v };
                Action::WriteShims(shims)
            },
            None => match kernel.versions.best_match(&name, &self.req) {
                Some(v) => {
                    self.phase = Phase::Downloading { version: v };
                    Action::Download(v)
                },
                None => {
                    self.phase = Phase::Failed;
                    Action::Fail(InstallError::NoMatchingVersion)
                },
            },
        }
    }
}


impl Install {
    /// Begins the install: asks for a refresh when the package's index entry is
    /// missing or stale, and otherwise resolves at once.
    pub fn start(&mut self, kernel: &mut Kernel) -> (a: Action)
        requires
            old(kernel).wf(),
        ensures
            final(kernel).wf(),
            final(self).manifest == old(self).manifest,
            final(self).req == old(self).req,
            final(kernel).versions.fresh() == old(kernel).versions.fresh(),
            old(self).phase is Start && !old(kernel).versions.fresh().contains(old(self).manifest.name@)
                ==> a == Action::Refresh && final(self).phase == Phase::Refreshing && holds(
                *final(kernel),
                old(kernel).packages@,
                old(kernel).versions.known(),
                old(kernel).downloads@,
            ),
            old(self).phase is Start && old(kernel).versions.fresh().contains(old(self).manifest.name@)
                ==> resolves(
                old(self).manifest,
                old(self).req,
                old(kernel).packages@,
                old(kernel).versions.known(),
                old(kernel).downloads@,
                *final(kernel),
                final(self).phase,
                a,
            ),
            !(old(self).phase is Start) ==> a == Action::Fail(InstallError::OutOfOrder)
                && final(self).phase == old(self).phase && holds(
                *final(kernel),
                old(kernel).packages@,
                old(kernel).versions.known(),
                old(kernel).downloads@,
            ),
    {
        match self.phase {
            Phase::Start => {},
            _ => {
                return Action::Fail(InstallError::OutOfOrder);
            },
        }
        if kernel.versions.needs_fetch(&self.manifest.name) {
            self.phase = Phase::Refreshing;
            Action::Refresh
        } else {
            self.resolve(kernel)
        }
    }

    /// Takes the outcome of a refresh: the versions found, or `None` when the
    /// remote source failed. Found versions join the index, which becomes fresh,
    /// and the install resolves; a failure leaves every table as it was.
    pub fn on_refresh(&mut self, kernel: &mut Kernel, found: Option<Vec<Version>>) -> (a: Action)
        requires
            old(kernel).wf(),
        ensures
            final(kernel).wf(),
            final(self).manifest == old(self).manifest,
            final(self).req == old(self).req,
            old(self).phase is Refreshing && found is None ==> a == Action::Fail(
                InstallError::FetchFailed,
            ) && final(self).phase == Phase::Failed && holds(
                *final(kernel),
                old(kernel).packages@,
                old(kernel).versions.known(),
                old(kernel).downloads@,
            ) && final(kernel).versions.fresh() == old(kernel).versions.fresh(),
            old(self).phase is Refreshing && found is Some ==> final(kernel).versions.fresh()
                == old(kernel).versions.fresh().insert(old(self).manifest.name@) && resolves(
                old(self).manifest,
                old(self).req,
                old(kernel).packages@,
                refreshed_known(
                    old(kernel).versions.known(),
                    old(self).manifest.name@,
                    found->0@,
                ),
                old(kernel).downloads@,
                *final(kernel),
                final(self).phase,
                a,
            ),
            !(old(self).phase is Refreshing) ==> a == Action::Fail(InstallError::OutOfOrder)
                && final(self).phase == old(self).phase && holds(
                *final(kernel),
                old(kernel).packages@,
                old(kernel).versions.known(),
                old(kernel).downloads@,
            ) && final(kernel).versions.fresh() == old(kernel).versions.fresh(),
    {
        match self.phase {
            Phase::Refreshing => {},
            _ => {
                return Action::Fail(InstallError::OutOfOrder);
            },
        }
        match found {
            None => {
                self.phase = Phase::Failed;
                Action::Fail(InstallError::FetchFailed)
            },
            Some(versions) => {
                let ghost name = self.manifest.name@;
                kernel.versions.record_refresh(&self.manifest.name, &versions);
                assert forall|p: (Seq<char>, Version)| #[trigger] kernel.versions.known().contains(p)
                    == refreshed_known(old(kernel).versions.known(), name, versions@).contains(p) by {
                    if p.0 == name {
                        assert(kernel.versions.known().contains((name, p.1)) == (old(kernel).versions.known().contains((name, p.1)) || versions@.contains(p.1)));
                    } else {
                        assert(kernel.versions.known().contains((p.0, p.1)) == old(kernel).versions.known().contains((p.0, p.1)));
                    }
                }
                assert(kernel.versions.known() =~= refreshed_known(
                    old(kernel).versions.known(),
                    name,
                    versions@,
                ));
                self.resolve(kernel)
            },
        }
    }

    /// Takes the outcome of a download (`None` when it failed) and asks for
    /// the artifact to be unpacked. No table changes here.
    pub fn on_download(&mut self, outcome: Option<Fetched>) -> (a: Action)
        ensures
            final(self).manifest == old(self).manifest,
            final(self).req == old(self).req,
            old(self).phase is Downloading && outcome is None ==> a == Action::Fail(
                InstallError::DownloadFailed,
            ) && final(self).phase == Phase::Failed,
            old(self).phase is Downloading && outcome is Some ==> a == (Action::Extract {
                compressed: outcome->0.compressed,
                target: outcome->0.unpacked,
            }) && final(self).phase == (Phase::Extracting {
                version: outcome->0.version,
                path: outcome->0.unpacked,
            }),
            !(old(self).phase is Downloading) ==> a == Action::Fail(InstallError::OutOfOrder)
                && final(self).phase == old(self).phase,
    {
        match self.phase {
            Phase::Downloading { .. } => {},
            _ => {
                return Action::Fail(InstallError::OutOfOrder);
            },
        }
        match outcome {
            None => {
                self.phase = Phase::Failed;
                Action::Fail(InstallError::DownloadFailed)
            },
            Some(f) => {
                self.phase = Phase::Extracting { version: f.version, path: f.unpacked.clone() };
                Action::Extract { compressed: f.compressed, target: f.unpacked }
            },
        }
    }

    /// Takes the outcome of unpacking. On success the artifact enters the
    /// download cache, the package is registered at the downloaded version (in
    /// the registry and in the index), and launchers are asked for. On failure
    /// no table changes.
    pub fn on_extract(&mut self, kernel: &mut Kernel, ok: bool) -> (a: Action)
        requires
            old(kernel).wf(),
        ensures
            final(kernel).wf(),
            final(self).manifest == old(self).manifest,
            final(self).req == old(self).req,
            final(kernel).versions.fresh() == old(kernel).versions.fresh(),
            old(self).phase is Extracting && ok ==> ({
                let n = old(self).manifest.name@;
                let v = old(self).phase->Extracting_version;
                let p = old(self).phase->Extracting_path@;
                &&& holds(
                    *final(kernel),
                    old(kernel).packages@.insert(n, (v, p)),
                    old(kernel).versions.known().insert((n, v)),
                    old(kernel).downloads@.insert((n, v), p),
                )
                &&& a matches Action::WriteShims(s) && is_plan(s@, old(self).manifest.executables@, p)
                &&& final(self).phase == Phase::Shimming { version: v }
            }),
            old(self).phase is Extracting && !ok ==> a == Action::Fail(InstallError::ExtractFailed)
                && final(self).phase == Phase::Failed && holds(
                *final(kernel),
                old(kernel).packages@,
                old(kernel).versions.known(),
                old(kernel).downloads@,
            ),
            !(old(self).phase is Extracting) ==> a == Action::Fail(InstallError::OutOfOrder)
                && final(self).phase == old(self).phase && holds(
                *final(kernel),
                old(kernel).packages@,
                old(kernel).versions.known(),
                old(kernel).downloads@,
            ),
    {
        let (v, path) = match &self.phase {
            Phase::Extracting { version, path } => (*version, path.clone()),
            _ => {
                return Action::Fail(InstallError::OutOfOrder);
            },
        };
        if !ok {
            self.phase = Phase::Failed;
            return Action::Fail(InstallError::ExtractFailed);
        }
        kernel.downloads.add_download(&self.manifest.name, v, &path);
        kernel.packages.add_package(&self.manifest.name, v, &path);
        kernel.versions.add_version(&self.manifest.name, v);
        let shims = shim_plan(&self.manifest.executables, &path);
        self.phase = Phase::Shimming { version: v };
        Action::WriteShims(shims)
    }

    /// Takes the outcome of writing the launchers. A failure is reported, but
    /// the registration made before stands.
    pub fn on_shims(&mut self, ok: bool) -> (a: Action)
        ensures
            final(self).manifest == old(self).manifest,
            final(self).req == old(self).req,
            old(self).phase is Shimming && ok ==> a == Action::Installed(
                old(self).phase->Shimming_version,
            ) && final(self).phase == Phase::Done,
            old(self).phase is Shimming && !ok ==> a == Action::Fail(InstallError::ShimWriteFailed)
                && final(self).phase == Phase::Failed,
            !(old(self).phase is Shimming) ==> a == Action::Fail(InstallError::OutOfOrder)
                && final(self).phase == old(self).phase,
    {
        let v = match self.phase {
            Phase::Shimming { version } => version,
            _ => {
                return Action::Fail(InstallError::OutOfOrder);
            },
        };
        if ok {
            self.phase = Phase::Done;
            Action::Installed(v)
        } else {
            self.phase = Phase::Failed;
            Action::Fail(InstallError::ShimWriteFailed)
        }
    }
}

} // verus!
