use just_install::install::{
    missing_package_message, shim_plan, Action, Fetched, Install, InstallError, Manifest, Phase,
};
use just_install::kernel::{DownloadCache, Kernel, Registry, VersionIndex};
use just_install::version::{Requirement, Version};

fn s(x: &str) -> String {
    x.to_string()
}

fn kernel() -> Kernel {
    Kernel::new(s("/cache"), s("/install"))
}

fn foo_manifest() -> Manifest {
    Manifest { name: s("foo"), executables: vec![s("foo"), s("foo-helper")] }
}

fn any() -> Requirement {
    Requirement::any()
}

fn req(text: &str) -> Requirement {
    Requirement::parse(text).unwrap()
}

#[test]
fn version_order_is_lexicographic() {
    assert!(Version::new(1, 2, 3).le(&Version::new(1, 3, 0)));
    assert!(Version::new(1, 2, 3).le(&Version::new(1, 2, 3)));
    assert!(!Version::new(2, 0, 0).le(&Version::new(1, 9, 9)));
    assert!(Version::new(0, 9, 9).le(&Version::new(1, 0, 0)));
}

#[test]
fn requirement_admits_through_semver() {
    let tilde = req("~1.2");
    assert!(tilde.admits(&Version::new(1, 2, 3)));
    assert!(!tilde.admits(&Version::new(1, 3, 0)));
    assert!(!tilde.admits(&Version::new(1, 0, 0)));
    let caret = req("^1.2");
    assert!(caret.admits(&Version::new(1, 3, 0)));
    assert!(!caret.admits(&Version::new(2, 0, 0)));
    assert!(any().admits(&Version::new(0, 0, 1)));
}

#[test]
fn invalid_requirement_is_refused() {
    assert!(Requirement::parse("not a version").is_err());
    assert!(Requirement::parse(">=1.0 <2.0").is_err());
    assert!(Requirement::parse(">=1.0, <2.0").is_ok());
    assert!(Requirement::from_option(None).unwrap().admits(&Version::new(9, 9, 9)));
    assert!(Requirement::from_option(Some("@1.0.0")).is_err());
}

#[test]
fn highest_match_resolution() {
    let mut idx = VersionIndex::new();
    let foo = s("foo");
    idx.add_version(&foo, Version::new(1, 0, 0));
    idx.add_version(&foo, Version::new(1, 2, 3));
    idx.add_version(&foo, Version::new(1, 3, 0));
    idx.add_version(&s("bar"), Version::new(1, 2, 9));
    assert_eq!(idx.best_match(&foo, &req("~1.2")), Some(Version::new(1, 2, 3)));
    assert_eq!(idx.best_match(&foo, &any()), Some(Version::new(1, 3, 0)));
    assert_eq!(idx.best_match(&foo, &req(">=3")), None);
    assert_eq!(idx.best_match(&s("baz"), &any()), None);
}

#[test]
fn index_adds_each_version_once() {
    let mut idx = VersionIndex::new();
    let foo = s("foo");
    idx.add_version(&foo, Version::new(1, 0, 0));
    idx.add_version(&foo, Version::new(1, 0, 0));
    assert!(idx.contains(&foo, Version::new(1, 0, 0)));
    assert!(!idx.contains(&foo, Version::new(1, 0, 1)));
    assert!(!idx.contains(&s("bar"), Version::new(1, 0, 0)));
}

#[test]
fn stale_index_refresh() {
    let mut idx = VersionIndex::new();
    let foo = s("foo");
    assert!(idx.needs_fetch(&foo));
    idx.add_version(&foo, Version::new(0, 1, 0));
    assert!(idx.needs_fetch(&foo));
    idx.record_refresh(&foo, &vec![Version::new(1, 0, 0), Version::new(2, 0, 0)]);
    assert!(!idx.needs_fetch(&foo));
    assert!(idx.needs_fetch(&s("bar")));
    assert!(idx.contains(&foo, Version::new(0, 1, 0)));
    assert!(idx.contains(&foo, Version::new(2, 0, 0)));
    idx.record_refresh(&foo, &vec![]);
    assert!(!idx.needs_fetch(&foo));
}

#[test]
fn registry_keeps_one_version_per_package() {
    let mut reg = Registry::new();
    let foo = s("foo");
    assert_eq!(reg.get_package_version(&foo), None);
    assert!(!reg.is_installed(&foo, &any()));
    reg.add_package(&foo, Version::new(1, 0, 0), &s("/install/foo-1"));
    reg.add_package(&s("bar"), Version::new(3, 0, 0), &s("/install/bar-3"));
    reg.add_package(&foo, Version::new(2, 0, 0), &s("/install/foo-2"));
    assert_eq!(reg.get(&foo), Some((Version::new(2, 0, 0), s("/install/foo-2"))));
    assert!(reg.is_installed(&foo, &req("^2")));
    assert!(!reg.is_installed(&foo, &req("^1")));
    assert_eq!(reg.get_package_version(&s("bar")), Some(Version::new(3, 0, 0)));
}

#[test]
fn cache_returns_highest_admitted_download() {
    let mut dl = DownloadCache::new();
    let foo = s("foo");
    assert_eq!(dl.get_download(&foo, &any()), None);
    dl.add_download(&foo, Version::new(1, 0, 0), &s("/cache/foo-1.0.0"));
    dl.add_download(&foo, Version::new(1, 4, 0), &s("/cache/foo-1.4.0"));
    dl.add_download(&foo, Version::new(2, 0, 0), &s("/cache/foo-2.0.0"));
    dl.add_download(&foo, Version::new(1, 4, 0), &s("/cache/foo-1.4.0b"));
    assert_eq!(dl.get_download(&foo, &req("^1")), Some((Version::new(1, 4, 0), s("/cache/foo-1.4.0b"))));
    assert_eq!(dl.get_download(&foo, &any()), Some((Version::new(2, 0, 0), s("/cache/foo-2.0.0"))));
    assert_eq!(dl.get_download(&foo, &req("^3")), None);
    assert_eq!(dl.get_download(&s("bar"), &any()), None);
}

#[test]
fn shim_plan_covers_every_executable() {
    let plan = shim_plan(&vec![s("a"), s("b")], &s("/install/foo"));
    assert_eq!(plan.len(), 2);
    assert_eq!(plan[0].executable, "a");
    assert_eq!(plan[1].executable, "b");
    assert_eq!(plan[1].package_path, "/install/foo");
    assert!(shim_plan(&vec![], &s("/x")).is_empty());
}

#[test]
fn end_to_end_fresh_install() {
    let mut k = kernel();
    let mut inst = Install::new(foo_manifest(), any());
    assert!(matches!(inst.start(&mut k), Action::Refresh));
    let a = inst.on_refresh(&mut k, Some(vec![Version::new(1, 0, 0), Version::new(2, 0, 0)]));
    assert!(matches!(a, Action::Download(v) if v == Version::new(2, 0, 0)));
    let a = inst.on_download(Some(Fetched {
        version: Version::new(2, 0, 0),
        compressed: s("/cache/foo-2.0.0.tar.gz"),
        unpacked: s("/install/foo-2.0.0"),
    }));
    match a {
        Action::Extract { compressed, target } => {
            assert_eq!(compressed, "/cache/foo-2.0.0.tar.gz");
            assert_eq!(target, "/install/foo-2.0.0");
        }
        _ => panic!("expected an extraction"),
    }
    match inst.on_extract(&mut k, true) {
        Action::WriteShims(shims) => {
            assert_eq!(shims.len(), 2);
            assert_eq!(shims[0].executable, "foo");
            assert_eq!(shims[1].executable, "foo-helper");
            assert!(shims.iter().all(|x| x.package_path == "/install/foo-2.0.0"));
        }
        _ => panic!("expected launchers"),
    }
    assert!(matches!(inst.on_shims(true), Action::Installed(v) if v == Version::new(2, 0, 0)));
    assert!(matches!(inst.phase, Phase::Done));
    assert_eq!(k.packages.get(&s("foo")), Some((Version::new(2, 0, 0), s("/install/foo-2.0.0"))));
    assert!(k.versions.contains(&s("foo"), Version::new(2, 0, 0)));
    assert_eq!(
        k.downloads.get_download(&s("foo"), &any()),
        Some((Version::new(2, 0, 0), s("/install/foo-2.0.0")))
    );
}

fn installed_kernel() -> Kernel {
    let mut k = kernel();
    let mut inst = Install::new(foo_manifest(), any());
    inst.start(&mut k);
    inst.on_refresh(&mut k, Some(vec![Version::new(1, 0, 0)]));
    inst.on_download(Some(Fetched {
        version: Version::new(1, 0, 0),
        compressed: s("/cache/foo.tgz"),
        unpacked: s("/install/foo-1.0.0"),
    }));
    inst.on_extract(&mut k, true);
    inst.on_shims(true);
    k
}

#[test]
fn second_install_is_a_no_op() {
    let mut k = installed_kernel();
    let mut again = Install::new(foo_manifest(), req("^1"));
    assert!(matches!(again.start(&mut k), Action::AlreadyInstalled(v) if v == Version::new(1, 0, 0)));
    assert!(matches!(again.phase, Phase::Done));
    assert_eq!(k.packages.get(&s("foo")), Some((Version::new(1, 0, 0), s("/install/foo-1.0.0"))));
    assert!(matches!(again.on_download(None), Action::Fail(InstallError::OutOfOrder)));
}

#[test]
fn cached_artifact_is_used_without_download() {
    let mut k = kernel();
    k.downloads.add_download(&s("foo"), Version::new(1, 1, 0), &s("/cache/foo-1.1.0"));
    k.downloads.add_download(&s("foo"), Version::new(1, 5, 0), &s("/cache/foo-1.5.0"));
    let mut inst = Install::new(foo_manifest(), req("~1.1"));
    assert!(matches!(inst.start(&mut k), Action::Refresh));
    match inst.on_refresh(&mut k, Some(vec![Version::new(1, 1, 0), Version::new(1, 1, 7)])) {
        Action::WriteShims(shims) => {
            assert_eq!(shims.len(), 2);
            assert_eq!(shims[0].package_path, "/cache/foo-1.1.0");
        }
        _ => panic!("expected launchers from the cache"),
    }
    assert!(matches!(inst.phase, Phase::Shimming { version } if version == Version::new(1, 1, 0)));
    assert_eq!(k.packages.get(&s("foo")), Some((Version::new(1, 1, 0), s("/cache/foo-1.1.0"))));
    assert!(matches!(inst.on_shims(true), Action::Installed(v) if v == Version::new(1, 1, 0)));
}

#[test]
fn extract_failure_leaves_tables_untouched() {
    let mut k = kernel();
    let mut inst = Install::new(foo_manifest(), any());
    inst.start(&mut k);
    inst.on_refresh(&mut k, Some(vec![]));
    assert!(!k.versions.contains(&s("foo"), Version::new(3, 0, 0)));
    let mut k2 = kernel();
    k2.versions.add_version(&s("foo"), Version::new(3, 0, 0));
    let mut inst2 = Install::new(foo_manifest(), any());
    assert!(matches!(inst2.start(&mut k2), Action::Refresh));
    assert!(matches!(inst2.on_refresh(&mut k2, Some(vec![])), Action::Download(_)));
    inst2.on_download(Some(Fetched {
        version: Version::new(3, 1, 0),
        compressed: s("/cache/foo.tgz"),
        unpacked: s("/install/foo-3.1.0"),
    }));
    assert!(matches!(inst2.on_extract(&mut k2, false), Action::Fail(InstallError::ExtractFailed)));
    assert!(matches!(inst2.phase, Phase::Failed));
    assert_eq!(k2.packages.get_package_version(&s("foo")), None);
    assert!(!k2.versions.contains(&s("foo"), Version::new(3, 1, 0)));
    assert_eq!(k2.downloads.get_download(&s("foo"), &any()), None);
}

#[test]
fn unknown_package_is_not_fatal() {
    let r = Install::for_package(&s("doesnotexist"), None, any());
    let e = match r {
        Err(e) => e,
        Ok(_) => panic!("expected a missing manifest"),
    };
    assert_eq!(e, InstallError::ManifestNotFound);
    assert!(!e.is_fatal());
    assert_eq!(missing_package_message("doesnotexist"), "Package \"doesnotexist\" does not exist");
    assert!(Install::for_package(&s("foo"), Some(foo_manifest()), any()).is_ok());
}

#[test]
fn errors_other_than_missing_manifest_are_fatal() {
    for e in [
        InstallError::FetchFailed,
        InstallError::NoMatchingVersion,
        InstallError::DownloadFailed,
        InstallError::ExtractFailed,
        InstallError::ShimWriteFailed,
        InstallError::OutOfOrder,
    ] {
        assert!(e.is_fatal());
    }
}

#[test]
fn refresh_failure_is_reported() {
    let mut k = kernel();
    k.versions.add_version(&s("foo"), Version::new(1, 0, 0));
    let mut inst = Install::new(foo_manifest(), any());
    inst.start(&mut k);
    assert!(matches!(inst.on_refresh(&mut k, None), Action::Fail(InstallError::FetchFailed)));
    assert!(k.versions.needs_fetch(&s("foo")));
    assert!(k.versions.contains(&s("foo"), Version::new(1, 0, 0)));
}

#[test]
fn no_matching_version_fails() {
    let mut k = kernel();
    let mut inst = Install::new(foo_manifest(), req("^5"));
    inst.start(&mut k);
    let a = inst.on_refresh(&mut k, Some(vec![Version::new(1, 0, 0)]));
    assert!(matches!(a, Action::Fail(InstallError::NoMatchingVersion)));
    assert!(matches!(inst.phase, Phase::Failed));
}

#[test]
fn fresh_index_resolves_without_refresh() {
    let mut k = kernel();
    k.versions.record_refresh(&s("foo"), &vec![Version::new(0, 3, 0)]);
    let mut inst = Install::new(foo_manifest(), any());
    assert!(matches!(inst.start(&mut k), Action::Download(v) if v == Version::new(0, 3, 0)));
    assert!(matches!(inst.start(&mut k), Action::Fail(InstallError::OutOfOrder)));
}

#[test]
fn download_failure_is_reported() {
    let mut k = kernel();
    let mut inst = Install::new(foo_manifest(), any());
    inst.start(&mut k);
    inst.on_refresh(&mut k, Some(vec![Version::new(1, 0, 0)]));
    assert!(matches!(inst.on_download(None), Action::Fail(InstallError::DownloadFailed)));
    assert_eq!(k.packages.get_package_version(&s("foo")), None);
}

#[test]
fn shim_failure_keeps_registration() {
    let mut k = kernel();
    let mut inst = Install::new(foo_manifest(), any());
    inst.start(&mut k);
    inst.on_refresh(&mut k, Some(vec![Version::new(1, 0, 0)]));
    inst.on_download(Some(Fetched {
        version: Version::new(1, 0, 0),
        compressed: s("/cache/foo.tgz"),
        unpacked: s("/install/foo-1.0.0"),
    }));
    inst.on_extract(&mut k, true);
    assert!(matches!(inst.on_shims(false), Action::Fail(InstallError::ShimWriteFailed)));
    assert_eq!(k.packages.get_package_version(&s("foo")), Some(Version::new(1, 0, 0)));
}
