use dep_session::config::{Config, Dependency, Locked, LockedPackage, LockedSource, Manifest, Package};
use dep_session::error::ErrorKind;
use dep_session::session::{Session, SessionArenas};
use dep_session::table::{DependencyEntry, DependencyRef, DependencySource};
use dep_session::version::Version;

fn manifest() -> Manifest {
    Manifest { package: Package { name: "top".to_string() }, dependencies: Vec::new() }
}

fn config() -> Config {
    Config { database: "/db".to_string() }
}

fn package(source: LockedSource, revision: Option<&str>, version: Option<&str>) -> LockedPackage {
    LockedPackage {
        revision: revision.map(String::from),
        version: version.map(String::from),
        source,
    }
}

#[test]
fn declarations_are_classified_by_source() {
    let (m, c, arenas) = (manifest(), config(), SessionArenas::new());
    let mut sess = Session::new("/top", &m, &c, &arenas);
    let a = sess.load_dependency("a", &Dependency::Version(">=1.0".to_string()), &m);
    let b = sess.load_dependency("b", &Dependency::Path("/b".to_string()), &m);
    let g = sess.load_dependency(
        "g",
        &Dependency::GitRevision("https://example.com/g.git".to_string(), "abc".to_string()),
        &m,
    );
    let h = sess.load_dependency(
        "h",
        &Dependency::GitVersion("https://example.com/h.git".to_string(), "1.2".to_string()),
        &m,
    );
    assert_eq!(sess.dependency_source(a), DependencySource::Registry);
    assert_eq!(sess.dependency_source(b), DependencySource::Path("/b".to_string()));
    assert_eq!(
        sess.dependency_source(g),
        DependencySource::Git("https://example.com/g.git".to_string())
    );
    assert_eq!(
        sess.dependency_source(h),
        DependencySource::Git("https://example.com/h.git".to_string())
    );
    assert_eq!(
        sess.dependency(g),
        &DependencyEntry {
            name: "g".to_string(),
            source: DependencySource::Git("https://example.com/g.git".to_string()),
            revision: None,
            version: None,
        }
    );
    assert_eq!(sess.dependency_count(), 4);
    assert_eq!(sess.load_dependency("b", &Dependency::Path("/b".to_string()), &m), b);
    assert_eq!(sess.dependency_count(), 4);
}

#[test]
fn session_keeps_what_it_was_made_with() {
    let (m, c, arenas) = (manifest(), config(), SessionArenas::new());
    let sess = Session::new("/top", &m, &c, &arenas);
    assert_eq!(sess.root(), "/top");
    assert_eq!(sess.root, "/top");
    assert_eq!(sess.config().database, "/db");
    assert_eq!(sess.manifest().package.name, "top");
    assert_eq!(sess.dependency_count(), 0);
}

#[test]
fn locked_name_resolves_to_its_package() {
    let (m, c, arenas) = (manifest(), config(), SessionArenas::new());
    let mut sess = Session::new("/top", &m, &c, &arenas);
    let locked = Locked {
        packages: vec![
            (
                "foo".to_string(),
                package(
                    LockedSource::Git("https://example.com/foo.git".to_string()),
                    Some("abc123"),
                    Some("1.2.3"),
                ),
            ),
            ("bar".to_string(), package(LockedSource::Path("/bar".to_string()), None, None)),
            ("baz".to_string(), package(LockedSource::Registry("0.3.0".to_string()), None, Some("0.3.0"))),
        ],
    };
    sess.load_locked(&locked);
    let foo = sess.dependency_with_name("foo").unwrap();
    assert_eq!(
        sess.dependency(foo),
        &DependencyEntry {
            name: "foo".to_string(),
            source: DependencySource::Git("https://example.com/foo.git".to_string()),
            revision: Some("abc123".to_string()),
            version: Version::parse("1.2.3"),
        }
    );
    let bar = sess.dependency_with_name("bar").unwrap();
    assert_eq!(sess.dependency_source(bar), DependencySource::Path("/bar".to_string()));
    let baz = sess.dependency_with_name("baz").unwrap();
    assert_eq!(sess.dependency_source(baz), DependencySource::Registry);
    assert_eq!(sess.dependency(baz).version, Version::parse("0.3.0"));
    assert_eq!((foo, bar, baz), (DependencyRef(0), DependencyRef(1), DependencyRef(2)));
}

#[test]
fn name_that_is_not_locked_is_not_found() {
    let (m, c, arenas) = (manifest(), config(), SessionArenas::new());
    let mut sess = Session::new("/top", &m, &c, &arenas);
    sess.load_dependency("foo", &Dependency::Path("/foo".to_string()), &m);
    let e = sess.dependency_with_name("foo").unwrap_err();
    assert_eq!(e.kind, ErrorKind::NotDeclared);
    assert_eq!(
        e.msg,
        "Dependency `foo` does not exist. Did you forget to add it to the manifest?"
    );
    assert!(e.causes.is_empty());
    sess.load_locked(&Locked {
        packages: vec![("foo".to_string(), package(LockedSource::Path("/foo".to_string()), None, None))],
    });
    assert!(sess.dependency_with_name("foo").is_ok());
    assert_eq!(sess.dependency_with_name("fo").unwrap_err().kind, ErrorKind::NotDeclared);
}

#[test]
fn lock_file_replaces_the_names_of_the_one_before() {
    let (m, c, arenas) = (manifest(), config(), SessionArenas::new());
    let mut sess = Session::new("/top", &m, &c, &arenas);
    sess.load_locked(&Locked {
        packages: vec![
            ("old".to_string(), package(LockedSource::Path("/old".to_string()), None, None)),
            ("both".to_string(), package(LockedSource::Path("/both".to_string()), None, None)),
        ],
    });
    let both = sess.dependency_with_name("both").unwrap();
    sess.load_locked(&Locked {
        packages: vec![
            ("new".to_string(), package(LockedSource::Path("/new".to_string()), None, None)),
            ("both".to_string(), package(LockedSource::Path("/both".to_string()), None, None)),
        ],
    });
    assert!(sess.dependency_with_name("old").is_err());
    assert_eq!(sess.dependency_with_name("both"), Ok(both));
    assert_eq!(sess.dependency_with_name("new"), Ok(DependencyRef(2)));
    assert_eq!(sess.dependency_count(), 3);
    assert_eq!(sess.dependency(DependencyRef(0)).name, "old");
}

#[test]
fn locked_package_differs_from_its_declaration() {
    let (m, c, arenas) = (manifest(), config(), SessionArenas::new());
    let mut sess = Session::new("/top", &m, &c, &arenas);
    let declared = sess.load_dependency(
        "foo",
        &Dependency::GitRevision("https://example.com/foo.git".to_string(), "abc123".to_string()),
        &m,
    );
    sess.load_locked(&Locked {
        packages: vec![(
            "foo".to_string(),
            package(LockedSource::Git("https://example.com/foo.git".to_string()), Some("abc123"), None),
        )],
    });
    let locked = sess.dependency_with_name("foo").unwrap();
    assert_ne!(declared, locked);
    assert_eq!(sess.dependency(declared).revision, None);
    assert_eq!(sess.dependency(locked).revision, Some("abc123".to_string()));
}

#[test]
fn later_package_of_a_name_counts() {
    let (m, c, arenas) = (manifest(), config(), SessionArenas::new());
    let mut sess = Session::new("/top", &m, &c, &arenas);
    sess.load_locked(&Locked {
        packages: vec![
            ("foo".to_string(), package(LockedSource::Path("/one".to_string()), None, None)),
            ("foo".to_string(), package(LockedSource::Path("/two".to_string()), None, None)),
        ],
    });
    let foo = sess.dependency_with_name("foo").unwrap();
    assert_eq!(sess.dependency_source(foo), DependencySource::Path("/two".to_string()));
    assert_eq!(sess.dependency_count(), 2);
}

#[test]
fn lock_file_with_a_bad_version_is_refused_whole() {
    let (m, c, arenas) = (manifest(), config(), SessionArenas::new());
    let mut sess = Session::new("/top", &m, &c, &arenas);
    sess.load_locked(&Locked {
        packages: vec![("kept".to_string(), package(LockedSource::Path("/kept".to_string()), None, None))],
    });
    let bad = Locked {
        packages: vec![
            ("fine".to_string(), package(LockedSource::Registry("1.0.0".to_string()), None, Some("1.0.0"))),
            ("odd".to_string(), package(LockedSource::Registry("x".to_string()), None, Some("one.two"))),
            ("worse".to_string(), package(LockedSource::Registry("x".to_string()), None, Some(""))),
        ],
    };
    let e = sess.try_load_locked(&bad).unwrap_err();
    assert_eq!(e.kind, ErrorKind::Invalid);
    assert_eq!(e.msg, "Package `odd` is locked to `one.two`, which is not a version.");
    assert_eq!(sess.dependency_count(), 1);
    assert!(sess.dependency_with_name("kept").is_ok());
    assert!(sess.dependency_with_name("fine").is_err());
    let good = Locked {
        packages: vec![(
            "fine".to_string(),
            package(LockedSource::Registry("1.0.0".to_string()), None, Some("1.0.0")),
        )],
    };
    assert_eq!(sess.try_load_locked(&good), Ok(()));
    assert_eq!(sess.dependency_with_name("fine"), Ok(DependencyRef(1)));
    assert!(sess.dependency_with_name("kept").is_err());
}

#[test]
fn interned_path_is_kept_once() {
    let (m, c, arenas) = (manifest(), config(), SessionArenas::new());
    let mut sess = Session::new("/top", &m, &c, &arenas);
    let first = sess.intern_path("/some/where".to_string());
    let other = sess.intern_path("/some/where/else".to_string());
    let second = sess.intern_path(String::from("/some/") + "where");
    assert_eq!(first, "/some/where");
    assert_eq!(first, second);
    assert!(std::ptr::eq(first, second));
    assert_eq!(other, "/some/where/else");
    assert_ne!(first, other);
    assert!(!std::ptr::eq(first, other));
    assert_eq!(arenas.path.len(), 2);
}

#[test]
fn interned_path_outlives_the_session() {
    let (m, c, arenas) = (manifest(), config(), SessionArenas::new());
    let kept = {
        let mut sess = Session::new("/top", &m, &c, &arenas);
        sess.intern_path("/kept".to_string())
    };
    assert_eq!(kept, "/kept");
}
