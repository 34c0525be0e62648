use dep_session::config::{Config, Dependency, Locked, LockedPackage, LockedSource, Manifest, Package};
use dep_session::constraint::DependencyConstraint;
use dep_session::error::{Error, ErrorKind};
use dep_session::io::{CheckoutAction, CheckoutJob, CheckoutPhase, CheckoutStep, SessionIo, VersionsStep};
use dep_session::mirror::Event;
use dep_session::refs::DependencyVersions;
use dep_session::session::{Session, SessionArenas};

fn manifest() -> Manifest {
    Manifest { package: Package { name: "top".to_string() }, dependencies: Vec::new() }
}

fn config() -> Config {
    Config { database: "/db".to_string() }
}

fn locked_git(name: &str, url: &str, revision: Option<&str>) -> Locked {
    Locked {
        packages: vec![(
            name.to_string(),
            LockedPackage {
                revision: revision.map(String::from),
                version: None,
                source: LockedSource::Git(url.to_string()),
            },
        )],
    }
}

#[test]
fn path_dependency_needs_nothing_from_outside() {
    let (m, c, arenas) = (manifest(), config(), SessionArenas::new());
    let mut sess = Session::new("/top", &m, &c, &arenas);
    let id = sess.load_dependency("local", &Dependency::Path("/some/where".to_string()), &m);
    let mut io = SessionIo::new(sess);
    assert!(matches!(
        io.dependency_versions(id),
        Ok(VersionsStep::Done(DependencyVersions::Path))
    ));
    let first = match io.checkout(id) {
        Ok(CheckoutStep::Ready(path)) => path,
        other => panic!("unexpected step {:?}", other),
    };
    assert_eq!(first, "/some/where");
    let second = match io.checkout(id) {
        Ok(CheckoutStep::Ready(path)) => path,
        other => panic!("unexpected step {:?}", other),
    };
    assert!(std::ptr::eq(first, second));
    assert_eq!(arenas.path.len(), 1);
}

#[test]
fn git_dependency_needs_its_mirror() {
    let (m, c, arenas) = (manifest(), config(), SessionArenas::new());
    let mut sess = Session::new("/top", &m, &c, &arenas);
    let id = sess.load_dependency(
        "a",
        &Dependency::GitVersion("https://example.com/a.git".to_string(), "1".to_string()),
        &m,
    );
    let io = SessionIo::new(sess);
    match io.dependency_versions(id) {
        Ok(VersionsStep::Mirror { location, url }) => {
            assert_eq!(location, vec!["git", "db", "a-05dea89bc1025237"]);
            assert_eq!(url, "https://example.com/a.git");
        }
        other => panic!("unexpected step {:?}", other),
    }
    assert_eq!(
        io.git_database("a", "https://example.com/b.git"),
        vec!["git", "db", "a-ac91cc91486b4007"]
    );
}

#[test]
fn registry_dependency_is_not_supported() {
    let (m, c, arenas) = (manifest(), config(), SessionArenas::new());
    let mut sess = Session::new("/top", &m, &c, &arenas);
    let id = sess.load_dependency("r", &Dependency::Version("1.0".to_string()), &m);
    let mut io = SessionIo::new(sess);
    let e = io.dependency_versions(id).unwrap_err();
    assert_eq!(e.kind, ErrorKind::Unsupported);
    assert_eq!(
        e.msg,
        "not yet implemented: determine available versions of registry dependency"
    );
    let e = io.checkout(id).unwrap_err();
    assert_eq!(e.kind, ErrorKind::Unsupported);
    assert_eq!(e.msg, "not yet implemented: checkout of registry dependency");
}

#[test]
fn checkout_directory_belongs_to_one_project() {
    let (m, c, arenas) = (manifest(), config(), SessionArenas::new());
    let step_for = |root: &'static str| {
        let mut sess = Session::new(root, &m, &c, &arenas);
        sess.load_locked(&locked_git("a", "https://example.com/a.git", Some("abc123")));
        let id = sess.dependency_with_name("a").unwrap();
        let mut io = SessionIo::new(sess);
        match io.checkout(id) {
            Ok(CheckoutStep::Git { location, url, revision }) => {
                assert_eq!(url, "https://example.com/a.git");
                assert_eq!(revision, "abc123");
                location
            }
            other => panic!("unexpected step {:?}", other),
        }
    };
    let one = step_for("/home/user/one");
    let two = step_for("/home/user/two");
    assert_eq!(one, vec!["git", "checkouts", "a-43da1a72d1461746"]);
    assert_eq!(two, vec!["git", "checkouts", "a-eaf844efac50e857"]);
    assert_eq!(step_for("/home/user/one"), one);
}

#[test]
fn git_dependency_without_a_revision_cannot_be_checked_out() {
    let (m, c, arenas) = (manifest(), config(), SessionArenas::new());
    let mut sess = Session::new("/top", &m, &c, &arenas);
    let id = sess.load_dependency(
        "a",
        &Dependency::GitRevision("https://example.com/a.git".to_string(), "abc".to_string()),
        &m,
    );
    let mut io = SessionIo::new(sess);
    let e = io.checkout(id).unwrap_err();
    assert_eq!(e.kind, ErrorKind::Invalid);
    assert_eq!(e.msg, "No revision was picked for dependency `a`.");
    assert_eq!(arenas.path.len(), 0);
}

#[test]
fn checkout_of_a_revision_fails_for_now() {
    let (m, c, arenas) = (manifest(), config(), SessionArenas::new());
    let mut sess = Session::new("/top", &m, &c, &arenas);
    let dir = sess.intern_path("/db/git/checkouts/a-43da1a72d1461746".to_string());
    let io = SessionIo::new(sess);
    let e = io.checkout_git(dir, "https://example.com/a.git", "abc123").unwrap_err();
    assert_eq!(e.kind, ErrorKind::Unsupported);
    assert_eq!(e.msg, "Checkout of git dependency not implemented");

    let (mut job, first) =
        CheckoutJob::new(dir, "https://example.com/a.git".to_string(), "abc123".to_string());
    assert_eq!(first, CheckoutAction::CreateDir);
    assert_eq!(job.phase, CheckoutPhase::CreateDir);
    assert_eq!(job.step(&io, Event::Succeeded), CheckoutAction::Fail(e));
    assert_eq!(job.phase, CheckoutPhase::Failed);
    assert!(matches!(job.step(&io, Event::Succeeded), CheckoutAction::Fail(_)));
}

#[test]
fn checkout_directory_that_cannot_be_made_ends_the_job() {
    let (m, c, arenas) = (manifest(), config(), SessionArenas::new());
    let mut sess = Session::new("/top", &m, &c, &arenas);
    let dir = sess.intern_path("/db/git/checkouts/a".to_string());
    let io = SessionIo::new(sess);
    let (mut job, _) = CheckoutJob::new(dir, "u".to_string(), "r".to_string());
    let cause = Error::new(ErrorKind::Environment, "read-only file system".to_string());
    assert_eq!(
        job.step(&io, Event::Failed(cause)),
        CheckoutAction::Fail(Error {
            kind: ErrorKind::Environment,
            msg: "Failed to create git checkout directory \"/db/git/checkouts/a\".".to_string(),
            causes: vec!["read-only file system".to_string()],
        })
    );
    assert_eq!(job.phase, CheckoutPhase::Failed);
    let (mut other, _) = CheckoutJob::new(dir, "u".to_string(), "r".to_string());
    match other.step(&io, Event::Found(true)) {
        CheckoutAction::Fail(e) => assert_eq!(e.kind, ErrorKind::Misuse),
        action => panic!("unexpected action {:?}", action),
    }
}

#[test]
fn constraint_follows_the_declaration() {
    let path = Dependency::Path("/p".to_string());
    let version = Dependency::Version(">=1.2".to_string());
    let git_version = Dependency::GitVersion("u".to_string(), "^2".to_string());
    let git_revision = Dependency::GitRevision("u".to_string(), "abc123".to_string());
    assert_eq!(DependencyConstraint::from(&path), DependencyConstraint::Path);
    assert_eq!(
        DependencyConstraint::from(&version),
        DependencyConstraint::Version(">=1.2".to_string())
    );
    assert_eq!(
        DependencyConstraint::from(&git_version),
        DependencyConstraint::Version("^2".to_string())
    );
    assert_eq!(
        DependencyConstraint::from(&git_revision),
        DependencyConstraint::Revision("abc123".to_string())
    );
    assert_eq!(DependencyConstraint::from(&path).to_string(), "path");
    assert_eq!(DependencyConstraint::from(&version).to_string(), ">=1.2");
    assert_eq!(DependencyConstraint::from(&git_revision).to_string(), "abc123");
}
