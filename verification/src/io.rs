//! What has to happen outside the session for a dependency: which mirror to
//! bring up to date before its versions can be read, and which directory to
//! prepare before it can be checked out.

use crate::digest::{checkout_dir_name, checkout_name, mirror_dir_name, mirror_name};
use crate::error::{Error, ErrorKind, ErrorView};
use crate::mirror::{fail_in, failed_in, mislead, misled, Event, EventView};
use crate::refs::DependencyVersions;
use crate::session::{interned_with, Session};
use crate::table::{DependencyRef, DependencySource, SourceView};
use vstd::prelude::*;

verus! {

/// Where the mirror of `url` for the dependency `name` lies below the
/// database of the tool, one directory after the other.
pub open spec fn mirror_location(name: Seq<char>, url: Seq<char>) -> Seq<Seq<char>> {
    seq!["git"@, "db"@, mirror_name(name, url)]
}

/// Where the checkout of `url` for the dependency `name` of the project at
/// `root` lies below the database of the tool.
pub open spec fn checkout_location(name: Seq<char>, url: Seq<char>, root: Seq<char>) -> Seq<
    Seq<char>,
> {
    seq!["git"@, "checkouts"@, checkout_name(name, url, root)]
}

/// The failure of an operation that is not there for a kind of dependency.
pub open spec fn unsupported(what: Seq<char>) -> ErrorView {
    ErrorView { kind: ErrorKind::Unsupported, msg: what, causes: Seq::empty() }
}

/// The failure of a checkout of a git dependency for which no revision was
/// picked.
pub open spec fn unpinned(name: Seq<char>) -> ErrorView {
    ErrorView {
        kind: ErrorKind::Invalid,
        msg: "No revision was picked for dependency `"@ + name + "`."@,
        causes: Seq::empty(),
    }
}

/// What is to be done to learn the versions of a dependency.
#[derive(Debug)]
pub enum VersionsStep {
    /// Nothing: these are the versions.
    Done(DependencyVersions),
    /// The mirror of `url` at `location` is to be brought up to date; its
    /// references and revisions then give the versions.
    Mirror { location: Vec<String>, url: String },
}

/// What is to be done to check a dependency out.
#[derive(Debug)]
pub enum CheckoutStep<'ctx> {
    /// Nothing: the dependency lies at this path.
    Ready(&'ctx str),
    /// The directory at `location` is to be prepared and `revision` of `url`
    /// is to be checked out into it.
    Git { location: Vec<String>, url: String, revision: String },
}

/// What `dependency_versions` answers for a descriptor.
pub open spec fn versions_step_for(name: Seq<char>, source: SourceView, r: Result<VersionsStep, Error>) -> bool {
    match source {
        SourceView::Path(_) => r matches Ok(VersionsStep::Done(DependencyVersions::Path)),
        SourceView::Registry => r matches Err(e) && e@ == unsupported(
            "not yet implemented: determine available versions of registry dependency"@,
        ),
        SourceView::Git(url) => r matches Ok(VersionsStep::Mirror { location, url: remote })
            && location.deep_view() == mirror_location(name, url) && remote@ == url,
    }
}

/// A session together with the steps that reach outside it.
pub struct SessionIo<'ctx> {
    /// The session.
    pub sess: Session<'ctx>,
}

impl<'ctx> SessionIo<'ctx> {
    /// Wraps a session.
    pub fn new(sess: Session<'ctx>) -> (r: SessionIo<'ctx>)
        ensures
            r.sess == sess,
    {
        SessionIo { sess: sess }
    }

    /// Where the mirror of a git dependency lies, and so which directory a
    /// mirror job for it works in.
    pub fn git_database(&self, name: &str, url: &str) -> (location: Vec<String>)
        ensures
            location.deep_view() == mirror_location(name@, url@),
    {
        let mut location: Vec<String> = Vec::new();
        location.push(String::from_str("git"));
        location.push(String::from_str("db"));
        location.push(mirror_dir_name(name, url));
        assert(location.deep_view() =~= mirror_location(name@, url@));
        location
    }

    /// Says what is to be done to learn the versions of a dependency. A
    /// path dependency has none to look for, a git dependency needs its
    /// mirror, and for a registry dependency the answer is a failure.
    pub fn dependency_versions(&self, dep_id: DependencyRef) -> (r: Result<VersionsStep, Error>)
        requires
            dep_id.0 < self.sess.table().len(),
        ensures
            versions_step_for(
                self.sess.table()[dep_id.0 as int].name,
                self.sess.table()[dep_id.0 as int].source,
                r,
            ),
    {
        let dep = self.sess.dependency(dep_id);
        match &dep.source {
            DependencySource::Registry => Err(
                Error::new(
                    ErrorKind::Unsupported,
                    String::from_str(
                        "not yet implemented: determine available versions of registry dependency",
                    ),
                ),
            ),
            DependencySource::Path(_) => Ok(VersionsStep::Done(DependencyVersions::Path)),
            DependencySource::Git(url) => Ok(
                VersionsStep::Mirror {
                    location: self.git_database(dep.name.as_str(), url.as_str()),
                    url: url.clone(),
                },
            ),
        }
    }

    /// Says what is to be done to check a dependency out. A path dependency
    /// lies where its path says; the path is interned and handed back. A
    /// git dependency needs a directory of its own for every project that
    /// uses it. For a registry dependency, and for a git dependency without
    /// a revision, the answer is a failure.
    pub fn checkout(&mut self, dep_id: DependencyRef) -> (r: Result<CheckoutStep<'ctx>, Error>)
        requires
            old(self).sess.wf(),
            dep_id.0 < old(self).sess.table().len(),
        ensures
            final(self).sess.wf(),
            final(self).sess.table() == old(self).sess.table(),
            final(self).sess.names() == old(self).sess.names(),
            final(self).sess.spec_root() == old(self).sess.spec_root(),
            match old(self).sess.table()[dep_id.0 as int].source {
                SourceView::Path(path) => {
                    &&& r matches Ok(CheckoutStep::Ready(kept))
                    &&& kept@ == path
                    &&& final(self).sess.paths() == interned_with(old(self).sess.paths(), path)
                },
                SourceView::Registry => {
                    &&& r matches Err(e)
                    &&& e@ == unsupported("not yet implemented: checkout of registry dependency"@)
                    &&& final(self).sess.paths() == old(self).sess.paths()
                },
                SourceView::Git(url) => {
                    &&& final(self).sess.paths() == old(self).sess.paths()
                    &&& match old(self).sess.table()[dep_id.0 as int].revision {
                        Some(revision) => {
                            &&& r matches Ok(CheckoutStep::Git { location, url: remote, revision: picked })
                            &&& location.deep_view() == checkout_location(
                                old(self).sess.table()[dep_id.0 as int].name,
                                url,
                                old(self).sess.spec_root(),
                            )
                            &&& remote@ == url
                            &&& picked@ == revision
                        },
                        None => r matches Err(e) && e@ == unpinned(
                            old(self).sess.table()[dep_id.0 as int].name,
                        ),
                    }
                },
            },
    {
        let dep = self.sess.dependency(dep_id).clone();
        match dep.source {
            DependencySource::Registry => Err(
                Error::new(
                    ErrorKind::Unsupported,
                    String::from_str("not yet implemented: checkout of registry dependency"),
                ),
            ),
            DependencySource::Path(path) => Ok(CheckoutStep::Ready(self.sess.intern_path(path))),
            DependencySource::Git(url) => {
                match dep.revision {
                    Some(revision) => {
                        let mut location: Vec<String> = Vec::new();
                        location.push(String::from_str("git"));
                        location.push(String::from_str("checkouts"));
                        location.push(
                            checkout_dir_name(dep.name.as_str(), url.as_str(), self.sess.root()),
                        );
                        assert(location.deep_view() =~= checkout_location(
                            dep.name@,
                            url@,
                            self.sess.spec_root(),
                        ));
                        Ok(CheckoutStep::Git { location: location, url: url, revision: revision })
                    },
                    None => {
                        let mut msg = String::from_str("No revision was picked for dependency `");
                        msg.append(dep.name.as_str());
                        msg.append("`.");
                        Err(Error::new(ErrorKind::Invalid, msg))
                    },
                }
            },
        }
    }

    /// Checks a revision of a git repository out into a directory. This is
    /// not available yet: the answer is always the failure that says so.
    pub fn checkout_git(&self, path: &'ctx str, url: &str, revision: &str) -> (r: Result<
        &'ctx str,
        Error,
    >)
        ensures
            r matches Err(e) && e@ == unsupported("Checkout of git dependency not implemented"@),
    {
        Err(
            Error::new(
                ErrorKind::Unsupported,
                String::from_str("Checkout of git dependency not implemented"),
            ),
        )
    }
}

/// Where a checkout job stands.
#[derive(Clone, Copy, Debug, PartialEq, Eq, Structural)]
pub enum CheckoutPhase {
    /// The directory of the checkout is being created.
    CreateDir,
    /// The revision lies in the directory.
    Ready,
    /// The job failed.
    Failed,
}

/// What is to be done next for a checkout.
#[derive(Debug, PartialEq, Eq)]
pub enum CheckoutAction<'ctx> {
    /// Create the directory of the checkout and what lies above it.
    CreateDir,
    /// Nothing: the revision lies at this path.
    Finish(&'ctx str),
    /// Nothing: the job failed for this reason.
    Fail(Error),
}

/// The mathematical value of a [`CheckoutAction`].
pub enum CheckoutActionView {
    CreateDir,
    Finish(Seq<char>),
    Fail(ErrorView),
}

impl<'ctx> View for CheckoutAction<'ctx> {
    type V = CheckoutActionView;

    open spec fn view(&self) -> CheckoutActionView {
        match self {
            CheckoutAction::CreateDir => CheckoutActionView::CreateDir,
            CheckoutAction::Finish(path) => CheckoutActionView::Finish(path@),
            CheckoutAction::Fail(e) => CheckoutActionView::Fail(e@),
        }
    }
}

/// Where a job for the checkout in `dir` stands after `event`, and what is
/// to be done next. Once the directory is there the revision is checked out
/// into it, which always fails for now; a directory that cannot be created
/// ends the job as well.
pub open spec fn checkout_next(phase: CheckoutPhase, event: EventView, dir: Seq<char>) -> (
    CheckoutPhase,
    CheckoutActionView,
) {
    match (phase, event) {
        (CheckoutPhase::CreateDir, EventView::Succeeded) => (
            CheckoutPhase::Failed,
            CheckoutActionView::Fail(unsupported("Checkout of git dependency not implemented"@)),
        ),
        (CheckoutPhase::CreateDir, EventView::Failed(cause)) => (
            CheckoutPhase::Failed,
            CheckoutActionView::Fail(
                failed_in("Failed to create git checkout directory "@, dir, cause),
            ),
        ),
        _ => (CheckoutPhase::Failed, CheckoutActionView::Fail(misled())),
    }
}

/// A job that checks one revision of a git dependency out.
#[derive(Debug)]
pub struct CheckoutJob<'ctx> {
    /// Where the job stands.
    pub phase: CheckoutPhase,
    /// The directory of the checkout.
    pub dir: &'ctx str,
    /// The URL of the repository.
    pub url: String,
    /// The revision that is to lie in the directory.
    pub revision: String,
}

impl<'ctx> CheckoutJob<'ctx> {
    /// A job that checks `revision` of `url` out into `dir`. Its first step
    /// is to create the directory.
    pub fn new(dir: &'ctx str, url: String, revision: String) -> (r: (
        CheckoutJob<'ctx>,
        CheckoutAction<'ctx>,
    ))
        ensures
            r.0.phase == CheckoutPhase::CreateDir,
            r.0.dir@ == dir@,
            r.0.url@ == url@,
            r.0.revision@ == revision@,
            r.1@ == CheckoutActionView::CreateDir,
    {
        (
            CheckoutJob { phase: CheckoutPhase::CreateDir, dir: dir, url: url, revision: revision },
            CheckoutAction::CreateDir,
        )
    }

    /// Takes the outcome of the step that was asked for last, and says what
    /// is to be done next.
    pub fn step(&mut self, io: &SessionIo<'ctx>, event: Event) -> (action: CheckoutAction<'ctx>)
        ensures
            final(self).dir@ == old(self).dir@,
            final(self).url@ == old(self).url@,
            final(self).revision@ == old(self).revision@,
            final(self).phase == checkout_next(old(self).phase, event@, old(self).dir@).0,
            action@ == checkout_next(old(self).phase, event@, old(self).dir@).1,
    {
        let (phase, action) = match (self.phase, event) {
            (CheckoutPhase::CreateDir, Event::Succeeded) => {
                match io.checkout_git(self.dir, self.url.as_str(), self.revision.as_str()) {
                    Ok(path) => (CheckoutPhase::Ready, CheckoutAction::Finish(path)),
                    Err(e) => (CheckoutPhase::Failed, CheckoutAction::Fail(e)),
                }
            },
            (CheckoutPhase::CreateDir, Event::Failed(cause)) => (
                CheckoutPhase::Failed,
                CheckoutAction::Fail(
                    fail_in("Failed to create git checkout directory ", self.dir, cause),
                ),
            ),
            _ => (CheckoutPhase::Failed, CheckoutAction::Fail(mislead())),
        };
        self.phase = phase;
        action
    }
}

} // verus!
