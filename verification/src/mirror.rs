//! Bringing the mirror of a git repository up to date, step by step. The
//! job decides what is to be done next; whoever drives it does each step
//! and reports how it went.

use crate::digest::{quote_path, quoted_path};
use crate::error::{chained, Error, ErrorKind, ErrorView};
use crate::text::text_equal;
use vstd::prelude::*;

verus! {

/// How a step went.
#[derive(Debug, PartialEq, Eq)]
pub enum Event {
    /// The step was done.
    Succeeded,
    /// The answer to a question.
    Found(bool),
    /// The step failed.
    Failed(Error),
}

/// The mathematical value of an [`Event`].
pub enum EventView {
    Succeeded,
    Found(bool),
    Failed(ErrorView),
}

impl View for Event {
    type V = EventView;

    open spec fn view(&self) -> EventView {
        match self {
            Event::Succeeded => EventView::Succeeded,
            Event::Found(answer) => EventView::Found(*answer),
            Event::Failed(e) => EventView::Failed(e@),
        }
    }
}

/// Where a mirror job stands: the step whose outcome it waits for, or how
/// it ended.
#[derive(Clone, Copy, Debug, PartialEq, Eq, Structural)]
pub enum MirrorPhase {
    /// The directory of the mirror is being created.
    CreateDir,
    /// The directory is being searched for the metadata of a repository.
    Probe,
    /// A bare repository is being set up.
    Init,
    /// The URL is being registered as the remote `origin`.
    AddRemote,
    /// The new repository is being fetched for the first time.
    FetchNew,
    /// The repository that was there is being fetched.
    Update,
    /// The mirror is there and up to date.
    Ready,
    /// The job failed.
    Failed,
}

/// What is to be done next for a mirror.
#[derive(Debug, PartialEq, Eq)]
pub enum MirrorAction {
    /// Create the directory of the mirror and what lies above it.
    CreateDir,
    /// Say whether the file `config` lies in the directory.
    Probe,
    /// Run git in the directory with these arguments.
    Spawn(Vec<String>),
    /// Fetch this remote in the directory.
    Fetch(String),
    /// Nothing: the mirror can be used.
    Finish,
    /// Nothing: the job failed for this reason.
    Fail(Error),
}

/// The mathematical value of a [`MirrorAction`].
pub enum MirrorActionView {
    CreateDir,
    Probe,
    Spawn(Seq<Seq<char>>),
    Fetch(Seq<char>),
    Finish,
    Fail(ErrorView),
}

impl View for MirrorAction {
    type V = MirrorActionView;

    open spec fn view(&self) -> MirrorActionView {
        match self {
            MirrorAction::CreateDir => MirrorActionView::CreateDir,
            MirrorAction::Probe => MirrorActionView::Probe,
            MirrorAction::Spawn(arguments) => MirrorActionView::Spawn(arguments.deep_view()),
            MirrorAction::Fetch(remote) => MirrorActionView::Fetch(remote@),
            MirrorAction::Finish => MirrorActionView::Finish,
            MirrorAction::Fail(e) => MirrorActionView::Fail(e@),
        }
    }
}

/// The failure of a step on the way: what it was about, the directory as
/// `std` writes paths, and what led to it.
pub open spec fn failed_in(what: Seq<char>, dir: Seq<char>, cause: ErrorView) -> ErrorView {
    chained(what + quoted_path(dir) + "."@, cause)
}

/// The failure of a job that was told something that it did not wait for.
pub open spec fn misled() -> ErrorView {
    ErrorView {
        kind: ErrorKind::Misuse,
        msg: "The step that was reported is not the one that was asked for."@,
        causes: Seq::empty(),
    }
}

/// Where a job for the mirror in `dir` stands after `event`, and what is to
/// be done next. A mirror without metadata is set up, given `url` as its
/// remote `origin` and fetched; one with metadata is fetched. The first
/// step that fails ends the job.
pub open spec fn mirror_next(
    phase: MirrorPhase,
    event: EventView,
    dir: Seq<char>,
    url: Seq<char>,
) -> (MirrorPhase, MirrorActionView) {
    match (phase, event) {
        (MirrorPhase::CreateDir, EventView::Succeeded) => (
            MirrorPhase::Probe,
            MirrorActionView::Probe,
        ),
        (MirrorPhase::CreateDir, EventView::Failed(cause)) => (
            MirrorPhase::Failed,
            MirrorActionView::Fail(
                failed_in("Failed to create git database directory "@, dir, cause),
            ),
        ),
        (MirrorPhase::Probe, EventView::Found(true)) => (
            MirrorPhase::Update,
            MirrorActionView::Fetch("origin"@),
        ),
        (MirrorPhase::Probe, EventView::Found(false)) => (
            MirrorPhase::Init,
            MirrorActionView::Spawn(seq!["init"@, "--bare"@]),
        ),
        (MirrorPhase::Init, EventView::Succeeded) => (
            MirrorPhase::AddRemote,
            MirrorActionView::Spawn(seq!["remote"@, "add"@, "origin"@, url]),
        ),
        (MirrorPhase::AddRemote, EventView::Succeeded) => (
            MirrorPhase::FetchNew,
            MirrorActionView::Fetch("origin"@),
        ),
        (MirrorPhase::FetchNew, EventView::Succeeded) => (
            MirrorPhase::Ready,
            MirrorActionView::Finish,
        ),
        (MirrorPhase::Update, EventView::Succeeded) => (
            MirrorPhase::Ready,
            MirrorActionView::Finish,
        ),
        (MirrorPhase::Init, EventView::Failed(cause)) => (
            MirrorPhase::Failed,
            MirrorActionView::Fail(failed_in("Failed to initialize git database in "@, dir, cause)),
        ),
        (MirrorPhase::AddRemote, EventView::Failed(cause)) => (
            MirrorPhase::Failed,
            MirrorActionView::Fail(failed_in("Failed to initialize git database in "@, dir, cause)),
        ),
        (MirrorPhase::FetchNew, EventView::Failed(cause)) => (
            MirrorPhase::Failed,
            MirrorActionView::Fail(failed_in("Failed to initialize git database in "@, dir, cause)),
        ),
        (MirrorPhase::Update, EventView::Failed(cause)) => (
            MirrorPhase::Failed,
            MirrorActionView::Fail(failed_in("Failed to update git database in "@, dir, cause)),
        ),
        _ => (MirrorPhase::Failed, MirrorActionView::Fail(misled())),
    }
}

/// A mirror is ready only once a fetch went well, and a step that fails
/// ends the job with a failure.
pub proof fn lemma_ready_only_after_fetch(
    phase: MirrorPhase,
    event: EventView,
    dir: Seq<char>,
    url: Seq<char>,
)
    ensures
        mirror_next(phase, event, dir, url).0 == MirrorPhase::Ready <==> (phase
            == MirrorPhase::FetchNew || phase == MirrorPhase::Update) && event
            == EventView::Succeeded,
        mirror_next(phase, event, dir, url).1 == MirrorActionView::Finish <==> mirror_next(
            phase,
            event,
            dir,
            url,
        ).0 == MirrorPhase::Ready,
        event is Failed ==> mirror_next(phase, event, dir, url).0 == MirrorPhase::Failed,
        mirror_next(phase, event, dir, url).0 == MirrorPhase::Failed <==> mirror_next(
            phase,
            event,
            dir,
            url,
        ).1 is Fail,
{
}

/// Builds the failure of a step on the way.
pub fn fail_in(what: &str, dir: &str, cause: Error) -> (r: Error)
    ensures
        r@ == failed_in(what@, dir@, cause@),
{
    let mut msg = String::from_str(what);
    let quoted = quote_path(dir);
    msg.append(quoted.as_str());
    msg.append(".");
    Error::chain(msg, cause)
}

/// Builds the failure of a job that was told something that it did not wait
/// for.
pub fn mislead() -> (r: Error)
    ensures
        r@ == misled(),
{
    Error::new(
        ErrorKind::Misuse,
        String::from_str("The step that was reported is not the one that was asked for."),
    )
}

/// A job that brings one mirror up to date.
#[derive(Debug)]
pub struct MirrorJob {
    /// Where the job stands.
    pub phase: MirrorPhase,
    /// The directory of the mirror.
    pub dir: String,
    /// The URL of the repository that is mirrored.
    pub url: String,
}

impl MirrorJob {
    /// A job for the mirror of `url` in `dir`. Its first step is to create
    /// the directory.
    pub fn new(dir: String, url: String) -> (r: (MirrorJob, MirrorAction))
        ensures
            r.0.phase == MirrorPhase::CreateDir,
            r.0.dir@ == dir@,
            r.0.url@ == url@,
            r.1@ == MirrorActionView::CreateDir,
    {
        (MirrorJob { phase: MirrorPhase::CreateDir, dir: dir, url: url }, MirrorAction::CreateDir)
    }

    /// Takes the outcome of the step that was asked for last, and says what
    /// is to be done next.
    pub fn step(&mut self, event: Event) -> (action: MirrorAction)
        ensures
            final(self).dir@ == old(self).dir@,
            final(self).url@ == old(self).url@,
            final(self).phase == mirror_next(old(self).phase, event@, old(self).dir@, old(self).url@).0,
            action@ == mirror_next(old(self).phase, event@, old(self).dir@, old(self).url@).1,
    {
        let (phase, action) = match (self.phase, event) {
            (MirrorPhase::CreateDir, Event::Succeeded) => (MirrorPhase::Probe, MirrorAction::Probe),
            (MirrorPhase::CreateDir, Event::Failed(cause)) => (
                MirrorPhase::Failed,
                MirrorAction::Fail(
                    fail_in("Failed to create git database directory ", self.dir.as_str(), cause),
                ),
            ),
            (MirrorPhase::Probe, Event::Found(true)) => (
                MirrorPhase::Update,
                MirrorAction::Fetch(String::from_str("origin")),
            ),
            (MirrorPhase::Probe, Event::Found(false)) => {
                let mut arguments: Vec<String> = Vec::new();
                arguments.push(String::from_str("init"));
                arguments.push(String::from_str("--bare"));
                assert(arguments.deep_view() =~= seq!["init"@, "--bare"@]);
                (MirrorPhase::Init, MirrorAction::Spawn(arguments))
            },
            (MirrorPhase::Init, Event::Succeeded) => {
                let mut arguments: Vec<String> = Vec::new();
                arguments.push(String::from_str("remote"));
                arguments.push(String::from_str("add"));
                arguments.push(String::from_str("origin"));
                arguments.push(self.url.clone());
                assert(arguments.deep_view() =~= seq!["remote"@, "add"@, "origin"@, self.url@]);
                (MirrorPhase::AddRemote, MirrorAction::Spawn(arguments))
            },
            (MirrorPhase::AddRemote, Event::Succeeded) => (
                MirrorPhase::FetchNew,
                MirrorAction::Fetch(String::from_str("origin")),
            ),
            (MirrorPhase::FetchNew, Event::Succeeded) => (MirrorPhase::Ready, MirrorAction::Finish),
            (MirrorPhase::Update, Event::Succeeded) => (MirrorPhase::Ready, MirrorAction::Finish),
            (MirrorPhase::Init, Event::Failed(cause)) => (
                MirrorPhase::Failed,
                MirrorAction::Fail(
                    fail_in("Failed to initialize git database in ", self.dir.as_str(), cause),
                ),
            ),
            (MirrorPhase::AddRemote, Event::Failed(cause)) => (
                MirrorPhase::Failed,
                MirrorAction::Fail(
                    fail_in("Failed to initialize git database in ", self.dir.as_str(), cause),
                ),
            ),
            (MirrorPhase::FetchNew, Event::Failed(cause)) => (
                MirrorPhase::Failed,
                MirrorAction::Fail(
                    fail_in("Failed to initialize git database in ", self.dir.as_str(), cause),
                ),
            ),
            (MirrorPhase::Update, Event::Failed(cause)) => (
                MirrorPhase::Failed,
                MirrorAction::Fail(
                    fail_in("Failed to update git database in ", self.dir.as_str(), cause),
                ),
            ),
            _ => (MirrorPhase::Failed, MirrorAction::Fail(mislead())),
        };
        self.phase = phase;
        action
    }
}

/// The directories after a job for `dir` was asked for: `dir` is among them
/// once.
pub open spec fn started(running: Seq<Seq<char>>, dir: Seq<char>) -> Seq<Seq<char>> {
    if running.contains(dir) {
        running
    } else {
        running.push(dir)
    }
}

/// The directories after the job for `dir` ended.
pub open spec fn ended(running: Seq<Seq<char>>, dir: Seq<char>) -> Seq<Seq<char>> {
    if running.contains(dir) {
        running.remove(running.index_of(dir))
    } else {
        running
    }
}

/// While a job for a directory runs, whoever asks for that directory is told
/// to wait for it; once it ended, the next one is told to run a job again.
/// Jobs for other directories are not touched by either.
pub proof fn lemma_one_job_per_mirror(running: Seq<Seq<char>>, dir: Seq<char>, other: Seq<char>)
    requires
        running.no_duplicates(),
    ensures
        started(running, dir).no_duplicates(),
        started(running, dir).contains(dir),
        ended(running, dir).no_duplicates(),
        !ended(running, dir).contains(dir),
        other != dir ==> started(running, dir).contains(other) == running.contains(other),
        other != dir ==> ended(running, dir).contains(other) == running.contains(other),
{
    let more = started(running, dir);
    if !running.contains(dir) {
        assert(more[running.len() as int] == dir);
        assert forall|a: int, b: int|
            0 <= a < more.len() && 0 <= b < more.len() && a != b implies more[a] != more[b] by {
            if a < running.len() && b < running.len() {
            } else if a < running.len() {
                assert(running.contains(more[a]));
            } else {
                assert(running.contains(more[b]));
            }
        }
        if running.contains(other) {
            let k = running.index_of(other);
            assert(more[k] == other);
        }
        if other != dir && more.contains(other) {
            let k = more.index_of(other);
            assert(running[k] == other);
        }
    } else {
        let at = running.index_of(dir);
        let fewer = ended(running, dir);
        assert forall|a: int, b: int|
            0 <= a < fewer.len() && 0 <= b < fewer.len() && a != b implies fewer[a] != fewer[b] by {
            let x = if a < at { a } else { a + 1 };
            let y = if b < at { b } else { b + 1 };
            assert(fewer[a] == running[x] && fewer[b] == running[y]);
        }
        if fewer.contains(dir) {
            let k = fewer.index_of(dir);
            let x = if k < at { k } else { k + 1 };
            assert(fewer[k] == running[x]);
        }
        if other != dir && running.contains(other) {
            let k = running.index_of(other);
            let x = if k < at { k } else { k - 1 };
            assert(fewer[x] == other);
        }
        if fewer.contains(other) {
            let k = fewer.index_of(other);
            let x = if k < at { k } else { k + 1 };
            assert(running[x] == other);
        }
    }
}

/// The mirrors for which a job runs, by directory. It lets those who ask for
/// a mirror that is already being brought up to date wait for that job
/// rather than start a second one in the same directory.
#[derive(Debug)]
pub struct Acquisitions {
    running: Vec<String>,
}

impl View for Acquisitions {
    type V = Seq<Seq<char>>;

    closed spec fn view(&self) -> Seq<Seq<char>> {
        self.running.deep_view()
    }
}

impl Acquisitions {
    /// No directory is listed twice.
    pub open spec fn wf(&self) -> bool {
        self@.no_duplicates()
    }

    /// No job runs.
    pub fn new() -> (r: Acquisitions)
        ensures
            r.wf(),
            r@ == Seq::<Seq<char>>::empty(),
    {
        let r = Acquisitions { running: Vec::new() };
        assert(r.running.deep_view() =~= Seq::<Seq<char>>::empty());
        r
    }

    /// The place of `dir` among the running jobs.
    fn position(&self, dir: &str) -> (r: Option<usize>)
        requires
            self.wf(),
        ensures
            match r {
                Some(i) => i < self@.len() && self@[i as int] == dir@ && self@.contains(dir@)
                    && self@.index_of(dir@) == i,
                None => !self@.contains(dir@),
            },
    {
        let mut i: usize = 0;
        while i < self.running.len()
            invariant
                i <= self.running.len(),
                self.wf(),
                forall|k: int| 0 <= k < i ==> self@[k] != dir@,
            decreases self.running.len() - i,
        {
            if text_equal(self.running[i].as_str(), dir) {
                assert(self@[i as int] == dir@);
                return Some(i);
            }
            i = i + 1;
        }
        None
    }

    /// Asks for the mirror in `dir`. The answer is `true` where no job runs
    /// for it: the one who asked is to run the job, and to report its end.
    /// It is `false` where a job runs: the one who asked is to wait for it.
    pub fn begin(&mut self, dir: &str) -> (first: bool)
        requires
            old(self).wf(),
        ensures
            final(self).wf(),
            first == !old(self)@.contains(dir@),
            final(self)@ == started(old(self)@, dir@),
    {
        proof {
            lemma_one_job_per_mirror(self@, dir@, dir@);
        }
        match self.position(dir) {
            Some(_) => false,
            None => {
                self.running.push(String::from_str(dir));
                assert(self.running.deep_view() =~= old(self)@.push(dir@));
                true
            },
        }
    }

    /// Reports that the job for the mirror in `dir` ended.
    pub fn finish(&mut self, dir: &str)
        requires
            old(self).wf(),
        ensures
            final(self).wf(),
            final(self)@ == ended(old(self)@, dir@),
    {
        proof {
            lemma_one_job_per_mirror(self@, dir@, dir@);
        }
        match self.position(dir) {
            Some(i) => {
                self.running.remove(i);
                assert(self.running.deep_view() =~= old(self)@.remove(i as int));
            },
            None => {},
        }
    }
}

} // verus!
