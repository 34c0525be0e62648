use dep_session::error::{Error, ErrorKind};
use dep_session::mirror::{Acquisitions, Event, MirrorAction, MirrorJob, MirrorPhase};

fn cause(text: &str) -> Error {
    Error::new(ErrorKind::Environment, text.to_string())
}

fn job() -> MirrorJob {
    MirrorJob::new("/db/git/db/a-05dea89bc1025237".to_string(), "https://example.com/a.git".to_string()).0
}

fn words(list: &[&str]) -> Vec<String> {
    list.iter().map(|w| w.to_string()).collect()
}

#[test]
fn new_mirror_is_set_up_and_fetched() {
    let (mut job, first) =
        MirrorJob::new("/db/git/db/a".to_string(), "https://example.com/a.git".to_string());
    assert_eq!(first, MirrorAction::CreateDir);
    assert_eq!(job.phase, MirrorPhase::CreateDir);
    assert_eq!(job.step(Event::Succeeded), MirrorAction::Probe);
    assert_eq!(job.phase, MirrorPhase::Probe);
    assert_eq!(job.step(Event::Found(false)), MirrorAction::Spawn(words(&["init", "--bare"])));
    assert_eq!(job.phase, MirrorPhase::Init);
    assert_eq!(
        job.step(Event::Succeeded),
        MirrorAction::Spawn(words(&["remote", "add", "origin", "https://example.com/a.git"]))
    );
    assert_eq!(job.phase, MirrorPhase::AddRemote);
    assert_eq!(job.step(Event::Succeeded), MirrorAction::Fetch("origin".to_string()));
    assert_eq!(job.phase, MirrorPhase::FetchNew);
    assert_eq!(job.step(Event::Succeeded), MirrorAction::Finish);
    assert_eq!(job.phase, MirrorPhase::Ready);
    assert_eq!(job.dir, "/db/git/db/a");
    assert_eq!(job.url, "https://example.com/a.git");
}

#[test]
fn mirror_that_is_there_is_only_fetched() {
    let mut job = job();
    assert_eq!(job.step(Event::Succeeded), MirrorAction::Probe);
    assert_eq!(job.step(Event::Found(true)), MirrorAction::Fetch("origin".to_string()));
    assert_eq!(job.phase, MirrorPhase::Update);
    assert_eq!(job.step(Event::Succeeded), MirrorAction::Finish);
    assert_eq!(job.phase, MirrorPhase::Ready);
}

#[test]
fn directory_that_cannot_be_made_ends_the_job() {
    let mut job = job();
    let action = job.step(Event::Failed(cause("permission denied")));
    assert_eq!(job.phase, MirrorPhase::Failed);
    assert_eq!(
        action,
        MirrorAction::Fail(Error {
            kind: ErrorKind::Environment,
            msg: "Failed to create git database directory \"/db/git/db/a-05dea89bc1025237\"."
                .to_string(),
            causes: vec!["permission denied".to_string()],
        })
    );
}

#[test]
fn failure_while_setting_up_names_the_directory() {
    let expected = "Failed to initialize git database in \"/db/git/db/a-05dea89bc1025237\".";
    for done in 0..3 {
        let mut job = job();
        job.step(Event::Succeeded);
        job.step(Event::Found(false));
        for _ in 0..done {
            job.step(Event::Succeeded);
        }
        let inner = Error::chain("git failed".to_string(), cause("exit status 128"));
        match job.step(Event::Failed(inner)) {
            MirrorAction::Fail(e) => {
                assert_eq!(e.kind, ErrorKind::Environment);
                assert_eq!(e.msg, expected);
                assert_eq!(e.causes, vec!["git failed".to_string(), "exit status 128".to_string()]);
            }
            other => panic!("unexpected action {:?}", other),
        }
        assert_eq!(job.phase, MirrorPhase::Failed);
    }
}

#[test]
fn failure_while_updating_names_the_directory() {
    let mut job = job();
    job.step(Event::Succeeded);
    job.step(Event::Found(true));
    match job.step(Event::Failed(cause("no route to host"))) {
        MirrorAction::Fail(e) => {
            assert_eq!(
                e.msg,
                "Failed to update git database in \"/db/git/db/a-05dea89bc1025237\"."
            );
            assert_eq!(e.causes, vec!["no route to host".to_string()]);
        }
        other => panic!("unexpected action {:?}", other),
    }
    assert_eq!(job.phase, MirrorPhase::Failed);
}

#[test]
fn answer_that_was_not_asked_for_ends_the_job() {
    let mut fresh = job();
    match fresh.step(Event::Found(true)) {
        MirrorAction::Fail(e) => {
            assert_eq!(e.kind, ErrorKind::Misuse);
            assert_eq!(e.msg, "The step that was reported is not the one that was asked for.");
        }
        other => panic!("unexpected action {:?}", other),
    }
    assert_eq!(fresh.phase, MirrorPhase::Failed);

    let mut done = job();
    done.step(Event::Succeeded);
    done.step(Event::Found(true));
    done.step(Event::Succeeded);
    assert!(matches!(done.step(Event::Succeeded), MirrorAction::Fail(_)));
    assert_eq!(done.phase, MirrorPhase::Failed);

    let mut probing = job();
    probing.step(Event::Succeeded);
    assert!(matches!(probing.step(Event::Succeeded), MirrorAction::Fail(_)));
    assert!(matches!(probing.step(Event::Succeeded), MirrorAction::Fail(_)));
}

#[test]
fn one_job_runs_for_a_directory() {
    let mut running = Acquisitions::new();
    assert!(running.begin("/db/git/db/a"));
    assert!(!running.begin("/db/git/db/a"));
    assert!(running.begin("/db/git/db/b"));
    assert!(!running.begin("/db/git/db/a"));
    running.finish("/db/git/db/a");
    assert!(!running.begin("/db/git/db/b"));
    assert!(running.begin("/db/git/db/a"));
    running.finish("/db/git/db/never");
    running.finish("/db/git/db/a");
    running.finish("/db/git/db/b");
    assert!(running.begin("/db/git/db/b"));
}

#[test]
fn chain_keeps_the_messages_that_led_to_it() {
    let root = Error::new(ErrorKind::Invalid, "root".to_string());
    assert_eq!(root.kind, ErrorKind::Invalid);
    assert!(root.causes.is_empty());
    let middle = Error::chain("middle".to_string(), root);
    let top = Error::chain("top".to_string(), middle);
    assert_eq!(top.kind, ErrorKind::Environment);
    assert_eq!(top.msg, "top");
    assert_eq!(top.causes, vec!["middle".to_string(), "root".to_string()]);
}
