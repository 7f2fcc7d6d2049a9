use vsdown::error::Error;
use vsdown::install::install_file_inner;
use vsdown::plan::{Blame, Guard, Instr, Phase, Runner};
use vsdown::removal::{plan_removal, remove_inner};
use vsdown::manifest::{Asset, Manifest};
use vsdown::wire::{Op, Progress, Reply, Request};

fn step(guard: Guard, path: &str, blame: Blame) -> Instr {
    Instr { guard, op: Op::RemoveFile { path: String::from(path) }, blame }
}

fn performing(path: &str, blame: Blame) -> Phase {
    Phase::Performing { blame, subject: String::from(path) }
}

#[test]
fn empty_plan_has_succeeded() {
    assert_eq!(Runner::start(Vec::new()), Progress::Done(Ok(())));
}

#[test]
fn unguarded_step_is_taken_at_once() {
    let plan = vec![step(Guard::Always, "/a", Blame::Plain), step(Guard::IfPresent, "/b", Blame::Plain)];
    assert_eq!(
        Runner::start(plan),
        Progress::Ask(
            Runner {
                rest: vec![step(Guard::IfPresent, "/b", Blame::Plain)],
                phase: performing("/a", Blame::Plain),
            },
            Request::Perform(Op::RemoveFile { path: String::from("/a") }),
        )
    );
}

#[test]
fn guarded_step_asks_its_question_first() {
    let present = vec![step(Guard::IfPresent, "/a", Blame::Plain)];
    assert_eq!(
        Runner::start(present.clone()),
        Progress::Ask(
            Runner { rest: present, phase: Phase::Probing },
            Request::Exists { path: String::from("/a") },
        )
    );
    let absent = vec![step(Guard::IfAbsent, "/a", Blame::Plain)];
    assert_eq!(
        Runner::start(absent.clone()),
        Progress::Ask(
            Runner { rest: absent, phase: Phase::Probing },
            Request::Exists { path: String::from("/a") },
        )
    );
    let link = vec![step(Guard::IfLink, "/a", Blame::Plain)];
    assert_eq!(
        Runner::start(link.clone()),
        Progress::Ask(
            Runner { rest: link, phase: Phase::Probing },
            Request::IsLink { path: String::from("/a") },
        )
    );
}

fn answered(guard: Guard, reply: Reply) -> bool {
    let runner = Runner { rest: vec![step(guard, "/a", Blame::Plain)], phase: Phase::Probing };
    match runner.step(reply) {
        Progress::Ask(next, request) => {
            assert_eq!(request, Request::Perform(Op::RemoveFile { path: String::from("/a") }));
            assert_eq!(next, Runner { rest: Vec::new(), phase: performing("/a", Blame::Plain) });
            true
        }
        Progress::Done(outcome) => {
            assert_eq!(outcome, Ok(()));
            false
        }
    }
}

#[test]
fn answer_decides_whether_the_step_is_taken() {
    assert!(answered(Guard::IfPresent, Reply::Flag(true)));
    assert!(!answered(Guard::IfPresent, Reply::Flag(false)));
    assert!(!answered(Guard::IfAbsent, Reply::Flag(true)));
    assert!(answered(Guard::IfAbsent, Reply::Flag(false)));
    assert!(answered(Guard::IfLink, Reply::Flag(true)));
    assert!(!answered(Guard::IfLink, Reply::Flag(false)));
}

#[test]
fn reply_of_another_kind_counts_as_no() {
    assert!(!answered(Guard::IfPresent, Reply::Done));
    assert!(!answered(Guard::IfLink, Reply::Failed(String::from("unknown"))));
    assert!(answered(Guard::IfAbsent, Reply::Text(String::from("yes"))));
}

#[test]
fn skipped_step_leads_to_the_next() {
    let runner = Runner {
        rest: vec![step(Guard::IfPresent, "/a", Blame::Plain), step(Guard::IfLink, "/b", Blame::Plain)],
        phase: Phase::Probing,
    };
    assert_eq!(
        runner.step(Reply::Flag(false)),
        Progress::Ask(
            Runner { rest: vec![step(Guard::IfLink, "/b", Blame::Plain)], phase: Phase::Probing },
            Request::IsLink { path: String::from("/b") },
        )
    );
}

#[test]
fn probing_runner_without_steps_has_succeeded() {
    let runner = Runner { rest: Vec::new(), phase: Phase::Probing };
    assert_eq!(runner.step(Reply::Flag(true)), Progress::Done(Ok(())));
}

#[test]
fn completed_change_lets_the_plan_go_on() {
    let runner = Runner {
        rest: vec![step(Guard::Always, "/b", Blame::Asset)],
        phase: performing("/a", Blame::Plain),
    };
    assert_eq!(
        runner.step(Reply::Done),
        Progress::Ask(
            Runner { rest: Vec::new(), phase: performing("/b", Blame::Asset) },
            Request::Perform(Op::RemoveFile { path: String::from("/b") }),
        )
    );
    let last = Runner { rest: Vec::new(), phase: performing("/a", Blame::Plain) };
    assert_eq!(last.step(Reply::Done), Progress::Done(Ok(())));
}

fn failed(blame: Blame, reply: Reply) -> Error {
    let runner = Runner {
        rest: vec![step(Guard::Always, "/later", Blame::Plain)],
        phase: performing("/usr/share/x", blame),
    };
    match runner.step(reply) {
        Progress::Done(Err(e)) => e,
        other => panic!("the plan went on: {:?}", other),
    }
}

#[test]
fn failed_change_ends_the_plan_with_its_blame() {
    let boom = Reply::Failed(String::from("boom"));
    assert_eq!(
        failed(Blame::Plain, boom.clone()),
        Error::Filesystem { detail: String::from("boom") }
    );
    assert_eq!(
        failed(Blame::Directory, boom.clone()),
        Error::Filesystem { detail: String::from("Failed to create directory /usr/share/x: boom.") }
    );
    assert_eq!(
        failed(Blame::Asset, boom.clone()),
        Error::Filesystem { detail: String::from("Failed to install /usr/share/x: boom.") }
    );
    assert_eq!(
        failed(Blame::Link, boom),
        Error::Symlink {
            detail: String::from("Could not create symlink for the vscode executable! boom"),
        }
    );
}

#[test]
fn reply_of_another_kind_counts_as_failure_without_reason() {
    assert_eq!(failed(Blame::Plain, Reply::Flag(true)), Error::Filesystem { detail: String::new() });
    assert_eq!(
        failed(Blame::Asset, Reply::Bytes(vec![1])),
        Error::Filesystem { detail: String::from("Failed to install /usr/share/x: .") }
    );
}

#[test]
fn blame_words_the_error() {
    assert_eq!(
        Blame::Directory.report("/d", "denied"),
        Error::Filesystem { detail: String::from("Failed to create directory /d: denied.") }
    );
    assert_eq!(
        Blame::Link.report("/usr/bin/vscode", "exists"),
        Error::Symlink {
            detail: String::from("Could not create symlink for the vscode executable! exists"),
        }
    );
}

#[test]
fn subject_is_the_place_of_the_change() {
    let s = String::from;
    assert_eq!(Op::Unpack { archive: vec![], into: s("/i") }.subject(), "/i");
    assert_eq!(Op::RemoveFile { path: s("/p") }.subject(), "/p");
    assert_eq!(Op::RemoveDirAll { path: s("/p") }.subject(), "/p");
    assert_eq!(Op::Rename { from: s("/f"), to: s("/t") }.subject(), "/f");
    assert_eq!(Op::Symlink { target: s("/t"), link: s("/l") }.subject(), "/l");
    assert_eq!(Op::CreateDirAll { path: s("/p") }.subject(), "/p");
    assert_eq!(Op::CreateFile { path: s("/p"), content: vec![] }.subject(), "/p");
}

#[test]
fn reply_gives_its_answer_and_its_reason() {
    assert!(Reply::Flag(true).is_yes());
    assert!(!Reply::Flag(false).is_yes());
    assert!(!Reply::Done.is_yes());
    assert_eq!(Reply::Failed(String::from("why")).detail(), "why");
    assert_eq!(Reply::Text(String::from("why")).detail(), "");
    assert_eq!(Reply::Status { code: 500, length: None }.detail(), "");
}

#[test]
fn removal_step_deletes_a_file_that_is_present() {
    assert_eq!(remove_inner("/a"), step(Guard::IfPresent, "/a", Blame::Plain));
}

#[test]
fn file_step_writes_where_nothing_stands() {
    assert_eq!(
        install_file_inner(String::from("/a"), vec![7]),
        Instr {
            guard: Guard::IfAbsent,
            op: Op::CreateFile { path: String::from("/a"), content: vec![7] },
            blame: Blame::Asset,
        }
    );
}

#[test]
fn removal_plan_follows_the_manifest() {
    let m = Manifest {
        directories: vec![String::from("/d")],
        assets: vec![
            Asset { path: String::from("/d/one"), content: vec![1] },
            Asset { path: String::from("/d/two"), content: vec![2] },
        ],
    };
    assert_eq!(
        plan_removal(&m),
        vec![
            step(Guard::IfPresent, "/d/one", Blame::Plain),
            step(Guard::IfPresent, "/d/two", Blame::Plain),
            Instr {
                guard: Guard::IfPresent,
                op: Op::RemoveDirAll { path: String::from("/usr/lib/vscode") },
                blame: Blame::Plain,
            },
            step(Guard::IfLink, "/usr/bin/vscode", Blame::Plain),
            step(Guard::IfPresent, "/usr/bin/vscode", Blame::Plain),
            step(Guard::IfPresent, "/var/lib/vsdown/current_version", Blame::Plain),
        ]
    );
}
