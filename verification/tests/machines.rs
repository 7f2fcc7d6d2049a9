use std::collections::BTreeMap;

use vsdown::checker::{calls_for_install, update_checker, Checking};
use vsdown::error::Error;
use vsdown::install::{
    download_vscode, install, install_beyond, install_vscode, plan_manifest, Downloading,
    Installing, SettingUp,
};
use vsdown::lookup::{get_lastest_version, Looking};
use vsdown::manifest::{Asset, Manifest};
use vsdown::plan::{Blame, Guard, Instr, Runner, Running};
use vsdown::removal::remove_vscode;
use vsdown::version::{read_record, CheckResult};
use vsdown::wire::{Op, Progress, Reply, Request};

const REGISTRY: &str = "https://release-monitoring.org/api/v2/versions/?project_id=243355";
const RELEASE_X64: &str = "https://code.visualstudio.com/sha/download?build=stable&os=linux-x64";
const RELEASE_ARM64: &str =
    "https://code.visualstudio.com/sha/download?build=stable&os=linux-arm64";
const RECORD: &str = "/var/lib/vsdown/current_version";
const RECORD_DIRECTORY: &str = "/var/lib/vsdown/";

#[derive(Debug, Clone, PartialEq, Eq)]
enum Node {
    File(Vec<u8>),
    Dir,
    Link(String),
}

/// A driver that keeps the filesystem in a map and answers for the remote
/// endpoints from what it was told.
#[derive(Debug, Clone, PartialEq, Eq)]
struct Fake {
    nodes: BTreeMap<String, Node>,
    pages: BTreeMap<String, Reply>,
    version: Reply,
    body: Reply,
    unpacks: Vec<(String, Node)>,
    failing: Vec<(Request, String)>,
    asked: Vec<Request>,
}

fn within(path: &str, root: &str) -> bool {
    path == root || (path.starts_with(root) && path.as_bytes().get(root.len()) == Some(&b'/'))
}

impl Fake {
    fn new() -> Fake {
        Fake {
            nodes: BTreeMap::new(),
            pages: BTreeMap::new(),
            version: Reply::Failed(String::from("no body")),
            body: Reply::Failed(String::from("no body")),
            unpacks: Vec::new(),
            failing: Vec::new(),
            asked: Vec::new(),
        }
    }

    fn with_registry(mut self, latest: &str) -> Fake {
        self.pages.insert(String::from(REGISTRY), Reply::Status { code: 200, length: None });
        self.version = Reply::Text(String::from(latest));
        self
    }

    fn with_release(mut self, url: &str, length: Option<u64>, archive: &[u8], root: &str) -> Fake {
        self.pages.insert(String::from(url), Reply::Status { code: 200, length });
        self.body = Reply::Bytes(archive.to_vec());
        self.unpacks = vec![
            (format!("/usr/lib/{}", root), Node::Dir),
            (format!("/usr/lib/{}/code", root), Node::File(b"elf".to_vec())),
        ];
        self
    }

    fn with_record_directory(self) -> Fake {
        self.with_node(RECORD_DIRECTORY, Node::Dir)
    }

    fn with_file(mut self, path: &str, content: &[u8]) -> Fake {
        self.nodes.insert(String::from(path), Node::File(content.to_vec()));
        self
    }

    fn with_node(mut self, path: &str, node: Node) -> Fake {
        self.nodes.insert(String::from(path), node);
        self
    }

    fn failing(mut self, request: Request, reason: &str) -> Fake {
        self.failing.push((request, String::from(reason)));
        self
    }

    fn change(&mut self, op: &Op) {
        match op {
            Op::Unpack { into, .. } => {
                for (path, node) in self.unpacks.clone() {
                    if within(&path, into) {
                        self.nodes.insert(path, node);
                    }
                }
            }
            Op::RemoveFile { path } => {
                self.nodes.remove(path);
            }
            Op::RemoveDirAll { path } => {
                self.nodes.retain(|below, _| !within(below, path));
            }
            Op::Rename { from, to } => {
                let mut next = BTreeMap::new();
                for (path, node) in self.nodes.iter() {
                    if within(path, from) {
                        next.insert(format!("{}{}", to, &path[from.len()..]), node.clone());
                    } else if !within(path, to) {
                        next.insert(path.clone(), node.clone());
                    }
                }
                self.nodes = next;
            }
            Op::Symlink { target, link } => {
                self.nodes.insert(link.clone(), Node::Link(target.clone()));
            }
            Op::CreateDirAll { path } => {
                if !self.nodes.contains_key(path) {
                    self.nodes.insert(path.clone(), Node::Dir);
                }
            }
            Op::CreateFile { path, content } => {
                self.nodes.insert(path.clone(), Node::File(content.clone()));
            }
        }
    }

    fn houses(&self, path: &str) -> bool {
        self.nodes.iter().any(|(dir, node)| {
            *node == Node::Dir
                && !dir.is_empty()
                && dir.len() < path.len()
                && path.starts_with(dir.as_str())
                && (dir.ends_with('/') || path.as_bytes()[dir.len()] == b'/')
        })
    }

    fn refusal(&self, op: &Op) -> Option<&'static str> {
        let stands = |path: &String| self.nodes.get(path);
        match op {
            Op::Unpack { .. } => None,
            Op::RemoveFile { path } => match stands(path) {
                None => Some("No such file or directory"),
                Some(Node::Dir) => Some("Is a directory"),
                _ => None,
            },
            Op::RemoveDirAll { path } => match stands(path) {
                None => Some("No such file or directory"),
                Some(Node::File(_)) => Some("Not a directory"),
                _ => None,
            },
            Op::Rename { from, .. } => match stands(from) {
                None => Some("No such file or directory"),
                _ => None,
            },
            Op::Symlink { link, .. } => match stands(link) {
                Some(_) => Some("File exists"),
                None => None,
            },
            Op::CreateDirAll { path } => match stands(path) {
                Some(Node::File(_)) => Some("File exists"),
                _ => None,
            },
            Op::CreateFile { path, .. } => match stands(path) {
                Some(Node::Dir) => Some("Is a directory"),
                _ if !self.houses(path) => Some("No such file or directory"),
                _ => None,
            },
        }
    }

    fn perform(&mut self, request: &Request) -> Reply {
        self.asked.push(request.clone());
        for (failing, reason) in self.failing.iter() {
            if failing == request {
                return Reply::Failed(reason.clone());
            }
        }
        match request {
            Request::Get { url } => match self.pages.get(url) {
                Some(reply) => reply.clone(),
                None => Reply::Failed(String::from("unreachable")),
            },
            Request::ReadVersion => self.version.clone(),
            Request::ReadBody { .. } => self.body.clone(),
            Request::ReadFile { path } => match self.nodes.get(path) {
                Some(Node::File(content)) => Reply::Bytes(content.clone()),
                _ => Reply::Failed(String::from("No such file or directory")),
            },
            Request::Exists { path } => Reply::Flag(self.nodes.contains_key(path)),
            Request::IsLink { path } => {
                Reply::Flag(matches!(self.nodes.get(path), Some(Node::Link(_))))
            }
            Request::Perform(op) => match self.refusal(op) {
                Some(reason) => Reply::Failed(String::from(reason)),
                None => {
                    self.change(op);
                    Reply::Done
                }
            },
        }
    }

    fn file(&self, path: &str) -> Option<Vec<u8>> {
        match self.nodes.get(path) {
            Some(Node::File(content)) => Some(content.clone()),
            _ => None,
        }
    }

    fn changes(&self) -> Vec<Op> {
        let mut made = Vec::new();
        for request in self.asked.iter() {
            if let Request::Perform(op) = request {
                made.push(op.clone());
            }
        }
        made
    }
}

fn run_check(fake: &mut Fake) -> Result<CheckResult, Error> {
    let mut progress: Checking = update_checker();
    loop {
        match progress {
            Progress::Ask(check, request) => {
                let reply = fake.perform(&request);
                progress = check.step(reply);
            }
            Progress::Done(outcome) => return outcome,
        }
    }
}

fn run_lookup(fake: &mut Fake) -> Result<String, Error> {
    let mut progress: Looking = get_lastest_version();
    loop {
        match progress {
            Progress::Ask(lookup, request) => {
                let reply = fake.perform(&request);
                progress = lookup.step(reply);
            }
            Progress::Done(outcome) => return outcome,
        }
    }
}

fn run_download(fake: &mut Fake, arch: &str) -> Result<(Vec<u8>, &'static str), Error> {
    let mut progress: Downloading = download_vscode(arch);
    loop {
        match progress {
            Progress::Ask(download, request) => {
                let reply = fake.perform(&request);
                progress = download.step(reply);
            }
            Progress::Done(outcome) => return outcome,
        }
    }
}

fn run_plan(fake: &mut Fake, start: Running) -> Result<(), Error> {
    let mut progress = start;
    loop {
        match progress {
            Progress::Ask(runner, request) => {
                let reply = fake.perform(&request);
                progress = runner.step(reply);
            }
            Progress::Done(outcome) => return outcome,
        }
    }
}

fn run_install(fake: &mut Fake, start: Installing) -> Result<(), Error> {
    let mut progress = start;
    loop {
        match progress {
            Progress::Ask(machine, request) => {
                let reply = fake.perform(&request);
                progress = machine.step(reply);
            }
            Progress::Done(outcome) => return outcome,
        }
    }
}

fn run_setup(fake: &mut Fake, start: SettingUp) -> Result<(), Error> {
    let mut progress = start;
    loop {
        match progress {
            Progress::Ask(machine, request) => {
                let reply = fake.perform(&request);
                progress = machine.step(reply);
            }
            Progress::Done(outcome) => return outcome,
        }
    }
}

fn manifest() -> Manifest {
    Manifest::desktop(
        b"<appdata/>".to_vec(),
        b"[Desktop Entry]".to_vec(),
        b"[Desktop Entry] url".to_vec(),
        b"<mime-info/>".to_vec(),
        vec![0x89, b'P', b'N', b'G'],
    )
}

fn other_manifest() -> Manifest {
    Manifest::desktop(
        b"other appdata".to_vec(),
        b"other desktop".to_vec(),
        b"other handler".to_vec(),
        b"other workspace".to_vec(),
        b"other icon".to_vec(),
    )
}

fn perform(op: Op) -> Request {
    Request::Perform(op)
}

fn probe(path: &str) -> Request {
    Request::Exists { path: String::from(path) }
}

fn remove_file(path: &str) -> Op {
    Op::RemoveFile { path: String::from(path) }
}

// ---- the check ----

#[test]
fn first_check_records_no_version_and_reports_both() {
    let mut fake = Fake::new().with_registry("1.2.3");
    let outcome = run_check(&mut fake);
    assert_eq!(
        outcome,
        Ok(CheckResult::OutOfDate { local: String::from("None"), remote: String::from("1.2.3") })
    );
    assert_eq!(fake.nodes.get(RECORD_DIRECTORY), Some(&Node::Dir));
    assert_eq!(fake.file(RECORD), Some(b"None".to_vec()));
    assert_eq!(
        fake.asked,
        vec![
            Request::Get { url: String::from(REGISTRY) },
            Request::ReadVersion,
            Request::ReadFile { path: String::from(RECORD) },
            perform(Op::CreateDirAll { path: String::from(RECORD_DIRECTORY) }),
            perform(Op::CreateFile { path: String::from(RECORD), content: b"None".to_vec() }),
        ]
    );
}

#[test]
fn check_with_matching_record_is_up_to_date() {
    let mut fake = Fake::new().with_registry("1.2.3").with_file(RECORD, b"1.2.3\n");
    let before = fake.nodes.clone();
    assert_eq!(run_check(&mut fake), Ok(CheckResult::UpToDate));
    assert_eq!(fake.nodes, before);
    assert_eq!(fake.changes(), Vec::<Op>::new());
}

#[test]
fn check_reports_stripped_record_and_remote_verbatim() {
    let mut fake = Fake::new().with_registry("1.2.3 ").with_file(RECORD, b" 1.2 .3\n\n");
    assert_eq!(
        run_check(&mut fake),
        Ok(CheckResult::OutOfDate { local: String::from("1.2.3"), remote: String::from("1.2.3 ") })
    );
}

#[test]
fn check_with_blank_record_is_out_of_date_and_leaves_the_record() {
    let mut fake = Fake::new().with_registry("1.2.3").with_file(RECORD, b"\n  \n");
    assert_eq!(
        run_check(&mut fake),
        Ok(CheckResult::OutOfDate { local: String::new(), remote: String::from("1.2.3") })
    );
    assert_eq!(fake.file(RECORD), Some(b"\n  \n".to_vec()));
    assert_eq!(fake.changes(), Vec::<Op>::new());
}

#[test]
fn check_with_empty_record_starts_over() {
    let mut fake = Fake::new().with_registry("1.2.3").with_file(RECORD, b"");
    assert_eq!(
        run_check(&mut fake),
        Ok(CheckResult::OutOfDate { local: String::from("None"), remote: String::from("1.2.3") })
    );
    assert_eq!(fake.file(RECORD), Some(b"None".to_vec()));
}

#[test]
fn check_with_record_that_is_no_text_starts_over() {
    let mut fake = Fake::new().with_registry("1.2.3").with_file(RECORD, &[0x31, 0xff, 0x32]);
    assert_eq!(
        run_check(&mut fake),
        Ok(CheckResult::OutOfDate { local: String::from("None"), remote: String::from("1.2.3") })
    );
    assert_eq!(fake.file(RECORD), Some(b"None".to_vec()));
}

#[test]
fn check_after_first_check_finds_the_word_for_no_version() {
    let mut fake = Fake::new().with_registry("None");
    assert_eq!(run_check(&mut fake), Ok(CheckResult::UpToDate));
    assert_eq!(fake.file(RECORD), Some(b"None".to_vec()));
}

#[test]
fn check_fails_on_unreachable_registry_before_touching_the_disk() {
    let mut fake = Fake::new();
    assert_eq!(run_check(&mut fake), Err(Error::Network { detail: String::from("unreachable") }));
    assert_eq!(fake.asked, vec![Request::Get { url: String::from(REGISTRY) }]);
}

#[test]
fn check_fails_on_status_outside_success() {
    for code in [199u16, 300, 304, 404, 500] {
        let mut fake = Fake::new();
        fake.pages.insert(String::from(REGISTRY), Reply::Status { code, length: None });
        assert_eq!(run_check(&mut fake), Err(Error::HttpStatus { code }));
        assert_eq!(fake.asked.len(), 1);
    }
}

#[test]
fn check_accepts_every_status_of_success() {
    for code in [200u16, 204, 299] {
        let mut fake = Fake::new().with_registry("7").with_file(RECORD, b"7");
        fake.pages.insert(String::from(REGISTRY), Reply::Status { code, length: Some(3) });
        assert_eq!(run_check(&mut fake), Ok(CheckResult::UpToDate));
    }
}

#[test]
fn check_fails_on_body_without_version() {
    let mut fake = Fake::new().with_registry("1.2.3");
    fake.version = Reply::Failed(String::from("missing field `latest_version`"));
    assert_eq!(
        run_check(&mut fake),
        Err(Error::Parse { detail: String::from("missing field `latest_version`") })
    );
    assert_eq!(fake.asked.len(), 2);
}

#[test]
fn check_fails_where_the_record_directory_cannot_be_made() {
    let mut fake = Fake::new().with_registry("1.2.3").failing(
        perform(Op::CreateDirAll { path: String::from(RECORD_DIRECTORY) }),
        "Permission denied",
    );
    assert_eq!(
        run_check(&mut fake),
        Err(Error::Filesystem { detail: String::from("Permission denied") })
    );
    assert_eq!(fake.file(RECORD), None);
}

#[test]
fn check_fails_where_the_record_cannot_be_written() {
    let mut fake = Fake::new().with_registry("1.2.3").failing(
        perform(Op::CreateFile { path: String::from(RECORD), content: b"None".to_vec() }),
        "Read-only file system",
    );
    assert_eq!(
        run_check(&mut fake),
        Err(Error::Filesystem { detail: String::from("Read-only file system") })
    );
}

#[test]
fn install_follows_every_check_but_one_that_is_up_to_date() {
    assert!(!calls_for_install(&Ok(CheckResult::UpToDate)));
    assert!(calls_for_install(&Ok(CheckResult::OutOfDate {
        local: String::from("None"),
        remote: String::from("1.2.3"),
    })));
    assert!(calls_for_install(&Err(Error::Network { detail: String::new() })));
    assert!(calls_for_install(&Err(Error::HttpStatus { code: 503 })));
}

// ---- the lookup ----

#[test]
fn lookup_returns_the_latest_version() {
    let mut fake = Fake::new().with_registry("1.85.1");
    assert_eq!(run_lookup(&mut fake), Ok(String::from("1.85.1")));
    assert_eq!(
        fake.asked,
        vec![Request::Get { url: String::from(REGISTRY) }, Request::ReadVersion]
    );
}

#[test]
fn lookup_reads_a_wrong_kind_of_reply_as_failure() {
    let mut fake = Fake::new();
    fake.pages.insert(String::from(REGISTRY), Reply::Flag(true));
    assert_eq!(run_lookup(&mut fake), Err(Error::Network { detail: String::new() }));
    let mut fake = Fake::new().with_registry("1");
    fake.version = Reply::Bytes(b"1".to_vec());
    assert_eq!(run_lookup(&mut fake), Err(Error::Parse { detail: String::new() }));
}

// ---- the download ----

#[test]
fn download_for_unsupported_architecture_fails_before_any_request() {
    for arch in ["riscv64", "x86", "", "X86_64", "aarch64 ", "linux-x64"] {
        let mut fake = Fake::new();
        assert_eq!(run_download(&mut fake, arch), Err(Error::UnsupportedArchitecture));
        assert_eq!(fake.asked, Vec::<Request>::new());
        assert_eq!(run_setup(&mut fake, install_vscode(arch, manifest())), Err(
            Error::UnsupportedArchitecture
        ));
        assert_eq!(fake.asked, Vec::<Request>::new());
    }
}

#[test]
fn download_for_x86_64_fetches_the_x64_archive() {
    let mut fake = Fake::new().with_release(RELEASE_X64, Some(5), b"bytes", "VSCode-linux-x64");
    assert_eq!(run_download(&mut fake, "x86_64"), Ok((b"bytes".to_vec(), "linux-x64")));
    assert_eq!(
        fake.asked,
        vec![Request::Get { url: String::from(RELEASE_X64) }, Request::ReadBody { expected: 5 }]
    );
}

#[test]
fn download_for_aarch64_fetches_the_arm64_archive() {
    let mut fake = Fake::new().with_release(RELEASE_ARM64, None, b"arm", "VSCode-linux-arm64");
    assert_eq!(run_download(&mut fake, "aarch64"), Ok((b"arm".to_vec(), "linux-arm64")));
    assert_eq!(
        fake.asked,
        vec![Request::Get { url: String::from(RELEASE_ARM64) }, Request::ReadBody { expected: 0 }]
    );
}

#[test]
fn download_fails_on_status_outside_success() {
    let mut fake = Fake::new();
    fake.pages.insert(String::from(RELEASE_X64), Reply::Status { code: 503, length: Some(9) });
    assert_eq!(run_download(&mut fake, "x86_64"), Err(Error::HttpStatus { code: 503 }));
    assert_eq!(fake.asked.len(), 1);
}

#[test]
fn download_fails_where_the_endpoint_is_unreachable() {
    let mut fake = Fake::new();
    assert_eq!(
        run_download(&mut fake, "x86_64"),
        Err(Error::Network { detail: String::from("unreachable") })
    );
}

#[test]
fn download_fails_where_the_body_breaks_off() {
    let mut fake = Fake::new().with_release(RELEASE_X64, Some(5), b"bytes", "VSCode-linux-x64");
    fake.body = Reply::Failed(String::from("connection reset"));
    assert_eq!(
        run_download(&mut fake, "x86_64"),
        Err(Error::Network { detail: String::from("connection reset") })
    );
}

// ---- the install ----

fn ready() -> Fake {
    Fake::new()
        .with_registry("1.2.3")
        .with_release(RELEASE_X64, Some(3), b"tgz", "VSCode-linux-x64")
        .with_record_directory()
}

#[test]
fn setup_installs_the_release_and_records_the_latest_version() {
    let mut fake = ready();
    assert_eq!(run_setup(&mut fake, install_vscode("x86_64", manifest())), Ok(()));
    assert_eq!(fake.nodes.get("/usr/lib/vscode"), Some(&Node::Dir));
    assert_eq!(fake.file("/usr/lib/vscode/code"), Some(b"elf".to_vec()));
    assert_eq!(
        fake.nodes.get("/usr/bin/vscode"),
        Some(&Node::Link(String::from("/usr/lib/vscode/code")))
    );
    for directory in [
        "/usr/share/appdata",
        "/usr/share/applications",
        "/usr/share/mine/packages",
        "/usr/share/pixmaps",
    ] {
        assert_eq!(fake.nodes.get(directory), Some(&Node::Dir));
    }
    assert_eq!(fake.file("/usr/share/appdata/code.appdata.xml"), Some(b"<appdata/>".to_vec()));
    assert_eq!(
        fake.file("/usr/share/applications/code.desktop"),
        Some(b"[Desktop Entry]".to_vec())
    );
    assert_eq!(
        fake.file("/usr/share/applications/code-url-handler.desktop"),
        Some(b"[Desktop Entry] url".to_vec())
    );
    assert_eq!(
        fake.file("/usr/share/mine/packages/code-workspace.xml"),
        Some(b"<mime-info/>".to_vec())
    );
    assert_eq!(
        fake.file("/usr/share/pixmaps/com.visualstudio.code.png"),
        Some(vec![0x89, b'P', b'N', b'G'])
    );
    assert_eq!(fake.file(RECORD), Some(b"1.2.3".to_vec()));
}

#[test]
fn install_moves_the_whole_unpacked_tree_to_the_release_directory() {
    let mut fake = ready();
    fake.unpacks = vec![
        (String::from("/usr/lib/VSCode-linux-x64"), Node::Dir),
        (String::from("/usr/lib/VSCode-linux-x64/code"), Node::File(b"elf".to_vec())),
        (String::from("/usr/lib/VSCode-linux-x64/bin"), Node::Dir),
        (String::from("/usr/lib/VSCode-linux-x64/bin/code"), Node::File(b"sh".to_vec())),
        (
            String::from("/usr/lib/VSCode-linux-x64/code.lnk"),
            Node::Link(String::from("bin/code")),
        ),
    ];
    assert_eq!(run_setup(&mut fake, install_vscode("x86_64", manifest())), Ok(()));
    let mut tree = Vec::new();
    for (path, node) in fake.nodes.iter() {
        assert!(!within(path, "/usr/lib/VSCode-linux-x64"));
        if within(path, "/usr/lib/vscode") {
            tree.push((path.clone(), node.clone()));
        }
    }
    assert_eq!(
        tree,
        vec![
            (String::from("/usr/lib/vscode"), Node::Dir),
            (String::from("/usr/lib/vscode/bin"), Node::Dir),
            (String::from("/usr/lib/vscode/bin/code"), Node::File(b"sh".to_vec())),
            (String::from("/usr/lib/vscode/code"), Node::File(b"elf".to_vec())),
            (String::from("/usr/lib/vscode/code.lnk"), Node::Link(String::from("bin/code"))),
        ]
    );
}

#[test]
fn install_asks_for_its_changes_in_order() {
    let mut fake = Fake::new()
        .with_registry("9.9")
        .with_release(RELEASE_ARM64, None, b"tgz", "VSCode-linux-arm64")
        .with_record_directory();
    let one = Manifest {
        directories: vec![String::from("/d")],
        assets: vec![Asset { path: String::from("/d/f"), content: b"f".to_vec() }],
    };
    assert_eq!(run_install(&mut fake, install(b"tgz".to_vec(), "linux-arm64", one)), Ok(()));
    assert_eq!(
        fake.asked,
        vec![
            perform(Op::Unpack { archive: b"tgz".to_vec(), into: String::from("/usr/lib") }),
            probe("/usr/lib/vscode"),
            perform(Op::Rename {
                from: String::from("/usr/lib/VSCode-linux-arm64"),
                to: String::from("/usr/lib/vscode"),
            }),
            Request::IsLink { path: String::from("/usr/bin/vscode") },
            perform(Op::Symlink {
                target: String::from("/usr/lib/vscode/code"),
                link: String::from("/usr/bin/vscode"),
            }),
            perform(Op::CreateDirAll { path: String::from("/d") }),
            probe("/d/f"),
            perform(Op::CreateFile { path: String::from("/d/f"), content: b"f".to_vec() }),
            Request::Get { url: String::from(REGISTRY) },
            Request::ReadVersion,
            perform(Op::CreateFile { path: String::from(RECORD), content: b"9.9".to_vec() }),
        ]
    );
}

#[test]
fn second_install_replaces_the_release_and_keeps_the_desktop_files() {
    let mut fake = Fake::new()
        .with_registry("2.0")
        .with_release(RELEASE_X64, None, b"new", "VSCode-linux-x64")
        .with_record_directory()
        .with_node("/usr/lib/vscode", Node::Dir)
        .with_file("/usr/lib/vscode/code", b"old elf")
        .with_file("/usr/lib/vscode/leftover", b"old")
        .with_node("/usr/bin/vscode", Node::Link(String::from("/somewhere/else")))
        .with_node("/usr/share/applications", Node::Dir)
        .with_file("/usr/share/applications/code.desktop", b"old entry")
        .with_file(RECORD, b"1.0.0-much-longer");
    assert_eq!(run_setup(&mut fake, install_vscode("x86_64", manifest())), Ok(()));
    assert_eq!(fake.file("/usr/lib/vscode/code"), Some(b"elf".to_vec()));
    assert_eq!(fake.file("/usr/lib/vscode/leftover"), None);
    assert_eq!(
        fake.nodes.get("/usr/bin/vscode"),
        Some(&Node::Link(String::from("/usr/lib/vscode/code")))
    );
    assert_eq!(fake.file("/usr/share/applications/code.desktop"), Some(b"old entry".to_vec()));
    assert_eq!(fake.file("/usr/share/appdata/code.appdata.xml"), Some(b"<appdata/>".to_vec()));
    assert_eq!(fake.file(RECORD), Some(b"2.0".to_vec()));
    assert_eq!(
        fake.changes().iter().filter(|op| matches!(op, Op::RemoveFile { .. })).count(),
        1
    );
}

#[test]
fn install_twice_in_a_row_succeeds() {
    let mut fake = ready();
    assert_eq!(run_setup(&mut fake, install_vscode("x86_64", manifest())), Ok(()));
    let once = fake.nodes.clone();
    assert_eq!(run_setup(&mut fake, install_vscode("x86_64", other_manifest())), Ok(()));
    assert_eq!(fake.nodes, once);
}

#[test]
fn record_after_install_reads_as_the_latest_version_stripped() {
    for (latest, read) in [("1.2.3", "1.2.3"), (" 1.85.0\n", "1.85.0"), ("v 2", "v2")] {
        let mut fake = Fake::new()
            .with_registry(latest)
            .with_release(RELEASE_X64, None, b"tgz", "VSCode-linux-x64")
            .with_record_directory()
            .with_file(RECORD, b"0.0.0-something-long");
        assert_eq!(run_setup(&mut fake, install_vscode("x86_64", manifest())), Ok(()));
        let content = fake.file(RECORD).unwrap();
        assert_eq!(content, latest.as_bytes().to_vec());
        assert_eq!(read_record(&content), Ok(String::from(read)));
    }
}

#[test]
fn record_after_install_of_an_empty_version_holds_nothing() {
    let mut fake = Fake::new()
        .with_registry("")
        .with_release(RELEASE_X64, None, b"tgz", "VSCode-linux-x64")
        .with_record_directory();
    assert_eq!(run_setup(&mut fake, install_vscode("x86_64", manifest())), Ok(()));
    let content = fake.file(RECORD).unwrap();
    assert_eq!(read_record(&content), Err(Error::EmptyState));
}

fn fails_and_keeps_the_record(mut fake: Fake, expected: Error) -> Fake {
    fake = fake.with_file(RECORD, b"1.0.0\n");
    assert_eq!(run_setup(&mut fake, install_vscode("x86_64", manifest())), Err(expected));
    assert_eq!(fake.file(RECORD), Some(b"1.0.0\n".to_vec()));
    fake
}

#[test]
fn install_reports_an_archive_that_cannot_be_unpacked() {
    let unpack = perform(Op::Unpack { archive: b"tgz".to_vec(), into: String::from("/usr/lib") });
    let fake = fails_and_keeps_the_record(
        ready().failing(unpack.clone(), "invalid gzip header"),
        Error::Filesystem { detail: String::from("invalid gzip header") },
    );
    assert_eq!(fake.asked.last(), Some(&unpack));
}

#[test]
fn install_reports_a_release_directory_that_cannot_be_deleted() {
    let fake = fails_and_keeps_the_record(
        ready().with_file("/usr/lib/vscode", b"a file"),
        Error::Filesystem { detail: String::from("Not a directory") },
    );
    assert_eq!(fake.file("/usr/lib/vscode"), Some(b"a file".to_vec()));
}

#[test]
fn install_reports_a_missing_unpacked_directory() {
    let mut fake = ready();
    fake.unpacks = vec![(String::from("/usr/lib/Other"), Node::Dir)];
    let fake = fails_and_keeps_the_record(
        fake,
        Error::Filesystem { detail: String::from("No such file or directory") },
    );
    assert_eq!(fake.nodes.get("/usr/bin/vscode"), None);
}

#[test]
fn install_fails_on_a_file_at_the_place_of_the_link() {
    let fake = fails_and_keeps_the_record(
        ready().with_file("/usr/bin/vscode", b"#!/bin/sh"),
        Error::Symlink {
            detail: String::from(
                "Could not create symlink for the vscode executable! File exists",
            ),
        },
    );
    assert_eq!(fake.file("/usr/bin/vscode"), Some(b"#!/bin/sh".to_vec()));
    assert_eq!(fake.nodes.get("/usr/share/appdata"), None);
    for request in fake.asked.iter() {
        assert!(!matches!(request, Request::Get { url } if url == REGISTRY));
    }
}

#[test]
fn install_reports_a_directory_that_cannot_be_made() {
    fails_and_keeps_the_record(
        ready().with_file("/usr/share/applications", b"a file"),
        Error::Filesystem {
            detail: String::from(
                "Failed to create directory /usr/share/applications: File exists.",
            ),
        },
    );
}

#[test]
fn install_reports_a_file_that_cannot_be_installed() {
    let write = perform(Op::CreateFile {
        path: String::from("/usr/share/pixmaps/com.visualstudio.code.png"),
        content: vec![0x89, b'P', b'N', b'G'],
    });
    fails_and_keeps_the_record(
        ready().failing(write, "No space left on device"),
        Error::Filesystem {
            detail: String::from(
                "Failed to install /usr/share/pixmaps/com.visualstudio.code.png: No space left on device."
            ),
        },
    );
}

#[test]
fn install_without_registry_keeps_the_record() {
    let mut fake = ready();
    fake.pages.remove(REGISTRY);
    let fake =
        fails_and_keeps_the_record(fake, Error::Network { detail: String::from("unreachable") });
    assert_eq!(fake.nodes.get("/usr/lib/vscode"), Some(&Node::Dir));
}

#[test]
fn install_with_registry_that_gives_no_version_keeps_the_record() {
    let mut fake = ready();
    fake.version = Reply::Failed(String::from("expected value"));
    fails_and_keeps_the_record(fake, Error::Parse { detail: String::from("expected value") });
}

#[test]
fn install_reports_a_record_that_cannot_be_written() {
    let mut fake = Fake::new().with_registry("1.2.3").with_release(
        RELEASE_X64,
        None,
        b"tgz",
        "VSCode-linux-x64",
    );
    assert_eq!(
        run_setup(&mut fake, install_vscode("x86_64", manifest())),
        Err(Error::Filesystem { detail: String::from("No such file or directory") })
    );
    assert_eq!(fake.file(RECORD), None);
    assert_eq!(fake.nodes.get(RECORD_DIRECTORY), None);
}

// ---- the desktop integration ----

#[test]
fn manifest_install_writes_only_what_is_missing() {
    let mut fake = Fake::new()
        .with_node("/usr/share/applications", Node::Dir)
        .with_file("/usr/share/applications/code.desktop", b"mine");
    assert_eq!(run_plan(&mut fake, Runner::start(plan_manifest(manifest()))), Ok(()));
    assert_eq!(fake.file("/usr/share/applications/code.desktop"), Some(b"mine".to_vec()));
    assert_eq!(fake.file("/usr/share/appdata/code.appdata.xml"), Some(b"<appdata/>".to_vec()));
}

#[test]
fn second_manifest_install_overwrites_nothing() {
    let mut fake = Fake::new();
    assert_eq!(run_plan(&mut fake, Runner::start(plan_manifest(manifest()))), Ok(()));
    let once = fake.nodes.clone();
    fake.asked.clear();
    assert_eq!(run_plan(&mut fake, Runner::start(plan_manifest(other_manifest()))), Ok(()));
    assert_eq!(fake.nodes, once);
    for op in fake.changes() {
        assert!(matches!(op, Op::CreateDirAll { .. }));
    }
}

#[test]
fn integration_replaces_a_link_and_links_the_executable_first() {
    let plan = install_beyond(manifest());
    assert_eq!(plan.len(), 11);
    assert_eq!(
        plan[0],
        Instr {
            guard: Guard::IfLink,
            op: Op::RemoveFile { path: String::from("/usr/bin/vscode") },
            blame: Blame::Plain,
        }
    );
    assert_eq!(
        plan[1],
        Instr {
            guard: Guard::Always,
            op: Op::Symlink {
                target: String::from("/usr/lib/vscode/code"),
                link: String::from("/usr/bin/vscode"),
            },
            blame: Blame::Link,
        }
    );
}

// ---- the removal ----

fn installed() -> Fake {
    let mut fake = ready();
    assert_eq!(run_setup(&mut fake, install_vscode("x86_64", manifest())), Ok(()));
    fake.asked.clear();
    fake
}

#[test]
fn removal_deletes_what_was_installed() {
    let mut fake = installed();
    assert_eq!(run_plan(&mut fake, remove_vscode(&manifest())), Ok(()));
    assert_eq!(fake.nodes.get("/usr/lib/vscode"), None);
    assert_eq!(fake.nodes.get("/usr/lib/vscode/code"), None);
    assert_eq!(fake.nodes.get("/usr/bin/vscode"), None);
    assert_eq!(fake.nodes.get(RECORD), None);
    assert_eq!(fake.nodes.get("/usr/share/pixmaps/com.visualstudio.code.png"), None);
    assert_eq!(fake.nodes.get("/usr/share/appdata/code.appdata.xml"), None);
    assert_eq!(fake.nodes.get("/usr/share/pixmaps"), Some(&Node::Dir));
    assert_eq!(
        fake.changes(),
        vec![
            remove_file("/usr/share/appdata/code.appdata.xml"),
            remove_file("/usr/share/applications/code.desktop"),
            remove_file("/usr/share/applications/code-url-handler.desktop"),
            remove_file("/usr/share/mine/packages/code-workspace.xml"),
            remove_file("/usr/share/pixmaps/com.visualstudio.code.png"),
            Op::RemoveDirAll { path: String::from("/usr/lib/vscode") },
            remove_file("/usr/bin/vscode"),
            remove_file(RECORD),
        ]
    );
}

#[test]
fn second_removal_changes_nothing_and_succeeds() {
    let mut fake = installed();
    assert_eq!(run_plan(&mut fake, remove_vscode(&manifest())), Ok(()));
    let once = fake.nodes.clone();
    fake.asked.clear();
    assert_eq!(run_plan(&mut fake, remove_vscode(&manifest())), Ok(()));
    assert_eq!(fake.nodes, once);
    assert_eq!(fake.changes(), Vec::<Op>::new());
    assert_eq!(fake.asked.len(), 9);
}

#[test]
fn removal_of_nothing_succeeds() {
    let mut fake = Fake::new();
    assert_eq!(run_plan(&mut fake, remove_vscode(&manifest())), Ok(()));
    assert_eq!(fake.nodes, BTreeMap::new());
    assert_eq!(
        fake.asked,
        vec![
            probe("/usr/share/appdata/code.appdata.xml"),
            probe("/usr/share/applications/code.desktop"),
            probe("/usr/share/applications/code-url-handler.desktop"),
            probe("/usr/share/mine/packages/code-workspace.xml"),
            probe("/usr/share/pixmaps/com.visualstudio.code.png"),
            probe("/usr/lib/vscode"),
            Request::IsLink { path: String::from("/usr/bin/vscode") },
            probe("/usr/bin/vscode"),
            probe(RECORD),
        ]
    );
}

#[test]
fn removal_deletes_a_file_at_the_place_of_the_link() {
    let mut fake = Fake::new().with_file("/usr/bin/vscode", b"#!/bin/sh");
    assert_eq!(run_plan(&mut fake, remove_vscode(&manifest())), Ok(()));
    assert_eq!(fake.changes(), vec![remove_file("/usr/bin/vscode")]);
    assert_eq!(fake.nodes, BTreeMap::new());
}

#[test]
fn removal_stops_at_the_first_failure() {
    let mut fake = installed().failing(
        perform(remove_file("/usr/share/applications/code.desktop")),
        "Permission denied",
    );
    assert_eq!(
        run_plan(&mut fake, remove_vscode(&manifest())),
        Err(Error::Filesystem { detail: String::from("Permission denied") })
    );
    assert_eq!(fake.nodes.get("/usr/share/appdata/code.appdata.xml"), None);
    assert_eq!(fake.nodes.get("/usr/lib/vscode"), Some(&Node::Dir));
    assert_eq!(fake.asked.len(), 4);
}
