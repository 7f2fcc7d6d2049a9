use vsdown::error::{decimal_text, Error};
use vsdown::layout::{arch_tag, download_url, marker_path, unpacked_path};
use vsdown::manifest::Manifest;
use vsdown::version::{compare, get_current_version, read_record, CheckResult};
use vsdown::wire::Reply;

#[test]
fn record_with_trailing_newline_gives_the_version() {
    assert_eq!(read_record(&b"1.2.3\n".to_vec()), Ok(String::from("1.2.3")));
}

#[test]
fn record_loses_every_newline_and_space() {
    assert_eq!(read_record(&b" 1 .2\n.3 \n\n".to_vec()), Ok(String::from("1.2.3")));
}

#[test]
fn record_keeps_other_white_space() {
    assert_eq!(read_record(&b"1.2\t.3\r\n".to_vec()), Ok(String::from("1.2\t.3\r")));
}

#[test]
fn record_keeps_characters_of_several_bytes() {
    let content = "v1 – bêta \u{1F600}\n".as_bytes().to_vec();
    assert_eq!(read_record(&content), Ok(String::from("v1–bêta\u{1F600}")));
}

#[test]
fn record_of_blanks_gives_the_empty_version() {
    assert_eq!(read_record(&b"\n".to_vec()), Ok(String::new()));
    assert_eq!(read_record(&b"  \n \n".to_vec()), Ok(String::new()));
}

#[test]
fn record_that_holds_nothing_gives_no_version() {
    assert_eq!(read_record(&Vec::new()), Err(Error::EmptyState));
}

#[test]
fn record_that_is_no_text_gives_no_version() {
    let expected =
        Err(Error::NotFound { detail: String::from("The version record is not valid UTF-8.") });
    assert_eq!(read_record(&vec![0xff]), expected);
    assert_eq!(read_record(&vec![b'1', 0xc3]), expected);
    assert_eq!(read_record(&vec![0xc3, b' ', 0xa9]), expected);
    assert_eq!(read_record(&vec![0xed, 0xa0, 0x80]), expected);
    assert_eq!(read_record(&vec![0xc0, 0x8a]), expected);
}

#[test]
fn reply_with_bytes_is_read_as_the_record() {
    assert_eq!(get_current_version(Reply::Bytes(b"1.0\n".to_vec())), Ok(String::from("1.0")));
    assert_eq!(get_current_version(Reply::Bytes(Vec::new())), Err(Error::EmptyState));
}

#[test]
fn reply_without_bytes_gives_no_version() {
    assert_eq!(
        get_current_version(Reply::Failed(String::from("No such file or directory"))),
        Err(Error::NotFound { detail: String::from("No such file or directory") })
    );
    assert_eq!(
        get_current_version(Reply::Text(String::from("1.0"))),
        Err(Error::NotFound { detail: String::new() })
    );
    assert_eq!(get_current_version(Reply::Done), Err(Error::NotFound { detail: String::new() }));
}

#[test]
fn equal_versions_are_up_to_date() {
    assert_eq!(compare(String::from("1.2.3"), String::from("1.2.3")), CheckResult::UpToDate);
    assert_eq!(compare(String::new(), String::new()), CheckResult::UpToDate);
}

#[test]
fn differing_versions_are_reported_as_they_are() {
    assert_eq!(
        compare(String::from("1.2.3"), String::from("1.2.3 ")),
        CheckResult::OutOfDate { local: String::from("1.2.3"), remote: String::from("1.2.3 ") }
    );
    assert_eq!(
        compare(String::from("1.10.0"), String::from("1.9.0")),
        CheckResult::OutOfDate { local: String::from("1.10.0"), remote: String::from("1.9.0") }
    );
    assert_eq!(
        compare(String::new(), String::from("1")),
        CheckResult::OutOfDate { local: String::new(), remote: String::from("1") }
    );
}

#[test]
fn finding_is_worded_for_the_user() {
    assert_eq!(
        CheckResult::OutOfDate { local: String::from("None"), remote: String::from("1.2.3") }
            .message(),
        "Different/newer Visual Studio Code version found. Current version: None, latest available version: 1.2.3."
    );
    assert_eq!(
        CheckResult::UpToDate.message(),
        "You have already installed the latest Visual Studio Code release!"
    );
}

#[test]
fn error_is_worded_for_the_user() {
    assert_eq!(Error::Network { detail: String::from("timed out") }.message(), "timed out");
    assert_eq!(
        Error::HttpStatus { code: 404 }.message(),
        "The server answered with the HTTP status 404."
    );
    assert_eq!(
        Error::HttpStatus { code: 0 }.message(),
        "The server answered with the HTTP status 0."
    );
    assert_eq!(
        Error::HttpStatus { code: 65535 }.message(),
        "The server answered with the HTTP status 65535."
    );
    assert_eq!(Error::Parse { detail: String::from("EOF") }.message(), "EOF");
    assert_eq!(Error::NotFound { detail: String::from("gone") }.message(), "gone");
    assert_eq!(
        Error::EmptyState.message(),
        "Failed to detect Visual Studio Code version for the current installation!"
    );
    assert_eq!(
        Error::UnsupportedArchitecture.message(),
        "Unfortunately, Visual Studio Code does not support your device's architecture."
    );
    assert_eq!(Error::Filesystem { detail: String::from("full") }.message(), "full");
    assert_eq!(Error::Symlink { detail: String::from("taken") }.message(), "taken");
}

#[test]
fn numbers_are_written_in_decimal() {
    assert_eq!(decimal_text(0), "0");
    assert_eq!(decimal_text(7), "7");
    assert_eq!(decimal_text(10), "10");
    assert_eq!(decimal_text(503), "503");
    assert_eq!(decimal_text(1000), "1000");
    assert_eq!(decimal_text(65535), "65535");
}

#[test]
fn architectures_have_their_tags() {
    assert_eq!(arch_tag("x86_64"), Some("linux-x64"));
    assert_eq!(arch_tag("aarch64"), Some("linux-arm64"));
    assert_eq!(arch_tag("arm"), None);
    assert_eq!(arch_tag("x86_64 "), None);
    assert_eq!(arch_tag(""), None);
}

#[test]
fn places_are_built_from_their_parts() {
    assert_eq!(marker_path(), "/var/lib/vsdown/current_version");
    assert_eq!(unpacked_path("linux-x64"), "/usr/lib/VSCode-linux-x64");
    assert_eq!(
        download_url("linux-arm64"),
        "https://code.visualstudio.com/sha/download?build=stable&os=linux-arm64"
    );
}

#[test]
fn desktop_manifest_has_its_places_in_order() {
    let m = Manifest::desktop(vec![1], vec![2], vec![3], vec![4], vec![5]);
    assert_eq!(
        m.directories,
        vec![
            String::from("/usr/share/appdata"),
            String::from("/usr/share/applications"),
            String::from("/usr/share/mine/packages"),
            String::from("/usr/share/pixmaps"),
        ]
    );
    let places: Vec<(String, Vec<u8>)> =
        m.assets.iter().map(|a| (a.path.clone(), a.content.clone())).collect();
    assert_eq!(
        places,
        vec![
            (String::from("/usr/share/appdata/code.appdata.xml"), vec![1]),
            (String::from("/usr/share/applications/code.desktop"), vec![2]),
            (String::from("/usr/share/applications/code-url-handler.desktop"), vec![3]),
            (String::from("/usr/share/mine/packages/code-workspace.xml"), vec![4]),
            (String::from("/usr/share/pixmaps/com.visualstudio.code.png"), vec![5]),
        ]
    );
}
