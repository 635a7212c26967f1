use turmy::archive::{extract_binary, is_binary_path, select_binary, ArchiveEntry};
use turmy::checksum::{check_digest, hex_text, sha256_hex, verify_sha256};
use turmy::update_flow::{start, step, UpdateAction, UpdateEvent, UpdateState};
use turmy::updater::{
    asset_url, check_release, check_system, describe_status, read_confirmation, update_files,
    Asset, Release, UpdateError, UpdateStatus,
};
use turmy::version::{parse_release_version, Order, Version};

fn version(major: u64, minor: u64, patch: u64) -> Version {
    Version { major, minor, patch, pre: String::new(), build: String::new() }
}

fn parsed(text: &str) -> Version {
    parse_release_version(text).unwrap()
}

fn release(tag: &str, names: &[&str]) -> Release {
    Release {
        tag_name: tag.to_string(),
        assets: names
            .iter()
            .map(|name| Asset {
                name: name.to_string(),
                browser_download_url: format!("https://example.org/{name}"),
            })
            .collect(),
    }
}

fn test_archive(files: &[(&str, &[u8])]) -> Vec<u8> {
    let encoder =
        flate2::write::GzEncoder::new(Vec::new(), flate2::Compression::default());
    let mut builder = tar::Builder::new(encoder);
    for (name, contents) in files {
        let mut header = tar::Header::new_gnu();
        header.set_size(contents.len() as u64);
        header.set_mode(0o755);
        header.set_cksum();
        builder.append_data(&mut header, name, *contents).unwrap();
    }
    let encoder = builder.into_inner().unwrap();
    encoder.finish().unwrap()
}

#[test]
fn parses_release_tags_with_or_without_v() {
    assert_eq!(parse_release_version("v1.2.3").unwrap(), version(1, 2, 3));
    assert_eq!(parse_release_version("1.2.3").unwrap(), version(1, 2, 3));
}

#[test]
fn confirmation_accepts_only_yes() {
    assert!(read_confirmation("y\n"));
    assert!(read_confirmation("YES\n"));
    assert!(!read_confirmation("\n"));
    assert!(!read_confirmation("no\n"));
}

#[test]
fn verifies_valid_checksum_and_rejects_mismatch() {
    let archive = b"downloaded archive";
    let checksum = format!("{}\n", sha256_hex(archive));
    assert!(verify_sha256(archive, checksum.as_bytes()).is_ok());
    assert!(verify_sha256(archive, &[b'0'; 64]).is_err());
}

#[test]
fn extracts_only_the_expected_binary() {
    let archive = test_archive(&[("README", b"ignored"), ("turmy", b"new executable")]);

    assert_eq!(extract_binary(&archive).unwrap(), b"new executable");
}

#[test]
fn rejects_archive_without_binary() {
    let archive = test_archive(&[("other", b"not the executable")]);
    assert!(extract_binary(&archive).is_err());
    assert_eq!(
        extract_binary(&archive).unwrap_err().message(),
        "release archive does not contain a turmy binary"
    );
}

#[test]
fn rejects_archive_with_two_binaries() {
    let archive = test_archive(&[("turmy", b"one"), ("turmy", b"two")]);
    assert_eq!(
        extract_binary(&archive).unwrap_err().message(),
        "release archive contains more than one turmy binary"
    );
}

#[test]
fn rejects_archive_that_is_cut_off() {
    let contents = [7u8; 5000];
    let archive = test_archive(&[("turmy", &contents)]);
    let error = extract_binary(&archive[..archive.len() - 12]).unwrap_err();
    assert!(matches!(error, UpdateError::Archive { .. }));
    let error = extract_binary(b"no gzip").unwrap_err();
    assert!(matches!(error, UpdateError::Archive { .. }));
}

#[test]
fn a_second_binary_counts_before_a_read_error() {
    let entry = |contents: &[u8]| ArchiveEntry {
        path: b"turmy".to_vec(),
        is_file: true,
        contents: contents.to_vec(),
    };
    let reason = Some("broken".to_string());
    assert!(matches!(
        select_binary(vec![entry(b"a"), entry(b"b")], reason.clone()),
        Err(UpdateError::DuplicateBinary)
    ));
    let error = select_binary(vec![entry(b"a")], reason).unwrap_err();
    assert_eq!(error.message(), "broken");
    assert_eq!(select_binary(vec![entry(b"a")], None).unwrap(), b"a");
}

#[test]
fn a_directory_is_no_binary() {
    let entry = ArchiveEntry { path: b"turmy/".to_vec(), is_file: false, contents: Vec::new() };
    assert!(matches!(select_binary(vec![entry], None), Err(UpdateError::NoBinary)));
}

#[test]
fn binary_paths_are_compared_by_components() {
    for path in ["turmy", "turmy/", "turmy//", "turmy/.", "turmy/./"] {
        assert!(is_binary_path(path.as_bytes()));
        assert_eq!(std::path::Path::new(path), std::path::Path::new("turmy"));
    }
    for path in ["", "./turmy", "/turmy", "turmy/..", "bin/turmy", "turmyx", "turm", "turmy/x"] {
        assert!(!is_binary_path(path.as_bytes()));
        assert_ne!(std::path::Path::new(path), std::path::Path::new("turmy"));
    }
}

#[test]
fn digests_are_written_in_lower_case_hexadecimal() {
    assert_eq!(hex_text(&[0x00, 0x0f, 0xa0, 0xff]), "000fa0ff");
    assert_eq!(
        sha256_hex(b"abc"),
        "ba7816bf8f01cfea414140de5dae2223b00361a396177a9cb410ff61f20015ad"
    );
}

#[test]
fn checksum_files_may_name_the_archive_and_use_capitals() {
    let digest = sha256_hex(b"x");
    let file = format!("\n  {}  turmy.tar.gz\n", digest.to_uppercase());
    assert!(check_digest(&digest, file.as_bytes()).is_ok());
    assert!(verify_sha256(b"x", file.as_bytes()).is_ok());
    assert!(verify_sha256(b"y", file.as_bytes()).is_err());
}

#[test]
fn checksum_files_are_refused_for_a_reason() {
    let message = |file: &[u8]| check_digest("ab", file).unwrap_err().message();
    assert_eq!(message(b""), "release checksum file is not a valid SHA-256 checksum");
    assert_eq!(message(&[b'g'; 64]), "release checksum file is not a valid SHA-256 checksum");
    assert_eq!(message(&[b'0'; 63]), "release checksum file is not a valid SHA-256 checksum");
    assert_eq!(message(b"ab\xffc"), "invalid utf-8 sequence of 1 bytes from index 2");
    assert_eq!(message(b"ab\xe2\x82"), "incomplete utf-8 byte sequence from index 2");
    assert_eq!(
        message(&[b'0'; 64]),
        format!("SHA-256 mismatch: expected {}, downloaded archive is ab", "0".repeat(64))
    );
    for file in [&b"ab\xffc"[..], b"ab\xe2\x82", b"\xed\xa0\x80", b"a\xf0\x9f\x98"] {
        assert_eq!(message(file), std::str::from_utf8(file).unwrap_err().to_string());
    }
}

#[test]
fn versions_are_ordered() {
    let order = |a: &str, b: &str| parsed(a).order(&parsed(b));
    assert_eq!(order("1.2.3", "v1.2.3"), Order::Equal);
    assert_eq!(order("1.2.4", "1.2.3"), Order::Greater);
    assert_eq!(order("1.3.0", "1.2.9"), Order::Greater);
    assert_eq!(order("0.9.9", "1.0.0"), Order::Less);
    assert_eq!(order("1.0.0-rc.1", "1.0.0"), Order::Less);
    assert_eq!(order("1.0.0-rc.2", "1.0.0-rc.10"), Order::Less);
    assert_eq!(order("1.0.0+b", "1.0.0+a"), Order::Greater);
    for (a, b) in [("1.0.0-a", "1.0.0-b"), ("1.0.0+1", "1.0.0"), ("2.0.0-x+1", "2.0.0-x+1")] {
        let outside = semver::Version::parse(a).unwrap().cmp(&semver::Version::parse(b).unwrap());
        let expected = match outside {
            std::cmp::Ordering::Less => Order::Less,
            std::cmp::Ordering::Equal => Order::Equal,
            std::cmp::Ordering::Greater => Order::Greater,
        };
        assert_eq!(order(a, b), expected);
    }
}

#[test]
fn versions_are_written_as_they_are_read() {
    for text in ["1.2.3", "0.10.0-alpha.1", "1.0.0+build.5", "1.0.0-rc.1+x"] {
        assert_eq!(parsed(text).to_text(), text);
    }
}

#[test]
fn bad_tags_are_reported() {
    assert_eq!(
        parse_release_version("vv1.2.3").unwrap_err(),
        "unexpected character 'v' while parsing major version number"
    );
    assert_eq!(
        parse_release_version("v").unwrap_err(),
        "empty string, expected a semver version"
    );
}

#[test]
fn releases_are_compared_with_the_running_build() {
    let current = version(1, 2, 3);
    let check = |tag: &str| check_release(&current, &release(tag, &[])).unwrap();
    let (latest, status) = check("v1.2.3");
    assert_eq!(status, UpdateStatus::UpToDate);
    assert_eq!(describe_status(status, &current, &latest), "turmy 1.2.3 is already up to date.");
    let (latest, status) = check("v1.2.2");
    assert_eq!(status, UpdateStatus::BuildIsNewer);
    assert_eq!(
        describe_status(status, &current, &latest),
        "This turmy build (1.2.3) is newer than the latest GitHub release (1.2.2)."
    );
    let (latest, status) = check("v2.0.0");
    assert_eq!(status, UpdateStatus::Available);
    assert_eq!(
        describe_status(status, &current, &latest),
        "A new version is available: 1.2.3 -> 2.0.0"
    );
    let error = check_release(&current, &release("nightly", &[])).unwrap_err();
    assert!(matches!(error, UpdateError::Version { .. }));
}

#[test]
fn update_files_are_found_by_platform() {
    let all = release("v1", &["turmy-arm.tar.gz", "turmy-arm.tar.gz.sha256"]);
    let files = update_files(&all, "arm").unwrap();
    assert_eq!(files.archive_name, "turmy-arm.tar.gz");
    assert_eq!(files.archive_url, "https://example.org/turmy-arm.tar.gz");
    assert_eq!(files.checksum_url, "https://example.org/turmy-arm.tar.gz.sha256");
    assert_eq!(asset_url(&all, "turmy-arm.tar.gz").unwrap(), files.archive_url);

    let error = update_files(&all, "mips").unwrap_err();
    assert_eq!(
        error.message(),
        "release v1 has no asset named turmy-mips.tar.gz; this platform may not be supported"
    );
    let error = update_files(&release("v1", &["turmy-arm.tar.gz"]), "arm").unwrap_err();
    assert_eq!(
        error.message(),
        "release v1 has no asset named turmy-arm.tar.gz.sha256; this platform may not be supported"
    );
}

#[test]
fn updates_are_for_linux() {
    assert!(check_system("linux").is_ok());
    assert_eq!(
        check_system("macos").unwrap_err().message(),
        "self-update is currently supported only on Linux"
    );
}

#[test]
fn confirmation_ignores_white_space_and_case() {
    assert!(read_confirmation(" \tYeS \r\n"));
    assert!(!read_confirmation("yes please"));
    assert!(!read_confirmation(""));
}

#[test]
fn an_update_runs_from_the_release_to_the_installation() {
    let all = release("v1.1.0", &["turmy-arm.tar.gz", "turmy-arm.tar.gz.sha256"]);
    let state = start("1.0.0", "arm").unwrap();
    let (state, action) = step(state, UpdateEvent::Found(all));
    assert!(matches!(
        action,
        UpdateAction::Ask { message } if message == "A new version is available: 1.0.0 -> 1.1.0"
    ));
    let (state, action) = step(state, UpdateEvent::Answered("yes\n".to_string()));
    match action {
        UpdateAction::Download { message, url } => {
            assert_eq!(message.as_deref(), Some("Downloading turmy-arm.tar.gz..."));
            assert_eq!(url, "https://example.org/turmy-arm.tar.gz");
        }
        _ => panic!("a download was expected"),
    }
    let (state, action) = step(state, UpdateEvent::Downloaded(b"archive".to_vec()));
    assert!(matches!(
        action,
        UpdateAction::Download { message: None, url }
            if url == "https://example.org/turmy-arm.tar.gz.sha256"
    ));
    let checksum = sha256_hex(b"archive").into_bytes();
    let (state, action) = step(state, UpdateEvent::Downloaded(checksum));
    match action {
        UpdateAction::Install { message, archive } => {
            assert_eq!(message, "SHA-256 checksum verified.");
            assert_eq!(archive, b"archive");
        }
        _ => panic!("an installation was expected"),
    }
    let (state, action) = step(state, UpdateEvent::Installed);
    assert!(matches!(
        action,
        UpdateAction::Finish { message } if message == "Successfully upgraded turmy to 1.1.0."
    ));
    let (state, action) = step(state, UpdateEvent::Installed);
    assert!(matches!((state, action), (UpdateState::Over, UpdateAction::Wait)));
}

#[test]
fn an_update_ends_where_it_is_not_wanted_or_not_possible() {
    let names = ["turmy-arm.tar.gz", "turmy-arm.tar.gz.sha256"];
    let found = |tag: &str, target: &str| {
        step(start("1.0.0", target).unwrap(), UpdateEvent::Found(release(tag, &names)))
    };
    assert!(matches!(
        found("v1.0.0", "arm"),
        (UpdateState::Over, UpdateAction::Finish { message })
            if message == "turmy 1.0.0 is already up to date."
    ));
    assert!(matches!(
        found("v2.0.0", "mips"),
        (
            UpdateState::Over,
            UpdateAction::Fail { message: Some(_), error: UpdateError::MissingAsset { .. } }
        )
    ));
    assert!(matches!(
        found("latest", "arm"),
        (
            UpdateState::Over,
            UpdateAction::Fail { message: None, error: UpdateError::Version { .. } }
        )
    ));
    let (state, _) = found("v2.0.0", "arm");
    let (state, action) = step(state, UpdateEvent::Installed);
    assert!(matches!((&state, action), (UpdateState::Asking { .. }, UpdateAction::Wait)));
    assert!(matches!(
        step(state, UpdateEvent::Answered("\n".to_string())),
        (UpdateState::Over, UpdateAction::Finish { message }) if message == "Upgrade cancelled."
    ));
    let (state, _) = found("v2.0.0", "arm");
    let (state, _) = step(state, UpdateEvent::Answered("y".to_string()));
    let (state, _) = step(state, UpdateEvent::Downloaded(b"archive".to_vec()));
    assert!(matches!(
        step(state, UpdateEvent::Downloaded(vec![b'0'; 64])),
        (
            UpdateState::Over,
            UpdateAction::Fail { message: None, error: UpdateError::Mismatch { .. } }
        )
    ));
    assert!(start("one", "arm").is_err());
}

#[test]
fn the_version_of_a_build_is_no_tag() {
    assert!(parse_release_version("v1.2.3").is_ok());
    assert!(matches!(start("v1.2.3", "arm"), Err(UpdateError::Version { .. })));
    assert!(matches!(
        start("1.2.3", "arm"),
        Ok(UpdateState::Checking { current, target })
            if current.to_text() == "1.2.3" && target == "arm"
    ));
}
