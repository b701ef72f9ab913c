//! The host system.
use aishell::system_info::{
    detect_distribution, parse_os_release, parse_value, read_bounded, DistributionInfo, SystemInfo,
    MAX_OS_RELEASE_BYTES,
};

#[test]
fn parses_only_package_relevant_os_release_fields() {
    let distribution = parse_os_release(
        r#"
                PRETTY_NAME="Ubuntu 24.04.3 LTS"
                NAME="Ubuntu"
                ID=ubuntu
                ID_LIKE="debian"
                VERSION_ID="24.04"
                VERSION_CODENAME=noble
                HOME_URL="https://ubuntu.com/"
            "#,
    )
    .unwrap();

    assert_eq!(
        distribution,
        DistributionInfo {
            id: Some("ubuntu".into()),
            version_id: Some("24.04".into()),
            version_codename: Some("noble".into()),
            id_like: vec!["debian".into()],
        }
    );
}

#[test]
fn rejects_unsafe_identifiers_without_losing_valid_fields() {
    let distribution = parse_os_release(
        "ID=not a distro\nVERSION_ID=40\nVERSION_CODENAME='blue fin'\nID_LIKE=\"fedora rhel;dnf\"",
    )
    .unwrap();

    assert_eq!(distribution.id, None);
    assert_eq!(distribution.version_id.as_deref(), Some("40"));
    assert_eq!(distribution.version_codename, None);
    assert_eq!(distribution.id_like, vec!["fedora"]);
}

#[test]
fn decodes_quoted_os_release_values_without_shell_evaluation() {
    assert_eq!(parse_value(r#""one\ two""#).as_deref(), Some("one two"));
    assert_eq!(parse_value(r#"'one two'"#).as_deref(), Some("one two"));
    assert_eq!(parse_value(r#""unterminated"#), None);
    assert_eq!(parse_value("trailing\\"), None);
}

#[test]
fn ignores_oversized_os_release_files() {
    assert_eq!(read_bounded(&vec![b'a'; MAX_OS_RELEASE_BYTES as usize + 1]), None);
    assert_eq!(
        read_bounded(&vec![b'a'; MAX_OS_RELEASE_BYTES as usize]).map(|text| text.len()),
        Some(MAX_OS_RELEASE_BYTES as usize)
    );
}

#[test]
fn serializes_system_information_as_structured_context() {
    let info = SystemInfo {
        os: "linux",
        architecture: "x86_64",
        distribution: Some(DistributionInfo {
            id: Some("ubuntu".into()),
            version_id: Some("24.04".into()),
            version_codename: Some("noble".into()),
            id_like: vec!["debian".into()],
        }),
    };

    assert_eq!(
        info.model_context(),
        r#"{"os":"linux","architecture":"x86_64","distribution":{"id":"ubuntu","version_id":"24.04","version_codename":"noble","id_like":["debian"]}}"#
    );
}

#[test]
fn unknown_parts_of_the_system_are_left_out() {
    let info = SystemInfo { os: "windows", architecture: "aarch64", distribution: None };
    assert_eq!(info.model_context(), r#"{"os":"windows","architecture":"aarch64"}"#);
    let partial = SystemInfo {
        os: "linux",
        architecture: "x86_64",
        distribution: Some(DistributionInfo {
            id: None,
            version_id: Some("40".into()),
            version_codename: None,
            id_like: vec!["fedora".into(), "rhel".into()],
        }),
    };
    assert_eq!(
        partial.model_context(),
        r#"{"os":"linux","architecture":"x86_64","distribution":{"version_id":"40","id_like":["fedora","rhel"]}}"#
    );
}

#[test]
fn the_first_telling_file_is_used() {
    let second = b"ID=debian\n".to_vec();
    let third = b"ID=fedora\n".to_vec();
    let candidates = vec![None, Some(b"# nothing\n".to_vec()), Some(second), Some(third)];
    assert_eq!(detect_distribution(&candidates).unwrap().id.as_deref(), Some("debian"));
    let unreadable = vec![Some(vec![0xff, 0xfe]), None];
    assert_eq!(detect_distribution(&unreadable), None);
    let info = SystemInfo::detect("linux", "x86_64", &candidates);
    assert_eq!(info.distribution.unwrap().id.as_deref(), Some("debian"));
}

#[test]
fn control_characters_in_values_are_refused() {
    assert_eq!(parse_value("a\u{7}b"), None);
    assert_eq!(parse_value("\"a\\\"b\"").as_deref(), Some("a\"b"));
    assert_eq!(parse_os_release("NAME=Nothing\n"), None);
}

#[test]
fn the_last_decodable_line_of_a_key_decides() {
    let distribution =
        parse_os_release("ID=first\nNAME=x\nID=second\nID='open\n#ID=third\nID_LIKE=a b").unwrap();
    assert_eq!(distribution.id.as_deref(), Some("second"));
    assert_eq!(parse_os_release("ID=second\nID_LIKE=a b").unwrap(), distribution);
    assert!(parse_os_release("ID=first\nID=not valid").is_none());
    assert!(parse_os_release("NAME=x\nHOME_URL=y").is_none());
}
