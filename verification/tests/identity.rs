use process_ownership::identity::capture_linux_process_identity;
use process_ownership::identity::capture_native_process_identity;
use process_ownership::identity::compare_native_process_identity;
use process_ownership::identity::compare_native_process_identity_under;
use process_ownership::identity::find_listed_parent;
use process_ownership::identity::filetime_value;
use process_ownership::identity::parse_linux_stat;
use process_ownership::identity::unavailable_identity_of;
use process_ownership::identity::windows_process_identity;
use process_ownership::identity::LinuxIdentityError;
use process_ownership::identity::NativeProcessIdentity;
use process_ownership::identity::NativeProcessIdentityValidationResult;

const PLATFORM: &str = "linux";

#[test]
fn identity_type_does_not_contain_command_data() {
    let identity = NativeProcessIdentity {
        os_pid: 7,
        creation_time: None,
        executable_identity: None,
        parent_pid: None,
        parent_creation_time: None,
        platform: PLATFORM.to_string(),
    };

    assert_eq!(identity.os_pid, 7);
    assert_eq!(identity.platform, PLATFORM);
}

#[test]
fn linux_stat_parser_rejects_malformed_input_and_handles_spaces_in_name() {
    assert!(parse_linux_stat("malformed").is_none());
    let mut fields = vec!["S".to_string(), "7".to_string()];
    fields.extend((5..=22).map(|value| value.to_string()));
    let stat = format!("123 (name with ) spaces) {}", fields.join(" "));
    assert_eq!(parse_linux_stat(&stat), Some((7, 22)));
}

#[test]
fn partial_identity_never_matches() {
    let identity = NativeProcessIdentity {
        os_pid: 42,
        creation_time: None,
        executable_identity: None,
        parent_pid: None,
        parent_creation_time: None,
        platform: PLATFORM.to_string(),
    };
    assert_eq!(
        compare_native_process_identity(&identity, &identity),
        NativeProcessIdentityValidationResult::PartialIdentity
    );
}

fn stat_line(name: &str, parent: &str, start: &str) -> String {
    let mut fields = vec!["S".to_string(), parent.to_string()];
    fields.extend((5..=21).map(|value| value.to_string()));
    fields.push(start.to_string());
    format!("99 ({name}) {}", fields.join(" "))
}

#[test]
fn linux_stat_parser_field_rules() {
    assert_eq!(parse_linux_stat(&stat_line("a", "7", "22")), Some((7, 22)));
    assert_eq!(parse_linux_stat(&stat_line("a", "+7", "+22")), Some((7, 22)));
    assert_eq!(
        parse_linux_stat(&stat_line("a", "4294967295", "18446744073709551615")),
        Some((u32::MAX, u64::MAX))
    );
    assert_eq!(parse_linux_stat(&stat_line("a", "4294967296", "1")), None);
    assert_eq!(parse_linux_stat(&stat_line("a", "1", "18446744073709551616")), None);
    assert_eq!(parse_linux_stat(&stat_line("a", "-1", "1")), None);
    assert_eq!(parse_linux_stat(&stat_line("a", "+", "1")), None);
    assert_eq!(parse_linux_stat(&stat_line("a", "1x", "1")), None);
    assert_eq!(parse_linux_stat("1 (a) S 2 3"), None);
    assert_eq!(
        parse_linux_stat(&stat_line("a", "7", "22").replace(' ', "\t\u{a0}")),
        Some((7, 22))
    );
}

fn complete(pid: u32) -> NativeProcessIdentity {
    NativeProcessIdentity {
        os_pid: pid,
        creation_time: Some(100),
        executable_identity: Some("/bin/tool".to_string()),
        parent_pid: Some(1),
        parent_creation_time: Some(5),
        platform: "linux".to_string(),
    }
}

#[test]
fn compare_reports_each_verdict() {
    let base = complete(10);
    assert_eq!(compare_native_process_identity(&base, &base.clone()), NativeProcessIdentityValidationResult::Match);

    let mut other = base.clone();
    other.platform = "windows".to_string();
    assert_eq!(compare_native_process_identity(&base, &other), NativeProcessIdentityValidationResult::Unsupported);

    let mut other = base.clone();
    other.os_pid = 11;
    assert_eq!(compare_native_process_identity(&base, &other), NativeProcessIdentityValidationResult::PidMismatch);

    let mut other = base.clone();
    other.creation_time = Some(101);
    assert_eq!(
        compare_native_process_identity(&base, &other),
        NativeProcessIdentityValidationResult::CreationTimeMismatch
    );

    let mut other = base.clone();
    other.executable_identity = Some("/bin/other".to_string());
    assert_eq!(
        compare_native_process_identity(&base, &other),
        NativeProcessIdentityValidationResult::ExecutableMismatch
    );

    let mut other = base.clone();
    other.executable_identity = None;
    assert_eq!(compare_native_process_identity(&base, &other), NativeProcessIdentityValidationResult::PartialIdentity);

    let mut other = base.clone();
    other.parent_creation_time = Some(6);
    assert_eq!(
        compare_native_process_identity(&base, &other),
        NativeProcessIdentityValidationResult::ParentIdentityMismatch
    );

    let mut other = base.clone();
    other.parent_pid = None;
    assert_eq!(compare_native_process_identity(&base, &other), NativeProcessIdentityValidationResult::PartialIdentity);

    let mut orphan = base.clone();
    orphan.parent_pid = None;
    orphan.parent_creation_time = None;
    assert_eq!(compare_native_process_identity(&orphan, &orphan.clone()), NativeProcessIdentityValidationResult::Match);
    assert_eq!(
        compare_native_process_identity(&orphan, &base),
        compare_native_process_identity(&base, &orphan)
    );
}

#[test]
fn identity_equality_compares_every_field() {
    assert!(complete(1) == complete(1));
    let mut other = complete(1);
    other.executable_identity = None;
    assert!(complete(1) != other);
}

#[test]
fn linux_capture_builds_identity_or_falls_back() {
    let stat = stat_line("sh", "1", "500");
    let parent = stat_line("init", "0", "3");
    let identity = capture_native_process_identity(
        99,
        Some(&stat),
        Some("/bin/sh".to_string()),
        Some(&parent),
    );
    assert_eq!(identity, {
        NativeProcessIdentity {
            os_pid: 99,
            creation_time: Some(500),
            executable_identity: Some("/bin/sh".to_string()),
            parent_pid: Some(1),
            parent_creation_time: Some(3),
            platform: "linux".to_string(),
        }
    });

    let orphan = stat_line("sh", "0", "500");
    let identity = capture_linux_process_identity(99, &orphan, "/bin/sh".to_string(), None)
        .expect("a process without parent needs no parent stat");
    assert_eq!(
        capture_linux_process_identity(99, "garbage", "/bin/sh".to_string(), Some(&parent)),
        Err(LinuxIdentityError::MalformedStat)
    );
    assert_eq!(
        capture_linux_process_identity(99, &stat, "/bin/sh".to_string(), Some("bad")),
        Err(LinuxIdentityError::MalformedParentStat)
    );
    assert_eq!(
        capture_linux_process_identity(99, &stat, "/bin/sh".to_string(), None),
        Err(LinuxIdentityError::ParentStatUnavailable)
    );
    assert_eq!(LinuxIdentityError::MalformedStat.message(), "malformed process stat");
    assert_eq!(LinuxIdentityError::MalformedParentStat.message(), "malformed parent stat");
    assert_eq!(identity.parent_pid, None);
    assert_eq!(identity.parent_creation_time, None);

    let fallback = unavailable_identity_of(99, "linux".to_string());
    assert_eq!(
        capture_native_process_identity(99, Some(&stat), Some("/bin/sh".to_string()), None),
        fallback
    );
    assert_eq!(
        capture_native_process_identity(99, Some("garbage"), Some("/bin/sh".to_string()), None),
        fallback
    );
    assert_eq!(
        capture_native_process_identity(99, None, Some("/bin/sh".to_string()), None),
        fallback
    );
    assert_eq!(
        capture_native_process_identity(99, Some(&stat), None, Some(&parent)),
        fallback
    );
    assert_eq!(
        capture_native_process_identity(99, Some(&stat), Some("/bin/sh".to_string()), Some("bad")),
        fallback
    );
}

#[test]
fn windows_identity_and_filetime() {
    assert_eq!(filetime_value(1, 2), (1u64 << 32) + 2);
    assert_eq!(filetime_value(u32::MAX, u32::MAX), u64::MAX);
    let identity = windows_process_identity(5, Some(9), None, Some(0), Some(4));
    assert_eq!(identity.parent_pid, None);
    assert_eq!(identity.parent_creation_time, None);
    assert_eq!(identity.platform, "windows");
    let identity = windows_process_identity(5, Some(9), Some("C:\\x.exe".to_string()), Some(3), Some(4));
    assert_eq!(identity.parent_pid, Some(3));
    assert_eq!(identity.parent_creation_time, Some(4));
    assert_eq!(identity.creation_time, Some(9));
}

fn with_executable(platform: &str, executable: &str) -> NativeProcessIdentity {
    let mut identity = complete(10);
    identity.platform = platform.to_string();
    identity.executable_identity = Some(executable.to_string());
    identity
}

#[test]
fn executables_are_compared_as_paths() {
    let base = with_executable("linux", "/bin/x");
    for same in ["/bin/x/", "/bin//x", "/bin/./x", "//bin///x//."] {
        assert_eq!(
            compare_native_process_identity(&base, &with_executable("linux", same)),
            NativeProcessIdentityValidationResult::Match,
            "{same}"
        );
        assert!(base == with_executable("linux", same));
        assert!(!base.same_text_as(&with_executable("linux", same)));
    }
    for other in ["bin/x", "/bin/y", "/bin/x/..", "/bin\\x"] {
        assert_eq!(
            compare_native_process_identity(&base, &with_executable("linux", other)),
            NativeProcessIdentityValidationResult::ExecutableMismatch,
            "{other}"
        );
    }
    assert_eq!(
        compare_native_process_identity(
            &with_executable("linux", "./x"),
            &with_executable("linux", "x")
        ),
        NativeProcessIdentityValidationResult::ExecutableMismatch
    );
    assert_eq!(
        compare_native_process_identity(
            &with_executable("linux", "x/."),
            &with_executable("linux", "x")
        ),
        NativeProcessIdentityValidationResult::Match
    );
}

fn windows_compare(a: &str, b: &str) -> NativeProcessIdentityValidationResult {
    compare_native_process_identity_under(
        &with_executable("windows", a),
        &with_executable("windows", b),
        true,
    )
}

#[test]
fn windows_executables_use_both_separators_and_drive_letters() {
    let base = "C:\\Program Files\\tool.exe";
    for same in [
        "c:/Program Files/tool.exe",
        "C:\\Program Files\\.\\tool.exe\\",
        "C:\\\\Program Files/tool.exe",
    ] {
        assert_eq!(
            windows_compare(base, same),
            NativeProcessIdentityValidationResult::Match,
            "{same}"
        );
    }
    for other in [
        "D:\\Program Files\\tool.exe",
        "C:Program Files\\tool.exe",
        "\\Program Files\\tool.exe",
    ] {
        assert_eq!(
            windows_compare(base, other),
            NativeProcessIdentityValidationResult::ExecutableMismatch,
            "{other}"
        );
    }
}

#[test]
fn windows_prefixes_are_whole_components() {
    let mismatch = NativeProcessIdentityValidationResult::ExecutableMismatch;
    let matched = NativeProcessIdentityValidationResult::Match;
    assert_eq!(windows_compare("\\\\s\\h\\a", "\\s\\h\\a"), mismatch);
    assert_eq!(windows_compare("\\\\s\\h\\a", "//s/h/a/"), matched);
    assert_eq!(windows_compare("\\\\s\\h", "\\\\s\\h\\"), matched);
    assert_eq!(windows_compare("\\\\s\\h\\a", "\\\\S\\h\\a"), mismatch);
    assert_eq!(windows_compare("\\\\?\\C:\\a\\b", "C:\\a\\b"), mismatch);
    assert_eq!(windows_compare("\\\\?\\C:\\a\\b", "\\\\?\\c:\\a\\b\\"), matched);
    assert_eq!(windows_compare("\\\\?\\C:\\a\\.\\b", "\\\\?\\C:\\a\\b"), mismatch);
    assert_eq!(windows_compare("\\\\?\\C:\\a/b", "\\\\?\\C:\\a\\b"), mismatch);
    assert_eq!(windows_compare("\\\\?\\UNC\\s\\h\\a", "\\\\?\\UNC\\s\\h\\a\\"), matched);
    assert_eq!(windows_compare("\\\\?\\UNC\\s\\h\\a", "\\\\s\\h\\a"), mismatch);
    assert_eq!(windows_compare("\\\\.\\pipe\\x", "//./pipe/x"), matched);
    assert_eq!(windows_compare("\\\\.\\pipe\\x", "\\\\?\\pipe\\x"), mismatch);
}

#[test]
fn host_rules_are_unix_on_this_host() {
    assert_eq!(
        compare_native_process_identity(
            &with_executable("windows", "C:\\x"),
            &with_executable("windows", "c:/x")
        ),
        NativeProcessIdentityValidationResult::ExecutableMismatch
    );
    assert_eq!(
        compare_native_process_identity_under(
            &with_executable("windows", "C:\\x"),
            &with_executable("windows", "c:/x"),
            true
        ),
        NativeProcessIdentityValidationResult::Match
    );
}

#[test]
fn snapshot_parent_is_taken_from_the_first_listed_entry() {
    let entries = vec![(4, 0), (10, 4), (10, 7), (11, 10)];
    assert_eq!(find_listed_parent(&entries, 10), Some(4));
    assert_eq!(find_listed_parent(&entries, 4), Some(0));
    assert_eq!(find_listed_parent(&entries, 99), None);
    assert_eq!(find_listed_parent(&Vec::new(), 1), None);
}
