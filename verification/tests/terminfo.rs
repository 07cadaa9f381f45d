use leyline::diagnostics::ErrorCategory;
use leyline::terminfo::{
    anonymous_host_id, answer_of_host, bounded_complaint, bounded_output, check,
    child_directories, collect_step, doctor, doctor_ssh,
    ensure_safe_directory, entry_text_fault, find_compiled_entry, find_named_entry,
    infocmp_arguments, infocmp_result, join_path, lock_error, lock_text, may_install,
    may_uninstall, ownership_path, poll_tool, preflight, report_change, spawn_error,
    ssh_arguments, ssh_failure, staging_name, tic_result, user_database, CollectStep, EntryChange,
    FileKind, TerminalIdentity, TerminfoError, Tool, ToolOutput, ToolStep, SSH_PROBE_SCRIPT,
    TERM_NAME,
};
use leyline::time::{Duration, Instant};
use std::collections::hash_map::DefaultHasher;
use std::hash::{Hash, Hasher};

const ENTRY: &[u8] = b"leyline-256color|Leyline,\n\tam,\n\tRGB,\n\tcolors#256,\n";

fn output(success: bool, stdout: &[u8], stderr: &[u8]) -> ToolOutput {
    ToolOutput { success, stdout: stdout.to_vec(), stderr: stderr.to_vec() }
}

fn bytes(parts: &[&str]) -> Vec<Vec<u8>> {
    parts.iter().map(|part| part.as_bytes().to_vec()).collect()
}

#[test]
fn identities_have_names_and_entries() {
    assert_eq!(TerminalIdentity::parse("leyline"), Some(TerminalIdentity::Leyline));
    assert_eq!(
        TerminalIdentity::parse("xterm-256color"),
        Some(TerminalIdentity::Xterm256Color)
    );
    assert_eq!(TerminalIdentity::parse("xterm"), None);
    assert_eq!(TerminalIdentity::default().term(), TERM_NAME);
    assert_eq!(TerminalIdentity::Xterm256Color.term(), "xterm-256color");
}

#[test]
fn entries_declare_direct_color_and_nothing_that_is_rejected() {
    assert_eq!(
        check(ENTRY).expect("entry"),
        "status=ok term=leyline-256color epoch=1 rgb=declared\n"
    );
    assert_eq!(
        doctor(ENTRY).expect("entry"),
        "schema_version=1\nstatus=ok\nterm=leyline-256color\nepoch=1\nrgb=declared\n"
    );
    assert_eq!(
        check(b"x,\n\tRGBx,\n").expect_err("no color").message(),
        "terminfo entry leyline-256color does not match Leyline epoch 1: RGB is not declared"
    );
    assert_eq!(
        entry_text_fault("RGB,\n \tmc5=\\E[5i,\r\n\u{a0}Se=x,\n"),
        Some("rejected capability Se= is present".to_string())
    );
    assert_eq!(entry_text_fault("RGB,\nxMs=1,\n"), None);
    assert!(preflight(TerminalIdentity::Xterm256Color, b"").is_ok());
    let error = preflight(TerminalIdentity::Leyline, b"\xff").expect_err("mismatch");
    assert_eq!(error.category(), ErrorCategory::Platform);
}

#[test]
fn missing_entries_are_told_from_failures() {
    assert_eq!(
        infocmp_arguments(TerminalIdentity::Leyline, None),
        bytes(&["-x", "-1", "leyline-256color"])
    );
    assert_eq!(
        infocmp_arguments(TerminalIdentity::Xterm256Color, Some(b"/db".to_vec())),
        bytes(&["-x", "-1", "-A", "/db", "xterm-256color"])
    );
    let found = infocmp_result(TerminalIdentity::Leyline, output(true, ENTRY, b""));
    assert_eq!(found.expect("entry"), ENTRY);
    let missing = infocmp_result(
        TerminalIdentity::Leyline,
        output(false, b"", b"infocmp: couldn't open terminfo file /x\n"),
    )
    .expect_err("missing");
    assert_eq!(missing.category(), ErrorCategory::Environment);
    assert_eq!(
        missing.message(),
        "terminfo entry leyline-256color is missing from the effective database; run `leyline terminfo install --user` or select `--term xterm-256color`"
    );
    let failed =
        infocmp_result(TerminalIdentity::Xterm256Color, output(false, b"", b" broken \n"))
            .expect_err("failed");
    assert_eq!(failed.message(), "infocmp failed: broken");
    assert!(tic_result(&output(true, b"", b"")).is_ok());
    let failed = tic_result(&output(false, b"", b"bad\xff")).expect_err("failed");
    assert_eq!(failed.message(), "tic failed: bad\u{fffd}");
    assert_eq!(failed.category(), ErrorCategory::Internal);
}

#[test]
fn tools_are_bounded_in_time_and_output() {
    let start = Instant { nanos: 50 };
    let end = start.checked_add(Duration::from_secs(10)).unwrap();
    assert_eq!(poll_tool(true, start, end), ToolStep::Done);
    assert_eq!(poll_tool(false, start, start), ToolStep::Wait);
    assert_eq!(poll_tool(false, start, end), ToolStep::TimedOut);
    assert!(bounded_output(output(true, &vec![0; 1024 * 1024], b"")).is_ok());
    let large = bounded_output(output(true, &vec![0; 1024 * 1024], b"x")).expect_err("large");
    assert_eq!(large.message(), "terminfo tool output exceeded the 1 MiB limit");
    assert_eq!(bounded_complaint(&format!("  {}\n", "é".repeat(5000))), "é".repeat(4096));
    assert_eq!(
        spawn_error(Tool::Tic, true, "x".into()).message(),
        "required tool tic is unavailable; install ncurses-bin (>= 6.4)"
    );
    assert_eq!(
        spawn_error(Tool::Tic, false, "x".into()).message(),
        "terminfo database operation failed: x"
    );
}

#[test]
fn other_hosts_are_asked_and_reported() {
    assert_eq!(
        ssh_arguments(b"box".to_vec()).expect("arguments"),
        bytes(&["-o", "ConnectTimeout=10", "--", "box", "sh", "-s"])
    );
    assert!(matches!(
        ssh_arguments(b"b\0x".to_vec()),
        Err(TerminfoError::InvalidDatabase)
    ));
    assert!(SSH_PROBE_SCRIPT.contains("entry=present"));
    let answer = output(true, b"term=xterm\nentry=present\r\n", b"");
    assert_eq!(
        answer_of_host("00ff", &answer, true).expect("report"),
        "{\"schema_version\":1,\"host_id\":\"00ff\",\"term\":\"leyline-256color\",\"entry\":\"present\"}\n"
    );
    let answer = output(true, b"entry=missing\n", b"");
    assert!(answer_of_host("1", &answer, true).expect("report").contains("\"entry\":\"missing\""));
    assert_eq!(
        answer_of_host("1", &answer, false).expect("report"),
        "schema_version=1\nhost_id=1\nentry=missing\n"
    );
    let mut hasher = DefaultHasher::new();
    b"box"[..].hash(&mut hasher);
    let id = anonymous_host_id(hasher.finish());
    assert_eq!(id, format!("{:016x}", hasher.finish()));
    assert_eq!(anonymous_host_id(0xab), "00000000000000ab");
    assert_eq!(
        doctor_ssh(b"box", &answer, false).expect("report"),
        format!("schema_version=1\nhost_id={id}\nentry=missing\n")
    );
    let silent = output(false, b"", b"no route\n");
    let refused = doctor_ssh(b"box", &silent, false).expect_err("refused");
    assert_eq!(refused.message(), "SSH probe failed: no route");
    assert_eq!(refused.category(), ErrorCategory::Remote);
    assert_eq!(
        ssh_failure(TerminfoError::ToolTimeout(Tool::Ssh)).message(),
        "SSH probe failed: ssh exceeded the 10 second timeout"
    );
    assert!(matches!(
        ssh_failure(TerminfoError::ToolMissing(Tool::Ssh)),
        TerminfoError::ToolMissing(Tool::Ssh)
    ));
}

#[test]
fn databases_are_absolute_and_below_the_home_directory() {
    let home = || Some(b"/home/me".to_vec());
    assert_eq!(user_database(None, home()).expect("database"), b"/home/me/.terminfo");
    assert_eq!(user_database(Some(b"/db".to_vec()), home()).expect("database"), b"/db");
    for (database, home) in [
        (None, None),
        (Some(b"db".to_vec()), home()),
        (Some(b"/d\0b".to_vec()), home()),
        (None, Some(b"me".to_vec())),
        (Some(Vec::new()), home()),
    ] {
        assert!(matches!(
            user_database(database, home),
            Err(TerminfoError::InvalidDatabase)
        ));
    }
    assert_eq!(join_path(b"/db/", b"x"), b"/db/x");
    assert_eq!(join_path(b"/db", b"/x"), b"/x");
    assert_eq!(
        ownership_path(b"/db"),
        b"/db/.leyline/leyline-256color.owner"
    );
    assert_eq!(
        child_directories(b"/db", &bytes(&["a", "b"])),
        bytes(&["/db/a", "/db/a/b"])
    );
}

#[test]
fn links_are_neither_written_through_nor_followed() {
    assert!(ensure_safe_directory(None).is_ok());
    assert!(ensure_safe_directory(Some(FileKind::Directory)).is_ok());
    for kind in [FileKind::File, FileKind::Symlink, FileKind::Other] {
        assert!(matches!(
            ensure_safe_directory(Some(kind)),
            Err(TerminfoError::InvalidDatabase)
        ));
    }
    assert_eq!(collect_step(FileKind::Directory).expect("step"), CollectStep::Descend);
    assert_eq!(collect_step(FileKind::File).expect("step"), CollectStep::Take);
    assert_eq!(collect_step(FileKind::Other).expect("step"), CollectStep::Skip);
    assert!(matches!(
        collect_step(FileKind::Symlink),
        Err(TerminfoError::InvalidDatabase)
    ));
}

#[test]
fn compiled_and_named_entries_are_found() {
    let source = b"/s/leyline.terminfo";
    let entries = bytes(&["/s/leyline.terminfo", "/s/l/leyline-256color"]);
    assert_eq!(
        find_compiled_entry(&entries, source).expect("entry"),
        b"/s/l/leyline-256color"
    );
    for entries in [bytes(&["/s/leyline.terminfo"]), bytes(&["/s/a", "/s/b"])] {
        let error = find_compiled_entry(&entries, source).expect_err("not one");
        assert_eq!(
            error.message(),
            "compiled terminfo did not contain exactly one regular entry"
        );
    }
    let entries = bytes(&[
        "/db/.leyline/leyline-256color",
        "/db/x/other",
        "/db/.leylinex/leyline-256color",
        "/db/l/leyline-256color",
    ]);
    assert_eq!(
        find_named_entry(&entries, b"/db").expect("entry"),
        b"/db/.leylinex/leyline-256color"
    );
    assert_eq!(find_named_entry(&entries[..2].to_vec(), b"/db"), None);
}

#[test]
fn only_entries_of_our_own_are_replaced_or_removed() {
    assert!(may_install(false, None, b"").is_ok());
    assert!(may_install(true, Some(b"same"), b"same").is_ok());
    for record in [None, Some(b"changed".as_slice())] {
        assert!(matches!(
            may_install(true, record, b"same"),
            Err(TerminfoError::NotOwned)
        ));
        assert!(matches!(
            may_uninstall(record, b"same", Some(b"/db/l/x".to_vec())),
            Err(TerminfoError::NotOwned)
        ));
    }
    assert!(matches!(
        may_uninstall(Some(b"same"), b"same", None),
        Err(TerminfoError::NotOwned)
    ));
    let entry = may_uninstall(Some(b"same"), b"same", Some(b"/db/l/x".to_vec())).expect("entry");
    assert_eq!(
        report_change(EntryChange::Uninstalled, &entry),
        "status=uninstalled term=leyline-256color path=/db/l/x\n"
    );
    assert_eq!(
        report_change(EntryChange::Installed, b"/d\xff"),
        "status=installed term=leyline-256color path=/d\u{fffd}\n"
    );
    assert_eq!(staging_name(17), ".leyline-staging-17");
    assert_eq!(lock_text(17), "pid=17\n");
    assert!(matches!(lock_error(true, "x".into()), TerminfoError::Busy));
    assert_eq!(
        lock_error(true, "x".into()).message(),
        "another Leyline terminfo install or uninstall is in progress"
    );
    assert!(matches!(lock_error(false, "x".into()), TerminfoError::Io(_)));
}
