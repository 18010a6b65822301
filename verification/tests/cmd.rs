use strat_engine::cmd::{
    binary_names, candidate_paths, create_ext3_fs, create_fs, execute_cmd, find_binary,
    get_executable, report_failure, set_uuid, thin_check, thin_repair, udev_settle,
    verify_binaries, xfs_growfs, xfs_repair, Binaries, CommandLine, CommandOutput, CommandStep,
    Ext3Stage,
};
use strat_engine::errors::StratisError;
use strat_engine::text::{join, same_text, to_decimal, to_signed_decimal};

fn strings(texts: &[&str]) -> Vec<String> {
    texts.iter().map(|text| text.to_string()).collect()
}

fn in_usr_bin() -> Vec<String> {
    binary_names()
        .into_iter()
        .map(|name| format!("/usr/bin/{}", name))
        .collect()
}

fn check(command: CommandLine, program: &str, args: &[&str]) {
    assert_eq!(command.program, program);
    assert_eq!(command.args, strings(args));
}

#[test]
fn names_of_programs() {
    assert_eq!(
        binary_names(),
        strings(&[
            "mkfs.xfs",
            "thin_check",
            "thin_repair",
            "udevadm",
            "xfs_db",
            "xfs_growfs"
        ])
    );
}

#[test]
fn candidate_paths_in_order() {
    assert_eq!(
        candidate_paths("udevadm"),
        strings(&[
            "/usr/sbin/udevadm",
            "/sbin/udevadm",
            "/usr/bin/udevadm",
            "/bin/udevadm"
        ])
    );
    assert_eq!(candidate_paths("/opt/tool"), strings(&["/opt/tool"; 4]));
    assert_eq!(candidate_paths("")[3], "/bin/");
}

#[test]
fn likeliest_binary_is_found() {
    let existing = strings(&["/bin/udevadm", "/sbin/udevadm", "/usr/sbin/other"]);
    assert_eq!(
        find_binary("udevadm", &existing),
        Some("/sbin/udevadm".to_string())
    );
    assert_eq!(find_binary("xfs_db", &existing), None);
    assert_eq!(find_binary("udevadm", &Vec::new()), None);
}

#[test]
fn all_binaries_verified() {
    let binaries = Binaries::locate(&in_usr_bin());
    assert_eq!(verify_binaries(&binaries), Ok(()));
    for name in binary_names() {
        assert_eq!(
            get_executable(&binaries, &name),
            format!("/usr/bin/{}", name)
        );
    }
}

#[test]
fn first_missing_binary_is_named() {
    let mut existing = in_usr_bin();
    existing.remove(4);
    existing.remove(2);
    assert_eq!(
        verify_binaries(&Binaries::locate(&existing)),
        Err(StratisError::Error(
            "Unable to find executable \"thin_repair\" in any of \"/usr/sbin\", \"/sbin\", \
             \"/usr/bin\", \"/bin\""
                .to_string()
        ))
    );
}

#[test]
fn commands() {
    let binaries = Binaries::locate(&in_usr_bin());
    let uuid = 0x67e55044_10b1_426f_9247_bb680e5fe0c8_u128;
    check(
        create_fs(&binaries, "/dev/a", uuid),
        "/usr/bin/mkfs.xfs",
        &[
            "-f",
            "-q",
            "/dev/a",
            "-m",
            "uuid=67e55044-10b1-426f-9247-bb680e5fe0c8",
        ],
    );
    check(
        xfs_growfs(&binaries, "/mnt"),
        "/usr/bin/xfs_growfs",
        &["/mnt", "-d"],
    );
    check(
        set_uuid(&binaries, "/dev/a", 10),
        "/usr/bin/xfs_db",
        &[
            "-x",
            "-c uuid 00000000-0000-0000-0000-00000000000a",
            "/dev/a",
        ],
    );
    check(
        thin_check(&binaries, "/dev/a"),
        "/usr/bin/thin_check",
        &["-q", "/dev/a"],
    );
    check(
        thin_repair(&binaries, "/dev/a", "/dev/b"),
        "/usr/bin/thin_repair",
        &["-i", "/dev/a", "-o", "/dev/b"],
    );
    check(udev_settle(&binaries), "/usr/bin/udevadm", &["settle"]);
    check(xfs_repair("/dev/a"), "xfs_repair", &["-n", "/dev/a"]);
}

#[test]
fn ext3_is_made_only_on_a_wiped_device() {
    let line = |stage: Ext3Stage, program: &str, args: &[&str]| {
        CommandStep::Run(
            stage,
            CommandLine {
                program: program.to_string(),
                args: strings(args),
            },
        )
    };
    let e = || StratisError::Error("busy".to_string());
    assert_eq!(
        create_ext3_fs("/dev/a", None),
        line(Ext3Stage::Wipe, "wipefs", &["-a", "/dev/a"])
    );
    assert_eq!(
        create_ext3_fs("/dev/a", Some((Ext3Stage::Wipe, Ok(())))),
        line(Ext3Stage::Make, "mkfs.ext3", &["/dev/a"])
    );
    assert_eq!(
        create_ext3_fs("/dev/a", Some((Ext3Stage::Wipe, Err(e())))),
        CommandStep::Finished(Err(e()))
    );
    assert_eq!(
        create_ext3_fs("/dev/a", Some((Ext3Stage::Make, Ok(())))),
        CommandStep::Finished(Ok(()))
    );
    assert_eq!(
        create_ext3_fs("/dev/a", Some((Ext3Stage::Make, Err(e())))),
        CommandStep::Finished(Err(e()))
    );
}

fn output(success: bool, code: Option<i32>, stdout: &[u8], stderr: &[u8]) -> CommandOutput {
    CommandOutput {
        success,
        code,
        stdout: stdout.to_vec(),
        stderr: stderr.to_vec(),
    }
}

#[test]
fn successful_command() {
    assert_eq!(
        execute_cmd("\"ls\"", &Ok(output(true, Some(0), b"a", b"b"))),
        Ok(())
    );
}

#[test]
fn command_that_did_not_run() {
    assert_eq!(
        execute_cmd("\"ls\" \"-l\"", &Err("NotFound".to_string())),
        Err(StratisError::Error(
            "Failed to execute command \"ls\" \"-l\", err: NotFound".to_string()
        ))
    );
}

#[test]
fn command_that_failed() {
    assert_eq!(
        execute_cmd("\"ls\"", &Ok(output(false, Some(2), b"out", "\u{e9}".as_bytes()))),
        Err(StratisError::Error(
            "Command failed: cmd: \"ls\", exit reason: 2 stdout: out stderr: \u{e9}".to_string()
        ))
    );
    assert_eq!(
        execute_cmd("\"ls\"", &Ok(output(false, None, b"", b"x\xff"))),
        Err(StratisError::Error(
            "Command failed: cmd: \"ls\", exit reason: process terminated by signal stdout:  \
             stderr: x\u{fffd}"
                .to_string()
        ))
    );
    assert_eq!(
        report_failure("c", Some(-9), "o", "e"),
        StratisError::Error(
            "Command failed: cmd: c, exit reason: -9 stdout: o stderr: e".to_string()
        )
    );
}

#[test]
fn failed_command_shows_what_it_wrote() {
    assert_eq!(
        execute_cmd("\"xfs_db\"", &Ok(output(false, Some(1), b"", b"bad superblock"))),
        Err(StratisError::Error(
            "Command failed: cmd: \"xfs_db\", exit reason: 1 stdout:  stderr: bad superblock"
                .to_string()
        ))
    );
}

#[test]
fn commands_need_only_their_own_program() {
    let binaries = Binaries::locate(&strings(&["/bin/udevadm"]));
    assert!(binaries.has_found("udevadm"));
    assert!(!binaries.has_found("xfs_db"));
    assert!(!binaries.has_found("ls"));
    check(udev_settle(&binaries), "/bin/udevadm", &["settle"]);
}

#[test]
fn numbers_and_joins() {
    for n in [0, 7, 10, 99, 100, 1234567890, u64::MAX] {
        assert_eq!(to_decimal(n), n.to_string());
    }
    for n in [0, -1, 42, i32::MAX, i32::MIN] {
        assert_eq!(to_signed_decimal(n), n.to_string());
    }
    assert_eq!(join(&Vec::new(), ", "), "");
    assert_eq!(join(&strings(&["a"]), ", "), "a");
    assert_eq!(join(&strings(&["a", "", "c"]), " ,"), "a , ,c");
    assert!(same_text("a", "a"));
    assert!(!same_text("a", "b"));
}
