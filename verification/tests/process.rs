use tzmcfi_tools::process::{Cmd, CmdBuilder, ProcessOutcome, SubprocessError};

fn exited(success: bool, code: Option<i32>, stdout: &[u8]) -> ProcessOutcome {
    ProcessOutcome::Exited { success, code, stdout: stdout.to_vec() }
}

#[test]
fn command_line_is_built_in_order() {
    let builder = CmdBuilder::new("pyocd")
        .arg("flash")
        .args(&vec!["-t".to_string(), "lpc55s69".to_string()])
        .args(&Vec::new())
        .arg("image.elf");
    assert_eq!(builder.program(), "pyocd");
    assert_eq!(builder.arguments(), vec!["flash", "-t", "lpc55s69", "image.elf"]);
    let Cmd(line) = builder.into_cmd();
    assert_eq!(line, vec!["pyocd", "flash", "-t", "lpc55s69", "image.elf"]);
    let bare = CmdBuilder::new("zig");
    assert_eq!(bare.program(), "zig");
    assert!(bare.arguments().is_empty());
}

#[test]
fn successful_exit_is_success() {
    let r = CmdBuilder::new("zig").arg("build").expect_success(exited(true, Some(0), b"ignored"));
    assert!(r.is_ok());
    let r = CmdBuilder::new("qemu").arg("--version").expect_stdout(exited(true, Some(0), b"QEMU 4.2"));
    assert_eq!(r.ok(), Some(b"QEMU 4.2".to_vec()));
}

#[test]
fn failed_exit_carries_the_command_line() {
    match CmdBuilder::new("zig").arg("build").expect_success(exited(false, Some(2), b"")) {
        Err(SubprocessError::FailStatus { cmd: Cmd(line), code }) => {
            assert_eq!(line, vec!["zig", "build"]);
            assert_eq!(code, Some(2));
        }
        other => panic!("unexpected {:?}", other),
    }
    match CmdBuilder::new("zig").expect_stdout(exited(false, None, b"half")) {
        Err(SubprocessError::FailStatus { cmd: Cmd(line), code }) => {
            assert_eq!(line, vec!["zig"]);
            assert_eq!(code, None);
        }
        other => panic!("unexpected {:?}", other),
    }
}

#[test]
fn spawn_failure_carries_the_command_line() {
    let outcome = ProcessOutcome::SpawnFailed("No such file or directory".to_string());
    match CmdBuilder::new("nonesuch").arg("-x").expect_success(outcome) {
        Err(SubprocessError::Spawn { cmd: Cmd(line), error }) => {
            assert_eq!(line, vec!["nonesuch", "-x"]);
            assert_eq!(error, "No such file or directory");
        }
        other => panic!("unexpected {:?}", other),
    }
    let outcome = ProcessOutcome::SpawnFailed("denied".to_string());
    match CmdBuilder::new("nonesuch").expect_stdout(outcome) {
        Err(SubprocessError::Spawn { cmd: Cmd(line), error }) => {
            assert_eq!(line, vec!["nonesuch"]);
            assert_eq!(error, "denied");
        }
        other => panic!("unexpected {:?}", other),
    }
}
