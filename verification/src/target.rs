//! Control of the target: what has to be done to program it and to restart
//! it with its console output attached. A target is either an emulator or a
//! board; either way this module lays down the steps and their order, and
//! the caller carries them out.

use vstd::prelude::*;
use vstd::string::*;

use crate::process::{Cmd, SubprocessError};
use crate::text::{lemma_views_take, push_str, push_string, views};

verus! {

/// Baud rate of the board's serial connection.
pub const SERIAL_BAUD_RATE: u32 = 115200;

/// Seconds after which a read from the serial connection gives up.
pub const SERIAL_TIMEOUT_SECS: u64 = 60;

/// An emulator of the Arm MPS2+ AN505 board.
#[derive(Debug)]
pub struct QemuTarget {
    /// The command that starts the emulator.
    pub cmd: String,
    /// The images that were handed over for programming.
    pub images: Vec<String>,
}

/// An LPC55S69 board behind a debug probe and a serial port.
#[derive(Debug)]
pub struct Lpc55s69Target {
    /// The command of the flashing tool.
    pub pyocd_cmd: String,
    /// The identifier of the debug probe, where one was chosen.
    pub pyocd_uid: Option<String>,
    /// The serial port on which the board writes its output.
    pub serial_port: String,
}

/// The device or emulator under test.
#[derive(Debug)]
pub enum Target {
    Emulator(QemuTarget),
    HardwareBoard(Lpc55s69Target),
}

/// One thing to do to the target. The steps of a plan are carried out in
/// order, and the first one that fails ends the plan.
#[derive(Debug)]
pub enum TargetAction {
    /// Resolve `path` to an absolute path, append it to `command`, and run
    /// that, expecting success.
    FlashImage { command: Cmd, path: String },
    /// Run the command, expecting success.
    Run(Cmd),
    /// Open the serial port; it is the stream of the target's output.
    OpenSerial { port: String, baud_rate: u32, timeout_secs: u64 },
    /// Start the command as a process of its own; its standard output is the
    /// stream of the target's output.
    Spawn(Cmd),
}

/// A step as plain data.
pub enum ActionView {
    FlashImage { command: Seq<Seq<char>>, path: Seq<char> },
    Run(Seq<Seq<char>>),
    OpenSerial { port: Seq<char>, baud_rate: u32, timeout_secs: u64 },
    Spawn(Seq<Seq<char>>),
}

impl View for TargetAction {
    type V = ActionView;

    open spec fn view(&self) -> ActionView {
        match self {
            TargetAction::FlashImage { command, path } => ActionView::FlashImage {
                command: command@,
                path: path@,
            },
            TargetAction::Run(cmd) => ActionView::Run(cmd@),
            TargetAction::OpenSerial { port, baud_rate, timeout_secs } => ActionView::OpenSerial {
                port: port@,
                baud_rate: *baud_rate,
                timeout_secs: *timeout_secs,
            },
            TargetAction::Spawn(cmd) => ActionView::Spawn(cmd@),
        }
    }
}

/// The views of a plan's steps.
pub open spec fn plan_view(plan: Seq<TargetAction>) -> Seq<ActionView> {
    plan.map_values(|a: TargetAction| a@)
}

/// What went wrong with a step, as far as the caller can tell.
#[derive(Debug)]
pub enum ActionFailure {
    /// The path could not be resolved; the text is the system's complaint.
    Path(String),
    /// The serial port could not be opened; the text is the complaint.
    Serial(String),
    /// A tool could not be started or reported failure.
    Subprocess(SubprocessError),
}

/// Programming the target failed.
#[derive(Debug)]
pub enum ProgramError {
    /// The absolute path of an image could not be had.
    Path { path: String, error: String },
    /// The flashing tool could not be run or reported failure.
    Flash(SubprocessError),
    /// Anything else.
    Other(ActionFailure),
}

/// The target could not be restarted with its output attached.
#[derive(Debug)]
pub enum CaptureStartError {
    /// The board could not be halted.
    Halt(SubprocessError),
    /// The serial port could not be opened.
    Serial(String),
    /// The board could not be reset.
    Reset(SubprocessError),
    /// The emulator could not be started.
    Spawn(SubprocessError),
    /// Anything else.
    Other(ActionFailure),
}

/// The arguments that pick the debug probe.
pub open spec fn uid_args(uid: Option<Seq<char>>) -> Seq<Seq<char>> {
    match uid {
        Some(uid) => seq!["--uid"@, uid],
        None => Seq::empty(),
    }
}

/// The flashing tool's command line for one image, up to the image's path.
pub open spec fn flash_command(pyocd: Seq<char>, uid: Option<Seq<char>>) -> Seq<Seq<char>> {
    seq![pyocd, "flash"@, "-t"@, "lpc55s69"@] + uid_args(uid) + seq!["--format"@, "elf"@]
}

/// The flashing tool's command line for a debugger command.
pub open spec fn debug_command(pyocd: Seq<char>, uid: Option<Seq<char>>, what: Seq<char>) -> Seq<
    Seq<char>,
> {
    seq![pyocd, "cmd"@, "-t"@, "lpc55s69"@] + uid_args(uid) + seq!["-c"@, what]
}

/// One flashing step for each image, in order.
pub open spec fn flash_plan(pyocd: Seq<char>, uid: Option<Seq<char>>, paths: Seq<Seq<char>>) -> Seq<
    ActionView,
> {
    paths.map_values(
        |path: Seq<char>| ActionView::FlashImage { command: flash_command(pyocd, uid), path },
    )
}

/// The emulator's arguments for the images after the first: each is loaded
/// by a device of its own.
pub open spec fn loader_args(images: Seq<Seq<char>>) -> Seq<Seq<char>>
    decreases images.len(),
{
    if images.len() == 0 {
        Seq::empty()
    } else {
        loader_args(images.drop_last()) + seq!["-device"@, "loader,file="@ + images.last()]
    }
}

/// The emulator's command line: the machine, no graphics, semihosting, the
/// first image as kernel, the others through loader devices.
pub open spec fn emulator_command(cmd: Seq<char>, images: Seq<Seq<char>>) -> Seq<Seq<char>> {
    seq![
        cmd,
        "-machine"@,
        "mps2-an505"@,
        "-nographic"@,
        "-d"@,
        "guest_errors"@,
        "-semihosting"@,
        "-semihosting-config"@,
        "target=native"@,
        "-kernel"@,
        images[0],
    ] + loader_args(images.skip(1))
}

impl Lpc55s69Target {
    /// The probe's identifier as plain data.
    pub open spec fn uid(self) -> Option<Seq<char>> {
        match self.pyocd_uid {
            Some(uid) => Some(uid@),
            None => None,
        }
    }

    fn push_uid_args(&self, args: &mut Vec<String>)
        ensures
            views(final(args)@) == views(old(args)@) + uid_args(self.uid()),
    {
        match &self.pyocd_uid {
            Some(uid) => {
                push_str(args, "--uid");
                push_string(args, uid.clone());
                assert(views(args@) =~= views(old(args)@) + uid_args(self.uid()));
            },
            None => {
                assert(views(args@) =~= views(old(args)@) + uid_args(self.uid()));
            },
        }
    }

    /// The flashing tool's command line for one image, up to the image's
    /// path.
    pub fn flash_cmd(&self) -> (r: Cmd)
        ensures
            r@ == flash_command(self.pyocd_cmd@, self.uid()),
    {
        let mut args: Vec<String> = Vec::new();
        push_string(&mut args, self.pyocd_cmd.clone());
        push_str(&mut args, "flash");
        push_str(&mut args, "-t");
        push_str(&mut args, "lpc55s69");
        self.push_uid_args(&mut args);
        push_str(&mut args, "--format");
        push_str(&mut args, "elf");
        assert(views(args@) =~= flash_command(self.pyocd_cmd@, self.uid()));
        Cmd(args)
    }

    /// The flashing tool's command line for the debugger command `what`.
    pub fn debug_cmd(&self, what: &str) -> (r: Cmd)
        ensures
            r@ == debug_command(self.pyocd_cmd@, self.uid(), what@),
    {
        let mut args: Vec<String> = Vec::new();
        push_string(&mut args, self.pyocd_cmd.clone());
        push_str(&mut args, "cmd");
        push_str(&mut args, "-t");
        push_str(&mut args, "lpc55s69");
        self.push_uid_args(&mut args);
        push_str(&mut args, "-c");
        push_str(&mut args, what);
        assert(views(args@) =~= debug_command(self.pyocd_cmd@, self.uid(), what@));
        Cmd(args)
    }
}

impl QemuTarget {
    /// The emulator's command line for the images that were handed over.
    pub fn emulator_cmd(&self) -> (r: Cmd)
        requires
            self.images@.len() > 0,
        ensures
            r@ == emulator_command(self.cmd@, views(self.images@)),
    {
        let mut args: Vec<String> = Vec::new();
        push_string(&mut args, self.cmd.clone());
        push_str(&mut args, "-machine");
        push_str(&mut args, "mps2-an505");
        push_str(&mut args, "-nographic");
        push_str(&mut args, "-d");
        push_str(&mut args, "guest_errors");
        push_str(&mut args, "-semihosting");
        push_str(&mut args, "-semihosting-config");
        push_str(&mut args, "target=native");
        push_str(&mut args, "-kernel");
        push_string(&mut args, self.images[0].clone());
        let ghost head = views(args@);
        let ghost rest = views(self.images@).skip(1);
        assert(head =~= emulator_command(self.cmd@, views(self.images@)).take(11));
        let mut i: usize = 1;
        assert(rest.take(0) =~= Seq::<Seq<char>>::empty());
        while i < self.images.len()
            invariant
                1 <= i <= self.images.len(),
                rest == views(self.images@).skip(1),
                views(args@) == head + loader_args(rest.take(i as int - 1)),
            decreases self.images.len() - i,
        {
            let mut device = "loader,file=".to_owned();
            device.append(self.images[i].as_str());
            proof {
                let next = rest.take(i as int);
                assert(next.drop_last() =~= rest.take(i as int - 1));
                assert(next.last() == self.images@[i as int]@);
            }
            push_str(&mut args, "-device");
            push_string(&mut args, device);
            proof {
                assert(views(args@) =~= head + loader_args(rest.take(i as int)));
            }
            i += 1;
        }
        proof {
            assert(rest.take(self.images.len() as int - 1) =~= rest);
            assert(views(args@) =~= emulator_command(self.cmd@, views(self.images@)));
        }
        Cmd(args)
    }
}

impl Target {
    /// The build arguments that select the target's board.
    pub open spec fn build_flags(self) -> Seq<Seq<char>> {
        match self {
            Target::Emulator(_) => seq!["-Dtarget-board=an505"@],
            Target::HardwareBoard(_) => seq!["-Dtarget-board=lpc55s69"@],
        }
    }

    /// The build arguments that select the target's board; the same for
    /// every build.
    pub fn zig_build_flags(&self) -> (r: Vec<String>)
        ensures
            views(r@) == self.build_flags(),
    {
        let mut flags: Vec<String> = Vec::new();
        match self {
            Target::Emulator(_) => push_str(&mut flags, "-Dtarget-board=an505"),
            Target::HardwareBoard(_) => push_str(&mut flags, "-Dtarget-board=lpc55s69"),
        }
        assert(views(flags@) =~= self.build_flags());
        flags
    }

    /// Whether the target can be restarted: an emulator has to have been
    /// handed an image to boot from.
    pub open spec fn is_ready(self) -> bool {
        match self {
            Target::Emulator(emulator) => emulator.images@.len() > 0,
            Target::HardwareBoard(_) => true,
        }
    }

    /// Decides whether the target can be restarted.
    pub fn ready(&self) -> (r: bool)
        ensures
            r == self.is_ready(),
    {
        match self {
            Target::Emulator(emulator) => emulator.images.len() > 0,
            Target::HardwareBoard(_) => true,
        }
    }

    /// The steps that program the target with `paths`, as plain data. An
    /// emulator boots from images, so for it there is nothing to do yet. A
    /// board is flashed once for each image, in order.
    pub open spec fn program_plan(self, paths: Seq<Seq<char>>) -> Seq<ActionView> {
        match self {
            Target::Emulator(_) => Seq::empty(),
            Target::HardwareBoard(board) => flash_plan(board.pyocd_cmd@, board.uid(), paths),
        }
    }

    /// Takes the images to program and lays down the steps that do it. An
    /// emulator only remembers the images, in place of those it had.
    pub fn program(&mut self, paths: &Vec<String>) -> (plan: Vec<TargetAction>)
        ensures
            plan_view(plan@) == old(self).program_plan(views(paths@)),
            match (*old(self), *final(self)) {
                (Target::Emulator(before), Target::Emulator(after)) => after.cmd == before.cmd
                    && views(after.images@) == views(paths@),
                (Target::HardwareBoard(before), Target::HardwareBoard(after)) => after == before,
                _ => false,
            },
    {
        let mut plan: Vec<TargetAction> = Vec::new();
        match self {
            Target::Emulator(emulator) => {
                let mut images: Vec<String> = Vec::new();
                let mut i: usize = 0;
                while i < paths.len()
                    invariant
                        i <= paths.len(),
                        views(images@) == views(paths@.take(i as int)),
                    decreases paths.len() - i,
                {
                    proof {
                        lemma_views_take(paths@, i as int);
                    }
                    push_string(&mut images, paths[i].clone());
                    i += 1;
                }
                proof {
                    assert(paths@.take(paths.len() as int) =~= paths@);
                    assert(views(images@.take(0)) =~= Seq::<Seq<char>>::empty());
                }
                emulator.images = images;
                assert(plan_view(plan@) =~= Seq::<ActionView>::empty());
            },
            Target::HardwareBoard(board) => {
                let ghost expected = flash_plan(board.pyocd_cmd@, board.uid(), views(paths@));
                let mut i: usize = 0;
                while i < paths.len()
                    invariant
                        i <= paths.len(),
                        expected == flash_plan(board.pyocd_cmd@, board.uid(), views(paths@)),
                        plan_view(plan@) == expected.take(i as int),
                    decreases paths.len() - i,
                {
                    let step = TargetAction::FlashImage {
                        command: board.flash_cmd(),
                        path: paths[i].clone(),
                    };
                    let ghost before = plan_view(plan@);
                    plan.push(step);
                    proof {
                        assert(plan_view(plan@) =~= before.push(step@));
                        assert(expected.take(i as int + 1) =~= expected.take(i as int).push(
                            expected[i as int],
                        ));
                    }
                    i += 1;
                }
                proof {
                    assert(expected.take(paths.len() as int) =~= expected);
                }
            },
        }
        plan
    }

    /// The steps that restart the target with its output attached, as plain
    /// data. An emulator is started anew. A board is halted, then its serial
    /// port is opened, and only then the board is reset, so that nothing it
    /// writes is lost.
    pub open spec fn capture_plan(self) -> Seq<ActionView> {
        match self {
            Target::Emulator(emulator) => seq![
                ActionView::Spawn(emulator_command(emulator.cmd@, views(emulator.images@))),
            ],
            Target::HardwareBoard(board) => seq![
                ActionView::Run(debug_command(board.pyocd_cmd@, board.uid(), "halt"@)),
                ActionView::OpenSerial {
                    port: board.serial_port@,
                    baud_rate: SERIAL_BAUD_RATE,
                    timeout_secs: SERIAL_TIMEOUT_SECS,
                },
                ActionView::Run(debug_command(board.pyocd_cmd@, board.uid(), "reset"@)),
            ],
        }
    }

    /// Lays down the steps that restart the target from the beginning with
    /// its output attached. The stream to read from is what the plan's
    /// `Spawn` or `OpenSerial` step yields.
    pub fn reset_and_get_output(&self) -> (plan: Vec<TargetAction>)
        requires
            self.is_ready(),
        ensures
            plan_view(plan@) == self.capture_plan(),
    {
        let mut plan: Vec<TargetAction> = Vec::new();
        match self {
            Target::Emulator(emulator) => {
                plan.push(TargetAction::Spawn(emulator.emulator_cmd()));
            },
            Target::HardwareBoard(board) => {
                plan.push(TargetAction::Run(board.debug_cmd("halt")));
                plan.push(
                    TargetAction::OpenSerial {
                        port: board.serial_port.clone(),
                        baud_rate: SERIAL_BAUD_RATE,
                        timeout_secs: SERIAL_TIMEOUT_SECS,
                    },
                );
                plan.push(TargetAction::Run(board.debug_cmd("reset")));
            },
        }
        assert(plan_view(plan@) =~= self.capture_plan());
        plan
    }
}

/// Names the failure of a step of a programming plan: a path that could not
/// be resolved, or a flashing tool that failed.
pub fn program_failure(step: TargetAction, failure: ActionFailure) -> (r: ProgramError)
    ensures
        match (step, failure) {
            (TargetAction::FlashImage { command, path }, ActionFailure::Path(error)) => r == (
                ProgramError::Path { path, error }),
            (TargetAction::FlashImage { command, path }, ActionFailure::Subprocess(error)) => r
                == ProgramError::Flash(error),
            _ => r == ProgramError::Other(failure),
        },
{
    match step {
        TargetAction::FlashImage { command, path } => match failure {
            ActionFailure::Path(error) => ProgramError::Path { path, error },
            ActionFailure::Subprocess(error) => ProgramError::Flash(error),
            other => ProgramError::Other(other),
        },
        _ => ProgramError::Other(failure),
    }
}

/// Names the failure of a step of a capture plan by what the step was for:
/// the first `Run` of a board's plan halts it, the second resets it.
pub fn capture_start_failure(step: TargetAction, index: usize, failure: ActionFailure) -> (r:
    CaptureStartError)
    ensures
        match (step, failure) {
            (TargetAction::Run(_), ActionFailure::Subprocess(error)) => if index == 0 {
                r == CaptureStartError::Halt(error)
            } else {
                r == CaptureStartError::Reset(error)
            },
            (TargetAction::OpenSerial { .. }, ActionFailure::Serial(error)) => r
                == CaptureStartError::Serial(error),
            (TargetAction::Spawn(_), ActionFailure::Subprocess(error)) => r
                == CaptureStartError::Spawn(error),
            _ => r == CaptureStartError::Other(failure),
        },
{
    match step {
        TargetAction::Run(_) => match failure {
            ActionFailure::Subprocess(error) => if index == 0 {
                CaptureStartError::Halt(error)
            } else {
                CaptureStartError::Reset(error)
            },
            other => CaptureStartError::Other(other),
        },
        TargetAction::OpenSerial { .. } => match failure {
            ActionFailure::Serial(error) => CaptureStartError::Serial(error),
            other => CaptureStartError::Other(other),
        },
        TargetAction::Spawn(_) => match failure {
            ActionFailure::Subprocess(error) => CaptureStartError::Spawn(error),
            other => CaptureStartError::Other(other),
        },
        TargetAction::FlashImage { .. } => CaptureStartError::Other(failure),
    }
}

/// Choosing a serial port failed.
#[derive(Debug)]
pub enum ChooseSerialError {
    /// No serial port was found.
    NoPortsAvailable,
    /// Several serial ports were found; one of them has to be named.
    MultiplePortsAvailable(Vec<String>),
}

/// Picks the serial port among those that the system lists: the only one,
/// if there is exactly one.
pub fn choose_serial(ports: Vec<String>) -> (r: Result<String, ChooseSerialError>)
    ensures
        match r {
            Ok(port) => ports@.len() == 1 && port == ports@[0],
            Err(ChooseSerialError::NoPortsAvailable) => ports@.len() == 0,
            Err(ChooseSerialError::MultiplePortsAvailable(all)) => ports@.len() > 1 && all == ports,
        },
{
    let mut ports = ports;
    if ports.len() == 0 {
        Err(ChooseSerialError::NoPortsAvailable)
    } else if ports.len() > 1 {
        Err(ChooseSerialError::MultiplePortsAvailable(ports))
    } else {
        match ports.pop() {
            Some(port) => Ok(port),
            None => Err(ChooseSerialError::NoPortsAvailable),
        }
    }
}

} // verus!
