//! Command lines for the external tools, and the classification of how a
//! tool ended. Spawning is left to the caller.

use vstd::prelude::*;
use vstd::string::*;

use crate::text::{lemma_views_take, push_string, views};

verus! {

/// A command line: the program, then its arguments.
#[derive(Debug)]
pub struct Cmd(pub Vec<String>);

impl View for Cmd {
    type V = Seq<Seq<char>>;

    open spec fn view(&self) -> Seq<Seq<char>> {
        views(self.0@)
    }
}

/// Builds a command line argument by argument.
#[derive(Debug)]
pub struct CmdBuilder {
    cmd: Vec<String>,
}

/// How the attempt to run a tool ended.
#[derive(Debug)]
pub enum ProcessOutcome {
    /// The tool could not be started; the text is the system's complaint.
    SpawnFailed(String),
    /// The tool ran and exited.
    Exited {
        /// Whether the exit status stands for success.
        success: bool,
        /// The exit code, where the system reports one.
        code: Option<i32>,
        /// What the tool wrote to its standard output, if that was captured.
        stdout: Vec<u8>,
    },
}

/// A tool that could not do its work, with the full command line.
#[derive(Debug)]
pub enum SubprocessError {
    /// The tool could not be started.
    Spawn { cmd: Cmd, error: String },
    /// The tool ran and reported failure.
    FailStatus { cmd: Cmd, code: Option<i32> },
}

impl View for CmdBuilder {
    type V = Seq<Seq<char>>;

    closed spec fn view(&self) -> Seq<Seq<char>> {
        views(self.cmd@)
    }
}

impl CmdBuilder {
    #[verifier::type_invariant]
    spec fn well_formed(self) -> bool {
        self.cmd@.len() >= 1
    }

    /// A command line that consists of the program alone.
    pub fn new(program: &str) -> (r: CmdBuilder)
        ensures
            r@ == seq![program@],
    {
        let mut cmd: Vec<String> = Vec::new();
        cmd.push(program.to_owned());
        assert(views(cmd@) =~= seq![program@]);
        CmdBuilder { cmd }
    }

    /// Appends one argument.
    pub fn arg(self, arg: &str) -> (r: CmdBuilder)
        ensures
            r@ == self@.push(arg@),
    {
        proof {
            use_type_invariant(&self);
        }
        let mut cmd = self.cmd;
        cmd.push(arg.to_owned());
        assert(views(cmd@) =~= views(self.cmd@).push(arg@));
        CmdBuilder { cmd }
    }

    /// Appends arguments, in order.
    pub fn args(self, args: &Vec<String>) -> (r: CmdBuilder)
        ensures
            r@ == self@ + views(args@),
    {
        proof {
            use_type_invariant(&self);
        }
        let mut cmd = self.cmd;
        let mut i: usize = 0;
        while i < args.len()
            invariant
                i <= args.len(),
                cmd@.len() >= 1,
                views(cmd@) == views(self.cmd@) + views(args@.take(i as int)),
            decreases args.len() - i,
        {
            proof {
                lemma_views_take(args@, i as int);
            }
            push_string(&mut cmd, args[i].clone());
            i += 1;
        }
        proof {
            assert(args@.take(args.len() as int) =~= args@);
        }
        CmdBuilder { cmd }
    }

    /// The program to run: the first element of the command line.
    pub fn program(&self) -> (r: &String)
        ensures
            r@ == self@[0],
            self@.len() >= 1,
    {
        proof {
            use_type_invariant(self);
        }
        &self.cmd[0]
    }

    /// The arguments to hand to the program: all but the first element.
    pub fn arguments(&self) -> (r: Vec<String>)
        ensures
            views(r@) == self@.skip(1),
    {
        proof {
            use_type_invariant(self);
        }
        let mut out: Vec<String> = Vec::new();
        let mut i: usize = 1;
        while i < self.cmd.len()
            invariant
                1 <= i <= self.cmd.len(),
                views(out@) == views(self.cmd@).subrange(1, i as int),
            decreases self.cmd.len() - i,
        {
            let ghost before = views(out@);
            push_string(&mut out, self.cmd[i].clone());
            proof {
                assert(views(self.cmd@).subrange(1, i as int + 1) =~= before.push(
                    self.cmd@[i as int]@,
                ));
            }
            i += 1;
        }
        proof {
            assert(views(self.cmd@).subrange(1, self.cmd.len() as int) =~= views(self.cmd@).skip(1));
        }
        out
    }

    /// The finished command line.
    pub fn into_cmd(self) -> (r: Cmd)
        ensures
            r@ == self@,
            r@.len() >= 1,
    {
        proof {
            use_type_invariant(&self);
        }
        Cmd(self.cmd)
    }

    /// Judges a run that was expected to succeed: anything but a successful
    /// exit is an error that carries the command line.
    pub fn expect_success(self, outcome: ProcessOutcome) -> (r: Result<(), SubprocessError>)
        ensures
            match outcome {
                ProcessOutcome::SpawnFailed(error) => r matches Err(
                    SubprocessError::Spawn { cmd, error: e },
                ) && cmd@ == self@ && e == error,
                ProcessOutcome::Exited { success, code, stdout } => if success {
                    r is Ok
                } else {
                    r matches Err(SubprocessError::FailStatus { cmd, code: c }) && cmd@ == self@
                        && c == code
                },
            },
    {
        match outcome {
            ProcessOutcome::SpawnFailed(error) => Err(
                SubprocessError::Spawn { cmd: self.into_cmd(), error },
            ),
            ProcessOutcome::Exited { success, code, stdout } => {
                if !success {
                    Err(SubprocessError::FailStatus { cmd: self.into_cmd(), code })
                } else {
                    Ok(())
                }
            },
        }
    }

    /// Judges a run whose standard output was captured: a successful exit
    /// yields the output, anything else is an error that carries the command
    /// line.
    pub fn expect_stdout(self, outcome: ProcessOutcome) -> (r: Result<Vec<u8>, SubprocessError>)
        ensures
            match outcome {
                ProcessOutcome::SpawnFailed(error) => r matches Err(
                    SubprocessError::Spawn { cmd, error: e },
                ) && cmd@ == self@ && e == error,
                ProcessOutcome::Exited { success, code, stdout } => if success {
                    r == Ok::<Vec<u8>, SubprocessError>(stdout)
                } else {
                    r matches Err(SubprocessError::FailStatus { cmd, code: c }) && cmd@ == self@
                        && c == code
                },
            },
    {
        match outcome {
            ProcessOutcome::SpawnFailed(error) => Err(
                SubprocessError::Spawn { cmd: self.into_cmd(), error },
            ),
            ProcessOutcome::Exited { success, code, stdout } => {
                if !success {
                    Err(SubprocessError::FailStatus { cmd: self.into_cmd(), code })
                } else {
                    Ok(stdout)
                }
            },
        }
    }
}

} // verus!
