//! A builder for invocations of external programs.
//!
//! The library never spawns a process itself: it assembles a `Cmd` — program
//! name, argument list, optional working directory — and the caller executes
//! it, reporting back what the program printed and whether it succeeded.

use vstd::prelude::*;

verus! {

/// The view of an optional string, as an optional character sequence.
pub open spec fn opt_view(o: Option<String>) -> Option<Seq<char>> {
    match o {
        Some(s) => Some(s@),
        None => None,
    }
}

/// The mathematical content of a `Cmd`.
#[verifier::ext_equal]
pub struct CmdView {
    pub command: Seq<char>,
    pub args: Seq<Seq<char>>,
    pub workdir: Option<Seq<char>>,
}

/// One external program invocation: the program, its arguments, and an
/// optional working directory.
#[derive(Debug)]
pub struct Cmd {
    /// The program to run.
    pub command: String,
    /// The arguments, in order.
    pub args: Vec<String>,
    /// The directory to run in, when it is not the caller's own.
    pub workdir: Option<String>,
}

impl View for Cmd {
    type V = CmdView;

    open spec fn view(&self) -> CmdView {
        CmdView {
            command: self.command@,
            args: self.args.deep_view(),
            workdir: opt_view(self.workdir),
        }
    }
}

impl DeepView for Cmd {
    type V = CmdView;

    open spec fn deep_view(&self) -> CmdView {
        self.view()
    }
}

impl Cmd {
    /// Create a new command builder with no arguments and no working directory.
    pub fn new(command: &str) -> (c: Cmd)
        ensures
            c.command@ == command@,
            c.args.deep_view() == Seq::<Seq<char>>::empty(),
            c.workdir is None,
    {
        let c = Cmd { command: command.to_owned(), args: Vec::new(), workdir: None };
        proof {
            assert(c.args.deep_view() =~= Seq::<Seq<char>>::empty());
        }
        c
    }

    /// Add a single argument.
    pub fn arg(self, arg: &str) -> (c: Cmd)
        ensures
            c.command@ == self.command@,
            c.args.deep_view() == self.args.deep_view().push(arg@),
            opt_view(c.workdir) == opt_view(self.workdir),
    {
        let Cmd { command, mut args, workdir } = self;
        args.push(arg.to_owned());
        proof {
            assert(args.deep_view() =~= self.args.deep_view().push(arg@));
        }
        Cmd { command, args, workdir }
    }

    /// Add multiple arguments.
    pub fn args(self, new_args: &[&str]) -> (c: Cmd)
        ensures
            c.command@ == self.command@,
            c.args.deep_view() == self.args.deep_view() + new_args.deep_view(),
            opt_view(c.workdir) == opt_view(self.workdir),
    {
        let mut c = self;
        let ghost orig = c.args.deep_view();
        let ghost orig_workdir = opt_view(c.workdir);
        let ghost orig_command = c.command@;
        let mut i: usize = 0;
        while i < new_args.len()
            invariant
                i <= new_args.len(),
                c.command@ == orig_command,
                c.args.deep_view() == orig + new_args.deep_view().take(i as int),
                opt_view(c.workdir) == orig_workdir,
            decreases new_args.len() - i,
        {
            c = c.arg(new_args[i]);
            proof {
                assert(c.args.deep_view() =~= orig + new_args.deep_view().take(i + 1 as int));
            }
            i = i + 1;
        }
        proof {
            assert(new_args.deep_view().take(new_args.len() as int) =~= new_args.deep_view());
        }
        c
    }

    /// Set the working directory for the command.
    pub fn workdir(self, path: &str) -> (c: Cmd)
        ensures
            c.command@ == self.command@,
            c.args.deep_view() == self.args.deep_view(),
            opt_view(c.workdir) == Some(path@),
    {
        let Cmd { command, args, workdir: _ } = self;
        Cmd { command, args, workdir: Some(path.to_owned()) }
    }
}

/// The invocation that runs `command` through `sh -c` in `workdir`, as
/// configured shell hooks are run.
pub fn shell_command(command: &str, workdir: &str) -> (c: Cmd)
    ensures
        c.command@ == "sh"@,
        opt_view(c.workdir) == Some(workdir@),
        c.args.deep_view() == seq!["-c"@, command@],
{
    let c = Cmd::new("sh").workdir(workdir).arg("-c").arg(command);
    proof {
        assert(c.args.deep_view() =~= seq!["-c"@, command@]);
    }
    c
}

} // verus!
