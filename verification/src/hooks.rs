//! Programs to start once the window manager is up.
//!
//! Nothing here starts a process. These types hold what is to be started and
//! say how the command line is built; whoever runs the session spawns it.

use vstd::prelude::*;
use vstd::std_specs::convert::IntoSpec;

verus! {

/// A program to run at startup, named by its path.
pub struct Startup {
    path: String,
}

impl View for Startup {
    type V = Seq<char>;

    closed spec fn view(&self) -> Seq<char> {
        self.path@
    }
}

impl Startup {
    /// The path as a string value.
    pub closed spec fn path_value(&self) -> String {
        self.path
    }

    /// Holds what `s` converts into: the path is a result of `s.into()`,
    /// and where the conversion has a specification, the result it names.
    pub fn new<S: Into<String>>(s: S) -> (hook: Self)
        ensures
            hook@ == hook.path_value()@,
            call_ensures(S::into, (s,), hook.path_value()),
            S::obeys_into_spec() ==> hook@ == s.into_spec()@,
    {
        Self { path: s.into() }
    }

    /// A hook for exactly this path.
    pub fn from_path(path: String) -> (hook: Self)
        ensures
            hook@ == path@,
    {
        Self { path }
    }

    /// The path to hand to the spawner.
    pub fn path(&self) -> (p: &str)
        ensures
            p@ == self@,
    {
        self.path.as_str()
    }
}

/// A shell command line to run at startup through `bash -c`.
#[derive(Debug, Clone, PartialEq, Eq)]
pub struct SpawnOnStartupArg {
    prog: String,
}

impl View for SpawnOnStartupArg {
    type V = Seq<char>;

    closed spec fn view(&self) -> Seq<char> {
        self.prog@
    }
}

impl SpawnOnStartupArg {
    /// A hook that runs `prog` in a shell.
    pub fn new(prog: String) -> (hook: Self)
        ensures
            hook@ == prog@,
    {
        Self { prog }
    }

    /// The command line the shell is given.
    pub fn prog(&self) -> (p: &str)
        ensures
            p@ == self@,
    {
        self.prog.as_str()
    }

    /// The shell that runs the command line.
    pub fn shell() -> (s: &'static str)
        ensures
            s@ == "bash"@,
    {
        "bash"
    }

    /// The arguments for the shell: `-c`, then the command line.
    pub fn arguments(&self) -> (args: Vec<String>)
        ensures
            args@.len() == 2,
            args@[0]@ == "-c"@,
            args@[1]@ == self@,
    {
        let mut args: Vec<String> = Vec::new();
        args.push(String::from_str("-c"));
        args.push(self.prog.clone());
        args
    }
}

/// `parts` with `sep` between each two neighbours.
pub open spec fn joined(parts: Seq<Seq<char>>, sep: Seq<char>) -> Seq<char>
    decreases parts.len(),
{
    if parts.len() == 0 {
        Seq::empty()
    } else if parts.len() == 1 {
        parts[0]
    } else {
        joined(parts.drop_last(), sep) + sep + parts.last()
    }
}

/// The texts of a list of strings.
pub open spec fn texts(v: Seq<String>) -> Seq<Seq<char>> {
    v.map_values(|s: String| s@)
}

/// The startup programs as one shell command line: each runs only if the
/// one before it succeeded.
pub fn startup_command(start_up: &Vec<String>) -> (cmd: String)
    ensures
        cmd@ == joined(texts(start_up@), " && "@),
{
    let n = start_up.len();
    let ghost parts = texts(start_up@);
    let ghost sep = " && "@;
    let mut cmd = String::new();
    let mut e: usize = 0;
    while e < n
        invariant
            n == start_up@.len(),
            parts == texts(start_up@),
            sep == " && "@,
            e <= n,
            cmd@ == if e == 0 {
                Seq::<char>::empty()
            } else if e < n {
                joined(parts.take(e as int), sep) + sep
            } else {
                joined(parts.take(e as int), sep)
            },
        decreases n - e,
    {
        proof {
            let next = parts.take(e + 1);
            assert(next.drop_last() == parts.take(e as int));
            assert(next.last() == start_up@[e as int]@);
        }
        cmd.append(start_up[e].as_str());
        if n > 1 && e + 1 < n {
            cmd.append(" && ");
        }
        e = e + 1;
    }
    proof {
        assert(parts.take(n as int) == parts);
    }
    cmd
}

/// The startup hook for a list of programs: none where there is nothing
/// to run.
pub fn startup_hook(start_up: &Vec<String>) -> (hook: Option<SpawnOnStartupArg>)
    ensures
        match hook {
            Some(h) => h@ == joined(texts(start_up@), " && "@) && h@.len() > 0,
            None => joined(texts(start_up@), " && "@).len() == 0,
        },
{
    let cmd = startup_command(start_up);
    if cmd.as_str().is_empty() {
        None
    } else {
        Some(SpawnOnStartupArg::new(cmd))
    }
}

} // verus!
