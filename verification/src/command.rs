//! Commands to run, and what to make of how they ended.
use crate::error::{CommandOutput, Error};
use crate::text;
use vstd::prelude::*;

verus! {

/// A command to run.
#[derive(Debug, PartialEq, Eq)]
pub struct Cmd {
    /// The program, looked up in the search path.
    pub program: String,
    pub args: Vec<String>,
    /// How the command is called where it cannot be started.
    pub spawn_label: String,
    /// How the command is called where it fails.
    pub label: String,
}

/// What a [`Cmd`] says.
pub struct CmdView {
    pub program: Seq<char>,
    pub args: Seq<Seq<char>>,
    pub spawn_label: Seq<char>,
    pub label: Seq<char>,
}

impl View for Cmd {
    type V = CmdView;

    open spec fn view(&self) -> CmdView {
        CmdView {
            program: self.program@,
            args: text::views(self.args@),
            spawn_label: self.spawn_label@,
            label: self.label@,
        }
    }
}

/// The command `program args..`, called `spawn_label` where it cannot be started
/// and `label` where it fails.
pub open spec fn cmd(
    program: Seq<char>,
    args: Seq<Seq<char>>,
    spawn_label: Seq<char>,
    label: Seq<char>,
) -> CmdView {
    CmdView { program, args, spawn_label, label }
}

/// Whether the option `name` stands at `i` among arguments that are, from `first` on,
/// options with one value behind each.
pub open spec fn option_at(args: Seq<Seq<char>>, first: int, i: int, name: Seq<char>) -> bool {
    first <= i < args.len() - 1 && (i - first) % 2 == 0 && args[i] == name
}

/// Whether a program that reads its arguments, from `first` on, as options with one
/// value behind each finds `value` for the option `name`, and finds it once.
pub open spec fn option_is(
    args: Seq<Seq<char>>,
    first: int,
    name: Seq<char>,
    value: Seq<char>,
) -> bool {
    &&& exists|i: int| #[trigger] option_at(args, first, i, name)
    &&& forall|i: int| #[trigger] option_at(args, first, i, name) ==> args[i + 1] == value
    &&& forall|i: int, j: int| #[trigger]
        option_at(args, first, i, name) && #[trigger] option_at(args, first, j, name) ==> i == j
}

/// Whether a program that reads its arguments in that way finds no option `name`.
pub open spec fn option_absent(args: Seq<Seq<char>>, first: int, name: Seq<char>) -> bool {
    forall|i: int| !#[trigger] option_at(args, first, i, name)
}

/// An option that stands at one place alone is given once.
pub proof fn lemma_option(
    args: Seq<Seq<char>>,
    first: int,
    k: int,
    name: Seq<char>,
    value: Seq<char>,
)
    requires
        option_at(args, first, k, name),
        args[k + 1] == value,
        forall|i: int| #[trigger] option_at(args, first, i, name) ==> i == k,
    ensures
        option_is(args, first, name, value),
{
}

/// How a command ended.
#[derive(Debug, PartialEq, Eq)]
pub enum Outcome {
    Exited(CommandOutput),
    /// It could not be started, for the given reason.
    NotSpawned(String),
}

impl Outcome {
    /// Whether the command ran and exited with code zero.
    pub open spec fn ok(self) -> bool {
        self matches Outcome::Exited(o) && o.success()
    }
}

/// Whether `e` is the error of the command that ended this way.
pub open spec fn is_error_of(e: Error, c: CmdView, o: Outcome) -> bool {
    match o {
        Outcome::NotSpawned(why) => e matches Error::CommandExec { command, source } && command@
            == c.spawn_label && source@ == why@,
        Outcome::Exited(out) => e matches Error::Command { command, exit_code, stderr } && command@
            == c.label && exit_code == out.code_or_minus_one() && stderr@ == text::trim(
            text::utf8_lossy(out.stderr@),
        ),
    }
}

/// The given strings.
pub fn strings(parts: &[&str]) -> (r: Vec<String>)
    ensures
        text::views(r@) == text::slice_views(parts@),
{
    let mut out: Vec<String> = Vec::new();
    let mut i: usize = 0;
    while i < parts.len()
        invariant
            i <= parts.len(),
            text::views(out@) =~= text::slice_views(parts@).take(i as int),
        decreases parts.len() - i,
    {
        let s = parts[i].to_owned();
        proof {
            text::lemma_views_push(out@, s);
        }
        out.push(s);
        i += 1;
    }
    assert(text::slice_views(parts@).take(parts@.len() as int) =~= text::slice_views(parts@));
    out
}

/// The command `program args..`, called `spawn_label` where it cannot be started
/// and `label` where it fails.
pub fn command(program: &str, args: &[&str], spawn_label: &str, label: &str) -> (r: Cmd)
    ensures
        r@ == cmd(program@, text::slice_views(args@), spawn_label@, label@),
{
    Cmd {
        program: program.to_owned(),
        args: strings(args),
        spawn_label: spawn_label.to_owned(),
        label: label.to_owned(),
    }
}

/// The output of a command that succeeded, or its error.
pub fn finish(c: &Cmd, o: Outcome) -> (r: Result<CommandOutput, Error>)
    ensures
        match r {
            Ok(out) => o.ok() && o == Outcome::Exited(out),
            Err(e) => !o.ok() && is_error_of(e, c@, o),
        },
{
    match o {
        Outcome::NotSpawned(why) => Err(
            Error::CommandExec { command: c.spawn_label.clone(), source: why },
        ),
        Outcome::Exited(out) => Error::check_command(c.label.as_str(), out),
    }
}

} // verus!
