//! What each built-in command does.
//!
//! A built-in is decided here and carried out by the caller: [`run_builtin`]
//! turns a command into an [`Effect`], and the functions beside it word what
//! is printed once the caller knows how a lookup or a change of directory
//! went.

use vstd::prelude::*;
use crate::parser::{Command, CommandKind};
use crate::text::concat;

verus! {

/// Whether `name` is one of the built-in names `echo`, `exit`, `type`, `pwd`
/// and `cd`.
pub open spec fn is_builtin_spec(name: Seq<char>) -> bool {
    name == "echo"@ || name == "exit"@ || name == "type"@ || name == "pwd"@ || name == "cd"@
}

/// Whether `name` is the name of a built-in.
pub fn is_builtin(name: &str) -> (r: bool)
    ensures
        r == is_builtin_spec(name@),
{
    name.eq("echo") || name.eq("exit") || name.eq("type") || name.eq("pwd") || name.eq("cd")
}

/// What the caller is to do for a built-in.
#[derive(Debug, PartialEq, Eq)]
pub enum Effect {
    /// Stop reading lines.
    Stop,
    /// Write `text` and a newline to standard output.
    Print { text: String },
    /// Look `name` up as a program and print [`type_report`] of the outcome.
    Locate { name: String },
    /// Write the working directory and a newline to standard output.
    PrintWorkingDir,
    /// Make `target` the working directory; if that fails, print
    /// [`cd_failure_report`] of `target`.
    ChangeDir { target: String },
    /// Read the home-directory variable and carry out [`home_effect`] of it.
    ChangeDirHome,
}

/// What an [`Effect`] stands for, over sequences of characters.
pub enum Action {
    Stop,
    Print { text: Seq<char> },
    Locate { name: Seq<char> },
    PrintWorkingDir,
    ChangeDir { target: Seq<char> },
    ChangeDirHome,
}

impl View for Effect {
    type V = Action;

    open spec fn view(&self) -> Action {
        match self {
            Effect::Stop => Action::Stop,
            Effect::Print { text } => Action::Print { text: text@ },
            Effect::Locate { name } => Action::Locate { name: name@ },
            Effect::PrintWorkingDir => Action::PrintWorkingDir,
            Effect::ChangeDir { target } => Action::ChangeDir { target: target@ },
            Effect::ChangeDirHome => Action::ChangeDirHome,
        }
    }
}

impl Effect {
    /// Whether the shell goes on reading lines after this effect: after every
    /// one but [`Effect::Stop`].
    pub fn keeps_running(&self) -> (r: bool)
        ensures
            r == !(self@ is Stop),
    {
        match self {
            Effect::Stop => false,
            _ => true,
        }
    }
}

/// The line that says that `name` is a built-in.
pub open spec fn builtin_report_spec(name: Seq<char>) -> Seq<char> {
    name + " is a shell builtin"@
}

/// The line that says that `name` was not found as a program.
pub open spec fn not_found_report_spec(name: Seq<char>) -> Seq<char> {
    name + ": not found"@
}

/// The line that says that nothing could be made of `raw_line`.
pub open spec fn command_not_found_report_spec(raw_line: Seq<char>) -> Seq<char> {
    raw_line + ": command not found"@
}

/// The line that says that the working directory could not be changed to
/// `target`.
pub open spec fn cd_failure_report_spec(target: Seq<char>) -> Seq<char> {
    "cd: "@ + target + ": No such file or directory"@
}

/// The line that `type` prints for `name`, given what the lookup of `name`
/// found: the file and the presented name, or nothing.
///
/// A built-in name is reported as a built-in whatever the lookup found. Any
/// other name is reported with the file it stands for, or as not found.
pub open spec fn type_report_spec(name: Seq<char>, resolved: Option<(Seq<char>, Seq<char>)>) -> Seq<
    char,
> {
    if is_builtin_spec(name) {
        builtin_report_spec(name)
    } else {
        match resolved {
            Some((path, _)) => name + " is "@ + path,
            None => not_found_report_spec(name),
        }
    }
}

/// A lookup's outcome over sequences of characters.
pub open spec fn resolved_text(resolved: Option<(String, String)>) -> Option<(Seq<char>, Seq<char>)> {
    match resolved {
        Some((path, name)) => Some((path@, name@)),
        None => None,
    }
}

/// The line that `type` prints for `name` once `name` has been looked up.
pub fn type_report(name: &str, resolved: &Option<(String, String)>) -> (line: String)
    ensures
        line@ == type_report_spec(name@, resolved_text(*resolved)),
{
    if is_builtin(name) {
        concat(name, " is a shell builtin")
    } else {
        match resolved {
            Some(pair) => {
                let mut line = concat(name, " is ");
                line.append(pair.0.as_str());
                line
            },
            None => not_found_report(name),
        }
    }
}

/// The line printed for a program that was not found.
pub fn not_found_report(name: &str) -> (line: String)
    ensures
        line@ == not_found_report_spec(name@),
{
    concat(name, ": not found")
}

/// The line printed when the working directory could not be changed to
/// `target`.
pub fn cd_failure_report(target: &str) -> (line: String)
    ensures
        line@ == cd_failure_report_spec(target@),
{
    let mut line = concat("cd: ", target);
    line.append(": No such file or directory");
    line
}

/// What `cd ~` does once the home-directory variable has been read: with the
/// variable unset it prints a complaint and changes nothing, else it changes
/// to the directory that the variable names.
pub open spec fn home_effect_spec(home: Option<Seq<char>>) -> Action {
    match home {
        Some(dir) => Action::ChangeDir { target: dir },
        None => Action::Print { text: "cd: HOME not set"@ },
    }
}

/// The effect of `cd ~`, given the value of the home-directory variable,
/// `None` where it is unset.
pub fn home_effect(home: Option<String>) -> (effect: Effect)
    ensures
        effect@ == home_effect_spec(
            match home {
                Some(dir) => Some(dir@),
                None => None,
            },
        ),
{
    match home {
        Some(dir) => Effect::ChangeDir { target: dir },
        None => Effect::Print { text: String::from_str("cd: HOME not set") },
    }
}

/// What a built-in does.
///
/// - `Exit` stops the shell and does nothing else.
/// - `Echo` prints its text.
/// - `Type` of a built-in name prints that it is one, without any lookup; of
///   any other name it asks for a lookup.
/// - `Pwd` prints the working directory.
/// - `Cd` of exactly `~` goes by the home-directory variable; any other
///   target, one that merely starts with `~` too, is taken as it is written.
/// - `NotFound` prints that the line, as it was typed, is no command.
///
/// An external command is no built-in and has no effect here.
pub open spec fn builtin_effect(cmd: Command, raw_line: Seq<char>) -> Action
    recommends
        !(cmd is External),
{
    match cmd {
        Command::Exit => Action::Stop,
        Command::Echo { text } => Action::Print { text },
        Command::Type { name } => if is_builtin_spec(name) {
            Action::Print { text: builtin_report_spec(name) }
        } else {
            Action::Locate { name }
        },
        Command::Pwd => Action::PrintWorkingDir,
        Command::Cd { target } => if target == "~"@ {
            Action::ChangeDirHome
        } else {
            Action::ChangeDir { target }
        },
        Command::NotFound => Action::Print { text: command_not_found_report_spec(raw_line) },
        Command::External { .. } => arbitrary(),
    }
}

/// Decides what a built-in does. `raw_line` is the line as it was typed,
/// without the white space around it.
///
/// An external command is not a built-in: the caller routes it to the
/// resolver instead.
pub fn run_builtin(cmd: CommandKind, raw_line: &str) -> (effect: Effect)
    requires
        !(cmd@ is External),
    ensures
        effect@ == builtin_effect(cmd@, raw_line@),
{
    match cmd {
        CommandKind::Exit => Effect::Stop,
        CommandKind::Echo { display_string } => Effect::Print { text: display_string },
        CommandKind::Type { command_name } => {
            if is_builtin(command_name.as_str()) {
                Effect::Print { text: concat(command_name.as_str(), " is a shell builtin") }
            } else {
                Effect::Locate { name: command_name }
            }
        },
        CommandKind::Pwd => Effect::PrintWorkingDir,
        CommandKind::Cd { directory } => {
            if directory.as_str().eq("~") {
                Effect::ChangeDirHome
            } else {
                Effect::ChangeDir { target: directory }
            }
        },
        CommandKind::NotFound => Effect::Print { text: concat(raw_line, ": command not found") },
        CommandKind::External { .. } => vstd::pervasive::unreached(),
    }
}

/// A built-in name is reported as a built-in whatever the search path holds:
/// `type` asks for no lookup of it, and the report does not depend on what a
/// lookup would have found.
pub proof fn lemma_builtin_reported_without_lookup(
    name: Seq<char>,
    raw_line: Seq<char>,
    resolved: Option<(Seq<char>, Seq<char>)>,
)
    requires
        is_builtin_spec(name),
    ensures
        builtin_effect(Command::Type { name }, raw_line) == (Action::Print {
            text: builtin_report_spec(name),
        }),
        type_report_spec(name, resolved) == builtin_report_spec(name),
{
}

/// `cd` hands its target on as it is written, and `pwd` asks for the working
/// directory itself: the library neither rewrites the one nor remembers the
/// other. What `pwd` prints after a `cd` is therefore what the platform makes
/// of the target.
pub proof fn lemma_cd_hands_target_on(target: Seq<char>, raw_line: Seq<char>)
    requires
        target != "~"@,
    ensures
        builtin_effect(Command::Cd { target }, raw_line) == (Action::ChangeDir { target }),
        builtin_effect(Command::Pwd, raw_line) == Action::PrintWorkingDir,
{
}

/// Only `Exit` stops the shell.
pub proof fn lemma_only_exit_stops(cmd: Command, raw_line: Seq<char>)
    requires
        !(cmd is External),
    ensures
        builtin_effect(cmd, raw_line) is Stop <==> cmd is Exit,
{
}

} // verus!
