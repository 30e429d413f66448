//! The command line: what the program was asked to do.

use vstd::prelude::*;

use crate::config::scheme_prefix;
use crate::config::scheme_prefix_text;
use crate::text::has_prefix;
use crate::text::same_text;
use crate::text::starts_with;

verus! {

/// What the program was asked to do.
#[derive(Debug)]
pub enum CliCommand {
    /// Open the window, started by an `afsim://` link if one was given.
    Run(Option<String>),
    /// Remove the scheme's registration.
    Unregister,
    /// Report whether the scheme is registered.
    Check,
}

/// What a [`CliCommand`] holds, as sequences of characters.
pub enum CommandView {
    Run(Option<Seq<char>>),
    Unregister,
    Check,
}

impl View for CliCommand {
    type V = CommandView;

    open spec fn view(&self) -> CommandView {
        match self {
            CliCommand::Run(Some(u)) => CommandView::Run(Some(u@)),
            CliCommand::Run(None) => CommandView::Run(None),
            CliCommand::Unregister => CommandView::Unregister,
            CliCommand::Check => CommandView::Check,
        }
    }
}

impl Clone for CliCommand {
    fn clone(&self) -> (r: Self)
        ensures
            r@ == self@,
    {
        match self {
            CliCommand::Run(Some(u)) => CliCommand::Run(Some(u.clone())),
            CliCommand::Run(None) => CliCommand::Run(None),
            CliCommand::Unregister => CliCommand::Unregister,
            CliCommand::Check => CliCommand::Check,
        }
    }
}

/// `--unregister`
pub open spec fn unregister_flag() -> Seq<char> {
    seq!['-', '-', 'u', 'n', 'r', 'e', 'g', 'i', 's', 't', 'e', 'r']
}

/// `--check`
pub open spec fn check_flag() -> Seq<char> {
    seq!['-', '-', 'c', 'h', 'e', 'c', 'k']
}

/// The command that the arguments (the program's name first) ask for: the
/// first argument after the name decides; an `afsim://` link opens the
/// window for it, and anything else, or nothing, opens it plainly.
pub open spec fn command_for(args: Seq<Seq<char>>) -> CommandView {
    if args.len() > 1 {
        let a = args[1];
        if a == unregister_flag() {
            CommandView::Unregister
        } else if a == check_flag() {
            CommandView::Check
        } else if has_prefix(a, scheme_prefix()) {
            CommandView::Run(Some(a))
        } else {
            CommandView::Run(None)
        }
    } else {
        CommandView::Run(None)
    }
}

/// The text of each argument.
pub open spec fn arg_texts(args: Seq<String>) -> Seq<Seq<char>> {
    args.map_values(|a: String| a@)
}

/// Reads the command line `args`, the program's name first.
pub fn parse_args(args: &Vec<String>) -> (r: CliCommand)
    ensures
        r@ == command_for(arg_texts(args@)),
{
    if args.len() > 1 {
        let a = args[1].as_str();
        proof {
            reveal_strlit("--unregister");
            reveal_strlit("--check");
            assert(arg_texts(args@)[1] == a@);
        }
        assert("--unregister"@ =~= unregister_flag());
        assert("--check"@ =~= check_flag());
        if same_text(a, "--unregister") {
            return CliCommand::Unregister;
        }
        if same_text(a, "--check") {
            return CliCommand::Check;
        }
        let prefix = scheme_prefix_text();
        if starts_with(a, prefix.as_str()) {
            return CliCommand::Run(Some(a.to_owned()));
        }
    }
    CliCommand::Run(None)
}

/// The link that a command opens the window for.
pub fn get_url_from_command(command: &CliCommand) -> (r: Option<String>)
    ensures
        match command@ {
            CommandView::Run(Some(u)) => r matches Some(s) && s@ == u,
            _ => r is None,
        },
{
    match command {
        CliCommand::Run(Some(u)) => Some(u.clone()),
        _ => None,
    }
}

/// The check of the registration found the scheme unregistered.
pub open spec fn wants_registration(registered: Result<bool, String>) -> bool {
    registered matches Ok(false)
}

/// Whether the scheme should be registered now, from the check of its
/// registration (the failure's text): only when the check succeeded and
/// found it unregistered. A failed check leaves the program running as it
/// is.
pub fn ensure_url_scheme_registered(registered: Result<bool, String>) -> (r: bool)
    ensures
        r == wants_registration(registered),
{
    match registered {
        Ok(false) => true,
        _ => false,
    }
}

/// The scheme is registered at most once by the decision: a check that
/// finds it registered, as the check after a successful registration does,
/// or a check that fails, asks for no registration.
pub proof fn law_registration_once(first: Result<bool, String>, later: Result<bool, String>)
    requires
        later matches Ok(true) || later is Err,
    ensures
        !wants_registration(later),
        wants_registration(first) <==> first matches Ok(false),
{
}

/// The first argument after the program's name decides, whatever follows
/// it: `--check` asks for the check, `--unregister` for the removal of the
/// registration, an `afsim://` link opens the window for that link, and
/// anything else, or no argument at all, opens the window plainly.
pub proof fn law_first_argument_decides(args: Seq<Seq<char>>)
    ensures
        args.len() > 1 && args[1] == "--check"@ ==> command_for(args) == CommandView::Check,
        args.len() > 1 && args[1] == "--unregister"@ ==> command_for(args)
            == CommandView::Unregister,
        args.len() > 1 && has_prefix(args[1], "afsim://"@) ==> command_for(args)
            == CommandView::Run(Some(args[1])),
        args.len() > 1 && args[1] != "--check"@ && args[1] != "--unregister"@ && !has_prefix(
            args[1],
            "afsim://"@,
        ) ==> command_for(args) == CommandView::Run(None),
        args.len() <= 1 ==> command_for(args) == CommandView::Run(None),
{
    reveal_strlit("--check");
    reveal_strlit("--unregister");
    reveal_strlit("afsim://");
    assert("--check"@ =~= check_flag());
    assert("--unregister"@ =~= unregister_flag());
    assert("afsim://"@ =~= scheme_prefix());
    if args.len() > 1 && has_prefix(args[1], scheme_prefix()) {
        assert(args[1].subrange(0, 8)[0] == args[1][0]);
        assert(args[1] != unregister_flag());
    }
}

/// A link taken from the command line is always an `afsim://` link.
pub proof fn law_command_line_link(args: Seq<Seq<char>>)
    ensures
        command_for(args) matches CommandView::Run(Some(u)) ==> has_prefix(u, scheme_prefix()),
{
}

} // verus!
