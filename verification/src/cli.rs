//! Command-line decisions: removed commands and the answers to prompts.

use vstd::prelude::*;
use crate::display::{line_view, push_segment, single_line, styled, styled_string, Segment, Style};
use crate::text::{owned, push_str, str_eq, to_chars, trim, trimmed};

verus! {

/// A command of an earlier release that is no longer accepted.
#[derive(Debug, Clone, Copy, PartialEq, Eq, Structural)]
pub enum LegacyCommand {
    /// `aur enable`: moved to `config set aur on`.
    AurEnable,
    /// `aur disable`: moved to `config set aur off`.
    AurDisable,
    /// Any other `aur` subcommand: removed.
    AurRemoved,
    /// `update --self` or `self-update`: renamed to `upgrade`.
    Renamed,
}

/// The legacy command the arguments (program name first) spell, if any.
pub open spec fn legacy_command(args: Seq<Seq<char>>) -> Option<LegacyCommand> {
    if args.len() < 3 {
        None
    } else {
        let sub = args[1];
        let arg = args[2];
        if sub == "aur"@ && arg == "enable"@ {
            Some(LegacyCommand::AurEnable)
        } else if sub == "aur"@ && arg == "disable"@ {
            Some(LegacyCommand::AurDisable)
        } else if sub == "aur"@ {
            Some(LegacyCommand::AurRemoved)
        } else if (sub == "update"@ && arg == "--self"@) || sub == "self-update"@ {
            Some(LegacyCommand::Renamed)
        } else {
            None
        }
    }
}

/// Check for legacy/removed commands, which get a migration message.
pub fn check_legacy_commands(args: &Vec<String>) -> (r: Option<LegacyCommand>)
    ensures
        r == legacy_command(crate::text::string_texts(args@)),
{
    if args.len() < 3 {
        return None;
    }
    let sub = args[1].as_str();
    let arg = args[2].as_str();
    if str_eq(sub, "aur") && str_eq(arg, "enable") {
        Some(LegacyCommand::AurEnable)
    } else if str_eq(sub, "aur") && str_eq(arg, "disable") {
        Some(LegacyCommand::AurDisable)
    } else if str_eq(sub, "aur") {
        Some(LegacyCommand::AurRemoved)
    } else if (str_eq(sub, "update") && str_eq(arg, "--self")) || str_eq(sub, "self-update") {
        Some(LegacyCommand::Renamed)
    } else {
        None
    }
}

/// A character with ASCII capitals folded to small letters, as a code point.
pub open spec fn ascii_fold(c: char) -> int {
    if 'A' <= c && c <= 'Z' { (c as u32) + 32 } else { (c as u32) as int }
}

/// Two texts are equal when ASCII letter case is ignored.
pub open spec fn eq_ignore_ascii_case(a: Seq<char>, b: Seq<char>) -> bool {
    a.len() == b.len() && forall|i: int| 0 <= i < a.len() ==> ascii_fold(#[trigger] a[i]) == ascii_fold(b[i])
}

/// Whether two texts are equal ignoring ASCII letter case.
fn eq_ignore_case(a: &[char], b: &str) -> (r: bool)
    ensures
        r == eq_ignore_ascii_case(a@, b@),
{
    let bv = to_chars(b);
    if a.len() != bv.len() {
        return false;
    }
    let mut i: usize = 0;
    while i < a.len()
        invariant
            a@.len() == bv@.len(),
            bv@ == b@,
            i <= a@.len(),
            forall|j: int| 0 <= j < i ==> ascii_fold(#[trigger] a@[j]) == ascii_fold(bv@[j]),
        decreases a@.len() - i,
    {
        let x = a[i];
        let y = bv[i];
        let fx: u32 = if 'A' <= x && x <= 'Z' { (x as u32) + 32 } else { x as u32 };
        let fy: u32 = if 'A' <= y && y <= 'Z' { (y as u32) + 32 } else { y as u32 };
        if fx != fy {
            return false;
        }
        i += 1;
    }
    true
}

/// A yes: `y` or `yes`, in any case.
pub open spec fn is_yes(choice: Seq<char>) -> bool {
    eq_ignore_ascii_case(choice, "y"@) || eq_ignore_ascii_case(choice, "yes"@)
}

/// A no: `n` or `no`, in any case.
pub open spec fn is_no(choice: Seq<char>) -> bool {
    eq_ignore_ascii_case(choice, "n"@) || eq_ignore_ascii_case(choice, "no"@)
}

/// The answer to "Continue? [Y/n]": `None` is the end of input, which never
/// confirms; otherwise an empty answer or a yes (trimmed) confirms.
pub open spec fn confirmed(answer: Option<Seq<char>>) -> bool {
    match answer {
        None => false,
        Some(a) => trim(a).len() == 0 || is_yes(trim(a)),
    }
}

/// Whether an answer to the confirmation prompt confirms.
pub fn confirms(answer: Option<&str>) -> (b: bool)
    ensures
        b == confirmed(match answer { Some(a) => Some(a@), None => None }),
{
    match answer {
        None => false,
        Some(a) => {
            let chars = to_chars(a);
            let t = trimmed(chars.as_slice());
            t.len() == 0 || eq_ignore_case(t.as_slice(), "y") || eq_ignore_case(t.as_slice(), "yes")
        },
    }
}

/// The answer to the contribution prompt: the end of input or an empty
/// answer takes the default; otherwise only a yes agrees.
pub open spec fn contributes(answer: Option<Seq<char>>, default_yes: bool) -> bool {
    match answer {
        None => default_yes,
        Some(a) => if trim(a).len() == 0 { default_yes } else { is_yes(trim(a)) },
    }
}

/// Whether an answer to the contribution prompt agrees.
pub fn agrees_to_contribute(answer: Option<&str>, default_yes: bool) -> (b: bool)
    ensures
        b == contributes(match answer { Some(a) => Some(a@), None => None }, default_yes),
{
    match answer {
        None => default_yes,
        Some(a) => {
            let chars = to_chars(a);
            let t = trimmed(chars.as_slice());
            if t.len() == 0 {
                default_yes
            } else {
                eq_ignore_case(t.as_slice(), "y") || eq_ignore_case(t.as_slice(), "yes")
            }
        },
    }
}

/// The answer to "View Details? [Y/n]": an empty answer or a yes shows the
/// details; a no, or anything else, does not.
pub open spec fn wants_details(answer: Seq<char>) -> bool {
    let c = trim(answer);
    !is_no(c) && (c.len() == 0 || is_yes(c))
}

/// Whether an answer to the details prompt asks for the details.
pub fn shows_details(answer: &str) -> (b: bool)
    ensures
        b == wants_details(answer@),
{
    let chars = to_chars(answer);
    let c = trimmed(chars.as_slice());
    if eq_ignore_case(c.as_slice(), "n") || eq_ignore_case(c.as_slice(), "no") {
        return false;
    }
    c.len() == 0 || eq_ignore_case(c.as_slice(), "y") || eq_ignore_case(c.as_slice(), "yes")
}

/// The hint of the contribution prompt.
pub fn contribution_hint(default_yes: bool) -> (r: &'static str)
    ensures
        r@ == if default_yes { "Y/n"@ } else { "y/N"@ },
{
    if default_yes { "Y/n" } else { "y/N" }
}


/// What the user is told of a legacy command, in styled pieces; `subcmd` is
/// the command as typed (the second argument).
pub open spec fn legacy_view(cmd: LegacyCommand, subcmd: Seq<char>) -> Seq<(Style, Seq<char>)> {
    match cmd {
        LegacyCommand::AurEnable => seq![
            (Style::Plain, "The 'aur' subcommand has been moved.\n  Use: "@),
            (Style::Label, "cpac config set aur on"@),
            (Style::Plain, " instead."@),
        ],
        LegacyCommand::AurDisable => seq![
            (Style::Plain, "The 'aur' subcommand has been moved.\n  Use: "@),
            (Style::Label, "cpac config set aur off"@),
            (Style::Plain, " instead."@),
        ],
        LegacyCommand::AurRemoved => seq![
            (Style::Plain, "The 'aur' subcommand has been removed.\n  Use 'cpac config set aur on|off' to configure AUR.\n  Run "@),
            (Style::Label, "cpac --help"@),
            (Style::Plain, " for all commands."@),
        ],
        LegacyCommand::Renamed => seq![
            (Style::Plain, "The '"@ + subcmd + "' command has been renamed.\n  Use: "@),
            (Style::Label, "cpac upgrade"@),
            (Style::Plain, " instead."@),
        ],
    }
}

/// What the user is told of a legacy command.
pub fn legacy_message(cmd: LegacyCommand, subcmd: &str) -> (r: Vec<Segment>)
    ensures
        line_view(r@) == legacy_view(cmd, subcmd@),
{
    let mut l = match cmd {
        LegacyCommand::AurEnable => {
            let mut l = single_line(styled(Style::Plain, "The 'aur' subcommand has been moved.\n  Use: "));
            push_segment(&mut l, styled(Style::Label, "cpac config set aur on"));
            l
        },
        LegacyCommand::AurDisable => {
            let mut l = single_line(styled(Style::Plain, "The 'aur' subcommand has been moved.\n  Use: "));
            push_segment(&mut l, styled(Style::Label, "cpac config set aur off"));
            l
        },
        LegacyCommand::AurRemoved => {
            let mut l = single_line(styled(
                Style::Plain,
                "The 'aur' subcommand has been removed.\n  Use 'cpac config set aur on|off' to configure AUR.\n  Run ",
            ));
            push_segment(&mut l, styled(Style::Label, "cpac --help"));
            l
        },
        LegacyCommand::Renamed => {
            let mut t = owned("The '");
            push_str(&mut t, subcmd);
            push_str(&mut t, "' command has been renamed.\n  Use: ");
            let mut l = single_line(styled_string(Style::Plain, t));
            push_segment(&mut l, styled(Style::Label, "cpac upgrade"));
            l
        },
    };
    match cmd {
        LegacyCommand::AurRemoved => push_segment(&mut l, styled(Style::Plain, " for all commands.")),
        _ => push_segment(&mut l, styled(Style::Plain, " instead.")),
    }
    assert(line_view(l@) =~= legacy_view(cmd, subcmd@));
    l
}
} // verus!
