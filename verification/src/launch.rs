//! Command-line arguments and keyboard commands.
use vstd::prelude::*;
use crate::text::{chars_equal_str, chars_of, extend_chars, string_of};

verus! {

broadcast use vstd::string::group_string_axioms;

// ---------------------------------------------------------------------------
// Command line
// ---------------------------------------------------------------------------

/// What an invocation asks for.
#[derive(Clone, Copy, Debug, PartialEq, Eq, Structural)]
pub struct LaunchRequest {
    /// Keep running in the background and toggle the popup on later invocations.
    pub service: bool,
}

/// Why the arguments were refused.
#[derive(Clone, Debug, PartialEq, Eq)]
pub enum LaunchError {
    /// `--help` or `-h` was given.
    Usage,
    /// An argument that is not understood.
    UnknownArgument(String),
}

/// The usage line.
pub open spec fn usage_text() -> Seq<char> {
    "Usage: cliphist-ui [--service]"@
}

/// An argument other than `--service` is at `k` (counting from the first
/// argument after the program name) and none before it.
pub open spec fn first_other_at(args: Seq<Seq<char>>, k: int) -> bool {
    &&& 1 <= k < args.len()
    &&& args[k] != "--service"@
    &&& forall|j: int| 1 <= j < k ==> args[j] == "--service"@
}

/// The outcome of parsing `args` (the program name first): the first argument
/// that is not `--service` decides a refusal; otherwise service mode is asked
/// for exactly when `--service` was given.
pub open spec fn launch_outcome(args: Seq<Seq<char>>) -> Result<bool, Option<Seq<char>>> {
    if exists|k: int| first_other_at(args, k) {
        let k = choose|k: int| first_other_at(args, k);
        if args[k] == "--help"@ || args[k] == "-h"@ {
            Err(None)
        } else {
            Err(Some(args[k]))
        }
    } else {
        Ok(args.len() > 1)
    }
}

/// The views of a list of arguments.
pub open spec fn args_view(args: Seq<String>) -> Seq<Seq<char>> {
    args.map_values(|a: String| a@)
}

/// Parses the command line (program name first).
pub fn parse_launch_args(args: &Vec<String>) -> (r: Result<LaunchRequest, LaunchError>)
    ensures
        match launch_outcome(args_view(args@)) {
            Ok(service) => r == Ok::<LaunchRequest, LaunchError>(LaunchRequest { service }),
            Err(None) => r == Err::<LaunchRequest, LaunchError>(LaunchError::Usage),
            Err(Some(arg)) => r matches Err(LaunchError::UnknownArgument(a)) && a@ == arg,
        },
{
    let ghost v = args_view(args@);
    let mut service = false;
    let mut i: usize = 1;
    while i < args.len()
        invariant
            1 <= i,
            i <= args.len() || args.len() == 0,
            v == args_view(args@),
            forall|j: int| 1 <= j < i && j < args.len() ==> v[j] == "--service"@,
            service == (i > 1 && args.len() > 1),
        decreases args.len() - i,
    {
        let a = chars_of(args[i].as_str());
        assert(a@ == v[i as int]);
        if chars_equal_str(&a, "--service") {
            service = true;
        } else {
            proof {
                assert(first_other_at(v, i as int));
                let k = choose|k: int| first_other_at(v, k);
                if k < i {
                } else if k > i {
                    assert(v[i as int] == "--service"@);
                }
            }
            if chars_equal_str(&a, "--help") || chars_equal_str(&a, "-h") {
                return Err(LaunchError::Usage);
            }
            return Err(LaunchError::UnknownArgument(string_of(&a)));
        }
        i = i + 1;
    }
    proof {
        assert forall|k: int| !first_other_at(v, k) by {
            if 1 <= k < v.len() {
                assert(v[k] == "--service"@);
            }
        }
    }
    Ok(LaunchRequest { service })
}

impl LaunchError {
    /// The message printed for a refusal (the usage line is printed after it).
    pub fn message(&self) -> (r: String)
        ensures
            r@ == match self {
                LaunchError::Usage => usage_text(),
                LaunchError::UnknownArgument(a) => "unknown argument: "@ + a@,
            },
    {
        match self {
            LaunchError::Usage => string_of(&chars_of("Usage: cliphist-ui [--service]")),
            LaunchError::UnknownArgument(a) => {
                let mut out = chars_of("unknown argument: ");
                extend_chars(&mut out, &chars_of(a.as_str()));
                string_of(&out)
            },
        }
    }
}

/// The usage line.
pub fn usage() -> (r: String)
    ensures
        r@ == usage_text(),
{
    string_of(&chars_of("Usage: cliphist-ui [--service]"))
}

// ---------------------------------------------------------------------------
// Keyboard
// ---------------------------------------------------------------------------

/// The named keys that the list reacts to.
#[derive(Clone, Copy, Debug, PartialEq, Eq, Structural)]
pub enum NamedKey {
    Escape,
    Down,
    Up,
    Return,
    KeypadEnter,
    Other,
}

/// A key press in the entry list.
#[derive(Clone, Copy, Debug, PartialEq, Eq, Structural)]
pub struct KeyPress {
    /// Which named key it is, if one of interest.
    pub key: NamedKey,
    /// The character the key types, if any.
    pub character: Option<char>,
    /// Whether Control is held.
    pub ctrl: bool,
}

/// What a key press in the entry list asks for.
#[derive(Clone, Copy, Debug, PartialEq, Eq, Structural)]
pub enum KeyCommand {
    /// Control-r: reload the history.
    Reload,
    /// Escape: cancel a pending clear, or close.
    Escape,
    /// Down or `j`.
    MoveDown,
    /// Up or `k`.
    MoveUp,
    /// `?`: show or hide the full key help.
    ToggleHelp,
    /// `/`: go to the search field.
    Search,
    /// `g`.
    SelectFirst,
    /// `G`.
    SelectLast,
    /// `q`.
    Quit,
    /// `y`, Enter.
    Copy,
    /// `d`.
    Delete,
    /// `D`: ask to clear, or clear when already asked.
    Clear,
    /// `r`.
    ReloadPlain,
}

/// The command a key press stands for, checked in this order: Control-r or
/// Control-R; Escape; Down or `j`; Up or `k`; then the typed character; then
/// Enter. `None` when the list does not handle the key.
pub open spec fn key_command_spec(k: KeyPress) -> Option<KeyCommand> {
    if k.ctrl && (k.character == Some('r') || k.character == Some('R')) {
        Some(KeyCommand::Reload)
    } else if k.key == NamedKey::Escape {
        Some(KeyCommand::Escape)
    } else if k.key == NamedKey::Down || k.character == Some('j') {
        Some(KeyCommand::MoveDown)
    } else if k.key == NamedKey::Up || k.character == Some('k') {
        Some(KeyCommand::MoveUp)
    } else if k.character == Some('?') {
        Some(KeyCommand::ToggleHelp)
    } else if k.character == Some('/') {
        Some(KeyCommand::Search)
    } else if k.character == Some('g') {
        Some(KeyCommand::SelectFirst)
    } else if k.character == Some('G') {
        Some(KeyCommand::SelectLast)
    } else if k.character == Some('q') {
        Some(KeyCommand::Quit)
    } else if k.character == Some('y') {
        Some(KeyCommand::Copy)
    } else if k.character == Some('d') {
        Some(KeyCommand::Delete)
    } else if k.character == Some('D') {
        Some(KeyCommand::Clear)
    } else if k.character == Some('r') {
        Some(KeyCommand::ReloadPlain)
    } else if k.key == NamedKey::Return || k.key == NamedKey::KeypadEnter {
        Some(KeyCommand::Copy)
    } else {
        None
    }
}

/// The command a key press in the entry list stands for.
pub fn key_command(k: &KeyPress) -> (r: Option<KeyCommand>)
    ensures
        r == key_command_spec(*k),
{
    let c = k.character;
    if k.ctrl && (c == Some('r') || c == Some('R')) {
        Some(KeyCommand::Reload)
    } else if k.key == NamedKey::Escape {
        Some(KeyCommand::Escape)
    } else if k.key == NamedKey::Down || c == Some('j') {
        Some(KeyCommand::MoveDown)
    } else if k.key == NamedKey::Up || c == Some('k') {
        Some(KeyCommand::MoveUp)
    } else if c == Some('?') {
        Some(KeyCommand::ToggleHelp)
    } else if c == Some('/') {
        Some(KeyCommand::Search)
    } else if c == Some('g') {
        Some(KeyCommand::SelectFirst)
    } else if c == Some('G') {
        Some(KeyCommand::SelectLast)
    } else if c == Some('q') {
        Some(KeyCommand::Quit)
    } else if c == Some('y') {
        Some(KeyCommand::Copy)
    } else if c == Some('d') {
        Some(KeyCommand::Delete)
    } else if c == Some('D') {
        Some(KeyCommand::Clear)
    } else if c == Some('r') {
        Some(KeyCommand::ReloadPlain)
    } else if k.key == NamedKey::Return || k.key == NamedKey::KeypadEnter {
        Some(KeyCommand::Copy)
    } else {
        None
    }
}

} // verus!
