//! The command line: parsing the arguments into a command, and what the
//! `list` and `copy` commands print and restore.

use vstd::prelude::*;
use crate::clipboard::{copy_image, copy_text, CopyRequest};
use crate::storage::{ClipboardEntry, ClipboardEntryKind};
use vstd::string::*;
use vstd::utf8::encode_utf8;
use crate::text::{
    chars_equal, dec_int, parse_i64_chars, parse_i64_result, parse_unsigned_chars, parse_unsigned_result, problem_text, IntProblem, all_digits, digits_value, lemma_parse_digits,
    preview, preview_spec, push_i64, push_str, to_chars,
};

verus! {

/// How many items `list` prints when no limit is given.
pub const DEFAULT_LIST_LIMIT: usize = 20;

/// What the command line asks for.
#[derive(Debug)]
pub enum Command {
    Gui { activation_token: Option<String> },
    Daemon,
    Tray,
    List { limit: usize },
    Copy { id: i64 },
    Clear,
    Help,
    Version,
}

/// Why the command line was refused.
#[derive(Debug)]
pub enum CommandError {
    MissingTokenValue,
    UnknownGuiOption(String),
    InvalidListLimit(String, IntProblem),
    MissingCopyId,
    InvalidCopyId(IntProblem),
    UnknownCommand(String),
}

/// A command, with its texts as character sequences.
pub enum CommandView {
    Gui(Option<Seq<char>>),
    Daemon,
    Tray,
    List(nat),
    Copy(int),
    Clear,
    Help,
    Version,
}

/// A refusal, with its texts as character sequences.
pub enum CommandErrorView {
    MissingTokenValue,
    UnknownGuiOption(Seq<char>),
    InvalidListLimit(Seq<char>, IntProblem),
    MissingCopyId,
    InvalidCopyId(IntProblem),
    UnknownCommand(Seq<char>),
}

/// The text of an optional string.
pub open spec fn opt_text(o: Option<String>) -> Option<Seq<char>> {
    match o {
        Some(s) => Some(s@),
        None => None,
    }
}

impl View for Command {
    type V = CommandView;

    open spec fn view(&self) -> CommandView {
        match self {
            Command::Gui { activation_token } => CommandView::Gui(opt_text(*activation_token)),
            Command::Daemon => CommandView::Daemon,
            Command::Tray => CommandView::Tray,
            Command::List { limit } => CommandView::List(*limit as nat),
            Command::Copy { id } => CommandView::Copy(*id as int),
            Command::Clear => CommandView::Clear,
            Command::Help => CommandView::Help,
            Command::Version => CommandView::Version,
        }
    }
}

impl View for CommandError {
    type V = CommandErrorView;

    open spec fn view(&self) -> CommandErrorView {
        match self {
            CommandError::MissingTokenValue => CommandErrorView::MissingTokenValue,
            CommandError::UnknownGuiOption(o) => CommandErrorView::UnknownGuiOption(o@),
            CommandError::InvalidListLimit(v, p) => CommandErrorView::InvalidListLimit(v@, *p),
            CommandError::MissingCopyId => CommandErrorView::MissingCopyId,
            CommandError::InvalidCopyId(p) => CommandErrorView::InvalidCopyId(*p),
            CommandError::UnknownCommand(c) => CommandErrorView::UnknownCommand(c@),
        }
    }
}

/// The texts of the arguments.
pub open spec fn args_text(args: Seq<String>) -> Seq<Seq<char>> {
    Seq::new(args.len(), |i: int| args[i]@)
}

/// The options after `gui`: each `--activation-token` takes the next
/// argument as the token (the last one wins); anything else is refused.
pub open spec fn gui_options_spec(rest: Seq<Seq<char>>, token: Option<Seq<char>>) -> Result<
    CommandView,
    CommandErrorView,
>
    decreases rest.len(),
{
    if rest.len() == 0 {
        Ok(CommandView::Gui(token))
    } else if rest[0] == "--activation-token"@ {
        if rest.len() < 2 {
            Err(CommandErrorView::MissingTokenValue)
        } else {
            gui_options_spec(rest.skip(2), Some(rest[1]))
        }
    } else {
        Err(CommandErrorView::UnknownGuiOption(rest[0]))
    }
}

/// The command that the arguments after the program name ask for;
/// `env_token` is the activation token found in the environment.
pub open spec fn parse_command_spec(args: Seq<Seq<char>>, env_token: Option<Seq<char>>) -> Result<
    CommandView,
    CommandErrorView,
> {
    if args.len() == 0 {
        Ok(CommandView::Gui(env_token))
    } else {
        let a = args[0];
        if a == "gui"@ {
            gui_options_spec(args.skip(1), env_token)
        } else if a == "daemon"@ {
            Ok(CommandView::Daemon)
        } else if a == "tray"@ {
            Ok(CommandView::Tray)
        } else if a == "list"@ {
            if args.len() < 2 {
                Ok(CommandView::List(DEFAULT_LIST_LIMIT as nat))
            } else {
                match parse_unsigned_result(args[1], usize::MAX as nat) {
                    Ok(n) => Ok(CommandView::List(n)),
                    Err(p) => Err(CommandErrorView::InvalidListLimit(args[1], p)),
                }
            }
        } else if a == "copy"@ {
            if args.len() < 2 {
                Err(CommandErrorView::MissingCopyId)
            } else {
                match parse_i64_result(args[1]) {
                    Ok(n) => Ok(CommandView::Copy(n)),
                    Err(p) => Err(CommandErrorView::InvalidCopyId(p)),
                }
            }
        } else if a == "clear"@ {
            Ok(CommandView::Clear)
        } else if a == "help"@ || a == "--help"@ || a == "-h"@ {
            Ok(CommandView::Help)
        } else if a == "--version"@ || a == "-V"@ {
            Ok(CommandView::Version)
        } else {
            Err(CommandErrorView::UnknownCommand(a))
        }
    }
}

/// A parse result with its texts as character sequences.
pub open spec fn parse_result_view(r: Result<Command, CommandError>) -> Result<
    CommandView,
    CommandErrorView,
> {
    match r {
        Ok(c) => Ok(c@),
        Err(e) => Err(e@),
    }
}

/// A copy of a string.
fn copy_string(s: &String) -> (r: String)
    ensures
        r@ == s@,
{
    s.as_str().to_owned()
}

/// Reads the options after `gui`, starting from the environment's token.
fn parse_gui_options(args: &Vec<String>, env_token: Option<String>) -> (r: Result<
    Command,
    CommandError,
>)
    requires
        args.len() >= 1,
    ensures
        parse_result_view(r) == gui_options_spec(args_text(args@).skip(1), opt_text(env_token)),
{
    let flag = "--activation-token";
    assert(flag@ == "--activation-token"@);
    let mut token = env_token;
    let mut i: usize = 1;
    while i < args.len()
        invariant
            1 <= i <= args.len(),
            flag@ == "--activation-token"@,
            gui_options_spec(args_text(args@).skip(1), opt_text(env_token)) == gui_options_spec(
                args_text(args@).skip(i as int),
                opt_text(token),
            ),
        decreases args.len() - i,
    {
        let ghost rest = args_text(args@).skip(i as int);
        assert(rest.len() == args.len() - i);
        assert(rest[0] == args[i as int]@);
        if chars_equal(args[i].as_str(), flag) {
            assert(rest[0] == "--activation-token"@);
            if i + 1 >= args.len() {
                assert(gui_options_spec(rest, opt_text(token)) == Err::<
                    CommandView,
                    CommandErrorView,
                >(CommandErrorView::MissingTokenValue));
                return Err(CommandError::MissingTokenValue);
            }
            assert(rest[1] == args[i + 1]@);
            assert(rest.skip(2) =~= args_text(args@).skip(i + 2));
            token = Some(copy_string(&args[i + 1]));
            i = i + 2;
        } else {
            assert(gui_options_spec(rest, opt_text(token)) == Err::<CommandView, CommandErrorView>(
                CommandErrorView::UnknownGuiOption(args[i as int]@),
            ));
            return Err(CommandError::UnknownGuiOption(copy_string(&args[i])));
        }
    }
    assert(args_text(args@).skip(i as int).len() == 0);
    Ok(Command::Gui { activation_token: token })
}

/// Parses the arguments after the program name.
pub fn parse_command(args: &Vec<String>, env_token: Option<String>) -> (r: Result<
    Command,
    CommandError,
>)
    ensures
        parse_result_view(r) == parse_command_spec(args_text(args@), opt_text(env_token)),
{
    if args.len() == 0 {
        return Ok(Command::Gui { activation_token: env_token });
    }
    let a = args[0].as_str();
    if chars_equal(a, "gui") {
        parse_gui_options(args, env_token)
    } else if chars_equal(a, "daemon") {
        Ok(Command::Daemon)
    } else if chars_equal(a, "tray") {
        Ok(Command::Tray)
    } else if chars_equal(a, "list") {
        if args.len() < 2 {
            Ok(Command::List { limit: DEFAULT_LIST_LIMIT })
        } else {
            let value = to_chars(args[1].as_str());
            match parse_unsigned_chars(&value, usize::MAX as u64) {
                Ok(n) => Ok(Command::List { limit: n as usize }),
                Err(p) => Err(CommandError::InvalidListLimit(copy_string(&args[1]), p)),
            }
        }
    } else if chars_equal(a, "copy") {
        if args.len() < 2 {
            Err(CommandError::MissingCopyId)
        } else {
            let value = to_chars(args[1].as_str());
            match parse_i64_chars(&value) {
                Ok(n) => Ok(Command::Copy { id: n }),
                Err(p) => Err(CommandError::InvalidCopyId(p)),
            }
        }
    } else if chars_equal(a, "clear") {
        Ok(Command::Clear)
    } else if chars_equal(a, "help") || chars_equal(a, "--help") || chars_equal(a, "-h") {
        Ok(Command::Help)
    } else if chars_equal(a, "--version") || chars_equal(a, "-V") {
        Ok(Command::Version)
    } else {
        Err(CommandError::UnknownCommand(copy_string(&args[0])))
    }
}


impl CommandError {
    /// The refusal as the command line prints it.
    pub fn message(&self) -> (r: String)
        ensures
            r@ == match self {
                CommandError::MissingTokenValue => "--activation-token requires a value"@,
                CommandError::UnknownGuiOption(o) => "unknown gui option: "@ + o@,
                CommandError::InvalidListLimit(v, p) => "invalid list limit: "@ + v@ + ": "@
                    + problem_text(*p),
                CommandError::MissingCopyId => "copy requires an item id, for example: clipway copy 42"@,
                CommandError::InvalidCopyId(p) => "copy id must be an integer: "@ + problem_text(*p),
                CommandError::UnknownCommand(c) => "unknown command: "@ + c@
                    + "\n\nRun `clipway help` to see supported commands."@,
            },
    {
        match self {
            CommandError::MissingTokenValue => "--activation-token requires a value".to_owned(),
            CommandError::UnknownGuiOption(o) => {
                let mut r = "unknown gui option: ".to_owned();
                push_str(&mut r, o.as_str());
                r
            },
            CommandError::InvalidListLimit(v, p) => {
                let mut r = "invalid list limit: ".to_owned();
                push_str(&mut r, v.as_str());
                push_str(&mut r, ": ");
                push_str(&mut r, p.message());
                r
            },
            CommandError::MissingCopyId => "copy requires an item id, for example: clipway copy 42".to_owned(),
            CommandError::InvalidCopyId(p) => {
                let mut r = "copy id must be an integer: ".to_owned();
                push_str(&mut r, p.message());
                r
            },
            CommandError::UnknownCommand(c) => {
                let mut r = "unknown command: ".to_owned();
                push_str(&mut r, c.as_str());
                push_str(&mut r, "\n\nRun `clipway help` to see supported commands.");
                r
            },
        }
    }
}

/// The activation token that the environment hands the panel:
/// `CLIPWAY_ACTIVATION_TOKEN`, else `XDG_ACTIVATION_TOKEN`.
pub fn activation_token_from_env(clipway_token: Option<String>, xdg_token: Option<String>) -> (r:
    Option<String>)
    ensures
        opt_text(r) == match opt_text(clipway_token) {
            Some(t) => Some(t),
            None => opt_text(xdg_token),
        },
{
    match clipway_token {
        Some(t) => Some(t),
        None => xdg_token,
    }
}

/// The one-line preview that `list` prints for a text: at most 80
/// characters.
pub fn preview_text(content: &str) -> (r: String)
    ensures
        r@ == preview_spec(content@, 80, "[whitespace only]"@),
        r@.len() <= 83,
{
    preview(content, 80, "[whitespace only]")
}

/// What `list` prints for an entry: its id, its time and its preview,
/// separated by tabs. Images show their stored summary.
pub open spec fn list_line_spec(id: int, created_at: Seq<char>, kind: ClipboardEntryKind, content: Seq<
    char,
>) -> Seq<char> {
    dec_int(id) + "\t"@ + created_at + "\t"@ + match kind {
        ClipboardEntryKind::Text => preview_spec(content, 80, "[whitespace only]"@),
        ClipboardEntryKind::Image => content,
    }
}

/// The line that `list` prints for an entry.
pub fn list_line(entry: &ClipboardEntry) -> (r: String)
    ensures
        r@ == list_line_spec(entry.id as int, entry.created_at@, entry.kind, entry.content@),
{
    let mut r = String::new();
    push_i64(&mut r, entry.id);
    push_str(&mut r, "\t");
    push_str(&mut r, entry.created_at.as_str());
    push_str(&mut r, "\t");
    match entry.kind {
        ClipboardEntryKind::Text => {
            let p = preview_text(entry.content.as_str());
            push_str(&mut r, p.as_str());
        },
        ClipboardEntryKind::Image => {
            push_str(&mut r, entry.content.as_str());
        },
    }
    r
}

/// What `copy` puts back on the clipboard for an entry: a text as it was
/// copied, an image with its stored bytes; an image whose bytes are missing
/// is refused.
pub fn entry_copy_request(entry: &ClipboardEntry) -> (r: Result<CopyRequest, String>)
    ensures
        match entry.kind {
            ClipboardEntryKind::Text => r matches Ok(c) && c.content_type@ == "text/plain"@
                && c.bytes@ == encode_utf8(entry.content@),
            ClipboardEntryKind::Image => match entry.binary_content {
                Some(b) => r matches Ok(c) && c.content_type@ == entry.content_type@ && c.bytes@
                    == b@,
                None => r matches Err(m) && m@ == "image payload was missing"@,
            },
        },
{
    match entry.kind {
        ClipboardEntryKind::Text => Ok(copy_text(entry.content.as_str())),
        ClipboardEntryKind::Image => match &entry.binary_content {
            Some(b) => Ok(copy_image(entry.content_type.as_str(), b.as_slice())),
            None => Err("image payload was missing".to_owned()),
        },
    }
}

/// The message for an id that `copy` did not find.
pub fn not_found_message(id: i64) -> (r: String)
    ensures
        r@ == "clipboard item "@ + dec_int(id as int) + " was not found"@,
{
    let mut r = "clipboard item ".to_owned();
    push_i64(&mut r, id);
    push_str(&mut r, " was not found");
    r
}

/// The message that `copy` prints once the item is back on the clipboard.
pub fn copied_message(id: i64) -> (r: String)
    ensures
        r@ == "copied item "@ + dec_int(id as int) + " back to the clipboard"@,
{
    let mut r = "copied item ".to_owned();
    push_i64(&mut r, id);
    push_str(&mut r, " back to the clipboard");
    r
}

/// The usage text that `help` prints, for the given program version.
pub fn help_text(version: &str) -> (r: String)
    ensures
        r@ == "Clipway "@ + version@ + "\n\nUsage:\n  clipway                Launch the GUI and ensure the background daemon is running\n  clipway gui            Launch the GUI\n  clipway gui --activation-token TOKEN\n                         Launch or activate the GUI with a Wayland activation token\n  clipway daemon         Run the clipboard watcher in the foreground\n  clipway tray           Start the tray resident entry\n  clipway list [limit]   Print the most recent clipboard items\n  clipway copy <id>      Copy a saved item back to the clipboard\n  clipway clear          Delete all saved clipboard history\n  clipway help           Show this help\n"@,
{
    let mut r = "Clipway ".to_owned();
    push_str(&mut r, version);
    push_str(&mut r, "\n\nUsage:\n  clipway                Launch the GUI and ensure the background daemon is running\n  clipway gui            Launch the GUI\n  clipway gui --activation-token TOKEN\n                         Launch or activate the GUI with a Wayland activation token\n  clipway daemon         Run the clipboard watcher in the foreground\n  clipway tray           Start the tray resident entry\n  clipway list [limit]   Print the most recent clipboard items\n  clipway copy <id>      Copy a saved item back to the clipboard\n  clipway clear          Delete all saved clipboard history\n  clipway help           Show this help\n");
    r
}

/// What `--version` prints.
pub fn version_text(version: &str) -> (r: String)
    ensures
        r@ == "clipway "@ + version@,
{
    let mut r = "clipway ".to_owned();
    push_str(&mut r, version);
    r
}


/// `list` followed by a limit lists as many entries as the limit says, at
/// any size that fits in `usize`; a limit that does not read is refused
/// with the reason; extra arguments are ignored.
pub proof fn lemma_list_limit(args: Seq<Seq<char>>, env_token: Option<Seq<char>>)
    requires
        args.len() >= 2,
        args[0] == "list"@,
    ensures
        parse_unsigned_result(args[1], usize::MAX as nat) matches Ok(n) ==> parse_command_spec(
            args,
            env_token,
        ) == Ok::<CommandView, CommandErrorView>(CommandView::List(n)),
        parse_unsigned_result(args[1], usize::MAX as nat) matches Err(p) ==> parse_command_spec(
            args,
            env_token,
        ) == Err::<CommandView, CommandErrorView>(CommandErrorView::InvalidListLimit(args[1], p)),
{
    reveal_strlit("list");
    reveal_strlit("gui");
    reveal_strlit("daemon");
    reveal_strlit("tray");
    assert("list"@.len() == 4);
    assert("gui"@.len() == 3);
    assert("daemon"@.len() == 6);
    assert(args[0] != "gui"@);
    assert(args[0] != "daemon"@);
    assert(args[0] != "tray"@) by {
        assert(args[0][0] != "tray"@[0]);
    }
}

/// `list` followed by a decimal number lists that many entries, however
/// large the number, as long as it fits in `usize`.
pub proof fn lemma_list_decimal_limit(args: Seq<Seq<char>>, env_token: Option<Seq<char>>)
    requires
        args.len() >= 2,
        args[0] == "list"@,
        args[1].len() > 0,
        all_digits(args[1]),
        digits_value(args[1]) <= usize::MAX,
    ensures
        parse_command_spec(args, env_token) == Ok::<CommandView, CommandErrorView>(
            CommandView::List(digits_value(args[1])),
        ),
{
    lemma_parse_digits(args[1], usize::MAX as nat);
    lemma_list_limit(args, env_token);
}


/// `copy` followed by an id restores the item with that id, for every id
/// that `i64` holds; an id that does not read is refused with the reason.
pub proof fn lemma_copy_id(args: Seq<Seq<char>>, env_token: Option<Seq<char>>)
    requires
        args.len() >= 2,
        args[0] == "copy"@,
    ensures
        parse_i64_result(args[1]) matches Ok(n) ==> parse_command_spec(args, env_token) == Ok::<
            CommandView,
            CommandErrorView,
        >(CommandView::Copy(n)),
        parse_i64_result(args[1]) matches Err(p) ==> parse_command_spec(args, env_token) == Err::<
            CommandView,
            CommandErrorView,
        >(CommandErrorView::InvalidCopyId(p)),
{
    reveal_strlit("copy");
    reveal_strlit("list");
    reveal_strlit("gui");
    reveal_strlit("daemon");
    reveal_strlit("tray");
    assert("copy"@.len() == 4);
    assert("gui"@.len() == 3);
    assert("daemon"@.len() == 6);
    assert(args[0] != "gui"@);
    assert(args[0] != "daemon"@);
    assert(args[0] != "tray"@) by {
        assert(args[0][0] != "tray"@[0]);
    }
    assert(args[0] != "list"@) by {
        assert(args[0][0] != "list"@[0]);
    }
}

/// `gui --activation-token T` opens the panel with the token `T`, whatever
/// the environment holds; without arguments the environment's token is
/// used.
pub proof fn lemma_gui_token(token: Seq<char>, env_token: Option<Seq<char>>)
    ensures
        parse_command_spec(seq!["gui"@, "--activation-token"@, token], env_token) == Ok::<
            CommandView,
            CommandErrorView,
        >(CommandView::Gui(Some(token))),
        parse_command_spec(seq!["gui"@], env_token) == Ok::<CommandView, CommandErrorView>(
            CommandView::Gui(env_token),
        ),
        parse_command_spec(Seq::<Seq<char>>::empty(), env_token) == Ok::<
            CommandView,
            CommandErrorView,
        >(CommandView::Gui(env_token)),
{
    let args = seq!["gui"@, "--activation-token"@, token];
    assert(args.skip(1) =~= seq!["--activation-token"@, token]);
    assert(args.skip(1).skip(2) =~= Seq::<Seq<char>>::empty());
    assert(gui_options_spec(Seq::<Seq<char>>::empty(), Some(token)) == Ok::<
        CommandView,
        CommandErrorView,
    >(CommandView::Gui(Some(token))));
    assert(gui_options_spec(args.skip(1), env_token) == gui_options_spec(
        args.skip(1).skip(2),
        Some(token),
    ));
    assert(args[0] == "gui"@);
    assert(seq!["gui"@].skip(1) =~= Seq::<Seq<char>>::empty());
}

} // verus!
