//! What the user types.
use crate::text::{
    before, first_word, has_prefix, same_text, second_word, split_once, starts_with, strip, take_second_word,
    take_word, trim_text, trimmed,
};
use vstd::prelude::*;
use vstd::string::StrSliceExecFns;
use vstd::utf8::encode_utf8;

verus! {

/// What a line of input asks for.
#[derive(Debug)]
pub enum Command {
    /// An empty line.
    Nothing,
    /// The conversation with this number.
    SwitchTo(usize),
    Help,
    /// A new nickname, which was left out.
    NameMissing,
    /// A new nickname, which is too long.
    NameTooLong,
    Rename(String),
    List,
    Public,
    Reply,
    Online,
    Status,
    Exit,
    Clear,
    /// A private conversation, or one message of it.
    Dm { nickname: String, message: Option<String> },
    /// A channel whose name is none.
    ChannelInvalid,
    Join(String),
    /// A command that there is not.
    Unknown(String),
    /// Anything else is said.
    Say(String),
}

pub enum CommandView {
    Nothing,
    SwitchTo(usize),
    Help,
    NameMissing,
    NameTooLong,
    Rename(Seq<char>),
    List,
    Public,
    Reply,
    Online,
    Status,
    Exit,
    Clear,
    Dm { nickname: Seq<char>, message: Option<Seq<char>> },
    ChannelInvalid,
    Join(Seq<char>),
    Unknown(Seq<char>),
    Say(Seq<char>),
}

impl View for Command {
    type V = CommandView;

    open spec fn view(&self) -> CommandView {
        match self {
            Command::Nothing => CommandView::Nothing,
            Command::SwitchTo(n) => CommandView::SwitchTo(*n),
            Command::Help => CommandView::Help,
            Command::NameMissing => CommandView::NameMissing,
            Command::NameTooLong => CommandView::NameTooLong,
            Command::Rename(name) => CommandView::Rename(name@),
            Command::List => CommandView::List,
            Command::Public => CommandView::Public,
            Command::Reply => CommandView::Reply,
            Command::Online => CommandView::Online,
            Command::Status => CommandView::Status,
            Command::Exit => CommandView::Exit,
            Command::Clear => CommandView::Clear,
            Command::Dm { nickname, message } => CommandView::Dm {
                nickname: nickname@,
                message: match message {
                    Some(m) => Some(m@),
                    None => None,
                },
            },
            Command::ChannelInvalid => CommandView::ChannelInvalid,
            Command::Join(channel) => CommandView::Join(channel@),
            Command::Unknown(word) => CommandView::Unknown(word@),
            Command::Say(text) => CommandView::Say(text@),
        }
    }
}

/// What `/name` with the rest of the line asks for.
pub open spec fn rename_of(rest: Seq<char>) -> CommandView {
    let name = trimmed(rest);
    if name.len() == 0 {
        CommandView::NameMissing
    } else if encode_utf8(name).len() > 20 {
        CommandView::NameTooLong
    } else {
        CommandView::Rename(name)
    }
}

/// What `/dm` with the rest of the line asks for: the nickname ends at the first space, and
/// the message is all that follows it.
pub open spec fn dm_of(rest: Seq<char>) -> CommandView {
    let n = before(rest, ' ') as int;
    CommandView::Dm {
        nickname: rest.take(n),
        message: if n < rest.len() {
            Some(rest.skip(n + 1))
        } else {
            None
        },
    }
}

/// What a line that asks to join a channel asks for.
pub open spec fn join_of(line: Seq<char>) -> CommandView {
    let channel = second_word(line);
    if channel.len() > 0 && channel[0] == '#' {
        CommandView::Join(channel)
    } else {
        CommandView::ChannelInvalid
    }
}

/// What a line of input asks for.
pub open spec fn command_of(line: Seq<char>) -> CommandView {
    if line.len() == 0 {
        CommandView::Nothing
    } else if line.len() == 1 && '0' <= line[0] && line[0] <= '9' {
        CommandView::SwitchTo((line[0] as int - '0' as int) as usize)
    } else if line == "/help"@ {
        CommandView::Help
    } else if starts_with(line, "/name "@) {
        rename_of(line.skip("/name "@.len() as int))
    } else if line == "/list"@ {
        CommandView::List
    } else if line == "/public"@ {
        CommandView::Public
    } else if line == "/reply"@ {
        CommandView::Reply
    } else if line == "/online"@ || line == "/w"@ {
        CommandView::Online
    } else if line == "/status"@ {
        CommandView::Status
    } else if line == "/exit"@ {
        CommandView::Exit
    } else if line == "/clear"@ {
        CommandView::Clear
    } else if starts_with(line, "/dm "@) {
        dm_of(line.skip("/dm "@.len() as int))
    } else if starts_with(line, "/j "@) || starts_with(line, "/join "@) {
        join_of(line)
    } else if line[0] == '/' {
        CommandView::Unknown(first_word(line))
    } else {
        CommandView::Say(line)
    }
}

fn read_rename(rest: &str) -> (c: Command)
    ensures
        c@ == rename_of(rest@),
{
    let name = trim_text(rest);
    if name.as_str().is_empty() {
        Command::NameMissing
    } else if name.as_str().as_bytes().len() > 20 {
        Command::NameTooLong
    } else {
        Command::Rename(name)
    }
}

fn read_dm(rest: &str) -> (c: Command)
    ensures
        c@ == dm_of(rest@),
{
    let (nickname, message) = split_once(rest, ' ');
    Command::Dm { nickname, message }
}

fn read_join(line: &str) -> (c: Command)
    ensures
        c@ == join_of(line@),
{
    let channel = take_second_word(line);
    if !channel.as_str().is_empty() && channel.as_str().get_char(0) == '#' {
        Command::Join(channel)
    } else {
        Command::ChannelInvalid
    }
}

/// Reads a line of input.
pub fn parse_command(line: &str) -> (c: Command)
    ensures
        c@ == command_of(line@),
{
    if line.is_empty() {
        return Command::Nothing;
    }
    let first: char = line.get_char(0);
    if line.unicode_len() == 1 && '0' <= first && first <= '9' {
        return Command::SwitchTo((first as u32 - '0' as u32) as usize);
    }
    if same_text(line, "/help") {
        return Command::Help;
    }
    if let Some(rest) = strip(line, "/name ") {
        return read_rename(rest.as_str());
    }
    if same_text(line, "/list") {
        return Command::List;
    }
    if same_text(line, "/public") {
        return Command::Public;
    }
    if same_text(line, "/reply") {
        return Command::Reply;
    }
    if same_text(line, "/online") || same_text(line, "/w") {
        return Command::Online;
    }
    if same_text(line, "/status") {
        return Command::Status;
    }
    if same_text(line, "/exit") {
        return Command::Exit;
    }
    if same_text(line, "/clear") {
        return Command::Clear;
    }
    if let Some(rest) = strip(line, "/dm ") {
        return read_dm(rest.as_str());
    }
    if has_prefix(line, "/j ") || has_prefix(line, "/join ") {
        return read_join(line);
    }
    if first == '/' {
        return Command::Unknown(take_word(line));
    }
    Command::Say(line.to_owned())
}

/// A line that does not start with a slash, and is not a single digit, is said as it is. A line
/// that starts with a slash is never said.
pub proof fn only_plain_lines_are_said(line: Seq<char>)
    requires
        line.len() > 0,
    ensures
        line[0] != '/' && !(line.len() == 1 && '0' <= line[0] && line[0] <= '9') ==> command_of(line)
            == CommandView::Say(line),
        line[0] == '/' ==> !(command_of(line) is Say),
{
    reveal_strlit("/help");
    reveal_strlit("/name ");
    reveal_strlit("/list");
    reveal_strlit("/public");
    reveal_strlit("/reply");
    reveal_strlit("/online");
    reveal_strlit("/w");
    reveal_strlit("/status");
    reveal_strlit("/exit");
    reveal_strlit("/clear");
    reveal_strlit("/dm ");
    reveal_strlit("/j ");
    reveal_strlit("/join ");
    if line[0] != '/' {
        assert(!starts_with(line, "/name "@)) by {
            if starts_with(line, "/name "@) {
                assert(line.take(6)[0] == '/');
            }
        }
        assert(!starts_with(line, "/dm "@)) by {
            if starts_with(line, "/dm "@) {
                assert(line.take(4)[0] == '/');
            }
        }
        assert(!starts_with(line, "/j "@)) by {
            if starts_with(line, "/j "@) {
                assert(line.take(3)[0] == '/');
            }
        }
        assert(!starts_with(line, "/join "@)) by {
            if starts_with(line, "/join "@) {
                assert(line.take(6)[0] == '/');
            }
        }
    }
}

} // verus!
