//! Messages from the page.
use crate::dav::{Cred, CredView};
use crate::json::{
    json_member, json_unsigned, member, member_string, member_string_or_empty, string_member,
    string_or_empty, unsigned,
};
use crate::text::{opt_view, same, trim, trimmed};
use vstd::prelude::*;

verus! {

/// An operation on the WebDAV server.
#[derive(Debug, PartialEq, Eq, Clone, Copy)]
pub enum DavCommand {
    Backup,
    List,
    Restore,
}

/// What the page asks for.
#[derive(Debug, PartialEq, Eq)]
pub enum Command {
    /// The page is loaded.
    Ready,
    Drag,
    Close,
    Run { idx: u64, input: String },
    Followup(String),
    /// Copy the response.
    Copy,
    /// Copy this text.
    CopyText(Option<String>),
    Open(String),
    /// Save the form with this JSON text.
    Save(String),
    Dav { op: DavCommand, cred: Cred, name: String },
    Ignore,
}

pub enum CommandView {
    Ready,
    Drag,
    Close,
    Run { idx: u64, input: Seq<char> },
    Followup(Seq<char>),
    Copy,
    CopyText(Option<Seq<char>>),
    Open(Seq<char>),
    Save(Seq<char>),
    Dav { op: DavCommand, cred: CredView, name: Seq<char> },
    Ignore,
}

impl View for Command {
    type V = CommandView;

    open spec fn view(&self) -> CommandView {
        match self {
            Command::Ready => CommandView::Ready,
            Command::Drag => CommandView::Drag,
            Command::Close => CommandView::Close,
            Command::Run { idx, input } => CommandView::Run { idx: *idx, input: input@ },
            Command::Followup(q) => CommandView::Followup(q@),
            Command::Copy => CommandView::Copy,
            Command::CopyText(o) => CommandView::CopyText(opt_view(*o)),
            Command::Open(u) => CommandView::Open(u@),
            Command::Save(f) => CommandView::Save(f@),
            Command::Dav { op, cred, name } => CommandView::Dav {
                op: *op,
                cred: cred@,
                name: name@,
            },
            Command::Ignore => CommandView::Ignore,
        }
    }
}

/// A text in the member `dav` of a message, or no text at all.
pub open spec fn dav_text(message: Seq<char>, key: Seq<char>) -> Seq<char> {
    match json_member(message, "dav"@) {
        Some(d) => string_or_empty(d, key),
        None => Seq::empty(),
    }
}

/// The connection that a message carries.
pub open spec fn cred_in(message: Seq<char>) -> CredView {
    CredView {
        url: trimmed(dav_text(message, "url"@)),
        user: trimmed(dav_text(message, "user"@)),
        pass: dav_text(message, "pass"@),
    }
}

pub open spec fn index_in(message: Seq<char>) -> u64 {
    match json_member(message, "idx"@) {
        Some(t) => match json_unsigned(t) {
            Some(n) => n,
            None => 0,
        },
        None => 0,
    }
}

pub open spec fn form_in(message: Seq<char>) -> Seq<char> {
    match json_member(message, "form"@) {
        Some(t) => t,
        None => "null"@,
    }
}

/// What a message with the command word `word` asks for.
pub open spec fn command_for(word: Seq<char>, message: Seq<char>) -> CommandView {
    if word == "ready"@ {
        CommandView::Ready
    } else if word == "drag"@ {
        CommandView::Drag
    } else if word == "close"@ {
        CommandView::Close
    } else if word == "run"@ {
        CommandView::Run { idx: index_in(message), input: string_or_empty(message, "input"@) }
    } else if word == "followup"@ {
        CommandView::Followup(trimmed(string_or_empty(message, "text"@)))
    } else if word == "copy"@ {
        CommandView::Copy
    } else if word == "copytext"@ {
        CommandView::CopyText(string_member(message, "text"@))
    } else if word == "open"@ {
        CommandView::Open(string_or_empty(message, "url"@))
    } else if word == "save"@ {
        CommandView::Save(form_in(message))
    } else if word == "backup"@ {
        CommandView::Dav {
            op: DavCommand::Backup,
            cred: cred_in(message),
            name: string_or_empty(message, "name"@),
        }
    } else if word == "davlist"@ {
        CommandView::Dav {
            op: DavCommand::List,
            cred: cred_in(message),
            name: string_or_empty(message, "name"@),
        }
    } else if word == "restore"@ {
        CommandView::Dav {
            op: DavCommand::Restore,
            cred: cred_in(message),
            name: string_or_empty(message, "name"@),
        }
    } else {
        CommandView::Ignore
    }
}

fn read_dav_text(message: &str, key: &str) -> (r: String)
    ensures
        r@ == dav_text(message@, key@),
{
    match member(message, "dav") {
        Some(d) => member_string_or_empty(d.as_str(), key),
        None => String::new(),
    }
}

fn read_dav(op: DavCommand, message: &str) -> (r: Command)
    ensures
        r@ == (CommandView::Dav {
            op,
            cred: cred_in(message@),
            name: string_or_empty(message@, "name"@),
        }),
{
    let cred = Cred {
        url: trim(read_dav_text(message, "url").as_str()),
        user: trim(read_dav_text(message, "user").as_str()),
        pass: read_dav_text(message, "pass"),
    };
    Command::Dav { op, cred, name: member_string_or_empty(message, "name") }
}

fn read_index(message: &str) -> (r: u64)
    ensures
        r == index_in(message@),
{
    match member(message, "idx") {
        Some(t) => match unsigned(t.as_str()) {
            Some(n) => n,
            None => 0,
        },
        None => 0,
    }
}

/// What a message with the command word `word` asks for. A message may leave out what its command
/// does not need; what is missing or of the wrong kind counts as empty.
pub fn read_command(word: &str, message: &str) -> (r: Command)
    ensures
        r@ == command_for(word@, message@),
{
    if same(word, "ready") {
        Command::Ready
    } else if same(word, "drag") {
        Command::Drag
    } else if same(word, "close") {
        Command::Close
    } else if same(word, "run") {
        Command::Run { idx: read_index(message), input: member_string_or_empty(message, "input") }
    } else if same(word, "followup") {
        Command::Followup(trim(member_string_or_empty(message, "text").as_str()))
    } else if same(word, "copy") {
        Command::Copy
    } else if same(word, "copytext") {
        Command::CopyText(member_string(message, "text"))
    } else if same(word, "open") {
        Command::Open(member_string_or_empty(message, "url"))
    } else if same(word, "save") {
        match member(message, "form") {
            Some(t) => Command::Save(t),
            None => Command::Save("null".to_owned()),
        }
    } else if same(word, "backup") {
        read_dav(DavCommand::Backup, message)
    } else if same(word, "davlist") {
        read_dav(DavCommand::List, message)
    } else if same(word, "restore") {
        read_dav(DavCommand::Restore, message)
    } else {
        Command::Ignore
    }
}

/// What a message from the page asks for.
pub fn parse_command(message: &str) -> (r: Command)
    ensures
        r@ == command_for(string_or_empty(message@, "cmd"@), message@),
{
    let word = member_string_or_empty(message, "cmd");
    read_command(word.as_str(), message)
}

} // verus!
