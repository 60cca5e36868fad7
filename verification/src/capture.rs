//! Capturing the selection of the focused application.
//!
//! The capture alternates between questions to the desktop and decisions. The decisions are the
//! step function [`grab_selection`]: it takes where the capture stands and the reply to the last
//! question, and gives where the capture stands next and the next question.
use crate::json::{boolean, json_boolean, json_member, member};
use crate::path::{file_stem, stem_of};
use crate::pickle::{chromium_custom_mime_value, mime_value};
use crate::text::{
    contains, contains_str, join, join_strings, law_a_trimmed_text_is_kept_whole,
    law_joined_parts_follow_one_another, law_only_white_space_is_trimmed_away,
    law_trimming_takes_off_the_ends, lower, lower_str, opt_view, opt_views, same, trim, trimmed,
    views, white,
};
use vstd::prelude::*;

verus! {

/// What UI Automation says of the selection.
#[derive(Debug, PartialEq, Eq)]
pub enum Sel<T> {
    Text(T),
    /// UI Automation exposes a text pattern and reports no selection - authoritative.
    Empty,
    /// The focused app exposes no text pattern; UI Automation can't tell.
    Unknown,
}

impl View for Sel<String> {
    type V = Sel<Seq<char>>;

    open spec fn view(&self) -> Sel<Seq<char>> {
        match self {
            Sel::Text(t) => Sel::Text(t@),
            Sel::Empty => Sel::Empty,
            Sel::Unknown => Sel::Unknown,
        }
    }
}

/// A question to the desktop, or the end of the capture.
#[derive(Debug, PartialEq, Eq)]
pub enum Ask<T> {
    /// What does UI Automation report as selected?
    Selection,
    /// Which file runs in the foreground?
    Foreground,
    /// Does the focus lie in an integrated terminal?
    Terminal,
    /// Open the clipboard.
    Open,
    /// Which text does the clipboard hold before the copy?
    Save,
    /// Empty the clipboard.
    Clear,
    /// Simulate Ctrl+C.
    Press,
    /// Which bytes does the clipboard hold in Chromium's custom MIME format?
    Format,
    /// Which text does the clipboard hold after the copy?
    Read,
    /// Put this text back on the clipboard.
    Restore(T),
    /// The capture is over, with this text.
    Finish(Option<T>),
}

impl View for Ask<String> {
    type V = Ask<Seq<char>>;

    open spec fn view(&self) -> Ask<Seq<char>> {
        match self {
            Ask::Selection => Ask::Selection,
            Ask::Foreground => Ask::Foreground,
            Ask::Terminal => Ask::Terminal,
            Ask::Open => Ask::Open,
            Ask::Save => Ask::Save,
            Ask::Clear => Ask::Clear,
            Ask::Press => Ask::Press,
            Ask::Format => Ask::Format,
            Ask::Read => Ask::Read,
            Ask::Restore(s) => Ask::Restore(s@),
            Ask::Finish(o) => Ask::Finish(opt_view(*o)),
        }
    }
}

/// The reply to a question.
#[derive(Debug, PartialEq, Eq)]
pub enum Reply<T, B> {
    Selection(Sel<T>),
    Foreground(Option<T>),
    Terminal(bool),
    Opened(bool),
    Text(Option<T>),
    Pressed(bool),
    Format(Option<B>),
    Done,
}

impl View for Reply<String, Vec<u8>> {
    type V = Reply<Seq<char>, Seq<u8>>;

    open spec fn view(&self) -> Reply<Seq<char>, Seq<u8>> {
        match self {
            Reply::Selection(s) => Reply::Selection(s@),
            Reply::Foreground(o) => Reply::Foreground(opt_view(*o)),
            Reply::Terminal(b) => Reply::Terminal(*b),
            Reply::Opened(b) => Reply::Opened(*b),
            Reply::Text(o) => Reply::Text(opt_view(*o)),
            Reply::Pressed(b) => Reply::Pressed(*b),
            Reply::Format(o) => Reply::Format(
                match o {
                    Some(v) => Some(v@),
                    None => None,
                },
            ),
            Reply::Done => Reply::Done,
        }
    }
}

/// Where a capture stands: which reply it waits for, and what it has learned.
#[derive(Debug, PartialEq, Eq)]
pub enum Grab<T> {
    Selecting,
    Locating(Sel<T>),
    Focusing,
    Opening { vscode: bool },
    Saving { vscode: bool },
    Clearing { vscode: bool, text: T },
    Pressing { vscode: bool, saved: Option<T> },
    Formatting { saved: Option<T> },
    Reading { saved: Option<T>, from_empty: Option<bool> },
    Restoring { out: Option<T> },
    Finished,
}

impl View for Grab<String> {
    type V = Grab<Seq<char>>;

    open spec fn view(&self) -> Grab<Seq<char>> {
        match self {
            Grab::Selecting => Grab::Selecting,
            Grab::Locating(s) => Grab::Locating(s@),
            Grab::Focusing => Grab::Focusing,
            Grab::Opening { vscode } => Grab::Opening { vscode: *vscode },
            Grab::Saving { vscode } => Grab::Saving { vscode: *vscode },
            Grab::Clearing { vscode, text } => Grab::Clearing { vscode: *vscode, text: text@ },
            Grab::Pressing { vscode, saved } => Grab::Pressing {
                vscode: *vscode,
                saved: opt_view(*saved),
            },
            Grab::Formatting { saved } => Grab::Formatting { saved: opt_view(*saved) },
            Grab::Reading { saved, from_empty } => Grab::Reading {
                saved: opt_view(*saved),
                from_empty: *from_empty,
            },
            Grab::Restoring { out } => Grab::Restoring { out: opt_view(*out) },
            Grab::Finished => Grab::Finished,
        }
    }
}

/// The ranges of a selection make up its text; white space around it does not count.
pub open spec fn selection_of(ranges: Option<Seq<Seq<char>>>) -> Sel<Seq<char>> {
    match ranges {
        None => Sel::Unknown,
        Some(v) => {
            let t = trimmed(join(v, Seq::empty()));
            if t.len() == 0 {
                Sel::Empty
            } else {
                Sel::Text(t)
            }
        },
    }
}

/// The path is that of Visual Studio Code, stable or Insiders.
pub open spec fn is_vscode(path: Option<Seq<char>>) -> bool {
    match path {
        Some(p) => match stem_of(p) {
            Some(s) => lower(s) == "code"@ || lower(s) == "code - insiders"@,
            None => false,
        },
        None => false,
    }
}

/// The flag `isFromEmptySelection` that VS Code puts on the clipboard with its copy.
#[verifier::opaque]
pub open spec fn from_empty_flag(format: Option<Seq<u8>>) -> Option<bool> {
    match format {
        None => None,
        Some(b) => match mime_value(b, "vscode-editor-data"@) {
            None => None,
            Some(data) => match json_member(data, "isFromEmptySelection"@) {
                None => None,
                Some(flag) => json_boolean(flag),
            },
        },
    }
}

/// A text counts only where it holds more than white space.
pub open spec fn not_blank(t: Option<Seq<char>>) -> Option<Seq<char>> {
    match t {
        Some(s) => if trimmed(s).len() == 0 {
            None
        } else {
            Some(s)
        },
        None => None,
    }
}

pub open spec fn finish(out: Option<Seq<char>>) -> (Grab<Seq<char>>, Ask<Seq<char>>) {
    (Grab::Finished, Ask::Finish(out))
}

/// Where the capture goes from `g` on the reply `r`, and what it asks then. A reply that does not
/// answer the question ends the capture with nothing.
pub open spec fn next(g: Grab<Seq<char>>, r: Reply<Seq<char>, Seq<u8>>) -> (
    Grab<Seq<char>>,
    Ask<Seq<char>>,
) {
    match (g, r) {
        (Grab::Selecting, Reply::Selection(s)) => (Grab::Locating(s), Ask::Foreground),
        (Grab::Locating(s), Reply::Foreground(path)) => match s {
            Sel::Text(t) => finish(Some(t)),
            Sel::Empty => if is_vscode(path) {
                (Grab::Focusing, Ask::Terminal)
            } else {
                finish(None)
            },
            Sel::Unknown => if is_vscode(path) {
                (Grab::Focusing, Ask::Terminal)
            } else {
                (Grab::Opening { vscode: false }, Ask::Open)
            },
        },
        (Grab::Focusing, Reply::Terminal(b)) => if b {
            finish(None)
        } else {
            (Grab::Opening { vscode: true }, Ask::Open)
        },
        (Grab::Opening { vscode }, Reply::Opened(ok)) => if ok {
            (Grab::Saving { vscode }, Ask::Save)
        } else {
            finish(None)
        },
        (Grab::Saving { vscode }, Reply::Text(saved)) => match saved {
            Some(s) => (Grab::Clearing { vscode, text: s }, Ask::Clear),
            None => (Grab::Pressing { vscode, saved: None }, Ask::Press),
        },
        (Grab::Clearing { vscode, text }, Reply::Done) => (
            Grab::Pressing { vscode, saved: Some(text) },
            Ask::Press,
        ),
        (Grab::Pressing { vscode, saved }, Reply::Pressed(ok)) => if !ok {
            match saved {
                Some(s) => (Grab::Restoring { out: None }, Ask::Restore(s)),
                None => finish(None),
            }
        } else if vscode {
            (Grab::Formatting { saved }, Ask::Format)
        } else {
            (Grab::Reading { saved, from_empty: None }, Ask::Read)
        },
        (Grab::Formatting { saved }, Reply::Format(f)) => (
            Grab::Reading { saved, from_empty: from_empty_flag(f) },
            Ask::Read,
        ),
        (Grab::Reading { saved, from_empty }, Reply::Text(t)) => {
            let out = if from_empty == Some(true) {
                None
            } else {
                not_blank(t)
            };
            match saved {
                Some(s) => (Grab::Restoring { out }, Ask::Restore(s)),
                None => finish(out),
            }
        },
        (Grab::Restoring { out }, Reply::Done) => finish(out),
        _ => finish(None),
    }
}

/// The selection from the texts of its ranges, or from none where UI Automation can't answer.
pub fn uia_selection(ranges: Option<Vec<String>>) -> (r: Sel<String>)
    ensures
        r@ == selection_of(opt_views(ranges)),
        r is Unknown <==> ranges is None,
        r matches Sel::Text(t) ==> {
            &&& t@.len() > 0 && !white(t@[0]) && !white(t@.last())
            &&& exists|a: Seq<char>, b: Seq<char>|
                views(ranges->0@).flatten() == #[trigger] (a + t@ + b) && (forall|k: int|
                    0 <= k < a.len() ==> white(#[trigger] a[k])) && (forall|k: int|
                    0 <= k < b.len() ==> white(#[trigger] b[k]))
        },
        r is Empty ==> forall|k: int|
            0 <= k < views(ranges->0@).flatten().len() ==> white(
                #[trigger] views(ranges->0@).flatten()[k],
            ),
{
    proof {
        if ranges is Some {
            law_the_whole_selection_is_taken(views(ranges->0@));
        }
    }
    match ranges {
        None => Sel::Unknown,
        Some(v) => {
            proof {
                reveal_strlit("");
                assert(""@ =~= Seq::<char>::empty());
            }
            let all = join_strings(&v, "");
            let t = trim(all.as_str());
            if t.as_str().is_empty() {
                Sel::Empty
            } else {
                Sel::Text(t)
            }
        },
    }
}

/// What to do after looking at one node on the way up from the focus.
#[derive(Debug, PartialEq, Eq)]
pub enum TerminalStep {
    Found,
    Parent,
    GiveUp,
}

/// How many nodes are looked at for a terminal.
pub const TERMINAL_DEPTH: usize = 10;

/// The name is that of a terminal.
pub open spec fn names_terminal(name: Option<Seq<char>>) -> bool {
    match name {
        Some(n) => contains(lower(n), "terminal"@),
        None => false,
    }
}

/// What to do after looking at the node `depth` steps above the focus.
pub open spec fn terminal_step(depth: nat, name: Option<Seq<char>>) -> TerminalStep {
    if names_terminal(name) {
        TerminalStep::Found
    } else if depth + 1 < TERMINAL_DEPTH {
        TerminalStep::Parent
    } else {
        TerminalStep::GiveUp
    }
}

/// The walk up from the node `depth` steps above the focus finds a terminal, where `names` are the
/// names of the focus and of the nodes above it.
pub open spec fn walk_finds(names: Seq<Option<Seq<char>>>, depth: nat) -> bool
    decreases names.len() - depth,
{
    if depth >= names.len() {
        false
    } else {
        match terminal_step(depth, names[depth as int]) {
            TerminalStep::Found => true,
            TerminalStep::GiveUp => false,
            TerminalStep::Parent => walk_finds(names, depth + 1),
        }
    }
}

/// Looks at one node, `depth` steps above the focus: its name may be a terminal's, else its
/// parent is next, up to a limit. Workbench labels are "Terminal 1", "powershell, Terminal", etc.
pub fn focus_looks_like_vscode_terminal(depth: usize, name: Option<String>) -> (r: TerminalStep)
    ensures
        r == terminal_step(depth as nat, opt_view(name)),
{
    if let Some(n) = name {
        proof {
            reveal_strlit("terminal");
        }
        let l = lower_str(n.as_str());
        if contains_str(l.as_str(), "terminal") {
            return TerminalStep::Found;
        }
    }
    if depth < TERMINAL_DEPTH - 1 {
        TerminalStep::Parent
    } else {
        TerminalStep::GiveUp
    }
}

/// The program in the foreground, given by its path, is VS Code. Cursor, VSCodium and others stay
/// on the normal path.
pub fn is_vscode_foreground(path: &Option<String>) -> (r: bool)
    ensures
        r == is_vscode(opt_view(*path)),
{
    match path {
        Some(p) => match file_stem(p.as_str()) {
            Some(s) => {
                let l = lower_str(s.as_str());
                same(l.as_str(), "code") || same(l.as_str(), "code - insiders")
            },
            None => false,
        },
        None => false,
    }
}

/// Reads VS Code's `isFromEmptySelection` flag from the copy payload: Electron puts Monaco's
/// `vscode-editor-data` JSON inside Chromium's custom MIME pickle.
pub fn clipboard_vscode_from_empty_selection(format: &Option<Vec<u8>>) -> (r: Option<bool>)
    ensures
        r == from_empty_flag(
            match *format {
                Some(v) => Some(v@),
                None => None,
            },
        ),
{
    reveal(from_empty_flag);
    let bytes = match format {
        Some(b) => b,
        None => return None,
    };
    let data = match chromium_custom_mime_value(bytes.as_slice(), "vscode-editor-data") {
        Some(d) => d,
        None => return None,
    };
    let flag = match member(data.as_str(), "isFromEmptySelection") {
        Some(f) => f,
        None => return None,
    };
    boolean(flag.as_str())
}

fn keep_not_blank(t: Option<String>) -> (r: Option<String>)
    ensures
        opt_view(r) == not_blank(opt_view(t)),
{
    match t {
        Some(s) => if trim(s.as_str()).as_str().is_empty() {
            None
        } else {
            Some(s)
        },
        None => None,
    }
}

/// The start of a capture and its first question.
pub fn begin_grab() -> (r: (Grab<String>, Ask<String>))
    ensures
        r.0@ == Grab::<Seq<char>>::Selecting,
        r.1@ == Ask::<Seq<char>>::Selection,
{
    (Grab::Selecting, Ask::Selection)
}

/// One step of a capture.
///
/// UI Automation is asked first, and a simulated Ctrl+C is the fallback only when it can't answer.
/// An empty selection is trusted, so terminals aren't interrupted and editors don't copy the
/// caret's line. VS Code is special-cased: with editor accessibility off it always reports empty,
/// so there Ctrl+C is used, and the clipboard metadata tell a real selection from a caret-only
/// line copy. The clipboard text is put back after the copy, also where the keystroke failed; other
/// clipboard content is left alone, since it can't be cleared and restored.
pub fn grab_selection(state: Grab<String>, reply: Reply<String, Vec<u8>>) -> (r: (
    Grab<String>,
    Ask<String>,
))
    ensures
        (r.0@, r.1@) == next(state@, reply@),
{
    match (state, reply) {
        (Grab::Selecting, Reply::Selection(s)) => (Grab::Locating(s), Ask::Foreground),
        (Grab::Locating(s), Reply::Foreground(path)) => if is_vscode_foreground(&path) {
            grab_vscode(s)
        } else {
            match s {
                Sel::Text(t) => (Grab::Finished, Ask::Finish(Some(t))),
                Sel::Empty => (Grab::Finished, Ask::Finish(None)),
                Sel::Unknown => (Grab::Opening { vscode: false }, Ask::Open),
            }
        },
        (Grab::Focusing, Reply::Terminal(b)) => if b {
            (Grab::Finished, Ask::Finish(None))
        } else {
            (Grab::Opening { vscode: true }, Ask::Open)
        },
        (Grab::Opening { vscode }, Reply::Opened(ok)) => if ok {
            (Grab::Saving { vscode }, Ask::Save)
        } else {
            (Grab::Finished, Ask::Finish(None))
        },
        (Grab::Saving { vscode }, Reply::Text(saved)) => match saved {
            Some(s) => (Grab::Clearing { vscode, text: s }, Ask::Clear),
            None => (Grab::Pressing { vscode, saved: None }, Ask::Press),
        },
        (Grab::Clearing { vscode, text }, Reply::Done) => (
            Grab::Pressing { vscode, saved: Some(text) },
            Ask::Press,
        ),
        (Grab::Pressing { vscode, saved }, Reply::Pressed(ok)) => if !ok {
            match saved {
                Some(s) => (Grab::Restoring { out: None }, Ask::Restore(s)),
                None => (Grab::Finished, Ask::Finish(None)),
            }
        } else if vscode {
            (Grab::Formatting { saved }, Ask::Format)
        } else {
            (Grab::Reading { saved, from_empty: None }, Ask::Read)
        },
        (Grab::Formatting { saved }, Reply::Format(f)) => {
            let from_empty = clipboard_vscode_from_empty_selection(&f);
            (Grab::Reading { saved, from_empty }, Ask::Read)
        },
        (Grab::Reading { saved, from_empty }, Reply::Text(t)) => {
            let out = match from_empty {
                Some(true) => None,
                _ => keep_not_blank(t),
            };
            match saved {
                Some(s) => (Grab::Restoring { out }, Ask::Restore(s)),
                None => (Grab::Finished, Ask::Finish(out)),
            }
        },
        (Grab::Restoring { out }, Reply::Done) => (Grab::Finished, Ask::Finish(out)),
        _ => (Grab::Finished, Ask::Finish(None)),
    }
}

/// In VS Code a reported selection is taken as it is; else the focus decides, since in the
/// integrated terminal Ctrl+C is an interrupt when nothing is selected.
pub fn grab_vscode(uia: Sel<String>) -> (r: (Grab<String>, Ask<String>))
    ensures
        (r.0@, r.1@) == match uia@ {
            Sel::Text(t) => finish(Some(t)),
            _ => (Grab::Focusing, Ask::Terminal),
        },
{
    match uia {
        Sel::Text(t) => (Grab::Finished, Ask::Finish(Some(t))),
        _ => (Grab::Focusing, Ask::Terminal),
    }
}

/// A key of the simulated copy.
#[derive(Debug, PartialEq, Eq)]
pub enum KeyName {
    Alt,
    Shift,
    Meta,
    Control,
    C,
}

/// A step of the simulated copy.
#[derive(Debug, PartialEq, Eq)]
pub enum KeyStep {
    Release(KeyName),
    Press(KeyName),
    Click(KeyName),
    /// Wait this many milliseconds.
    Wait(u64),
}

/// The keystrokes of a simulated Ctrl+C. The user may still hold the hotkey's modifiers, so they
/// are released first, lest the copy be read as Ctrl+Alt+C.
pub fn synth_ctrl_c() -> (r: Vec<KeyStep>)
    ensures
        r@ == seq![
            KeyStep::Release(KeyName::Alt),
            KeyStep::Release(KeyName::Shift),
            KeyStep::Release(KeyName::Meta),
            KeyStep::Release(KeyName::Control),
            KeyStep::Wait(50),
            KeyStep::Press(KeyName::Control),
            KeyStep::Click(KeyName::C),
            KeyStep::Release(KeyName::Control),
            KeyStep::Wait(150),
        ],
{
    vec![
        KeyStep::Release(KeyName::Alt),
        KeyStep::Release(KeyName::Shift),
        KeyStep::Release(KeyName::Meta),
        KeyStep::Release(KeyName::Control),
        KeyStep::Wait(50),
        KeyStep::Press(KeyName::Control),
        KeyStep::Click(KeyName::C),
        KeyStep::Release(KeyName::Control),
        KeyStep::Wait(150),
    ]
}

/// What the desktop would reply to each question of one capture.
pub struct Desktop {
    pub selection: Sel<Seq<char>>,
    pub path: Option<Seq<char>>,
    pub terminal: bool,
    pub opens: bool,
    pub clipboard: Option<Seq<char>>,
    pub presses: bool,
    pub format: Option<Seq<u8>>,
    pub copied: Option<Seq<char>>,
}

pub open spec fn reply_of(d: Desktop, a: Ask<Seq<char>>) -> Reply<Seq<char>, Seq<u8>> {
    match a {
        Ask::Selection => Reply::Selection(d.selection),
        Ask::Foreground => Reply::Foreground(d.path),
        Ask::Terminal => Reply::Terminal(d.terminal),
        Ask::Open => Reply::Opened(d.opens),
        Ask::Save => Reply::Text(d.clipboard),
        Ask::Press => Reply::Pressed(d.presses),
        Ask::Format => Reply::Format(d.format),
        Ask::Read => Reply::Text(d.copied),
        _ => Reply::Done,
    }
}

/// How many questions a capture has left at most.
pub open spec fn steps_left(g: Grab<Seq<char>>) -> nat {
    match g {
        Grab::Selecting => 10,
        Grab::Locating(_) => 9,
        Grab::Focusing => 8,
        Grab::Opening { .. } => 7,
        Grab::Saving { .. } => 6,
        Grab::Clearing { .. } => 5,
        Grab::Pressing { .. } => 4,
        Grab::Formatting { .. } => 3,
        Grab::Reading { .. } => 2,
        Grab::Restoring { .. } => 1,
        Grab::Finished => 0,
    }
}

/// All questions of a capture from `g` on, of which `a` is the first.
pub open spec fn questions(d: Desktop, g: Grab<Seq<char>>, a: Ask<Seq<char>>) -> Seq<Ask<Seq<char>>>
    decreases steps_left(g),
{
    let (g2, a2) = next(g, reply_of(d, a));
    if g is Finished || steps_left(g2) >= steps_left(g) {
        seq![a]
    } else {
        seq![a] + questions(d, g2, a2)
    }
}

/// All questions of a whole capture.
pub open spec fn whole_capture(d: Desktop) -> Seq<Ask<Seq<char>>> {
    questions(d, Grab::Selecting, Ask::Selection)
}

/// A simulated copy is called for: nothing is reported as selected, and either the program can't
/// tell, or it is VS Code with the focus outside its terminal.
pub open spec fn copy_called_for(d: Desktop) -> bool {
    &&& !(d.selection is Text)
    &&& if is_vscode(d.path) {
        !d.terminal
    } else {
        d.selection is Unknown
    }
}

/// What a capture comes to.
pub open spec fn captured(d: Desktop) -> Option<Seq<char>> {
    match d.selection {
        Sel::Text(t) => Some(t),
        _ => if !copy_called_for(d) || !d.opens || !d.presses {
            None
        } else if is_vscode(d.path) && from_empty_flag(d.format) == Some(true) {
            None
        } else {
            not_blank(d.copied)
        },
    }
}

/// The questions from the reading of the copied text on.
spec fn reading_part(saved: Option<Seq<char>>, out: Option<Seq<char>>) -> Seq<Ask<Seq<char>>> {
    match saved {
        Some(s) => seq![Ask::Read, Ask::Restore(s), Ask::Finish(out)],
        None => seq![Ask::Read, Ask::Finish(out)],
    }
}

/// The questions from the keystroke on.
spec fn pressing_part(d: Desktop, vscode: bool) -> Seq<Ask<Seq<char>>> {
    if !d.presses {
        match d.clipboard {
            Some(s) => seq![Ask::Press, Ask::Restore(s), Ask::Finish(None)],
            None => seq![Ask::Press, Ask::Finish(None)],
        }
    } else if vscode {
        seq![Ask::Press, Ask::Format] + reading_part(
            d.clipboard,
            if from_empty_flag(d.format) == Some(true) {
                None
            } else {
                not_blank(d.copied)
            },
        )
    } else {
        seq![Ask::Press] + reading_part(d.clipboard, not_blank(d.copied))
    }
}

/// The questions from the opening of the clipboard on.
spec fn opening_part(d: Desktop, vscode: bool) -> Seq<Ask<Seq<char>>> {
    if !d.opens {
        seq![Ask::Open, Ask::Finish(None)]
    } else if d.clipboard is Some {
        seq![Ask::Open, Ask::Save, Ask::Clear] + pressing_part(d, vscode)
    } else {
        seq![Ask::Open, Ask::Save] + pressing_part(d, vscode)
    }
}

spec fn all_parts(d: Desktop) -> Seq<Ask<Seq<char>>> {
    if copy_called_for(d) {
        if is_vscode(d.path) {
            seq![Ask::Selection, Ask::Foreground, Ask::Terminal] + opening_part(d, true)
        } else {
            seq![Ask::Selection, Ask::Foreground] + opening_part(d, false)
        }
    } else if is_vscode(d.path) && !(d.selection is Text) {
        seq![Ask::Selection, Ask::Foreground, Ask::Terminal, Ask::Finish(None)]
    } else {
        seq![Ask::Selection, Ask::Foreground, Ask::Finish(captured(d))]
    }
}

proof fn lemma_step(d: Desktop, g: Grab<Seq<char>>, a: Ask<Seq<char>>)
    ensures
        ({
            let (g2, a2) = next(g, reply_of(d, a));
            !(g is Finished) && steps_left(g2) < steps_left(g) ==> questions(d, g, a) == seq![a]
                + questions(d, g2, a2)
        }),
        g is Finished ==> questions(d, g, a) == seq![a],
{
}

proof fn lemma_reading(d: Desktop, saved: Option<Seq<char>>, from_empty: Option<bool>)
    ensures
        questions(d, Grab::Reading { saved, from_empty }, Ask::Read) == reading_part(
            saved,
            if from_empty == Some(true) {
                None
            } else {
                not_blank(d.copied)
            },
        ),
{
    let out = if from_empty == Some(true) {
        None
    } else {
        not_blank(d.copied)
    };
    lemma_step(d, Grab::Reading { saved, from_empty }, Ask::Read);
    lemma_step(d, Grab::Finished, Ask::Finish(out));
    if let Some(s) = saved {
        lemma_step(d, Grab::Restoring { out }, Ask::Restore(s));
    }
}

proof fn lemma_pressing(d: Desktop, vscode: bool)
    ensures
        questions(d, Grab::Pressing { vscode, saved: d.clipboard }, Ask::Press) == pressing_part(
            d,
            vscode,
        ),
{
    let saved = d.clipboard;
    lemma_step(d, Grab::Pressing { vscode, saved }, Ask::Press);
    if !d.presses {
        lemma_step(d, Grab::Finished, Ask::Finish(None));
        if let Some(s) = saved {
            lemma_step(d, Grab::Restoring { out: None }, Ask::Restore(s));
        }
    } else if vscode {
        let flag = from_empty_flag(d.format);
        let rest = questions(d, Grab::Reading { saved, from_empty: flag }, Ask::Read);
        lemma_step(d, Grab::Formatting { saved }, Ask::Format);
        lemma_reading(d, saved, flag);
        assert(seq![Ask::Press] + (seq![Ask::Format] + rest) == seq![Ask::Press, Ask::Format]
            + rest);
    } else {
        lemma_reading(d, saved, None);
    }
}

proof fn lemma_opening(d: Desktop, vscode: bool)
    ensures
        questions(d, Grab::Opening { vscode }, Ask::Open) == opening_part(d, vscode),
{
    lemma_step(d, Grab::Opening { vscode }, Ask::Open);
    if !d.opens {
        lemma_step(d, Grab::Finished, Ask::Finish(None));
    } else {
        let rest = pressing_part(d, vscode);
        lemma_step(d, Grab::Saving { vscode }, Ask::Save);
        lemma_pressing(d, vscode);
        if let Some(text) = d.clipboard {
            lemma_step(d, Grab::Clearing { vscode, text }, Ask::Clear);
            assert(seq![Ask::Open] + (seq![Ask::Save] + (seq![Ask::Clear] + rest)) == seq![
                Ask::Open,
                Ask::Save,
                Ask::Clear,
            ] + rest);
        } else {
            assert(seq![Ask::Open] + (seq![Ask::Save] + rest) == seq![Ask::Open, Ask::Save] + rest);
        }
    }
}

proof fn lemma_whole_capture(d: Desktop)
    ensures
        whole_capture(d) == all_parts(d),
{
    lemma_step(d, Grab::Selecting, Ask::Selection);
    lemma_step(d, Grab::Locating(d.selection), Ask::Foreground);
    lemma_step(d, Grab::Focusing, Ask::Terminal);
    lemma_step(d, Grab::Finished, Ask::Finish(None));
    lemma_step(d, Grab::Finished, Ask::Finish(captured(d)));
    lemma_opening(d, true);
    lemma_opening(d, false);
}

/// Each capture comes to an end, with the reported selection where there is one, else with the
/// copied text where a copy is called for and works, else with nothing.
pub proof fn law_capture_outcome(d: Desktop)
    ensures
        whole_capture(d).last() == Ask::<Seq<char>>::Finish(captured(d)),
{
    lemma_whole_capture(d);
}

/// A keystroke is sent exactly where a copy is called for and the clipboard opens: never where
/// UI Automation reports a selection or, outside VS Code, reports that nothing is selected, and
/// never into a terminal of VS Code.
pub proof fn law_keystroke_only_when_called_for(d: Desktop)
    ensures
        whole_capture(d).contains(Ask::Press) <==> copy_called_for(d) && d.opens,
{
    lemma_whole_capture(d);
    let q = whole_capture(d);
    if copy_called_for(d) && d.opens {
        let first: int = if is_vscode(d.path) {
            5
        } else {
            4
        };
        let at: int = if d.clipboard is Some {
            first + 1
        } else {
            first
        };
        assert(q[at] == Ask::<Seq<char>>::Press);
    }
}

/// The questions `q` put back the text of the clipboard where they empty it, and no other text.
spec fn puts_back(q: Seq<Ask<Seq<char>>>, clipboard: Option<Seq<char>>) -> bool {
    &&& q.contains(Ask::Clear) ==> clipboard is Some && q.len() >= 2 && q[q.len() - 2]
        == Ask::Restore(clipboard->0)
    &&& forall|t: Seq<char>| q.contains(Ask::Restore(t)) ==> clipboard == Some(t)
}

proof fn lemma_puts_back(
    first: Seq<Ask<Seq<char>>>,
    q: Seq<Ask<Seq<char>>>,
    clipboard: Option<Seq<char>>,
)
    requires
        puts_back(q, clipboard),
        forall|i: int|
            0 <= i < first.len() ==> !(#[trigger] first[i] is Clear) && !(first[i] is Restore),
    ensures
        puts_back(first + q, clipboard),
{
    let all = first + q;
    assert forall|a: Ask<Seq<char>>| #[trigger]
        all.contains(a) && (a is Clear || a is Restore) implies q.contains(a) by {
        let i = choose|i: int| 0 <= i < all.len() && all[i] == a;
        if i < first.len() {
            assert(first[i] == a);
        } else {
            assert(q[i - first.len()] == a);
        }
    }
}

/// The clipboard is emptied only where it held text, and that text is then put back, as the last
/// thing before the end, whatever came of the keystroke; no other text ever is.
pub proof fn law_clipboard_text_put_back(d: Desktop)
    ensures
        whole_capture(d).contains(Ask::Clear) ==> d.clipboard is Some,
        whole_capture(d).contains(Ask::Clear) ==> {
            let q = whole_capture(d);
            q.len() >= 2 && q[q.len() - 2] == Ask::Restore(d.clipboard->0)
        },
        forall|t: Seq<char>|
            whole_capture(d).contains(Ask::Restore(t)) ==> d.clipboard == Some(t),
{
    lemma_whole_capture(d);
    let vscode = is_vscode(d.path);
    if copy_called_for(d) {
        assert(puts_back(opening_part(d, vscode), d.clipboard));
        if vscode {
            lemma_puts_back(
                seq![Ask::Selection, Ask::Foreground, Ask::Terminal],
                opening_part(d, vscode),
                d.clipboard,
            );
        } else {
            lemma_puts_back(
                seq![Ask::Selection, Ask::Foreground],
                opening_part(d, vscode),
                d.clipboard,
            );
        }
    }
}

proof fn lemma_walk(names: Seq<Option<Seq<char>>>, depth: nat)
    requires
        depth < TERMINAL_DEPTH,
    ensures
        walk_finds(names, depth) <==> exists|i: int|
            depth <= i < names.len() && i < TERMINAL_DEPTH && names_terminal(#[trigger] names[i]),
    decreases names.len() - depth,
{
    if depth < names.len() && !names_terminal(names[depth as int]) && depth + 1 < TERMINAL_DEPTH {
        lemma_walk(names, depth + 1);
    }
}

/// The walk up from the focus finds a terminal exactly where one of the first ten nodes has a name
/// with the word "terminal" in it, in whatever case.
pub proof fn law_a_near_terminal_is_found(names: Seq<Option<Seq<char>>>)
    ensures
        walk_finds(names, 0) <==> exists|i: int|
            0 <= i < names.len() && i < 10 && (#[trigger] names[i] matches Some(n) && contains(
                lower(n),
                "terminal"@,
            )),
{
    lemma_walk(names, 0);
    if walk_finds(names, 0) {
        let i = choose|i: int|
            0 <= i < names.len() && i < TERMINAL_DEPTH && names_terminal(#[trigger] names[i]);
        assert(names[i] is Some);
    }
}

/// A reported selection is the whole of its ranges, one after another, less the white space before
/// and behind them; it is empty exactly where there is nothing else, and unknown exactly where
/// nothing is reported.
pub proof fn law_the_whole_selection_is_taken(ranges: Seq<Seq<char>>)
    ensures
        match selection_of(Some(ranges)) {
            Sel::Text(t) => {
                &&& t.len() > 0 && !white(t[0]) && !white(t.last())
                &&& exists|a: Seq<char>, b: Seq<char>|
                    ranges.flatten() == #[trigger] (a + t + b) && (forall|k: int|
                        0 <= k < a.len() ==> white(#[trigger] a[k])) && (forall|k: int|
                        0 <= k < b.len() ==> white(#[trigger] b[k]))
            },
            Sel::Empty => forall|k: int|
                0 <= k < ranges.flatten().len() ==> white(#[trigger] ranges.flatten()[k]),
            Sel::Unknown => false,
        },
        selection_of(None) is Unknown,
{
    let all = ranges.flatten();
    law_joined_parts_follow_one_another(ranges);
    law_trimming_takes_off_the_ends(all);
    law_only_white_space_is_trimmed_away(all);
    let t = trimmed(all);
    let (i, j) = choose|i: int, j: int|
        0 <= i <= j <= all.len() && trimmed(all) == #[trigger] all.subrange(i, j) && (forall|
            k: int,
        |
            0 <= k < i ==> white(#[trigger] all[k])) && (forall|k: int|
            j <= k < all.len() ==> white(#[trigger] all[k]));
    let a = all.take(i);
    let b = all.skip(j);
    assert(all =~= a + t + b);
}

/// Any text between white space is a selection as it stands, however many lines it has and however
/// it is cut into ranges.
pub proof fn law_any_selected_text_is_taken_as_it_stands(
    ranges: Seq<Seq<char>>,
    a: Seq<char>,
    t: Seq<char>,
    b: Seq<char>,
)
    requires
        ranges.flatten() == a + t + b,
        forall|k: int| 0 <= k < a.len() ==> white(#[trigger] a[k]),
        forall|k: int| 0 <= k < b.len() ==> white(#[trigger] b[k]),
        t.len() > 0,
        !white(t[0]),
        !white(t.last()),
    ensures
        selection_of(Some(ranges)) == Sel::Text(t),
{
    law_joined_parts_follow_one_another(ranges);
    law_a_trimmed_text_is_kept_whole(a, t, b);
}

/// What a capture comes to, whatever the desktop: the reported selection as it is; else, where UI
/// Automation can't tell or VS Code has the focus outside a terminal, the copied text as it is,
/// unless it is blank or VS Code says that nothing was selected; else nothing.
pub proof fn law_what_is_captured(d: Desktop)
    ensures
        ({
            let vscode = d.path matches Some(p) && (stem_of(p) matches Some(n) && (lower(n)
                == "code"@ || lower(n) == "code - insiders"@));
            let copies = if vscode {
                !d.terminal
            } else {
                d.selection is Unknown
            };
            let end = whole_capture(d).last();
            &&& end is Finish
            &&& d.selection matches Sel::Text(t) ==> end == Ask::Finish(Some(t))
            &&& !(d.selection is Text) && !(copies && d.opens && d.presses) ==> end
                == Ask::<Seq<char>>::Finish(None)
            &&& !(d.selection is Text) && copies && d.opens && d.presses ==> (match d.copied {
                None => end == Ask::<Seq<char>>::Finish(None),
                Some(s) => if (vscode && from_empty_flag(d.format) == Some(true)) || (forall|
                    k: int,
                |
                    0 <= k < s.len() ==> white(#[trigger] s[k])) {
                    end == Ask::<Seq<char>>::Finish(None)
                } else {
                    end == Ask::Finish(Some(s))
                },
            })
        }),
{
    law_capture_outcome(d);
    if let Some(s) = d.copied {
        law_only_white_space_is_trimmed_away(s);
    }
}

/// The flag of a copy is the one that the clipboard holds under VS Code's own type; without such
/// an entry there is no flag.
pub proof fn law_the_flag_is_the_one_on_the_clipboard(b: Seq<u8>, data: Seq<char>)
    ensures
        from_empty_flag(None) is None,
        mime_value(b, "vscode-editor-data"@) is None ==> from_empty_flag(Some(b)) is None,
        mime_value(b, "vscode-editor-data"@) == Some(data) ==> (match json_member(
            data,
            "isFromEmptySelection"@,
        ) {
            Some(flag) => from_empty_flag(Some(b)) == json_boolean(flag),
            None => from_empty_flag(Some(b)) is None,
        }),
{
    reveal(from_empty_flag);
}

} // verus!
