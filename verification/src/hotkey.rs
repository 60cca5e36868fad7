//! The global hotkey and the tray icon.
use crate::config::{result_view, DEFAULT_HEIGHT, DEFAULT_WIDTH};
use crate::text::{join, join_strings, opt_view, opt_views, same, views};
use global_hotkey::hotkey::HotKey;
use vstd::prelude::*;
use vstd::string::StringExecFns;

verus! {

/// What the window is told when it is shown.
#[derive(Debug, PartialEq, Eq)]
pub enum Msg {
    Activate(String),
    Settings,
}

pub enum MsgView {
    Activate(Seq<char>),
    Settings,
}

impl View for Msg {
    type V = MsgView;

    open spec fn view(&self) -> MsgView {
        match self {
            Msg::Activate(t) => MsgView::Activate(t@),
            Msg::Settings => MsgView::Settings,
        }
    }
}

/// How to bring up the window. The message goes first: showing first could trigger a frame that
/// sees an unexplained visible window and hides it again.
#[derive(Debug, PartialEq, Eq)]
pub struct Show {
    pub msg: Msg,
    /// The point to show it near, or the middle of the monitor.
    pub at: Option<(i32, i32)>,
    /// Width and height, as lengths of the settings.
    pub size: (u32, u32),
    pub topmost: bool,
}

pub struct ShowView {
    pub msg: MsgView,
    pub at: Option<(i32, i32)>,
    pub size: (u32, u32),
    pub topmost: bool,
}

impl View for Show {
    type V = ShowView;

    open spec fn view(&self) -> ShowView {
        ShowView { msg: self.msg@, at: self.at, size: self.size, topmost: self.topmost }
    }
}

/// Whether a text names a hotkey, or why it does not.
pub uninterp spec fn hotkey_parse(text: Seq<char>) -> Result<(), Seq<char>>;

/// `global_hotkey::hotkey::HotKey::from_str`: accepts the text of a hotkey or says what is wrong
/// with it. The contract says that acceptance and error are functions of the text.
#[verifier::external_body]
fn check_hotkey(text: &str) -> (r: Result<(), String>)
    ensures
        result_view(r) == hotkey_parse(text@),
{
    text.parse::<HotKey>().map(|_| ()).map_err(|e| e.to_string())
}

/// The note on a hotkey that was not understood.
pub open spec fn parse_note(text: Seq<char>, parsed: Result<(), Seq<char>>) -> Seq<Seq<char>> {
    match parsed {
        Ok(_) => Seq::empty(),
        Err(e) => seq!["hotkey \""@ + text + "\": "@ + e],
    }
}

/// The notes of the thread that owns the hotkey: `manager` is the error where hotkeys can't be had
/// at all, `registered` what came of the registration where the hotkey was understood.
pub open spec fn thread_notes_of(
    manager: Option<Seq<char>>,
    registered: Option<Result<(), Seq<char>>>,
) -> Seq<Seq<char>> {
    match manager {
        Some(e) => seq!["hotkeys unavailable: "@ + e],
        None => match registered {
            Some(Err(e)) => seq!["hotkey: "@ + e],
            _ => Seq::empty(),
        },
    }
}

/// All notes on the start of the hotkey, where the thread sent its own or did not start.
pub open spec fn all_notes(
    text: Seq<char>,
    parsed: Result<(), Seq<char>>,
    thread: Option<Seq<Seq<char>>>,
) -> Seq<Seq<char>> {
    parse_note(text, parsed) + match thread {
        Some(notes) => notes,
        None => seq!["hotkey thread failed to start"@],
    }
}

/// The notes as one text, a line each; none where there are no notes.
pub open spec fn joined_notes(notes: Seq<Seq<char>>) -> Option<Seq<char>> {
    if notes.len() == 0 {
        None
    } else {
        Some(join(notes, "\n"@))
    }
}

/// The notes of the thread that owns the hotkey.
pub fn thread_notes(manager: Option<String>, registered: Option<Result<(), String>>) -> (r: Vec<
    String,
>)
    ensures
        views(r@) == thread_notes_of(
            opt_view(manager),
            match registered {
                Some(x) => Some(result_view(x)),
                None => None,
            },
        ),
{
    let mut notes: Vec<String> = Vec::new();
    match manager {
        Some(e) => {
            let mut s = "hotkeys unavailable: ".to_owned();
            s.append(e.as_str());
            let ghost text = s@;
            notes.push(s);
            assert(views(notes@) =~= seq![text]);
        },
        None => {
            if let Some(Err(e)) = registered {
                let mut s = "hotkey: ".to_owned();
                s.append(e.as_str());
                let ghost text = s@;
                notes.push(s);
                assert(views(notes@) =~= seq![text]);
            } else {
                assert(views(notes@) =~= Seq::<Seq<char>>::empty());
            }
        },
    }
    notes
}

/// The notes on the start of the hotkey `text`, which was understood or not.
pub fn start_notes(text: &str, parsed: Result<(), String>, thread: Option<Vec<String>>) -> (r:
    Option<String>)
    ensures
        opt_view(r) == joined_notes(
            all_notes(
                text@,
                result_view(parsed),
                opt_views(thread),
            ),
        ),
{
    let mut notes: Vec<String> = Vec::new();
    let ghost first = parse_note(text@, result_view(parsed));
    if let Err(e) = parsed {
        let mut s = "hotkey \"".to_owned();
        s.append(text);
        s.append("\": ");
        s.append(e.as_str());
        let ghost line = s@;
        notes.push(s);
        assert(views(notes@) =~= seq![line]);
    }
    assert(views(notes@) =~= first);
    let ghost second = match opt_views(thread) {
        Some(lines) => lines,
        None => seq!["hotkey thread failed to start"@],
    };
    match thread {
        Some(v) => {
            let mut more = v;
            let ghost was = notes@;
            let ghost added = more@;
            notes.append(&mut more);
            assert(views(was + added) =~= views(was) + views(added));
        },
        None => {
            notes.push("hotkey thread failed to start".to_owned());
        },
    }
    assert(views(notes@) =~= first + second);
    if notes.len() == 0 {
        None
    } else {
        Some(join_strings(&notes, "\n"))
    }
}

/// The notes on the start of the hotkey of the settings. A failing hotkey degrades to a note.
pub fn spawn(hotkey: &str, thread: Option<Vec<String>>) -> (r: Option<String>)
    ensures
        opt_view(r) == joined_notes(
            all_notes(
                hotkey@,
                hotkey_parse(hotkey@),
                opt_views(thread),
            ),
        ),
{
    start_notes(hotkey, check_hotkey(hotkey), thread)
}

/// The hotkey that counts: the one with this id, where its registration succeeded.
pub fn active_id(id: Option<u32>, registered: &Option<Result<(), String>>) -> (r: Option<u32>)
    ensures
        r == match *registered {
            Some(Ok(_)) => id,
            _ => None,
        },
{
    match registered {
        Some(Ok(_)) => id,
        _ => None,
    }
}

/// The hotkey event is a press of the registered hotkey.
pub fn is_activation(pressed: bool, id: u32, main_id: Option<u32>) -> (r: bool)
    ensures
        r == (pressed && main_id == Some(id)),
{
    match main_id {
        Some(m) => pressed && id == m,
        None => false,
    }
}

/// The size of the window where the settings could not be loaded.
pub open spec fn size_or_default(size: Option<(u32, u32)>) -> (u32, u32) {
    match size {
        Some(s) => s,
        None => (DEFAULT_WIDTH, DEFAULT_HEIGHT),
    }
}

/// The hotkey shows the assistant with the captured text, near the cursor.
pub fn on_hotkey(text: Option<String>, at: Option<(i32, i32)>, size: Option<(u32, u32)>) -> (r:
    Show)
    ensures
        r@ == (ShowView {
            msg: MsgView::Activate(
                match text {
                    Some(t) => t@,
                    None => Seq::empty(),
                },
            ),
            at: match at {
                Some(p) => Some(p),
                None => Some((300, 300)),
            },
            size: size_or_default(size),
            topmost: true,
        }),
{
    let msg = match text {
        Some(t) => Msg::Activate(t),
        None => Msg::Activate(String::new()),
    };
    let at: (i32, i32) = match at {
        Some(p) => p,
        None => (300, 300),
    };
    let size: (u32, u32) = match size {
        Some(s) => s,
        None => (DEFAULT_WIDTH, DEFAULT_HEIGHT),
    };
    Show { msg, at: Some(at), size, topmost: true }
}

/// What an entry of the tray menu does.
#[derive(Debug, PartialEq, Eq)]
pub enum MenuStep {
    Quit,
    Show(Show),
    Nothing,
}

/// The settings open in the middle, at a fixed size, as a regular window.
pub open spec fn settings_show() -> ShowView {
    ShowView {
        msg: MsgView::Settings,
        at: None,
        size: (DEFAULT_WIDTH, DEFAULT_HEIGHT),
        topmost: false,
    }
}

/// The entry `chosen` of the tray menu was chosen.
pub fn on_menu(chosen: &str, settings: &str, quit: &str) -> (r: MenuStep)
    ensures
        match r {
            MenuStep::Quit => chosen@ == quit@,
            MenuStep::Show(s) => chosen@ != quit@ && chosen@ == settings@ && s@ == settings_show(),
            MenuStep::Nothing => chosen@ != quit@ && chosen@ != settings@,
        },
{
    if same(chosen, quit) {
        MenuStep::Quit
    } else if same(chosen, settings) {
        MenuStep::Show(
            Show {
                msg: Msg::Settings,
                at: None,
                size: (DEFAULT_WIDTH, DEFAULT_HEIGHT),
                topmost: false,
            },
        )
    } else {
        MenuStep::Nothing
    }
}

/// The tray icon was clicked: a released left button shows the assistant, with no text, in the
/// middle.
pub fn on_tray(left: bool, released: bool, size: Option<(u32, u32)>) -> (r: Option<Show>)
    ensures
        match r {
            Some(s) => left && released && s@ == (ShowView {
                msg: MsgView::Activate(Seq::empty()),
                at: None,
                size: size_or_default(size),
                topmost: true,
            }),
            None => !(left && released),
        },
{
    if left && released {
        let size: (u32, u32) = match size {
            Some(s) => s,
            None => (DEFAULT_WIDTH, DEFAULT_HEIGHT),
        };
        Some(Show { msg: Msg::Activate(String::new()), at: None, size, topmost: true })
    } else {
        None
    }
}

/// The side of the tray icon in pixels.
pub const TRAY_SIDE: usize = 32;

/// The pixel belongs to the ring or to the block in the middle of the tray icon.
pub open spec fn lit(x: int, y: int) -> bool {
    let in_square = 3 <= x < 29 && 3 <= y < 29;
    let ring = in_square && (x < 6 || x >= 26 || y < 6 || y >= 26);
    let block = 12 <= x < 20 && 12 <= y < 20;
    ring || block
}

/// The byte `i` of the tray icon: rows of pixels, each with red, green, blue and alpha.
pub open spec fn tray_byte(i: int) -> u8 {
    if !lit(i / 4 % 32, i / 128) {
        0
    } else if i % 4 == 2 {
        230
    } else if i % 4 == 3 {
        255
    } else {
        235
    }
}

/// Flat square ring with a center block, light on dark.
pub fn tray_img() -> (r: Vec<u8>)
    ensures
        r@ == Seq::new(4096, |i: int| tray_byte(i)),
{
    let mut rgba: Vec<u8> = Vec::new();
    let mut i: usize = 0;
    while i < TRAY_SIDE * TRAY_SIDE * 4
        invariant
            i <= 4096,
            rgba@ == Seq::new(i as nat, |k: int| tray_byte(k)),
        decreases 4096 - i,
    {
        let x: usize = i / 4 % TRAY_SIDE;
        let y: usize = i / 128;
        let in_square = 3 <= x && x < 29 && 3 <= y && y < 29;
        let ring = in_square && (x < 6 || x >= 26 || y < 6 || y >= 26);
        let block = 12 <= x && x < 20 && 12 <= y && y < 20;
        let b: u8 = if !(ring || block) {
            0
        } else if i % 4 == 2 {
            230
        } else if i % 4 == 3 {
            255
        } else {
            235
        };
        assert(b == tray_byte(i as int));
        rgba.push(b);
        i += 1;
        assert(rgba@ =~= Seq::new(i as nat, |k: int| tray_byte(k)));
    }
    rgba
}

/// What goes wrong with the hotkey is told, in words that hold the reason: a hotkey that was not
/// understood, before what the thread has to say, or that the thread did not start.
pub proof fn law_what_goes_wrong_with_the_hotkey_is_told(
    text: Seq<char>,
    e: Seq<char>,
    notes: Seq<Seq<char>>,
    other: Option<Result<(), Seq<char>>>,
)
    ensures
        all_notes(text, Ok(()), Some(notes)) == notes,
        all_notes(text, Err(e), Some(notes)) == seq!["hotkey \""@ + text + "\": "@ + e] + notes,
        all_notes(text, Ok(()), None) == seq!["hotkey thread failed to start"@],
        all_notes(text, Err(e), None) == seq![
            "hotkey \""@ + text + "\": "@ + e,
            "hotkey thread failed to start"@,
        ],
        thread_notes_of(Some(e), other) == seq!["hotkeys unavailable: "@ + e],
        thread_notes_of(None, Some(Err(e))) == seq!["hotkey: "@ + e],
        thread_notes_of(None, Some(Ok(()))).len() == 0,
        thread_notes_of(None, None).len() == 0,
{
    assert(all_notes(text, Ok(()), Some(notes)) =~= notes);
    assert(all_notes(text, Ok(()), None) =~= seq!["hotkey thread failed to start"@]);
    assert(all_notes(text, Err(e), None) =~= seq![
        "hotkey \""@ + text + "\": "@ + e,
        "hotkey thread failed to start"@,
    ]);
}

/// The tray icon is the same seen from each side, and lit by the distance from its middle: a block
/// up to four pixels out, and a ring from ten to thirteen pixels out.
pub proof fn law_the_tray_icon_is_a_ring_and_a_block(x: int, y: int)
    requires
        0 <= x < 32,
        0 <= y < 32,
    ensures
        lit(x, y) == lit(y, x),
        lit(x, y) == lit(31 - x, y),
        ({
            let dx = if 2 * x > 31 {
                2 * x - 31
            } else {
                31 - 2 * x
            };
            let dy = if 2 * y > 31 {
                2 * y - 31
            } else {
                31 - 2 * y
            };
            let d = if dx > dy {
                dx
            } else {
                dy
            };
            lit(x, y) <==> d < 8 || 20 < d < 26
        }),
        ({
            let at = (y * 32 + x) * 4;
            &&& lit(x, y) ==> tray_byte(at) == 235 && tray_byte(at + 1) == 235 && tray_byte(at + 2)
                == 230 && tray_byte(at + 3) == 255
            &&& !lit(x, y) ==> tray_byte(at) == 0 && tray_byte(at + 1) == 0 && tray_byte(at + 2) == 0
                && tray_byte(at + 3) == 0
        }),
{
}

/// Where there are settings their size counts, else the default one.
pub proof fn law_the_size_is_that_of_the_settings(w: u32, h: u32)
    ensures
        size_or_default(Some((w, h))) == (w, h),
        size_or_default(None) == (0x440C_0000u32, 0x4416_0000u32),
        settings_show().size == (0x440C_0000u32, 0x4416_0000u32),
        !settings_show().topmost,
        settings_show().at is None,
        settings_show().msg is Settings,
{
}

} // verus!
