//! The menu in the system tray.

use vstd::prelude::*;
use crate::app::Command;
use crate::i18n::{message, t, Language};
use crate::state::Span;

verus! {

/// The entry that starts and stops casting.
pub const TOGGLE_CAST: u32 = 1;

/// The entry that opens the settings page.
pub const OPEN_SETTINGS: u32 = 2;

/// The entry that ends the program.
pub const QUIT: u32 = 4;

/// The entry that opens the directory of the log file.
pub const OPEN_LOG_DIR: u32 = 8;

/// An entry that can be clicked.
#[derive(Clone, Debug)]
pub struct MenuButton {
    pub id: u32,
    pub label: String,
}

/// An entry of the menu.
#[derive(Clone, Debug)]
pub enum MenuEntry {
    Checkbox { button: MenuButton, checked: bool },
    Separator,
    Submenu { label: String, first: MenuButton, second: MenuButton },
    Button(MenuButton),
}

/// An entry that can be clicked, with its text as a sequence of characters.
#[verifier::ext_equal]
pub struct ButtonView {
    pub id: u32,
    pub label: Seq<char>,
}

/// An entry with its texts as sequences of characters.
#[verifier::ext_equal]
pub enum EntryView {
    Checkbox { button: ButtonView, checked: bool },
    Separator,
    Submenu { label: Seq<char>, first: ButtonView, second: ButtonView },
    Button(ButtonView),
}

impl View for MenuButton {
    type V = ButtonView;

    open spec fn view(&self) -> ButtonView {
        ButtonView { id: self.id, label: self.label@ }
    }
}

impl View for MenuEntry {
    type V = EntryView;

    open spec fn view(&self) -> EntryView {
        match self {
            MenuEntry::Checkbox { button, checked } => EntryView::Checkbox {
                button: button@,
                checked: *checked,
            },
            MenuEntry::Separator => EntryView::Separator,
            MenuEntry::Submenu { label, first, second } => EntryView::Submenu {
                label: label@,
                first: first@,
                second: second@,
            },
            MenuEntry::Button(button) => EntryView::Button(button@),
        }
    }
}

/// The views of entries.
pub open spec fn entry_views(v: Seq<MenuEntry>) -> Seq<EntryView> {
    Seq::new(v.len(), |i: int| v[i]@)
}

/// An entry that can be clicked, with its text in a language.
pub open spec fn labelled(id: u32, language: Language, key: Seq<char>) -> ButtonView {
    ButtonView { id, label: message(language, key) }
}

fn button(id: u32, language: Language, key: &str) -> (r: MenuButton)
    ensures
        r@ == labelled(id, language, key@),
{
    MenuButton { id, label: t(language, key) }
}

/// The menu: casting, which is checked while it goes on, more entries, and the end of
/// the program.
pub open spec fn menu_shown(casting: bool, language: Language) -> Seq<EntryView> {
    seq![
        EntryView::Checkbox {
            button: labelled(TOGGLE_CAST, language, "tray-cast"@),
            checked: casting,
        },
        EntryView::Separator,
        EntryView::Submenu {
            label: message(language, "tray-more"@),
            first: labelled(OPEN_SETTINGS, language, "tray-open-settings"@),
            second: labelled(OPEN_LOG_DIR, language, "tray-open-log-dir"@),
        },
        EntryView::Button(labelled(QUIT, language, "tray-quit"@)),
    ]
}

/// The menu.
pub fn menu(casting: bool, language: Language) -> (r: Vec<MenuEntry>)
    ensures
        entry_views(r@) == menu_shown(casting, language),
{
    let mut entries: Vec<MenuEntry> = Vec::new();
    entries.push(
        MenuEntry::Checkbox {
            button: button(TOGGLE_CAST, language, "tray-cast"),
            checked: casting,
        },
    );
    entries.push(MenuEntry::Separator);
    entries.push(
        MenuEntry::Submenu {
            label: t(language, "tray-more"),
            first: button(OPEN_SETTINGS, language, "tray-open-settings"),
            second: button(OPEN_LOG_DIR, language, "tray-open-log-dir"),
        },
    );
    entries.push(MenuEntry::Button(button(QUIT, language, "tray-quit")));
    assert(entry_views(entries@) =~= menu_shown(casting, language));
    entries
}

/// What the tray shows.
#[derive(Clone, Copy, Debug, PartialEq, Eq, Structural)]
pub struct TrayState {
    /// Whether there is a tray to show a menu in.
    pub shown: bool,
    pub casting: bool,
}

/// The view of a menu that is to be shown.
pub open spec fn menu_view(m: Option<Vec<MenuEntry>>) -> Option<Seq<EntryView>> {
    match m {
        Some(entries) => Some(entry_views(entries@)),
        None => None,
    }
}

/// The menu that is to be shown, where there is a tray.
pub open spec fn menu_of(tray: TrayState, language: Language) -> Option<Seq<EntryView>> {
    if tray.shown {
        Some(menu_shown(tray.casting, language))
    } else {
        None
    }
}

/// The menu that is to be shown, where there is a tray.
pub fn refresh_menu(tray: &TrayState, language: Language) -> (r: Option<Vec<MenuEntry>>)
    ensures
        menu_view(r) == menu_of(*tray, language),
{
    if tray.shown {
        Some(menu(tray.casting, language))
    } else {
        None
    }
}

/// Takes note whether casting goes on, and hands out the menu that is to be shown.
pub fn set_casting(tray: &mut TrayState, casting: bool, language: Language) -> (r: Option<
    Vec<MenuEntry>,
>)
    ensures
        *final(tray) == (TrayState { casting, ..*old(tray) }),
        menu_view(r) == menu_of(*final(tray), language),
{
    tray.casting = casting;
    refresh_menu(tray, language)
}

/// What a click comes down to.
#[derive(Clone, Copy, Debug, PartialEq, Eq, Structural)]
pub enum TrayAction {
    /// To a command to the application.
    Send(Command),
    /// To a command to the application that ends the tray too.
    SendAndEnd(Command),
    OpenLogDir,
    Nothing,
}

/// What a click on the entry `id` comes down to.
pub open spec fn clicked(id: u32) -> TrayAction {
    if id == TOGGLE_CAST {
        TrayAction::Send(Command::ToggleCast)
    } else if id == OPEN_SETTINGS {
        TrayAction::Send(Command::OpenSettings)
    } else if id == OPEN_LOG_DIR {
        TrayAction::OpenLogDir
    } else if id == QUIT {
        TrayAction::SendAndEnd(Command::Quit)
    } else {
        TrayAction::Nothing
    }
}

/// What a click on the entry `id` comes down to, where the program may have been told to end.
pub open spec fn click_result(id: u32, quitting: bool) -> TrayAction {
    if quitting {
        TrayAction::SendAndEnd(Command::Quit)
    } else {
        clicked(id)
    }
}

/// What a click on the entry `id` comes down to. Once the program is told to end, any
/// click ends it.
pub fn on_click(id: u32, quitting: bool) -> (r: TrayAction)
    ensures
        r == click_result(id, quitting),
{
    if quitting || id == QUIT {
        TrayAction::SendAndEnd(Command::Quit)
    } else if id == TOGGLE_CAST {
        TrayAction::Send(Command::ToggleCast)
    } else if id == OPEN_SETTINGS {
        TrayAction::Send(Command::OpenSettings)
    } else if id == OPEN_LOG_DIR {
        TrayAction::OpenLogDir
    } else {
        TrayAction::Nothing
    }
}

/// Whether a message may be shown, a second or more after the last one that counted.
/// The first of all only begins the count.
pub open spec fn message_due(last: Option<Span>, now: Span) -> bool {
    match last {
        Some(last) => now.total_nanos() - last.total_nanos() >= 1_000_000_000,
        None => false,
    }
}

/// Takes note of a message, and says whether it may be shown.
pub fn notify_due(last: &mut Option<Span>, now: Span) -> (r: bool)
    requires
        now.valid(),
        *old(last) matches Some(l) ==> l.valid(),
    ensures
        r == message_due(*old(last), now),
        *final(last) == if r || *old(last) is None {
            Some(now)
        } else {
            *old(last)
        },
{
    match *last {
        None => {
            *last = Some(now);
            false
        },
        Some(l) => {
            let due = now.secs > l.secs && (now.secs - l.secs > 1 || now.nanos >= l.nanos);
            if due {
                *last = Some(now);
            }
            due
        },
    }
}

} // verus!
