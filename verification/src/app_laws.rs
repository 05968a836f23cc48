//! What the application does for its user.

use vstd::prelude::*;
use crate::app::{cast_down, cast_up, App, AppStep, Command};
use crate::i18n::{asked_for, detected, in_use, message, resolved, Language};
use crate::player::mpv::{mpv_startup, tried_again};
use crate::player::program::{PlayerProgram, SessionStep, StartStep};
use crate::player::vlc::vlc_startup;
use crate::ssdp::copies_of;
use crate::state::{initial_state, CastState, Span, StateView, TransportState};
use crate::text::{contains_text, lower, starts_at};
use crate::tray::{
    click_result, clicked, menu_of, menu_shown, message_due, EntryView, TrayAction, TrayState,
};

verus! {

/// A command to cast starts casting where it does not go on and stops it where it does; a
/// command to open the settings starts their server first where it does not run; and a command
/// to quit ends all.
pub proof fn law_commands_are_carried_out(app: App)
    ensures
        app.casting ==> app.step_for(Command::ToggleCast) == AppStep::StopCast,
        !app.casting ==> app.step_for(Command::ToggleCast) == AppStep::StartCast,
        app.serving ==> app.step_for(Command::OpenSettings) == AppStep::OpenSettings,
        !app.serving ==> app.step_for(Command::OpenSettings) == AppStep::StartAndOpenSettings,
        app.step_for(Command::Quit) == AppStep::ShutDown,
{
}

/// A renderer that comes up says so and where it is reached, and keeps all else. One that goes
/// down says so, is reached nowhere, has stopped, and stands at the beginning of its media.
pub proof fn law_services_come_and_go(s: StateView, address: Option<Seq<char>>)
    ensures
        ({
            let up = cast_up(s, address);
            &&& up.cast == CastState::Running
            &&& up.upnp_address == address
            &&& up.uri == s.uri && up.title == s.title && up.transport == s.transport
            &&& up.duration == s.duration && up.position == s.position
            &&& up.volume == s.volume && up.muted == s.muted
        }),
        ({
            let down = cast_down(s);
            &&& down.cast == CastState::Stopped
            &&& down.upnp_address is None
            &&& down.transport == TransportState::Stopped
            &&& down.position.total_nanos() == 0
            &&& down.uri == s.uri && down.title == s.title && down.duration == s.duration
            &&& down.volume == s.volume && down.muted == s.muted
        }),
{
}

/// A renderer begins without media, at full volume, with its sound on and its services down.
pub proof fn law_renderer_begins_empty(s: StateView)
    requires
        s == initial_state(),
    ensures
        s.uri is None && s.title is None && s.duration is None && s.upnp_address is None,
        s.transport == TransportState::NoMediaPresent,
        s.position.total_nanos() == 0,
        s.volume == 100 && !s.muted,
        s.cast == CastState::Stopped,
{
}

/// Each entry of the menu does what it says: casting is toggled, and checked while it goes on;
/// the settings and the log are opened; and quitting ends the program.
pub proof fn law_menu_does_what_it_says(casting: bool, language: Language)
    ensures
        ({
            let menu = menu_shown(casting, language);
            &&& menu.len() == 4
            &&& menu[0] matches EntryView::Checkbox { button, checked } && checked == casting
                && clicked(button.id) == TrayAction::Send(Command::ToggleCast) && button.label
                == message(language, "tray-cast"@)
            &&& menu[1] is Separator
            &&& menu[2] matches EntryView::Submenu { label, first, second } && label == message(
                language,
                "tray-more"@,
            ) && clicked(first.id) == TrayAction::Send(Command::OpenSettings) && first.label
                == message(language, "tray-open-settings"@) && clicked(second.id)
                == TrayAction::OpenLogDir && second.label == message(
                language,
                "tray-open-log-dir"@,
            )
            &&& menu[3] matches EntryView::Button(button) && clicked(button.id)
                == TrayAction::SendAndEnd(Command::Quit) && button.label == message(
                language,
                "tray-quit"@,
            )
        }),
{
}

/// A tray that is not shown has no menu, and one that is shows the menu for how things stand.
pub proof fn law_menu_is_shown_in_the_tray(tray: TrayState, language: Language)
    ensures
        !tray.shown ==> menu_of(tray, language) is None,
        tray.shown ==> menu_of(tray, language) == Some(menu_shown(tray.casting, language)),
{
}

/// Once the program is told to end, any click ends it. Until then a click does what its entry
/// says, and what is no entry does nothing.
pub proof fn law_clicks_end_what_is_ending(id: u32)
    ensures
        click_result(id, true) == TrayAction::SendAndEnd(Command::Quit),
        click_result(id, false) == clicked(id),
        id != 1 && id != 2 && id != 4 && id != 8 ==> clicked(id) == TrayAction::Nothing,
{
}

/// Messages are shown a second apart at least, and the first of all is not.
pub proof fn law_messages_keep_their_distance(last: Span, now: Span)
    requires
        last.valid(),
        now.valid(),
    ensures
        !message_due(None, now),
        message_due(Some(last), now) <==> now.secs > last.secs + 1 || now.secs == last.secs + 1
            && now.nanos >= last.nanos,
{
}

/// A locale asks for Chinese where it begins with `zh`, in any case, for nothing where it is
/// empty or that of no language, and otherwise for English.
pub proof fn law_locales_ask_for_a_language(value: Seq<char>)
    ensures
        value.len() > 0 && starts_at(lower(value), "zh"@, 0) ==> asked_for(value) == Some(
            Language::Zh,
        ),
        value.len() == 0 ==> asked_for(value) is None,
        value.len() > 0 && !starts_at(lower(value), "zh"@, 0) && lower(value) != "c"@ && lower(
            value,
        ) != "posix"@ ==> asked_for(value) == Some(Language::En),
        !starts_at(lower(value), "zh"@, 0) && (lower(value) == "c"@ || lower(value) == "posix"@)
            ==> asked_for(value) is None,
{
}

/// The first setting that asks for a language decides, and English is spoken where none does.
pub proof fn law_first_locale_decides(values: Seq<Option<String>>, i: int)
    ensures
        0 <= i < values.len() && asks(values[i]) is Some && (forall|j: int|
            0 <= j < i ==> asks(#[trigger] values[j]) is None) ==> detected(values) == asks(
            values[i],
        )->0,
        (forall|j: int| 0 <= j < values.len() ==> asks(#[trigger] values[j]) is None) ==> detected(
            values,
        ) == Language::En,
    decreases values.len(),
{
    if values.len() > 0 {
        let rest = values.skip(1);
        assert forall|j: int| 0 <= j < rest.len() implies #[trigger] rest[j] == values[j + 1] by {}
        law_first_locale_decides(rest, i - 1);
    }
}

/// The language that a setting asks for, where there is such a setting.
pub open spec fn asks(value: Option<String>) -> Option<Language> {
    match value {
        Some(value) => asked_for(value@),
        None => None,
    }
}

/// A language that is configured is spoken; otherwise the one in use is, which is English until
/// one was set.
pub proof fn law_configured_language_is_spoken(code: Seq<char>, current: Option<Language>)
    ensures
        code == "en"@ ==> resolved(code, current) == Language::En,
        code == "zh-CN"@ ==> resolved(code, current) == Language::Zh,
        code != "en"@ && code != "zh-CN"@ ==> resolved(code, current) == in_use(current),
        current matches Some(language) ==> in_use(current) == language,
        current is None ==> in_use(current) == Language::En,
{
    reveal_strlit("en");
    reveal_strlit("zh-CN");
    assert("en"@.len() == 2 && "zh-CN"@.len() == 5);
}

/// A program that does not exist is not tried again; any other is started where it does not
/// run.
pub proof fn law_programs_are_started(program: PlayerProgram)
    ensures
        program.given_up ==> program.next_step() == SessionStep::GivenUp,
        !program.given_up && program.running ==> program.next_step() == SessionStep::Ready,
        !program.given_up && !program.running ==> program.next_step() == SessionStep::Start,
{
}

/// A program that can be connected to is ready, one that ended is not waited for, and one that
/// is neither is waited for, five seconds at most.
pub proof fn law_start_is_waited_for(connected: bool, exited: bool, elapsed: Span)
    ensures
        mpv_startup(connected, exited, elapsed) == StartStep::Ready <==> connected,
        vlc_startup(exited, connected, elapsed) == StartStep::Exited <==> exited,
        mpv_startup(connected, exited, elapsed) == StartStep::Exited <==> exited && !connected,
        vlc_startup(exited, connected, elapsed) == StartStep::Ready <==> connected && !exited,
        mpv_startup(connected, exited, elapsed) == StartStep::Again <==> !connected && !exited
            && elapsed.secs < 5,
        vlc_startup(exited, connected, elapsed) == StartStep::Again <==> !connected && !exited
            && elapsed.secs < 5,
{
}

/// A command is sent once more where mpv is gone, and once only.
pub proof fn law_lost_commands_are_sent_once_more(message: Seq<char>, retried: bool)
    ensures
        retried ==> !tried_again(message, retried),
        !retried ==> (tried_again(message, retried) <==> contains_text(message, "Broken pipe"@)
            || contains_text(message, "os error 32"@) || contains_text(message, "os error 232"@)
            || contains_text(message, "IPC closed"@)),
{
}

/// A message is sent twice while the renderer is there, and once when it leaves.
pub proof fn law_announcements_are_repeated(nts: Seq<char>)
    ensures
        nts == "ssdp:alive"@ ==> copies_of(nts) == 2,
        nts != "ssdp:alive"@ ==> copies_of(nts) == 1,
{
}

} // verus!
