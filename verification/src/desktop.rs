//! What the desktop application decides before it talks to the engine.

use vstd::prelude::*;
use vstd::string::*;

use crate::config::{plain_link, EdgeLink};
use crate::geom::Side;
use crate::identity::DeviceId;
use crate::lists::{empty_list, push_item};
use crate::protocol::OsKind;
use crate::text::{
    cat3, chars_of, contains_text, count_char, decimal, format_decimal, has_text, occurrences,
    same_text, trim, trimmed,
};
use crate::transfer::LocalPath;
use crate::DEFAULT_PORT;

verus! {

/// The edge that a word names.
pub open spec fn side_named(value: Seq<char>) -> Option<Side> {
    if value == Side::Left.word() {
        Some(Side::Left)
    } else if value == Side::Right.word() {
        Some(Side::Right)
    } else if value == Side::Top.word() {
        Some(Side::Top)
    } else if value == Side::Bottom.word() {
        Some(Side::Bottom)
    } else {
        None
    }
}

/// Reads the word for an edge.
pub fn parse_side(value: &str) -> (out: Result<Side, String>)
    ensures
        match out {
            Ok(side) => side_named(value@) == Some(side),
            Err(text) => side_named(value@) is None && text@ == "'"@ + value@
                + "' is not a screen edge"@,
        },
{
    if same_text(value, "left") {
        Ok(Side::Left)
    } else if same_text(value, "right") {
        Ok(Side::Right)
    } else if same_text(value, "top") {
        Ok(Side::Top)
    } else if same_text(value, "bottom") {
        Ok(Side::Bottom)
    } else {
        Err(cat3("'", value, "' is not a screen edge"))
    }
}

/// The word of an edge is read as that edge.
pub proof fn law_side_word_round_trip(side: Side)
    ensures
        side_named(side.word()) == Some(side),
{
    reveal_strlit("left");
    reveal_strlit("right");
    reveal_strlit("top");
    reveal_strlit("bottom");
    assert("left"@.len() == 4 && "right"@.len() == 5 && "top"@.len() == 3 && "bottom"@.len() == 6);
}

/// The link that the user sets up: the machine beyond an edge of this desktop.
pub fn link_beyond(device_id: String, name: &str, side: &str) -> (out: Result<EdgeLink, String>)
    ensures
        match out {
            Ok(link) => side_named(side@) matches Some(local) && link.deep_view() == plain_link(
                device_id@,
                name@,
                local,
            ),
            Err(text) => side_named(side@) is None && text@ == "'"@ + side@
                + "' is not a screen edge"@,
        },
{
    match parse_side(side) {
        Ok(local_side) => Ok(EdgeLink::new(DeviceId(device_id), name, local_side)),
        Err(e) => Err(e),
    }
}

/// Whether an address already names a port.
pub open spec fn names_port(address: Seq<char>) -> bool {
    if address.len() > 0 && address[0] == '[' {
        contains_text(address, "]:"@)
    } else {
        occurrences(address, ':') == 1
    }
}

/// An address as it is dialled: trimmed, and with a port.
pub open spec fn with_port(input: Seq<char>) -> Seq<char> {
    let address = trimmed(input);
    if names_port(address) {
        address
    } else {
        address + ":"@ + decimal(DEFAULT_PORT as nat)
    }
}

/// Accepts "192.168.1.4", "192.168.1.4:47823" and "[::1]:47823".
pub fn normalize_address(input: &str) -> (out: String)
    ensures
        out@ == with_port(input@),
{
    let address = trim(input);
    let chars = chars_of(address.as_str());
    let has_port = if chars.len() > 0 && chars[0] == '[' {
        has_text(address.as_str(), "]:")
    } else {
        count_char(address.as_str(), ':') == 1
    };
    if has_port {
        address
    } else {
        cat3(address.as_str(), ":", format_decimal(DEFAULT_PORT as u64).as_str())
    }
}

/// What is said of an address that cannot be read.
pub fn bad_address(address: &str) -> (out: String)
    ensures
        out@ == "'"@ + address@ + "' is not a valid address. Use host:port."@,
{
    cat3("'", address, "' is not a valid address. Use host:port.")
}

/// The files that the user chose, or why there is nothing to send.
pub fn chosen_files(paths: Vec<LocalPath>) -> (out: Result<Vec<LocalPath>, String>)
    ensures
        match out {
            Ok(found) => paths@.len() > 0 && found == paths,
            Err(text) => paths@.len() == 0 && text@ == "no files were selected"@,
        },
{
    if paths.len() == 0 {
        Err("no files were selected".to_owned())
    } else {
        Ok(paths)
    }
}

/// True when a build for the given system can actually relay keyboard and mouse input.
pub fn input_relay_supported(os: OsKind) -> (out: bool)
    ensures
        out == (os == OsKind::Windows || os == OsKind::Macos),
{
    matches!(os, OsKind::Windows | OsKind::Macos)
}

/// The notes for a system and a permission that is still missing.
pub open spec fn notes_for(hint: Option<Seq<char>>, os: OsKind) -> Seq<Seq<char>> {
    let first = match hint {
        Some(text) => seq![text],
        None => Seq::empty(),
    };
    let second = if os == OsKind::Windows {
        first.push(
            "Windows may show a firewall prompt the first time UnionDesk listens for peers; allow it on private networks."@,
        )
    } else {
        first
    };
    if os == OsKind::Windows || os == OsKind::Macos {
        second
    } else {
        second.push("Keyboard and mouse relaying is not implemented on this platform yet."@)
    }
}

/// Platform specific notes the UI shows in the settings panel.
pub fn platform_notes(hint: Option<String>, os: OsKind) -> (out: Vec<String>)
    ensures
        out.deep_view() == notes_for(hint.deep_view(), os),
{
    let mut notes: Vec<String> = empty_list();
    if let Some(text) = hint {
        push_item(&mut notes, text);
    }
    assert(notes.deep_view() =~= match hint.deep_view() {
        Some(text) => seq![text],
        None => Seq::empty(),
    });
    if matches!(os, OsKind::Windows) {
        push_item(
            &mut notes,
            "Windows may show a firewall prompt the first time UnionDesk listens for peers; allow it on private networks.".to_owned(),
        );
    }
    if !input_relay_supported(os) {
        push_item(
            &mut notes,
            "Keyboard and mouse relaying is not implemented on this platform yet.".to_owned(),
        );
    }
    notes
}

/// Log files are truncated once they pass this size, which keeps a long running
/// installation from filling a disk with its own history.
pub const MAX_LOG_BYTES: u64 = 2_097_152;

/// Whether a log file of the given length starts over; a file that cannot be measured does
/// not.
pub fn log_starts_over(len: Option<u64>) -> (out: bool)
    ensures
        out == (len matches Some(n) && n > MAX_LOG_BYTES),
{
    match len {
        Some(n) => n > MAX_LOG_BYTES,
        None => false,
    }
}

/// The directives that keep the application's own records at info.
///
/// A desktop application has no console, so the log file is the only place a problem can
/// be looked up after the fact; leaving it empty because of an unrelated setting in the
/// environment would make the application undiagnosable.
pub fn app_directives() -> (out: String)
    ensures
        out@
            == "uniondesk_lib=info,ud_engine=info,ud_net=info,ud_input=info,ud_clipboard=info"@,
{
    "uniondesk_lib=info,ud_engine=info,ud_net=info,ud_input=info,ud_clipboard=info".to_owned()
}

/// Whether a filter says something about the application.
pub open spec fn mentions_app(filter: Seq<char>) -> bool {
    contains_text(filter, "uniondesk_lib"@) || contains_text(filter, "ud_engine"@)
        || contains_text(filter, "ud_net"@) || contains_text(filter, "ud_input"@)
        || contains_text(filter, "ud_clipboard"@)
}

/// The log filter for what the environment says.
pub open spec fn filter_for(from_env: Option<Seq<char>>) -> Seq<char> {
    let own = "uniondesk_lib=info,ud_engine=info,ud_net=info,ud_input=info,ud_clipboard=info"@;
    match from_env {
        Some(value) => if mentions_app(value) {
            value
        } else {
            value + ","@ + own
        },
        None => "warn,"@ + own + ",ud_engine=debug,ud_net=debug"@,
    }
}

/// Builds the filter from the environment when it says something about UnionDesk, and
/// otherwise keeps the application's own records at info while the rest of the world
/// stays quiet.
pub fn build_filter(from_env: Option<String>) -> (out: String)
    ensures
        out@ == filter_for(from_env.deep_view()),
{
    match from_env {
        Some(value) => {
            let filter = value.as_str();
            if has_text(filter, "uniondesk_lib") || has_text(filter, "ud_engine") || has_text(
                filter,
                "ud_net",
            ) || has_text(filter, "ud_input") || has_text(filter, "ud_clipboard") {
                value
            } else {
                cat3(filter, ",", app_directives().as_str())
            }
        },
        None => cat3("warn,", app_directives().as_str(), ",ud_engine=debug,ud_net=debug"),
    }
}

} // verus!
