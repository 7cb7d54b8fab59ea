//! What sharing the clipboard and the user's settings promise.

use vstd::prelude::*;
use vstd::utf8::encode_utf8;

use crate::clipboard::{ClipboardEvent, ClipboardEventModel, Limits};
use crate::config::{EdgeLink, Settings, SettingsModel};
use crate::engine::dispatch::{
    clipboard_reset, forgotten, handled, heard_of, settings_updated, sharing_set, Event,
};
use crate::engine::rules::{
    brought_home, control_released, discovery_rebuilt, own_advertisement, public_key_of,
};
use crate::engine::services::{clipboard_changed, clipboard_received, told_to_connected};
use crate::engine::snapshot::{lemma_shows_itself, snapshot_of};
use crate::engine::state::{ActionModel, Command, ControlModel, EngineModel, Moment, SessionModel};
use crate::engine::steering::{at_home, heard_from, homecoming, lemma_heard_from, says};
use crate::identity::{fingerprint_text, DeviceId};
use crate::keyed::{
    find, holds, law_find_after_put, law_find_after_without, law_put_leaves_others,
    law_without_leaves_others,
};
use crate::protocol::{total_text_bytes, ClipboardModel, ClipboardPayload, Message, MessageModel};
use crate::view::{ClipboardStatusModel, DeviceViewModel, TransferDirection};

verus! {

/// The bytes that a payload takes.
pub open spec fn bytes_in(payload: ClipboardModel) -> nat {
    match payload {
        ClipboardModel::Text { text } => encode_utf8(text).len(),
        ClipboardModel::Image { png, .. } => png.len(),
        ClipboardModel::Files { paths } => paths.fold_left(
            0nat,
            |sum: nat, path: Seq<char>| sum + encode_utf8(path).len(),
        ),
        ClipboardModel::Clear => 0,
    }
}

proof fn lemma_paths_add_up(paths: Seq<Seq<char>>)
    ensures
        total_text_bytes(paths) == paths.fold_left(
            0nat,
            |sum: nat, path: Seq<char>| sum + encode_utf8(path).len(),
        ),
    decreases paths.len(),
{
    if paths.len() > 0 {
        lemma_paths_add_up(paths.drop_last());
    }
}

/// What is noted of the last payload that went in some direction.
pub open spec fn notes(
    before: ClipboardStatusModel,
    payload: ClipboardModel,
    direction: TransferDirection,
    at: Moment,
) -> ClipboardStatusModel {
    ClipboardStatusModel {
        enabled: before.enabled,
        last_kind: Some(
            match payload {
                ClipboardModel::Text { .. } => "text"@,
                ClipboardModel::Image { .. } => "image"@,
                ClipboardModel::Files { .. } => "files"@,
                ClipboardModel::Clear => "clear"@,
            },
        ),
        last_at: Some(at.unix),
        last_direction: Some(direction),
    }
}

#[verifier::spinoff_prover]
proof fn lemma_applied(m: EngineModel, payload: ClipboardModel, at: Moment)
    ensures
        ({
            let after = clipboard_received(m, payload, at);
            let wanted = m.settings.clipboard.enabled && bytes_in(payload)
                <= m.settings.clipboard.max_bytes;
            &&& !wanted ==> after == m
            &&& wanted ==> after == (EngineModel {
                clipboard_status: notes(
                    m.clipboard_status,
                    payload,
                    TransferDirection::Receiving,
                    at,
                ),
                out: after.out,
                ..m
            })
            &&& wanted ==> after.out == (if m.clipboard_ready {
                m.out.push(ActionModel::ApplyClipboard(payload))
            } else {
                m.out
            }).push(ActionModel::Publish(snapshot_of(after, at.unix)))
        }),
{
    reveal(clipboard_received);
    lemma_shows_itself(clipboard_received(m, payload, at), at.unix);
    if let ClipboardModel::Files { paths } = payload {
        lemma_paths_add_up(paths);
    }
}

/// Whatever a peer copies is put into the local clipboard as it is, be it text, an image,
/// files or nothing, where the clipboard is shared and the payload is not over the limit;
/// anything else is ignored.
#[verifier::spinoff_prover]
pub proof fn law_what_a_peer_copies_is_applied(
    m: EngineModel,
    peer: DeviceId,
    payload: ClipboardPayload,
    extent: Option<(u64, u64)>,
    draw: u64,
    at: Moment,
)
    ensures
        ({
            let after = handled(m, says(peer, Message::Clipboard(payload), extent), draw, at);
            let wanted = m.settings.clipboard.enabled && bytes_in(payload.deep_view())
                <= m.settings.clipboard.max_bytes;
            &&& heard_from(m, after, peer@, at)
            &&& !wanted ==> after == (EngineModel { sessions: after.sessions, ..m })
            &&& wanted ==> after == (EngineModel {
                sessions: after.sessions,
                clipboard_status: notes(
                    m.clipboard_status,
                    payload.deep_view(),
                    TransferDirection::Receiving,
                    at,
                ),
                out: after.out,
                ..m
            })
            &&& wanted ==> after.out == (if m.clipboard_ready {
                m.out.push(ActionModel::ApplyClipboard(payload.deep_view()))
            } else {
                m.out
            }).push(ActionModel::Publish(snapshot_of(after, at.unix)))
        }),
{
    lemma_heard_from(m, peer@, at);
    lemma_applied(heard_of(m, peer@, at), payload.deep_view(), at);
}

/// The messages that take a payload to every connected machine, in the order of the
/// sessions.
pub open spec fn spread(sessions: Seq<SessionModel>, message: MessageModel) -> Seq<ActionModel> {
    sessions.filter(|session: SessionModel| session.state is Connected).map_values(
        |session: SessionModel|
            ActionModel::Send { connection: session.connection, message },
    )
}

proof fn lemma_told_spreads(m: EngineModel, message: MessageModel, n: nat)
    requires
        n <= m.sessions.len(),
    ensures
        told_to_connected(m, message, n) == (EngineModel {
            out: told_to_connected(m, message, n).out,
            ..m
        }),
        told_to_connected(m, message, n).out == m.out + spread(
            m.sessions.take(n as int),
            message,
        ),
    decreases n,
{
    let connected = |session: SessionModel| session.state is Connected;
    if n == 0 {
        reveal(Seq::filter);
        assert(m.sessions.take(0) =~= Seq::<SessionModel>::empty());
        assert(spread(m.sessions.take(0), message) =~= Seq::<ActionModel>::empty());
        assert(m.out =~= m.out + spread(m.sessions.take(0), message));
    } else {
        lemma_told_spreads(m, message, (n - 1) as nat);
        let head = m.sessions.take(n - 1);
        let session = m.sessions[n - 1];
        assert(m.sessions.take(n as int) =~= head.push(session));
        assert(head.push(session).filter(connected) == if connected(session) {
            head.filter(connected).push(session)
        } else {
            head.filter(connected)
        }) by {
            reveal(Seq::filter);
            assert(head.push(session).drop_last() =~= head);
        }
        let sent = ActionModel::Send { connection: session.connection, message };
        if connected(session) {
            assert(spread(head.push(session), message) =~= spread(head, message).push(sent));
            assert((m.out + spread(head, message)).push(sent) =~= m.out + spread(
                head,
                message,
            ).push(sent));
        }
    }
}

/// What is copied here goes to every connected machine as it is and to no other, where the
/// clipboard is shared, and unless it is always shared only while another machine is
/// driven.
#[verifier::spinoff_prover]
pub proof fn law_what_is_copied_here_is_spread(
    m: EngineModel,
    event: ClipboardEvent,
    draw: u64,
    at: Moment,
)
    ensures
        ({
            let after = handled(m, Event::Clipboard(event), draw, at);
            match event.deep_view() {
                ClipboardEventModel::Error(_) => after == m,
                ClipboardEventModel::Changed(payload) => {
                    let wanted = m.settings.clipboard.enabled && (m.settings.clipboard.always
                        || m.control is Controlling);
                    &&& !wanted ==> after == m
                    &&& wanted ==> after == (EngineModel {
                        clipboard_status: notes(
                            m.clipboard_status,
                            payload,
                            TransferDirection::Sending,
                            at,
                        ),
                        out: after.out,
                        ..m
                    })
                    &&& wanted ==> after.out == (m.out + spread(
                        m.sessions,
                        MessageModel::Clipboard(payload),
                    )).push(ActionModel::Publish(snapshot_of(after, at.unix)))
                },
            }
        }),
{
    reveal(clipboard_changed);
    let after = handled(m, Event::Clipboard(event), draw, at);
    lemma_shows_itself(after, at.unix);
    if let ClipboardEventModel::Changed(payload) = event.deep_view() {
        let noted = crate::engine::services::clipboard_noted(
            m,
            payload,
            TransferDirection::Sending,
            at,
        );
        lemma_told_spreads(noted, MessageModel::Clipboard(payload), m.sessions.len());
        assert(m.sessions.take(m.sessions.len() as int) =~= m.sessions);
    }
}

/// The limits that the clipboard has to keep: a kind is watched where it is synchronised
/// and the clipboard is shared at all.
pub open spec fn wanted_limits(settings: SettingsModel) -> Limits {
    Limits {
        text: settings.clipboard.sync_text && settings.clipboard.enabled,
        images: settings.clipboard.sync_images && settings.clipboard.enabled,
        max_bytes: settings.clipboard.max_bytes,
    }
}

/// New settings are the settings from then on, and are stored. The clipboard gets new
/// limits where its part changed, and discovery starts over where what others see changed.
#[verifier::spinoff_prover]
#[verifier::rlimit(60)]
pub proof fn law_new_settings_take_effect(
    m: EngineModel,
    settings: Box<Settings>,
    draw: u64,
    at: Moment,
)
    ensures
        ({
            let new = settings.deep_view();
            let after = handled(m, Event::Command(Command::UpdateSettings(settings)), draw, at);
            let clipboard_changes = new.clipboard != m.settings.clipboard;
            let announces = new.device_name != m.settings.device_name || new.port
                != m.settings.port || new.discoverable != m.settings.discoverable;
            &&& after.settings == new
            &&& after.device == (DeviceViewModel { name: new.device_name, ..m.device })
            &&& after.clipboard_status == (if clipboard_changes {
                ClipboardStatusModel { enabled: new.clipboard.enabled, ..m.clipboard_status }
            } else {
                m.clipboard_status
            })
            &&& after.table == (if announces {
                Seq::empty()
            } else {
                m.table
            })
            &&& after.discovery_ready == (!announces && m.discovery_ready)
            &&& after.discovery_dirty == (if announces {
                new.discoverable
            } else {
                m.discovery_dirty
            })
            &&& after == (EngineModel {
                settings: after.settings,
                device: after.device,
                clipboard_status: after.clipboard_status,
                table: after.table,
                discovery_ready: after.discovery_ready,
                discovery_dirty: after.discovery_dirty,
                out: after.out,
                ..m
            })
            &&& after.out == m.out + seq![ActionModel::SaveSettings] + (if clipboard_changes
                && m.clipboard_ready {
                seq![ActionModel::SetClipboardLimits(wanted_limits(new))]
            } else {
                Seq::empty()
            }) + (if announces {
                seq![ActionModel::StopDiscovery]
            } else {
                Seq::empty()
            }) + (if announces && new.discoverable {
                seq![
                    ActionModel::StartDiscovery(
                        crate::discovery::AdvertiseModel {
                            device_id: m.identity.device_id,
                            name: new.device_name,
                            os: m.os,
                            port: new.port,
                            fingerprint: fingerprint_text(public_key_of(m)),
                            enabled: true,
                        },
                    ),
                ]
            } else {
                Seq::empty()
            }) + seq![ActionModel::Publish(snapshot_of(after, at.unix))]
        }),
{
    reveal(settings_updated);
    reveal(clipboard_reset);
    reveal(discovery_rebuilt);
    reveal(own_advertisement);
    let new = settings.deep_view();
    let after = handled(m, Event::Command(Command::UpdateSettings(settings)), draw, at);
    lemma_shows_itself(after, at.unix);
    let clipboard_changes = new.clipboard != m.settings.clipboard;
    let announces = new.device_name != m.settings.device_name || new.port != m.settings.port
        || new.discoverable != m.settings.discoverable;
    assert(after.out =~= m.out + seq![ActionModel::SaveSettings] + (if clipboard_changes
        && m.clipboard_ready {
        seq![ActionModel::SetClipboardLimits(wanted_limits(new))]
    } else {
        Seq::empty()
    }) + (if announces {
        seq![ActionModel::StopDiscovery]
    } else {
        Seq::empty()
    }) + (if announces && new.discoverable {
        seq![
            ActionModel::StartDiscovery(
                crate::discovery::AdvertiseModel {
                    device_id: m.identity.device_id,
                    name: new.device_name,
                    os: m.os,
                    port: new.port,
                    fingerprint: fingerprint_text(public_key_of(m)),
                    enabled: true,
                },
            ),
        ]
    } else {
        Seq::empty()
    }) + seq![ActionModel::Publish(snapshot_of(after, at.unix))]);
}

/// Sharing the input is switched as the user says, and nothing else of the settings is.
/// Switching it off while another machine is driven brings the input home.
#[verifier::spinoff_prover]
#[verifier::rlimit(60)]
pub proof fn law_sharing_is_switched_as_the_user_says(
    m: EngineModel,
    enabled: bool,
    draw: u64,
    at: Moment,
)
    ensures
        ({
            let after = handled(m, Event::Command(Command::SetSharing(enabled)), draw, at);
            let switched = SettingsModel {
                input: crate::config::InputSettings { enabled, ..m.settings.input },
                ..m.settings
            };
            &&& after.settings == switched
            &&& after.out.len() >= m.out.len() + 2
            &&& after.out[after.out.len() - 2] is SaveSettings
            &&& after.out.last() == ActionModel::Publish(snapshot_of(after, at.unix))
            &&& enabled || !(m.control is Controlling) ==> after == (EngineModel {
                settings: switched,
                out: after.out,
                ..m
            }) && after.out.len() == m.out.len() + 2
            &&& !enabled ==> (m.control matches ControlModel::Controlling {
                peer,
                placed,
                peer_cursor,
            } ==> at_home(EngineModel { settings: switched, ..m }, after, at) && after.out.take(
                m.out.len() + homecoming(m, peer, placed, peer_cursor).len() as int,
            ) == m.out + homecoming(m, peer, placed, peer_cursor))
        }),
{
    reveal(sharing_set);
    reveal(control_released);
    reveal(brought_home);
    let after = handled(m, Event::Command(Command::SetSharing(enabled)), draw, at);
    lemma_shows_itself(after, at.unix);
    if let ControlModel::Controlling { peer, placed, peer_cursor } = m.control {
        if !enabled {
            assert(after.out.take(
                m.out.len() + homecoming(m, peer, placed, peer_cursor).len() as int,
            ) =~= m.out + homecoming(m, peer, placed, peer_cursor));
        }
    }
}

/// A link that the user sets is the link to its machine from then on; the links to other
/// machines stay, and the settings are stored.
#[verifier::spinoff_prover]
pub proof fn law_a_set_link_is_the_link(
    m: EngineModel,
    link: Box<EdgeLink>,
    other: Seq<char>,
    draw: u64,
    at: Moment,
)
    ensures
        ({
            let after = handled(m, Event::Command(Command::SetLink(link)), draw, at);
            let new = link.deep_view();
            &&& find(after.settings.links, new.peer) == Some(new)
            &&& other != new.peer ==> find(after.settings.links, other) == find(
                m.settings.links,
                other,
            )
            &&& after == (EngineModel {
                settings: SettingsModel { links: after.settings.links, ..m.settings },
                out: after.out,
                ..m
            })
            &&& after.out == m.out.push(ActionModel::SaveSettings).push(
                ActionModel::Publish(snapshot_of(after, at.unix)),
            )
        }),
{
    let after = handled(m, Event::Command(Command::SetLink(link)), draw, at);
    lemma_shows_itself(after, at.unix);
    law_find_after_put(m.settings.links, link.deep_view());
    if other != link.deep_view().peer {
        law_put_leaves_others(m.settings.links, link.deep_view(), other);
    }
}

/// A link that the user removes is gone; the links to other machines stay, and the
/// settings are stored.
#[verifier::spinoff_prover]
pub proof fn law_a_removed_link_is_gone(
    m: EngineModel,
    peer: DeviceId,
    other: Seq<char>,
    draw: u64,
    at: Moment,
)
    ensures
        ({
            let after = handled(m, Event::Command(Command::RemoveLink(peer)), draw, at);
            &&& find(after.settings.links, peer@) is None
            &&& other != peer@ ==> find(after.settings.links, other) == find(
                m.settings.links,
                other,
            )
            &&& after == (EngineModel {
                settings: SettingsModel { links: after.settings.links, ..m.settings },
                out: after.out,
                ..m
            })
            &&& after.out == m.out.push(ActionModel::SaveSettings).push(
                ActionModel::Publish(snapshot_of(after, at.unix)),
            )
        }),
{
    let after = handled(m, Event::Command(Command::RemoveLink(peer)), draw, at);
    lemma_shows_itself(after, at.unix);
    law_find_after_without(m.settings.links, peer@);
    if other != peer@ {
        law_without_leaves_others(m.settings.links, peer@, other);
    }
}

/// Forgetting a machine takes it out of the trust store together with its link, and stores
/// both; every other machine keeps its record and its link.
#[verifier::spinoff_prover]
pub proof fn law_a_machine_is_forgotten_alone(
    m: EngineModel,
    peer: DeviceId,
    other: Seq<char>,
    draw: u64,
    at: Moment,
)
    ensures
        ({
            let after = handled(m, Event::Command(Command::Forget(peer)), draw, at);
            &&& find(after.peers, peer@) is None
            &&& other != peer@ ==> find(after.peers, other) == find(m.peers, other) && find(
                after.settings.links,
                other,
            ) == find(m.settings.links, other)
            &&& holds(m.peers, peer@) ==> find(after.settings.links, peer@) is None && after.out
                == m.out.push(ActionModel::SavePeers).push(ActionModel::SaveSettings).push(
                ActionModel::Publish(snapshot_of(after, at.unix)),
            )
            &&& !holds(m.peers, peer@) ==> after.settings == m.settings && after.peers == m.peers
                && after.out == m.out.push(ActionModel::Publish(snapshot_of(after, at.unix)))
            &&& after == (EngineModel {
                peers: after.peers,
                settings: SettingsModel { links: after.settings.links, ..m.settings },
                out: after.out,
                ..m
            })
        }),
{
    reveal(forgotten);
    let after = handled(m, Event::Command(Command::Forget(peer)), draw, at);
    lemma_shows_itself(after, at.unix);
    law_find_after_without(m.settings.links, peer@);
    law_find_after_without(m.peers, peer@);
    if other != peer@ {
        law_without_leaves_others(m.settings.links, peer@, other);
        law_without_leaves_others(m.peers, peer@, other);
    }
}

/// Asking for a picture gives one, an address is dialled as it was given, the download
/// directory of the settings is the one that is opened, and asking to leave changes
/// nothing by itself.
#[verifier::spinoff_prover]
pub proof fn law_plain_commands_are_carried_out(
    m: EngineModel,
    address: crate::discovery::SocketAddress,
    name: Option<String>,
    draw: u64,
    at: Moment,
)
    ensures
        handled(m, Event::Command(Command::Refresh), draw, at) == (EngineModel {
            out: m.out.push(ActionModel::Publish(snapshot_of(m, at.unix))),
            ..m
        }),
        handled(m, Event::Command(Command::ConnectAddress { address, name }), draw, at) == (
        EngineModel {
            out: m.out.push(
                ActionModel::Dial {
                    address: address.deep_view(),
                    name: name.deep_view(),
                    expected: None,
                },
            ),
            ..m
        }),
        handled(m, Event::Command(Command::OpenDownloadDir), draw, at) == (EngineModel {
            out: m.out.push(ActionModel::OpenFolder(m.settings.transfer.download_dir)),
            ..m
        }),
        handled(m, Event::Command(Command::Shutdown), draw, at) == m,
{
}

} // verus!
