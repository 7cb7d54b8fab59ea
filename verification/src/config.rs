//! Settings and the store of trusted peers.

use vstd::prelude::*;
use vstd::string::*;

use crate::bytes::comes_back;
use crate::geom::{DisplayInfo, Double, Side};
use crate::identity::DeviceId;
use crate::keyed::{
    find, holds, index_of, law_find_after_put, law_find_after_without, law_put_leaves_others,
    law_without_leaves_others, position, put, remove_all, replace_or_push, without, Entry, Keyed,
};
use crate::paths::{DirPath, DirPathModel};
use crate::protocol::OsKind;
use crate::DEFAULT_PORT;

verus! {

/// Describes how one neighbouring machine is arranged relative to this one.
///
/// `local_range` and `remote_range` are fractions (0.0 - 1.0) along the shared
/// edge, which lets a 27" display be aligned with only the lower half of a
/// stacked display.
#[derive(Debug, PartialEq)]
pub struct EdgeLink {
    pub peer: DeviceId,
    pub peer_name: String,
    /// Edge of this machine's desktop that the peer sits beyond.
    pub local_side: Side,
    /// Edge of the peer's desktop that faces this machine.
    pub remote_side: Side,
    pub local_range: (Double, Double),
    pub remote_range: (Double, Double),
    pub enabled: bool,
}

#[verifier::ext_equal]
pub struct EdgeLinkModel {
    pub peer: Seq<char>,
    pub peer_name: Seq<char>,
    pub local_side: Side,
    pub remote_side: Side,
    pub local_range: (Double, Double),
    pub remote_range: (Double, Double),
    pub enabled: bool,
}

impl DeepView for EdgeLink {
    type V = EdgeLinkModel;

    open spec fn deep_view(&self) -> EdgeLinkModel {
        EdgeLinkModel {
            peer: self.peer@,
            peer_name: self.peer_name@,
            local_side: self.local_side,
            remote_side: self.remote_side,
            local_range: self.local_range,
            remote_range: self.remote_range,
            enabled: self.enabled,
        }
    }
}

impl Keyed for EdgeLinkModel {
    type Key = Seq<char>;

    open spec fn key(&self) -> Seq<char> {
        self.peer
    }
}

impl Entry for EdgeLink {
    type Id = DeviceId;

    open spec fn id_view(id: DeviceId) -> Seq<char> {
        id@
    }

    fn has_id(&self, id: &DeviceId) -> (found: bool) {
        self.peer.same(id)
    }
}

impl Clone for EdgeLink {
    fn clone(&self) -> (out: Self)
        ensures
            out == *self,
    {
        EdgeLink {
            peer: self.peer.clone(),
            peer_name: self.peer_name.clone(),
            local_side: self.local_side,
            remote_side: self.remote_side,
            local_range: self.local_range,
            remote_range: self.remote_range,
            enabled: self.enabled,
        }
    }
}

/// The whole length of an edge: from 0.0 to 1.0.
pub open spec fn whole_edge() -> (Double, Double) {
    (Double { bits: Double::ZERO_BITS }, Double { bits: Double::ONE_BITS })
}

/// The range that covers the whole edge.
pub fn full_range() -> (out: (Double, Double))
    ensures
        out == whole_edge(),
{
    (Double { bits: Double::ZERO_BITS }, Double { bits: Double::ONE_BITS })
}

/// The value of a switch that a stored link leaves out.
pub fn yes() -> (out: bool)
    ensures
        out,
{
    true
}

/// A link to `peer` beyond `local_side`: facing edges, whole length, switched on.
pub open spec fn plain_link(
    peer: Seq<char>,
    peer_name: Seq<char>,
    local_side: Side,
) -> EdgeLinkModel {
    EdgeLinkModel {
        peer,
        peer_name,
        local_side,
        remote_side: local_side.across(),
        local_range: whole_edge(),
        remote_range: whole_edge(),
        enabled: true,
    }
}

impl EdgeLink {
    pub fn new(peer: DeviceId, peer_name: &str, local_side: Side) -> (out: Self)
        ensures
            out.deep_view() == plain_link(peer@, peer_name@, local_side),
    {
        EdgeLink {
            peer,
            peer_name: peer_name.to_owned(),
            local_side,
            remote_side: local_side.opposite(),
            local_range: full_range(),
            remote_range: full_range(),
            enabled: yes(),
        }
    }
}

#[derive(Clone, Copy, Debug, PartialEq, Eq, Structural)]
pub enum ReleaseHotkey {
    /// Two taps of Scroll Lock inside 400 ms. Chosen because the key is rarely
    /// used for anything else and exists on both Windows and macOS keyboards.
    ScrollLockTwice,
    /// Escape while holding ctrl+alt.
    CtrlAltEscape,
    /// Escape while holding ctrl+alt+cmd, the macOS friendly variant.
    CtrlAltCmdEscape,
    Disabled,
}

impl Default for ReleaseHotkey {
    fn default() -> (out: Self)
        ensures
            out == ReleaseHotkey::ScrollLockTwice,
    {
        ReleaseHotkey::ScrollLockTwice
    }
}

impl ReleaseHotkey {
    /// The name of a hotkey on screen.
    pub open spec fn title(self) -> Seq<char> {
        match self {
            ReleaseHotkey::ScrollLockTwice => "Scroll Lock twice"@,
            ReleaseHotkey::CtrlAltEscape => "Ctrl + Alt + Esc"@,
            ReleaseHotkey::CtrlAltCmdEscape => "Ctrl + Alt + Cmd + Esc"@,
            ReleaseHotkey::Disabled => "Disabled"@,
        }
    }

    pub fn label(self) -> (out: &'static str)
        ensures
            out@ == self.title(),
    {
        match self {
            ReleaseHotkey::ScrollLockTwice => "Scroll Lock twice",
            ReleaseHotkey::CtrlAltEscape => "Ctrl + Alt + Esc",
            ReleaseHotkey::CtrlAltCmdEscape => "Ctrl + Alt + Cmd + Esc",
            ReleaseHotkey::Disabled => "Disabled",
        }
    }
}

#[derive(Clone, Copy, Debug, PartialEq, Eq, Structural)]
pub struct InputSettings {
    /// Master switch. While false, UnionDesk never hooks the input devices.
    pub enabled: bool,
    /// Multiplier applied to relayed mouse movement.
    pub mouse_speed: Double,
    pub relay_keyboard: bool,
    pub release_hotkey: ReleaseHotkey,
    /// How close to the edge the cursor must be before a handover is armed.
    pub edge_armed_pixels: Double,
}

impl Default for InputSettings {
    fn default() -> (out: Self)
        ensures
            out == (InputSettings {
                enabled: false,
                mouse_speed: Double { bits: Double::ONE_BITS },
                relay_keyboard: true,
                release_hotkey: ReleaseHotkey::ScrollLockTwice,
                edge_armed_pixels: Double { bits: Double::TWO_BITS },
            }),
    {
        InputSettings {
            enabled: false,
            mouse_speed: Double { bits: Double::ONE_BITS },
            relay_keyboard: true,
            release_hotkey: ReleaseHotkey::default(),
            edge_armed_pixels: Double { bits: Double::TWO_BITS },
        }
    }
}

#[derive(Clone, Copy, Debug, PartialEq, Eq, Structural)]
pub struct ClipboardSettings {
    pub enabled: bool,
    pub sync_text: bool,
    pub sync_images: bool,
    pub poll_interval_ms: u64,
    /// Payloads above this size are ignored instead of being relayed.
    pub max_bytes: usize,
    /// Also relay while this machine is not the active controller.
    pub always: bool,
}

impl Default for ClipboardSettings {
    fn default() -> (out: Self)
        ensures
            out == (ClipboardSettings {
                enabled: true,
                sync_text: true,
                sync_images: true,
                poll_interval_ms: 350,
                max_bytes: 0x80_0000,
                always: true,
            }),
    {
        ClipboardSettings {
            enabled: true,
            sync_text: true,
            sync_images: true,
            poll_interval_ms: 350,
            max_bytes: 8 * 1024 * 1024,
            always: true,
        }
    }
}

#[derive(Debug, PartialEq)]
pub struct TransferSettings {
    pub enabled: bool,
    pub download_dir: DirPath,
    pub auto_accept_trusted: bool,
    pub overwrite_existing: bool,
}

#[verifier::ext_equal]
pub struct TransferSettingsModel {
    pub enabled: bool,
    pub download_dir: DirPathModel,
    pub auto_accept_trusted: bool,
    pub overwrite_existing: bool,
}

impl DeepView for TransferSettings {
    type V = TransferSettingsModel;

    open spec fn deep_view(&self) -> TransferSettingsModel {
        TransferSettingsModel {
            enabled: self.enabled,
            download_dir: self.download_dir.deep_view(),
            auto_accept_trusted: self.auto_accept_trusted,
            overwrite_existing: self.overwrite_existing,
        }
    }
}

impl Clone for TransferSettings {
    fn clone(&self) -> (out: Self)
        ensures
            out.deep_view() == self.deep_view(),
    {
        TransferSettings {
            enabled: self.enabled,
            download_dir: self.download_dir.clone(),
            auto_accept_trusted: self.auto_accept_trusted,
            overwrite_existing: self.overwrite_existing,
        }
    }
}

impl TransferSettings {
    /// The settings of a first run that saves to `download_dir`.
    pub fn with_download_dir(download_dir: DirPath) -> (out: Self)
        ensures
            out.deep_view() == (TransferSettingsModel {
                enabled: true,
                download_dir: download_dir.deep_view(),
                auto_accept_trusted: true,
                overwrite_existing: false,
            }),
    {
        TransferSettings {
            enabled: true,
            download_dir,
            auto_accept_trusted: true,
            overwrite_existing: false,
        }
    }
}

#[derive(Debug, PartialEq)]
pub struct Settings {
    pub device_name: String,
    pub port: u16,
    pub discoverable: bool,
    pub input: InputSettings,
    pub clipboard: ClipboardSettings,
    pub transfer: TransferSettings,
    pub links: Vec<EdgeLink>,
}

#[verifier::ext_equal]
pub struct SettingsModel {
    pub device_name: Seq<char>,
    pub port: u16,
    pub discoverable: bool,
    pub input: InputSettings,
    pub clipboard: ClipboardSettings,
    pub transfer: TransferSettingsModel,
    pub links: Seq<EdgeLinkModel>,
}

impl DeepView for Settings {
    type V = SettingsModel;

    open spec fn deep_view(&self) -> SettingsModel {
        SettingsModel {
            device_name: self.device_name@,
            port: self.port,
            discoverable: self.discoverable,
            input: self.input,
            clipboard: self.clipboard,
            transfer: self.transfer.deep_view(),
            links: self.links.deep_view(),
        }
    }
}

impl Clone for Settings {
    fn clone(&self) -> (out: Self)
        ensures
            out.deep_view() == self.deep_view(),
    {
        let links = self.links.clone();
        assert(links.deep_view() =~= self.links.deep_view());
        Settings {
            device_name: self.device_name.clone(),
            port: self.port,
            discoverable: self.discoverable,
            input: self.input,
            clipboard: self.clipboard,
            transfer: self.transfer.clone(),
            links,
        }
    }
}

/// The settings of a first run on a machine with the given name and download
/// directory.
pub open spec fn first_settings(device_name: Seq<char>, download_dir: DirPathModel) -> SettingsModel {
    SettingsModel {
        device_name,
        port: DEFAULT_PORT,
        discoverable: true,
        input: InputSettings {
            enabled: false,
            mouse_speed: Double { bits: Double::ONE_BITS },
            relay_keyboard: true,
            release_hotkey: ReleaseHotkey::ScrollLockTwice,
            edge_armed_pixels: Double { bits: Double::TWO_BITS },
        },
        clipboard: ClipboardSettings {
            enabled: true,
            sync_text: true,
            sync_images: true,
            poll_interval_ms: 350,
            max_bytes: 0x80_0000,
            always: true,
        },
        transfer: TransferSettingsModel {
            enabled: true,
            download_dir,
            auto_accept_trusted: true,
            overwrite_existing: false,
        },
        links: Seq::empty(),
    }
}

impl Settings {
    /// The settings of a first run.
    pub fn first_run(device_name: String, download_dir: DirPath) -> (out: Self)
        ensures
            out.deep_view() == first_settings(device_name@, download_dir.deep_view()),
    {
        let links: Vec<EdgeLink> = Vec::new();
        assert(links.deep_view() =~= Seq::<EdgeLinkModel>::empty());
        Settings {
            device_name,
            port: DEFAULT_PORT,
            discoverable: true,
            input: InputSettings::default(),
            clipboard: ClipboardSettings::default(),
            transfer: TransferSettings::with_download_dir(download_dir),
            links,
        }
    }

    /// The settings found on disk, or those of a first run.
    pub fn load(stored: Option<Settings>, device_name: String, download_dir: DirPath) -> (out: Self)
        ensures
            out.deep_view() == match stored {
                Some(settings) => settings.deep_view(),
                None => first_settings(device_name@, download_dir.deep_view()),
            },
    {
        match stored {
            Some(settings) => settings,
            None => Settings::first_run(device_name, download_dir),
        }
    }

    pub fn link_for(&self, peer: &DeviceId) -> (out: Option<&EdgeLink>)
        ensures
            out.deep_view() == find(self.deep_view().links, peer@),
    {
        let at: usize = position(&self.links, peer);
        if at < self.links.len() {
            Some(&self.links[at])
        } else {
            None
        }
    }

    pub fn set_link(&mut self, link: EdgeLink)
        ensures
            final(self).deep_view() == (SettingsModel {
                links: put(old(self).deep_view().links, link.deep_view()),
                ..old(self).deep_view()
            }),
    {
        let peer = link.peer.clone();
        replace_or_push(&mut self.links, &peer, link);
    }

    pub fn remove_link(&mut self, peer: &DeviceId)
        ensures
            final(self).deep_view() == (SettingsModel {
                links: without(old(self).deep_view().links, peer@),
                ..old(self).deep_view()
            }),
    {
        let _ = remove_all(&mut self.links, peer);
    }
}

/// A machine we have paired with. The public key is pinned, which is what makes
/// reconnects silent and MITM attempts detectable.
#[derive(Debug, PartialEq)]
pub struct PeerRecord {
    pub device_id: DeviceId,
    pub name: String,
    pub public_key: String,
    pub fingerprint: String,
    pub os: OsKind,
    pub last_seen: Option<u64>,
    pub last_address: Option<String>,
}

#[verifier::ext_equal]
pub struct PeerRecordModel {
    pub device_id: Seq<char>,
    pub name: Seq<char>,
    pub public_key: Seq<char>,
    pub fingerprint: Seq<char>,
    pub os: OsKind,
    pub last_seen: Option<u64>,
    pub last_address: Option<Seq<char>>,
}

impl DeepView for PeerRecord {
    type V = PeerRecordModel;

    open spec fn deep_view(&self) -> PeerRecordModel {
        PeerRecordModel {
            device_id: self.device_id@,
            name: self.name@,
            public_key: self.public_key@,
            fingerprint: self.fingerprint@,
            os: self.os,
            last_seen: self.last_seen,
            last_address: self.last_address.deep_view(),
        }
    }
}

impl Keyed for PeerRecordModel {
    type Key = Seq<char>;

    open spec fn key(&self) -> Seq<char> {
        self.device_id
    }
}

impl Entry for PeerRecord {
    type Id = DeviceId;

    open spec fn id_view(id: DeviceId) -> Seq<char> {
        id@
    }

    fn has_id(&self, id: &DeviceId) -> (found: bool) {
        self.device_id.same(id)
    }
}

#[derive(Debug, PartialEq)]
pub struct PeerStore {
    pub peers: Vec<PeerRecord>,
}

impl DeepView for PeerStore {
    type V = Seq<PeerRecordModel>;

    open spec fn deep_view(&self) -> Seq<PeerRecordModel> {
        self.peers.deep_view()
    }
}

/// The records of the store found on disk; none where there is no store.
pub open spec fn loaded_peers(stored: Option<Seq<PeerRecordModel>>) -> Seq<PeerRecordModel> {
    match stored {
        Some(peers) => peers,
        None => Seq::empty(),
    }
}

/// A saved store is loaded with the same records in the same order, in whatever form
/// stores are written, as long as what was written reads back; without a file the store is
/// empty.
pub proof fn law_a_saved_store_comes_back(
    peers: Seq<PeerRecordModel>,
    write: spec_fn(Seq<PeerRecordModel>) -> Seq<u8>,
    read: spec_fn(Seq<u8>) -> Option<Seq<PeerRecordModel>>,
)
    requires
        comes_back(write, read, peers),
    ensures
        loaded_peers(read(write(peers))) == peers,
        loaded_peers(None) == Seq::<PeerRecordModel>::empty(),
{
}

/// Whether `key` is the key pinned for `id`.
pub open spec fn trusted_key(peers: Seq<PeerRecordModel>, id: Seq<char>, key: Seq<char>) -> bool {
    find(peers, id) matches Some(record) && record.public_key == key
}

/// What storing a record means for the pinned key.
pub open spec fn key_change(peers: Seq<PeerRecordModel>, record: PeerRecordModel) -> KeyChange {
    match find(peers, record.device_id) {
        None => KeyChange::New,
        Some(stored) => if stored.public_key == record.public_key {
            KeyChange::Unchanged
        } else {
            KeyChange::Replaced
        },
    }
}

impl PeerStore {
    /// A store without peers.
    pub fn new() -> (out: Self)
        ensures
            out.deep_view() == Seq::<PeerRecordModel>::empty(),
    {
        let peers: Vec<PeerRecord> = Vec::new();
        assert(peers.deep_view() =~= Seq::<PeerRecordModel>::empty());
        PeerStore { peers }
    }

    /// The store found on disk, or an empty one.
    pub fn load(stored: Option<PeerStore>) -> (out: Self)
        ensures
            out.deep_view() == loaded_peers(stored.deep_view()),
    {
        match stored {
            Some(store) => store,
            None => PeerStore::new(),
        }
    }

    pub fn get(&self, id: &DeviceId) -> (out: Option<&PeerRecord>)
        ensures
            out.deep_view() == find(self.deep_view(), id@),
    {
        let at: usize = position(&self.peers, id);
        if at < self.peers.len() {
            Some(&self.peers[at])
        } else {
            None
        }
    }

    pub fn get_mut(&mut self, id: &DeviceId) -> (out: Option<&mut PeerRecord>)
        ensures
            match out {
                Some(record) => {
                    &&& holds(old(self).deep_view(), id@)
                    &&& record.deep_view() == old(self).deep_view()[index_of(
                        old(self).deep_view(),
                        id@,
                    )]
                    &&& final(self).deep_view() == old(self).deep_view().update(
                        index_of(old(self).deep_view(), id@),
                        final(record).deep_view(),
                    )
                },
                None => !holds(old(self).deep_view(), id@) && *final(self) == *old(self),
            },
    {
        let at: usize = position(&self.peers, id);
        if at < self.peers.len() {
            let ghost before = self.peers@;
            let ghost models = self.peers.deep_view();
            let record = &mut self.peers[at];
            proof {
                let after = before.update(at as int, *final(record));
                assert(Seq::new(after.len(), |i: int| after[i].deep_view()) =~= models.update(
                    at as int,
                    final(record).deep_view(),
                ));
            }
            Some(record)
        } else {
            None
        }
    }

    pub fn is_trusted_key(&self, id: &DeviceId, public_key: &str) -> (out: bool)
        ensures
            out == trusted_key(self.deep_view(), id@, public_key@),
    {
        match self.get(id) {
            Some(record) => crate::text::same_text(record.public_key.as_str(), public_key),
            None => false,
        }
    }

    /// Inserts or updates a record and reports whether the stored key had to
    /// change, which the caller surfaces as a warning.
    pub fn upsert(&mut self, record: PeerRecord) -> (out: KeyChange)
        ensures
            final(self).deep_view() == put(old(self).deep_view(), record.deep_view()),
            out == key_change(old(self).deep_view(), record.deep_view()),
    {
        let id = record.device_id.clone();
        let at: usize = position(&self.peers, &id);
        let change = if at < self.peers.len() {
            if self.peers[at].public_key == record.public_key {
                KeyChange::Unchanged
            } else {
                KeyChange::Replaced
            }
        } else {
            KeyChange::New
        };
        replace_or_push(&mut self.peers, &id, record);
        change
    }

    pub fn remove(&mut self, id: &DeviceId) -> (out: bool)
        ensures
            final(self).deep_view() == without(old(self).deep_view(), id@),
            out == holds(old(self).deep_view(), id@),
    {
        remove_all(&mut self.peers, id)
    }
}

#[derive(Clone, Copy, Debug, PartialEq, Eq, Structural)]
pub enum KeyChange {
    New,
    Unchanged,
    Replaced,
}

/// A stored record is found under its id, its key is the trusted one and no other
/// key is; storing it again changes no key.
pub proof fn law_stored_peer_is_trusted(peers: Seq<PeerRecordModel>, record: PeerRecordModel)
    ensures
        find(put(peers, record), record.device_id) == Some(record),
        forall|key: Seq<char>|
            trusted_key(put(peers, record), record.device_id, key) <==> key == record.public_key,
        key_change(put(peers, record), record) == KeyChange::Unchanged,
{
    law_find_after_put(peers, record);
}

/// After a peer was removed no key is trusted for it, and the trust in every other
/// peer is as before.
pub proof fn law_removed_peer_is_not_trusted(
    peers: Seq<PeerRecordModel>,
    id: Seq<char>,
    other: Seq<char>,
    key: Seq<char>,
)
    ensures
        !trusted_key(without(peers, id), id, key),
        other != id ==> trusted_key(without(peers, id), other, key) == trusted_key(
            peers,
            other,
            key,
        ),
{
    law_find_after_without(peers, id);
    if other != id {
        law_without_leaves_others(peers, id, other);
    }
}

/// Storing one peer leaves the trust in every other peer as it was.
pub proof fn law_storing_leaves_other_trust(
    peers: Seq<PeerRecordModel>,
    record: PeerRecordModel,
    other: Seq<char>,
    key: Seq<char>,
)
    requires
        other != record.device_id,
    ensures
        trusted_key(put(peers, record), other, key) == trusted_key(peers, other, key),
{
    law_put_leaves_others(peers, record, other);
}

/// Everything the engine needs to know about the local machine at startup.
#[derive(Debug, PartialEq)]
pub struct LocalDisplays {
    pub displays: Vec<DisplayInfo>,
}

/// The first of the given names that is present and not blank, or the product's own.
pub open spec fn chosen_name(
    computer: Option<Seq<char>>,
    host: Option<Seq<char>>,
    command: Option<Seq<char>>,
) -> Seq<char> {
    let announced = if computer is Some {
        computer
    } else {
        host
    };
    if announced is Some && announced->Some_0.len() > 0 {
        announced->Some_0
    } else if command is Some && crate::text::trimmed(command->Some_0).len() > 0 {
        crate::text::trimmed(command->Some_0)
    } else {
        "UnionDesk device"@
    }
}

/// Picks the name of this machine from what its environment and the `hostname`
/// command say. The command is asked last, and its answer is trimmed.
pub fn default_device_name(
    computer: Option<String>,
    host: Option<String>,
    command: Option<String>,
) -> (out: String)
    ensures
        out@ == chosen_name(computer.deep_view(), host.deep_view(), command.deep_view()),
{
    let announced = match computer {
        Some(name) => Some(name),
        None => host,
    };
    if let Some(name) = announced {
        if name.as_str().unicode_len() > 0 {
            return name;
        }
    }
    if let Some(name) = command {
        let short = crate::text::trim(name.as_str());
        if short.as_str().unicode_len() > 0 {
            return short;
        }
    }
    "UnionDesk device".to_owned()
}

} // verus!
