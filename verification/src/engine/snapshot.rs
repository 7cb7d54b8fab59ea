//! The picture of the world that the UI draws.

use vstd::prelude::*;
use vstd::string::*;

use crate::config::{EdgeLink, PeerRecordModel};
use crate::discovery::{Discovered, DiscoveredModel};
use crate::engine::state::{
    ActionModel, ControlModel, ControlState, Engine, EngineModel, Session, SessionModel,
    TransferEntry, TransferEntryModel,
};
use crate::identity::DeviceId;
use crate::keyed::{
    distinct, find, holds, lemma_distinct_joined, lemma_holds, lemma_holds_joined, position, Keyed,
};
use crate::lists::{empty_list, push_item};
use crate::sorted::{
    in_rank_order, law_sorted_is_in_order, law_sorting_keeps_the_items, law_sorting_keeps_the_keys,
    orders, sort_items, Rankable, Ranked,
};
use crate::text::{
    cat2, cat5, comes_before, decimal, format_decimal, law_order_is_negatively_transitive,
    law_order_is_total, precedes, up_to,
};
use crate::transfer::{average_rate, elapsed_secs, incoming_view, outgoing_view};
use crate::view::{
    clone_text, ConnectionModel, ConnectionState, ControlModeModel, ControlModeView, ControlView,
    ControlViewModel, InputStatusModel, InputStatusView, PairingView, PairingViewModel, PeerView,
    PeerViewModel, PlatformModel, PlatformView, Snapshot, SnapshotModel, TransferView,
    TransferViewModel,
};

verus! {

/// The lower case of a text.
pub uninterp spec fn lower_case(text: Seq<char>) -> Seq<char>;

/// `str::to_lowercase`. Claims that the result depends on the text alone.
pub assume_specification[ str::to_lowercase ](s: &str) -> (out: String)
    ensures
        out@ == lower_case(s@),
;

impl Ranked for PeerViewModel {
    /// Machines are listed by name, whatever the case of its letters.
    open spec fn before(&self, other: &Self) -> bool {
        precedes(lower_case(self.name), lower_case(other.name))
    }
}

impl Rankable for PeerView {
    fn goes_before(&self, other: &Self) -> (out: bool) {
        comes_before(
            self.name.as_str().to_lowercase().as_str(),
            other.name.as_str().to_lowercase().as_str(),
        )
    }
}

/// Names put machines in an order.
proof fn lemma_names_order_machines()
    ensures
        orders::<PeerViewModel>(),
{
    assert forall|a: PeerViewModel, b: PeerViewModel| #[trigger] a.before(&b) implies !b.before(
        &a,
    ) by {
        law_order_is_total(lower_case(a.name), lower_case(b.name));
    }
    assert forall|a: PeerViewModel, b: PeerViewModel, c: PeerViewModel|
        #![trigger a.before(&b), a.before(&c)]
        #![trigger a.before(&b), c.before(&b)]
        a.before(&b) implies a.before(&c) || c.before(&b) by {
        law_order_is_negatively_transitive(
            lower_case(a.name),
            lower_case(b.name),
            lower_case(c.name),
        );
    }
}

impl Ranked for TransferViewModel {
    /// The newest transfer is listed first.
    open spec fn before(&self, other: &Self) -> bool {
        self.started_at > other.started_at
    }
}

impl Rankable for TransferView {
    fn goes_before(&self, other: &Self) -> (out: bool) {
        self.started_at > other.started_at
    }
}

/// How the displays of a peer are summed up.
pub open spec fn display_summary(extent: Option<(u64, u64)>, count: nat) -> Option<Seq<char>> {
    match extent {
        None => None,
        Some((width, height)) => Some(
            decimal(width as nat) + "x"@ + decimal(height as nat) + " across "@ + decimal(count)
                + " display(s)"@,
        ),
    }
}

/// Sums up the displays of a peer.
pub fn summarize_displays(session: &Session) -> (out: Option<String>)
    ensures
        out.deep_view() == display_summary(
            session.deep_view().extent,
            session.deep_view().displays.len(),
        ),
{
    match session.extent {
        None => None,
        Some((width, height)) => {
            let size = cat5(
                format_decimal(width).as_str(),
                "x",
                format_decimal(height).as_str(),
                " across ",
                format_decimal(session.displays.len() as u64).as_str(),
            );
            Some(cat2(size.as_str(), " display(s)"))
        },
    }
}

/// How a pairing is shown.
pub open spec fn pairing_shown(session: SessionModel) -> Option<PairingViewModel> {
    match session.pairing {
        None => None,
        Some(pairing) => Some(
            PairingViewModel {
                code_to_share: pairing.code_to_share,
                awaiting_code: pairing.awaiting_code,
                remote_fingerprint: session.info.fingerprint,
            },
        ),
    }
}

/// Shows a pairing.
pub fn pairing_view(session: &Session) -> (out: Option<PairingView>)
    ensures
        out.deep_view() == pairing_shown(session.deep_view()),
{
    match &session.pairing {
        None => None,
        Some(pairing) => Some(
            PairingView {
                code_to_share: clone_text(&pairing.code_to_share),
                awaiting_code: pairing.awaiting_code,
                remote_fingerprint: session.info.fingerprint.clone(),
            },
        ),
    }
}

/// The speed to show for a transfer.
pub open spec fn shown_rate(started_at: u64, done: u64, unix: u64) -> u64 {
    (done as int / elapsed_secs(started_at, unix) as int) as u64
}

/// How a transfer is shown.
pub open spec fn transfer_shown(entry: TransferEntryModel, unix: u64) -> TransferViewModel {
    match entry {
        TransferEntryModel::Outgoing { transfer, state } => outgoing_view(
            transfer,
            state,
            shown_rate(transfer.started_at, transfer.done_bytes, unix),
        ),
        TransferEntryModel::Incoming { transfer, state, error } => incoming_view(
            transfer,
            state,
            shown_rate(transfer.started_at, transfer.done_bytes, unix),
            error,
        ),
    }
}

impl TransferEntry {
    pub fn view(&self, unix: u64) -> (out: TransferView)
        ensures
            out.deep_view() == transfer_shown(self.deep_view(), unix),
    {
        match self {
            TransferEntry::Outgoing { transfer, state } => transfer.view(
                *state,
                average_rate(transfer.started_at, transfer.done_bytes, unix),
            ),
            TransferEntry::Incoming { transfer, state, error } => transfer.view(
                *state,
                average_rate(transfer.started_at, transfer.done_bytes, unix),
                clone_text(error),
            ),
        }
    }
}

/// How a machine that discovery sees is shown.
pub open spec fn found_shown(m: EngineModel, found: DiscoveredModel) -> PeerViewModel {
    let session = find(m.sessions, found.device_id);
    let record = find(m.peers, found.device_id);
    PeerViewModel {
        device_id: found.device_id,
        name: match session {
            Some(s) => s.info.name,
            None => found.name,
        },
        os: match session {
            Some(s) => s.info.os,
            None => found.os,
        },
        fingerprint: match record {
            Some(r) => r.fingerprint,
            None => found.fingerprint,
        },
        trusted: record is Some,
        connection: match session {
            Some(s) => s.state,
            None => ConnectionModel::Offline,
        },
        discovered_via: Some(found.source.title()),
        address: match found.best() {
            Some(address) => Some(address.shown()),
            None => None,
        },
        last_seen: Some(found.last_seen),
        display_count: match session {
            Some(s) => s.displays.len(),
            None => 0,
        },
        display_summary: match session {
            Some(s) => display_summary(s.extent, s.displays.len()),
            None => None,
        },
        pairing: match session {
            Some(s) => pairing_shown(s),
            None => None,
        },
        link: find(m.settings.links, found.device_id),
    }
}

/// How a connected machine that discovery does not see is shown.
pub open spec fn session_shown(m: EngineModel, session: SessionModel, unix: u64) -> PeerViewModel {
    PeerViewModel {
        device_id: session.info.device_id,
        name: session.info.name,
        os: session.info.os,
        fingerprint: session.info.fingerprint,
        trusted: session.trusted,
        connection: session.state,
        discovered_via: None,
        address: None,
        last_seen: Some(unix),
        display_count: session.displays.len(),
        display_summary: display_summary(session.extent, session.displays.len()),
        pairing: pairing_shown(session),
        link: find(m.settings.links, session.info.device_id),
    }
}

/// How a trusted machine that is away is shown.
pub open spec fn record_shown(m: EngineModel, record: PeerRecordModel) -> PeerViewModel {
    PeerViewModel {
        device_id: record.device_id,
        name: record.name,
        os: record.os,
        fingerprint: record.fingerprint,
        trusted: true,
        connection: ConnectionModel::Offline,
        discovered_via: None,
        address: record.last_address,
        last_seen: record.last_seen,
        display_count: 0,
        display_summary: None,
        pairing: None,
        link: find(m.settings.links, record.device_id),
    }
}

/// The machines that discovery sees.
pub open spec fn found_views(m: EngineModel) -> Seq<PeerViewModel> {
    m.table.map_values(|found: DiscoveredModel| found_shown(m, found))
}

/// Of the first `n` sessions, those with machines that discovery does not see.
pub open spec fn session_views(m: EngineModel, n: nat, unix: u64) -> Seq<PeerViewModel>
    decreases n,
{
    if n == 0 {
        Seq::empty()
    } else {
        let before = session_views(m, (n - 1) as nat, unix);
        let session = m.sessions[n - 1];
        if holds(m.table, session.info.device_id) {
            before
        } else {
            before.push(session_shown(m, session, unix))
        }
    }
}

/// Of the first `n` trusted machines, those that are neither seen nor connected.
pub open spec fn record_views(m: EngineModel, n: nat) -> Seq<PeerViewModel>
    decreases n,
{
    if n == 0 {
        Seq::empty()
    } else {
        let before = record_views(m, (n - 1) as nat);
        let record = m.peers[n - 1];
        if holds(m.table, record.device_id) || holds(m.sessions, record.device_id) {
            before
        } else {
            before.push(record_shown(m, record))
        }
    }
}

/// All machines worth showing, in no particular order.
pub open spec fn all_peer_views(m: EngineModel, unix: u64) -> Seq<PeerViewModel> {
    found_views(m) + session_views(m, m.sessions.len(), unix) + record_views(m, m.peers.len())
}

/// The name by which a machine is known: that of its session, that under which it is
/// trusted, or the start of its id.
pub open spec fn known_name(m: EngineModel, peer: Seq<char>) -> Seq<char> {
    match find(m.sessions, peer) {
        Some(session) => session.info.name,
        None => match find(m.peers, peer) {
            Some(record) => record.name,
            None => up_to(peer, '-'),
        },
    }
}

/// How the control state is shown.
pub open spec fn mode_shown(m: EngineModel) -> ControlModeModel {
    match m.control {
        ControlModel::Local => ControlModeModel::Local,
        ControlModel::Controlling { peer, .. } => ControlModeModel::Controlling {
            device_id: peer,
            name: known_name(m, peer),
        },
        ControlModel::Controlled { peer, .. } => ControlModeModel::Controlled {
            device_id: peer,
            name: known_name(m, peer),
        },
    }
}

/// The picture of the world at the given time.
#[verifier::opaque]
pub open spec fn snapshot_of(m: EngineModel, unix: u64) -> SnapshotModel {
    SnapshotModel {
        device: m.device,
        settings: m.settings,
        peers: in_rank_order(all_peer_views(m, unix)),
        control: ControlViewModel {
            mode: mode_shown(m),
            release_hotkey: m.settings.input.release_hotkey.title(),
            sharing_enabled: m.settings.input.enabled,
        },
        transfers: in_rank_order(
            m.transfers.map_values(|entry: TransferEntryModel| transfer_shown(entry, unix)),
        ),
        input: InputStatusModel {
            backend_available: m.input_ready,
            enabled: m.settings.input.enabled,
            capture_active: m.capture_active,
            permission_hint: m.permission_hint,
        },
        clipboard: m.clipboard_status,
        platform: PlatformModel { os: m.os, displays: m.displays, desktop: m.desktop },
        listening_port: if m.listening_port == 0 {
            m.settings.port
        } else {
            m.listening_port
        },
    }
}

impl Keyed for PeerViewModel {
    type Key = Seq<char>;

    open spec fn key(&self) -> Seq<char> {
        self.device_id
    }
}

/// Whether a machine is worth showing: discovery sees it, it is connected, or it is
/// trusted.
pub open spec fn worth_showing(m: EngineModel, id: Seq<char>) -> bool {
    holds(m.table, id) || holds(m.sessions, id) || holds(m.peers, id)
}

proof fn lemma_found_views(m: EngineModel)
    ensures
        forall|id: Seq<char>| #[trigger] holds(found_views(m), id) <==> holds(m.table, id),
        distinct(m.table) ==> distinct(found_views(m)),
{
    let views = found_views(m);
    assert forall|id: Seq<char>| #[trigger] holds(views, id) <==> holds(m.table, id) by {
        lemma_holds(views, id);
        lemma_holds(m.table, id);
        if holds(views, id) {
            let i = choose|i: int| 0 <= i < views.len() && (#[trigger] views[i]).key() == id;
            assert(m.table[i].key() == id);
        }
        if holds(m.table, id) {
            let i = choose|i: int| 0 <= i < m.table.len() && (#[trigger] m.table[i]).key() == id;
            assert(views[i].key() == id);
        }
    }
    if distinct(m.table) {
        assert forall|i: int, j: int| 0 <= i < j < views.len() implies (#[trigger] views[i]).key()
            != (#[trigger] views[j]).key() by {
            assert(m.table[i].key() != m.table[j].key());
        }
    }
}

proof fn lemma_session_views(m: EngineModel, n: nat, unix: u64)
    requires
        n <= m.sessions.len(),
    ensures
        forall|id: Seq<char>| #[trigger]
            holds(session_views(m, n, unix), id) <==> holds(m.sessions.take(n as int), id)
                && !holds(m.table, id),
        distinct(m.sessions) ==> distinct(session_views(m, n, unix)),
    decreases n,
{
    let views = session_views(m, n, unix);
    if n == 0 {
        assert forall|id: Seq<char>| #[trigger] holds(views, id) <==> holds(
            m.sessions.take(0),
            id,
        ) && !holds(m.table, id) by {
            lemma_holds(views, id);
            lemma_holds(m.sessions.take(0), id);
        }
    } else {
        lemma_session_views(m, (n - 1) as nat, unix);
        let before = session_views(m, (n - 1) as nat, unix);
        let session = m.sessions[n - 1];
        let peer = session.info.device_id;
        let head = m.sessions.take(n - 1);
        let view = seq![session_shown(m, session, unix)];
        assert(m.sessions.take(n as int) =~= head + seq![session]);
        assert(before.push(view[0]) =~= before + view);
        assert forall|id: Seq<char>| #[trigger] holds(views, id) <==> holds(
            m.sessions.take(n as int),
            id,
        ) && !holds(m.table, id) by {
            lemma_holds_joined(head, seq![session], id);
            lemma_holds_joined(before, view, id);
            lemma_holds(seq![session], id);
            lemma_holds(view, id);
            assert(seq![session][0] == session);
        }
        if distinct(m.sessions) {
            lemma_holds(head, peer);
            assert(!holds(head, peer));
            assert forall|k: Seq<char>| #[trigger] holds(before, k) implies !holds(view, k) by {
                lemma_holds(view, k);
            }
            assert(distinct(view));
            lemma_distinct_joined(before, view);
        }
    }
}

proof fn lemma_record_views(m: EngineModel, n: nat)
    requires
        n <= m.peers.len(),
    ensures
        forall|id: Seq<char>| #[trigger]
            holds(record_views(m, n), id) <==> holds(m.peers.take(n as int), id) && !holds(
                m.table,
                id,
            ) && !holds(m.sessions, id),
        distinct(m.peers) ==> distinct(record_views(m, n)),
    decreases n,
{
    let views = record_views(m, n);
    if n == 0 {
        assert forall|id: Seq<char>| #[trigger] holds(views, id) <==> holds(m.peers.take(0), id)
            && !holds(m.table, id) && !holds(m.sessions, id) by {
            lemma_holds(views, id);
            lemma_holds(m.peers.take(0), id);
        }
    } else {
        lemma_record_views(m, (n - 1) as nat);
        let before = record_views(m, (n - 1) as nat);
        let record = m.peers[n - 1];
        let peer = record.device_id;
        let head = m.peers.take(n - 1);
        let view = seq![record_shown(m, record)];
        assert(m.peers.take(n as int) =~= head + seq![record]);
        assert(before.push(view[0]) =~= before + view);
        assert forall|id: Seq<char>| #[trigger] holds(views, id) <==> holds(
            m.peers.take(n as int),
            id,
        ) && !holds(m.table, id) && !holds(m.sessions, id) by {
            lemma_holds_joined(head, seq![record], id);
            lemma_holds_joined(before, view, id);
            lemma_holds(seq![record], id);
            lemma_holds(view, id);
            assert(seq![record][0] == record);
        }
        if distinct(m.peers) {
            lemma_holds(head, peer);
            assert(!holds(head, peer));
            assert forall|k: Seq<char>| #[trigger] holds(before, k) implies !holds(view, k) by {
                lemma_holds(view, k);
            }
            assert(distinct(view));
            lemma_distinct_joined(before, view);
        }
    }
}

/// A snapshot lists each machine that is discovered, connected or trusted exactly once and
/// no other, in the order of the names in lower case.
pub proof fn law_a_snapshot_lists_each_machine_once(m: EngineModel, unix: u64)
    requires
        distinct(m.table),
        distinct(m.sessions),
        distinct(m.peers),
    ensures
        distinct(snapshot_of(m, unix).peers),
        forall|id: Seq<char>| #[trigger]
            holds(snapshot_of(m, unix).peers, id) <==> worth_showing(m, id),
        forall|i: int, j: int|
            0 <= i < j < snapshot_of(m, unix).peers.len() ==> !precedes(
                lower_case((#[trigger] snapshot_of(m, unix).peers[j]).name),
                lower_case((#[trigger] snapshot_of(m, unix).peers[i]).name),
            ),
{
    reveal(snapshot_of);
    let found = found_views(m);
    let connected = session_views(m, m.sessions.len(), unix);
    let trusted = record_views(m, m.peers.len());
    let all = all_peer_views(m, unix);
    lemma_found_views(m);
    lemma_session_views(m, m.sessions.len(), unix);
    lemma_record_views(m, m.peers.len());
    assert(m.sessions.take(m.sessions.len() as int) =~= m.sessions);
    assert(m.peers.take(m.peers.len() as int) =~= m.peers);
    lemma_distinct_joined(found, connected);
    assert forall|k: Seq<char>| #[trigger] holds(found + connected, k) implies !holds(
        trusted,
        k,
    ) by {
        lemma_holds_joined(found, connected, k);
    }
    lemma_distinct_joined(found + connected, trusted);
    law_sorting_keeps_the_keys(all);
    assert forall|id: Seq<char>| #[trigger] holds(snapshot_of(m, unix).peers, id)
        <==> worth_showing(m, id) by {
        assert(holds(in_rank_order(all), id) == holds(all, id));
        lemma_holds_joined(found, connected, id);
        lemma_holds_joined(found + connected, trusted, id);
    }
    lemma_names_order_machines();
    law_sorted_is_in_order(all);
    let shown = snapshot_of(m, unix).peers;
    assert forall|i: int, j: int| 0 <= i < j < shown.len() implies !precedes(
        lower_case((#[trigger] shown[j]).name),
        lower_case((#[trigger] shown[i]).name),
    ) by {
        assert(!in_rank_order(all)[j].before(&in_rank_order(all)[i]));
    }
}

/// A snapshot shows each tracked transfer once and nothing else, the newest first.
pub proof fn law_a_snapshot_shows_the_newest_transfer_first(m: EngineModel, unix: u64)
    ensures
        snapshot_of(m, unix).transfers.to_multiset() == m.transfers.map_values(
            |entry: TransferEntryModel| transfer_shown(entry, unix),
        ).to_multiset(),
        forall|i: int, j: int|
            0 <= i < j < snapshot_of(m, unix).transfers.len() ==> (
            #[trigger] snapshot_of(m, unix).transfers[i]).started_at >= (
            #[trigger] snapshot_of(m, unix).transfers[j]).started_at,
{
    reveal(snapshot_of);
    let all = m.transfers.map_values(|entry: TransferEntryModel| transfer_shown(entry, unix));
    law_sorting_keeps_the_items(all);
    law_sorted_is_in_order(all);
    let shown = snapshot_of(m, unix).transfers;
    assert forall|i: int, j: int| 0 <= i < j < shown.len() implies (#[trigger] shown[i]).started_at
        >= (#[trigger] shown[j]).started_at by {
        assert(!in_rank_order(all)[j].before(&in_rank_order(all)[i]));
    }
}

/// What a state shows does not depend on what it still asks for.
pub proof fn law_requests_are_not_shown(m: EngineModel, out: Seq<ActionModel>, unix: u64)
    ensures
        snapshot_of(EngineModel { out, ..m }, unix) == snapshot_of(m, unix),
{
    reveal(snapshot_of);
    let n = EngineModel { out, ..m };
    lemma_same_session_views(m, out, m.sessions.len(), unix);
    lemma_same_record_views(m, out, m.peers.len());
    assert(found_views(n) =~= found_views(m));
}

proof fn lemma_same_session_views(m: EngineModel, out: Seq<ActionModel>, n: nat, unix: u64)
    ensures
        session_views(EngineModel { out, ..m }, n, unix) == session_views(m, n, unix),
    decreases n,
{
    if n > 0 {
        lemma_same_session_views(m, out, (n - 1) as nat, unix);
    }
}

proof fn lemma_same_record_views(m: EngineModel, out: Seq<ActionModel>, n: nat)
    ensures
        record_views(EngineModel { out, ..m }, n) == record_views(m, n),
    decreases n,
{
    if n > 0 {
        lemma_same_record_views(m, out, (n - 1) as nat);
    }
}

/// A picture that was just asked for is one of the state that asks for it.
pub proof fn lemma_shows_itself(after: EngineModel, unix: u64)
    ensures
        snapshot_of(EngineModel { out: after.out.drop_last(), ..after }, unix) == snapshot_of(
            after,
            unix,
        ),
        forall|s: Seq<ActionModel>, a: ActionModel| #[trigger] s.push(a).drop_last() == s,
{
    law_requests_are_not_shown(after, after.out.drop_last(), unix);
    assert forall|s: Seq<ActionModel>, a: ActionModel| #[trigger] s.push(a).drop_last() == s by {
        assert(s.push(a).drop_last() =~= s);
    }
}

fn clone_link(link: Option<&EdgeLink>) -> (out: Option<EdgeLink>)
    ensures
        out.deep_view() == link.deep_view(),
{
    match link {
        Some(link) => Some(link.clone()),
        None => None,
    }
}

impl Engine {
    /// The session with a peer.
    pub fn session(&self, peer: &DeviceId) -> (out: Option<&Session>)
        ensures
            out.deep_view() == find(self.deep_view().sessions, peer@),
    {
        let at: usize = position(&self.sessions, peer);
        if at < self.sessions.len() {
            Some(&self.sessions[at])
        } else {
            None
        }
    }

    /// The name by which a machine is known.
    pub fn name_of(&self, peer: &DeviceId) -> (out: String)
        ensures
            out@ == known_name(self.deep_view(), peer@),
    {
        match self.session(peer) {
            Some(session) => session.info.name.clone(),
            None => match self.peers.get(peer) {
                Some(record) => record.name.clone(),
                None => peer.short().to_owned(),
            },
        }
    }

    fn found_view(&self, found: &Discovered) -> (out: PeerView)
        ensures
            out.deep_view() == found_shown(self.deep_view(), found.deep_view()),
    {
        let session = self.session(&found.device_id);
        let record = self.peers.get(&found.device_id);
        PeerView {
            device_id: found.device_id.clone(),
            name: match session {
                Some(s) => s.info.name.clone(),
                None => found.name.clone(),
            },
            os: match session {
                Some(s) => s.info.os,
                None => found.os,
            },
            fingerprint: match record {
                Some(r) => r.fingerprint.clone(),
                None => found.fingerprint.clone(),
            },
            trusted: record.is_some(),
            connection: match session {
                Some(s) => s.state.clone(),
                None => ConnectionState::Offline,
            },
            discovered_via: Some(found.source.label().to_owned()),
            address: match found.best_address() {
                Some(address) => Some(address.display()),
                None => None,
            },
            last_seen: Some(found.last_seen),
            display_count: match session {
                Some(s) => s.displays.len(),
                None => 0,
            },
            display_summary: match session {
                Some(s) => summarize_displays(s),
                None => None,
            },
            pairing: match session {
                Some(s) => pairing_view(s),
                None => None,
            },
            link: clone_link(self.settings.link_for(&found.device_id)),
        }
    }

    /// Lists the machines worth showing, in no particular order.
    fn peer_views(&self, unix: u64) -> (out: Vec<PeerView>)
        ensures
            out.deep_view() == all_peer_views(self.deep_view(), unix),
    {
        let ghost m = self.deep_view();
        let mut peers: Vec<PeerView> = empty_list();
        let mut i: usize = 0;
        while i < self.table.entries.len()
            invariant
                i <= self.table.entries@.len(),
                m == self.deep_view(),
                peers.deep_view() =~= found_views(m).take(i as int),
            decreases self.table.entries@.len() - i,
        {
            let view = self.found_view(&self.table.entries[i]);
            assert(view.deep_view() == found_views(m)[i as int]);
            push_item(&mut peers, view);
            i += 1;
        }
        assert(peers.deep_view() =~= found_views(m) + session_views(m, 0, unix));
        let mut j: usize = 0;
        while j < self.sessions.len()
            invariant
                j <= self.sessions@.len(),
                m == self.deep_view(),
                peers.deep_view() == found_views(m) + session_views(m, j as nat, unix),
            decreases self.sessions@.len() - j,
        {
            let session = &self.sessions[j];
            let id = &session.info.device_id;
            assert(m.sessions[j as int] == session.deep_view());
            if self.table.get(id).is_none() {
                let ghost before = peers.deep_view();
                let view = PeerView {
                    device_id: id.clone(),
                    name: session.info.name.clone(),
                    os: session.info.os,
                    fingerprint: session.info.fingerprint.clone(),
                    trusted: session.trusted,
                    connection: session.state.clone(),
                    discovered_via: None,
                    address: None,
                    last_seen: Some(unix),
                    display_count: session.displays.len(),
                    display_summary: summarize_displays(session),
                    pairing: pairing_view(session),
                    link: clone_link(self.settings.link_for(id)),
                };
                assert(view.deep_view() == session_shown(m, m.sessions[j as int], unix));
                push_item(&mut peers, view);
                assert(peers.deep_view() =~= found_views(m) + session_views(
                    m,
                    (j + 1) as nat,
                    unix,
                ));
            }
            j += 1;
        }
        let ghost listed = found_views(m) + session_views(m, m.sessions.len(), unix);
        assert(m.sessions.len() == self.sessions@.len());
        assert(peers.deep_view() =~= listed + record_views(m, 0));
        // Trusted machines stay listed while they are away so they can still be
        // dialled by address or forgotten.
        let mut k: usize = 0;
        while k < self.peers.peers.len()
            invariant
                k <= self.peers.peers@.len(),
                m == self.deep_view(),
                peers.deep_view() == listed + record_views(m, k as nat),
            decreases self.peers.peers@.len() - k,
        {
            let record = &self.peers.peers[k];
            let id = &record.device_id;
            assert(m.peers[k as int] == record.deep_view());
            if self.table.get(id).is_none() && self.session(id).is_none() {
                let view = PeerView {
                    device_id: id.clone(),
                    name: record.name.clone(),
                    os: record.os,
                    fingerprint: record.fingerprint.clone(),
                    trusted: true,
                    connection: ConnectionState::Offline,
                    discovered_via: None,
                    address: clone_text(&record.last_address),
                    last_seen: record.last_seen,
                    display_count: 0,
                    display_summary: None,
                    pairing: None,
                    link: clone_link(self.settings.link_for(id)),
                };
                assert(view.deep_view() == record_shown(m, m.peers[k as int]));
                push_item(&mut peers, view);
                assert(peers.deep_view() =~= listed + record_views(m, (k + 1) as nat));
            }
            k += 1;
        }
        assert(m.peers.len() == self.peers.peers@.len());
        peers
    }

    fn transfer_views(&self, unix: u64) -> (out: Vec<TransferView>)
        ensures
            out.deep_view() == self.deep_view().transfers.map_values(
                |entry: TransferEntryModel| transfer_shown(entry, unix),
            ),
    {
        let ghost want = self.deep_view().transfers.map_values(
            |entry: TransferEntryModel| transfer_shown(entry, unix),
        );
        let mut out: Vec<TransferView> = empty_list();
        let mut i: usize = 0;
        while i < self.transfers.len()
            invariant
                i <= self.transfers@.len(),
                want == self.deep_view().transfers.map_values(
                    |entry: TransferEntryModel| transfer_shown(entry, unix),
                ),
                out.deep_view() =~= want.take(i as int),
            decreases self.transfers@.len() - i,
        {
            let view = self.transfers[i].view(unix);
            assert(view.deep_view() == want[i as int]);
            push_item(&mut out, view);
            i += 1;
        }
        assert(out.deep_view() =~= want);
        out
    }

    /// The picture of the world at the given time.
    pub fn snapshot(&self, unix: u64) -> (out: Snapshot)
        ensures
            out.deep_view() == snapshot_of(self.deep_view(), unix),
    {
        proof {
            reveal(snapshot_of);
            lemma_names_order_machines();
        }
        let mode = match &self.control {
            ControlState::Local => ControlModeView::Local,
            ControlState::Controlling { peer, .. } => ControlModeView::Controlling {
                device_id: peer.clone(),
                name: self.name_of(peer),
            },
            ControlState::Controlled { peer, .. } => ControlModeView::Controlled {
                device_id: peer.clone(),
                name: self.name_of(peer),
            },
        };
        Snapshot {
            device: self.device.clone(),
            settings: self.settings.clone(),
            peers: sort_items(self.peer_views(unix)),
            control: ControlView {
                mode,
                release_hotkey: self.settings.input.release_hotkey.label().to_owned(),
                sharing_enabled: self.settings.input.enabled,
            },
            transfers: sort_items(self.transfer_views(unix)),
            input: InputStatusView {
                // Reflects reality rather than the compile time capability: if
                // the platform backend failed to start, the UI must not offer a
                // switch that cannot work.
                backend_available: self.input_ready,
                enabled: self.settings.input.enabled,
                capture_active: self.capture_active,
                permission_hint: clone_text(&self.permission_hint),
            },
            clipboard: self.clipboard_status.clone(),
            platform: PlatformView {
                os: self.os,
                displays: crate::geom::clone_displays(&self.displays),
                desktop: self.desktop,
            },
            listening_port: if self.listening_port == 0 {
                self.settings.port
            } else {
                self.listening_port
            },
        }
    }
}

} // verus!
