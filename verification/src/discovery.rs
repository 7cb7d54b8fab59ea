//! Finding peers on the local network.
//!
//! Two independent mechanisms run in parallel:
//!
//! * multicast DNS (`_uniondesk._tcp.local.`) which is the polite, standards
//!   based path and also gives us hostnames;
//! * a UDP broadcast beacon, because plenty of consumer routers and corporate
//!   access points silently drop multicast.
//!
//! Whichever answers first wins; duplicates are merged by device id.

use std::time::SystemTime;

use vstd::prelude::*;
use vstd::string::*;

use crate::clock::{now_unix, unix_time};
use crate::identity::DeviceId;
use crate::keyed::{
    distinct, find, holds, law_find_after_put, law_keys_stay_distinct, position, put, remove_all,
    replace_or_push, without, Entry, Keyed,
};
use crate::protocol::OsKind;
use crate::text::{cat2, cat4, chars_of, decimal, format_decimal, same_text};
use crate::{DEFAULT_PORT, PROTOCOL_VERSION};

verus! {

pub const BEACON_MAGIC: &'static str = "uniondesk/1";

/// How the peer was found.
#[derive(Clone, Copy, Debug, PartialEq, Eq, Structural)]
pub enum DiscoverSource {
    Mdns,
    Beacon,
    Manual,
}

impl DiscoverSource {
    /// The name of a source on screen.
    pub open spec fn title(self) -> Seq<char> {
        match self {
            DiscoverSource::Mdns => "Bonjour"@,
            DiscoverSource::Beacon => "Broadcast"@,
            DiscoverSource::Manual => "Manual"@,
        }
    }

    pub fn label(self) -> (out: &'static str)
        ensures
            out@ == self.title(),
    {
        match self {
            DiscoverSource::Mdns => "Bonjour",
            DiscoverSource::Beacon => "Broadcast",
            DiscoverSource::Manual => "Manual",
        }
    }
}

/// A network address: its family, its bits as one number, and how it is written.
#[derive(Debug, PartialEq)]
pub struct IpAddress {
    pub v4: bool,
    pub value: u128,
    pub text: String,
}

#[verifier::ext_equal]
pub struct IpModel {
    pub v4: bool,
    pub value: u128,
    pub text: Seq<char>,
}

impl DeepView for IpAddress {
    type V = IpModel;

    open spec fn deep_view(&self) -> IpModel {
        IpModel { v4: self.v4, value: self.value, text: self.text@ }
    }
}

impl Clone for IpAddress {
    fn clone(&self) -> (out: Self)
        ensures
            out == *self,
    {
        IpAddress { v4: self.v4, value: self.value, text: self.text.clone() }
    }
}

/// A copy of a list of addresses.
pub fn clone_addresses(addresses: &Vec<IpAddress>) -> (out: Vec<IpAddress>)
    ensures
        out.deep_view() == addresses.deep_view(),
{
    let out = addresses.clone();
    assert(out.deep_view() =~= addresses.deep_view());
    out
}

impl IpModel {
    /// Two addresses are the same when family and bits agree.
    pub open spec fn same(self, other: IpModel) -> bool {
        self.v4 == other.v4 && self.value == other.value
    }

    /// The order of addresses: the older family first, then by value.
    pub open spec fn before(self, other: IpModel) -> bool {
        (self.v4 && !other.v4) || (self.v4 == other.v4 && self.value < other.value)
    }

    /// Whether an address means this machine itself.
    pub open spec fn loopback(self) -> bool {
        if self.v4 {
            self.value / 0x100_0000 == 127
        } else {
            self.value == 1
        }
    }
}

impl IpAddress {
    fn same(&self, other: &IpAddress) -> (out: bool)
        ensures
            out == self.deep_view().same(other.deep_view()),
    {
        self.v4 == other.v4 && self.value == other.value
    }

    fn before(&self, other: &IpAddress) -> (out: bool)
        ensures
            out == self.deep_view().before(other.deep_view()),
    {
        (self.v4 && !other.v4) || (self.v4 == other.v4 && self.value < other.value)
    }

    fn is_loopback(&self) -> (out: bool)
        ensures
            out == self.deep_view().loopback(),
    {
        if self.v4 {
            self.value / 0x100_0000 == 127
        } else {
            self.value == 1
        }
    }
}

/// An address and a port.
#[derive(Debug, PartialEq)]
pub struct SocketAddress {
    pub ip: IpAddress,
    pub port: u16,
}

#[verifier::ext_equal]
pub struct SocketModel {
    pub ip: IpModel,
    pub port: u16,
}

impl DeepView for SocketAddress {
    type V = SocketModel;

    open spec fn deep_view(&self) -> SocketModel {
        SocketModel { ip: self.ip.deep_view(), port: self.port }
    }
}

impl Clone for SocketAddress {
    fn clone(&self) -> (out: Self)
        ensures
            out == *self,
    {
        SocketAddress { ip: self.ip.clone(), port: self.port }
    }
}

impl SocketModel {
    /// How an address and its port are written.
    pub open spec fn shown(self) -> Seq<char> {
        if self.ip.v4 {
            self.ip.text + ":"@ + decimal(self.port as nat)
        } else {
            "["@ + self.ip.text + "]:"@ + decimal(self.port as nat)
        }
    }
}

impl SocketAddress {
    pub fn display(&self) -> (out: String)
        ensures
            out@ == self.deep_view().shown(),
    {
        let port = format_decimal(self.port as u64);
        if self.ip.v4 {
            crate::text::cat3(self.ip.text.as_str(), ":", port.as_str())
        } else {
            cat4("[", self.ip.text.as_str(), "]:", port.as_str())
        }
    }
}

/// One machine seen on the local network.
#[derive(Debug, PartialEq)]
pub struct Discovered {
    pub device_id: DeviceId,
    pub name: String,
    pub os: OsKind,
    pub fingerprint: String,
    pub addresses: Vec<IpAddress>,
    pub port: u16,
    pub source: DiscoverSource,
    pub last_seen: u64,
}

#[verifier::ext_equal]
pub struct DiscoveredModel {
    pub device_id: Seq<char>,
    pub name: Seq<char>,
    pub os: OsKind,
    pub fingerprint: Seq<char>,
    pub addresses: Seq<IpModel>,
    pub port: u16,
    pub source: DiscoverSource,
    pub last_seen: u64,
}

impl DeepView for Discovered {
    type V = DiscoveredModel;

    open spec fn deep_view(&self) -> DiscoveredModel {
        DiscoveredModel {
            device_id: self.device_id@,
            name: self.name@,
            os: self.os,
            fingerprint: self.fingerprint@,
            addresses: self.addresses.deep_view(),
            port: self.port,
            source: self.source,
            last_seen: self.last_seen,
        }
    }
}

impl Keyed for DiscoveredModel {
    type Key = Seq<char>;

    open spec fn key(&self) -> Seq<char> {
        self.device_id
    }
}

impl Entry for Discovered {
    type Id = DeviceId;

    open spec fn id_view(id: DeviceId) -> Seq<char> {
        id@
    }

    fn has_id(&self, id: &DeviceId) -> (found: bool) {
        self.device_id.same(id)
    }
}

impl Clone for Discovered {
    fn clone(&self) -> (out: Self)
        ensures
            out.deep_view() == self.deep_view(),
    {
        Discovered {
            device_id: self.device_id.clone(),
            name: self.name.clone(),
            os: self.os,
            fingerprint: self.fingerprint.clone(),
            addresses: clone_addresses(&self.addresses),
            port: self.port,
            source: self.source,
            last_seen: self.last_seen,
        }
    }
}

/// The position of the first address of the older family; the length where there is
/// none.
pub open spec fn first_v4(addresses: Seq<IpModel>) -> int
    decreases addresses.len(),
{
    if addresses.len() == 0 || addresses[0].v4 {
        0
    } else {
        1 + first_v4(addresses.drop_first())
    }
}

proof fn lemma_first_v4(addresses: Seq<IpModel>, n: int)
    requires
        0 <= n <= addresses.len(),
        n < addresses.len() ==> addresses[n].v4,
        forall|j: int| 0 <= j < n ==> !(#[trigger] addresses[j]).v4,
    ensures
        first_v4(addresses) == n,
    decreases addresses.len(),
{
    if n > 0 {
        let rest = addresses.drop_first();
        assert forall|j: int| 0 <= j < n - 1 implies !(#[trigger] rest[j]).v4 by {
            assert(rest[j] == addresses[j + 1]);
        }
        lemma_first_v4(rest, n - 1);
    }
}

impl DiscoveredModel {
    /// The address to dial: the first of the older family, else the first at all.
    pub open spec fn best(self) -> Option<SocketModel> {
        if first_v4(self.addresses) < self.addresses.len() {
            Some(SocketModel { ip: self.addresses[first_v4(self.addresses)], port: self.port })
        } else if self.addresses.len() > 0 {
            Some(SocketModel { ip: self.addresses[0], port: self.port })
        } else {
            None
        }
    }
}

/// Whether two optional addresses lead to the same place.
pub open spec fn same_place(a: Option<SocketModel>, b: Option<SocketModel>) -> bool {
    match (a, b) {
        (Some(x), Some(y)) => x.ip.same(y.ip) && x.port == y.port,
        (None, None) => true,
        _ => false,
    }
}

fn is_same_place(a: &Option<SocketAddress>, b: &Option<SocketAddress>) -> (out: bool)
    ensures
        out == same_place(a.deep_view(), b.deep_view()),
{
    match a {
        Some(x) => match b {
            Some(y) => x.ip.same(&y.ip) && x.port == y.port,
            None => false,
        },
        None => b.is_none(),
    }
}

impl Discovered {
    /// Best address to dial, preferring IPv4 for the widest compatibility.
    pub fn best_address(&self) -> (out: Option<SocketAddress>)
        ensures
            out.deep_view() == self.deep_view().best(),
    {
        let mut n: usize = 0;
        while n < self.addresses.len() && !self.addresses[n].v4
            invariant
                n <= self.addresses@.len(),
                forall|j: int| 0 <= j < n ==> !(#[trigger] self.addresses.deep_view()[j]).v4,
            decreases self.addresses@.len() - n,
        {
            n += 1;
        }
        proof {
            lemma_first_v4(self.addresses.deep_view(), n as int);
        }
        if n < self.addresses.len() {
            Some(SocketAddress { ip: self.addresses[n].clone(), port: self.port })
        } else if self.addresses.len() > 0 {
            Some(SocketAddress { ip: self.addresses[0].clone(), port: self.port })
        } else {
            None
        }
    }
}

#[derive(Debug, PartialEq)]
pub enum DiscoveryEvent {
    Found(Box<Discovered>),
    Lost(DeviceId),
}

/// A discovery event, by its contents.
#[verifier::ext_equal]
pub enum DiscoveryModel {
    Found(DiscoveredModel),
    Lost(Seq<char>),
}

impl DeepView for DiscoveryEvent {
    type V = DiscoveryModel;

    open spec fn deep_view(&self) -> DiscoveryModel {
        match self {
            DiscoveryEvent::Found(found) => DiscoveryModel::Found((**found).deep_view()),
            DiscoveryEvent::Lost(id) => DiscoveryModel::Lost(id@),
        }
    }
}

/// Merges repeated sightings of the same device, keeping the freshest address
/// list while remembering where it was first seen.
#[derive(Debug, PartialEq)]
pub struct DiscoveryTable {
    /// The machines, in the order in which they were first seen.
    pub entries: Vec<Discovered>,
}

impl DeepView for DiscoveryTable {
    type V = Seq<DiscoveredModel>;

    open spec fn deep_view(&self) -> Seq<DiscoveredModel> {
        self.entries.deep_view()
    }
}

/// A new sighting of a known machine: the new facts, but the old addresses where the
/// new sighting has none, and the source by which the machine was first seen.
pub open spec fn merged(previous: DiscoveredModel, found: DiscoveredModel) -> DiscoveredModel {
    DiscoveredModel {
        addresses: if found.addresses.len() == 0 {
            previous.addresses
        } else {
            found.addresses
        },
        source: previous.source,
        ..found
    }
}

/// The table after a sighting.
pub open spec fn sighted(
    table: Seq<DiscoveredModel>,
    found: DiscoveredModel,
) -> Seq<DiscoveredModel> {
    match find(table, found.device_id) {
        Some(previous) => put(table, merged(previous, found)),
        None => put(table, found),
    }
}

/// Whether a sighting tells something new: a machine, an address or a name.
pub open spec fn news(table: Seq<DiscoveredModel>, found: DiscoveredModel) -> bool {
    match find(table, found.device_id) {
        Some(previous) => !same_place(previous.best(), found.best()) || previous.name != found.name,
        None => true,
    }
}

/// Whether a machine was seen within the last `secs` seconds.
pub open spec fn fresh(entry: DiscoveredModel, now: u64, secs: u64) -> bool {
    now - entry.last_seen <= secs
}

/// The machines that were seen within the last `secs` seconds.
pub open spec fn pruned(table: Seq<DiscoveredModel>, now: u64, secs: u64) -> Seq<DiscoveredModel>
    decreases table.len(),
{
    if table.len() == 0 {
        table
    } else if fresh(table.last(), now, secs) {
        pruned(table.drop_last(), now, secs).push(table.last())
    } else {
        pruned(table.drop_last(), now, secs)
    }
}

impl Default for DiscoveryTable {
    fn default() -> (out: Self)
        ensures
            out.deep_view() == Seq::<DiscoveredModel>::empty(),
    {
        let entries: Vec<Discovered> = Vec::new();
        assert(entries.deep_view() =~= Seq::<DiscoveredModel>::empty());
        DiscoveryTable { entries }
    }
}

impl DiscoveryTable {
    pub fn upsert(&mut self, found: Discovered) -> (out: bool)
        ensures
            final(self).deep_view() == sighted(old(self).deep_view(), found.deep_view()),
            out == news(old(self).deep_view(), found.deep_view()),
    {
        let id = found.device_id.clone();
        let at: usize = position(&self.entries, &id);
        if at < self.entries.len() {
            let previous = &self.entries[at];
            let changed = !is_same_place(&previous.best_address(), &found.best_address())
                || !same_text(previous.name.as_str(), found.name.as_str());
            let mut merged = found;
            if merged.addresses.len() == 0 {
                merged.addresses = clone_addresses(&previous.addresses);
            }
            merged.source = previous.source;
            replace_or_push(&mut self.entries, &id, merged);
            changed
        } else {
            replace_or_push(&mut self.entries, &id, found);
            true
        }
    }

    pub fn remove(&mut self, id: &DeviceId) -> (out: bool)
        ensures
            final(self).deep_view() == without(old(self).deep_view(), id@),
            out == holds(old(self).deep_view(), id@),
    {
        remove_all(&mut self.entries, id)
    }

    pub fn get(&self, id: &DeviceId) -> (out: Option<&Discovered>)
        ensures
            out.deep_view() == find(self.deep_view(), id@),
    {
        let at: usize = position(&self.entries, id);
        if at < self.entries.len() {
            Some(&self.entries[at])
        } else {
            None
        }
    }

    pub fn list(&self) -> (out: Vec<Discovered>)
        ensures
            out.deep_view() == self.deep_view(),
    {
        let out = self.entries.clone();
        assert(out.deep_view() =~= self.entries.deep_view());
        out
    }

    /// Forgets the machines that have not been seen for longer than the given time.
    pub fn prune(&mut self, older_than_secs: u64)
        ensures
            exists|time: SystemTime|
                final(self).deep_view() == pruned(
                    old(self).deep_view(),
                    #[trigger] unix_time(time),
                    older_than_secs,
                ),
    {
        let now: u64 = now_unix();
        self.prune_at(now, older_than_secs);
    }

    /// Forgets the machines that, at the given time, have not been seen for longer than
    /// the given time.
    pub fn prune_at(&mut self, now: u64, older_than_secs: u64)
        ensures
            final(self).deep_view() == pruned(old(self).deep_view(), now, older_than_secs),
    {
        let ghost all = self.entries.deep_view();
        let mut kept: usize = 0;
        let ghost mut seen: int = 0;
        while kept < self.entries.len()
            invariant
                0 <= seen <= all.len(),
                kept <= self.entries@.len(),
                self.entries@.len() - kept == all.len() - seen,
                self.entries.deep_view().take(kept as int) == pruned(
                    all.take(seen),
                    now,
                    older_than_secs,
                ),
                self.entries.deep_view().skip(kept as int) == all.skip(seen),
            decreases self.entries@.len() - kept,
        {
            let ghost before = self.entries.deep_view();
            proof {
                assert(before[kept as int] == before.skip(kept as int)[0]);
                assert(all[seen] == all.skip(seen)[0]);
                assert(all.take(seen + 1).drop_last() =~= all.take(seen));
            }
            if now.saturating_sub(self.entries[kept].last_seen) > older_than_secs {
                let _ = self.entries.remove(kept);
                proof {
                    assert(self.entries.deep_view() =~= before.remove(kept as int));
                    assert(self.entries.deep_view().take(kept as int) =~= before.take(kept as int));
                    assert(self.entries.deep_view().skip(kept as int) =~= before.skip(
                        kept as int,
                    ).drop_first());
                }
            } else {
                kept += 1;
                proof {
                    assert(before.take(kept as int) =~= before.take(kept as int - 1).push(
                        before[kept - 1],
                    ));
                    assert(before.skip(kept as int) =~= before.skip(kept as int - 1).drop_first());
                }
            }
            proof {
                assert(all.skip(seen + 1) =~= all.skip(seen).drop_first());
                seen = seen + 1;
            }
        }
        proof {
            assert(all.take(seen) =~= all);
            assert(self.entries.deep_view().take(kept as int) =~= self.entries.deep_view());
        }
    }
}

/// The table holds one entry per device, whatever is sighted, lost or pruned.
pub proof fn law_one_entry_per_device(
    table: Seq<DiscoveredModel>,
    found: DiscoveredModel,
    lost: Seq<char>,
    now: u64,
    secs: u64,
)
    requires
        distinct(table),
    ensures
        distinct(sighted(table, found)),
        distinct(without(table, lost)),
        distinct(pruned(table, now, secs)),
{
    let item = match find(table, found.device_id) {
        Some(previous) => merged(previous, found),
        None => found,
    };
    law_keys_stay_distinct(table, item, lost);
    lemma_pruned_keeps_distinct(table, now, secs);
}

/// Pruning keeps exactly the fresh entries.
pub proof fn law_pruned_keeps_the_fresh(table: Seq<DiscoveredModel>, now: u64, secs: u64)
    ensures
        forall|x: DiscoveredModel| #[trigger]
            pruned(table, now, secs).contains(x) <==> table.contains(x) && fresh(x, now, secs),
    decreases table.len(),
{
    let p = pruned(table, now, secs);
    if table.len() > 0 {
        let head = table.drop_last();
        let ph = pruned(head, now, secs);
        law_pruned_keeps_the_fresh(head, now, secs);
        assert forall|x: DiscoveredModel| #[trigger]
            p.contains(x) <==> table.contains(x) && fresh(x, now, secs) by {
            if p.contains(x) {
                let i = choose|i: int| 0 <= i < p.len() && p[i] == x;
                if i < ph.len() {
                    assert(ph[i] == x);
                    assert(ph.contains(x));
                    let j = choose|j: int| 0 <= j < head.len() && head[j] == x;
                    assert(table[j] == x);
                } else {
                    assert(table[table.len() - 1] == x);
                }
            }
            if table.contains(x) && fresh(x, now, secs) {
                let i = choose|i: int| 0 <= i < table.len() && table[i] == x;
                if i < head.len() {
                    assert(head[i] == x);
                    assert(ph.contains(x));
                    let j = choose|j: int| 0 <= j < ph.len() && ph[j] == x;
                    assert(p[j] == x);
                } else {
                    assert(p[p.len() - 1] == x);
                }
            }
        }
    }
}

proof fn lemma_pruned_keeps_distinct(table: Seq<DiscoveredModel>, now: u64, secs: u64)
    requires
        distinct(table),
    ensures
        distinct(pruned(table, now, secs)),
    decreases table.len(),
{
    if table.len() > 0 {
        let head = table.drop_last();
        assert(distinct(head));
        lemma_pruned_keeps_distinct(head, now, secs);
        law_pruned_keeps_the_fresh(head, now, secs);
        let p = pruned(table, now, secs);
        let ph = pruned(head, now, secs);
        if fresh(table.last(), now, secs) {
            assert forall|i: int, j: int| 0 <= i < j < p.len() implies (#[trigger] p[i]).key()
                != (#[trigger] p[j]).key() by {
                if j == p.len() - 1 {
                    assert(ph.contains(ph[i]));
                    let n = choose|n: int| 0 <= n < head.len() && head[n] == ph[i];
                    assert(table[n] == ph[i]);
                    assert(table[table.len() - 1] == p[j]);
                } else {
                    assert(ph[i] == p[i] && ph[j] == p[j]);
                }
            }
        }
    }
}

/// After a sighting the machine is known with the facts of that sighting, and it is
/// known by the source that saw it first.
pub proof fn law_sighting_is_remembered(table: Seq<DiscoveredModel>, found: DiscoveredModel)
    ensures
        find(sighted(table, found), found.device_id) matches Some(entry) && entry.name == found.name
            && entry.port == found.port && entry.last_seen == found.last_seen && (
        found.addresses.len() > 0 ==> entry.addresses == found.addresses) && entry.source == (
        match find(table, found.device_id) {
            Some(previous) => previous.source,
            None => found.source,
        }),
{
    let item = match find(table, found.device_id) {
        Some(previous) => merged(previous, found),
        None => found,
    };
    law_find_after_put(table, item);
}

/// The word for a system in an announcement.
pub open spec fn os_word(os: OsKind) -> Seq<char> {
    match os {
        OsKind::Windows => "windows"@,
        OsKind::Macos => "macos"@,
        OsKind::Linux => "linux"@,
        OsKind::Unknown => "unknown"@,
    }
}

/// The word for a system in an announcement.
pub fn os_label(os: OsKind) -> (out: &'static str)
    ensures
        out@ == os_word(os),
{
    match os {
        OsKind::Windows => "windows",
        OsKind::Macos => "macos",
        OsKind::Linux => "linux",
        OsKind::Unknown => "unknown",
    }
}

/// The system that a word in an announcement stands for.
pub fn parse_os(value: &str) -> (out: OsKind)
    ensures
        out == OsKind::of_target(value@),
{
    if same_text(value, "windows") {
        OsKind::Windows
    } else if same_text(value, "macos") {
        OsKind::Macos
    } else if same_text(value, "linux") {
        OsKind::Linux
    } else {
        OsKind::Unknown
    }
}

/// The word of a system is read as that system.
pub proof fn law_os_word_round_trip(os: OsKind)
    ensures
        OsKind::of_target(os_word(os)) == os,
{
    reveal_strlit("windows");
    reveal_strlit("macos");
    reveal_strlit("linux");
    reveal_strlit("unknown");
    assert("macos"@.len() == 5 && "linux"@.len() == 5 && "windows"@.len() == 7 && "unknown"@.len()
        == 7);
    assert("macos"@[0] == 'm' && "linux"@[0] == 'l' && "windows"@[0] == 'w' && "unknown"@[0]
        == 'u');
}

/// Whether a character may stand in an mDNS instance name.
pub open spec fn plain_char(c: char) -> bool {
    ('0' <= c <= '9') || ('a' <= c <= 'z') || ('A' <= c <= 'Z') || c == '-'
}

/// A name with every other character replaced by a hyphen.
pub open spec fn plain_name(name: Seq<char>) -> Seq<char> {
    name.map_values(
        |c: char|
            if plain_char(c) {
                c
            } else {
                '-'
            },
    )
}

/// mDNS instance names must not contain dots.
pub fn sanitize(name: &str) -> (out: String)
    ensures
        out@ == plain_name(name@),
{
    let chars = chars_of(name);
    let mut out = String::new();
    let mut i: usize = 0;
    while i < chars.len()
        invariant
            i <= chars@.len(),
            chars@ == name@,
            out@ =~= plain_name(name@.take(i as int)),
        decreases chars@.len() - i,
    {
        let c = chars[i];
        if ('0' <= c && c <= '9') || ('a' <= c && c <= 'z') || ('A' <= c && c <= 'Z') || c == '-' {
            out.push(c);
        } else {
            out.push('-');
        }
        i += 1;
    }
    assert(name@.take(i as int) =~= name@);
    out
}

/// Information this machine advertises.
#[derive(Debug, PartialEq)]
pub struct Advertise {
    pub device_id: DeviceId,
    pub name: String,
    pub os: OsKind,
    pub port: u16,
    pub fingerprint: String,
    pub enabled: bool,
}

#[verifier::ext_equal]
pub struct AdvertiseModel {
    pub device_id: Seq<char>,
    pub name: Seq<char>,
    pub os: OsKind,
    pub port: u16,
    pub fingerprint: Seq<char>,
    pub enabled: bool,
}

impl DeepView for Advertise {
    type V = AdvertiseModel;

    open spec fn deep_view(&self) -> AdvertiseModel {
        AdvertiseModel {
            device_id: self.device_id@,
            name: self.name@,
            os: self.os,
            port: self.port,
            fingerprint: self.fingerprint@,
            enabled: self.enabled,
        }
    }
}

impl Clone for Advertise {
    fn clone(&self) -> (out: Self)
        ensures
            out == *self,
    {
        Advertise {
            device_id: self.device_id.clone(),
            name: self.name.clone(),
            os: self.os,
            port: self.port,
            fingerprint: self.fingerprint.clone(),
            enabled: self.enabled,
        }
    }
}

/// What is registered with multicast DNS: a host name and the text properties.
#[derive(Debug, PartialEq)]
pub struct MdnsRecord {
    pub host: String,
    pub properties: Vec<(String, String)>,
}

/// The text properties of an announcement.
pub open spec fn mdns_properties(a: AdvertiseModel) -> Seq<(Seq<char>, Seq<char>)> {
    seq![
        ("id"@, a.device_id),
        ("name"@, a.name),
        ("os"@, os_word(a.os)),
        ("fp"@, a.fingerprint),
        ("v"@, decimal(PROTOCOL_VERSION as nat)),
    ]
}

/// Builds the multicast DNS record of this machine.
pub fn mdns_record(advertise: &Advertise) -> (out: MdnsRecord)
    ensures
        out.host@ == plain_name(advertise.name@) + "-uniondesk.local."@,
        out.properties.deep_view() == mdns_properties(advertise.deep_view()),
{
    let host = cat2(sanitize(advertise.name.as_str()).as_str(), "-uniondesk.local.");
    let mut properties: Vec<(String, String)> = Vec::new();
    properties.push(("id".to_owned(), advertise.device_id.0.clone()));
    properties.push(("name".to_owned(), advertise.name.clone()));
    properties.push(("os".to_owned(), os_label(advertise.os).to_owned()));
    properties.push(("fp".to_owned(), advertise.fingerprint.clone()));
    properties.push(("v".to_owned(), format_decimal(PROTOCOL_VERSION as u64)));
    assert(properties.deep_view() =~= mdns_properties(advertise.deep_view()));
    MdnsRecord { host, properties }
}

/// A broadcast announcement.
#[derive(Debug, PartialEq)]
pub struct Beacon {
    pub magic: String,
    pub device_id: String,
    pub name: String,
    pub os: OsKind,
    pub fingerprint: String,
    pub port: u16,
    pub inquiry: bool,
    pub goodbye: bool,
}

#[verifier::ext_equal]
pub struct BeaconModel {
    pub magic: Seq<char>,
    pub device_id: Seq<char>,
    pub name: Seq<char>,
    pub os: OsKind,
    pub fingerprint: Seq<char>,
    pub port: u16,
    pub inquiry: bool,
    pub goodbye: bool,
}

impl DeepView for Beacon {
    type V = BeaconModel;

    open spec fn deep_view(&self) -> BeaconModel {
        BeaconModel {
            magic: self.magic@,
            device_id: self.device_id@,
            name: self.name@,
            os: self.os,
            fingerprint: self.fingerprint@,
            port: self.port,
            inquiry: self.inquiry,
            goodbye: self.goodbye,
        }
    }
}

/// The beacon of the machine that advertises `a`.
pub open spec fn beacon_of(a: AdvertiseModel, inquiry: bool, goodbye: bool) -> BeaconModel {
    BeaconModel {
        magic: BEACON_MAGIC@,
        device_id: a.device_id,
        name: a.name,
        os: a.os,
        fingerprint: a.fingerprint,
        port: a.port,
        inquiry,
        goodbye,
    }
}

/// Builds the beacon that describes *this* machine.
pub fn our_beacon(advertise: &Advertise, inquiry: bool, goodbye: bool) -> (out: Beacon)
    ensures
        out.deep_view() == beacon_of(advertise.deep_view(), inquiry, goodbye),
{
    Beacon {
        magic: BEACON_MAGIC.to_owned(),
        device_id: advertise.device_id.0.clone(),
        name: advertise.name.clone(),
        os: advertise.os,
        fingerprint: advertise.fingerprint.clone(),
        port: advertise.port,
        inquiry,
        goodbye,
    }
}

/// What to do about a beacon that came in.
#[derive(Debug, PartialEq)]
pub enum BeaconAction {
    /// Not one of ours, or our own: nothing.
    Ignore,
    /// The machine is leaving.
    Lost(DeviceId),
    /// The machine is there; where `reply` is set it wants an answer first.
    Found { reply: bool, found: Discovered },
}

/// A beacon's effect, by its contents.
#[verifier::ext_equal]
pub enum BeaconActionModel {
    Ignore,
    Lost(Seq<char>),
    Found { reply: bool, found: DiscoveredModel },
}

impl DeepView for BeaconAction {
    type V = BeaconActionModel;

    open spec fn deep_view(&self) -> BeaconActionModel {
        match self {
            BeaconAction::Ignore => BeaconActionModel::Ignore,
            BeaconAction::Lost(id) => BeaconActionModel::Lost(id@),
            BeaconAction::Found { reply, found } => BeaconActionModel::Found {
                reply: *reply,
                found: found.deep_view(),
            },
        }
    }
}

/// What a beacon from the address `from` means to the machine that advertises `a`.
pub open spec fn beacon_effect(
    a: AdvertiseModel,
    beacon: BeaconModel,
    from: IpModel,
    now: u64,
) -> BeaconActionModel {
    if beacon.magic != BEACON_MAGIC@ || beacon.device_id == a.device_id {
        BeaconActionModel::Ignore
    } else if beacon.goodbye {
        BeaconActionModel::Lost(beacon.device_id)
    } else {
        BeaconActionModel::Found {
            reply: beacon.inquiry && a.enabled,
            found: DiscoveredModel {
                device_id: beacon.device_id,
                name: beacon.name,
                os: beacon.os,
                fingerprint: beacon.fingerprint,
                addresses: seq![from],
                port: if beacon.port == 0 {
                    DEFAULT_PORT
                } else {
                    beacon.port
                },
                source: DiscoverSource::Beacon,
                last_seen: now,
            },
        }
    }
}

/// Decides what a beacon that came in means.
pub fn on_beacon(advertise: &Advertise, beacon: Beacon, from: IpAddress, now: u64) -> (out:
    BeaconAction)
    ensures
        out.deep_view() == beacon_effect(
            advertise.deep_view(),
            beacon.deep_view(),
            from.deep_view(),
            now,
        ),
{
    if !same_text(beacon.magic.as_str(), BEACON_MAGIC) || beacon.device_id
        == advertise.device_id.0 {
        return BeaconAction::Ignore;
    }
    let device_id = DeviceId(beacon.device_id);
    if beacon.goodbye {
        return BeaconAction::Lost(device_id);
    }
    let ghost ip = from.deep_view();
    let addresses: Vec<IpAddress> = vec![from];
    assert(addresses.deep_view() =~= seq![ip]);
    BeaconAction::Found {
        reply: beacon.inquiry && advertise.enabled,
        found: Discovered {
            device_id,
            name: beacon.name,
            os: beacon.os,
            fingerprint: beacon.fingerprint,
            addresses,
            port: if beacon.port == 0 {
                DEFAULT_PORT
            } else {
                beacon.port
            },
            source: DiscoverSource::Beacon,
            last_seen: now,
        },
    }
}

/// A machine never takes its own beacon for a peer, and every other machine that hears
/// the beacon learns where it is.
pub proof fn law_beacon_reaches_others_only(
    sender: AdvertiseModel,
    hearer: AdvertiseModel,
    from: IpModel,
    now: u64,
    inquiry: bool,
)
    ensures
        beacon_effect(sender, beacon_of(sender, inquiry, false), from, now)
            == BeaconActionModel::Ignore,
        hearer.device_id != sender.device_id ==> (beacon_effect(
            hearer,
            beacon_of(sender, inquiry, false),
            from,
            now,
        ) matches BeaconActionModel::Found { found, .. } && found.device_id == sender.device_id
            && found.best() == Some(
            SocketModel {
                ip: from,
                port: if sender.port == 0 {
                    DEFAULT_PORT
                } else {
                    sender.port
                },
            },
        )),
{
    reveal_with_fuel(first_v4, 2);
}

/// A resolved multicast DNS service.
#[derive(Debug, PartialEq)]
pub struct MdnsService {
    pub id: Option<String>,
    pub name: Option<String>,
    pub fullname: String,
    pub os: Option<String>,
    pub fingerprint: Option<String>,
    pub addresses: Vec<IpAddress>,
    pub port: u16,
}

/// Whether an address of the list passes for dialling: not loopback, and of the older
/// family where `v4_only` asks for it.
pub open spec fn usable(ip: IpModel, v4_only: bool) -> bool {
    !ip.loopback() && (v4_only ==> ip.v4)
}

/// Whether some address of the list is usable and of the older family.
pub open spec fn has_usable_v4(addresses: Seq<IpModel>) -> bool {
    exists|i: int| 0 <= i < addresses.len() && usable(#[trigger] addresses[i], true)
}

/// Whether an address the same as `ip` is in the list.
pub open spec fn lists(addresses: Seq<IpModel>, ip: IpModel) -> bool {
    exists|i: int| 0 <= i < addresses.len() && (#[trigger] addresses[i]).same(ip)
}

/// Addresses in order, none twice.
pub open spec fn in_order(addresses: Seq<IpModel>) -> bool {
    forall|i: int, j: int|
        0 <= i < j < addresses.len() ==> (#[trigger] addresses[i]).before(#[trigger] addresses[j])
}

/// `out` are the usable addresses of `all`, in order and none twice: those of the older
/// family where there are any, else the others.
pub open spec fn usable_addresses_of(all: Seq<IpModel>, out: Seq<IpModel>) -> bool {
    &&& in_order(out)
    &&& forall|i: int| 0 <= i < out.len() ==> all.contains(#[trigger] out[i])
    &&& forall|i: int| 0 <= i < out.len() ==> usable(#[trigger] out[i], has_usable_v4(all))
    &&& forall|i: int|
        0 <= i < all.len() && usable(#[trigger] all[i], has_usable_v4(all)) ==> lists(out, all[i])
}

/// Puts an address into an ordered list unless it is there already.
fn insert_in_order(list: &mut Vec<IpAddress>, ip: IpAddress)
    requires
        in_order(old(list).deep_view()),
    ensures
        in_order(final(list).deep_view()),
        lists(final(list).deep_view(), ip.deep_view()),
        forall|x: IpModel|
            #![trigger lists(final(list).deep_view(), x)]
            lists(old(list).deep_view(), x) ==> lists(final(list).deep_view(), x),
        forall|x: IpModel|
            #![trigger final(list).deep_view().contains(x)]
            final(list).deep_view().contains(x) ==> old(list).deep_view().contains(x) || x
                == ip.deep_view(),
{
    let ghost before = list.deep_view();
    let ghost m = ip.deep_view();
    let mut at: usize = 0;
    while at < list.len() && list[at].before(&ip)
        invariant
            at <= list@.len(),
            before == list.deep_view(),
            m == ip.deep_view(),
            forall|j: int| 0 <= j < at ==> (#[trigger] before[j]).before(m),
        decreases list@.len() - at,
    {
        at += 1;
    }
    if at < list.len() && list[at].same(&ip) {
        assert(before[at as int].same(m));
        return;
    }
    list.insert(at, ip);
    proof {
        let after = list.deep_view();
        assert(after =~= before.insert(at as int, m));
        assert forall|i: int, j: int| 0 <= i < j < after.len() implies (#[trigger] after[i]).before(
            #[trigger] after[j],
        ) by {
            if j > at {
                assert(after[j] == before[j - 1]);
                if at < before.len() && j - 1 > at {
                    assert(before[at as int].before(before[j - 1]));
                }
            }
            if i < at {
                assert(after[i] == before[i]);
            } else if i > at {
                assert(after[i] == before[i - 1]);
            }
            if j < at {
                assert(after[j] == before[j]);
            }
        }
        assert(after[at as int].same(m));
        assert forall|x: IpModel| lists(before, x) implies #[trigger] lists(after, x) by {
            let i = choose|i: int| 0 <= i < before.len() && (#[trigger] before[i]).same(x);
            if i < at {
                assert(after[i].same(x));
            } else {
                assert(after[i + 1].same(x));
            }
        }
        assert forall|x: IpModel| #[trigger] after.contains(x) implies before.contains(x) || x
            == m by {
            let i = choose|i: int| 0 <= i < after.len() && after[i] == x;
            if i < at {
                assert(before[i] == x);
            } else if i > at {
                assert(before[i - 1] == x);
            }
        }
    }
}

/// Picks the addresses worth keeping from a resolution.
///
/// The older family is preferred, which is what the connection actually uses. A set
/// that mixes in IPv6 records which arrive, expire and reorder looks different on
/// every resolution even though the machine has not moved, which defeats the change
/// detection.
pub fn usable_addresses(all: &Vec<IpAddress>) -> (out: Vec<IpAddress>)
    ensures
        usable_addresses_of(all.deep_view(), out.deep_view()),
{
    let ghost models = all.deep_view();
    let mut v4_only = false;
    let mut i: usize = 0;
    while i < all.len()
        invariant
            i <= all@.len(),
            models == all.deep_view(),
            v4_only == exists|j: int| 0 <= j < i && usable(#[trigger] models[j], true),
        decreases all@.len() - i,
    {
        if all[i].v4 && !all[i].is_loopback() {
            assert(usable(models[i as int], true));
            v4_only = true;
        }
        i += 1;
    }
    assert(v4_only == has_usable_v4(models));
    let mut out: Vec<IpAddress> = Vec::new();
    let mut k: usize = 0;
    assert(out.deep_view() =~= Seq::<IpModel>::empty());
    while k < all.len()
        invariant
            k <= all@.len(),
            models == all.deep_view(),
            v4_only == has_usable_v4(models),
            in_order(out.deep_view()),
            forall|x: IpModel|
                #![trigger out.deep_view().contains(x)]
                out.deep_view().contains(x) ==> models.contains(x) && usable(x, v4_only),
            forall|j: int|
                0 <= j < k && usable(#[trigger] models[j], v4_only) ==> lists(
                    out.deep_view(),
                    models[j],
                ),
        decreases all@.len() - k,
    {
        if !all[k].is_loopback() && (!v4_only || all[k].v4) {
            let ghost before = out.deep_view();
            insert_in_order(&mut out, all[k].clone());
            assert(models[k as int] == all@[k as int].deep_view());
            assert(models.contains(models[k as int]));
        }
        k += 1;
    }
    proof {
        assert forall|i: int| 0 <= i < out.deep_view().len() implies models.contains(
            #[trigger] out.deep_view()[i],
        ) && usable(out.deep_view()[i], v4_only) by {
            assert(out.deep_view().contains(out.deep_view()[i]));
        }
    }
    out
}

/// When and how a machine was last forwarded from multicast DNS.
#[derive(Debug, PartialEq)]
pub struct Sighting {
    pub device_id: DeviceId,
    pub addresses: Vec<IpAddress>,
    pub name: String,
    /// Milliseconds on the monotonic clock.
    pub at_ms: u64,
}

#[verifier::ext_equal]
pub struct SightingModel {
    pub device_id: Seq<char>,
    pub addresses: Seq<IpModel>,
    pub name: Seq<char>,
    pub at_ms: u64,
}

impl DeepView for Sighting {
    type V = SightingModel;

    open spec fn deep_view(&self) -> SightingModel {
        SightingModel {
            device_id: self.device_id@,
            addresses: self.addresses.deep_view(),
            name: self.name@,
            at_ms: self.at_ms,
        }
    }
}

impl Keyed for SightingModel {
    type Key = Seq<char>;

    open spec fn key(&self) -> Seq<char> {
        self.device_id
    }
}

impl Entry for Sighting {
    type Id = DeviceId;

    open spec fn id_view(id: DeviceId) -> Seq<char> {
        id@
    }

    fn has_id(&self, id: &DeviceId) -> (found: bool) {
        self.device_id.same(id)
    }
}

/// A sighting that repeats the last one is old news for this long.
pub const UNCHANGED_MS: u64 = 300_000;

/// Even a change is not forwarded more often than this.
pub const TOO_SOON_MS: u64 = 5_000;

/// Whether two address lists agree, place by place.
pub open spec fn same_addresses(a: Seq<IpModel>, b: Seq<IpModel>) -> bool {
    a.len() == b.len() && forall|i: int| 0 <= i < a.len() ==> (#[trigger] a[i]).same(b[i])
}

fn is_same_addresses(a: &Vec<IpAddress>, b: &Vec<IpAddress>) -> (out: bool)
    ensures
        out == same_addresses(a.deep_view(), b.deep_view()),
{
    if a.len() != b.len() {
        return false;
    }
    let mut i: usize = 0;
    while i < a.len()
        invariant
            i <= a@.len(),
            a@.len() == b@.len(),
            forall|j: int|
                0 <= j < i ==> (#[trigger] a.deep_view()[j]).same(b.deep_view()[j]),
        decreases a@.len() - i,
    {
        if !a[i].same(&b[i]) {
            assert(!a.deep_view()[i as int].same(b.deep_view()[i as int]));
            return false;
        }
        i += 1;
    }
    true
}

/// Whether a resolution at `now_ms` is worth forwarding, given what was forwarded of
/// that machine before.
pub open spec fn worth_forwarding(
    last: Option<SightingModel>,
    found: DiscoveredModel,
    now_ms: u64,
) -> bool {
    match last {
        None => true,
        Some(last) => {
            let unchanged = same_addresses(last.addresses, found.addresses) && last.name
                == found.name && now_ms - last.at_ms < UNCHANGED_MS;
            let too_soon = now_ms - last.at_ms < TOO_SOON_MS;
            !unchanged && !too_soon
        },
    }
}

/// What a resolved service says about a machine, with the given addresses.
pub open spec fn described(
    service: MdnsService,
    addresses: Seq<IpModel>,
    now: u64,
) -> DiscoveredModel {
    DiscoveredModel {
        device_id: service.id->Some_0@,
        name: match service.name {
            Some(name) => name@,
            None => service.fullname@,
        },
        os: match service.os {
            Some(word) => OsKind::of_target(word@),
            None => OsKind::Unknown,
        },
        fingerprint: match service.fingerprint {
            Some(text) => text@,
            None => Seq::empty(),
        },
        addresses,
        port: service.port,
        source: DiscoverSource::Mdns,
        last_seen: now,
    }
}

/// Remembers what was forwarded from multicast DNS.
///
/// The resolver re-resolves a service every time the network answers, which on a busy
/// network means many events a second for a machine that has not changed at all. Only
/// an actual change is forwarded, and at most a refresh every so often even then.
#[derive(Debug, PartialEq)]
pub struct MdnsFilter {
    pub seen: Vec<Sighting>,
}

impl MdnsFilter {
    pub fn new() -> (out: Self)
        ensures
            out.seen.deep_view() == Seq::<SightingModel>::empty(),
    {
        let seen: Vec<Sighting> = Vec::new();
        assert(seen.deep_view() =~= Seq::<SightingModel>::empty());
        MdnsFilter { seen }
    }

    /// Takes a resolved service and says what, if anything, to forward.
    pub fn on_resolved(&mut self, service: MdnsService, now: u64, now_ms: u64) -> (out: Option<
        Discovered,
    >)
        ensures
            service.id is None ==> out is None && *final(self) == *old(self),
            service.id matches Some(id) ==> exists|addresses: Seq<IpModel>| #[trigger]
                usable_addresses_of(service.addresses.deep_view(), addresses) && {
                    let found = described(service, addresses, now);
                    let seen = old(self).seen.deep_view();
                    if addresses.len() > 0 && worth_forwarding(find(seen, id@), found, now_ms) {
                        &&& out.deep_view() == Some(found)
                        &&& final(self).seen.deep_view() == put(
                            seen,
                            SightingModel {
                                device_id: id@,
                                addresses,
                                name: found.name,
                                at_ms: now_ms,
                            },
                        )
                    } else {
                        out is None && final(self).seen.deep_view() == seen
                    }
                },
    {
        let ghost whole = service;
        let device_id = match service.id {
            Some(id) => DeviceId(id),
            None => return None,
        };
        let addresses = usable_addresses(&service.addresses);
        let ghost ips = addresses.deep_view();
        if addresses.len() == 0 {
            return None;
        }
        let name = match service.name {
            Some(name) => name,
            None => service.fullname,
        };
        let os = match service.os {
            Some(word) => parse_os(word.as_str()),
            None => OsKind::Unknown,
        };
        let fingerprint = match service.fingerprint {
            Some(text) => text,
            None => String::new(),
        };
        let at: usize = position(&self.seen, &device_id);
        if at < self.seen.len() {
            let last = &self.seen[at];
            let age: u64 = now_ms.saturating_sub(last.at_ms);
            let unchanged = is_same_addresses(&last.addresses, &addresses) && same_text(
                last.name.as_str(),
                name.as_str(),
            ) && age < UNCHANGED_MS;
            let too_soon = age < TOO_SOON_MS;
            if unchanged || too_soon {
                return None;
            }
        }
        let entry = Sighting {
            device_id: device_id.clone(),
            addresses: clone_addresses(&addresses),
            name: name.clone(),
            at_ms: now_ms,
        };
        let found = Discovered {
            device_id: device_id.clone(),
            name,
            os,
            fingerprint,
            addresses,
            port: service.port,
            source: DiscoverSource::Mdns,
            last_seen: now,
        };
        assert(found.deep_view() == described(whole, ips, now));
        replace_or_push(&mut self.seen, &device_id, entry);
        Some(found)
    }
}

} // verus!
