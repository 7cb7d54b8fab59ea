//! Sending and receiving files.

use vstd::prelude::*;
use vstd::string::*;

use crate::engine::state::{
    Action, ActionModel, ChunkTarget, Engine, EngineModel, Moment, TargetModel, TransferEntry,
    TransferEntryModel,
};
use crate::identity::DeviceId;
use crate::keyed::{find, index_of, position, put, replace_or_push};
use crate::lists::{empty_list, push_item, set_item};
use crate::paths::{clone_parts, PathPart, PathPartModel};
use crate::protocol::{
    FileAccept, FileAcceptModel, FileChunk, FileChunkModel, FileFinished, FileFinishedModel,
    FileOffer, FileOfferModel, FileProgressReport, Message, MessageModel, TransferId,
};
use crate::text::{cat2, cat3, cat4, decimal, format_decimal};
use crate::transfer::{
    announced_bytes, collect_entries, entries_of, entry_position, landing, new_incoming,
    new_outgoing, node_count_first, sanitize_relative, walked_first, FsNode, IncomingModel,
    IncomingTransfer, LocalPath, LocalPathModel, OutgoingFile, OutgoingFileModel, OutgoingModel,
    OutgoingTransfer, Walked,
};
use crate::view::TransferState;

verus! {

/// The user wants to send files to a machine.
#[verifier::opaque]
pub open spec fn files_chosen(
    m: EngineModel,
    peer: Seq<char>,
    paths: Seq<LocalPathModel>,
) -> EngineModel {
    if !m.settings.transfer.enabled {
        m.warns("File transfer is turned off."@)
    } else {
        match find(m.sessions, peer) {
            None => m.warns("That machine is not connected."@),
            Some(session) => if session.state is Connected {
                m.does(ActionModel::ReadFiles { peer, paths })
            } else {
                m.warns("Pair with that machine before sending files."@)
            },
        }
    }
}

/// The offer that a transfer makes.
pub open spec fn offer_of(transfer: OutgoingModel, sender_name: Seq<char>) -> FileOfferModel {
    FileOfferModel {
        transfer: transfer.id,
        sender_name,
        total_bytes: transfer.total_bytes,
        files: entries_of(transfer.files),
    }
}

/// The files to send were looked at.
#[verifier::opaque]
pub open spec fn files_collected(
    m: EngineModel,
    peer: Seq<char>,
    walked: Walked,
    draw: u64,
    at: Moment,
) -> EngineModel {
    match walked {
        Err(e) => m.alarms("Could not read those files: "@ + e.sentence()),
        Ok(files) => if files.len() == 0 {
            m.warns("Nothing to send."@)
        } else {
            match find(m.sessions, peer) {
                None => m,
                Some(session) => {
                    let transfer = new_outgoing(
                        TransferId(draw),
                        peer,
                        session.info.name,
                        files,
                        at.unix,
                    );
                    m.does(
                        ActionModel::OfferFiles {
                            connection: session.connection,
                            message: MessageModel::FileOffer(
                                offer_of(transfer, m.settings.device_name),
                            ),
                            transfer,
                        },
                    )
                },
            }
        },
    }
}

/// An offer was sent, or not for the given reason.
#[verifier::opaque]
pub open spec fn offer_answered(
    m: EngineModel,
    transfer: OutgoingModel,
    error: Option<Seq<char>>,
    at: Moment,
) -> EngineModel {
    match error {
        Some(reason) => m.alarms("Could not offer the files: "@ + reason),
        None => m.with_transfer(
            TransferEntryModel::Outgoing { transfer, state: TransferState::Pending },
        ).publishes(at),
    }
}

/// Where the directories of a transfer go; the other entries stay as they are.
pub open spec fn folders_resolved(t: IncomingModel) -> Seq<Option<Seq<PathPartModel>>> {
    Seq::new(
        t.resolved.len(),
        |i: int|
            if i < t.entries.len() && t.entries[i].is_dir {
                match landing(t.entries[i].relative_path, t.root.parts) {
                    Ok(path) => Some(path),
                    Err(_) => t.resolved[i],
                }
            } else {
                t.resolved[i]
            },
    )
}

/// The directories to create for the first `n` entries of a transfer.
pub open spec fn folders_of(t: IncomingModel, n: nat) -> Seq<Seq<PathPartModel>>
    decreases n,
{
    if n == 0 {
        Seq::empty()
    } else {
        let before = folders_of(t, (n - 1) as nat);
        let entry = t.entries[n - 1];
        if entry.is_dir {
            match landing(entry.relative_path, t.root.parts) {
                Ok(path) => before.push(path),
                Err(_) => before,
            }
        } else {
            before
        }
    }
}

/// A transfer that was offered is accepted: its directories are created first.
#[verifier::opaque]
pub open spec fn transfer_accepted(m: EngineModel, id: TransferId) -> EngineModel {
    match find(m.transfers, id) {
        Some(TransferEntryModel::Incoming { transfer, state, error }) => if state
            == TransferState::Pending {
            m.with_transfer(
                TransferEntryModel::Incoming {
                    transfer: IncomingModel { resolved: folders_resolved(transfer), ..transfer },
                    state: TransferState::Active,
                    error,
                },
            ).does(
                ActionModel::CreateFolders {
                    transfer: id,
                    folders: folders_of(transfer, transfer.entries.len()),
                },
            )
        } else {
            m
        },
        _ => m,
    }
}

/// The directories of a transfer were created, as far as `errors` do not say otherwise.
#[verifier::opaque]
pub open spec fn folders_created(
    m: EngineModel,
    id: TransferId,
    errors: Seq<Seq<char>>,
    at: Moment,
) -> EngineModel {
    match find(m.transfers, id) {
        Some(TransferEntryModel::Incoming { transfer, state, error }) => m.with_transfer(
            TransferEntryModel::Incoming {
                transfer,
                state,
                error: if errors.len() > 0 {
                    Some(errors.last())
                } else {
                    error
                },
            },
        ).sends_either(
            transfer.peer,
            MessageModel::FileAccept(FileAcceptModel { transfer: id, rejected: Seq::empty() }),
        ).publishes(at),
        _ => m,
    }
}

/// Whether the session with a peer is one between machines that trust each other.
pub open spec fn trusts(m: EngineModel, peer: Seq<char>) -> bool {
    find(m.sessions, peer) matches Some(session) && session.trusted
}

/// A peer offers files.
#[verifier::opaque]
pub open spec fn file_offered(
    m: EngineModel,
    peer: Seq<char>,
    offer: FileOfferModel,
    at: Moment,
) -> EngineModel {
    if !m.settings.transfer.enabled {
        m.sends(
            peer,
            MessageModel::FileCancel {
                transfer: offer.transfer,
                reason: "file transfer is disabled here"@,
            },
        )
    } else {
        let noted = m.with_transfer(
            TransferEntryModel::Incoming {
                transfer: new_incoming(
                    offer.transfer,
                    peer,
                    offer.sender_name,
                    offer.files,
                    m.settings.transfer.download_dir,
                    at.unix,
                ),
                state: TransferState::Pending,
                error: None,
            },
        ).informs(
            offer.sender_name + " wants to send "@ + decimal(offer.files.len()) + " item(s)."@,
        );
        if trusts(m, peer) && m.settings.transfer.auto_accept_trusted {
            transfer_accepted(noted, offer.transfer)
        } else {
            noted.publishes(at)
        }
    }
}

/// The local user cancels a transfer.
#[verifier::opaque]
pub open spec fn transfer_cancelled(m: EngineModel, id: TransferId, at: Moment) -> EngineModel {
    match find(m.transfers, id) {
        Some(entry) => m.sends_either(
            entry.with_whom(),
            MessageModel::FileCancel { transfer: id, reason: "cancelled by the user"@ },
        ).with_transfer(entry.in_state(TransferState::Cancelled)),
        None => m,
    }.publishes(at)
}

/// The peer cancels a transfer.
#[verifier::opaque]
pub open spec fn file_cancelled(
    m: EngineModel,
    id: TransferId,
    reason: Seq<char>,
    at: Moment,
) -> EngineModel {
    match find(m.transfers, id) {
        Some(entry) => m.with_transfer(entry.in_state(TransferState::Cancelled)),
        None => m,
    }.warns("Transfer cancelled: "@ + reason).publishes(at)
}

/// The first `n` files without those that the peer rejects.
pub open spec fn wanted_files(
    files: Seq<OutgoingFileModel>,
    rejected: Seq<u32>,
    n: nat,
) -> Seq<OutgoingFileModel>
    decreases n,
{
    if n == 0 {
        Seq::empty()
    } else if rejected.contains(files[n - 1].entry.index) {
        wanted_files(files, rejected, (n - 1) as nat)
    } else {
        wanted_files(files, rejected, (n - 1) as nat).push(files[n - 1])
    }
}

/// The peer accepts an offer: the files are streamed.
#[verifier::opaque]
pub open spec fn offer_accepted(
    m: EngineModel,
    accept: FileAcceptModel,
    at: Moment,
) -> EngineModel {
    match find(m.transfers, accept.transfer) {
        Some(TransferEntryModel::Outgoing { transfer, .. }) => {
            let active = m.with_transfer(
                TransferEntryModel::Outgoing {
                    transfer: OutgoingModel { accepted: true, ..transfer },
                    state: TransferState::Active,
                },
            );
            match find(m.sessions, transfer.peer) {
                Some(session) => active.does(
                    ActionModel::StartSender {
                        transfer: transfer.id,
                        connection: session.connection,
                        files: wanted_files(
                            transfer.files,
                            accept.rejected,
                            transfer.files.len(),
                        ),
                    },
                ).publishes(at),
                None => active,
            }
        },
        _ => m,
    }
}

/// A finished transfer shows as complete where nothing was counted.
pub open spec fn counted(done: u64, total: u64) -> u64 {
    if done == 0 {
        total
    } else {
        done
    }
}

/// The stream of a transfer ended, with an error where there is one.
#[verifier::opaque]
pub open spec fn stream_ended(
    m: EngineModel,
    id: TransferId,
    error: Option<Seq<char>>,
    at: Moment,
) -> EngineModel {
    match find(m.transfers, id) {
        Some(TransferEntryModel::Outgoing { transfer, .. }) => {
            let over = m.with_transfer(
                TransferEntryModel::Outgoing {
                    transfer: OutgoingModel {
                        finished: true,
                        done_bytes: counted(transfer.done_bytes, transfer.total_bytes),
                        ..transfer
                    },
                    state: if error is Some {
                        TransferState::Failed
                    } else {
                        TransferState::Completed
                    },
                },
            );
            match error {
                Some(reason) => over.alarms(
                    "Sending to "@ + transfer.peer_name + " failed: "@ + reason,
                ),
                None => over.informs("Files sent to "@ + transfer.peer_name + "."@),
            }
        },
        _ => m,
    }.publishes(at)
}

/// Some bytes of a transfer were sent.
#[verifier::opaque]
pub open spec fn bytes_sent(m: EngineModel, id: TransferId, bytes: u64) -> EngineModel {
    match find(m.transfers, id) {
        Some(TransferEntryModel::Outgoing { transfer, state }) => m.with_transfer(
            TransferEntryModel::Outgoing {
                transfer: OutgoingModel {
                    done_bytes: plus(transfer.done_bytes, bytes),
                    ..transfer
                },
                state,
            },
        ),
        _ => m,
    }
}

/// The sum of two numbers, or the largest number where it does not fit.
pub open spec fn plus(a: u64, b: u64) -> u64 {
    if a + b > u64::MAX {
        u64::MAX
    } else {
        (a + b) as u64
    }
}

/// The difference of two numbers, or zero.
pub open spec fn minus(a: u64, b: u64) -> u64 {
    if a < b {
        0
    } else {
        (a - b) as u64
    }
}

/// The peer reports how far one of the files is that it sends.
#[verifier::opaque]
pub open spec fn progress_reported(m: EngineModel, report: FileProgressReport) -> EngineModel {
    match find(m.transfers, report.transfer) {
        Some(TransferEntryModel::Incoming { transfer, state, error }) => match entry_position(
            transfer.entries,
            report.index,
        ) {
            Some(i) => m.with_transfer(
                TransferEntryModel::Incoming {
                    transfer: IncomingModel {
                        written: transfer.written.update(i, report.bytes_done),
                        done_bytes: (minus(transfer.done_bytes, transfer.written[i])
                            + report.bytes_done) as u64,
                        ..transfer
                    },
                    state,
                    error,
                },
            ),
            None => m,
        },
        _ => m,
    }
}

/// Whether the bytes that a report makes of a transfer fit in their count.
pub open spec fn report_fits(m: EngineModel, report: FileProgressReport) -> bool {
    find(m.transfers, report.transfer) matches Some(
        TransferEntryModel::Incoming { transfer, .. },
    ) ==> (entry_position(transfer.entries, report.index) matches Some(i) ==> minus(
        transfer.done_bytes,
        transfer.written[i],
    ) + report.bytes_done <= u64::MAX)
}

/// A piece of a file arrived.
#[verifier::opaque]
pub open spec fn chunk_received(m: EngineModel, chunk: FileChunkModel) -> EngineModel {
    match find(m.transfers, chunk.transfer) {
        Some(TransferEntryModel::Incoming { transfer, state, error }) => match entry_position(
            transfer.entries,
            chunk.index,
        ) {
            Some(i) => if state != TransferState::Active || transfer.entries[i].is_dir {
                m
            } else {
                match transfer.resolved[i] {
                    Some(path) => m.does(
                        ActionModel::WriteChunk {
                            chunk,
                            position: i,
                            target: TargetModel::Known(path),
                        },
                    ),
                    None => match landing(transfer.entries[i].relative_path, transfer.root.parts) {
                        Ok(path) => m.does(
                            ActionModel::WriteChunk {
                                chunk,
                                position: i,
                                target: TargetModel::Fresh {
                                    path,
                                    overwrite: m.settings.transfer.overwrite_existing,
                                },
                            },
                        ),
                        Err(e) => m.with_transfer(
                            TransferEntryModel::Incoming {
                                transfer,
                                state: TransferState::Failed,
                                error: Some(e.sentence()),
                            },
                        ),
                    },
                }
            },
            None => m,
        },
        _ => m,
    }
}

/// How the writing of a chunk went.
#[derive(Debug, PartialEq)]
pub struct ChunkOutcome {
    pub transfer: TransferId,
    pub position: usize,
    /// Where the file was placed, where it had to be placed and could be.
    pub placed: Option<Vec<PathPart>>,
    pub len: u64,
    pub error: Option<String>,
}

#[verifier::ext_equal]
pub struct ChunkOutcomeModel {
    pub transfer: TransferId,
    pub position: int,
    pub placed: Option<Seq<PathPartModel>>,
    pub len: u64,
    pub error: Option<Seq<char>>,
}

impl DeepView for ChunkOutcome {
    type V = ChunkOutcomeModel;

    open spec fn deep_view(&self) -> ChunkOutcomeModel {
        ChunkOutcomeModel {
            transfer: self.transfer,
            position: self.position as int,
            placed: self.placed.deep_view(),
            len: self.len,
            error: self.error.deep_view(),
        }
    }
}

/// A chunk was written, or not.
#[verifier::opaque]
pub open spec fn chunk_written(m: EngineModel, outcome: ChunkOutcomeModel) -> EngineModel {
    match find(m.transfers, outcome.transfer) {
        Some(TransferEntryModel::Incoming { transfer, state, error }) => {
            let i = outcome.position;
            if i < 0 || i >= transfer.entries.len() {
                m
            } else {
                let placed = IncomingModel {
                    resolved: match outcome.placed {
                        Some(path) => transfer.resolved.update(i, Some(path)),
                        None => transfer.resolved,
                    },
                    ..transfer
                };
                m.with_transfer(
                    match outcome.error {
                        Some(reason) => TransferEntryModel::Incoming {
                            transfer: placed,
                            state: TransferState::Failed,
                            error: Some(reason),
                        },
                        None => TransferEntryModel::Incoming {
                            transfer: IncomingModel {
                                written: transfer.written.update(
                                    i,
                                    plus(transfer.written[i], outcome.len),
                                ),
                                done_bytes: plus(transfer.done_bytes, outcome.len),
                                ..placed
                            },
                            state,
                            error,
                        },
                    },
                )
            }
        },
        _ => m,
    }
}

/// The peer has sent everything.
#[verifier::opaque]
pub open spec fn files_finished(
    m: EngineModel,
    finished: FileFinishedModel,
    at: Moment,
) -> EngineModel {
    match find(m.transfers, finished.transfer) {
        Some(TransferEntryModel::Incoming { transfer, state, error }) => m.with_transfer(
            TransferEntryModel::Incoming {
                transfer: IncomingModel {
                    done_bytes: counted(transfer.done_bytes, transfer.total_bytes),
                    ..transfer
                },
                state: if finished.failed.len() > 0 {
                    TransferState::Failed
                } else {
                    TransferState::Completed
                },
                error: if finished.failed.len() > 0 {
                    Some(finished.failed[0].1)
                } else {
                    error
                },
            },
        ).does(ActionModel::CloseFiles { transfer: finished.transfer }).informs(
            "Files from "@ + transfer.peer_name + " saved to "@ + transfer.root.text,
        ),
        _ => m,
    }.publishes(at)
}

/// The transfers that are not over.
pub open spec fn unfinished(transfers: Seq<TransferEntryModel>) -> Seq<TransferEntryModel>
    decreases transfers.len(),
{
    if transfers.len() == 0 {
        transfers
    } else if transfers.last().progress_state().over() {
        unfinished(transfers.drop_last())
    } else {
        unfinished(transfers.drop_last()).push(transfers.last())
    }
}

/// An inbound transfer keeps one place and one count for each entry.
pub open spec fn transfer_sound(entry: TransferEntryModel) -> bool {
    entry matches TransferEntryModel::Incoming { transfer, .. } ==> transfer.resolved.len()
        == transfer.entries.len() && transfer.written.len() == transfer.entries.len()
}

/// Every transfer is sound.
pub open spec fn transfers_sound(transfers: Seq<TransferEntryModel>) -> bool {
    forall|i: int| 0 <= i < transfers.len() ==> transfer_sound(#[trigger] transfers[i])
}

fn contains_index(rejected: &Vec<u32>, index: u32) -> (out: bool)
    ensures
        out == rejected@.contains(index),
{
    let mut i: usize = 0;
    while i < rejected.len()
        invariant
            i <= rejected@.len(),
            forall|j: int| 0 <= j < i ==> rejected@[j] != index,
        decreases rejected@.len() - i,
    {
        if rejected[i] == index {
            return true;
        }
        i += 1;
    }
    false
}

fn without_rejected(files: &Vec<OutgoingFile>, rejected: &Vec<u32>) -> (out: Vec<OutgoingFile>)
    ensures
        out.deep_view() == wanted_files(files.deep_view(), rejected@, files@.len()),
{
    let ghost all = files.deep_view();
    let mut out: Vec<OutgoingFile> = empty_list();
    let mut i: usize = 0;
    while i < files.len()
        invariant
            i <= files@.len(),
            all == files.deep_view(),
            out.deep_view() == wanted_files(all, rejected@, i as nat),
        decreases files@.len() - i,
    {
        assert(all[i as int] == files@[i as int].deep_view());
        if !contains_index(rejected, files[i].entry.index) {
            push_item(&mut out, files[i].clone());
        }
        i += 1;
    }
    out
}

impl IncomingTransfer {
    /// Decides where the directories of the transfer go, and lists them.
    #[verifier::spinoff_prover]
    fn resolve_folders(&mut self) -> (folders: Vec<Vec<PathPart>>)
        requires
            old(self).resolved@.len() == old(self).entries@.len(),
        ensures
            final(self).deep_view() == (IncomingModel {
                resolved: folders_resolved(old(self).deep_view()),
                ..old(self).deep_view()
            }),
            folders.deep_view() == folders_of(
                old(self).deep_view(),
                old(self).deep_view().entries.len(),
            ),
    {
        let ghost t = self.deep_view();
        let ghost want = folders_resolved(t);
        let mut folders: Vec<Vec<PathPart>> = empty_list();
        let mut i: usize = 0;
        assert(want.take(0) + t.resolved.skip(0) =~= t.resolved);
        while i < self.entries.len()
            invariant
                i <= self.entries@.len(),
                self.entries@.len() == t.entries.len(),
                self.resolved@.len() == self.entries@.len(),
                t.resolved.len() == t.entries.len(),
                want == folders_resolved(t),
                self.deep_view() == (IncomingModel {
                    resolved: want.take(i as int) + t.resolved.skip(i as int),
                    ..t
                }),
                folders.deep_view() == folders_of(t, i as nat),
            decreases self.entries@.len() - i,
        {
            let ghost before = self.resolved.deep_view();
            assert(before == want.take(i as int) + t.resolved.skip(i as int));
            assert(before[i as int] == t.resolved[i as int]);
            assert(t.entries[i as int] == self.entries@[i as int].deep_view());
            if self.entries[i].is_dir {
                match sanitize_relative(
                    self.entries[i].relative_path.as_str(),
                    &self.root.parts,
                ) {
                    Ok(path) => {
                        push_item(&mut folders, clone_parts(&path));
                        set_item(&mut self.resolved, i, Some(path));
                    },
                    Err(_) => {},
                }
            }
            assert(self.resolved.deep_view() =~= want.take(i as int + 1) + t.resolved.skip(
                i as int + 1,
            ));
            i += 1;
        }
        assert(want.take(i as int) + t.resolved.skip(i as int) =~= want);
        folders
    }
}

impl Engine {
    /// The user wants to send files to a machine.
    #[verifier::spinoff_prover]
    pub fn send_files(&mut self, peer: DeviceId, paths: Vec<LocalPath>)
        ensures
            final(self).deep_view() == files_chosen(
                old(self).deep_view(),
                peer@,
                paths.deep_view(),
            ),
    {
        proof {
            reveal(files_chosen);
        }
        if !self.settings.transfer.enabled {
            self.warn("File transfer is turned off.");
            return;
        }
        let connected = match self.session(&peer) {
            Some(session) => session.state.is_connected(),
            None => {
                self.warn("That machine is not connected.");
                return;
            },
        };
        if !connected {
            self.warn("Pair with that machine before sending files.");
            return;
        }
        self.emit(Action::ReadFiles { peer, paths });
    }

    /// The files to send were looked at.
    #[verifier::spinoff_prover]
    pub fn on_files_read(&mut self, peer: DeviceId, nodes: &Vec<FsNode>, draw: u64, at: Moment)
        requires
            node_count_first(*nodes, nodes@.len()) <= u32::MAX,
            walked_first(*nodes, nodes@.len(), Seq::empty(), 0) matches Ok(files)
                ==> announced_bytes(entries_of(files)) <= u64::MAX,
        ensures
            final(self).deep_view() == files_collected(
                old(self).deep_view(),
                peer@,
                walked_first(*nodes, nodes@.len(), Seq::empty(), 0),
                draw,
                at,
            ),
    {
        proof {
            reveal(files_collected);
        }
        let files = match collect_entries(nodes) {
            Ok(files) => files,
            Err(e) => {
                let text = cat2("Could not read those files: ", e.message().as_str());
                self.alarm(text.as_str());
                return;
            },
        };
        if files.len() == 0 {
            self.warn("Nothing to send.");
            return;
        }
        let i: usize = position(&self.sessions, &peer);
        if i >= self.sessions.len() {
            return;
        }
        let connection: u64 = self.sessions[i].connection;
        let name = self.sessions[i].info.name.clone();
        let transfer = OutgoingTransfer::new(TransferId(draw), peer, name, files, at.unix);
        let offer = FileOffer {
            transfer: transfer.id,
            sender_name: self.settings.device_name.clone(),
            total_bytes: transfer.total_bytes,
            files: transfer.entries(),
        };
        self.emit(
            Action::OfferFiles {
                connection,
                message: Message::FileOffer(offer),
                transfer: Box::new(transfer),
            },
        );
    }

    /// An offer was sent, or not for the given reason.
    #[verifier::spinoff_prover]
    pub fn on_offer_sent(&mut self, transfer: OutgoingTransfer, error: Option<String>, at: Moment)
        ensures
            final(self).deep_view() == offer_answered(
                old(self).deep_view(),
                transfer.deep_view(),
                error.deep_view(),
                at,
            ),
    {
        proof {
            reveal(offer_answered);
        }
        if let Some(reason) = error {
            let text = cat2("Could not offer the files: ", reason.as_str());
            self.alarm(text.as_str());
            return;
        }
        let id = transfer.id;
        replace_or_push(
            &mut self.transfers,
            &id,
            TransferEntry::Outgoing { transfer, state: TransferState::Pending },
        );
        self.publish(at);
    }

    /// A peer offers files.
    #[verifier::spinoff_prover]
    pub fn on_file_offer(&mut self, peer: DeviceId, offer: FileOffer, at: Moment)
        requires
            announced_bytes(offer.deep_view().files) <= u64::MAX,
            transfers_sound(old(self).deep_view().transfers),
        ensures
            final(self).deep_view() == file_offered(
                old(self).deep_view(),
                peer@,
                offer.deep_view(),
                at,
            ),
    {
        proof {
            reveal(file_offered);
        }
        let id = offer.transfer;
        if !self.settings.transfer.enabled {
            self.send(
                &peer,
                Message::FileCancel {
                    transfer: id,
                    reason: "file transfer is disabled here".to_owned(),
                },
            );
            return;
        }
        let trusted = match self.session(&peer) {
            Some(session) => session.trusted,
            None => false,
        };
        let auto = self.settings.transfer.auto_accept_trusted;
        self.note_offer(peer, offer, at);
        if trusted && auto {
            proof {
                lemma_put_sound(old(self).deep_view().transfers, self.deep_view().transfers);
            }
            self.accept_transfer(id);
        } else {
            self.publish(at);
        }
    }

    #[verifier::spinoff_prover]
    fn note_offer(&mut self, peer: DeviceId, offer: FileOffer, at: Moment)
        requires
            announced_bytes(offer.deep_view().files) <= u64::MAX,
        ensures
            final(self).deep_view() == old(self).deep_view().with_transfer(
                TransferEntryModel::Incoming {
                    transfer: new_incoming(
                        offer.transfer,
                        peer@,
                        offer.sender_name@,
                        offer.deep_view().files,
                        old(self).deep_view().settings.transfer.download_dir,
                        at.unix,
                    ),
                    state: TransferState::Pending,
                    error: None,
                },
            ).informs(
                offer.sender_name@ + " wants to send "@ + decimal(offer.deep_view().files.len())
                    + " item(s)."@,
            ),
    {
        let id = offer.transfer;
        let count = format_decimal(offer.files.len() as u64);
        let text = cat4(offer.sender_name.as_str(), " wants to send ", count.as_str(), " item(s).");
        let transfer = IncomingTransfer::new(
            id,
            peer,
            offer.sender_name,
            offer.files,
            self.settings.transfer.download_dir.clone(),
            at.unix,
        );
        replace_or_push(
            &mut self.transfers,
            &id,
            TransferEntry::Incoming { transfer, state: TransferState::Pending, error: None },
        );
        self.inform(text.as_str());
    }

    /// A transfer that was offered is accepted.
    #[verifier::spinoff_prover]
    pub fn accept_transfer(&mut self, id: TransferId)
        requires
            transfers_sound(old(self).deep_view().transfers),
        ensures
            final(self).deep_view() == transfer_accepted(old(self).deep_view(), id),
    {
        proof {
            reveal(transfer_accepted);
        }
        let i: usize = position(&self.transfers, &id);
        if i >= self.transfers.len() {
            return;
        }
        let ghost before = self.transfers.deep_view();
        assert(transfer_sound(before[i as int]));
        let folders = match &mut self.transfers[i] {
            TransferEntry::Incoming { transfer, state, .. } => {
                if !matches!(*state, TransferState::Pending) {
                    return;
                }
                *state = TransferState::Active;
                transfer.resolve_folders()
            },
            _ => return,
        };
        proof {
            let old_entry = before[i as int];
            if let TransferEntryModel::Incoming { transfer, state, error } = old_entry {
                assert(self.transfers.deep_view() =~= put(
                    before,
                    TransferEntryModel::Incoming {
                        transfer: IncomingModel {
                            resolved: folders_resolved(transfer),
                            ..transfer
                        },
                        state: TransferState::Active,
                        error,
                    },
                ));
            }
        }
        self.emit(Action::CreateFolders { transfer: id, folders });
    }

    /// The directories of a transfer were created, as far as `errors` do not say
    /// otherwise.
    #[verifier::spinoff_prover]
    pub fn on_folders_created(&mut self, id: TransferId, errors: Vec<String>, at: Moment)
        ensures
            final(self).deep_view() == folders_created(
                old(self).deep_view(),
                id,
                errors.deep_view(),
                at,
            ),
    {
        proof {
            reveal(folders_created);
        }
        let i: usize = position(&self.transfers, &id);
        if i >= self.transfers.len() {
            return;
        }
        let ghost before = self.transfers.deep_view();
        let last = if errors.len() > 0 {
            Some(errors[errors.len() - 1].clone())
        } else {
            None
        };
        assert(errors.deep_view().len() == errors@.len());
        let peer = match &mut self.transfers[i] {
            TransferEntry::Incoming { transfer, error, .. } => {
                if last.is_some() {
                    *error = last;
                }
                transfer.peer.clone()
            },
            _ => return,
        };
        proof {
            if let TransferEntryModel::Incoming { transfer, state, error } = before[i as int] {
                assert(self.transfers.deep_view() =~= put(
                    before,
                    TransferEntryModel::Incoming {
                        transfer,
                        state,
                        error: if errors.deep_view().len() > 0 {
                            Some(errors.deep_view().last())
                        } else {
                            error
                        },
                    },
                ));
            }
        }
        let rejected: Vec<u32> = Vec::new();
        assert(rejected@ =~= Seq::<u32>::empty());
        self.send_to(&peer, Message::FileAccept(FileAccept { transfer: id, rejected }));
        self.publish(at);
    }

    /// The local user cancels a transfer.
    #[verifier::spinoff_prover]
    pub fn cancel_transfer(&mut self, id: TransferId, at: Moment)
        ensures
            final(self).deep_view() == transfer_cancelled(old(self).deep_view(), id, at),
    {
        proof {
            reveal(transfer_cancelled);
        }
        let i: usize = position(&self.transfers, &id);
        if i < self.transfers.len() {
            let peer = match &self.transfers[i] {
                TransferEntry::Outgoing { transfer, .. } => transfer.peer.clone(),
                TransferEntry::Incoming { transfer, .. } => transfer.peer.clone(),
            };
            self.send_to(
                &peer,
                Message::FileCancel { transfer: id, reason: "cancelled by the user".to_owned() },
            );
            self.mark(i, TransferState::Cancelled);
        }
        self.publish(at);
    }

    fn mark(&mut self, i: usize, state: TransferState)
        requires
            i < old(self).transfers@.len(),
            i == index_of(
                old(self).deep_view().transfers,
                crate::keyed::Keyed::key(&old(self).deep_view().transfers[i as int]),
            ),
        ensures
            final(self).deep_view() == old(self).deep_view().with_transfer(
                old(self).deep_view().transfers[i as int].in_state(state),
            ),
    {
        let ghost before = self.transfers.deep_view();
        self.transfers[i].set_state(state);
        assert(self.transfers.deep_view() =~= put(before, before[i as int].in_state(state)));
    }

    /// The peer cancels a transfer.
    #[verifier::spinoff_prover]
    pub fn on_file_cancelled(&mut self, id: TransferId, reason: String, at: Moment)
        ensures
            final(self).deep_view() == file_cancelled(old(self).deep_view(), id, reason@, at),
    {
        proof {
            reveal(file_cancelled);
        }
        let i: usize = position(&self.transfers, &id);
        if i < self.transfers.len() {
            self.mark(i, TransferState::Cancelled);
        }
        let text = cat2("Transfer cancelled: ", reason.as_str());
        self.warn(text.as_str());
        self.publish(at);
    }

    /// The peer accepts an offer.
    #[verifier::spinoff_prover]
    pub fn on_file_accept(&mut self, accept: FileAccept, at: Moment)
        ensures
            final(self).deep_view() == offer_accepted(
                old(self).deep_view(),
                accept.deep_view(),
                at,
            ),
    {
        proof {
            reveal(offer_accepted);
        }
        let i: usize = position(&self.transfers, &accept.transfer);
        if i >= self.transfers.len() {
            return;
        }
        let ghost before = self.transfers.deep_view();
        let (peer, files) = match &mut self.transfers[i] {
            TransferEntry::Outgoing { transfer, state } => {
                *state = TransferState::Active;
                transfer.accepted = true;
                (transfer.peer.clone(), without_rejected(&transfer.files, &accept.rejected))
            },
            _ => return,
        };
        proof {
            if let TransferEntryModel::Outgoing { transfer, .. } = before[i as int] {
                assert(self.transfers.deep_view() =~= put(
                    before,
                    TransferEntryModel::Outgoing {
                        transfer: OutgoingModel { accepted: true, ..transfer },
                        state: TransferState::Active,
                    },
                ));
            }
        }
        let j: usize = position(&self.sessions, &peer);
        if j >= self.sessions.len() {
            return;
        }
        let connection: u64 = self.sessions[j].connection;
        self.emit(Action::StartSender { transfer: accept.transfer, connection, files });
        self.publish(at);
    }

    /// The stream of a transfer ended.
    #[verifier::spinoff_prover]
    pub fn on_transfer_done(&mut self, id: TransferId, error: Option<String>, at: Moment)
        ensures
            final(self).deep_view() == stream_ended(
                old(self).deep_view(),
                id,
                error.deep_view(),
                at,
            ),
    {
        proof {
            reveal(stream_ended);
        }
        let i: usize = position(&self.transfers, &id);
        if i < self.transfers.len() {
            self.close_stream(i, error);
        }
        self.publish(at);
    }

    #[verifier::spinoff_prover]
    fn close_stream(&mut self, i: usize, error: Option<String>)
        requires
            i < old(self).transfers@.len(),
            i == index_of(
                old(self).deep_view().transfers,
                crate::keyed::Keyed::key(&old(self).deep_view().transfers[i as int]),
            ),
        ensures
            final(self).deep_view() == (match old(self).deep_view().transfers[i as int] {
                TransferEntryModel::Outgoing { transfer, .. } => {
                    let over = old(self).deep_view().with_transfer(
                        TransferEntryModel::Outgoing {
                            transfer: OutgoingModel {
                                finished: true,
                                done_bytes: counted(transfer.done_bytes, transfer.total_bytes),
                                ..transfer
                            },
                            state: if error is Some {
                                TransferState::Failed
                            } else {
                                TransferState::Completed
                            },
                        },
                    );
                    match error {
                        Some(reason) => over.alarms(
                            "Sending to "@ + transfer.peer_name + " failed: "@ + reason@,
                        ),
                        None => over.informs("Files sent to "@ + transfer.peer_name + "."@),
                    }
                },
                _ => old(self).deep_view(),
            }),
    {
        let ghost before = self.transfers.deep_view();
        let name = match &mut self.transfers[i] {
            TransferEntry::Outgoing { transfer, state } => {
                transfer.finished = true;
                *state = if error.is_some() {
                    TransferState::Failed
                } else {
                    TransferState::Completed
                };
                if transfer.done_bytes == 0 {
                    transfer.done_bytes = transfer.total_bytes;
                }
                transfer.peer_name.clone()
            },
            _ => return,
        };
        proof {
            if let TransferEntryModel::Outgoing { transfer, .. } = before[i as int] {
                assert(self.transfers.deep_view() =~= put(
                    before,
                    TransferEntryModel::Outgoing {
                        transfer: OutgoingModel {
                            finished: true,
                            done_bytes: counted(transfer.done_bytes, transfer.total_bytes),
                            ..transfer
                        },
                        state: if error is Some {
                            TransferState::Failed
                        } else {
                            TransferState::Completed
                        },
                    },
                ));
            }
        }
        match error {
            Some(reason) => {
                let text = cat4("Sending to ", name.as_str(), " failed: ", reason.as_str());
                self.alarm(text.as_str());
            },
            None => {
                let text = cat3("Files sent to ", name.as_str(), ".");
                self.inform(text.as_str());
            },
        }
    }

    /// Some bytes of a transfer were sent.
    #[verifier::spinoff_prover]
    pub fn on_transfer_progress(&mut self, id: TransferId, bytes: u64)
        ensures
            final(self).deep_view() == bytes_sent(old(self).deep_view(), id, bytes),
    {
        proof {
            reveal(bytes_sent);
        }
        let i: usize = position(&self.transfers, &id);
        if i >= self.transfers.len() {
            return;
        }
        let ghost before = self.transfers.deep_view();
        match &mut self.transfers[i] {
            TransferEntry::Outgoing { transfer, .. } => {
                transfer.done_bytes = transfer.done_bytes.saturating_add(bytes);
            },
            _ => return,
        }
        proof {
            if let TransferEntryModel::Outgoing { transfer, state } = before[i as int] {
                assert(self.transfers.deep_view() =~= put(
                    before,
                    TransferEntryModel::Outgoing {
                        transfer: OutgoingModel {
                            done_bytes: plus(transfer.done_bytes, bytes),
                            ..transfer
                        },
                        state,
                    },
                ));
            }
        }
    }

    /// The peer reports how far one of the files is that it sends.
    #[verifier::spinoff_prover]
    pub fn on_file_progress(&mut self, report: FileProgressReport)
        requires
            transfers_sound(old(self).deep_view().transfers),
            report_fits(old(self).deep_view(), report),
        ensures
            final(self).deep_view() == progress_reported(old(self).deep_view(), report),
    {
        proof {
            reveal(progress_reported);
        }
        let i: usize = position(&self.transfers, &report.transfer);
        if i >= self.transfers.len() {
            return;
        }
        let ghost before = self.transfers.deep_view();
        assert(transfer_sound(before[i as int]));
        match &mut self.transfers[i] {
            TransferEntry::Incoming { transfer, .. } => {
                let at: usize = match transfer.position_of(report.index) {
                    Some(at) => at,
                    None => return,
                };
                let previous: u64 = transfer.written[at];
                transfer.written.set(at, report.bytes_done);
                transfer.done_bytes =
                transfer.done_bytes.saturating_sub(previous) + report.bytes_done;
            },
            _ => return,
        }
        proof {
            if let TransferEntryModel::Incoming { transfer, state, error } = before[i as int] {
                let n = entry_position(transfer.entries, report.index)->Some_0;
                assert(self.transfers.deep_view() =~= put(
                    before,
                    TransferEntryModel::Incoming {
                        transfer: IncomingModel {
                            written: transfer.written.update(n, report.bytes_done),
                            done_bytes: (minus(transfer.done_bytes, transfer.written[n])
                                + report.bytes_done) as u64,
                            ..transfer
                        },
                        state,
                        error,
                    },
                ));
            }
        }
    }

    /// Whether the bytes that a report makes of a transfer fit in their count.
    #[verifier::spinoff_prover]
    pub fn accepts_report(&self, report: &FileProgressReport) -> (out: bool)
        requires
            transfers_sound(self.deep_view().transfers),
        ensures
            out == report_fits(self.deep_view(), *report),
    {
        let i: usize = position(&self.transfers, &report.transfer);
        if i >= self.transfers.len() {
            return true;
        }
        assert(transfer_sound(self.deep_view().transfers[i as int]));
        match &self.transfers[i] {
            TransferEntry::Incoming { transfer, .. } => match transfer.position_of(report.index) {
                Some(at) => transfer.done_bytes.saturating_sub(transfer.written[at]).checked_add(
                    report.bytes_done,
                ).is_some(),
                None => true,
            },
            _ => true,
        }
    }

    /// A piece of a file arrived.
    #[verifier::spinoff_prover]
    pub fn on_chunk(&mut self, chunk: FileChunk)
        requires
            transfers_sound(old(self).deep_view().transfers),
        ensures
            final(self).deep_view() == chunk_received(old(self).deep_view(), chunk.deep_view()),
    {
        proof {
            reveal(chunk_received);
        }
        let overwrite = self.settings.transfer.overwrite_existing;
        let i: usize = position(&self.transfers, &chunk.transfer);
        if i >= self.transfers.len() {
            return;
        }
        let ghost before = self.transfers.deep_view();
        assert(transfer_sound(before[i as int]));
        let transfer = match &self.transfers[i] {
            TransferEntry::Incoming { transfer, state, .. } => {
                if !matches!(*state, TransferState::Active) {
                    return;
                }
                transfer
            },
            _ => return,
        };
        let at: usize = match transfer.position_of(chunk.index) {
            Some(at) => at,
            None => return,
        };
        if transfer.entries[at].is_dir {
            return;
        }
        if let Some(path) = &transfer.resolved[at] {
            let target = ChunkTarget::Known(clone_parts(path));
            self.emit(Action::WriteChunk { chunk, position: at, target });
            return;
        }
        match sanitize_relative(
            transfer.entries[at].relative_path.as_str(),
            &transfer.root.parts,
        ) {
            Ok(path) => {
                let target = ChunkTarget::Fresh { path, overwrite };
                self.emit(Action::WriteChunk { chunk, position: at, target });
            },
            Err(e) => {
                let text = e.message();
                self.fail_incoming(i, text);
            },
        }
    }

    fn fail_incoming(&mut self, i: usize, reason: String)
        requires
            i < old(self).transfers@.len(),
            i == index_of(
                old(self).deep_view().transfers,
                crate::keyed::Keyed::key(&old(self).deep_view().transfers[i as int]),
            ),
            old(self).deep_view().transfers[i as int] is Incoming,
        ensures
            old(self).deep_view().transfers[i as int] matches TransferEntryModel::Incoming {
                transfer,
                ..
            } && final(self).deep_view() == old(self).deep_view().with_transfer(
                TransferEntryModel::Incoming {
                    transfer,
                    state: TransferState::Failed,
                    error: Some(reason@),
                },
            ),
    {
        let ghost before = self.transfers.deep_view();
        match &mut self.transfers[i] {
            TransferEntry::Incoming { state, error, .. } => {
                *state = TransferState::Failed;
                *error = Some(reason);
            },
            _ => {},
        }
        proof {
            if let TransferEntryModel::Incoming { transfer, .. } = before[i as int] {
                assert(self.transfers.deep_view() =~= put(
                    before,
                    TransferEntryModel::Incoming {
                        transfer,
                        state: TransferState::Failed,
                        error: Some(reason@),
                    },
                ));
            }
        }
    }

    /// A chunk was written, or not.
    #[verifier::spinoff_prover]
    pub fn on_chunk_written(&mut self, outcome: ChunkOutcome)
        requires
            transfers_sound(old(self).deep_view().transfers),
        ensures
            final(self).deep_view() == chunk_written(old(self).deep_view(), outcome.deep_view()),
    {
        proof {
            reveal(chunk_written);
        }
        let ghost o = outcome.deep_view();
        let i: usize = position(&self.transfers, &outcome.transfer);
        if i >= self.transfers.len() {
            return;
        }
        let ghost before = self.transfers.deep_view();
        assert(transfer_sound(before[i as int]));
        let at: usize = outcome.position;
        match &mut self.transfers[i] {
            TransferEntry::Incoming { transfer, state, error } => {
                if at >= transfer.entries.len() {
                    return;
                }
                transfer.take_outcome(at, outcome.placed, outcome.len, outcome.error.is_none());
                if outcome.error.is_some() {
                    *state = TransferState::Failed;
                    *error = outcome.error;
                }
            },
            _ => return,
        }
        proof {
            if let TransferEntryModel::Incoming { transfer, state, error } = before[i as int] {
                let next = TransferEntryModel::Incoming {
                    transfer: outcome_taken(transfer, at as int, o.placed, o.len, o.error is None),
                    state: if o.error is Some {
                        TransferState::Failed
                    } else {
                        state
                    },
                    error: if o.error is Some {
                        o.error
                    } else {
                        error
                    },
                };
                assert(self.transfers.deep_view() =~= put(before, next));
            }
        }
    }

    /// The peer has sent everything.
    #[verifier::spinoff_prover]
    pub fn on_file_finished(&mut self, finished: FileFinished, at: Moment)
        ensures
            final(self).deep_view() == files_finished(
                old(self).deep_view(),
                finished.deep_view(),
                at,
            ),
    {
        proof {
            reveal(files_finished);
        }
        let i: usize = position(&self.transfers, &finished.transfer);
        if i < self.transfers.len() {
            self.close_incoming(i, finished);
        }
        self.publish(at);
    }

    #[verifier::spinoff_prover]
    fn close_incoming(&mut self, i: usize, finished: FileFinished)
        requires
            i < old(self).transfers@.len(),
            i == index_of(
                old(self).deep_view().transfers,
                crate::keyed::Keyed::key(&old(self).deep_view().transfers[i as int]),
            ),
        ensures
            final(self).deep_view() == (match old(self).deep_view().transfers[i as int] {
                TransferEntryModel::Incoming { transfer, state, error } => old(
                    self,
                ).deep_view().with_transfer(
                    TransferEntryModel::Incoming {
                        transfer: IncomingModel {
                            done_bytes: counted(transfer.done_bytes, transfer.total_bytes),
                            ..transfer
                        },
                        state: if finished.deep_view().failed.len() > 0 {
                            TransferState::Failed
                        } else {
                            TransferState::Completed
                        },
                        error: if finished.deep_view().failed.len() > 0 {
                            Some(finished.deep_view().failed[0].1)
                        } else {
                            error
                        },
                    },
                ).does(ActionModel::CloseFiles { transfer: finished.transfer }).informs(
                    "Files from "@ + transfer.peer_name + " saved to "@ + transfer.root.text,
                ),
                _ => old(self).deep_view(),
            }),
    {
        let ghost before = self.transfers.deep_view();
        let ghost f = finished.deep_view();
        assert(f.failed.len() == finished.failed@.len());
        let first = if finished.failed.len() > 0 {
            assert(f.failed[0] == finished.failed@[0].deep_view());
            Some(finished.failed[0].1.clone())
        } else {
            None
        };
        let (name, root) = match &mut self.transfers[i] {
            TransferEntry::Incoming { transfer, state, error } => {
                if first.is_some() {
                    *state = TransferState::Failed;
                    *error = first;
                } else {
                    *state = TransferState::Completed;
                }
                if transfer.done_bytes == 0 {
                    transfer.done_bytes = transfer.total_bytes;
                }
                (transfer.peer_name.clone(), transfer.root.text.clone())
            },
            _ => return,
        };
        proof {
            if let TransferEntryModel::Incoming { transfer, state, error } = before[i as int] {
                assert(self.transfers.deep_view() =~= put(
                    before,
                    TransferEntryModel::Incoming {
                        transfer: IncomingModel {
                            done_bytes: counted(transfer.done_bytes, transfer.total_bytes),
                            ..transfer
                        },
                        state: if f.failed.len() > 0 {
                            TransferState::Failed
                        } else {
                            TransferState::Completed
                        },
                        error: if f.failed.len() > 0 {
                            Some(f.failed[0].1)
                        } else {
                            error
                        },
                    },
                ));
            }
        }
        self.emit(Action::CloseFiles { transfer: finished.transfer });
        let text = cat4("Files from ", name.as_str(), " saved to ", root.as_str());
        self.inform(text.as_str());
    }

    /// Forgets the transfers that are over.
    #[verifier::spinoff_prover]
    pub fn clear_finished_transfers(&mut self)
        ensures
            final(self).deep_view() == (EngineModel {
                transfers: unfinished(old(self).deep_view().transfers),
                ..old(self).deep_view()
            }),
    {
        let ghost m = self.deep_view();
        let ghost all = self.transfers.deep_view();
        let mut kept: usize = 0;
        let ghost mut seen: int = 0;
        assert(all.take(0) =~= Seq::<TransferEntryModel>::empty());
        assert(self.transfers.deep_view().take(0) =~= Seq::<TransferEntryModel>::empty());
        assert(self.transfers.deep_view().skip(0) =~= all.skip(0));
        while kept < self.transfers.len()
            invariant
                0 <= seen <= all.len(),
                kept <= self.transfers@.len(),
                self.transfers@.len() - kept == all.len() - seen,
                self.transfers.deep_view().take(kept as int) == unfinished(all.take(seen)),
                self.transfers.deep_view().skip(kept as int) == all.skip(seen),
                self.deep_view() == (EngineModel { transfers: self.transfers.deep_view(), ..m }),
            decreases self.transfers@.len() - kept,
        {
            let ghost now = self.transfers.deep_view();
            proof {
                assert(now[kept as int] == now.skip(kept as int)[0]);
                assert(all[seen] == all.skip(seen)[0]);
                assert(all.take(seen + 1).drop_last() =~= all.take(seen));
            }
            let over = match self.transfers[kept].state() {
                TransferState::Completed => true,
                TransferState::Cancelled => true,
                TransferState::Failed => true,
                _ => false,
            };
            if over {
                let _ = self.transfers.remove(kept);
                proof {
                    assert(self.transfers.deep_view() =~= now.remove(kept as int));
                    assert(self.transfers.deep_view().take(kept as int) =~= now.take(kept as int));
                    assert(self.transfers.deep_view().skip(kept as int) =~= now.skip(
                        kept as int,
                    ).drop_first());
                }
            } else {
                kept += 1;
                proof {
                    assert(now.take(kept as int) =~= now.take(kept as int - 1).push(
                        now[kept - 1],
                    ));
                    assert(now.skip(kept as int) =~= now.skip(kept as int - 1).drop_first());
                }
            }
            proof {
                assert(all.skip(seen + 1) =~= all.skip(seen).drop_first());
                seen = seen + 1;
            }
        }
        proof {
            assert(all.take(seen) =~= all);
            assert(self.transfers.deep_view().take(kept as int) =~= self.transfers.deep_view());
        }
    }
}

/// A transfer after a chunk was placed and, where it was written, counted.
pub open spec fn outcome_taken(
    transfer: IncomingModel,
    i: int,
    placed: Option<Seq<PathPartModel>>,
    len: u64,
    written: bool,
) -> IncomingModel {
    IncomingModel {
        resolved: match placed {
            Some(path) => transfer.resolved.update(i, Some(path)),
            None => transfer.resolved,
        },
        written: if written {
            transfer.written.update(i, plus(transfer.written[i], len))
        } else {
            transfer.written
        },
        done_bytes: if written {
            plus(transfer.done_bytes, len)
        } else {
            transfer.done_bytes
        },
        ..transfer
    }
}

impl IncomingTransfer {
    #[verifier::spinoff_prover]
    fn take_outcome(
        &mut self,
        at: usize,
        placed: Option<Vec<PathPart>>,
        len: u64,
        written: bool,
    )
        requires
            at < old(self).resolved@.len(),
            at < old(self).written@.len(),
        ensures
            final(self).deep_view() == outcome_taken(
                old(self).deep_view(),
                at as int,
                placed.deep_view(),
                len,
                written,
            ),
    {
        if placed.is_some() {
            set_item(&mut self.resolved, at, placed);
        }
        if written {
            let before: u64 = self.written[at];
            self.written.set(at, before.saturating_add(len));
            self.done_bytes = self.done_bytes.saturating_add(len);
        }
    }
}

/// Adding a sound transfer to sound transfers keeps them sound.
proof fn lemma_put_sound(before: Seq<TransferEntryModel>, after: Seq<TransferEntryModel>)
    requires
        transfers_sound(before),
        exists|entry: TransferEntryModel|
            transfer_sound(entry) && after == #[trigger] put(before, entry),
    ensures
        transfers_sound(after),
{
    let entry = choose|entry: TransferEntryModel|
        transfer_sound(entry) && after == #[trigger] put(before, entry);
    crate::keyed::lemma_index_of(before, crate::keyed::Keyed::key(&entry));
    assert forall|i: int| 0 <= i < after.len() implies transfer_sound(#[trigger] after[i]) by {
        if i < before.len() && after[i] == before[i] {
            assert(transfer_sound(before[i]));
        } else {
            assert(after[i] == entry);
        }
    }
}

} // verus!
