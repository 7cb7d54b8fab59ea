//! What sending and receiving files promises.

use vstd::prelude::*;

use crate::codec::Incoming;
use crate::engine::dispatch::{handled, heard_of, Event};
use crate::engine::snapshot::{lemma_shows_itself, snapshot_of};
use crate::engine::state::{
    ActionModel, Command, EngineModel, Moment, TargetModel, TransferEntryModel,
};
use crate::engine::steering::{heard_from, lemma_heard_from, says};
use crate::engine::transfers::{
    bytes_sent, chunk_received, chunk_written, file_cancelled, file_offered, files_chosen,
    files_collected, files_finished, folders_created, folders_of, folders_resolved, offer_accepted,
    offer_answered, progress_reported, stream_ended, transfer_accepted, transfer_cancelled,
    transfer_sound, transfers_sound, unfinished, wanted_files, ChunkOutcome, ChunkOutcomeModel,
};
use crate::identity::DeviceId;
use crate::keyed::{find, law_find_after_put, law_put_leaves_others, lemma_index_of, Keyed};
use crate::paths::PathPartModel;
use crate::protocol::{
    FileAccept, FileAcceptModel, FileChunk, FileChunkModel, FileEntryModel, FileFinished,
    FileFinishedModel, FileOffer, FileOfferModel, FileProgressReport, Message, MessageModel,
    TransferId,
};
use crate::text::decimal;
use crate::transfer::{
    announced_bytes, entries_of, entry_position, landing, walked_first, FsNode, IncomingModel,
    LocalPath, OutgoingFileModel, OutgoingModel, OutgoingTransfer,
};
use crate::view::{NoticeModel, TransferState};

verus! {

/// Whether `after` tracks the same transfers as `m`, but for the one with the given id,
/// which is `entry`.
pub open spec fn tracks(
    m: EngineModel,
    after: EngineModel,
    id: TransferId,
    entry: TransferEntryModel,
) -> bool {
    forall|k: TransferId| #[trigger]
        find(after.transfers, k) == if k == id {
            Some(entry)
        } else {
            find(m.transfers, k)
        }
}

pub proof fn lemma_tracks(m: EngineModel, entry: TransferEntryModel)
    ensures
        tracks(m, m.with_transfer(entry), entry.key(), entry),
{
    law_find_after_put(m.transfers, entry);
    assert forall|k: TransferId| #[trigger]
        find(m.with_transfer(entry).transfers, k) == if k == entry.key() {
            Some(entry)
        } else {
            find(m.transfers, k)
        } by {
        if k != entry.key() {
            law_put_leaves_others(m.transfers, entry, k);
        }
    }
}

/// The sizes of some entries together.
pub open spec fn sizes_of(entries: Seq<FileEntryModel>) -> nat {
    entries.fold_left(0nat, |sum: nat, entry: FileEntryModel| sum + entry.size as nat)
}

proof fn lemma_sizes(entries: Seq<FileEntryModel>)
    ensures
        announced_bytes(entries) == sizes_of(entries),
    decreases entries.len(),
{
    if entries.len() > 0 {
        lemma_sizes(entries.drop_last());
    }
}

/// Files can be sent to a connected machine while transfers are switched on: exactly the
/// chosen paths are read, for that machine. Otherwise the user is told why not.
#[verifier::spinoff_prover]
pub proof fn law_chosen_files_are_read(
    m: EngineModel,
    peer: DeviceId,
    paths: Vec<LocalPath>,
    draw: u64,
    at: Moment,
)
    ensures
        ({
            let event = Event::Command(Command::SendFiles { peer, paths });
            let connected = find(m.sessions, peer@) matches Some(session)
                && session.state is Connected;
            handled(m, event, draw, at) == (EngineModel {
                out: m.out.push(
                    if m.settings.transfer.enabled && connected {
                        ActionModel::ReadFiles { peer: peer@, paths: paths.deep_view() }
                    } else {
                        ActionModel::Notify(
                            NoticeModel::Warning {
                                message: if !m.settings.transfer.enabled {
                                    "File transfer is turned off."@
                                } else if find(m.sessions, peer@) is None {
                                    "That machine is not connected."@
                                } else {
                                    "Pair with that machine before sending files."@
                                },
                            },
                        )
                    },
                ),
                ..m
            })
        }),
{
    reveal(files_chosen);
}

/// The files that were found are offered to the machine that they are for, all of them and
/// in their order, with their sizes added up.
#[verifier::spinoff_prover]
pub proof fn law_found_files_are_offered(
    m: EngineModel,
    peer: DeviceId,
    nodes: Vec<FsNode>,
    draw: u64,
    at: Moment,
)
    ensures
        ({
            let after = handled(m, Event::FilesRead { peer, nodes }, draw, at);
            match walked_first(nodes, nodes@.len(), Seq::empty(), 0) {
                Err(e) => after == (EngineModel {
                    out: m.out.push(
                        ActionModel::Notify(
                            NoticeModel::Error {
                                message: "Could not read those files: "@ + e.sentence(),
                            },
                        ),
                    ),
                    ..m
                }),
                Ok(files) => {
                    &&& files.len() == 0 ==> after == (EngineModel {
                        out: m.out.push(
                            ActionModel::Notify(
                                NoticeModel::Warning { message: "Nothing to send."@ },
                            ),
                        ),
                        ..m
                    })
                    &&& files.len() > 0 && find(m.sessions, peer@) is None ==> after == m
                    &&& files.len() > 0 ==> (find(m.sessions, peer@) matches Some(session) ==> {
                        &&& after == (EngineModel { out: after.out, ..m })
                        &&& after.out.len() == m.out.len() + 1
                        &&& after.out.take(m.out.len() as int) == m.out
                        &&& after.out.last() matches ActionModel::OfferFiles {
                            connection,
                            message,
                            transfer,
                        }
                        &&& connection == session.connection
                        &&& transfer == (OutgoingModel {
                            id: TransferId(draw),
                            peer: peer@,
                            peer_name: session.info.name,
                            files,
                            total_bytes: sizes_of(
                                Seq::new(files.len(), |i: int| files[i].entry),
                            ) as u64,
                            done_bytes: 0,
                            started_at: at.unix,
                            accepted: false,
                            finished: false,
                        })
                        &&& message == MessageModel::FileOffer(
                            FileOfferModel {
                                transfer: TransferId(draw),
                                sender_name: m.settings.device_name,
                                total_bytes: transfer.total_bytes,
                                files: Seq::new(files.len(), |i: int| files[i].entry),
                            },
                        )
                    })
                },
            }
        }),
{
    reveal(files_collected);
    let after = handled(m, Event::FilesRead { peer, nodes }, draw, at);
    if let Ok(files) = walked_first(nodes, nodes@.len(), Seq::empty(), 0) {
        assert(entries_of(files) =~= Seq::new(files.len(), |i: int| files[i].entry));
        lemma_sizes(entries_of(files));
        assert(after.out.take(m.out.len() as int) =~= m.out);
    }
}

/// An offer that was sent is tracked and waits for the other side; one that was not is
/// forgotten and the reason shown.
#[verifier::spinoff_prover]
pub proof fn law_a_sent_offer_waits(
    m: EngineModel,
    transfer: Box<OutgoingTransfer>,
    error: Option<String>,
    draw: u64,
    at: Moment,
)
    ensures
        ({
            let after = handled(m, Event::OfferSent { transfer, error }, draw, at);
            match error.deep_view() {
                None => {
                    &&& tracks(
                        m,
                        after,
                        transfer.deep_view().id,
                        TransferEntryModel::Outgoing {
                            transfer: transfer.deep_view(),
                            state: TransferState::Pending,
                        },
                    )
                    &&& after == (EngineModel {
                        transfers: after.transfers,
                        out: after.out,
                        ..m
                    })
                    &&& after.out == m.out.push(
                        ActionModel::Publish(snapshot_of(after, at.unix)),
                    )
                },
                Some(reason) => after == (EngineModel {
                    out: m.out.push(
                        ActionModel::Notify(
                            NoticeModel::Error {
                                message: "Could not offer the files: "@ + reason,
                            },
                        ),
                    ),
                    ..m
                }),
            }
        }),
{
    reveal(offer_answered);
    let after = handled(m, Event::OfferSent { transfer, error }, draw, at);
    lemma_shows_itself(after, at.unix);
    lemma_tracks(
        m,
        TransferEntryModel::Outgoing {
            transfer: transfer.deep_view(),
            state: TransferState::Pending,
        },
    );
}

/// A transfer as it is when a peer has just offered it: nothing is placed or written.
pub open spec fn untouched(
    offer: FileOfferModel,
    peer: Seq<char>,
    m: EngineModel,
    at: Moment,
) -> IncomingModel {
    IncomingModel {
        id: offer.transfer,
        peer,
        peer_name: offer.sender_name,
        entries: offer.files,
        total_bytes: sizes_of(offer.files) as u64,
        done_bytes: 0,
        started_at: at.unix,
        root: m.settings.transfer.download_dir,
        resolved: Seq::new(offer.files.len(), |i: int| None),
        written: Seq::new(offer.files.len(), |i: int| 0u64),
    }
}

/// Where each directory of a transfer goes, and nothing else of it has a place.
pub open spec fn places_folders(before: IncomingModel, after: IncomingModel) -> bool {
    &&& after == (IncomingModel { resolved: after.resolved, ..before })
    &&& after.resolved.len() == before.resolved.len()
    &&& forall|i: int|
        0 <= i < before.resolved.len() && i < before.entries.len() ==> #[trigger] after.resolved[i]
            == match landing(before.entries[i].relative_path, before.root.parts) {
            Ok(path) => if before.entries[i].is_dir {
                Some(path)
            } else {
                before.resolved[i]
            },
            Err(_) => before.resolved[i],
        }
}

/// The directories among some entries that have a safe path below a root, in their order.
pub open spec fn safe_folders(
    entries: Seq<FileEntryModel>,
    root: Seq<PathPartModel>,
) -> Seq<Seq<PathPartModel>> {
    entries.filter(
        |entry: FileEntryModel| entry.is_dir && landing(entry.relative_path, root) is Ok,
    ).map_values(|entry: FileEntryModel| landing(entry.relative_path, root)->Ok_0)
}

proof fn lemma_safe_folders(t: IncomingModel, n: nat)
    requires
        n <= t.entries.len(),
    ensures
        folders_of(t, n) == safe_folders(t.entries.take(n as int), t.root.parts),
    decreases n,
{
    let wanted = |entry: FileEntryModel|
        entry.is_dir && landing(entry.relative_path, t.root.parts) is Ok;
    reveal(Seq::filter);
    if n == 0 {
        assert(t.entries.take(0) =~= Seq::<FileEntryModel>::empty());
        assert(folders_of(t, 0) =~= safe_folders(t.entries.take(0), t.root.parts));
    } else {
        lemma_safe_folders(t, (n - 1) as nat);
        let head = t.entries.take(n - 1);
        let entry = t.entries[n - 1];
        assert(t.entries.take(n as int) =~= head.push(entry));
        assert(head.push(entry).drop_last() =~= head);
        assert(head.push(entry).filter(wanted) == if wanted(entry) {
            head.filter(wanted).push(entry)
        } else {
            head.filter(wanted)
        });
        if wanted(entry) {
            assert(safe_folders(head.push(entry), t.root.parts) =~= safe_folders(
                head,
                t.root.parts,
            ).push(landing(entry.relative_path, t.root.parts)->Ok_0));
        }
    }
}

/// Whether accepting the pending transfer `t` leads from `m` to `after`: it runs, its
/// directories have their places and are created first.
pub open spec fn starts_receiving(
    m: EngineModel,
    after: EngineModel,
    t: IncomingModel,
    error: Option<Seq<char>>,
) -> bool {
    &&& find(after.transfers, t.id) matches Some(
        TransferEntryModel::Incoming { transfer, state, error: e },
    )
    &&& places_folders(t, transfer)
    &&& state == TransferState::Active
    &&& e == error
    &&& tracks(m, after, t.id, find(after.transfers, t.id)->Some_0)
    &&& after == (EngineModel { transfers: after.transfers, out: after.out, ..m })
    &&& after.out == m.out.push(
        ActionModel::CreateFolders {
            transfer: t.id,
            folders: safe_folders(t.entries, t.root.parts),
        },
    )
}

#[verifier::spinoff_prover]
proof fn lemma_starts_receiving(m: EngineModel, t: IncomingModel, error: Option<Seq<char>>)
    requires
        find(m.transfers, t.id) == Some(
            TransferEntryModel::Incoming { transfer: t, state: TransferState::Pending, error },
        ),
    ensures
        starts_receiving(m, transfer_accepted(m, t.id), t, error),
{
    reveal(transfer_accepted);
    lemma_safe_folders(t, t.entries.len());
    assert(t.entries.take(t.entries.len() as int) =~= t.entries);
    lemma_tracks(
        m,
        TransferEntryModel::Incoming {
            transfer: IncomingModel { resolved: folders_resolved(t), ..t },
            state: TransferState::Active,
            error,
        },
    );
}

/// A transfer that waits for the user runs once the user accepts it; any other is left
/// alone.
#[verifier::spinoff_prover]
pub proof fn law_an_accepted_transfer_runs(m: EngineModel, id: TransferId, draw: u64, at: Moment)
    ensures
        ({
            let after = handled(m, Event::Command(Command::AcceptTransfer(id)), draw, at);
            match find(m.transfers, id) {
                Some(TransferEntryModel::Incoming { transfer, state, error }) => if state
                    == TransferState::Pending {
                    starts_receiving(m, after, transfer, error)
                } else {
                    after == m
                },
                _ => after == m,
            }
        }),
{
    reveal(transfer_accepted);
    lemma_index_of(m.transfers, id);
    if let Some(TransferEntryModel::Incoming { transfer, state, error }) = find(m.transfers, id) {
        if state == TransferState::Pending {
            lemma_starts_receiving(m, transfer, error);
        }
    }
}

#[verifier::spinoff_prover]
proof fn lemma_offered(m: EngineModel, peer: Seq<char>, offer: FileOfferModel, at: Moment)
    requires
        m.settings.transfer.enabled,
    ensures
        ({
            let after = file_offered(m, peer, offer, at);
            let notice = ActionModel::Notify(
                NoticeModel::Info {
                    message: offer.sender_name + " wants to send "@ + decimal(offer.files.len())
                        + " item(s)."@,
                },
            );
            let t = untouched(offer, peer, m, at);
            let waiting = TransferEntryModel::Incoming {
                transfer: t,
                state: TransferState::Pending,
                error: None,
            };
            let by_itself = m.settings.transfer.auto_accept_trusted && (find(
                m.sessions,
                peer,
            ) matches Some(session) && session.trusted);
            &&& !by_itself ==> tracks(m, after, offer.transfer, waiting) && after == (EngineModel {
                transfers: after.transfers,
                out: after.out,
                ..m
            }) && after.out == m.out.push(notice).push(
                ActionModel::Publish(snapshot_of(after, at.unix)),
            )
            &&& by_itself ==> {
                &&& find(after.transfers, offer.transfer) matches Some(
                    TransferEntryModel::Incoming { transfer, state, error },
                )
                &&& places_folders(t, transfer)
                &&& state == TransferState::Active
                &&& error is None
                &&& tracks(
                    m,
                    after,
                    offer.transfer,
                    find(after.transfers, offer.transfer)->Some_0,
                )
                &&& after == (EngineModel { transfers: after.transfers, out: after.out, ..m })
                &&& after.out == m.out.push(notice).push(
                    ActionModel::CreateFolders {
                        transfer: offer.transfer,
                        folders: safe_folders(offer.files, m.settings.transfer.download_dir.parts),
                    },
                )
            }
        }),
{
    reveal(file_offered);
    let after = file_offered(m, peer, offer, at);
    lemma_shows_itself(after, at.unix);
    lemma_sizes(offer.files);
    let made = crate::transfer::new_incoming(
        offer.transfer,
        peer,
        offer.sender_name,
        offer.files,
        m.settings.transfer.download_dir,
        at.unix,
    );
    let t = untouched(offer, peer, m, at);
    assert(made =~= t);
    let waiting = TransferEntryModel::Incoming {
        transfer: t,
        state: TransferState::Pending,
        error: None,
    };
    lemma_tracks(m, waiting);
    let noted = m.with_transfer(waiting).informs(
        offer.sender_name + " wants to send "@ + decimal(offer.files.len()) + " item(s)."@,
    );
    assert(find(noted.transfers, offer.transfer) == Some(waiting));
    lemma_starts_receiving(noted, t, None);
}

/// What a peer offers is tracked as it was offered, bound for the download directory. It
/// waits for the user, unless the peer is trusted and such offers are accepted by
/// themselves.
#[verifier::spinoff_prover]
pub proof fn law_an_offer_is_tracked(
    m: EngineModel,
    peer: DeviceId,
    offer: FileOffer,
    extent: Option<(u64, u64)>,
    draw: u64,
    at: Moment,
)
    requires
        m.settings.transfer.enabled,
    ensures
        ({
            let after = handled(m, says(peer, Message::FileOffer(offer), extent), draw, at);
            let model = offer.deep_view();
            let notice = ActionModel::Notify(
                NoticeModel::Info {
                    message: model.sender_name + " wants to send "@ + decimal(model.files.len())
                        + " item(s)."@,
                },
            );
            let t = untouched(model, peer@, m, at);
            let by_itself = m.settings.transfer.auto_accept_trusted && (find(
                m.sessions,
                peer@,
            ) matches Some(session) && session.trusted);
            &&& heard_from(m, after, peer@, at)
            &&& after == (EngineModel {
                sessions: after.sessions,
                transfers: after.transfers,
                out: after.out,
                ..m
            })
            &&& find(after.transfers, model.transfer) matches Some(
                TransferEntryModel::Incoming { transfer, state, error },
            )
            &&& error is None
            &&& tracks(m, after, model.transfer, find(after.transfers, model.transfer)->Some_0)
            &&& !by_itself ==> transfer == t && state == TransferState::Pending && after.out
                == m.out.push(notice).push(ActionModel::Publish(snapshot_of(after, at.unix)))
            &&& by_itself ==> places_folders(t, transfer) && state == TransferState::Active
                && after.out == m.out.push(notice).push(
                ActionModel::CreateFolders {
                    transfer: model.transfer,
                    folders: safe_folders(model.files, m.settings.transfer.download_dir.parts),
                },
            )
        }),
{
    lemma_heard_from(m, peer@, at);
    let heard = heard_of(m, peer@, at);
    assert(find(heard.sessions, peer@) is Some <==> find(m.sessions, peer@) is Some);
    lemma_offered(heard, peer@, offer.deep_view(), at);
}

proof fn lemma_refused(m: EngineModel, peer: Seq<char>, offer: FileOfferModel, at: Moment)
    requires
        !m.settings.transfer.enabled,
    ensures
        file_offered(m, peer, offer, at) == (EngineModel {
            out: match find(m.sessions, peer) {
                Some(session) => m.out.push(
                    ActionModel::Send {
                        connection: session.connection,
                        message: MessageModel::FileCancel {
                            transfer: offer.transfer,
                            reason: "file transfer is disabled here"@,
                        },
                    },
                ),
                None => m.out,
            },
            ..m
        }),
{
    reveal(file_offered);
}

/// While transfers are switched off, an offer is refused to the peer that made it and
/// leaves no trace.
#[verifier::spinoff_prover]
pub proof fn law_unwanted_offers_are_refused(
    m: EngineModel,
    peer: DeviceId,
    offer: FileOffer,
    extent: Option<(u64, u64)>,
    draw: u64,
    at: Moment,
)
    requires
        !m.settings.transfer.enabled,
    ensures
        ({
            let after = handled(m, says(peer, Message::FileOffer(offer), extent), draw, at);
            &&& heard_from(m, after, peer@, at)
            &&& after == (EngineModel { sessions: after.sessions, out: after.out, ..m })
            &&& after.out == match find(m.sessions, peer@) {
                Some(session) => m.out.push(
                    ActionModel::Send {
                        connection: session.connection,
                        message: MessageModel::FileCancel {
                            transfer: offer.deep_view().transfer,
                            reason: "file transfer is disabled here"@,
                        },
                    },
                ),
                None => m.out,
            }
        }),
{
    lemma_heard_from(m, peer@, at);
    let heard = heard_of(m, peer@, at);
    assert(find(heard.sessions, peer@) is Some <==> find(m.sessions, peer@) is Some);
    lemma_refused(heard, peer@, offer.deep_view(), at);
}

/// Once its directories exist, the sender of a transfer is told to go ahead with all of
/// it; where some could not be created, the last reason is kept.
#[verifier::spinoff_prover]
pub proof fn law_the_sender_is_told_to_go_ahead(
    m: EngineModel,
    id: TransferId,
    errors: Vec<String>,
    draw: u64,
    at: Moment,
)
    ensures
        ({
            let after = handled(m, Event::FoldersCreated { transfer: id, errors }, draw, at);
            match find(m.transfers, id) {
                Some(TransferEntryModel::Incoming { transfer, state, error }) => {
                    &&& tracks(
                        m,
                        after,
                        id,
                        TransferEntryModel::Incoming {
                            transfer,
                            state,
                            error: if errors.deep_view().len() > 0 {
                                Some(errors.deep_view().last())
                            } else {
                                error
                            },
                        },
                    )
                    &&& after == (EngineModel {
                        transfers: after.transfers,
                        out: after.out,
                        ..m
                    })
                    &&& after.out == match find(m.sessions, transfer.peer) {
                        Some(session) => m.out.push(
                            ActionModel::SendEither {
                                connection: session.connection,
                                message: MessageModel::FileAccept(
                                    FileAcceptModel { transfer: id, rejected: Seq::empty() },
                                ),
                            },
                        ),
                        None => m.out,
                    }.push(ActionModel::Publish(snapshot_of(after, at.unix)))
                },
                _ => after == m,
            }
        }),
{
    reveal(folders_created);
    let after = handled(m, Event::FoldersCreated { transfer: id, errors }, draw, at);
    lemma_shows_itself(after, at.unix);
    lemma_index_of(m.transfers, id);
    if let Some(TransferEntryModel::Incoming { transfer, state, error }) = find(m.transfers, id) {
        lemma_tracks(
            m,
            TransferEntryModel::Incoming {
                transfer,
                state,
                error: if errors.deep_view().len() > 0 {
                    Some(errors.deep_view().last())
                } else {
                    error
                },
            },
        );
    }
}

/// Whether two entries are the same transfer at the same point, whatever their state.
pub open spec fn same_transfer(a: TransferEntryModel, b: TransferEntryModel) -> bool {
    match (a, b) {
        (
            TransferEntryModel::Outgoing { transfer: s, .. },
            TransferEntryModel::Outgoing { transfer: t, .. },
        ) => s == t,
        (
            TransferEntryModel::Incoming { transfer: s, error: e, .. },
            TransferEntryModel::Incoming { transfer: t, error: f, .. },
        ) => s == t && e == f,
        _ => false,
    }
}

/// The state that an entry is in.
pub open spec fn state_of(entry: TransferEntryModel) -> TransferState {
    match entry {
        TransferEntryModel::Outgoing { state, .. } => state,
        TransferEntryModel::Incoming { state, .. } => state,
    }
}

/// The machine at the other end of an entry.
pub open spec fn other_end(entry: TransferEntryModel) -> Seq<char> {
    match entry {
        TransferEntryModel::Outgoing { transfer, .. } => transfer.peer,
        TransferEntryModel::Incoming { transfer, .. } => transfer.peer,
    }
}

/// Whether the transfer `id` of `m` is cancelled in `after`, and otherwise just as it was.
pub open spec fn is_cancelled(m: EngineModel, after: EngineModel, id: TransferId) -> bool {
    match find(m.transfers, id) {
        Some(entry) => {
            &&& find(after.transfers, id) matches Some(now)
            &&& state_of(now) == TransferState::Cancelled
            &&& same_transfer(entry, now)
            &&& tracks(m, after, id, now)
        },
        None => after.transfers == m.transfers,
    }
}

/// A transfer that the user cancels is cancelled, however far it is, and the other side is
/// told so; every other transfer stays as it is.
#[verifier::spinoff_prover]
pub proof fn law_a_cancelled_transfer_is_cancelled(
    m: EngineModel,
    id: TransferId,
    draw: u64,
    at: Moment,
)
    ensures
        ({
            let after = handled(m, Event::Command(Command::CancelTransfer(id)), draw, at);
            let told = match find(m.transfers, id) {
                Some(entry) => match find(m.sessions, other_end(entry)) {
                    Some(session) => seq![
                        ActionModel::SendEither {
                            connection: session.connection,
                            message: MessageModel::FileCancel {
                                transfer: id,
                                reason: "cancelled by the user"@,
                            },
                        },
                    ],
                    None => Seq::empty(),
                },
                None => Seq::empty(),
            };
            &&& is_cancelled(m, after, id)
            &&& after == (EngineModel { transfers: after.transfers, out: after.out, ..m })
            &&& after.out == (m.out + told).push(
                ActionModel::Publish(snapshot_of(after, at.unix)),
            )
        }),
{
    reveal(transfer_cancelled);
    let after = handled(m, Event::Command(Command::CancelTransfer(id)), draw, at);
    lemma_shows_itself(after, at.unix);
    lemma_index_of(m.transfers, id);
    if let Some(entry) = find(m.transfers, id) {
        lemma_tracks(m, entry.in_state(TransferState::Cancelled));
        if let Some(session) = find(m.sessions, other_end(entry)) {
            let told = ActionModel::SendEither {
                connection: session.connection,
                message: MessageModel::FileCancel {
                    transfer: id,
                    reason: "cancelled by the user"@,
                },
            };
            assert(m.out.push(told) =~= m.out + seq![told]);
        } else {
            assert(m.out =~= m.out + Seq::<ActionModel>::empty());
        }
    } else {
        assert(m.out =~= m.out + Seq::<ActionModel>::empty());
    }
}

#[verifier::spinoff_prover]
proof fn lemma_peer_cancels(m: EngineModel, id: TransferId, reason: Seq<char>, at: Moment)
    ensures
        ({
            let after = file_cancelled(m, id, reason, at);
            &&& is_cancelled(m, after, id)
            &&& after == (EngineModel { transfers: after.transfers, out: after.out, ..m })
            &&& after.out == m.out.push(
                ActionModel::Notify(
                    NoticeModel::Warning { message: "Transfer cancelled: "@ + reason },
                ),
            ).push(ActionModel::Publish(snapshot_of(after, at.unix)))
        }),
{
    reveal(file_cancelled);
    lemma_shows_itself(file_cancelled(m, id, reason, at), at.unix);
    lemma_index_of(m.transfers, id);
    if let Some(entry) = find(m.transfers, id) {
        lemma_tracks(m, entry.in_state(TransferState::Cancelled));
    }
}

/// A transfer that the other side cancels is cancelled here too, and the user is told why.
#[verifier::spinoff_prover]
pub proof fn law_the_other_side_may_cancel(
    m: EngineModel,
    peer: DeviceId,
    id: TransferId,
    reason: String,
    extent: Option<(u64, u64)>,
    draw: u64,
    at: Moment,
)
    ensures
        ({
            let message = Message::FileCancel { transfer: id, reason };
            let after = handled(m, says(peer, message, extent), draw, at);
            &&& heard_from(m, after, peer@, at)
            &&& is_cancelled(m, after, id)
            &&& after == (EngineModel {
                sessions: after.sessions,
                transfers: after.transfers,
                out: after.out,
                ..m
            })
            &&& after.out == m.out.push(
                ActionModel::Notify(
                    NoticeModel::Warning { message: "Transfer cancelled: "@ + reason@ },
                ),
            ).push(ActionModel::Publish(snapshot_of(after, at.unix)))
        }),
{
    lemma_heard_from(m, peer@, at);
    lemma_peer_cancels(heard_of(m, peer@, at), id, reason@, at);
}

/// The files that the other side did not reject, in their order.
pub open spec fn not_rejected(
    files: Seq<OutgoingFileModel>,
    rejected: Seq<u32>,
) -> Seq<OutgoingFileModel> {
    files.filter(|file: OutgoingFileModel| !rejected.contains(file.entry.index))
}

proof fn lemma_not_rejected(files: Seq<OutgoingFileModel>, rejected: Seq<u32>, n: nat)
    requires
        n <= files.len(),
    ensures
        wanted_files(files, rejected, n) == not_rejected(files.take(n as int), rejected),
    decreases n,
{
    reveal(Seq::filter);
    if n == 0 {
        assert(files.take(0) =~= Seq::<OutgoingFileModel>::empty());
    } else {
        lemma_not_rejected(files, rejected, (n - 1) as nat);
        assert(files.take(n as int).drop_last() =~= files.take(n - 1));
    }
}

#[verifier::spinoff_prover]
proof fn lemma_accepted_offer(m: EngineModel, accept: FileAcceptModel, at: Moment)
    ensures
        ({
            let after = offer_accepted(m, accept, at);
            match find(m.transfers, accept.transfer) {
                Some(TransferEntryModel::Outgoing { transfer, .. }) => {
                    &&& tracks(
                        m,
                        after,
                        accept.transfer,
                        TransferEntryModel::Outgoing {
                            transfer: OutgoingModel { accepted: true, ..transfer },
                            state: TransferState::Active,
                        },
                    )
                    &&& after == (EngineModel {
                        transfers: after.transfers,
                        out: after.out,
                        ..m
                    })
                    &&& after.out == match find(m.sessions, transfer.peer) {
                        Some(session) => m.out.push(
                            ActionModel::StartSender {
                                transfer: accept.transfer,
                                connection: session.connection,
                                files: not_rejected(transfer.files, accept.rejected),
                            },
                        ).push(ActionModel::Publish(snapshot_of(after, at.unix))),
                        None => m.out,
                    }
                },
                _ => after == m,
            }
        }),
{
    reveal(offer_accepted);
    lemma_shows_itself(offer_accepted(m, accept, at), at.unix);
    lemma_index_of(m.transfers, accept.transfer);
    if let Some(TransferEntryModel::Outgoing { transfer, .. }) = find(
        m.transfers,
        accept.transfer,
    ) {
        lemma_tracks(
            m,
            TransferEntryModel::Outgoing {
                transfer: OutgoingModel { accepted: true, ..transfer },
                state: TransferState::Active,
            },
        );
        lemma_not_rejected(transfer.files, accept.rejected, transfer.files.len());
        assert(transfer.files.take(transfer.files.len() as int) =~= transfer.files);
    }
}

/// Once the other side accepts an offer, its files are streamed to the machine that they
/// are for, all but the rejected ones.
#[verifier::spinoff_prover]
pub proof fn law_accepted_files_are_streamed(
    m: EngineModel,
    peer: DeviceId,
    accept: FileAccept,
    extent: Option<(u64, u64)>,
    draw: u64,
    at: Moment,
)
    ensures
        ({
            let after = handled(m, says(peer, Message::FileAccept(accept), extent), draw, at);
            let model = accept.deep_view();
            &&& heard_from(m, after, peer@, at)
            &&& match find(m.transfers, model.transfer) {
                Some(TransferEntryModel::Outgoing { transfer, .. }) => {
                    &&& tracks(
                        m,
                        after,
                        model.transfer,
                        TransferEntryModel::Outgoing {
                            transfer: OutgoingModel { accepted: true, ..transfer },
                            state: TransferState::Active,
                        },
                    )
                    &&& after == (EngineModel {
                        sessions: after.sessions,
                        transfers: after.transfers,
                        out: after.out,
                        ..m
                    })
                    &&& after.out == match find(m.sessions, transfer.peer) {
                        Some(session) => m.out.push(
                            ActionModel::StartSender {
                                transfer: model.transfer,
                                connection: session.connection,
                                files: not_rejected(transfer.files, model.rejected),
                            },
                        ).push(ActionModel::Publish(snapshot_of(after, at.unix))),
                        None => m.out,
                    }
                },
                _ => after == (EngineModel { sessions: after.sessions, ..m }),
            }
        }),
{
    lemma_heard_from(m, peer@, at);
    let heard = heard_of(m, peer@, at);
    lemma_accepted_offer(heard, accept.deep_view(), at);
    if let Some(TransferEntryModel::Outgoing { transfer, .. }) = find(
        m.transfers,
        accept.deep_view().transfer,
    ) {
        assert(find(heard.sessions, transfer.peer) is Some <==> find(
            m.sessions,
            transfer.peer,
        ) is Some);
    }
}

/// The bytes to show of a transfer that is over: all of it where nothing was counted.
pub open spec fn final_count(done: u64, total: u64) -> u64 {
    if done > 0 {
        done
    } else {
        total
    }
}

/// A stream that ended without an error completes its transfer, and one with an error
/// fails it; the user is told which.
#[verifier::spinoff_prover]
pub proof fn law_a_stream_completes_or_fails(
    m: EngineModel,
    id: TransferId,
    error: Option<String>,
    draw: u64,
    at: Moment,
)
    ensures
        ({
            let after = handled(m, Event::TransferDone { id, error }, draw, at);
            match find(m.transfers, id) {
                Some(TransferEntryModel::Outgoing { transfer, .. }) => {
                    &&& tracks(
                        m,
                        after,
                        id,
                        TransferEntryModel::Outgoing {
                            transfer: OutgoingModel {
                                finished: true,
                                done_bytes: final_count(transfer.done_bytes, transfer.total_bytes),
                                ..transfer
                            },
                            state: match error.deep_view() {
                                Some(_) => TransferState::Failed,
                                None => TransferState::Completed,
                            },
                        },
                    )
                    &&& after == (EngineModel {
                        transfers: after.transfers,
                        out: after.out,
                        ..m
                    })
                    &&& after.out == m.out.push(
                        ActionModel::Notify(
                            match error.deep_view() {
                                Some(reason) => NoticeModel::Error {
                                    message: "Sending to "@ + transfer.peer_name + " failed: "@
                                        + reason,
                                },
                                None => NoticeModel::Info {
                                    message: "Files sent to "@ + transfer.peer_name + "."@,
                                },
                            },
                        ),
                    ).push(ActionModel::Publish(snapshot_of(after, at.unix)))
                },
                _ => after == (EngineModel {
                    out: m.out.push(ActionModel::Publish(snapshot_of(m, at.unix))),
                    ..m
                }),
            }
        }),
{
    reveal(stream_ended);
    let after = handled(m, Event::TransferDone { id, error }, draw, at);
    lemma_shows_itself(after, at.unix);
    lemma_index_of(m.transfers, id);
    if let Some(TransferEntryModel::Outgoing { transfer, .. }) = find(m.transfers, id) {
        lemma_tracks(
            m,
            TransferEntryModel::Outgoing {
                transfer: OutgoingModel {
                    finished: true,
                    done_bytes: final_count(transfer.done_bytes, transfer.total_bytes),
                    ..transfer
                },
                state: match error.deep_view() {
                    Some(_) => TransferState::Failed,
                    None => TransferState::Completed,
                },
            },
        );
    }
}

/// What was sent of a transfer is added to its count, and nothing else changes. A count
/// that does not fit stays at the largest number.
#[verifier::spinoff_prover]
pub proof fn law_sent_bytes_are_counted(
    m: EngineModel,
    id: TransferId,
    bytes: u64,
    draw: u64,
    at: Moment,
)
    ensures
        ({
            let after = handled(m, Event::TransferProgress { id, bytes }, draw, at);
            match find(m.transfers, id) {
                Some(TransferEntryModel::Outgoing { transfer, state }) => {
                    &&& after == (EngineModel { transfers: after.transfers, ..m })
                    &&& find(after.transfers, id) matches Some(
                        TransferEntryModel::Outgoing { transfer: now, state: still },
                    )
                    &&& still == state
                    &&& now == (OutgoingModel { done_bytes: now.done_bytes, ..transfer })
                    &&& transfer.done_bytes + bytes <= u64::MAX ==> now.done_bytes
                        == transfer.done_bytes + bytes
                    &&& transfer.done_bytes + bytes > u64::MAX ==> now.done_bytes == u64::MAX
                    &&& tracks(m, after, id, find(after.transfers, id)->Some_0)
                },
                _ => after == m,
            }
        }),
{
    reveal(bytes_sent);
    lemma_index_of(m.transfers, id);
    if let Some(TransferEntryModel::Outgoing { transfer, state }) = find(m.transfers, id) {
        lemma_tracks(
            m,
            TransferEntryModel::Outgoing {
                transfer: OutgoingModel {
                    done_bytes: crate::engine::transfers::plus(transfer.done_bytes, bytes),
                    ..transfer
                },
                state,
            },
        );
    }
}

/// Whether the entry at `i` is the first one with the given index.
pub open spec fn is_entry(t: IncomingModel, index: u32, i: int) -> bool {
    &&& 0 <= i < t.entries.len()
    &&& t.entries[i].index == index
    &&& forall|j: int| 0 <= j < i ==> (#[trigger] t.entries[j]).index != index
}

proof fn lemma_is_entry(t: IncomingModel, index: u32)
    ensures
        match entry_position(t.entries, index) {
            Some(i) => is_entry(t, index, i),
            None => forall|j: int|
                0 <= j < t.entries.len() ==> (#[trigger] t.entries[j]).index != index,
        },
    decreases t.entries.len(),
{
    if t.entries.len() > 0 && t.entries[0].index != index {
        let rest = IncomingModel { entries: t.entries.drop_first(), ..t };
        lemma_is_entry(rest, index);
        assert(forall|j: int|
            0 < j < t.entries.len() ==> #[trigger] t.entries[j] == rest.entries[j - 1]);
    }
}

#[verifier::spinoff_prover]
proof fn lemma_reported(m: EngineModel, report: FileProgressReport)
    requires
        transfers_sound(m.transfers),
        crate::engine::transfers::report_fits(m, report),
    ensures
        ({
            let after = progress_reported(m, report);
            match find(m.transfers, report.transfer) {
                Some(TransferEntryModel::Incoming { transfer, state, error }) => {
                    &&& forall|i: int| #[trigger]
                        is_entry(transfer, report.index, i) ==> reports(
                            m,
                            after,
                            report,
                            transfer,
                            state,
                            error,
                            i,
                        )
                    &&& (forall|i: int| !is_entry(transfer, report.index, i)) ==> after == m
                },
                _ => after == m,
            }
        }),
{
    reveal(progress_reported);
    lemma_index_of(m.transfers, report.transfer);
    if let Some(TransferEntryModel::Incoming { transfer, state, error }) = find(
        m.transfers,
        report.transfer,
    ) {
        lemma_is_entry(transfer, report.index);
        if let Some(i) = entry_position(transfer.entries, report.index) {
            assert(is_entry(transfer, report.index, i));
            assert(forall|j: int| is_entry(transfer, report.index, j) ==> i == j);
            let next = TransferEntryModel::Incoming {
                transfer: IncomingModel {
                    written: transfer.written.update(i, report.bytes_done),
                    done_bytes: (crate::engine::transfers::minus(
                        transfer.done_bytes,
                        transfer.written[i],
                    ) + report.bytes_done) as u64,
                    ..transfer
                },
                state,
                error,
            };
            lemma_tracks(m, next);
        }
    }
}

/// Whether `after` is `m` with what a report says of the entry at `i` in the place of what
/// was counted for it before.
pub open spec fn reports(
    m: EngineModel,
    after: EngineModel,
    report: FileProgressReport,
    t: IncomingModel,
    state: TransferState,
    error: Option<Seq<char>>,
    i: int,
) -> bool {
    let rest: int = if t.done_bytes >= t.written[i] {
        t.done_bytes - t.written[i]
    } else {
        0
    };
    &&& after == (EngineModel { transfers: after.transfers, ..m })
    &&& tracks(
        m,
        after,
        report.transfer,
        TransferEntryModel::Incoming {
            transfer: IncomingModel {
                written: t.written.update(i, report.bytes_done),
                done_bytes: (rest + report.bytes_done) as u64,
                ..t
            },
            state,
            error,
        },
    )
}

/// What a peer reports of a file takes the place of what was counted for that file, in the
/// file and in the sum; no other file is touched.
#[verifier::spinoff_prover]
pub proof fn law_reported_progress_replaces_the_count(
    m: EngineModel,
    peer: DeviceId,
    report: FileProgressReport,
    extent: Option<(u64, u64)>,
    draw: u64,
    at: Moment,
)
    requires
        transfers_sound(m.transfers),
        crate::engine::transfers::report_fits(m, report),
    ensures
        ({
            let after = handled(m, says(peer, Message::FileProgress(report), extent), draw, at);
            let heard = EngineModel { sessions: after.sessions, ..m };
            &&& heard_from(m, after, peer@, at)
            &&& match find(m.transfers, report.transfer) {
                Some(TransferEntryModel::Incoming { transfer, state, error }) => {
                    &&& forall|i: int| #[trigger]
                        is_entry(transfer, report.index, i) ==> reports(
                            heard,
                            after,
                            report,
                            transfer,
                            state,
                            error,
                            i,
                        )
                    &&& (forall|i: int| !is_entry(transfer, report.index, i)) ==> after == heard
                },
                _ => after == heard,
            }
        }),
{
    lemma_heard_from(m, peer@, at);
    let heard = heard_of(m, peer@, at);
    lemma_reported(heard, report);
}

/// Whether `after` is `m` with the given chunk on its way to the entry at `i`.
pub open spec fn writes_chunk(
    m: EngineModel,
    after: EngineModel,
    chunk: FileChunkModel,
    t: IncomingModel,
    error: Option<Seq<char>>,
    i: int,
) -> bool {
    let unplaced = landing(t.entries[i].relative_path, t.root.parts);
    let known = t.resolved[i];
    if known is None && unplaced is Err {
        &&& after == (EngineModel { transfers: after.transfers, ..m })
        &&& tracks(
            m,
            after,
            t.id,
            TransferEntryModel::Incoming {
                transfer: t,
                state: TransferState::Failed,
                error: Some(unplaced->Err_0.sentence()),
            },
        )
    } else {
        after == (EngineModel {
            out: m.out.push(
                ActionModel::WriteChunk {
                    chunk,
                    position: i,
                    target: match known {
                        Some(path) => TargetModel::Known(path),
                        None => TargetModel::Fresh {
                            path: unplaced->Ok_0,
                            overwrite: m.settings.transfer.overwrite_existing,
                        },
                    },
                },
            ),
            ..m
        })
    }
}

#[verifier::spinoff_prover]
proof fn lemma_chunk(m: EngineModel, chunk: FileChunkModel)
    ensures
        ({
            let after = chunk_received(m, chunk);
            match find(m.transfers, chunk.transfer) {
                Some(TransferEntryModel::Incoming { transfer, state, error }) => {
                    &&& forall|i: int| #[trigger]
                        is_entry(transfer, chunk.index, i) ==> if state == TransferState::Active
                            && !transfer.entries[i].is_dir {
                            writes_chunk(m, after, chunk, transfer, error, i)
                        } else {
                            after == m
                        }
                    &&& (forall|i: int| !is_entry(transfer, chunk.index, i)) ==> after == m
                },
                _ => after == m,
            }
        }),
{
    reveal(chunk_received);
    lemma_index_of(m.transfers, chunk.transfer);
    if let Some(TransferEntryModel::Incoming { transfer, state, error }) = find(
        m.transfers,
        chunk.transfer,
    ) {
        lemma_is_entry(transfer, chunk.index);
        if let Some(i) = entry_position(transfer.entries, chunk.index) {
            assert(is_entry(transfer, chunk.index, i));
            assert(forall|j: int| is_entry(transfer, chunk.index, j) ==> i == j);
            if let Err(e) = landing(transfer.entries[i].relative_path, transfer.root.parts) {
                lemma_tracks(
                    m,
                    TransferEntryModel::Incoming {
                        transfer,
                        state: TransferState::Failed,
                        error: Some(e.sentence()),
                    },
                );
            }
        }
    }
}

/// A chunk of a running transfer is written as it came, to the file of its entry: to the
/// place that the file has, or to the safe path below the download directory that it gets.
/// A file without a safe path fails its transfer; a chunk for anything else is dropped.
#[verifier::spinoff_prover]
pub proof fn law_a_chunk_is_written_to_its_file(
    m: EngineModel,
    peer: DeviceId,
    chunk: FileChunk,
    extent: Option<(u64, u64)>,
    draw: u64,
    at: Moment,
)
    ensures
        ({
            let event = Event::Incoming { peer, item: Incoming::Chunk(chunk), extent };
            let after = handled(m, event, draw, at);
            let heard = EngineModel { sessions: after.sessions, ..m };
            let model = chunk.deep_view();
            &&& heard_from(m, after, peer@, at)
            &&& match find(m.transfers, model.transfer) {
                Some(TransferEntryModel::Incoming { transfer, state, error }) => {
                    &&& forall|i: int| #[trigger]
                        is_entry(transfer, model.index, i) ==> if state == TransferState::Active
                            && !transfer.entries[i].is_dir {
                            writes_chunk(heard, after, model, transfer, error, i)
                        } else {
                            after == heard
                        }
                    &&& (forall|i: int| !is_entry(transfer, model.index, i)) ==> after == heard
                },
                _ => after == heard,
            }
        }),
{
    lemma_heard_from(m, peer@, at);
    lemma_chunk(heard_of(m, peer@, at), chunk.deep_view());
}

/// Whether `after` is `m` with the outcome of writing to the entry at its position: a file
/// that was placed keeps its place, what was written is counted for the file and in the
/// sum, and an error fails the transfer.
pub open spec fn takes_outcome(
    m: EngineModel,
    after: EngineModel,
    outcome: ChunkOutcomeModel,
    t: IncomingModel,
    state: TransferState,
    error: Option<Seq<char>>,
) -> bool {
    let i = outcome.position;
    &&& after == (EngineModel { transfers: after.transfers, ..m })
    &&& find(after.transfers, outcome.transfer) matches Some(
        TransferEntryModel::Incoming { transfer: now, state: now_state, error: now_error },
    )
    &&& tracks(m, after, outcome.transfer, find(after.transfers, outcome.transfer)->Some_0)
    &&& now == (IncomingModel {
        resolved: now.resolved,
        written: now.written,
        done_bytes: now.done_bytes,
        ..t
    })
    &&& now.resolved == (match outcome.placed {
        Some(path) => t.resolved.update(i, Some(path)),
        None => t.resolved,
    })
    &&& match outcome.error {
        Some(reason) => now_state == TransferState::Failed && now_error == Some(reason)
            && now.written == t.written && now.done_bytes == t.done_bytes,
        None => {
            &&& now_state == state
            &&& now_error == error
            &&& now.written == t.written.update(i, now.written[i])
            &&& now.written[i] == if t.written[i] + outcome.len <= u64::MAX {
                t.written[i] + outcome.len
            } else {
                u64::MAX as int
            }
            &&& now.done_bytes == if t.done_bytes + outcome.len <= u64::MAX {
                t.done_bytes + outcome.len
            } else {
                u64::MAX as int
            }
        },
    }
}

/// The outcome of writing a chunk is kept with the file that it was for.
#[verifier::spinoff_prover]
pub proof fn law_written_bytes_are_counted(
    m: EngineModel,
    outcome: ChunkOutcome,
    draw: u64,
    at: Moment,
)
    requires
        transfers_sound(m.transfers),
    ensures
        ({
            let after = handled(m, Event::ChunkWritten(outcome), draw, at);
            let model = outcome.deep_view();
            match find(m.transfers, model.transfer) {
                Some(TransferEntryModel::Incoming { transfer, state, error }) => if 0
                    <= model.position < transfer.entries.len() {
                    takes_outcome(m, after, model, transfer, state, error)
                } else {
                    after == m
                },
                _ => after == m,
            }
        }),
{
    reveal(chunk_written);
    let model = outcome.deep_view();
    lemma_index_of(m.transfers, model.transfer);
    if let Some(TransferEntryModel::Incoming { transfer, state, error }) = find(
        m.transfers,
        model.transfer,
    ) {
        assert(transfer_sound(find(m.transfers, model.transfer)->Some_0));
        let i = model.position;
        let placed = IncomingModel {
            resolved: match model.placed {
                Some(path) => transfer.resolved.update(i, Some(path)),
                None => transfer.resolved,
            },
            ..transfer
        };
        let next = match model.error {
            Some(reason) => TransferEntryModel::Incoming {
                transfer: placed,
                state: TransferState::Failed,
                error: Some(reason),
            },
            None => TransferEntryModel::Incoming {
                transfer: IncomingModel {
                    written: transfer.written.update(
                        i,
                        crate::engine::transfers::plus(transfer.written[i], model.len),
                    ),
                    done_bytes: crate::engine::transfers::plus(transfer.done_bytes, model.len),
                    ..placed
                },
                state,
                error,
            },
        };
        lemma_tracks(m, next);
    }
}

#[verifier::spinoff_prover]
proof fn lemma_finished(m: EngineModel, finished: FileFinishedModel, at: Moment)
    ensures
        ({
            let after = files_finished(m, finished, at);
            match find(m.transfers, finished.transfer) {
                Some(TransferEntryModel::Incoming { transfer, state, error }) => {
                    &&& tracks(
                        m,
                        after,
                        finished.transfer,
                        received(transfer, error, finished),
                    )
                    &&& after == (EngineModel {
                        transfers: after.transfers,
                        out: after.out,
                        ..m
                    })
                    &&& after.out == m.out.push(
                        ActionModel::CloseFiles { transfer: finished.transfer },
                    ).push(
                        ActionModel::Notify(
                            NoticeModel::Info {
                                message: "Files from "@ + transfer.peer_name + " saved to "@
                                    + transfer.root.text,
                            },
                        ),
                    ).push(ActionModel::Publish(snapshot_of(after, at.unix)))
                },
                _ => after == (EngineModel {
                    out: m.out.push(ActionModel::Publish(snapshot_of(m, at.unix))),
                    ..m
                }),
            }
        }),
{
    reveal(files_finished);
    lemma_shows_itself(files_finished(m, finished, at), at.unix);
    lemma_index_of(m.transfers, finished.transfer);
    if let Some(TransferEntryModel::Incoming { transfer, state, error }) = find(
        m.transfers,
        finished.transfer,
    ) {
        lemma_tracks(m, received(transfer, error, finished));
    }
}

/// A transfer of which the sender said that everything was sent: complete, or failed with
/// the first reason where some of it was not.
pub open spec fn received(
    t: IncomingModel,
    error: Option<Seq<char>>,
    finished: FileFinishedModel,
) -> TransferEntryModel {
    let whole = IncomingModel { done_bytes: final_count(t.done_bytes, t.total_bytes), ..t };
    if finished.failed.len() == 0 {
        TransferEntryModel::Incoming { transfer: whole, state: TransferState::Completed, error }
    } else {
        TransferEntryModel::Incoming {
            transfer: whole,
            state: TransferState::Failed,
            error: Some(finished.failed[0].1),
        }
    }
}

/// Once the sender has sent everything, the transfer is complete, or failed where some of
/// it was not sent; its files are closed and the user is told where they are.
#[verifier::spinoff_prover]
pub proof fn law_a_finished_transfer_is_complete(
    m: EngineModel,
    peer: DeviceId,
    finished: FileFinished,
    extent: Option<(u64, u64)>,
    draw: u64,
    at: Moment,
)
    ensures
        ({
            let after = handled(m, says(peer, Message::FileFinished(finished), extent), draw, at);
            let model = finished.deep_view();
            &&& heard_from(m, after, peer@, at)
            &&& match find(m.transfers, model.transfer) {
                Some(TransferEntryModel::Incoming { transfer, state, error }) => {
                    &&& tracks(m, after, model.transfer, received(transfer, error, model))
                    &&& after == (EngineModel {
                        sessions: after.sessions,
                        transfers: after.transfers,
                        out: after.out,
                        ..m
                    })
                    &&& after.out == m.out.push(
                        ActionModel::CloseFiles { transfer: model.transfer },
                    ).push(
                        ActionModel::Notify(
                            NoticeModel::Info {
                                message: "Files from "@ + transfer.peer_name + " saved to "@
                                    + transfer.root.text,
                            },
                        ),
                    ).push(ActionModel::Publish(snapshot_of(after, at.unix)))
                },
                _ => {
                    &&& after == (EngineModel {
                        sessions: after.sessions,
                        out: after.out,
                        ..m
                    })
                    &&& after.out == m.out.push(
                        ActionModel::Publish(snapshot_of(after, at.unix)),
                    )
                },
            }
        }),
{
    lemma_heard_from(m, peer@, at);
    let after = handled(m, says(peer, Message::FileFinished(finished), extent), draw, at);
    lemma_finished(heard_of(m, peer@, at), finished.deep_view(), at);
    lemma_shows_itself(after, at.unix);
}

proof fn lemma_unfinished_filter(transfers: Seq<TransferEntryModel>)
    ensures
        unfinished(transfers) == transfers.filter(
            |entry: TransferEntryModel|
                state_of(entry) == TransferState::Pending || state_of(entry)
                    == TransferState::Active,
        ),
    decreases transfers.len(),
{
    reveal(Seq::filter);
    if transfers.len() > 0 {
        lemma_unfinished_filter(transfers.drop_last());
    }
}

/// Clearing the list drops the transfers that are over and keeps those that wait or run,
/// in their order.
#[verifier::spinoff_prover]
pub proof fn law_clearing_keeps_what_is_not_over(m: EngineModel, draw: u64, at: Moment)
    ensures
        ({
            let event = Event::Command(Command::ClearFinishedTransfers);
            let after = handled(m, event, draw, at);
            &&& after.transfers == m.transfers.filter(
                |entry: TransferEntryModel|
                    state_of(entry) == TransferState::Pending || state_of(entry)
                        == TransferState::Active,
            )
            &&& after == (EngineModel { transfers: after.transfers, out: after.out, ..m })
            &&& after.out == m.out.push(ActionModel::Publish(snapshot_of(after, at.unix)))
        }),
{
    let after = handled(m, Event::Command(Command::ClearFinishedTransfers), draw, at);
    lemma_shows_itself(after, at.unix);
    lemma_unfinished_filter(m.transfers);
}

} // verus!
