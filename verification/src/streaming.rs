//! What offering files and streaming them promises.

use vstd::prelude::*;

use crate::protocol::FileEntryModel;
use crate::transfer::{
    below, by_name, lemma_by_name_places, next_source, safe_component, turn_to, walked, walked_in,
    FsKind, FsNode, OutgoingFileModel, SenderModel, SenderStepModel, TransferErrorModel,
};

verus! {

proof fn lemma_next_source(files: Seq<OutgoingFileModel>, from: int)
    requires
        0 <= from <= files.len(),
    ensures
        ({
            let next = next_source(files, from);
            &&& from <= next <= files.len()
            &&& next < files.len() ==> files[next].source is Some
            &&& forall|j: int| from <= j < next ==> (#[trigger] files[j]).source is None
        }),
    decreases files.len() - from,
{
    if from < files.len() && files[from].source is None {
        lemma_next_source(files, from + 1);
    }
}

/// The sender turns to the files one after the other: it opens the first one from the given
/// place on that has contents, from its start, skips nothing but directories, and is finished
/// only where no file with contents is left.
pub proof fn law_the_sender_takes_each_file_in_turn(s: SenderModel, at: int)
    requires
        0 <= at <= s.files.len(),
    ensures
        ({
            let (after, step) = turn_to(s, at);
            &&& after.id == s.id
            &&& after.files == s.files
            &&& after.offset == 0
            &&& at <= after.at <= s.files.len()
            &&& forall|j: int| at <= j < after.at ==> (#[trigger] s.files[j]).source is None
            &&& match step {
                SenderStepModel::Open(path) => after.at < s.files.len()
                    && s.files[after.at].source == Some(path),
                SenderStepModel::Finish => after.at == s.files.len(),
                _ => false,
            }
        }),
{
    lemma_next_source(s.files, at);
}

/// The path of something in a directory: below the path of the directory, with a slash.
pub open spec fn path_in(prefix: Seq<char>, name: Seq<char>) -> Seq<char> {
    if prefix.len() > 0 {
        prefix + seq!['/'] + name
    } else {
        name
    }
}

/// A file is offered with its name, its path, its size and the place where its contents are.
pub proof fn law_a_file_is_offered_as_it_is(
    node: FsNode,
    name: String,
    size: u64,
    prefix: Seq<char>,
    next: nat,
)
    requires
        node.kind == (FsKind::File { size }),
        node.name == Some(name),
        safe_component(name@),
    ensures
        walked(node, prefix, next) == Ok::<Seq<OutgoingFileModel>, TransferErrorModel>(
            seq![
                OutgoingFileModel {
                    entry: FileEntryModel {
                        index: next as u32,
                        name: name@,
                        relative_path: path_in(prefix, name@),
                        size,
                        is_dir: false,
                    },
                    source: Some(node.path.deep_view()),
                },
            ],
        ),
{
    reveal_strlit("/");
    assert("/"@ =~= seq!['/']);
}

/// A directory is offered before what is in it, which follows in the order of the names,
/// below its path and numbered on.
pub proof fn law_a_directory_is_offered_with_its_contents(
    node: FsNode,
    name: String,
    children: Vec<FsNode>,
    prefix: Seq<char>,
    next: nat,
)
    requires
        node.kind == FsKind::Folder(children),
        node.name == Some(name),
        safe_component(name@),
    ensures
        ({
            let path = path_in(prefix, name@);
            let inner = walked_in(children, by_name(children), children@.len(), path, next + 1);
            match walked(node, prefix, next) {
                Ok(files) => {
                    &&& files.len() > 0
                    &&& files[0] == (OutgoingFileModel {
                        entry: FileEntryModel {
                            index: next as u32,
                            name: name@,
                            relative_path: path,
                            size: 0,
                            is_dir: true,
                        },
                        source: None,
                    })
                    &&& inner == Ok::<Seq<OutgoingFileModel>, TransferErrorModel>(files.skip(1))
                },
                Err(e) => inner == Err::<Seq<OutgoingFileModel>, TransferErrorModel>(e),
            }
        }),
{
    reveal_strlit("/");
    assert("/"@ =~= seq!['/']);
    lemma_by_name_places(children);
    assert(below(prefix, name@) == path_in(prefix, name@));
    if let Ok(files) = walked(node, prefix, next) {
        let path = path_in(prefix, name@);
        let inner = walked_in(children, by_name(children), children@.len(), path, next + 1);
        assert(files.skip(1) =~= inner->Ok_0);
    }
}

/// Links are left out. What cannot be read, has no name or has an unsafe one stops the offer.
pub proof fn law_links_are_left_out(node: FsNode, prefix: Seq<char>, next: nat)
    ensures
        node.kind is Symlink ==> walked(node, prefix, next) == Ok::<
            Seq<OutgoingFileModel>,
            TransferErrorModel,
        >(Seq::empty()),
        node.kind matches FsKind::Unreadable(reason) ==> walked(node, prefix, next) == Err::<
            Seq<OutgoingFileModel>,
            TransferErrorModel,
        >(TransferErrorModel::Io { path: node.path.text@, source: reason@ }),
        node.kind matches FsKind::UnreadableFolder(reason) ==> walked(node, prefix, next) is Err,
        node.kind is File || node.kind is Folder ==> (node.name matches Some(name)
            ==> (!safe_component(name@) ==> walked(node, prefix, next) == Err::<
            Seq<OutgoingFileModel>,
            TransferErrorModel,
        >(TransferErrorModel::UnsafePath(name@)))),
        node.kind is File || node.kind is Folder ==> (node.name is None ==> walked(
            node,
            prefix,
            next,
        ) == Err::<Seq<OutgoingFileModel>, TransferErrorModel>(
            TransferErrorModel::Other(node.path.text@ + " has no file name"@),
        )),
{
}

/// What the trees that the user chose add to an offer is what each adds after the other,
/// numbered on; the first one that cannot be offered stops it.
pub proof fn law_chosen_trees_follow_each_other(
    nodes: Vec<FsNode>,
    order: Seq<int>,
    n: nat,
    prefix: Seq<char>,
    next: nat,
)
    requires
        0 < n <= order.len(),
        crate::transfer::are_places(order, nodes@.len()),
    ensures
        walked_in(nodes, order, 0, prefix, next) == Ok::<
            Seq<OutgoingFileModel>,
            TransferErrorModel,
        >(Seq::empty()),
        walked_in(nodes, order, n, prefix, next) matches Ok(files) ==> exists|before: nat|
            before <= files.len() && walked_in(
                nodes,
                order,
                (n - 1) as nat,
                prefix,
                next,
            ) == Ok::<Seq<OutgoingFileModel>, TransferErrorModel>(
                #[trigger] files.take(before as int),
            ) && walked(nodes@[order[n - 1]], prefix, next + before) == Ok::<
                Seq<OutgoingFileModel>,
                TransferErrorModel,
            >(files.skip(before as int)),
{
    if let Ok(files) = walked_in(nodes, order, n, prefix, next) {
        let head = walked_in(nodes, order, (n - 1) as nat, prefix, next)->Ok_0;
        let more = walked(nodes@[order[n - 1]], prefix, next + head.len())->Ok_0;
        assert(files.take(head.len() as int) =~= head);
        assert(files.skip(head.len() as int) =~= more);
    }
}

} // verus!
