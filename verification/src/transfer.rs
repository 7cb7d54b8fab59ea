//! Sending and receiving files.
//!
//! Received paths are rebuilt from scratch under the download directory, so a
//! malicious or buggy peer cannot write outside it. Every path component is
//! validated individually, which also covers the Windows device names and
//! trailing-dot tricks.

use vstd::prelude::*;
use vstd::string::*;

use crate::identity::DeviceId;
use crate::lists::{empty_list, push_item};
use crate::paths::{clone_parts, DirPath, DirPathModel, PathPart, PathPartModel};
use crate::protocol::{FileChunk, FileChunkModel, FileEntry, FileEntryModel, TransferId};
use crate::sorted::{
    in_rank_order, law_sorted_is_in_order, law_sorting_keeps_the_items, lemma_slot, orders, slot,
    sort_items, Rankable, Ranked,
};
use crate::text::{
    cat2, cat3, cat4, cat5, chars_of, comes_before, cut_before, decimal, format_decimal,
    law_order_is_negatively_transitive, law_order_is_total, pieces, precedes, same_text, split,
    text_between, to_upper, trim, trimmed, up_to, upper_text,
};
use crate::view::{
    TransferDirection, TransferFileModel, TransferFileView, TransferState, TransferView,
    TransferViewModel,
};

verus! {

/// Bytes read from disk per chunk when sending.
pub const CHUNK_BYTES: usize = 49_152;

#[derive(Debug, PartialEq)]
pub enum TransferError {
    UnsafePath(String),
    Io { path: String, source: String },
    UnknownTransfer,
    Other(String),
}

pub type Result<T, E = TransferError> = std::result::Result<T, E>;

/// A transfer error, by its contents.
#[verifier::ext_equal]
pub enum TransferErrorModel {
    UnsafePath(Seq<char>),
    Io { path: Seq<char>, source: Seq<char> },
    UnknownTransfer,
    Other(Seq<char>),
}

impl DeepView for TransferError {
    type V = TransferErrorModel;

    open spec fn deep_view(&self) -> TransferErrorModel {
        match self {
            TransferError::UnsafePath(text) => TransferErrorModel::UnsafePath(text@),
            TransferError::Io { path, source } => TransferErrorModel::Io {
                path: path@,
                source: source@,
            },
            TransferError::UnknownTransfer => TransferErrorModel::UnknownTransfer,
            TransferError::Other(text) => TransferErrorModel::Other(text@),
        }
    }
}

impl TransferErrorModel {
    /// The sentence shown for an error.
    pub open spec fn sentence(self) -> Seq<char> {
        match self {
            TransferErrorModel::UnsafePath(text) => "path is not safe to write: "@ + text,
            TransferErrorModel::Io { path, source } => "i/o error on "@ + path + ": "@ + source,
            TransferErrorModel::UnknownTransfer => "the peer sent data for an unknown transfer"@,
            TransferErrorModel::Other(text) => text,
        }
    }
}

impl TransferError {
    /// The sentence shown for the error.
    pub fn message(&self) -> (out: String)
        ensures
            out@ == self.deep_view().sentence(),
    {
        match self {
            TransferError::UnsafePath(text) => cat2("path is not safe to write: ", text.as_str()),
            TransferError::Io { path, source } => cat4(
                "i/o error on ",
                path.as_str(),
                ": ",
                source.as_str(),
            ),
            TransferError::UnknownTransfer => {
                "the peer sent data for an unknown transfer".to_owned()
            },
            TransferError::Other(text) => text.clone(),
        }
    }
}

/// Names Windows reserves for devices; writing them would either fail or hit a
/// device instead of a file.
pub open spec fn device_name(stem: Seq<char>) -> bool {
    ||| stem == "CON"@
    ||| stem == "PRN"@
    ||| stem == "AUX"@
    ||| stem == "NUL"@
    ||| stem.len() == 4 && (stem.take(3) == "COM"@ || stem.take(3) == "LPT"@) && '1' <= stem[3]
        <= '9'
}

fn is_device_name(stem: &str) -> (out: bool)
    ensures
        out == device_name(stem@),
{
    if same_text(stem, "CON") || same_text(stem, "PRN") || same_text(stem, "AUX") || same_text(
        stem,
        "NUL",
    ) {
        return true;
    }
    let chars = chars_of(stem);
    if chars.len() != 4 {
        return false;
    }
    let head = text_between(&chars, 0, 3);
    assert(stem@.take(3) =~= chars@.subrange(0, 3));
    (same_text(head.as_str(), "COM") || same_text(head.as_str(), "LPT")) && '1' <= chars[3]
        && chars[3] <= '9'
}

/// Whether a character can never stand in a path component.
pub open spec fn forbidden_char(c: char) -> bool {
    c == '/' || c == '\\' || (c as int) < 0x20
}

fn is_forbidden(c: char) -> (out: bool)
    ensures
        out == forbidden_char(c),
{
    c == '/' || c == '\\' || (c as u32) < 0x20
}

/// A component that names a file below its directory on every system: not blank or a
/// dot entry, nothing that Windows strips, no separator or control character, and no
/// device.
pub open spec fn safe_component(c: Seq<char>) -> bool {
    &&& c.len() > 0
    &&& c != "."@
    &&& c != ".."@
    &&& trimmed(c) == c
    &&& c.last() != '.'
    &&& !device_name(upper_text(up_to(c, '.')))
    &&& forall|i: int| 0 <= i < c.len() ==> !forbidden_char(#[trigger] c[i])
}

/// Validates a single path component.
pub fn sanitize_component(component: &str) -> (out: Result<String>)
    ensures
        match out {
            Ok(name) => safe_component(component@) && name@ == component@,
            Err(e) => !safe_component(component@) && e.deep_view()
                == TransferErrorModel::UnsafePath(component@),
        },
{
    let bare = trim(component);
    let chars = chars_of(component);
    // Leading or trailing whitespace is stripped by Windows, which could turn
    // one name into a different one; refuse rather than guess.
    if chars.len() == 0 || same_text(component, ".") || same_text(component, "..") || !same_text(
        bare.as_str(),
        component,
    ) {
        return Err(TransferError::UnsafePath(component.to_owned()));
    }
    // A trailing dot is dropped by Windows as well.
    if chars[chars.len() - 1] == '.' {
        return Err(TransferError::UnsafePath(component.to_owned()));
    }
    let stem = to_upper(cut_before(component, '.'));
    if is_device_name(stem.as_str()) {
        return Err(TransferError::UnsafePath(component.to_owned()));
    }
    let mut i: usize = 0;
    while i < chars.len()
        invariant
            i <= chars@.len(),
            chars@ == component@,
            forall|j: int| 0 <= j < i ==> !forbidden_char(#[trigger] chars@[j]),
        decreases chars@.len() - i,
    {
        if is_forbidden(chars[i]) {
            return Err(TransferError::UnsafePath(component.to_owned()));
        }
        i += 1;
    }
    Ok(component.to_owned())
}

/// A path with forward slashes only.
pub open spec fn slashed(s: Seq<char>) -> Seq<char> {
    s.map_values(
        |c: char|
            if c == '\\' {
                '/'
            } else {
                c
            },
    )
}

fn to_slashes(s: &str) -> (out: String)
    ensures
        out@ == slashed(s@),
{
    let chars = chars_of(s);
    let mut out = String::new();
    let mut i: usize = 0;
    while i < chars.len()
        invariant
            i <= chars@.len(),
            chars@ == s@,
            out@ =~= slashed(s@.take(i as int)),
        decreases chars@.len() - i,
    {
        if chars[i] == '\\' {
            out.push('/');
        } else {
            out.push(chars[i]);
        }
        i += 1;
    }
    assert(s@.take(i as int) =~= s@);
    out
}

/// The texts of a list that are not empty.
pub open spec fn nonempty(texts: Seq<Seq<char>>) -> Seq<Seq<char>>
    decreases texts.len(),
{
    if texts.len() == 0 {
        texts
    } else if texts.last().len() == 0 {
        nonempty(texts.drop_last())
    } else {
        nonempty(texts.drop_last()).push(texts.last())
    }
}

/// The components that a relative path names.
pub open spec fn components(relative: Seq<char>) -> Seq<Seq<char>> {
    nonempty(pieces(slashed(relative), '/'))
}

/// The first component that is not safe.
pub open spec fn first_unsafe(texts: Seq<Seq<char>>) -> Option<Seq<char>>
    decreases texts.len(),
{
    if texts.len() == 0 {
        None
    } else {
        match first_unsafe(texts.drop_last()) {
            Some(c) => Some(c),
            None => if safe_component(texts.last()) {
                None
            } else {
                Some(texts.last())
            },
        }
    }
}

/// Path components with the given names.
pub open spec fn named_parts(texts: Seq<Seq<char>>) -> Seq<PathPartModel> {
    texts.map_values(|c: Seq<char>| PathPartModel::Normal(c))
}

/// Whether a path climbs to a parent directory somewhere.
pub open spec fn climbs(parts: Seq<PathPartModel>) -> bool {
    parts.contains(PathPartModel::Parent)
}

/// Where a relative path from a peer lands below `root`, or why it is refused.
pub open spec fn landing(relative: Seq<char>, root: Seq<PathPartModel>) -> std::result::Result<
    Seq<PathPartModel>,
    TransferErrorModel,
> {
    let s = slashed(relative);
    if (s.len() > 0 && s[0] == '/') || s.contains(':') {
        Err(TransferErrorModel::UnsafePath(relative))
    } else {
        match first_unsafe(components(relative)) {
            Some(c) => Err(TransferErrorModel::UnsafePath(c)),
            None => if components(relative).len() == 0 || climbs(root) {
                Err(TransferErrorModel::UnsafePath(relative))
            } else {
                Ok(root + named_parts(components(relative)))
            },
        }
    }
}

/// The outcome of placing a path, by its contents.
pub open spec fn landing_result(r: Result<Vec<PathPart>>) -> std::result::Result<
    Seq<PathPartModel>,
    TransferErrorModel,
> {
    match r {
        Ok(parts) => Ok(parts.deep_view()),
        Err(e) => Err(e.deep_view()),
    }
}

fn has_colon(s: &str) -> (out: bool)
    ensures
        out == s@.contains(':'),
{
    let chars = chars_of(s);
    let mut i: usize = 0;
    while i < chars.len()
        invariant
            i <= chars@.len(),
            chars@ == s@,
            forall|j: int| 0 <= j < i ==> chars@[j] != ':',
        decreases chars@.len() - i,
    {
        if chars[i] == ':' {
            assert(s@[i as int] == ':');
            return true;
        }
        i += 1;
    }
    false
}

fn has_parent(parts: &Vec<PathPart>) -> (out: bool)
    ensures
        out == climbs(parts.deep_view()),
{
    let ghost models = parts.deep_view();
    let mut i: usize = 0;
    while i < parts.len()
        invariant
            i <= parts@.len(),
            models == parts.deep_view(),
            forall|j: int| 0 <= j < i ==> models[j] != PathPartModel::Parent,
        decreases parts@.len() - i,
    {
        if let PathPart::Parent = &parts[i] {
            assert(models[i as int] == PathPartModel::Parent);
            return true;
        }
        i += 1;
    }
    false
}

/// Once one component is unsafe, a longer list has the same first unsafe one.
proof fn lemma_first_unsafe_stays(texts: Seq<Seq<char>>, n: int)
    requires
        0 <= n <= texts.len(),
        first_unsafe(texts.take(n)) is Some,
    ensures
        first_unsafe(texts) == first_unsafe(texts.take(n)),
    decreases texts.len(),
{
    if n < texts.len() {
        assert(texts.drop_last().take(n) =~= texts.take(n));
        lemma_first_unsafe_stays(texts.drop_last(), n);
    } else {
        assert(texts.take(n) =~= texts);
    }
}

/// The non-empty texts of a longer list start with those of a shorter one.
proof fn lemma_nonempty_prefix(texts: Seq<Seq<char>>, n: int)
    requires
        0 <= n <= texts.len(),
    ensures
        nonempty(texts.take(n)).len() <= nonempty(texts).len(),
        nonempty(texts).take(nonempty(texts.take(n)).len() as int) == nonempty(texts.take(n)),
    decreases texts.len(),
{
    if n < texts.len() {
        assert(texts.drop_last().take(n) =~= texts.take(n));
        lemma_nonempty_prefix(texts.drop_last(), n);
        assert(nonempty(texts).take(nonempty(texts.take(n)).len() as int) =~= nonempty(
            texts.take(n),
        ));
    } else {
        assert(texts.take(n) =~= texts);
        assert(nonempty(texts).take(nonempty(texts).len() as int) =~= nonempty(texts));
    }
}

/// Turns a peer supplied relative path into a safe path below `root`.
pub fn sanitize_relative(relative: &str, root: &Vec<PathPart>) -> (out: Result<Vec<PathPart>>)
    ensures
        landing_result(out) == landing(relative@, root.deep_view()),
{
    let normalized = to_slashes(relative);
    let chars = chars_of(normalized.as_str());
    if (chars.len() > 0 && chars[0] == '/') || has_colon(normalized.as_str()) {
        return Err(TransferError::UnsafePath(relative.to_owned()));
    }
    let raws = split(normalized.as_str(), '/');
    let ghost all = pieces(slashed(relative@), '/');
    let mut out = clone_parts(root);
    let mut count: usize = 0;
    let mut i: usize = 0;
    assert(out.deep_view() =~= root.deep_view() + named_parts(nonempty(all.take(0))));
    while i < raws.len()
        invariant
            i <= raws@.len(),
            raws.deep_view() == all,
            all == pieces(slashed(relative@), '/'),
            !((slashed(relative@).len() > 0 && slashed(relative@)[0] == '/') || slashed(
                relative@,
            ).contains(':')),
            count <= i,
            count == nonempty(all.take(i as int)).len(),
            first_unsafe(nonempty(all.take(i as int))) is None,
            out.deep_view() == root.deep_view() + named_parts(nonempty(all.take(i as int))),
        decreases raws@.len() - i,
    {
        proof {
            assert(all.take(i as int + 1).drop_last() =~= all.take(i as int));
            assert(all.take(i as int + 1).last() == raws@[i as int]@);
        }
        let ghost before = nonempty(all.take(i as int));
        if raws[i].as_str().unicode_len() > 0 {
            let ghost grown = before.push(raws@[i as int]@);
            proof {
                assert(grown.drop_last() =~= before);
                assert(nonempty(all.take(i as int + 1)) == grown);
            }
            match sanitize_component(raws[i].as_str()) {
                Ok(name) => {
                    let ghost earlier = out.deep_view();
                    out.push(PathPart::Normal(name));
                    assert(out.deep_view() =~= earlier.push(PathPartModel::Normal(name@)));
                    assert(out.deep_view() =~= root.deep_view() + named_parts(grown));
                    count += 1;
                },
                Err(e) => {
                    proof {
                        lemma_nonempty_prefix(all, i as int + 1);
                        lemma_first_unsafe_stays(nonempty(all), grown.len() as int);
                    }
                    return Err(e);
                },
            }
        }
        i += 1;
    }
    assert(all.take(i as int) =~= all);
    if count == 0 {
        return Err(TransferError::UnsafePath(relative.to_owned()));
    }
    if has_parent(root) {
        return Err(TransferError::UnsafePath(relative.to_owned()));
    }
    Ok(out)
}

/// In a list without an unsafe component every component is safe.
proof fn lemma_all_safe(texts: Seq<Seq<char>>)
    requires
        first_unsafe(texts) is None,
    ensures
        forall|i: int| 0 <= i < texts.len() ==> safe_component(#[trigger] texts[i]),
    decreases texts.len(),
{
    if texts.len() > 0 {
        lemma_all_safe(texts.drop_last());
        assert forall|i: int| 0 <= i < texts.len() implies safe_component(#[trigger] texts[i]) by {
            if i < texts.len() - 1 {
                assert(texts.drop_last()[i] == texts[i]);
            }
        }
    }
}

/// Wherever a peer's path lands, it is strictly below the root, every component that
/// was added is a safe name, and nothing in it climbs.
pub proof fn law_landing_stays_below_the_root(relative: Seq<char>, root: Seq<PathPartModel>)
    ensures
        landing(relative, root) matches Ok(path) ==> path.len() > root.len() && path.take(
            root.len() as int,
        ) == root && !climbs(path) && forall|i: int|
            root.len() <= i < path.len() ==> (#[trigger] path[i] matches PathPartModel::Normal(name)
                && safe_component(name)),
{
    if landing(relative, root) is Ok {
        let names = components(relative);
        lemma_all_safe(names);
        let path = root + named_parts(names);
        assert(path.take(root.len() as int) =~= root);
        assert forall|i: int| root.len() <= i < path.len() implies (
        #[trigger] path[i] matches PathPartModel::Normal(name) && safe_component(name)) by {
            assert(path[i] == PathPartModel::Normal(names[i - root.len()]));
        }
        if climbs(path) {
            let i = choose|i: int| 0 <= i < path.len() && path[i] == PathPartModel::Parent;
            if i < root.len() {
                assert(root[i] == PathPartModel::Parent);
                assert(root.contains(PathPartModel::Parent));
            }
        }
    }
}

/// Where the last dot of a file name splits off its extension: the length where it has
/// none. A dot that starts the name splits nothing off.
pub open spec fn extension_at(name: Seq<char>) -> int
    decreases name.len(),
{
    if name.len() == 0 {
        0
    } else if name.last() == '.' && name.len() > 1 {
        name.len() - 1
    } else {
        let at = extension_at(name.drop_last());
        if at == name.len() - 1 {
            name.len() as int
        } else {
            at
        }
    }
}

proof fn lemma_extension_at(name: Seq<char>, n: int)
    requires
        1 <= n <= name.len(),
        n < name.len() ==> name[n] == '.',
        forall|j: int| n < j < name.len() ==> name[j] != '.',
        n == name.len() ==> forall|j: int| 1 <= j < name.len() ==> name[j] != '.',
    ensures
        extension_at(name) == n,
    decreases name.len(),
{
    if n < name.len() {
        if n < name.len() - 1 {
            lemma_extension_at(name.drop_last(), n);
        }
    } else if name.len() > 1 {
        lemma_extension_at(name.drop_last(), n - 1);
    } else {
        assert(extension_at(name.drop_last()) == 0);
    }
}

/// The name to try after `tried` others: the name itself, then " (2)", " (3)" and so on
/// before its extension.
pub open spec fn candidate(name: Seq<char>, tried: nat) -> Seq<char> {
    if tried == 0 {
        name
    } else {
        name.take(extension_at(name)) + " ("@ + decimal(tried + 1) + ")"@ + name.skip(
            extension_at(name),
        )
    }
}

/// The next step on the way to a name that is free.
#[derive(Debug, PartialEq)]
pub enum UniqueStep {
    /// Find out whether this name is taken.
    Ask(String),
    /// Take this name: it is free.
    Use(String),
}

/// A step on the way to a free name, by its contents.
#[verifier::ext_equal]
pub enum UniqueStepModel {
    Ask(Seq<char>),
    Use(Seq<char>),
}

impl DeepView for UniqueStep {
    type V = UniqueStepModel;

    open spec fn deep_view(&self) -> UniqueStepModel {
        match self {
            UniqueStep::Ask(name) => UniqueStepModel::Ask(name@),
            UniqueStep::Use(name) => UniqueStepModel::Use(name@),
        }
    }
}

/// The next step after `asked` names were asked about, of which all but the last are
/// taken and the last is taken where `last_taken` says so.
pub open spec fn unique_step(name: Seq<char>, asked: u64, last_taken: bool) -> UniqueStepModel {
    if asked > 0 && !last_taken {
        UniqueStepModel::Use(candidate(name, (asked - 1) as nat))
    } else {
        UniqueStepModel::Ask(candidate(name, asked as nat))
    }
}

fn candidate_name(name: &str, tried: u64) -> (out: String)
    requires
        tried < u64::MAX,
    ensures
        out@ == candidate(name@, tried as nat),
{
    if tried == 0 {
        return name.to_owned();
    }
    let chars = chars_of(name);
    let len: usize = chars.len();
    let mut at: usize = len;
    if len > 0 {
        let mut i: usize = len - 1;
        while i > 0 && at == len
            invariant
                i < len,
                len == chars@.len(),
                i < at <= len || i + 1 == at || at == i,
                at == len ==> forall|j: int| i < j < len ==> chars@[j] != '.',
                at < len ==> at >= 1 && chars@[at as int] == '.' && forall|j: int|
                    at < j < len ==> chars@[j] != '.',
            decreases i + (if at == len {
                1int
            } else {
                0int
            }),
        {
            if chars[i] == '.' {
                at = i;
            } else {
                i -= 1;
            }
        }
        proof {
            lemma_extension_at(name@, at as int);
        }
    } else {
        assert(extension_at(name@) == 0);
    }
    let stem = text_between(&chars, 0, at);
    let extension = text_between(&chars, at, len);
    assert(name@.take(at as int) =~= chars@.subrange(0, at as int));
    assert(name@.skip(at as int) =~= chars@.subrange(at as int, len as int));
    cat5(stem.as_str(), " (", format_decimal(tried + 1).as_str(), ")", extension.as_str())
}

/// Picks a name that does not exist yet, appending " (2)", " (3)" and so on.
///
/// Whether a name exists is for the caller to find out: the search goes on from the
/// number of names asked about so far and the answer to the last question, and ends only
/// at a name that was found free.
pub fn unique_path(name: &str, asked: u64, last_taken: bool) -> (out: UniqueStep)
    requires
        asked < u64::MAX,
    ensures
        out.deep_view() == unique_step(name@, asked, last_taken),
        out is Use <==> asked > 0 && !last_taken,
{
    if asked > 0 && !last_taken {
        UniqueStep::Use(candidate_name(name, asked - 1))
    } else {
        UniqueStep::Ask(candidate_name(name, asked))
    }
}

/// A search takes a name exactly where it was just told that the name is free, and then
/// takes that name; every later candidate differs from the name itself.
pub proof fn law_unique_never_takes_a_taken_name(name: Seq<char>, asked: u64, taken: bool)
    ensures
        unique_step(name, asked, taken) matches UniqueStepModel::Use(picked) ==> asked > 0 && !taken
            && unique_step(name, (asked - 1) as u64, true) == UniqueStepModel::Ask(picked),
        asked > 0 && !taken ==> unique_step(name, asked, taken) is Use,
        asked > 0 ==> candidate(name, asked as nat) != name,
{
    reveal_strlit(" (");
    if asked > 0 {
        lemma_extension_range(name);
        assert(candidate(name, asked as nat).len() > name.len());
    }
}

/// Whether the candidate after `n` others is the first that is free.
pub open spec fn finds_free(name: Seq<char>, taken: spec_fn(Seq<char>) -> bool, n: u64) -> bool {
    &&& !taken(candidate(name, n as nat))
    &&& forall|i: nat| i < n ==> taken(#[trigger] candidate(name, i))
}

/// The step of a search after `asked` names, with the true answer to the last question.
pub open spec fn answered_step(
    name: Seq<char>,
    taken: spec_fn(Seq<char>) -> bool,
    asked: u64,
) -> UniqueStepModel {
    unique_step(name, asked, asked > 0 && taken(candidate(name, (asked - 1) as nat)))
}

/// A search that gets true answers picks the first candidate that is free: the name itself
/// where it is free, and otherwise the one with the smallest number.
pub proof fn law_unique_picks_the_first_free_name(
    name: Seq<char>,
    taken: spec_fn(Seq<char>) -> bool,
    n: u64,
)
    requires
        n < u64::MAX,
        finds_free(name, taken, n),
    ensures
        forall|asked: u64|
            asked <= n ==> #[trigger] answered_step(name, taken, asked) == UniqueStepModel::Ask(
                candidate(name, asked as nat),
            ),
        answered_step(name, taken, (n + 1) as u64) == UniqueStepModel::Use(
            candidate(name, n as nat),
        ),
{
    assert forall|asked: u64| asked <= n implies #[trigger] answered_step(name, taken, asked)
        == UniqueStepModel::Ask(candidate(name, asked as nat)) by {
        if asked > 0 {
            assert(taken(candidate(name, (asked - 1) as nat)));
        }
    }
}

proof fn lemma_extension_range(name: Seq<char>)
    ensures
        0 <= extension_at(name) <= name.len(),
    decreases name.len(),
{
    if name.len() > 0 {
        lemma_extension_range(name.drop_last());
    }
}

/// A file or directory on this machine: how it is shown, and the number under which
/// the program around the library finds it again.
#[derive(Debug, PartialEq)]
pub struct LocalPath {
    pub text: String,
    pub ticket: u64,
}

#[verifier::ext_equal]
pub struct LocalPathModel {
    pub text: Seq<char>,
    pub ticket: u64,
}

impl DeepView for LocalPath {
    type V = LocalPathModel;

    open spec fn deep_view(&self) -> LocalPathModel {
        LocalPathModel { text: self.text@, ticket: self.ticket }
    }
}

impl Clone for LocalPath {
    fn clone(&self) -> (out: Self)
        ensures
            out == *self,
    {
        LocalPath { text: self.text.clone(), ticket: self.ticket }
    }
}

/// What was found under a path, symbolic links not followed.
#[derive(Debug, PartialEq)]
pub enum FsKind {
    /// The path could not be examined, for the given reason.
    Unreadable(String),
    Symlink,
    Folder(Vec<FsNode>),
    /// A directory whose contents could not be listed, for the given reason.
    UnreadableFolder(String),
    File { size: u64 },
}

/// A file or directory that the user chose, with what is below it.
#[derive(Debug, PartialEq)]
pub struct FsNode {
    pub path: LocalPath,
    /// The last component of the path, where it has one.
    pub name: Option<String>,
    pub kind: FsKind,
}

/// A file queued for sending: what the peer will see, and where it lives here.
#[derive(Debug, PartialEq)]
pub struct OutgoingFile {
    pub entry: FileEntry,
    /// `None` for directories, which only ever create a folder on the far side.
    pub source: Option<LocalPath>,
}

#[verifier::ext_equal]
pub struct OutgoingFileModel {
    pub entry: FileEntryModel,
    pub source: Option<LocalPathModel>,
}

impl DeepView for OutgoingFile {
    type V = OutgoingFileModel;

    open spec fn deep_view(&self) -> OutgoingFileModel {
        OutgoingFileModel { entry: self.entry.deep_view(), source: self.source.deep_view() }
    }
}

impl Clone for OutgoingFile {
    fn clone(&self) -> (out: Self)
        ensures
            out == *self,
    {
        OutgoingFile {
            entry: self.entry.clone(),
            source: match &self.source {
                Some(path) => Some(path.clone()),
                None => None,
            },
        }
    }
}

/// The outcome of walking part of a tree.
pub type Walked = std::result::Result<Seq<OutgoingFileModel>, TransferErrorModel>;

/// The path of `name` in the directory `prefix`.
pub open spec fn below(prefix: Seq<char>, name: Seq<char>) -> Seq<char> {
    if prefix.len() == 0 {
        name
    } else {
        prefix + "/"@ + name
    }
}

/// A place in a list of nodes, with the name that stands there.
#[derive(Debug, PartialEq)]
pub struct NamedPlace {
    pub name: String,
    pub at: usize,
}

/// A place in a list of nodes, by its contents.
#[verifier::ext_equal]
pub struct NamedPlaceModel {
    pub name: Seq<char>,
    pub at: int,
}

impl DeepView for NamedPlace {
    type V = NamedPlaceModel;

    open spec fn deep_view(&self) -> NamedPlaceModel {
        NamedPlaceModel { name: self.name@, at: self.at as int }
    }
}

impl Ranked for NamedPlaceModel {
    /// What is in a directory is listed by name.
    open spec fn before(&self, other: &Self) -> bool {
        precedes(self.name, other.name)
    }
}

impl Rankable for NamedPlace {
    fn goes_before(&self, other: &Self) -> (out: bool) {
        comes_before(self.name.as_str(), other.name.as_str())
    }
}

proof fn lemma_names_order_places()
    ensures
        orders::<NamedPlaceModel>(),
{
    assert forall|a: NamedPlaceModel, b: NamedPlaceModel| #[trigger] a.before(&b) implies !b.before(
        &a,
    ) by {
        law_order_is_total(a.name, b.name);
    }
    assert forall|a: NamedPlaceModel, b: NamedPlaceModel, c: NamedPlaceModel|
        #![trigger a.before(&b), a.before(&c)]
        #![trigger a.before(&b), c.before(&b)]
        a.before(&b) implies a.before(&c) || c.before(&b) by {
        law_order_is_negatively_transitive(a.name, b.name, c.name);
    }
}

/// The name by which a node is listed.
pub open spec fn name_in_list(node: FsNode) -> Seq<char> {
    match node.name {
        Some(name) => name@,
        None => Seq::empty(),
    }
}

/// The places of a list of nodes, with their names.
pub open spec fn named_places(nodes: Vec<FsNode>) -> Seq<NamedPlaceModel> {
    Seq::new(
        nodes@.len(),
        |i: int| NamedPlaceModel { name: name_in_list(nodes@[i]), at: i },
    )
}

/// Where some places are in their list.
pub open spec fn places_of(places: Seq<NamedPlaceModel>) -> Seq<int> {
    places.map_values(|place: NamedPlaceModel| place.at)
}

/// The places of a list of nodes in the order of their names.
pub open spec fn by_name(nodes: Vec<FsNode>) -> Seq<int> {
    places_of(in_rank_order(named_places(nodes)))
}

/// The places of a list of nodes as they come.
pub open spec fn as_given(nodes: Vec<FsNode>) -> Seq<int> {
    Seq::new(nodes@.len(), |i: int| i)
}

/// Whether these are places in a list of the given length.
pub open spec fn are_places(order: Seq<int>, len: nat) -> bool {
    forall|i: int| 0 <= i < order.len() ==> 0 <= #[trigger] order[i] < len
}

pub proof fn lemma_by_name_places(nodes: Vec<FsNode>)
    ensures
        by_name(nodes).len() == nodes@.len(),
        are_places(by_name(nodes), nodes@.len()),
        forall|i: int|
            0 <= i < nodes@.len() ==> (#[trigger] in_rank_order(named_places(nodes))[i])
                == named_places(nodes)[by_name(nodes)[i]],
{
    let places = named_places(nodes);
    let sorted = in_rank_order(places);
    law_sorting_keeps_the_items(places);
    places.to_multiset_ensures();
    sorted.to_multiset_ensures();
    assert forall|i: int| 0 <= i < sorted.len() implies 0 <= (#[trigger] sorted[i]).at
        < nodes@.len() && sorted[i] == places[sorted[i].at] by {
        assert(sorted.contains(sorted[i]));
        assert(sorted.to_multiset().count(sorted[i]) > 0);
        assert(places.contains(sorted[i]));
    }
    assert forall|i: int| 0 <= i < by_name(nodes).len() implies 0 <= #[trigger] by_name(nodes)[i]
        < nodes@.len() by {
        assert(by_name(nodes)[i] == sorted[i].at);
    }
}

/// What is in a directory is listed once each, in the order of the names.
pub proof fn law_contents_are_listed_by_name(nodes: Vec<FsNode>)
    ensures
        by_name(nodes).len() == nodes@.len(),
        by_name(nodes).no_duplicates(),
        forall|at: int| 0 <= at < nodes@.len() ==> #[trigger] by_name(nodes).contains(at),
        forall|i: int, j: int|
            0 <= i < j < nodes@.len() ==> !precedes(
                name_in_list(nodes@[#[trigger] by_name(nodes)[j]]),
                name_in_list(nodes@[#[trigger] by_name(nodes)[i]]),
            ),
{
    let places = named_places(nodes);
    let sorted = in_rank_order(places);
    lemma_by_name_places(nodes);
    lemma_names_order_places();
    law_sorted_is_in_order(places);
    law_sorting_keeps_the_items(places);
    places.to_multiset_ensures();
    sorted.to_multiset_ensures();
    assert(places.no_duplicates());
    places.lemma_multiset_has_no_duplicates();
    sorted.lemma_multiset_has_no_duplicates_conv();
    assert forall|i: int, j: int|
        0 <= i < by_name(nodes).len() && 0 <= j < by_name(nodes).len() && i
            != j implies by_name(nodes)[i] != by_name(nodes)[j] by {
        assert(sorted[i] == places[by_name(nodes)[i]]);
        assert(sorted[j] == places[by_name(nodes)[j]]);
        assert(sorted[i] != sorted[j]);
    }
    assert forall|at: int| 0 <= at < nodes@.len() implies #[trigger] by_name(nodes).contains(
        at,
    ) by {
        assert(places.contains(places[at]));
        assert(places.to_multiset().count(places[at]) > 0);
        assert(sorted.contains(places[at]));
        let i = choose|i: int| 0 <= i < sorted.len() && sorted[i] == places[at];
        assert(by_name(nodes)[i] == at);
    }
    assert forall|i: int, j: int| 0 <= i < j < nodes@.len() implies !precedes(
        name_in_list(nodes@[#[trigger] by_name(nodes)[j]]),
        name_in_list(nodes@[#[trigger] by_name(nodes)[i]]),
    ) by {
        assert(sorted[i] == places[by_name(nodes)[i]]);
        assert(sorted[j] == places[by_name(nodes)[j]]);
        assert(!sorted[j].before(&sorted[i]));
    }
}

/// What a node adds to an offer that already has `next` entries.
pub open spec fn walked(node: FsNode, prefix: Seq<char>, next: nat) -> Walked
    decreases node, 0nat,
{
    match node.kind {
        FsKind::Unreadable(reason) => Err(
            TransferErrorModel::Io { path: node.path.text@, source: reason@ },
        ),
        FsKind::Symlink => Ok(Seq::empty()),
        _ => match node.name {
            None => Err(TransferErrorModel::Other(node.path.text@ + " has no file name"@)),
            Some(name) => if !safe_component(name@) {
                Err(TransferErrorModel::UnsafePath(name@))
            } else {
                let relative = below(prefix, name@);
                let entry = FileEntryModel {
                    index: next as u32,
                    name: name@,
                    relative_path: relative,
                    size: match node.kind {
                        FsKind::File { size } => size,
                        _ => 0,
                    },
                    is_dir: !(node.kind is File),
                };
                match node.kind {
                    FsKind::File { size } => Ok(
                        seq![OutgoingFileModel { entry, source: Some(node.path.deep_view()) }],
                    ),
                    FsKind::Folder(children) => match walked_in(
                        children,
                        by_name(children),
                        children@.len(),
                        relative,
                        next + 1,
                    ) {
                        Ok(inner) => Ok(seq![OutgoingFileModel { entry, source: None }] + inner),
                        Err(e) => Err(e),
                    },
                    FsKind::UnreadableFolder(reason) => Err(
                        TransferErrorModel::Io { path: node.path.text@, source: reason@ },
                    ),
                    _ => Ok(Seq::empty()),
                }
            },
        },
    }
}

/// What the nodes at the first `n` of the given places add to an offer that already has
/// `next` entries.
pub open spec fn walked_in(
    nodes: Vec<FsNode>,
    order: Seq<int>,
    n: nat,
    prefix: Seq<char>,
    next: nat,
) -> Walked
    decreases nodes, n,
    when n <= order.len() && are_places(order, nodes@.len())
{
    if n == 0 {
        Ok(Seq::empty())
    } else {
        match walked_in(nodes, order, (n - 1) as nat, prefix, next) {
            Err(e) => Err(e),
            Ok(before) => match walked(nodes@[order[n - 1]], prefix, next + before.len()) {
                Err(e) => Err(e),
                Ok(more) => Ok(before + more),
            },
        }
    }
}

/// What the first `n` nodes add to an offer that already has `next` entries.
pub open spec fn walked_first(nodes: Vec<FsNode>, n: nat, prefix: Seq<char>, next: nat) -> Walked {
    walked_in(nodes, as_given(nodes), n, prefix, next)
}

/// The number of files and directories in a tree.
pub open spec fn node_count(node: FsNode) -> nat
    decreases node, 0nat,
{
    match node.kind {
        FsKind::Folder(children) => 1 + node_count_first(children, children@.len()),
        _ => 1,
    }
}

/// The number of files and directories in the first `n` trees.
pub open spec fn node_count_first(nodes: Vec<FsNode>, n: nat) -> nat
    decreases nodes, n,
    when n <= nodes@.len()
{
    if n == 0 {
        0
    } else {
        node_count_first(nodes, (n - 1) as nat) + node_count(nodes@[n - 1])
    }
}

/// The number of files and directories in the trees at the first `n` of the given places.
spec fn count_in(nodes: Vec<FsNode>, order: Seq<int>, n: nat) -> nat
    decreases n,
{
    if n == 0 {
        0
    } else {
        count_in(nodes, order, (n - 1) as nat) + node_count(nodes@[order[n - 1]])
    }
}

spec fn count_at(nodes: Vec<FsNode>, places: Seq<NamedPlaceModel>) -> nat
    decreases places.len(),
{
    if places.len() == 0 {
        0
    } else {
        count_at(nodes, places.drop_last()) + node_count(nodes@[places.last().at])
    }
}

proof fn lemma_count_insert(
    nodes: Vec<FsNode>,
    places: Seq<NamedPlaceModel>,
    i: int,
    x: NamedPlaceModel,
)
    requires
        0 <= i <= places.len(),
    ensures
        count_at(nodes, places.insert(i, x)) == count_at(nodes, places) + node_count(nodes@[x.at]),
    decreases places.len(),
{
    let all = places.insert(i, x);
    if i == places.len() {
        assert(all.drop_last() =~= places);
    } else {
        lemma_count_insert(nodes, places.drop_last(), i, x);
        assert(all.drop_last() =~= places.drop_last().insert(i, x));
        assert(all.last() == places.last());
    }
}

proof fn lemma_count_sorted(nodes: Vec<FsNode>, places: Seq<NamedPlaceModel>)
    ensures
        count_at(nodes, in_rank_order(places)) == count_at(nodes, places),
    decreases places.len(),
{
    if places.len() > 0 {
        lemma_count_sorted(nodes, places.drop_last());
        let head = in_rank_order(places.drop_last());
        lemma_slot(head, places.last());
        lemma_count_insert(nodes, head, slot(head, places.last()), places.last());
    }
}

proof fn lemma_count_places(nodes: Vec<FsNode>, places: Seq<NamedPlaceModel>, n: nat)
    requires
        n <= places.len(),
    ensures
        count_in(nodes, places_of(places), n) == count_at(nodes, places.take(n as int)),
    decreases n,
{
    if n > 0 {
        lemma_count_places(nodes, places, (n - 1) as nat);
        assert(places.take(n as int).drop_last() =~= places.take(n - 1));
    }
}

/// Listing by name counts everything once.
proof fn lemma_count_by_name(nodes: Vec<FsNode>)
    ensures
        count_in(nodes, by_name(nodes), nodes@.len()) == node_count_first(nodes, nodes@.len()),
        count_in(nodes, as_given(nodes), nodes@.len()) == node_count_first(nodes, nodes@.len()),
{
    let places = named_places(nodes);
    let sorted = in_rank_order(places);
    law_sorting_keeps_the_items(places);
    lemma_count_sorted(nodes, places);
    lemma_count_places(nodes, sorted, nodes@.len());
    lemma_count_places(nodes, places, nodes@.len());
    assert(sorted.take(nodes@.len() as int) =~= sorted);
    assert(places.take(nodes@.len() as int) =~= places);
    assert(places_of(places) =~= as_given(nodes));
    lemma_count_given(nodes, nodes@.len());
}

proof fn lemma_count_given(nodes: Vec<FsNode>, n: nat)
    requires
        n <= nodes@.len(),
    ensures
        count_in(nodes, as_given(nodes), n) == node_count_first(nodes, n),
    decreases n,
{
    if n > 0 {
        lemma_count_given(nodes, (n - 1) as nat);
    }
}

proof fn lemma_count_grows(nodes: Vec<FsNode>, order: Seq<int>, n: nat, m: nat)
    requires
        n <= m,
    ensures
        count_in(nodes, order, n) <= count_in(nodes, order, m),
    decreases m,
{
    if n < m {
        lemma_count_grows(nodes, order, n, (m - 1) as nat);
    }
}

/// An error among the first nodes is the outcome of the whole walk.
proof fn lemma_walk_error_stays(
    nodes: Vec<FsNode>,
    order: Seq<int>,
    n: nat,
    m: nat,
    prefix: Seq<char>,
    next: nat,
)
    requires
        n <= m <= order.len(),
        are_places(order, nodes@.len()),
        walked_in(nodes, order, n, prefix, next) is Err,
    ensures
        walked_in(nodes, order, m, prefix, next) == walked_in(nodes, order, n, prefix, next),
    decreases m,
{
    if n < m {
        lemma_walk_error_stays(nodes, order, n, (m - 1) as nat, prefix, next);
    }
}

/// Lists the places of some nodes in the order of their names.
fn places_by_name(nodes: &Vec<FsNode>) -> (out: Vec<usize>)
    ensures
        out@.len() == nodes@.len(),
        forall|i: int| 0 <= i < out@.len() ==> #[trigger] out@[i] == by_name(*nodes)[i],
{
    let mut named: Vec<NamedPlace> = empty_list();
    let mut i: usize = 0;
    while i < nodes.len()
        invariant
            i <= nodes@.len(),
            named.deep_view() =~= named_places(*nodes).take(i as int),
        decreases nodes@.len() - i,
    {
        let name = match &nodes[i].name {
            Some(name) => name.clone(),
            None => String::new(),
        };
        assert(name@ =~= name_in_list(nodes@[i as int]));
        push_item(&mut named, NamedPlace { name, at: i });
        i += 1;
    }
    assert(named.deep_view() =~= named_places(*nodes));
    proof {
        lemma_names_order_places();
        law_sorting_keeps_the_items(named_places(*nodes));
    }
    let sorted = sort_items(named);
    let ghost want = in_rank_order(named_places(*nodes));
    assert(sorted@.len() == sorted.deep_view().len());
    let mut out: Vec<usize> = Vec::new();
    let mut j: usize = 0;
    while j < sorted.len()
        invariant
            j <= sorted@.len(),
            sorted.deep_view() == want,
            sorted@.len() == want.len(),
            want == in_rank_order(named_places(*nodes)),
            out@.len() == j,
            forall|i: int| 0 <= i < j ==> #[trigger] out@[i] == by_name(*nodes)[i],
        decreases sorted@.len() - j,
    {
        assert(want[j as int] == sorted@[j as int].deep_view());
        out.push(sorted[j].at);
        j += 1;
    }
    out
}

/// Lists the places of some nodes as they come.
fn places_as_given(nodes: &Vec<FsNode>) -> (out: Vec<usize>)
    ensures
        out@.len() == nodes@.len(),
        forall|i: int| 0 <= i < out@.len() ==> #[trigger] out@[i] == as_given(*nodes)[i],
{
    let mut out: Vec<usize> = Vec::new();
    let mut i: usize = 0;
    while i < nodes.len()
        invariant
            i <= nodes@.len(),
            out@.len() == i,
            forall|j: int| 0 <= j < i ==> #[trigger] out@[j] == as_given(*nodes)[j],
        decreases nodes@.len() - i,
    {
        out.push(i);
        i += 1;
    }
    out
}

/// Walks one tree into the list.
fn walk(node: &FsNode, prefix: &str, entries: &mut Vec<OutgoingFile>) -> (out: Result<()>)
    requires
        old(entries)@.len() + node_count(*node) <= u32::MAX,
    ensures
        match walked(*node, prefix@, old(entries)@.len()) {
            Ok(more) => out is Ok && final(entries).deep_view() == old(entries).deep_view() + more
                && more.len() <= node_count(*node),
            Err(e) => out matches Err(found) && found.deep_view() == e,
        },
    decreases node, 0nat,
{
    let ghost start = entries.deep_view();
    match &node.kind {
        FsKind::Unreadable(reason) => {
            return Err(
                TransferError::Io { path: node.path.text.clone(), source: reason.clone() },
            );
        },
        FsKind::Symlink => {
            assert(entries.deep_view() =~= start + Seq::<OutgoingFileModel>::empty());
            return Ok(());
        },
        _ => {},
    }
    let name = match &node.name {
        Some(name) => name,
        None => {
            return Err(
                TransferError::Other(cat2(node.path.text.as_str(), " has no file name")),
            );
        },
    };
    let sanitized = match sanitize_component(name.as_str()) {
        Ok(sanitized) => sanitized,
        Err(e) => return Err(e),
    };
    let relative = if prefix.unicode_len() == 0 {
        sanitized.clone()
    } else {
        cat3(prefix, "/", sanitized.as_str())
    };
    let index: u32 = entries.len() as u32;
    match &node.kind {
        FsKind::File { size } => {
            entries.push(
                OutgoingFile {
                    entry: FileEntry {
                        index,
                        name: sanitized,
                        relative_path: relative,
                        size: *size,
                        is_dir: false,
                    },
                    source: Some(node.path.clone()),
                },
            );
            assert(entries.deep_view() =~= start + walked(
                *node,
                prefix@,
                start.len(),
            )->Ok_0);
            Ok(())
        },
        FsKind::UnreadableFolder(reason) => Err(
            TransferError::Io { path: node.path.text.clone(), source: reason.clone() },
        ),
        FsKind::Folder(children) => {
            entries.push(
                OutgoingFile {
                    entry: FileEntry {
                        index,
                        name: sanitized,
                        relative_path: relative.clone(),
                        size: 0,
                        is_dir: true,
                    },
                    source: None,
                },
            );
            let ghost opened = entries.deep_view();
            let ghost head = opened.last();
            assert(opened =~= start.push(head));
            let order = places_by_name(children);
            let ghost places = by_name(*children);
            proof {
                lemma_by_name_places(*children);
                lemma_count_by_name(*children);
            }
            match walk_all(children, &order, Ghost(places), relative.as_str(), entries) {
                Ok(()) => {
                    proof {
                        let inner = walked_in(
                            *children,
                            places,
                            children@.len(),
                            relative@,
                            start.len() + 1,
                        )->Ok_0;
                        assert(entries.deep_view() =~= start + (seq![head] + inner));
                    }
                    Ok(())
                },
                Err(e) => Err(e),
            }
        },
        _ => Ok(()),
    }
}

/// Walks the trees at the given places into the list.
fn walk_all(
    nodes: &Vec<FsNode>,
    order: &Vec<usize>,
    Ghost(places): Ghost<Seq<int>>,
    prefix: &str,
    entries: &mut Vec<OutgoingFile>,
) -> (out: Result<()>)
    requires
        places.len() == order@.len(),
        forall|i: int| 0 <= i < order@.len() ==> #[trigger] order@[i] == places[i],
        are_places(places, nodes@.len()),
        old(entries)@.len() + count_in(*nodes, places, places.len()) <= u32::MAX,
    ensures
        match walked_in(*nodes, places, places.len(), prefix@, old(entries)@.len()) {
            Ok(more) => out is Ok && final(entries).deep_view() == old(entries).deep_view() + more
                && more.len() <= count_in(*nodes, places, places.len()),
            Err(e) => out matches Err(found) && found.deep_view() == e,
        },
    decreases nodes, places.len(),
{
    let ghost start = entries.deep_view();
    let mut i: usize = 0;
    assert(entries.deep_view() =~= start + Seq::<OutgoingFileModel>::empty());
    while i < order.len()
        invariant
            i <= order@.len(),
            places.len() == order@.len(),
            forall|i: int| 0 <= i < order@.len() ==> #[trigger] order@[i] == places[i],
            are_places(places, nodes@.len()),
            start == old(entries).deep_view(),
            start.len() + count_in(*nodes, places, places.len()) <= u32::MAX,
            walked_in(*nodes, places, i as nat, prefix@, start.len()) is Ok,
            entries.deep_view() == start + walked_in(
                *nodes,
                places,
                i as nat,
                prefix@,
                start.len(),
            )->Ok_0,
            walked_in(*nodes, places, i as nat, prefix@, start.len())->Ok_0.len() <= count_in(
                *nodes,
                places,
                i as nat,
            ),
        decreases order@.len() - i,
    {
        let ghost before = walked_in(*nodes, places, i as nat, prefix@, start.len())->Ok_0;
        let at: usize = order[i];
        assert(at == places[i as int]);
        proof {
            lemma_count_grows(*nodes, places, (i + 1) as nat, places.len());
            assert(entries@.len() == entries.deep_view().len());
            assert(entries@.len() == start.len() + before.len());
        }
        match walk(&nodes[at], prefix, entries) {
            Ok(()) => {
                proof {
                    let more = walked(nodes@[at as int], prefix@, start.len() + before.len())->Ok_0;
                    assert(entries.deep_view() =~= start + (before + more));
                }
            },
            Err(e) => {
                proof {
                    lemma_walk_error_stays(
                        *nodes,
                        places,
                        (i + 1) as nat,
                        places.len(),
                        prefix@,
                        start.len(),
                    );
                }
                return Err(e);
            },
        }
        i += 1;
    }
    Ok(())
}

/// The outcome of collecting entries, by its contents.
pub open spec fn walk_result(r: Result<Vec<OutgoingFile>>) -> Walked {
    match r {
        Ok(entries) => Ok(entries.deep_view()),
        Err(e) => Err(e.deep_view()),
    }
}

/// Flattens the trees that the user chose into an offer list.
///
/// Directories keep their relative structure so the receiving side can rebuild
/// the tree. Symbolic links are not followed, which keeps a careless drag of a
/// home directory from turning into an accidental upload of an entire disk. What is in a
/// directory is listed by name, whatever the order in which it was found.
pub fn collect_entries(nodes: &Vec<FsNode>) -> (out: Result<Vec<OutgoingFile>>)
    requires
        node_count_first(*nodes, nodes@.len()) <= u32::MAX,
    ensures
        walk_result(out) == walked_first(*nodes, nodes@.len(), Seq::empty(), 0),
{
    let mut entries: Vec<OutgoingFile> = Vec::new();
    assert(entries.deep_view() =~= Seq::<OutgoingFileModel>::empty());
    let top = String::new();
    assert(top@ =~= Seq::<char>::empty());
    // Top level entries keep just their name; nested ones keep the tree.
    let order = places_as_given(nodes);
    let ghost places = as_given(*nodes);
    proof {
        lemma_count_by_name(*nodes);
    }
    match walk_all(nodes, &order, Ghost(places), top.as_str(), &mut entries) {
        Ok(()) => {
            proof {
                let more = walked_first(*nodes, nodes@.len(), Seq::empty(), 0)->Ok_0;
                assert(entries.deep_view() =~= more);
            }
            Ok(entries)
        },
        Err(e) => Err(e),
    }
}

/// A relative path that names safe components only.
pub open spec fn travels(path: Seq<char>) -> bool {
    &&& path.len() > 0
    &&& path[0] != '/'
    &&& slashed(path) == path
    &&& components(path).len() > 0
    &&& first_unsafe(components(path)) is None
}

/// A text without the separator is a single piece, also behind a separator.
proof fn lemma_pieces_of_name(prefix: Seq<char>, name: Seq<char>)
    requires
        forall|i: int| 0 <= i < name.len() ==> name[i] != '/',
    ensures
        pieces(name, '/') == seq![name],
        pieces(prefix + seq!['/'] + name, '/') == pieces(prefix, '/').push(name),
    decreases name.len(),
{
    if name.len() == 0 {
        assert(name =~= Seq::<char>::empty());
        let whole = prefix + seq!['/'] + name;
        assert(whole.drop_last() =~= prefix);
        assert(whole.last() == '/');
        assert(pieces(name, '/') =~= seq![name]);
    } else {
        let head = name.drop_last();
        lemma_pieces_of_name(prefix, head);
        let whole = prefix + seq!['/'] + name;
        assert(whole.drop_last() =~= prefix + seq!['/'] + head);
        assert(whole.last() == name.last());
        let before = pieces(prefix, '/').push(head);
        assert(head.push(name.last()) =~= name);
        assert(before.update(before.len() - 1, before.last().push(name.last())) =~= pieces(
            prefix,
            '/',
        ).push(name));
        assert(seq![head].update(0, head.push(name.last())) =~= seq![name]);
    }
}

/// A safe name travels by itself and below a path that travels.
proof fn lemma_safe_names_travel(prefix: Seq<char>, name: Seq<char>)
    requires
        safe_component(name),
        prefix.len() == 0 || travels(prefix),
    ensures
        travels(below(prefix, name)),
{
    reveal_strlit("/");
    let whole = below(prefix, name);
    assert forall|i: int| 0 <= i < name.len() implies name[i] != '/' && name[i] != '\\' by {
        assert(!forbidden_char(name[i]));
    }
    lemma_pieces_of_name(prefix, name);
    assert(slashed(name) =~= name);
    if prefix.len() == 0 {
        assert(slashed(whole) == whole);
        let one = seq![name];
        assert(one.drop_last() =~= Seq::<Seq<char>>::empty());
        assert(nonempty(Seq::<Seq<char>>::empty()) =~= Seq::<Seq<char>>::empty());
        assert(nonempty(one) =~= one);
        assert(components(whole) == one);
        assert(first_unsafe(Seq::<Seq<char>>::empty()) is None);
        assert(first_unsafe(one) is None);
    } else {
        assert("/"@ =~= seq!['/']);
        assert(whole == prefix + seq!['/'] + name);
        assert forall|i: int| 0 <= i < whole.len() implies whole[i] == slashed(whole)[i] by {
            if i < prefix.len() {
                assert(slashed(prefix)[i] == prefix[i]);
            } else if i > prefix.len() {
                assert(whole[i] == name[i - prefix.len() - 1]);
            }
        }
        assert(slashed(whole) =~= whole);
        let ps = pieces(prefix, '/');
        assert(ps.push(name).drop_last() =~= ps);
        assert(components(whole) == nonempty(ps).push(name));
        let all = nonempty(ps).push(name);
        assert(all.drop_last() =~= nonempty(ps));
        assert(first_unsafe(all) is None);
    }
}

/// What a sender offers: entries are numbered from `next` on, directories and only they
/// have no source and no size, and every name is safe.
pub open spec fn well_offered(files: Seq<OutgoingFileModel>, next: nat) -> bool {
    forall|i: int|
        0 <= i < files.len() ==> {
            let file = #[trigger] files[i];
            &&& file.entry.index == (next + i) as u32
            &&& file.entry.is_dir <==> file.source is None
            &&& file.entry.is_dir ==> file.entry.size == 0
            &&& safe_component(file.entry.name)
            &&& travels(file.entry.relative_path)
        }
}

/// An offer numbers its entries one by one, and each of its paths names safe components
/// only, whatever was chosen.
pub proof fn law_offers_are_numbered_and_safe(
    nodes: Vec<FsNode>,
    order: Seq<int>,
    n: nat,
    prefix: Seq<char>,
    next: nat,
)
    requires
        n <= order.len(),
        are_places(order, nodes@.len()),
        prefix.len() == 0 || travels(prefix),
    ensures
        walked_in(nodes, order, n, prefix, next) matches Ok(files) ==> well_offered(files, next),
    decreases nodes, n,
{
    if n > 0 {
        law_offers_are_numbered_and_safe(nodes, order, (n - 1) as nat, prefix, next);
        if let Ok(before) = walked_in(nodes, order, (n - 1) as nat, prefix, next) {
            lemma_walked_well(nodes@[order[n - 1]], prefix, next + before.len());
            if let Ok(more) = walked(nodes@[order[n - 1]], prefix, next + before.len()) {
                assert forall|i: int| 0 <= i < (before + more).len() implies {
                    let file = #[trigger] (before + more)[i];
                    &&& file.entry.index == (next + i) as u32
                    &&& file.entry.is_dir <==> file.source is None
                    &&& file.entry.is_dir ==> file.entry.size == 0
                    &&& safe_component(file.entry.name)
                    &&& travels(file.entry.relative_path)
                } by {
                    if i < before.len() {
                        assert((before + more)[i] == before[i]);
                    } else {
                        assert((before + more)[i] == more[i - before.len()]);
                    }
                }
            }
        }
    }
}

proof fn lemma_walked_well(node: FsNode, prefix: Seq<char>, next: nat)
    requires
        prefix.len() == 0 || travels(prefix),
    ensures
        walked(node, prefix, next) matches Ok(files) ==> well_offered(files, next),
    decreases node, 0nat,
{
    if let Some(name) = node.name {
        if safe_component(name@) {
            let relative = below(prefix, name@);
            lemma_safe_names_travel(prefix, name@);
            if let FsKind::Folder(children) = node.kind {
                let order = by_name(children);
                lemma_by_name_places(children);
                law_offers_are_numbered_and_safe(
                    children,
                    order,
                    children@.len(),
                    relative,
                    next + 1,
                );
                if let Ok(inner) = walked_in(
                    children,
                    order,
                    children@.len(),
                    relative,
                    next + 1,
                ) {
                    let files = walked(node, prefix, next)->Ok_0;
                    assert forall|i: int| 0 <= i < files.len() implies {
                        let file = #[trigger] files[i];
                        &&& file.entry.index == (next + i) as u32
                        &&& file.entry.is_dir <==> file.source is None
                        &&& file.entry.is_dir ==> file.entry.size == 0
                        &&& safe_component(file.entry.name)
                        &&& travels(file.entry.relative_path)
                    } by {
                        if i > 0 {
                            assert(files[i] == inner[i - 1]);
                        }
                    }
                }
            }
        }
    }
}

/// Every path of an offer is one that the receiving side accepts, below any root that does
/// not climb; the one exception are names with a colon, which that side refuses.
pub proof fn law_offered_paths_are_accepted(path: Seq<char>, root: Seq<PathPartModel>)
    requires
        travels(path),
        !path.contains(':'),
        !climbs(root),
    ensures
        landing(path, root) == Ok::<Seq<PathPartModel>, TransferErrorModel>(
            root + named_parts(components(path)),
        ),
{
}

/// The bytes that some entries announce together.
pub open spec fn announced_bytes(entries: Seq<FileEntryModel>) -> nat
    decreases entries.len(),
{
    if entries.len() == 0 {
        0
    } else {
        announced_bytes(entries.drop_last()) + entries.last().size as nat
    }
}

/// The entries of queued files.
pub open spec fn entries_of(files: Seq<OutgoingFileModel>) -> Seq<FileEntryModel> {
    files.map_values(|file: OutgoingFileModel| file.entry)
}

proof fn lemma_announced_grows(entries: Seq<FileEntryModel>, n: int)
    requires
        0 <= n <= entries.len(),
    ensures
        announced_bytes(entries.take(n)) <= announced_bytes(entries),
    decreases entries.len(),
{
    if n < entries.len() {
        lemma_announced_grows(entries.drop_last(), n);
        assert(entries.drop_last().take(n) =~= entries.take(n));
    } else {
        assert(entries.take(n) =~= entries);
    }
}

/// Adds up the announced sizes; `None` where the sum does not fit.
pub fn total_size(entries: &Vec<FileEntry>) -> (out: Option<u64>)
    ensures
        match out {
            Some(sum) => sum == announced_bytes(entries.deep_view()),
            None => announced_bytes(entries.deep_view()) > u64::MAX,
        },
{
    let ghost all = entries.deep_view();
    let mut sum: u64 = 0;
    let mut i: usize = 0;
    while i < entries.len()
        invariant
            i <= entries@.len(),
            all == entries.deep_view(),
            sum == announced_bytes(all.take(i as int)),
        decreases entries@.len() - i,
    {
        proof {
            lemma_announced_grows(all, i as int + 1);
            assert(all.take(i as int + 1).drop_last() =~= all.take(i as int));
        }
        match sum.checked_add(entries[i].size) {
            Some(more) => {
                sum = more;
            },
            None => return None,
        }
        i += 1;
    }
    assert(all.take(i as int) =~= all);
    Some(sum)
}

/// Aggregated bookkeeping for an outbound transfer.
#[derive(Debug, PartialEq)]
pub struct OutgoingTransfer {
    pub id: TransferId,
    pub peer: DeviceId,
    pub peer_name: String,
    pub files: Vec<OutgoingFile>,
    pub total_bytes: u64,
    pub done_bytes: u64,
    pub started_at: u64,
    /// Whether the peer has accepted and streaming may begin.
    pub accepted: bool,
    pub finished: bool,
}

#[verifier::ext_equal]
pub struct OutgoingModel {
    pub id: TransferId,
    pub peer: Seq<char>,
    pub peer_name: Seq<char>,
    pub files: Seq<OutgoingFileModel>,
    pub total_bytes: u64,
    pub done_bytes: u64,
    pub started_at: u64,
    pub accepted: bool,
    pub finished: bool,
}

impl DeepView for OutgoingTransfer {
    type V = OutgoingModel;

    open spec fn deep_view(&self) -> OutgoingModel {
        OutgoingModel {
            id: self.id,
            peer: self.peer@,
            peer_name: self.peer_name@,
            files: self.files.deep_view(),
            total_bytes: self.total_bytes,
            done_bytes: self.done_bytes,
            started_at: self.started_at,
            accepted: self.accepted,
            finished: self.finished,
        }
    }
}

/// An outbound transfer that was just offered.
pub open spec fn new_outgoing(
    id: TransferId,
    peer: Seq<char>,
    peer_name: Seq<char>,
    files: Seq<OutgoingFileModel>,
    now: u64,
) -> OutgoingModel {
    OutgoingModel {
        id,
        peer,
        peer_name,
        files,
        total_bytes: announced_bytes(entries_of(files)) as u64,
        done_bytes: 0,
        started_at: now,
        accepted: false,
        finished: false,
    }
}

/// How a queued file is shown.
pub open spec fn outgoing_file_view(file: OutgoingFileModel) -> TransferFileModel {
    TransferFileModel {
        index: file.entry.index,
        name: file.entry.name,
        relative_path: file.entry.relative_path,
        size: file.entry.size,
        done_bytes: 0,
        is_dir: file.entry.is_dir,
    }
}

/// How an outbound transfer is shown.
pub open spec fn outgoing_view(
    t: OutgoingModel,
    state: TransferState,
    bytes_per_second: u64,
) -> TransferViewModel {
    TransferViewModel {
        id: t.id,
        peer: t.peer,
        peer_name: t.peer_name,
        direction: TransferDirection::Sending,
        state,
        files: t.files.map_values(|file: OutgoingFileModel| outgoing_file_view(file)),
        total_bytes: t.total_bytes,
        done_bytes: t.done_bytes,
        bytes_per_second,
        started_at: t.started_at,
        destination: None,
        error: None,
        needs_acceptance: false,
    }
}

impl OutgoingTransfer {
    pub fn new(
        id: TransferId,
        peer: DeviceId,
        peer_name: String,
        files: Vec<OutgoingFile>,
        now: u64,
    ) -> (out: Self)
        requires
            announced_bytes(entries_of(files.deep_view())) <= u64::MAX,
        ensures
            out.deep_view() == new_outgoing(id, peer@, peer_name@, files.deep_view(), now),
    {
        let total_bytes: u64 = match total_size(&entries_list(&files)) {
            Some(sum) => sum,
            None => 0,
        };
        OutgoingTransfer {
            id,
            peer,
            peer_name,
            files,
            total_bytes,
            done_bytes: 0,
            started_at: now,
            accepted: false,
            finished: false,
        }
    }

    /// The wire representation of the offer.
    pub fn entries(&self) -> (out: Vec<FileEntry>)
        ensures
            out.deep_view() == entries_of(self.deep_view().files),
    {
        entries_list(&self.files)
    }

    pub fn view(&self, state: TransferState, bytes_per_second: u64) -> (out: TransferView)
        ensures
            out.deep_view() == outgoing_view(self.deep_view(), state, bytes_per_second),
    {
        let ghost want = self.deep_view().files.map_values(
            |file: OutgoingFileModel| outgoing_file_view(file),
        );
        let mut files: Vec<TransferFileView> = Vec::new();
        let mut i: usize = 0;
        while i < self.files.len()
            invariant
                i <= self.files@.len(),
                want == self.deep_view().files.map_values(
                    |file: OutgoingFileModel| outgoing_file_view(file),
                ),
                files.deep_view() =~= want.take(i as int),
            decreases self.files@.len() - i,
        {
            let entry = &self.files[i].entry;
            push_item(
                &mut files,
                TransferFileView {
                    index: entry.index,
                    name: entry.name.clone(),
                    relative_path: entry.relative_path.clone(),
                    size: entry.size,
                    done_bytes: 0,
                    is_dir: entry.is_dir,
                },
            );
            i += 1;
        }
        assert(files.deep_view() =~= want);
        TransferView {
            id: self.id,
            peer: self.peer.clone(),
            peer_name: self.peer_name.clone(),
            direction: TransferDirection::Sending,
            state,
            files,
            total_bytes: self.total_bytes,
            done_bytes: self.done_bytes,
            bytes_per_second,
            started_at: self.started_at,
            destination: None,
            error: None,
            needs_acceptance: false,
        }
    }
}

/// The entries of a list of queued files.
pub fn entries_list(files: &Vec<OutgoingFile>) -> (out: Vec<FileEntry>)
    ensures
        out.deep_view() == entries_of(files.deep_view()),
{
    let mut out: Vec<FileEntry> = Vec::new();
    let mut i: usize = 0;
    while i < files.len()
        invariant
            i <= files@.len(),
            out.deep_view() =~= entries_of(files.deep_view()).take(i as int),
        decreases files@.len() - i,
    {
        push_item(&mut out, files[i].entry.clone());
        i += 1;
    }
    assert(out.deep_view() =~= entries_of(files.deep_view()));
    out
}

/// Aggregated bookkeeping for an inbound transfer.
#[derive(Debug, PartialEq)]
pub struct IncomingTransfer {
    pub id: TransferId,
    pub peer: DeviceId,
    pub peer_name: String,
    pub entries: Vec<FileEntry>,
    pub total_bytes: u64,
    pub done_bytes: u64,
    pub started_at: u64,
    pub root: DirPath,
    /// Where each entry is written, once that is known.
    pub resolved: Vec<Option<Vec<PathPart>>>,
    pub written: Vec<u64>,
}

#[verifier::ext_equal]
pub struct IncomingModel {
    pub id: TransferId,
    pub peer: Seq<char>,
    pub peer_name: Seq<char>,
    pub entries: Seq<FileEntryModel>,
    pub total_bytes: u64,
    pub done_bytes: u64,
    pub started_at: u64,
    pub root: DirPathModel,
    pub resolved: Seq<Option<Seq<PathPartModel>>>,
    pub written: Seq<u64>,
}

impl DeepView for IncomingTransfer {
    type V = IncomingModel;

    open spec fn deep_view(&self) -> IncomingModel {
        IncomingModel {
            id: self.id,
            peer: self.peer@,
            peer_name: self.peer_name@,
            entries: self.entries.deep_view(),
            total_bytes: self.total_bytes,
            done_bytes: self.done_bytes,
            started_at: self.started_at,
            root: self.root.deep_view(),
            resolved: self.resolved.deep_view(),
            written: self.written@,
        }
    }
}

/// An inbound transfer that was just offered.
pub open spec fn new_incoming(
    id: TransferId,
    peer: Seq<char>,
    peer_name: Seq<char>,
    entries: Seq<FileEntryModel>,
    root: DirPathModel,
    now: u64,
) -> IncomingModel {
    IncomingModel {
        id,
        peer,
        peer_name,
        entries,
        total_bytes: announced_bytes(entries) as u64,
        done_bytes: 0,
        started_at: now,
        root,
        resolved: Seq::new(entries.len(), |i: int| None),
        written: Seq::new(entries.len(), |i: int| 0),
    }
}

/// The position of the first entry with the given index.
pub open spec fn entry_position(entries: Seq<FileEntryModel>, index: u32) -> Option<int>
    decreases entries.len(),
{
    if entries.len() == 0 {
        None
    } else if entries[0].index == index {
        Some(0)
    } else {
        match entry_position(entries.drop_first(), index) {
            Some(i) => Some(i + 1),
            None => None,
        }
    }
}

proof fn lemma_entry_position(entries: Seq<FileEntryModel>, index: u32, n: int)
    requires
        0 <= n <= entries.len(),
        n < entries.len() ==> entries[n].index == index,
        forall|j: int| 0 <= j < n ==> (#[trigger] entries[j]).index != index,
    ensures
        entry_position(entries, index) == if n < entries.len() {
            Some(n)
        } else {
            None
        },
    decreases entries.len(),
{
    if n > 0 {
        let rest = entries.drop_first();
        assert forall|j: int| 0 <= j < n - 1 implies (#[trigger] rest[j]).index != index by {
            assert(rest[j] == entries[j + 1]);
        }
        lemma_entry_position(rest, index, n - 1);
    }
}

/// What `entry_position` finds.
pub proof fn lemma_entry_position_is(entries: Seq<FileEntryModel>, index: u32)
    ensures
        entry_position(entries, index) matches Some(i) ==> 0 <= i < entries.len()
            && entries[i].index == index,
    decreases entries.len(),
{
    if entries.len() > 0 && entries[0].index != index {
        lemma_entry_position_is(entries.drop_first(), index);
    }
}

/// How an inbound transfer is shown.
pub open spec fn incoming_view(
    t: IncomingModel,
    state: TransferState,
    bytes_per_second: u64,
    error: Option<Seq<char>>,
) -> TransferViewModel {
    TransferViewModel {
        id: t.id,
        peer: t.peer,
        peer_name: t.peer_name,
        direction: TransferDirection::Receiving,
        state,
        files: Seq::new(
            t.entries.len(),
            |i: int|
                TransferFileModel {
                    index: t.entries[i].index,
                    name: t.entries[i].name,
                    relative_path: t.entries[i].relative_path,
                    size: t.entries[i].size,
                    done_bytes: if i < t.written.len() {
                        t.written[i]
                    } else {
                        0
                    },
                    is_dir: t.entries[i].is_dir,
                },
        ),
        total_bytes: t.total_bytes,
        done_bytes: t.done_bytes,
        bytes_per_second,
        started_at: t.started_at,
        destination: Some(t.root.text),
        error,
        needs_acceptance: state == TransferState::Pending,
    }
}

impl IncomingTransfer {
    pub fn new(
        id: TransferId,
        peer: DeviceId,
        peer_name: String,
        entries: Vec<FileEntry>,
        root: DirPath,
        now: u64,
    ) -> (out: Self)
        requires
            announced_bytes(entries.deep_view()) <= u64::MAX,
        ensures
            out.deep_view() == new_incoming(
                id,
                peer@,
                peer_name@,
                entries.deep_view(),
                root.deep_view(),
                now,
            ),
    {
        let total_bytes: u64 = match total_size(&entries) {
            Some(sum) => sum,
            None => 0,
        };
        let mut resolved: Vec<Option<Vec<PathPart>>> = Vec::new();
        let mut written: Vec<u64> = Vec::new();
        let mut i: usize = 0;
        while i < entries.len()
            invariant
                i <= entries@.len(),
                resolved.deep_view() =~= Seq::new(
                    i as nat,
                    |i: int| None::<Seq<PathPartModel>>,
                ),
                written@ =~= Seq::new(i as nat, |i: int| 0u64),
            decreases entries@.len() - i,
        {
            push_item(&mut resolved, None);
            written.push(0);
            i += 1;
        }
        IncomingTransfer {
            id,
            peer,
            peer_name,
            entries,
            total_bytes,
            done_bytes: 0,
            started_at: now,
            root,
            resolved,
            written,
        }
    }

    pub fn view(
        &self,
        state: TransferState,
        bytes_per_second: u64,
        error: Option<String>,
    ) -> (out: TransferView)
        ensures
            out.deep_view() == incoming_view(
                self.deep_view(),
                state,
                bytes_per_second,
                error.deep_view(),
            ),
    {
        let ghost want = incoming_view(
            self.deep_view(),
            state,
            bytes_per_second,
            error.deep_view(),
        ).files;
        let mut files: Vec<TransferFileView> = Vec::new();
        let mut i: usize = 0;
        while i < self.entries.len()
            invariant
                i <= self.entries@.len(),
                want == incoming_view(
                    self.deep_view(),
                    state,
                    bytes_per_second,
                    error.deep_view(),
                ).files,
                files.deep_view() =~= want.take(i as int),
            decreases self.entries@.len() - i,
        {
            let entry = &self.entries[i];
            let done: u64 = if i < self.written.len() {
                self.written[i]
            } else {
                0
            };
            push_item(
                &mut files,
                TransferFileView {
                    index: entry.index,
                    name: entry.name.clone(),
                    relative_path: entry.relative_path.clone(),
                    size: entry.size,
                    done_bytes: done,
                    is_dir: entry.is_dir,
                },
            );
            i += 1;
        }
        assert(files.deep_view() =~= want);
        TransferView {
            id: self.id,
            peer: self.peer.clone(),
            peer_name: self.peer_name.clone(),
            direction: TransferDirection::Receiving,
            state,
            files,
            total_bytes: self.total_bytes,
            done_bytes: self.done_bytes,
            bytes_per_second,
            started_at: self.started_at,
            destination: Some(self.root.text.clone()),
            error,
            needs_acceptance: matches!(state, TransferState::Pending),
        }
    }

    pub fn position_of(&self, index: u32) -> (out: Option<usize>)
        ensures
            match out {
                Some(i) => entry_position(self.deep_view().entries, index) == Some(i as int) && i
                    < self.entries@.len(),
                None => entry_position(self.deep_view().entries, index) is None,
            },
    {
        let mut i: usize = 0;
        while i < self.entries.len()
            invariant
                i <= self.entries@.len(),
                forall|j: int|
                    0 <= j < i ==> (#[trigger] self.entries.deep_view()[j]).index != index,
            decreases self.entries@.len() - i,
        {
            if self.entries[i].index == index {
                proof {
                    lemma_entry_position(self.entries.deep_view(), index, i as int);
                }
                return Some(i);
            }
            i += 1;
        }
        proof {
            lemma_entry_position(self.entries.deep_view(), index, i as int);
        }
        None
    }
}

/// The whole seconds since `started_at`, at least one.
pub open spec fn elapsed_secs(started_at: u64, now: u64) -> u64 {
    if now > started_at {
        (now - started_at) as u64
    } else {
        1
    }
}

/// The average speed of a transfer in bytes per second.
pub fn average_rate(started_at: u64, done: u64, now: u64) -> (out: u64)
    ensures
        out == done as int / elapsed_secs(started_at, now) as int,
{
    let elapsed: u64 = if now > started_at {
        now - started_at
    } else {
        1
    };
    done / elapsed
}

/// Streams the accepted files of one transfer, one chunk after the other.
#[derive(Debug, PartialEq)]
pub struct FileSender {
    pub id: TransferId,
    pub files: Vec<OutgoingFile>,
    /// The file that is being read.
    pub at: usize,
    /// How much of it has been sent.
    pub offset: u64,
}

#[verifier::ext_equal]
pub struct SenderModel {
    pub id: TransferId,
    pub files: Seq<OutgoingFileModel>,
    pub at: int,
    pub offset: u64,
}

impl DeepView for FileSender {
    type V = SenderModel;

    open spec fn deep_view(&self) -> SenderModel {
        SenderModel {
            id: self.id,
            files: self.files.deep_view(),
            at: self.at as int,
            offset: self.offset,
        }
    }
}

/// What the sender needs next.
#[derive(Debug, PartialEq)]
pub enum SenderStep {
    /// Open this file for reading.
    Open(LocalPath),
    /// Read the next bytes of the open file, at most `CHUNK_BYTES` of them.
    Read,
    /// Send this chunk.
    Send(FileChunk),
    /// Every file was sent: tell the peer and the engine.
    Finish,
    /// The transfer failed: tell the engine.
    Fail(String),
}

/// A step of the sender, by its contents.
#[verifier::ext_equal]
pub enum SenderStepModel {
    Open(LocalPathModel),
    Read,
    Send(FileChunkModel),
    Finish,
    Fail(Seq<char>),
}

impl DeepView for SenderStep {
    type V = SenderStepModel;

    open spec fn deep_view(&self) -> SenderStepModel {
        match self {
            SenderStep::Open(path) => SenderStepModel::Open(path.deep_view()),
            SenderStep::Read => SenderStepModel::Read,
            SenderStep::Send(chunk) => SenderStepModel::Send(chunk.deep_view()),
            SenderStep::Finish => SenderStepModel::Finish,
            SenderStep::Fail(reason) => SenderStepModel::Fail(reason@),
        }
    }
}

/// The first file at or after `from` that has contents to send; the length where there
/// is none. Directories have none.
pub open spec fn next_source(files: Seq<OutgoingFileModel>, from: int) -> int
    decreases files.len() - from,
{
    if from >= files.len() {
        files.len() as int
    } else if files[from].source is Some {
        from
    } else {
        next_source(files, from + 1)
    }
}

/// The step that turns to the file at `at`.
pub open spec fn turn_to(s: SenderModel, at: int) -> (SenderModel, SenderStepModel) {
    let next = next_source(s.files, at);
    (
        SenderModel { at: next, offset: 0, ..s },
        if next < s.files.len() {
            SenderStepModel::Open(s.files[next].source->Some_0)
        } else {
            SenderStepModel::Finish
        },
    )
}

impl FileSender {
    /// Starts with the first file that has contents.
    pub fn start(id: TransferId, files: Vec<OutgoingFile>) -> (out: (Self, SenderStep))
        ensures
            (out.0.deep_view(), out.1.deep_view()) == turn_to(
                SenderModel { id, files: files.deep_view(), at: 0, offset: 0 },
                0,
            ),
    {
        let mut sender = FileSender { id, files, at: 0, offset: 0 };
        let step = sender.advance(0);
        (sender, step)
    }

    fn advance(&mut self, from: usize) -> (out: SenderStep)
        requires
            from <= old(self).files@.len(),
        ensures
            (final(self).deep_view(), out.deep_view()) == turn_to(
                old(self).deep_view(),
                from as int,
            ),
    {
        let mut at: usize = from;
        while at < self.files.len() && self.files[at].source.is_none()
            invariant
                at <= self.files@.len(),
                next_source(self.files.deep_view(), from as int) == next_source(
                    self.files.deep_view(),
                    at as int,
                ),
            decreases self.files@.len() - at,
        {
            assert(self.files.deep_view()[at as int].source is None);
            at += 1;
        }
        self.at = at;
        self.offset = 0;
        if at < self.files.len() {
            assert(self.files.deep_view()[at as int].source is Some);
            match &self.files[at].source {
                Some(path) => SenderStep::Open(path.clone()),
                None => SenderStep::Finish,
            }
        } else {
            SenderStep::Finish
        }
    }

    /// The file was opened, or not for the given reason.
    pub fn on_opened(&mut self, error: Option<String>) -> (out: SenderStep)
        requires
            old(self).deep_view().at < old(self).deep_view().files.len(),
            old(self).deep_view().files[old(self).deep_view().at].source is Some,
        ensures
            *final(self) == *old(self),
            out.deep_view() == match error {
                None => SenderStepModel::Read,
                Some(reason) => SenderStepModel::Fail(
                    "could not open "@ + old(self).deep_view().files[old(
                        self,
                    ).deep_view().at].source->Some_0.text + ": "@ + reason@,
                ),
            },
    {
        match error {
            None => SenderStep::Read,
            Some(reason) => {
                assert(self.files.deep_view()[self.at as int].source is Some);
                match &self.files[self.at].source {
                    Some(path) => SenderStep::Fail(
                        cat4("could not open ", path.text.as_str(), ": ", reason.as_str()),
                    ),
                    None => SenderStep::Fail(reason),
                }
            },
        }
    }

    /// Bytes were read from the open file: none at its end.
    pub fn on_read(&mut self, data: Vec<u8>) -> (out: SenderStep)
        requires
            old(self).deep_view().at < old(self).deep_view().files.len(),
        ensures
            data@.len() == 0 ==> (final(self).deep_view(), out.deep_view()) == turn_to(
                old(self).deep_view(),
                old(self).deep_view().at + 1,
            ),
            data@.len() > 0 ==> *final(self) == *old(self) && out.deep_view()
                == SenderStepModel::Send(
                FileChunkModel {
                    transfer: old(self).id,
                    index: old(self).deep_view().files[old(self).deep_view().at].entry.index,
                    offset: old(self).offset,
                    data: data@,
                },
            ),
    {
        if data.len() == 0 {
            let count: usize = self.files.len();
            assert(self.files.deep_view().len() == count);
            let next: usize = self.at + 1;
            self.advance(next)
        } else {
            SenderStep::Send(
                FileChunk {
                    transfer: self.id,
                    index: self.files[self.at].entry.index,
                    offset: self.offset,
                    data,
                },
            )
        }
    }

    /// A chunk of `sent` bytes was handed to the connection.
    pub fn on_sent(&mut self, sent: u64) -> (out: SenderStep)
        requires
            old(self).offset + sent <= u64::MAX,
        ensures
            final(self).deep_view() == (SenderModel {
                offset: (old(self).offset + sent) as u64,
                ..old(self).deep_view()
            }),
            out.deep_view() == SenderStepModel::Read,
    {
        self.offset = self.offset + sent;
        SenderStep::Read
    }

    /// Reading or sending failed for the given reason.
    pub fn on_failed(&mut self, reason: String) -> (out: SenderStep)
        ensures
            *final(self) == *old(self),
            out.deep_view() == SenderStepModel::Fail(reason@),
    {
        SenderStep::Fail(reason)
    }
}

} // verus!
