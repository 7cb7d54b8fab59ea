//! What names, texts and paths promise.

use vstd::prelude::*;

use crate::config::{chosen_name, first_settings, plain_link, ReleaseHotkey};
use crate::desktop::{filter_for, notes_for, with_port};
use crate::geom::{Double, Side};
use crate::paths::{DirPathModel, PathPartModel};
use crate::protocol::OsKind;
use crate::text::{
    contains_text, decimal, decimal_fixed, occurrences, pieces, trimmed, trimmed_end, trimmed_start,
    up_to, upper_text, white_space,
};
use crate::transfer::{
    candidate, climbs, components, device_name, extension_at, first_unsafe, forbidden_char,
    landing, named_parts, nonempty, safe_component, slashed, TransferErrorModel,
};

verus! {

proof fn lemma_trimmed_keeps(s: Seq<char>)
    ensures
        s.len() > 0 && !white_space(s[0]) && !white_space(s.last()) ==> trimmed(s) == s,
        s.len() > 0 && (white_space(s[0]) || white_space(s.last())) ==> trimmed(s).len() < s.len(),
{
    lemma_trimmed_start(s);
    lemma_trimmed_end(trimmed_start(s));
    if s.len() > 0 && !white_space(s[0]) && white_space(s.last()) {
        assert(trimmed_start(s) == s);
        lemma_trimmed_end(s.drop_last());
    }
    if s.len() > 0 && white_space(s[0]) {
        lemma_trimmed_start(s.drop_first());
    }
}

proof fn lemma_trimmed_start(s: Seq<char>)
    ensures
        trimmed_start(s).len() <= s.len(),
        trimmed_start(s) == s.skip(s.len() - trimmed_start(s).len()),
        forall|i: int| 0 <= i < s.len() - trimmed_start(s).len() ==> white_space(#[trigger] s[i]),
        trimmed_start(s).len() > 0 ==> !white_space(trimmed_start(s)[0]),
    decreases s.len(),
{
    if s.len() > 0 && white_space(s[0]) {
        let rest = s.drop_first();
        lemma_trimmed_start(rest);
        let n = s.len() - trimmed_start(s).len();
        assert(trimmed_start(s) =~= s.skip(n)) by {
            assert(forall|i: int| 0 <= i < rest.len() ==> #[trigger] rest[i] == s[i + 1]);
        }
        assert forall|i: int| 0 <= i < n implies white_space(#[trigger] s[i]) by {
            if i > 0 {
                assert(rest[i - 1] == s[i]);
            }
        }
    } else {
        assert(trimmed_start(s) =~= s.skip(0));
    }
}

proof fn lemma_trimmed_end(s: Seq<char>)
    ensures
        trimmed_end(s).len() <= s.len(),
        trimmed_end(s) == s.take(trimmed_end(s).len() as int),
        forall|i: int| trimmed_end(s).len() <= i < s.len() ==> white_space(#[trigger] s[i]),
        trimmed_end(s).len() > 0 ==> !white_space(trimmed_end(s).last()),
    decreases s.len(),
{
    if s.len() > 0 && white_space(s.last()) {
        let head = s.drop_last();
        lemma_trimmed_end(head);
        assert(trimmed_end(s) =~= s.take(trimmed_end(s).len() as int));
        assert forall|i: int| trimmed_end(s).len() <= i < s.len() implies white_space(
            #[trigger] s[i],
        ) by {
            if i < head.len() {
                assert(head[i] == s[i]);
            }
        }
    } else {
        assert(trimmed_end(s) =~= s.take(s.len() as int));
    }
}

/// Trimming takes away white space at the ends and nothing else: what is left stands in the
/// text, has white space at neither end, and only white space stands around it.
pub proof fn law_trimming_takes_white_space_only(s: Seq<char>)
    ensures
        exists|from: int, to: int|
            0 <= from <= to <= s.len() && trimmed(s) == #[trigger] s.subrange(from, to) && (forall|
                i: int,
            |
                0 <= i < from || to <= i < s.len() ==> white_space(#[trigger] s[i])),
        trimmed(s).len() > 0 ==> !white_space(trimmed(s)[0]) && !white_space(trimmed(s).last()),
{
    lemma_trimmed_start(s);
    let middle = trimmed_start(s);
    lemma_trimmed_end(middle);
    let from = s.len() - middle.len();
    let to = from + trimmed(s).len();
    assert(trimmed(s) =~= s.subrange(from, to));
    assert forall|i: int| 0 <= i < from || to <= i < s.len() implies white_space(
        #[trigger] s[i],
    ) by {
        if i >= to {
            assert(middle[i - from] == s[i]);
        }
    }
}

/// The white space that a name may not start or end with.
pub proof fn law_blanks_are_white_space(c: char)
    ensures
        c == ' ' || c == '\t' || c == '\n' || c == '\r' ==> white_space(c),
        '!' <= c <= '~' ==> !white_space(c),
{
}

/// Whether two texts are the same but for the case of their letters, where the second is in
/// upper case.
pub open spec fn spells(s: Seq<char>, word: Seq<char>) -> bool {
    s.len() == word.len() && forall|i: int|
        0 <= i < s.len() ==> (#[trigger] s[i] == word[i] || ('a' <= s[i] <= 'z' && s[i] as int - 32
            == word[i] as int))
}

proof fn lemma_spells(s: Seq<char>, word: Seq<char>)
    requires
        forall|i: int| 0 <= i < word.len() ==> !('a' <= #[trigger] word[i] <= 'z'),
    ensures
        upper_text(s) == word <==> spells(s, word),
{
    let up = upper_text(s);
    if up == word {
        assert forall|i: int| 0 <= i < s.len() implies (#[trigger] s[i] == word[i] || ('a' <= s[i]
            <= 'z' && s[i] as int - 32 == word[i] as int)) by {
            assert(up[i] == word[i]);
        }
    }
    if spells(s, word) {
        assert forall|i: int| 0 <= i < s.len() implies up[i] == word[i] by {
            assert(s[i] == word[i] || ('a' <= s[i] <= 'z' && s[i] as int - 32 == word[i] as int));
        }
        assert(up =~= word);
    }
}

/// Whether a stem is the name of a device on Windows, in whatever case.
pub open spec fn is_a_device(stem: Seq<char>) -> bool {
    ||| spells(stem, seq!['C', 'O', 'N'])
    ||| spells(stem, seq!['P', 'R', 'N'])
    ||| spells(stem, seq!['A', 'U', 'X'])
    ||| spells(stem, seq!['N', 'U', 'L'])
    ||| stem.len() == 4 && '1' <= stem[3] <= '9' && (spells(stem.take(3), seq!['C', 'O', 'M'])
        || spells(stem.take(3), seq!['L', 'P', 'T']))
}

proof fn lemma_devices(stem: Seq<char>)
    ensures
        device_name(upper_text(stem)) <==> is_a_device(stem),
{
    reveal_strlit("CON");
    reveal_strlit("PRN");
    reveal_strlit("AUX");
    reveal_strlit("NUL");
    reveal_strlit("COM");
    reveal_strlit("LPT");
    assert("CON"@ =~= seq!['C', 'O', 'N']);
    assert("PRN"@ =~= seq!['P', 'R', 'N']);
    assert("AUX"@ =~= seq!['A', 'U', 'X']);
    assert("NUL"@ =~= seq!['N', 'U', 'L']);
    assert("COM"@ =~= seq!['C', 'O', 'M']);
    assert("LPT"@ =~= seq!['L', 'P', 'T']);
    lemma_spells(stem, "CON"@);
    lemma_spells(stem, "PRN"@);
    lemma_spells(stem, "AUX"@);
    lemma_spells(stem, "NUL"@);
    if stem.len() == 4 {
        lemma_spells(stem.take(3), "COM"@);
        lemma_spells(stem.take(3), "LPT"@);
        assert(upper_text(stem).take(3) =~= upper_text(stem.take(3)));
    }
}

proof fn lemma_stem(s: Seq<char>)
    ensures
        ({
            let stem = up_to(s, '.');
            &&& stem.len() <= s.len()
            &&& stem == s.take(stem.len() as int)
            &&& !stem.contains('.')
            &&& stem.len() < s.len() ==> s[stem.len() as int] == '.'
        }),
    decreases s.len(),
{
    let stem = up_to(s, '.');
    if s.len() > 0 && s[0] != '.' {
        let rest = s.drop_first();
        lemma_stem(rest);
        let tail = up_to(rest, '.');
        assert(stem =~= s.take(stem.len() as int)) by {
            assert(forall|i: int| 0 <= i < tail.len() ==> #[trigger] tail[i] == rest[i]);
            assert(forall|i: int| 0 < i < stem.len() ==> #[trigger] stem[i] == tail[i - 1]);
        }
        assert(!stem.contains('.')) by {
            if stem.contains('.') {
                let i = choose|i: int| 0 <= i < stem.len() && stem[i] == '.';
                assert(i > 0);
                assert(tail[i - 1] == '.');
            }
        }
        if stem.len() < s.len() {
            assert(rest[tail.len() as int] == s[stem.len() as int]);
        }
    } else {
        assert(stem =~= s.take(0));
    }
}

/// Whether `stem` is what stands before the first dot of a name.
pub open spec fn is_stem(name: Seq<char>, stem: Seq<char>) -> bool {
    &&& stem.len() <= name.len()
    &&& stem == name.take(stem.len() as int)
    &&& !stem.contains('.')
    &&& stem.len() < name.len() ==> name[stem.len() as int] == '.'
}

/// A name is safe exactly where it is not empty, has white space at neither end, does not end
/// in a dot, holds no separator and no control character, and is not that of a device, with
/// or without an extension. So neither "." nor ".." is one.
pub proof fn law_safe_names(name: Seq<char>, stem: Seq<char>)
    requires
        is_stem(name, stem),
    ensures
        safe_component(name) <==> {
            &&& name.len() > 0
            &&& !white_space(name[0])
            &&& !white_space(name.last())
            &&& name.last() != '.'
            &&& !is_a_device(stem)
            &&& forall|i: int|
                0 <= i < name.len() ==> #[trigger] name[i] != '/' && name[i] != '\\' && name[i]
                    as int >= 32
        },
{
    reveal_strlit(".");
    reveal_strlit("..");
    lemma_trimmed_keeps(name);
    lemma_stem(name);
    let found = up_to(name, '.');
    assert(found.len() == stem.len()) by {
        if found.len() < stem.len() {
            assert(stem[found.len() as int] == '.');
        }
        if stem.len() < found.len() {
            assert(found[stem.len() as int] == '.');
        }
    }
    assert(found == stem);
    lemma_devices(stem);
    assert(forall|i: int|
        0 <= i < name.len() ==> (!forbidden_char(#[trigger] name[i]) <==> name[i] != '/' && name[i]
            != '\\' && name[i] as int >= 32));
    if name.len() > 0 && name.last() != '.' {
        assert(name != "."@) by {
            assert("."@.last() == '.');
        }
        assert(name != ".."@) by {
            assert(".."@.last() == '.');
        }
    }
    if name.len() > 0 && trimmed(name).len() < name.len() {
        assert(trimmed(name) != name);
    }
}

proof fn lemma_one_piece(prefix: Seq<char>, name: Seq<char>)
    requires
        forall|i: int| 0 <= i < name.len() ==> #[trigger] name[i] != '/',
    ensures
        pieces(name, '/') == seq![name],
        pieces(prefix + seq!['/'] + name, '/') == pieces(prefix, '/').push(name),
    decreases name.len(),
{
    if name.len() == 0 {
        let whole = prefix + seq!['/'] + name;
        assert(name =~= Seq::<char>::empty());
        assert(whole.drop_last() =~= prefix);
        assert(whole.last() == '/');
        assert(pieces(name, '/') =~= seq![name]);
    } else {
        let head = name.drop_last();
        assert(forall|i: int| 0 <= i < head.len() ==> #[trigger] head[i] == name[i]);
        lemma_one_piece(prefix, head);
        let whole = prefix + seq!['/'] + name;
        assert(whole.drop_last() =~= prefix + seq!['/'] + head);
        assert(whole.last() == name.last());
        let before = pieces(prefix, '/').push(head);
        assert(name.last() == name[name.len() - 1]);
        assert(head.push(name.last()) =~= name);
        assert(before.update(before.len() - 1, before.last().push(name.last())) =~= pieces(
            prefix,
            '/',
        ).push(name));
        assert(seq![head].update(0, head.push(name.last())) =~= seq![name]);
    }
}

/// A safe name lands right below the root. Below a path that lands somewhere, it lands right
/// below that place. Names with a colon, which Windows reads as something else, land nowhere.
pub proof fn law_names_land_where_they_say(
    path: Seq<char>,
    name: Seq<char>,
    root: Seq<PathPartModel>,
)
    requires
        safe_component(name),
        !name.contains(':'),
        !climbs(root),
    ensures
        landing(name, root) == Ok::<Seq<PathPartModel>, TransferErrorModel>(
            root.push(PathPartModel::Normal(name)),
        ),
        landing(path, root) matches Ok(place) ==> landing(path + seq!['/'] + name, root) == Ok::<
            Seq<PathPartModel>,
            TransferErrorModel,
        >(place.push(PathPartModel::Normal(name))),
{
    assert forall|i: int| 0 <= i < name.len() implies #[trigger] name[i] != '/' && name[i]
        != '\\' by {
        assert(!forbidden_char(name[i]));
    }
    lemma_one_piece(slashed(path), name);
    assert(slashed(name) =~= name);
    let one = seq![name];
    assert(one.drop_last() =~= Seq::<Seq<char>>::empty());
    assert(nonempty(Seq::<Seq<char>>::empty()) =~= Seq::<Seq<char>>::empty());
    assert(nonempty(one) =~= one);
    assert(components(name) == one);
    assert(first_unsafe(Seq::<Seq<char>>::empty()) is None);
    assert(first_unsafe(one) is None);
    assert(root + named_parts(one) =~= root.push(PathPartModel::Normal(name)));
    if let Ok(place) = landing(path, root) {
        let whole = path + seq!['/'] + name;
        assert(slashed(whole) =~= slashed(path) + seq!['/'] + name);
        let ps = pieces(slashed(path), '/');
        assert(ps.push(name).drop_last() =~= ps);
        assert(components(whole) == components(path).push(name));
        let all = components(path).push(name);
        assert(all.drop_last() =~= components(path));
        assert(first_unsafe(all) is None);
        assert(slashed(path).len() == path.len());
        assert(path.len() > 0) by {
            if path.len() == 0 {
                let none = seq![Seq::<char>::empty()];
                assert(slashed(path).len() == 0);
                assert(pieces(slashed(path), '/') == none);
                assert(none.drop_last() =~= Seq::<Seq<char>>::empty());
                assert(nonempty(none).len() == 0);
            }
        }
        assert(slashed(whole)[0] == slashed(path)[0]);
        assert(!slashed(whole).contains(':')) by {
            if slashed(whole).contains(':') {
                let i = choose|i: int| 0 <= i < slashed(whole).len() && slashed(whole)[i] == ':';
                if i < path.len() {
                    assert(slashed(path)[i] == ':');
                    assert(slashed(path).contains(':'));
                } else if i > path.len() {
                    assert(name[i - path.len() - 1] == ':');
                    assert(name.contains(':'));
                }
            }
        }
        assert(named_parts(all) =~= named_parts(components(path)).push(
            PathPartModel::Normal(name),
        ));
        assert(root + named_parts(all) =~= place.push(PathPartModel::Normal(name)));
    }
}

/// Paths from the root of a disk, paths with a colon, and roots that climb are refused.
/// Slashes in either direction mean the same.
pub proof fn law_roots_and_drives_are_refused(path: Seq<char>, root: Seq<PathPartModel>)
    ensures
        path.len() > 0 && (path[0] == '/' || path[0] == '\\') ==> landing(path, root) is Err,
        path.contains(':') ==> landing(path, root) is Err,
        climbs(root) ==> landing(path, root) is Err,
        landing(path, root) matches Ok(place) ==> landing(
            path.map_values(
                |c: char|
                    if c == '\\' {
                        '/'
                    } else {
                        c
                    },
            ),
            root,
        ) == Ok::<Seq<PathPartModel>, TransferErrorModel>(place),
{
    let s = slashed(path);
    if path.contains(':') {
        let i = choose|i: int| 0 <= i < path.len() && path[i] == ':';
        assert(s[i] == ':');
        assert(s.contains(':'));
    }
    if path.len() > 0 {
        assert(s[0] == '/' || (path[0] != '/' && path[0] != '\\'));
    }
    let turned = path.map_values(
        |c: char|
            if c == '\\' {
                '/'
            } else {
                c
            },
    );
    assert(turned =~= s);
    assert(slashed(s) =~= s);
}

proof fn lemma_split_at(name: Seq<char>, n: int)
    requires
        1 <= n <= name.len(),
        n < name.len() ==> name[n] == '.',
        forall|j: int| n < j < name.len() ==> #[trigger] name[j] != '.',
        n == name.len() ==> forall|j: int| 1 <= j < name.len() ==> #[trigger] name[j] != '.',
    ensures
        extension_at(name) == n,
    decreases name.len(),
{
    let head = name.drop_last();
    assert(forall|j: int| 0 <= j < head.len() ==> #[trigger] head[j] == name[j]);
    if n < name.len() {
        if n < name.len() - 1 {
            assert(name[name.len() - 1] != '.');
            lemma_split_at(head, n);
        }
    } else if name.len() > 1 {
        assert(name[name.len() - 1] != '.');
        lemma_split_at(head, n - 1);
    } else {
        assert(extension_at(head) == 0);
    }
}

/// The names that are tried for a file: the name itself first, then a number before its
/// extension, counted from two on.
pub proof fn law_numbers_go_before_the_extension(
    stem: Seq<char>,
    extension: Seq<char>,
    tried: nat,
)
    requires
        stem.len() > 0,
        forall|i: int| 0 <= i < extension.len() ==> #[trigger] extension[i] != '.',
    ensures
        candidate(stem + seq!['.'] + extension, 0) == stem + seq!['.'] + extension,
        tried > 0 ==> candidate(stem + seq!['.'] + extension, tried) == stem + " ("@ + decimal(
            tried + 1,
        ) + ")"@ + seq!['.'] + extension,
        tried > 0 && (forall|i: int| 1 <= i < stem.len() ==> #[trigger] stem[i] != '.')
            ==> candidate(stem, tried) == stem + " ("@ + decimal(tried + 1) + ")"@,
{
    let name = stem + seq!['.'] + extension;
    assert forall|j: int| stem.len() < j < name.len() implies #[trigger] name[j] != '.' by {
        assert(name[j] == extension[j - stem.len() - 1]);
    }
    lemma_split_at(name, stem.len() as int);
    assert(name.take(stem.len() as int) =~= stem);
    assert(name.skip(stem.len() as int) =~= seq!['.'] + extension);
    if tried > 0 {
        assert(candidate(name, tried) =~= stem + " ("@ + decimal(tried + 1) + ")"@ + seq!['.']
            + extension);
        if forall|i: int| 1 <= i < stem.len() ==> #[trigger] stem[i] != '.' {
            lemma_split_at(stem, stem.len() as int);
            assert(stem.take(stem.len() as int) =~= stem);
            assert(stem.skip(stem.len() as int) =~= Seq::<char>::empty());
            assert(candidate(stem, tried) =~= stem + " ("@ + decimal(tried + 1) + ")"@);
        }
    }
}

/// The value of some decimal digits.
pub open spec fn value_of(digits: Seq<char>) -> int
    decreases digits.len(),
{
    if digits.len() == 0 {
        0
    } else {
        10 * value_of(digits.drop_last()) + (digits.last() as int - 48)
    }
}

/// The decimal digits of a number have its value and no needless zero in front; those of a
/// fixed width have the value of the number within that width.
pub proof fn law_digits_have_the_value(n: nat)
    ensures
        value_of(decimal(n)) == n,
        n > 0 ==> decimal(n)[0] != '0',
        decimal(n).len() > 0,
        forall|i: int| 0 <= i < decimal(n).len() ==> '0' <= #[trigger] decimal(n)[i] <= '9',
    decreases n,
{
    let text = decimal(n);
    if n < 10 {
        assert(text.drop_last() =~= Seq::<char>::empty());
        assert(value_of(text.drop_last()) == 0);
    } else {
        law_digits_have_the_value(n / 10);
        assert(text.drop_last() =~= decimal(n / 10));
        assert(text[0] == decimal(n / 10)[0]);
        assert forall|i: int| 0 <= i < text.len() implies '0' <= #[trigger] text[i] <= '9' by {
            if i < text.len() - 1 {
                assert(text[i] == decimal(n / 10)[i]);
            }
        }
    }
}

/// Six digits hold every number below a million, and its value is kept.
pub proof fn law_six_digits_have_the_value(n: nat)
    requires
        n < 1_000_000,
    ensures
        decimal_fixed(n, 6).len() == 6,
        value_of(decimal_fixed(n, 6)) == n,
{
    assert(ten_to(6) == 1_000_000) by {
        reveal_with_fuel(ten_to, 7);
    }
    lemma_fixed_value(n, 6);
}

/// A power of ten.
pub open spec fn ten_to(n: nat) -> nat
    decreases n,
{
    if n == 0 {
        1
    } else {
        10 * ten_to((n - 1) as nat)
    }
}

proof fn lemma_fixed_value(n: nat, width: nat)
    requires
        n < ten_to(width),
    ensures
        decimal_fixed(n, width).len() == width,
        value_of(decimal_fixed(n, width)) == n,
    decreases width,
{
    if width > 0 {
        let k = (width - 1) as nat;
        assert(n / 10 < ten_to(k));
        lemma_fixed_value(n / 10, k);
        assert(decimal_fixed(n, width).drop_last() =~= decimal_fixed(n / 10, k));
    }
}

/// The settings of a first run: found by others, with everything shared but the input, which
/// the user has to switch on, and with nothing overwritten.
pub proof fn law_first_settings(device_name: Seq<char>, download_dir: DirPathModel)
    ensures
        ({
            let s = first_settings(device_name, download_dir);
            &&& s.device_name == device_name
            &&& s.port == 47823
            &&& s.discoverable
            &&& s.links.len() == 0
            &&& !s.input.enabled
            &&& s.input.relay_keyboard
            &&& s.input.release_hotkey == ReleaseHotkey::ScrollLockTwice
            &&& s.input.mouse_speed == (Double { bits: 0x3ff0_0000_0000_0000 })
            &&& s.input.edge_armed_pixels == (Double { bits: 0x4000_0000_0000_0000 })
            &&& s.clipboard.enabled && s.clipboard.sync_text && s.clipboard.sync_images
            &&& s.clipboard.always
            &&& s.clipboard.poll_interval_ms == 350
            &&& s.clipboard.max_bytes == 8 * 1024 * 1024
            &&& s.transfer.enabled && s.transfer.auto_accept_trusted
            &&& !s.transfer.overwrite_existing
            &&& s.transfer.download_dir == download_dir
        }),
{
}

/// A link that the user sets up leads out of the edge that was named and into the one across
/// from it, along the whole of both.
pub proof fn law_a_plain_link_faces_across(peer: Seq<char>, name: Seq<char>, side: Side)
    ensures
        ({
            let link = plain_link(peer, name, side);
            &&& link.peer == peer && link.peer_name == name && link.enabled
            &&& link.local_side == side
            &&& link.remote_side == match side {
                Side::Left => Side::Right,
                Side::Right => Side::Left,
                Side::Top => Side::Bottom,
                Side::Bottom => Side::Top,
            }
            &&& link.local_range == (Double { bits: 0 }, Double { bits: 0x3ff0_0000_0000_0000 })
            &&& link.remote_range == link.local_range
        }),
{
}

/// This machine goes by the name that its environment gives it; where that is missing or
/// empty, by what the command says, without white space; and else by that of the product.
pub proof fn law_the_environment_names_this_machine(
    computer: Option<Seq<char>>,
    host: Option<Seq<char>>,
    command: Option<Seq<char>>,
    name: Seq<char>,
)
    ensures
        name.len() > 0 ==> chosen_name(Some(name), host, command) == name,
        name.len() > 0 ==> chosen_name(None, Some(name), command) == name,
        trimmed(name).len() > 0 ==> chosen_name(None, None, Some(name)) == trimmed(name),
        trimmed(name).len() > 0 ==> chosen_name(Some(Seq::empty()), host, Some(name)) == trimmed(
            name,
        ),
        chosen_name(None, None, None) == "UnionDesk device"@,
        chosen_name(Some(Seq::empty()), host, None) == "UnionDesk device"@,
{
}

proof fn lemma_occurrences(s: Seq<char>, c: char)
    ensures
        occurrences(s, c) == 0 <==> !s.contains(c),
        occurrences(s, c) <= s.len(),
    decreases s.len(),
{
    if s.len() > 0 {
        let head = s.drop_last();
        lemma_occurrences(head, c);
        if s.contains(c) {
            let i = choose|i: int| 0 <= i < s.len() && s[i] == c;
            if i < head.len() {
                assert(head[i] == c);
            }
        }
        if head.contains(c) {
            let i = choose|i: int| 0 <= i < head.len() && head[i] == c;
            assert(s[i] == c);
        }
        if s.last() == c {
            assert(s[s.len() - 1] == c);
        }
    }
}

proof fn lemma_occurrences_joined(a: Seq<char>, b: Seq<char>, c: char)
    ensures
        occurrences(a + b, c) == occurrences(a, c) + occurrences(b, c),
    decreases b.len(),
{
    if b.len() == 0 {
        assert(a + b =~= a);
    } else {
        lemma_occurrences_joined(a, b.drop_last(), c);
        assert((a + b).drop_last() =~= a + b.drop_last());
    }
}

/// An address without a port is dialled on the usual one; one with a port is dialled as it
/// is. White space around it does not count. An address of the newer family names its port
/// behind its brackets.
pub proof fn law_addresses_get_a_port(host: Seq<char>, port: Seq<char>)
    requires
        host.len() > 0,
        trimmed(host) == host,
        host[0] != '[',
        !host.contains(':'),
        !port.contains(':'),
        trimmed(host + seq![':'] + port) == host + seq![':'] + port,
    ensures
        with_port(host) == host + ":47823"@,
        with_port(host + seq![':'] + port) == host + seq![':'] + port,
{
    reveal_strlit(":");
    reveal_strlit(":47823");
    lemma_occurrences(host, ':');
    lemma_occurrences(port, ':');
    lemma_occurrences_joined(host + seq![':'], port, ':');
    lemma_occurrences_joined(host, seq![':'], ':');
    assert(seq![':'].drop_last() =~= Seq::<char>::empty());
    assert(occurrences(Seq::<char>::empty(), ':') == 0);
    assert(seq![':'].last() == ':');
    assert(occurrences(seq![':'], ':') == 1);
    assert(occurrences(host, ':') == 0);
    let whole = host + seq![':'] + port;
    assert(whole[0] == host[0]);
    assert(decimal(47823) =~= seq!['4', '7', '8', '2', '3']) by {
        reveal_with_fuel(decimal, 6);
    }
    assert(":"@ + decimal(47823) =~= ":47823"@);
    assert(host + ":"@ + decimal(47823) =~= host + ":47823"@);
}

/// An address in brackets with a port is dialled as it is, and one without on the usual port.
pub proof fn law_bracketed_addresses_get_a_port(inner: Seq<char>, port: Seq<char>)
    requires
        !inner.contains(']'),
        !port.contains(']'),
        trimmed(seq!['['] + inner + seq![']']) == seq!['['] + inner + seq![']'],
        trimmed(seq!['['] + inner + seq![']', ':'] + port) == seq!['['] + inner + seq![']', ':']
            + port,
    ensures
        with_port(seq!['['] + inner + seq![']']) == seq!['['] + inner + seq![']'] + ":47823"@,
        with_port(seq!['['] + inner + seq![']', ':'] + port) == seq!['['] + inner + seq![']', ':']
            + port,
{
    reveal_strlit(":");
    reveal_strlit("]:");
    reveal_strlit(":47823");
    let bare = seq!['['] + inner + seq![']'];
    let whole = seq!['['] + inner + seq![']', ':'] + port;
    let needle = "]:"@;
    let at = inner.len() as int + 1;
    assert(whole.subrange(at, at + needle.len()) =~= needle);
    assert(contains_text(whole, needle));
    assert(!contains_text(bare, needle)) by {
        if contains_text(bare, needle) {
            let i = choose|i: int|
                0 <= i <= bare.len() - needle.len() && #[trigger] bare.subrange(
                    i,
                    i + needle.len(),
                ) == needle;
            assert(bare.subrange(i, i + needle.len())[0] == ']');
            assert(bare[i] == ']');
            if i > 0 {
                assert(inner[i - 1] == ']');
                assert(inner.contains(']'));
            }
        }
    }
    assert(decimal(47823) =~= seq!['4', '7', '8', '2', '3']) by {
        reveal_with_fuel(decimal, 6);
    }
    assert(bare + ":"@ + decimal(47823) =~= bare + ":47823"@);
}

/// The notes of the settings panel: what is still missing comes first; Windows is told of its
/// firewall, and systems without a way to relay input are told so.
pub proof fn law_notes_fit_the_system(text: Seq<char>)
    ensures
        notes_for(None, OsKind::Macos) == Seq::<Seq<char>>::empty(),
        notes_for(Some(text), OsKind::Macos) == seq![text],
        notes_for(None, OsKind::Windows) == seq![
            "Windows may show a firewall prompt the first time UnionDesk listens for peers; allow it on private networks."@,
        ],
        notes_for(None, OsKind::Linux) == seq![
            "Keyboard and mouse relaying is not implemented on this platform yet."@,
        ],
        notes_for(None, OsKind::Unknown) == notes_for(None, OsKind::Linux),
        forall|os: OsKind|
            #[trigger] notes_for(Some(text), os) == seq![text] + notes_for(None, os),
{
    assert forall|os: OsKind| #[trigger] notes_for(Some(text), os) == seq![text] + notes_for(
        None,
        os,
    ) by {
        assert(notes_for(Some(text), os) =~= seq![text] + notes_for(None, os));
    }
}

/// A log filter that says something of the application is used as it is; any other is kept,
/// and the application's own records are added.
pub proof fn law_the_log_keeps_its_own_records(value: Seq<char>)
    ensures
        ({
            let own =
                "uniondesk_lib=info,ud_engine=info,ud_net=info,ud_input=info,ud_clipboard=info"@;
            let says = contains_text(value, "uniondesk_lib"@) || contains_text(
                value,
                "ud_engine"@,
            ) || contains_text(value, "ud_net"@) || contains_text(value, "ud_input"@)
                || contains_text(value, "ud_clipboard"@);
            &&& says ==> filter_for(Some(value)) == value
            &&& !says ==> filter_for(Some(value)) == value + ","@ + own
            &&& filter_for(None) == "warn,"@ + own + ",ud_engine=debug,ud_net=debug"@
        }),
{
}

} // verus!
