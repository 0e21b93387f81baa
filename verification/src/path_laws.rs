//! What holds of paths, of the files and names that are made from them, and of
//! numbers in digits.

use vstd::prelude::*;

use crate::notifier::{below_home, helper_candidates, third_parent};
use crate::paths::{
    components, is_named, name_of, named_pieces, parent_of, path_head, path_joined,
    shortest_prefix,
};
use crate::script::script_file_name;
use crate::state::{
    container_path, id_path, marker_path, state_dir_path, state_read, state_value,
};
use crate::text::{find_char, is_alphanumeric_ascii};
use crate::text_laws::{is_blank, is_tight, law_trim, law_trim_whole, lemma_found_at};
use crate::util::{decimal, group_id, hexadecimal, sanitized};

verus! {

/// A name is joined to a directory with one slash between them; an absolute
/// name stands alone.
pub proof fn law_path_joined(dir: Seq<char>, name: Seq<char>)
    ensures
        name.len() > 0 && name[0] == '/' ==> path_joined(dir, name) == name,
        dir.len() > 0 && dir[dir.len() - 1] != '/' && (name.len() == 0 || name[0] != '/')
            ==> path_joined(dir, name) == dir + seq!['/'] + name,
        dir.len() > 0 && dir[dir.len() - 1] == '/' && (name.len() == 0 || name[0] != '/')
            ==> path_joined(dir, name) == dir + name,
        path_joined(seq![], name) == name,
{
    assert(Seq::<char>::empty() + name =~= name);
}

/// A search for a slash in the front of a path ends where it ends in the front
/// alone, or at the slash behind it.
proof fn lemma_slash_in_front(front: Seq<char>, back: Seq<char>, from: int)
    requires
        0 <= from <= front.len(),
    ensures
        find_char(front + seq!['/'] + back, from, '/') == find_char(front, from, '/'),
        from <= find_char(front, from, '/') <= front.len(),
    decreases front.len() - from,
{
    let whole = front + seq!['/'] + back;
    if from < front.len() {
        assert(whole[from] == front[from]);
        if front[from] != '/' {
            lemma_slash_in_front(front, back, from + 1);
        }
    } else {
        assert(whole[from] == '/');
    }
}

proof fn lemma_piece_appended(dir: Seq<char>, name: Seq<char>)
    requires
        !name.contains('/'),
        is_named(name),
    ensures
        named_pieces(dir + seq!['/'] + name) == named_pieces(dir).push(name),
    decreases dir.len(),
{
    let whole = dir + seq!['/'] + name;
    lemma_slash_in_front(dir, name, 0);
    let end = find_char(dir, 0, '/');
    assert(whole.take(end) =~= dir.take(end));
    if end < dir.len() {
        assert(whole.skip(end + 1) =~= dir.skip(end + 1) + seq!['/'] + name);
        lemma_piece_appended(dir.skip(end + 1), name);
    } else {
        assert(whole.skip(end + 1) =~= name);
        assert forall|j: int| 0 <= j < name.len() implies #[trigger] name[j] != '/' by {
            assert(name.contains(name[j]));
        }
        lemma_found_at(name, 0, name.len() as int, '/');
        assert(name.take(name.len() as int) =~= name);
        assert(named_pieces(name) =~= seq![name]);
    }
    assert(named_pieces(whole) =~= named_pieces(dir).push(name));
}

/// A name behind a directory and a slash is one more component, the last one.
pub proof fn law_name_is_last_component(dir: Seq<char>, name: Seq<char>)
    requires
        dir.len() > 0,
        name.len() > 0 && !name.contains('/') && name != seq!['.'],
    ensures
        components(dir + seq!['/'] + name) == components(dir).push(name),
        name != seq!['.', '.'] ==> name_of(dir + seq!['/'] + name) == Some(name),
{
    let whole = dir + seq!['/'] + name;
    lemma_piece_appended(dir, name);
    assert(whole[0] == dir[0]);
    if dir.len() > 1 {
        assert(whole[1] == dir[1]);
    } else {
        assert(whole[1] == '/');
    }
    assert(path_head(whole) == path_head(dir));
    assert(components(whole) =~= components(dir).push(name));
    if name == seq!['/'] {
        assert(name[0] == '/');
        assert(name.contains('/'));
    }
}

/// A single name is its own last name; the root, the current and the parent
/// directory and an empty path have none.
pub proof fn law_single_name(name: Seq<char>)
    requires
        name.len() > 0 && !name.contains('/') && name != seq!['.'],
    ensures
        name != seq!['.', '.'] ==> name_of(name) == Some(name),
        name_of(seq!['/']) is None,
        name_of(seq!['.', '.']) is None,
        name_of(seq!['.']) is None,
        name_of(seq![]) is None,
{
    lemma_one_piece(name);
    assert(!seq!['.', '.'].contains('/'));
    lemma_one_piece(seq!['.', '.']);
    lemma_one_piece_of_dot();
    assert(name[0] != '/') by {
        assert(name.contains(name[0]));
    }
    if name[0] == '.' && name.len() == 1 {
        assert(name =~= seq!['.']);
    }
    if name.len() > 1 {
        assert(name[1] != '/') by {
            assert(name.contains(name[1]));
        }
    }
    assert(components(name) =~= seq![name]);
    if name == seq!['/'] {
        assert(name[0] == '/');
    }
    assert(components(seq!['.', '.']) =~= seq![seq!['.', '.']]);
}

proof fn lemma_one_piece(name: Seq<char>)
    requires
        name.len() > 0 && !name.contains('/') && name != seq!['.'],
    ensures
        named_pieces(name) == seq![name],
{
    assert forall|j: int| 0 <= j < name.len() implies #[trigger] name[j] != '/' by {
        assert(name.contains(name[j]));
    }
    lemma_found_at(name, 0, name.len() as int, '/');
    assert(name.take(name.len() as int) =~= name);
}

proof fn lemma_one_piece_of_dot()
    ensures
        components(seq!['.']) == seq![seq!['.']],
        components(seq!['/']) == seq![seq!['/']],
        components(seq![]).len() == 0,
{
    reveal_with_fuel(named_pieces, 3);
    let dot = seq!['.'];
    lemma_found_at(dot, 0, 1, '/');
    assert(dot.take(1) =~= dot);
    assert(components(dot) =~= seq![dot]);
    let root = seq!['/'];
    lemma_found_at(root, 0, 0, '/');
    assert(root.skip(1) =~= Seq::<char>::empty());
    let none = Seq::<char>::empty();
    lemma_found_at(none, 0, 0, '/');
    assert(named_pieces(none) =~= Seq::<Seq<char>>::empty());
    assert(components(root) =~= seq![root]);
}

proof fn lemma_shortest_prefix(path: Seq<char>, len: int, parts: Seq<Seq<char>>)
    requires
        0 <= len,
    ensures
        match shortest_prefix(path, len, parts) {
            Some(prefix) => {
                &&& len <= prefix.len() <= path.len()
                &&& prefix == path.take(prefix.len() as int)
                &&& components(prefix) == parts
                &&& forall|n: int|
                    len <= n < prefix.len() ==> components(#[trigger] path.take(n)) != parts
            },
            None => forall|n: int|
                len <= n <= path.len() ==> components(#[trigger] path.take(n)) != parts,
        },
    decreases path.len() + 1 - len,
{
    if len <= path.len() && components(path.take(len)) != parts {
        lemma_shortest_prefix(path, len + 1, parts);
    }
}

/// The directory of a name behind a slash has all components but the name, is
/// written as the path begins, and is as short as it can be.
pub proof fn law_parent(dir: Seq<char>, name: Seq<char>)
    requires
        dir.len() > 0,
        name.len() > 0 && !name.contains('/') && name != seq!['.'],
    ensures
        parent_of(dir + seq!['/'] + name) matches Some(parent) && parent == dir.take(
            parent.len() as int,
        ) && parent.len() <= dir.len() && components(parent) == components(dir) && forall|n: int|
            0 <= n < parent.len() ==> components(#[trigger] dir.take(n)) != components(dir),
{
    let path = dir + seq!['/'] + name;
    law_name_is_last_component(dir, name);
    assert(components(path).drop_last() =~= components(dir));
    if name == seq!['/'] {
        assert(name[0] == '/');
        assert(name.contains('/'));
    }
    lemma_shortest_prefix(path, 0, components(dir));
    let n = dir.len() as int;
    assert(path.take(n) =~= dir);
    if let Some(parent) = parent_of(path) {
        assert(parent.len() <= n) by {
            if parent.len() > n {
                assert(components(path.take(n)) == components(dir));
            }
        }
        assert(parent =~= dir.take(parent.len() as int));
        assert forall|k: int| 0 <= k < parent.len() implies components(#[trigger] dir.take(k))
            != components(dir) by {
            assert(path.take(k) =~= dir.take(k));
        }
    }
}

/// The helper is looked for below the root of the plugin first, where that is
/// known, then three levels above the program, where there are so many, and
/// below the current directory last.
pub proof fn law_helper_candidates(root: Seq<char>, exe: Option<Seq<char>>)
    requires
        root.len() > 0 && root[root.len() - 1] != '/',
    ensures
        ({
            let last = seq!["scripts/linux-notify-wait.py"@];
            let above = if third_parent(exe) is Some {
                seq![path_joined(third_parent(exe)->0, "scripts/linux-notify-wait.py"@)]
            } else {
                seq![]
            };
            &&& helper_candidates(None, exe) == above + last
            &&& helper_candidates(Some(root), exe) == seq![
                root + seq!['/'] + "scripts/linux-notify-wait.py"@,
            ] + above + last
        }),
{
    reveal_strlit("scripts/linux-notify-wait.py");
    law_path_joined(root, "scripts/linux-notify-wait.py"@);
    let last = seq!["scripts/linux-notify-wait.py"@];
    let above = if third_parent(exe) is Some {
        seq![path_joined(third_parent(exe)->0, "scripts/linux-notify-wait.py"@)]
    } else {
        seq![]
    };
    assert(helper_candidates(None, exe) =~= above + last);
    assert(helper_candidates(Some(root), exe) =~= seq![
        root + seq!['/'] + "scripts/linux-notify-wait.py"@,
    ] + above + last);
}

/// The directory three levels above a program is the one that holds the
/// directory that holds its directory.
pub proof fn law_third_parent(root: Seq<char>, a: Seq<char>, b: Seq<char>, c: Seq<char>)
    requires
        root.len() > 0,
        a.len() > 0 && !a.contains('/') && !a.contains('.'),
        b.len() > 0 && !b.contains('/') && !b.contains('.'),
        c.len() > 0 && !c.contains('/') && !c.contains('.'),
    ensures
        third_parent(Some(root + seq!['/'] + a + seq!['/'] + b + seq!['/'] + c)) matches Some(top)
            && components(top) == components(root),
{
    let ra = root + seq!['/'] + a;
    let rab = ra + seq!['/'] + b;
    lemma_no_dot(a);
    lemma_no_dot(b);
    lemma_no_dot(c);
    law_parent(rab, c);
    let first = parent_of(rab + seq!['/'] + c)->0;
    law_name_is_last_component(ra, b);
    law_name_is_last_component(root, a);
    lemma_parent_by_components(first, components(ra), b);
    let second = parent_of(first)->0;
    lemma_some_component(root);
    lemma_parent_by_components(second, components(root), a);
}

/// A path that is not empty has a component.
proof fn lemma_some_component(path: Seq<char>)
    requires
        path.len() > 0,
    ensures
        components(path).len() > 0,
{
    if path_head(path).len() == 0 {
        let end = find_char(path, 0, '/');
        assert(end >= 1 && end <= path.len()) by {
            lemma_slash_in_front(path, seq![], 1);
        }
        let piece = path.take(end);
        assert(piece[0] == path[0]);
        if piece == seq!['.'] {
            assert(piece.len() == 1 && piece[0] == '.');
            if path.len() > 1 && path[1] != '/' {
                reveal_with_fuel(find_char, 3);
                lemma_slash_in_front(path, seq![], 2);
            }
        }
        assert(is_named(piece));
        assert(named_pieces(path).len() > 0);
    }
}

proof fn lemma_no_dot(name: Seq<char>)
    requires
        name.len() > 0,
        !name.contains('.'),
    ensures
        name != seq!['.'],
{
    if name == seq!['.'] {
        assert(name[0] == '.');
    }
}

/// A path whose last component is a name has a parent with the others.
proof fn lemma_parent_by_components(path: Seq<char>, parts: Seq<Seq<char>>, name: Seq<char>)
    requires
        components(path) == parts.push(name),
        parts.len() > 0,
        name.len() > 0 && !name.contains('/') && name != seq!['.'],
    ensures
        parent_of(path) matches Some(parent) && components(parent) == parts,
{
    assert(parts.push(name).drop_last() =~= parts);
    if name == seq!['/'] {
        assert(name[0] == '/');
        assert(name.contains('/'));
    }
    lemma_shortest_prefix(path, 0, parts);
    lemma_prefix_without_last(path);
    if parent_of(path) is None {
        let n = choose|n: int|
            0 <= n <= path.len() && components(#[trigger] path.take(n)) == components(
                path,
            ).drop_last();
        assert(components(path.take(n)) != parts);
    }
}

/// Some beginning of a path with two components or more has all but the last.
proof fn lemma_prefix_without_last(path: Seq<char>)
    requires
        components(path).len() > 1,
    ensures
        exists|n: int|
            0 <= n <= path.len() && components(#[trigger] path.take(n)) == components(
                path,
            ).drop_last(),
    decreases path.len(),
{
    let m = path.len() as int;
    if path.contains('/') {
        // The last slash divides the path into a directory and a last piece.
        let k = lemma_last_slash(path);
        let dir = path.take(k);
        let piece = path.skip(k + 1);
        assert(path =~= dir + seq!['/'] + piece);
        if is_named(piece) {
            if k == 0 {
                assert(dir =~= Seq::<char>::empty());
                lemma_piece_appended(dir, piece);
                lemma_one_piece_of_dot();
                reveal_with_fuel(named_pieces, 2);
                assert(named_pieces(dir) =~= Seq::<Seq<char>>::empty());
                assert(components(path) =~= seq![seq!['/'], piece]);
                assert(path.take(1) =~= seq!['/']);
                assert(components(path.take(1)) =~= components(path).drop_last());
            } else {
                law_name_is_last_component(dir, piece);
                assert(components(dir) =~= components(path).drop_last());
                assert(components(path.take(k)) == components(path).drop_last());
            }
        } else {
            // An empty piece or a dot adds nothing: the directory has the same
            // components, or the path is the root.
            lemma_unnamed_adds_nothing(dir, piece);
            if k == 0 {
                lemma_one_piece_of_dot();
                reveal_with_fuel(named_pieces, 2);
                assert(dir =~= Seq::<char>::empty());
                assert(named_pieces(dir) =~= Seq::<Seq<char>>::empty());
                assert(components(path) =~= seq![seq!['/']]);
            } else {
                lemma_head_of_dir(dir, piece);
                assert(components(path) =~= components(dir));
                lemma_prefix_without_last(dir);
                let n = choose|n: int|
                    0 <= n <= dir.len() && components(#[trigger] dir.take(n)) == components(
                        dir,
                    ).drop_last();
                assert(path.take(n) =~= dir.take(n));
            }
        }
    } else {
        if m > 0 {
            assert forall|j: int| 0 <= j < m implies #[trigger] path[j] != '/' by {
                assert(path.contains(path[j]));
            }
            lemma_found_at(path, 0, m, '/');
            assert(path.take(m) =~= path);
            if path[0] == '.' && m == 1 {
                assert(path =~= seq!['.']);
            }
        } else {
            assert(path =~= Seq::<char>::empty());
            lemma_one_piece_of_dot();
        }
    }
}

proof fn lemma_head_of_dir(dir: Seq<char>, piece: Seq<char>)
    requires
        dir.len() > 0,
    ensures
        path_head(dir + seq!['/'] + piece) == path_head(dir),
{
    let whole = dir + seq!['/'] + piece;
    assert(whole[0] == dir[0]);
    if dir.len() > 1 {
        assert(whole[1] == dir[1]);
    } else {
        assert(whole[1] == '/');
    }
}

proof fn lemma_last_slash(path: Seq<char>) -> (k: int)
    requires
        path.contains('/'),
    ensures
        0 <= k < path.len(),
        path[k] == '/',
        !path.skip(k + 1).contains('/'),
    decreases path.len(),
{
    if path.last() == '/' {
        let k = path.len() - 1;
        assert(path.skip(k + 1) =~= Seq::<char>::empty());
        k
    } else {
        let front = path.drop_last();
        let i = choose|i: int| 0 <= i < path.len() && path[i] == '/';
        assert(front[i] == '/');
        let k = lemma_last_slash(front);
        let tail = path.skip(k + 1);
        let front_tail = front.skip(k + 1);
        assert forall|j: int| 0 <= j < tail.len() implies #[trigger] tail[j] != '/' by {
            if j < front_tail.len() {
                assert(tail[j] == front_tail[j]);
                assert(front_tail.contains(front_tail[j]));
            }
        }
        k
    }
}

proof fn lemma_unnamed_adds_nothing(dir: Seq<char>, piece: Seq<char>)
    requires
        !piece.contains('/'),
        !is_named(piece),
    ensures
        named_pieces(dir + seq!['/'] + piece) == named_pieces(dir),
    decreases dir.len(),
{
    let whole = dir + seq!['/'] + piece;
    lemma_slash_in_front(dir, piece, 0);
    let end = find_char(dir, 0, '/');
    assert(whole.take(end) =~= dir.take(end));
    if end < dir.len() {
        assert(whole.skip(end + 1) =~= dir.skip(end + 1) + seq!['/'] + piece);
        lemma_unnamed_adds_nothing(dir.skip(end + 1), piece);
    } else {
        assert(whole.skip(end + 1) =~= piece);
        assert forall|j: int| 0 <= j < piece.len() implies #[trigger] piece[j] != '/' by {
            assert(piece.contains(piece[j]));
        }
        lemma_found_at(piece, 0, piece.len() as int, '/');
        assert(piece.take(piece.len() as int) =~= piece);
        assert(named_pieces(piece) =~= Seq::<Seq<char>>::empty());
    }
    assert(named_pieces(whole) =~= named_pieces(dir));
}

/// A program below the home directory is looked for where a home is known.
pub proof fn law_below_home(home: Seq<char>, name: Seq<char>)
    requires
        home.len() > 0 && home[home.len() - 1] != '/',
        name.len() > 0 && name[0] != '/',
    ensures
        below_home(Some(home), name) == seq![home + seq!['/'] + name],
        below_home(None, name).len() == 0,
{
    law_path_joined(home, name);
}

/// A group id is the id of the pane behind a fixed word, with a hyphen for each
/// character that is no ASCII letter, digit, hyphen or underscore.
pub proof fn law_group_id(pane_id: Seq<char>, i: int)
    requires
        0 <= i < pane_id.len(),
    ensures
        group_id(pane_id) == "herdr-"@ + sanitized(pane_id),
        sanitized(pane_id).len() == pane_id.len(),
        sanitized(pane_id)[i] == (if is_alphanumeric_ascii(pane_id[i]) || pane_id[i] == '-'
            || pane_id[i] == '_' {
            pane_id[i]
        } else {
            '-'
        }),
{
}

/// The state of a pane lies in fixed places of the directory for it.
pub proof fn law_state_paths(dir: Seq<char>, pane_id: Seq<char>)
    requires
        dir.len() > 0 && dir[dir.len() - 1] != '/',
    ensures
        marker_path(dir, pane_id) == dir + "/herdr-"@ + sanitized(pane_id) + ".cleared"@,
        id_path(dir, pane_id) == dir + "/linux-notifications/herdr-"@ + sanitized(pane_id),
        container_path(dir, pane_id) == dir + "/sway-containers/herdr-"@ + sanitized(pane_id),
{
    reveal_strlit("herdr-");
    reveal_strlit("/herdr-");
    reveal_strlit("linux-notifications");
    reveal_strlit("/linux-notifications/herdr-");
    reveal_strlit("sway-containers");
    reveal_strlit("/sway-containers/herdr-");
    let slash = seq!['/'];
    assert("/herdr-"@ =~= slash + "herdr-"@);
    assert("/linux-notifications/herdr-"@ =~= slash + "linux-notifications"@ + slash + "herdr-"@);
    assert("/sway-containers/herdr-"@ =~= slash + "sway-containers"@ + slash + "herdr-"@);
    assert(marker_path(dir, pane_id) =~= dir + "/herdr-"@ + sanitized(pane_id) + ".cleared"@);
    assert(id_path(dir, pane_id) =~= dir + "/linux-notifications/herdr-"@ + sanitized(pane_id));
    assert(container_path(dir, pane_id) =~= dir + "/sway-containers/herdr-"@ + sanitized(pane_id));
}

/// The directory for state is the configured one, or one below the directory
/// for temporary files.
pub proof fn law_state_dir(configured: Seq<char>, temp_dir: Seq<char>)
    requires
        temp_dir.len() > 0 && temp_dir[temp_dir.len() - 1] != '/',
    ensures
        state_dir_path(Some(configured), temp_dir) == configured,
        state_dir_path(None, temp_dir) == temp_dir + seq!['/'] + "herdr-focus-notify"@,
{
    reveal_strlit("herdr-focus-notify");
}

/// A state file holds a value without the white space around it; a blank value
/// is not kept.
pub proof fn law_state_value(before: Seq<char>, value: Seq<char>, after: Seq<char>)
    requires
        is_blank(before) && is_blank(after),
    ensures
        is_tight(value) ==> state_value(before + value + after) == Some(value),
        state_value(before) is None,
{
    if is_tight(value) {
        law_trim(before, value, after);
    }
    law_trim_whole(before);
}

/// The number that decimal digits stand for.
pub open spec fn decimal_value(digits: Seq<char>) -> int
    decreases digits.len(),
{
    if digits.len() == 0 {
        0
    } else {
        10 * decimal_value(digits.drop_last()) + (digits.last() as int - '0' as int)
    }
}

/// A number is written in decimal digits that stand for it, without a leading
/// zero.
pub proof fn law_decimal(n: nat)
    ensures
        decimal_value(decimal(n)) == n,
        decimal(n).len() > 0,
        forall|i: int| 0 <= i < decimal(n).len() ==> '0' <= #[trigger] decimal(n)[i] <= '9',
        decimal(n).len() > 1 ==> decimal(n)[0] != '0',
        n > 0 ==> decimal(n)[0] != '0',
    decreases n,
{
    reveal_with_fuel(decimal_value, 2);
    let digits = decimal(n);
    if n < 10 {
        assert(digits.drop_last() =~= Seq::<char>::empty());
    } else {
        law_decimal(n / 10);
        assert(digits.drop_last() =~= decimal(n / 10));
        assert(digits[0] == decimal(n / 10)[0]);
        assert forall|i: int| 0 <= i < digits.len() implies '0' <= #[trigger] digits[i] <= '9' by {
            if i < decimal(n / 10).len() {
                assert(digits[i] == decimal(n / 10)[i]);
            }
        }
    }
}

/// The number that a hexadecimal digit in a small letter stands for.
pub open spec fn digit_value(c: char) -> int {
    if c <= '9' {
        c as int - '0' as int
    } else {
        c as int - 'a' as int + 10
    }
}

/// The number that hexadecimal digits stand for.
pub open spec fn hexadecimal_value(digits: Seq<char>) -> int
    decreases digits.len(),
{
    if digits.len() == 0 {
        0
    } else {
        16 * hexadecimal_value(digits.drop_last()) + digit_value(digits.last())
    }
}

/// How many numbers so many hexadecimal digits can stand for.
pub open spec fn hexadecimal_range(width: nat) -> int
    decreases width,
{
    if width == 0 {
        1
    } else {
        16 * hexadecimal_range((width - 1) as nat)
    }
}

/// A number that fits is written in so many hexadecimal digits that stand for
/// it, digits and small letters only.
pub proof fn law_hexadecimal(n: nat, width: nat)
    requires
        n < hexadecimal_range(width),
    ensures
        hexadecimal(n, width).len() == width,
        hexadecimal_value(hexadecimal(n, width)) == n,
        forall|i: int|
            0 <= i < width ==> '0' <= #[trigger] hexadecimal(n, width)[i] <= '9' || 'a'
                <= hexadecimal(n, width)[i] <= 'f',
    decreases width,
{
    if width > 0 {
        let less = (width - 1) as nat;
        assert(n / 16 < hexadecimal_range(less));
        law_hexadecimal(n / 16, less);
        let digits = hexadecimal(n, width);
        assert(digits.drop_last() =~= hexadecimal(n / 16, less));
        assert forall|i: int| 0 <= i < width implies '0' <= #[trigger] digits[i] <= '9' || 'a'
            <= digits[i] <= 'f' by {
            if i < less {
                assert(digits[i] == hexadecimal(n / 16, less)[i]);
            }
        }
    }
}

/// Scripts with different hashes go to different files, which are named by the
/// sixteen digits of the hash.
pub proof fn law_script_file_name(a: u64, b: u64)
    ensures
        script_file_name(a) == "focus-"@ + hexadecimal(a as nat, 16) + ".sh"@,
        script_file_name(a) == script_file_name(b) ==> a == b,
{
    reveal_with_fuel(hexadecimal_range, 17);
    law_hexadecimal(a as nat, 16);
    law_hexadecimal(b as nat, 16);
    let n = "focus-"@.len() as int;
    assert(script_file_name(a).subrange(n, n + 16) =~= hexadecimal(a as nat, 16));
    assert(script_file_name(b).subrange(n, n + 16) =~= hexadecimal(b as nat, 16));
}

/// A slash at the end of a path, with or without a dot behind it, makes no
/// difference to its components and its name.
pub proof fn law_slash_at_end(path: Seq<char>)
    requires
        path.len() > 0,
    ensures
        components(path + seq!['/']) == components(path),
        components(path + seq!['/', '.']) == components(path),
        name_of(path + seq!['/']) == name_of(path),
{
    let none = Seq::<char>::empty();
    assert(path + seq!['/'] =~= path + seq!['/'] + none);
    lemma_unnamed_adds_nothing(path, none);
    lemma_head_of_dir(path, none);
    let dot = seq!['.'];
    assert(path + seq!['/', '.'] =~= path + seq!['/'] + dot);
    lemma_unnamed_adds_nothing(path, dot);
    lemma_head_of_dir(path, dot);
}

/// What was read from a state file means what a value to keep means; a file
/// that cannot be read means nothing.
pub proof fn law_state_read(text: Seq<char>)
    ensures
        state_read(Some(text)) == state_value(text),
        state_read(None) is None,
{
}

} // verus!
