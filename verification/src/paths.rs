//! POSIX paths as text: their components, file names, parents and joins.

use vstd::prelude::*;
use vstd::string::{StrSliceExecFns, StringExecFns};

use crate::text::{
    find_char, from_chars, index_of_char, lemma_find_char_shift, same_text, to_chars,
};

verus! {

/// A piece between two slashes names something: it is neither empty nor a
/// single dot.
pub open spec fn is_named(piece: Seq<char>) -> bool {
    piece.len() > 0 && piece != seq!['.']
}

/// The pieces of `path` between its slashes that name something.
pub open spec fn named_pieces(path: Seq<char>) -> Seq<Seq<char>>
    decreases path.len(),
{
    let end = find_char(path, 0, '/');
    let piece = path.take(end);
    let first = if is_named(piece) {
        seq![piece]
    } else {
        seq![]
    };
    if 0 <= end < path.len() {
        first + named_pieces(path.skip(end + 1))
    } else {
        first
    }
}

/// What a path begins with: the root, the current directory where it is
/// written out, or neither.
pub open spec fn path_head(path: Seq<char>) -> Seq<Seq<char>> {
    if path.len() > 0 && path[0] == '/' {
        seq![seq!['/']]
    } else if path.len() > 0 && path[0] == '.' && (path.len() == 1 || path[1] == '/') {
        seq![seq!['.']]
    } else {
        seq![]
    }
}

/// The components of a path. Repeated slashes, a slash at the end, and dots
/// that stand for the directory they are in make no difference.
pub open spec fn components(path: Seq<char>) -> Seq<Seq<char>> {
    path_head(path) + named_pieces(path)
}

/// The components of `path`.
pub fn path_components(path: &str) -> (r: Vec<String>)
    ensures
        r.deep_view() == components(path@),
{
    let chars = to_chars(path);
    let n: usize = chars.len();
    let mut r: Vec<String> = Vec::new();
    if n > 0 && (chars[0] == '/' || (chars[0] == '.' && (n == 1 || chars[1] == '/'))) {
        r.push(from_chars(&chars, 0, 1));
        assert(r@[0]@ =~= seq![path@[0]]);
    }
    assert(r.deep_view() =~= path_head(path@));
    let mut i: usize = 0;
    assert(path@.skip(0) =~= path@);
    loop
        invariant
            i <= n,
            n == chars@.len(),
            chars@ == path@,
            r.deep_view() + named_pieces(path@.skip(i as int)) == components(path@),
        decreases n - i,
    {
        let ghost before = r.deep_view();
        let ghost rest = path@.skip(i as int);
        let end = index_of_char(&chars, i, '/');
        proof {
            lemma_find_char_shift(path@, i as int, 0, '/');
        }
        let piece = from_chars(&chars, i, end);
        assert(piece@ =~= rest.take(end - i));
        let named = end > i && !(end == i + 1 && chars[i] == '.');
        proof {
            if piece@ =~= seq!['.'] {
                assert(piece@[0] == chars@[i as int]);
            } else if end == i + 1 {
                assert(piece@[0] == chars@[i as int]);
            }
            assert(named == is_named(piece@));
        }
        if named {
            r.push(piece);
            assert(r.deep_view() =~= before + seq![piece@]);
        }
        if end == n {
            assert(r.deep_view() =~= before + named_pieces(rest));
            return r;
        }
        assert(rest.skip(end - i + 1) =~= path@.skip(end + 1));
        i = end + 1;
        assert(r.deep_view() + named_pieces(path@.skip(i as int)) =~= before + named_pieces(rest));
    }
}

/// The last component of a path, where it names something: the root, the
/// current and the parent directory have no name.
pub open spec fn name_of(path: Seq<char>) -> Option<Seq<char>> {
    let parts = components(path);
    if parts.len() > 0 && parts.last() != seq!['/'] && parts.last() != seq!['.'] && parts.last()
        != seq!['.', '.'] {
        Some(parts.last())
    } else {
        None
    }
}

/// Is `part` the root, the current or the parent directory?
fn is_unnamed(part: &str) -> (r: bool)
    ensures
        r == (part@ == seq!['/'] || part@ == seq!['.'] || part@ == seq!['.', '.']),
{
    let chars = to_chars(part);
    if chars.len() == 1 && (chars[0] == '/' || chars[0] == '.') {
        assert(part@ =~= seq![chars@[0]]);
        return true;
    }
    if chars.len() == 2 && chars[0] == '.' && chars[1] == '.' {
        assert(part@ =~= seq!['.', '.']);
        return true;
    }
    proof {
        if part@ == seq!['/'] {
            assert(chars@[0] == '/');
        }
        if part@ == seq!['.'] {
            assert(chars@[0] == '.');
        }
        if part@ == seq!['.', '.'] {
            assert(chars@[0] == '.' && chars@[1] == '.');
        }
    }
    false
}

/// The name of the file that `path` leads to.
pub fn file_name(path: &str) -> (r: Option<String>)
    ensures
        r.deep_view() == name_of(path@),
{
    let mut parts = path_components(path);
    let ghost all = parts.deep_view();
    match parts.pop() {
        Some(last) => {
            assert(last@ == all.last());
            if is_unnamed(last.as_str()) {
                None
            } else {
                Some(last)
            }
        },
        None => None,
    }
}

/// `name` seen from the directory `dir`: an absolute name stands alone.
pub open spec fn path_joined(dir: Seq<char>, name: Seq<char>) -> Seq<char> {
    if name.len() > 0 && name[0] == '/' {
        name
    } else if dir.len() == 0 || dir.last() == '/' {
        dir + name
    } else {
        dir + seq!['/'] + name
    }
}

/// `name` seen from the directory `dir`.
pub fn join_path(dir: &str, name: &str) -> (r: String)
    ensures
        r@ == path_joined(dir@, name@),
{
    let name_len = name.unicode_len();
    if name_len > 0 && name.get_char(0) == '/' {
        return name.to_owned();
    }
    let mut r = dir.to_owned();
    let dir_len = dir.unicode_len();
    if dir_len > 0 && dir.get_char(dir_len - 1) != '/' {
        r.push('/');
        assert(r@ =~= dir@ + seq!['/']);
    }
    r.append(name);
    r
}

/// The shortest prefix of `path`, of at least `len` characters, that has the
/// components `parts`.
pub open spec fn shortest_prefix(path: Seq<char>, len: int, parts: Seq<Seq<char>>) -> Option<
    Seq<char>,
>
    decreases path.len() + 1 - len,
{
    if len > path.len() {
        None
    } else if components(path.take(len)) == parts {
        Some(path.take(len))
    } else {
        shortest_prefix(path, len + 1, parts)
    }
}

/// The directory that holds what `path` leads to, as it is written in `path`;
/// the root and the empty path have none.
pub open spec fn parent_of(path: Seq<char>) -> Option<Seq<char>> {
    let parts = components(path);
    if parts.len() == 0 || parts.last() == seq!['/'] {
        None
    } else {
        shortest_prefix(path, 0, parts.drop_last())
    }
}

/// Do the two lists hold the same texts in the same order?
fn same_list(a: &Vec<String>, b: &Vec<String>) -> (r: bool)
    ensures
        r == (a.deep_view() == b.deep_view()),
{
    if a.len() != b.len() {
        assert(a.deep_view().len() != b.deep_view().len());
        return false;
    }
    let mut i: usize = 0;
    while i < a.len()
        invariant
            i <= a@.len() == b@.len(),
            forall|j: int| 0 <= j < i ==> #[trigger] a@[j]@ == b@[j]@,
        decreases a@.len() - i,
    {
        if !same_text(a[i].as_str(), b[i].as_str()) {
            assert(a.deep_view()[i as int] != b.deep_view()[i as int]);
            return false;
        }
        i = i + 1;
    }
    assert(a.deep_view() =~= b.deep_view());
    true
}

/// The directory that holds what `path` leads to.
pub fn parent(path: &str) -> (r: Option<String>)
    ensures
        r.deep_view() == parent_of(path@),
{
    let mut parts = path_components(path);
    let ghost all = parts.deep_view();
    match parts.pop() {
        Some(last) => {
            assert(last@ == all.last());
            assert(parts.deep_view() =~= all.drop_last());
            let chars = to_chars(last.as_str());
            if chars.len() == 1 && chars[0] == '/' {
                assert(last@ =~= seq!['/']);
                return None;
            }
            proof {
                if last@ == seq!['/'] {
                    assert(chars@[0] == '/');
                }
            }
        },
        None => {
            return None;
        },
    }
    let n: usize = path.unicode_len();
    let mut len: usize = 0;
    loop
        invariant
            len <= n == path@.len(),
            parent_of(path@) == shortest_prefix(path@, len as int, parts.deep_view()),
        decreases n - len,
    {
        let prefix = path.substring_char(0, len);
        assert(prefix@ =~= path@.take(len as int));
        let prefix_parts = path_components(prefix);
        if same_list(&prefix_parts, &parts) {
            return Some(prefix.to_owned());
        }
        if len == n {
            assert(shortest_prefix(path@, n + 1, parts.deep_view()) is None);
            return None;
        }
        len = len + 1;
    }
}

} // verus!
