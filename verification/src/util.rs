//! Shell words, group ids and numbers in digits.

use vstd::prelude::*;
use vstd::string::StringExecFns;

use crate::text::{is_alphanumeric_ascii, is_ascii_alphanumeric};

verus! {

/// `s` with every single quote closed, escaped and opened again.
pub open spec fn quote_escaped(s: Seq<char>) -> Seq<char>
    decreases s.len(),
{
    if s.len() == 0 {
        seq![]
    } else if s.last() == '\'' {
        quote_escaped(s.drop_last()) + seq!['\'', '\\', '\'', '\'']
    } else {
        quote_escaped(s.drop_last()).push(s.last())
    }
}

/// `s` as one single-quoted word of a POSIX shell.
pub open spec fn quoted(s: Seq<char>) -> Seq<char> {
    seq!['\''] + quote_escaped(s) + seq!['\'']
}

/// `value` as one single-quoted word of a POSIX shell.
pub fn shell_quote(value: &str) -> (r: String)
    ensures
        r@ == quoted(value@),
{
    let mut r = String::new();
    r.push('\'');
    assert(r@ =~= seq!['\''] + quote_escaped(seq![]));
    for c in iter: value.chars()
        invariant
            iter.seq() == value@,
            r@ == seq!['\''] + quote_escaped(value@.take(iter.index() as int)),
    {
        let ghost before = value@.take(iter.index() as int);
        assert(before.push(c).drop_last() =~= before);
        assert(value@.take(iter.index() as int + 1) =~= before.push(c));
        if c == '\'' {
            r.push('\'');
            r.push('\\');
            r.push('\'');
            r.push('\'');
        } else {
            r.push(c);
        }
        assert(r@ =~= seq!['\''] + quote_escaped(before.push(c)));
    }
    assert(value@.take(value@.len() as int) =~= value@);
    r.push('\'');
    assert(r@ =~= quoted(value@));
    r
}

/// What a POSIX shell makes of a word built from single-quoted parts and
/// backslash escapes; `None` where a quote stays open or an unquoted character
/// stands outside of both.
pub open spec fn shell_word(word: Seq<char>, in_quotes: bool) -> Option<Seq<char>>
    decreases word.len(),
{
    if word.len() == 0 {
        if in_quotes {
            None
        } else {
            Some(seq![])
        }
    } else if word[0] == '\'' {
        shell_word(word.skip(1), !in_quotes)
    } else if in_quotes {
        match shell_word(word.skip(1), true) {
            Some(rest) => Some(seq![word[0]] + rest),
            None => None,
        }
    } else if word[0] == '\\' && word.len() > 1 && word[1] != '\n' {
        match shell_word(word.skip(2), false) {
            Some(rest) => Some(seq![word[1]] + rest),
            None => None,
        }
    } else {
        None
    }
}

/// Inside quotes, escaped text is read as the text it stands for, and then the
/// rest of the word follows.
proof fn lemma_escaped_reads_back(s: Seq<char>, rest: Seq<char>)
    ensures
        shell_word(quote_escaped(s) + rest, true) == (match shell_word(rest, true) {
            Some(tail) => Some(s + tail),
            None => None,
        }),
    decreases s.len(),
{
    if s.len() == 0 {
        assert(quote_escaped(s) + rest =~= rest);
        if let Some(tail) = shell_word(rest, true) {
            assert(s + tail =~= tail);
        }
    } else {
        let c = s.last();
        let unit = if c == '\'' {
            seq!['\'', '\\', '\'', '\'']
        } else {
            seq![c]
        };
        assert(quote_escaped(s) =~= quote_escaped(s.drop_last()) + unit);
        assert(quote_escaped(s) + rest =~= quote_escaped(s.drop_last()) + (unit + rest));
        lemma_escaped_reads_back(s.drop_last(), unit + rest);
        if c == '\'' {
            let w1 = (unit + rest).skip(1);
            let w2 = w1.skip(2);
            assert(w2 =~= seq!['\''] + rest);
            assert(w2.skip(1) =~= rest);
            assert(shell_word(w2, false) == shell_word(rest, true));
            assert(shell_word(unit + rest, true) == shell_word(w1, false));
        } else {
            assert((unit + rest).skip(1) =~= rest);
        }
        if let Some(tail) = shell_word(rest, true) {
            assert(s.drop_last() + (seq![c] + tail) =~= s + tail);
        }
    }
}

/// A shell reads a quoted value as one word with exactly that value.
pub proof fn law_shell_quote_reads_back(value: Seq<char>)
    ensures
        shell_word(quoted(value), false) == Some(value),
{
    let closing = seq!['\''];
    assert(quoted(value).skip(1) =~= quote_escaped(value) + closing);
    lemma_escaped_reads_back(value, closing);
    assert(closing.skip(1) =~= Seq::<char>::empty());
    assert(shell_word(closing.skip(1), false) == Some(Seq::<char>::empty()));
    assert(value + Seq::<char>::empty() =~= value);
}

/// Different values make different words.
pub proof fn law_shell_quote_is_injective(a: Seq<char>, b: Seq<char>)
    ensures
        quoted(a) == quoted(b) ==> a == b,
{
    law_shell_quote_reads_back(a);
    law_shell_quote_reads_back(b);
}

/// The character that stands for `c` in a group id: ASCII letters, digits,
/// hyphens and underscores stand for themselves, a hyphen for all others.
pub open spec fn group_char(c: char) -> char {
    if is_alphanumeric_ascii(c) || c == '-' || c == '_' {
        c
    } else {
        '-'
    }
}

/// `value` with a hyphen for each character that a group id may not hold.
pub open spec fn sanitized(value: Seq<char>) -> Seq<char> {
    Seq::new(value.len(), |i: int| group_char(value[i]))
}

/// `value` with a hyphen for each character that a group id may not hold.
pub fn sanitize_group_id(value: &str) -> (r: String)
    ensures
        r@ == sanitized(value@),
{
    let mut r = String::new();
    for c in iter: value.chars()
        invariant
            iter.seq() == value@,
            r@ == sanitized(value@.take(iter.index() as int)),
    {
        if is_ascii_alphanumeric(c) || c == '-' || c == '_' {
            r.push(c);
        } else {
            r.push('-');
        }
        assert(r@ =~= sanitized(value@.take(iter.index() as int + 1)));
    }
    assert(value@.take(value@.len() as int) =~= value@);
    r
}

/// The id under which the notifications of the pane `pane_id` are grouped.
pub open spec fn group_id(pane_id: Seq<char>) -> Seq<char> {
    "herdr-"@ + sanitized(pane_id)
}

/// The id under which the notifications of the pane `pane_id` are grouped.
pub fn notification_group_id(pane_id: &str) -> (r: String)
    ensures
        r@ == group_id(pane_id@),
{
    let mut r = "herdr-".to_owned();
    let id = sanitize_group_id(pane_id);
    r.append(id.as_str());
    r
}

/// `n` in decimal digits, without leading zeros.
pub open spec fn decimal(n: nat) -> Seq<char>
    decreases n,
{
    if n < 10 {
        seq![(48 + n) as char]
    } else {
        decimal(n / 10).push((48 + n % 10) as char)
    }
}

/// `n` in decimal digits.
pub fn decimal_text(n: u64) -> (r: String)
    ensures
        r@ == decimal(n as nat),
    decreases n,
{
    if n < 10 {
        let mut r = String::new();
        r.push((48 + n as u8) as char);
        assert(r@ =~= decimal(n as nat));
        r
    } else {
        let mut r = decimal_text(n / 10);
        r.push((48 + (n % 10) as u8) as char);
        r
    }
}

/// The hexadecimal digit of value `d`.
pub open spec fn hex_digit(d: nat) -> char {
    if d < 10 {
        (48 + d) as char
    } else {
        (87 + d) as char
    }
}

/// The last `width` hexadecimal digits of `n`, in small letters.
pub open spec fn hexadecimal(n: nat, width: nat) -> Seq<char>
    decreases width,
{
    if width == 0 {
        seq![]
    } else {
        hexadecimal(n / 16, (width - 1) as nat).push(hex_digit(n % 16))
    }
}

/// The last `width` hexadecimal digits of `n`, in small letters.
pub fn hexadecimal_text(n: u64, width: usize) -> (r: String)
    ensures
        r@ == hexadecimal(n as nat, width as nat),
    decreases width,
{
    if width == 0 {
        let r = String::new();
        assert(r@ =~= hexadecimal(n as nat, 0));
        return r;
    }
    let mut r = hexadecimal_text(n / 16, width - 1);
    let digit: u8 = (n % 16) as u8;
    if digit < 10 {
        r.push((48 + digit) as char);
    } else {
        r.push((87 + digit) as char);
    }
    r
}

/// A group id holds nothing but ASCII letters, digits, hyphens and
/// underscores, so that it is one plain name in a path.
pub proof fn law_group_id_is_plain(pane_id: Seq<char>)
    ensures
        forall|i: int|
            0 <= i < group_id(pane_id).len() ==> {
                let c = #[trigger] group_id(pane_id)[i];
                is_alphanumeric_ascii(c) || c == '-' || c == '_'
            },
        sanitized(sanitized(pane_id)) == sanitized(pane_id),
{
    reveal_strlit("herdr-");
    assert(sanitized(sanitized(pane_id)) =~= sanitized(pane_id));
}

} // verus!
