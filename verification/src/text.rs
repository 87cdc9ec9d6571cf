//! Strings: searching, splitting and putting together.

use crate::order::same_str;
use vstd::prelude::*;

verus! {

/// The strings of a list, as values.
pub open spec fn texts(list: Seq<String>) -> Seq<Seq<char>> {
    list.map_values(|s: String| s@)
}

/// Where `c` first occurs in `s`.
pub open spec fn first_index(s: Seq<char>, c: char) -> Option<int>
    decreases s.len(),
{
    if s.len() == 0 {
        None
    } else {
        match first_index(s.drop_last(), c) {
            Some(i) => Some(i),
            None => if s.last() == c {
                Some(s.len() - 1)
            } else {
                None
            },
        }
    }
}

/// [`first_index`] is the first occurrence, and there is none where it says so.
pub proof fn lemma_first_index(s: Seq<char>, c: char)
    ensures
        match first_index(s, c) {
            Some(i) => 0 <= i < s.len() && s[i] == c && forall|j: int|
                0 <= j < i ==> s[j] != c,
            None => forall|j: int| 0 <= j < s.len() ==> s[j] != c,
        },
    decreases s.len(),
{
    if s.len() > 0 {
        let shorter = s.drop_last();
        lemma_first_index(shorter, c);
        assert forall|j: int| 0 <= j < shorter.len() implies shorter[j] == s[j] by {}
    }
}

/// Finds where `c` first occurs in `s`.
pub fn find_char(s: &str, c: char) -> (r: Option<usize>)
    ensures
        match r {
            Some(i) => first_index(s@, c) == Some(i as int),
            None => first_index(s@, c) is None,
        },
        r matches Some(i) ==> i < s@.len(),
{
    let n: usize = s.unicode_len();
    let mut i: usize = 0;
    while i < n
        invariant
            n == s@.len(),
            i <= n,
            first_index(s@.take(i as int), c) is None,
        decreases n - i,
    {
        proof {
            assert(s@.take(i + 1).drop_last() =~= s@.take(i as int));
            assert(s@.take(i + 1).last() == s@[i as int]);
        }
        if s.get_char(i) == c {
            proof {
                lemma_first_index_extends(s@, c, i + 1);
            }
            return Some(i);
        }
        i = i + 1;
    }
    proof {
        assert(s@.take(n as int) =~= s@);
    }
    None
}

proof fn lemma_first_index_extends(s: Seq<char>, c: char, n: int)
    requires
        0 <= n <= s.len(),
        first_index(s.take(n), c) is Some,
    ensures
        first_index(s, c) == first_index(s.take(n), c),
    decreases s.len(),
{
    if n == s.len() {
        assert(s.take(n) =~= s);
    } else {
        assert(s.drop_last().take(n) =~= s.take(n));
        lemma_first_index_extends(s.drop_last(), c, n);
    }
}

/// Whether `s` begins with `prefix`.
pub fn begins_with(s: &str, prefix: &str) -> (r: bool)
    ensures
        r == prefix@.is_prefix_of(s@),
{
    let n: usize = prefix.unicode_len();
    if s.unicode_len() < n {
        return false;
    }
    let head = s.substring_char(0, n);
    proof {
        if prefix@.is_prefix_of(s@) {
            assert(s@.subrange(0, n as int) =~= prefix@);
        }
    }
    same_str(head, prefix)
}

/// Whether `s` ends with `suffix`.
pub fn finishes_with(s: &str, suffix: &str) -> (r: bool)
    ensures
        r == suffix@.is_suffix_of(s@),
{
    let n: usize = suffix.unicode_len();
    let m: usize = s.unicode_len();
    if m < n {
        return false;
    }
    let tail = s.substring_char(m - n, m);
    proof {
        if suffix@.is_suffix_of(s@) {
            assert(s@.subrange(m - n, m as int) =~= suffix@);
        }
    }
    same_str(tail, suffix)
}

/// The pieces of `s` between the occurrences of `sep`.
pub open spec fn split(s: Seq<char>, sep: char) -> Seq<Seq<char>>
    decreases s.len(),
{
    if s.len() == 0 {
        seq![Seq::<char>::empty()]
    } else {
        let pieces = split(s.drop_last(), sep);
        if s.last() == sep {
            pieces.push(Seq::empty())
        } else {
            pieces.drop_last().push(pieces.last().push(s.last()))
        }
    }
}

proof fn lemma_split_nonempty(s: Seq<char>, sep: char)
    ensures
        split(s, sep).len() > 0,
    decreases s.len(),
{
    if s.len() > 0 {
        lemma_split_nonempty(s.drop_last(), sep);
    }
}

/// Splits `s` at the occurrences of `sep`.
pub fn split_at_char(s: &str, sep: char) -> (r: Vec<String>)
    ensures
        texts(r@) == split(s@, sep),
        r@.len() > 0,
{
    let n: usize = s.unicode_len();
    let mut pieces: Vec<String> = Vec::new();
    let mut begin: usize = 0;
    let mut i: usize = 0;
    proof {
        assert(s@.take(0) =~= Seq::<char>::empty());
        assert(split(s@.take(0), sep) =~= texts(pieces@).push(s@.subrange(0, 0)));
    }
    while i < n
        invariant
            n == s@.len(),
            begin <= i <= n,
            split(s@.take(i as int), sep) == texts(pieces@).push(
                s@.subrange(begin as int, i as int),
            ),
        decreases n - i,
    {
        proof {
            assert(s@.take(i + 1).drop_last() =~= s@.take(i as int));
            assert(s@.take(i + 1).last() == s@[i as int]);
        }
        let ghost before = texts(pieces@);
        let ghost old_begin = begin;
        if s.get_char(i) == sep {
            let piece = s.substring_char(begin, i).to_owned();
            pieces.push(piece);
            begin = i + 1;
            proof {
                assert(texts(pieces@) =~= before.push(s@.subrange(old_begin as int, i as int)));
                assert(s@.subrange(begin as int, i + 1) =~= Seq::<char>::empty());
            }
        } else {
            proof {
                let so_far = before.push(s@.subrange(begin as int, i as int));
                assert(so_far.drop_last() =~= before);
                assert(s@.subrange(begin as int, i + 1) =~= s@.subrange(
                    begin as int,
                    i as int,
                ).push(s@[i as int]));
            }
        }
        i = i + 1;
    }
    let ghost before = texts(pieces@);
    let piece = s.substring_char(begin, n).to_owned();
    pieces.push(piece);
    proof {
        assert(s@.take(n as int) =~= s@);
        assert(texts(pieces@) =~= before.push(s@.subrange(begin as int, n as int)));
    }
    pieces
}

/// The texts of `list`, one after the other, with `sep` between them.
pub open spec fn joined(list: Seq<Seq<char>>, sep: Seq<char>) -> Seq<char>
    decreases list.len(),
{
    if list.len() == 0 {
        Seq::empty()
    } else if list.len() == 1 {
        list[0]
    } else {
        joined(list.drop_last(), sep) + sep + list.last()
    }
}

/// Puts the strings together, with `sep` between them.
pub fn join(list: &Vec<String>, sep: &str) -> (r: String)
    ensures
        r@ == joined(texts(list@), sep@),
{
    let mut out = String::new();
    let mut i: usize = 0;
    while i < list.len()
        invariant
            i <= list@.len(),
            out@ == joined(texts(list@).take(i as int), sep@),
        decreases list@.len() - i,
    {
        proof {
            let so_far = texts(list@).take(i + 1);
            assert(so_far.drop_last() =~= texts(list@).take(i as int));
            assert(so_far.last() == list@[i as int]@);
        }
        if i > 0 {
            out.append(sep);
        }
        out.append(list[i].as_str());
        proof {
            if i == 0 {
                assert(out@ =~= list@[0]@);
            }
        }
        i = i + 1;
    }
    proof {
        assert(texts(list@).take(i as int) =~= texts(list@));
    }
    out
}

/// The character is an ASCII one.
pub open spec fn is_ascii_char(c: char) -> bool {
    c as u32 <= 0x7f
}

/// The small letter of a capital ASCII letter; other characters are left.
pub open spec fn ascii_lower(c: char) -> char {
    if 'A' <= c <= 'Z' {
        ((c as u32) + 32) as char
    } else {
        c
    }
}

/// What `str::to_lowercase` makes of a text.
pub uninterp spec fn lowercased(s: Seq<char>) -> Seq<char>;

/// The text holds ASCII characters alone.
pub open spec fn is_ascii_text(s: Seq<char>) -> bool {
    forall|i: int| 0 <= i < s.len() ==> is_ascii_char(#[trigger] s[i])
}

/// The text in small letters.
pub open spec fn lowercase(s: Seq<char>) -> Seq<char> {
    if is_ascii_text(s) {
        s.map_values(|c: char| ascii_lower(c))
    } else {
        lowercased(s)
    }
}

/// `str::to_lowercase`: the text in small letters, as Unicode defines them. It depends on the
/// text alone. Of an ASCII text, each capital letter becomes its small letter, and nothing
/// else changes.
#[verifier::external_body]
pub(crate) fn to_lower(s: &str) -> (r: String)
    ensures
        r@ == lowercased(s@),
        is_ascii_text(s@) ==> r@ == s@.map_values(|c: char| ascii_lower(c)),
{
    s.to_lowercase()
}

/// What `Debug` makes of a text: it stands in quotes, with what is special in it escaped.
pub uninterp spec fn quoted(s: Seq<char>) -> Seq<char>;

/// `<str as Debug>::fmt`, through `format!`: the text in quotes, for a message. It depends on
/// the text alone.
#[verifier::external_body]
pub(crate) fn quote(s: &str) -> (r: String)
    ensures
        r@ == quoted(s@),
{
    format!("{s:?}")
}

/// The strings in quotes and brackets, with commas between them.
pub open spec fn quoted_list(list: Seq<Seq<char>>) -> Seq<char> {
    "["@ + joined(list.map_values(|s: Seq<char>| quoted(s)), ", "@) + "]"@
}

/// Writes a list of strings out, for a message.
pub fn quote_list(list: &Vec<String>) -> (r: String)
    ensures
        r@ == quoted_list(texts(list@)),
{
    let mut names: Vec<String> = Vec::new();
    let ghost all = texts(list@).map_values(|s: Seq<char>| quoted(s));
    let mut i: usize = 0;
    while i < list.len()
        invariant
            i <= list@.len(),
            all == texts(list@).map_values(|s: Seq<char>| quoted(s)),
            texts(names@) == all.take(i as int),
        decreases list@.len() - i,
    {
        let ghost before = texts(names@);
        let item = quote(list[i].as_str());
        names.push(item);
        proof {
            assert(all[i as int] == quoted(texts(list@)[i as int]));
            assert(texts(names@) =~= before.push(item@));
            assert(all.take(i + 1) =~= all.take(i as int).push(item@));
        }
        i = i + 1;
    }
    assert(all.take(i as int) =~= all);
    let items = join(&names, ", ");
    let open = glue("[", items.as_str());
    glue(open.as_str(), "]")
}

/// The same texts again.
pub fn copy_texts(list: &Vec<String>) -> (r: Vec<String>)
    ensures
        r@ == list@,
{
    let mut out: Vec<String> = Vec::new();
    let mut i: usize = 0;
    while i < list.len()
        invariant
            i <= list@.len(),
            out@ == list@.take(i as int),
        decreases list@.len() - i,
    {
        out.push(list[i].clone());
        proof {
            assert(list@.take(i + 1) =~= list@.take(i as int).push(list@[i as int]));
        }
        i = i + 1;
    }
    assert(out@ =~= list@);
    out
}

/// Puts two strings together.
pub fn glue(a: &str, b: &str) -> (r: String)
    ensures
        r@ == a@ + b@,
{
    a.to_owned().concat(b)
}

/// The text of a digit.
pub open spec fn digit(d: nat) -> &'static str {
    if d == 0 {
        "0"
    } else if d == 1 {
        "1"
    } else if d == 2 {
        "2"
    } else if d == 3 {
        "3"
    } else if d == 4 {
        "4"
    } else if d == 5 {
        "5"
    } else if d == 6 {
        "6"
    } else if d == 7 {
        "7"
    } else if d == 8 {
        "8"
    } else {
        "9"
    }
}

/// The decimal text of a number.
pub open spec fn decimal(n: nat) -> Seq<char>
    decreases n,
{
    if n < 10 {
        digit(n)@
    } else {
        decimal(n / 10) + digit(n % 10)@
    }
}

fn digit_text(d: u64) -> (r: &'static str)
    requires
        d < 10,
    ensures
        r == digit(d as nat),
{
    if d == 0 {
        "0"
    } else if d == 1 {
        "1"
    } else if d == 2 {
        "2"
    } else if d == 3 {
        "3"
    } else if d == 4 {
        "4"
    } else if d == 5 {
        "5"
    } else if d == 6 {
        "6"
    } else if d == 7 {
        "7"
    } else if d == 8 {
        "8"
    } else {
        "9"
    }
}

/// The decimal text of a number.
pub fn decimal_text(n: u64) -> (r: String)
    ensures
        r@ == decimal(n as nat),
    decreases n,
{
    if n < 10 {
        digit_text(n).to_owned()
    } else {
        let front = decimal_text(n / 10);
        glue(front.as_str(), digit_text(n % 10))
    }
}

/// `s` with `to` in place of every `from`.
pub open spec fn replaced(s: Seq<char>, from: char, to: char) -> Seq<char> {
    s.map_values(
        |c: char|
            if c == from {
                to
            } else {
                c
            },
    )
}

proof fn lemma_replaced(s: Seq<char>, from: char, to: char)
    ensures
        joined(split(s, from), seq![to]) == replaced(s, from, to),
    decreases s.len(),
{
    let pieces = split(s, from);
    if s.len() == 0 {
        assert(joined(pieces, seq![to]) =~= replaced(s, from, to));
    } else {
        let shorter = s.drop_last();
        let before = split(shorter, from);
        lemma_split_nonempty(shorter, from);
        lemma_replaced(shorter, from, to);
        let wanted = replaced(s, from, to);
        if s.last() == from {
            assert(pieces.drop_last() =~= before);
            assert(joined(before, seq![to]) + seq![to] + Seq::<char>::empty() =~= wanted);
        } else {
            assert(pieces.drop_last() =~= before.drop_last());
            if before.len() == 1 {
                assert(joined(before, seq![to]) == before[0]);
                assert(pieces[0] =~= before.last().push(s.last()));
                assert(pieces[0] =~= wanted);
            } else {
                assert(joined(pieces, seq![to]) =~= joined(before, seq![to]).push(s.last()));
                assert(joined(before, seq![to]).push(s.last()) =~= wanted);
            }
        }
    }
}

/// Puts `to` in place of every `from` in `s`. `to` is one character.
pub fn replace_char(s: &str, from: char, to: &str) -> (r: String)
    requires
        to@.len() == 1,
    ensures
        r@ == replaced(s@, from, to@[0]),
{
    let pieces = split_at_char(s, from);
    proof {
        lemma_replaced(s@, from, to@[0]);
        assert(to@ =~= seq![to@[0]]);
    }
    join(&pieces, to)
}

/// Splitting joined texts gives them back, as long as none holds the separator.
pub proof fn lemma_split_joined(list: Seq<Seq<char>>, sep: char)
    requires
        list.len() > 0,
        forall|i: int| 0 <= i < list.len() ==> !(#[trigger] list[i]).contains(sep),
    ensures
        split(joined(list, seq![sep]), sep) == list,
    decreases list.len(),
{
    let last = list.last();
    assert(!list[list.len() - 1].contains(sep));
    if list.len() == 1 {
        lemma_split_appended(Seq::empty(), last, sep);
        assert(Seq::<char>::empty() + last =~= last);
        let base = split(Seq::<char>::empty(), sep);
        assert(base.drop_last().push(base.last() + last) =~= list);
    } else {
        let rest = list.drop_last();
        assert forall|i: int| 0 <= i < rest.len() implies !(#[trigger] rest[i]).contains(sep) by {
            assert(rest[i] == list[i]);
        }
        lemma_split_joined(rest, sep);
        let head = joined(rest, seq![sep]) + seq![sep];
        assert(head.drop_last() =~= joined(rest, seq![sep]));
        assert(split(head, sep) =~= rest.push(Seq::empty()));
        lemma_split_appended(head, last, sep);
        assert(split(head, sep).drop_last().push(split(head, sep).last() + last) =~= list);
    }
}

proof fn lemma_split_appended(head: Seq<char>, tail: Seq<char>, sep: char)
    requires
        !tail.contains(sep),
    ensures
        split(head + tail, sep) == split(head, sep).drop_last().push(
            split(head, sep).last() + tail,
        ),
    decreases tail.len(),
{
    lemma_split_nonempty(head, sep);
    let pieces = split(head, sep);
    if tail.len() == 0 {
        assert(head + tail =~= head);
        assert(pieces.last() + tail =~= pieces.last());
        assert(pieces.drop_last().push(pieces.last()) =~= pieces);
    } else {
        let shorter = tail.drop_last();
        assert forall|c: char| shorter.contains(c) implies tail.contains(c) by {
            let i = choose|i: int| 0 <= i < shorter.len() && shorter[i] == c;
            assert(tail[i] == c);
        }
        lemma_split_appended(head, shorter, sep);
        assert((head + tail).drop_last() =~= head + shorter);
        assert(tail.contains(tail.last())) by {
            assert(tail[tail.len() - 1] == tail.last());
        }
        let so_far = pieces.drop_last().push(pieces.last() + shorter);
        assert(so_far.drop_last() =~= pieces.drop_last());
        assert((pieces.last() + shorter).push(tail.last()) =~= pieces.last() + tail);
    }
}

/// The character is white space, in the sense of Unicode.
pub open spec fn is_white(c: char) -> bool {
    ||| '\u{9}' <= c <= '\u{d}'
    ||| '\u{2000}' <= c <= '\u{200a}'
    ||| c == ' ' || c == '\u{85}' || c == '\u{a0}' || c == '\u{1680}'
    ||| c == '\u{2028}' || c == '\u{2029}' || c == '\u{202f}' || c == '\u{205f}' || c
        == '\u{3000}'
}

fn is_white_char(c: char) -> (r: bool)
    ensures
        r == is_white(c),
{
    ('\u{9}' <= c && c <= '\u{d}') || ('\u{2000}' <= c && c <= '\u{200a}') || c == ' ' || c
        == '\u{85}' || c == '\u{a0}' || c == '\u{1680}' || c == '\u{2028}' || c == '\u{2029}' || c
        == '\u{202f}' || c == '\u{205f}' || c == '\u{3000}'
}

/// The text without the white space at its ends.
pub open spec fn trimmed(s: Seq<char>) -> Seq<char>
    decreases s.len(),
{
    if s.len() == 0 {
        s
    } else if is_white(s[0]) {
        trimmed(s.drop_first())
    } else if is_white(s.last()) {
        trimmed(s.drop_last())
    } else {
        s
    }
}

/// Takes the white space off the ends of a text.
pub fn trim(s: &str) -> (r: &str)
    ensures
        r@ == trimmed(s@),
{
    let n: usize = s.unicode_len();
    let mut begin: usize = 0;
    let mut end: usize = n;
    proof {
        assert(s@.subrange(0, n as int) =~= s@);
    }
    while begin < end && is_white_char(s.get_char(begin))
        invariant
            n == s@.len(),
            end == n,
            begin <= end,
            trimmed(s@.subrange(begin as int, end as int)) == trimmed(s@),
        decreases end - begin,
    {
        proof {
            assert(s@.subrange(begin as int, end as int).drop_first() =~= s@.subrange(
                begin + 1,
                end as int,
            ));
        }
        begin = begin + 1;
    }
    while begin < end && is_white_char(s.get_char(end - 1))
        invariant
            n == s@.len(),
            begin <= end <= n,
            begin < end ==> !is_white(s@[begin as int]),
            trimmed(s@.subrange(begin as int, end as int)) == trimmed(s@),
        decreases end - begin,
    {
        proof {
            assert(s@.subrange(begin as int, end as int).drop_last() =~= s@.subrange(
                begin as int,
                end - 1,
            ));
        }
        end = end - 1;
    }
    s.substring_char(begin, end)
}

/// The index that is found is that of the first such character, and there is none exactly if
/// there is no such character.
pub proof fn law_first_index(s: Seq<char>, c: char)
    ensures
        match first_index(s, c) {
            Some(i) => 0 <= i < s.len() && s[i] == c && !s.take(i).contains(c),
            None => !s.contains(c),
        },
{
    lemma_first_index(s, c);
}

/// Splitting a text gives pieces without the separator, which joined by it give the text again.
pub proof fn law_split(s: Seq<char>, sep: char, i: int)
    ensures
        split(s, sep).len() > 0,
        0 <= i < split(s, sep).len() ==> !split(s, sep)[i].contains(sep),
        joined(split(s, sep), seq![sep]) == s,
    decreases s.len(),
{
    lemma_split_nonempty(s, sep);
    if s.len() > 0 {
        let before = s.drop_last();
        lemma_split_nonempty(before, sep);
        let pieces = split(before, sep);
        law_split(before, sep, i);
        law_split(before, sep, pieces.len() - 1);
        if s.last() == sep {
            assert(split(s, sep).drop_last() =~= pieces);
            assert(joined(pieces, seq![sep]) + seq![sep] + Seq::<char>::empty() =~= s);
        } else {
            let after = split(s, sep);
            let last = pieces.last().push(s.last());
            assert(after.last() == last);
            assert(!last.contains(sep)) by {
                if last.contains(sep) {
                    let k = choose|k: int| 0 <= k < last.len() && last[k] == sep;
                    assert(pieces.last()[k] == sep);
                }
            }
            assert(after.drop_last() =~= pieces.drop_last());
            if pieces.len() == 1 {
                assert(pieces[0] == before);
                assert(after[0] =~= s);
            } else {
                assert(joined(pieces.drop_last(), seq![sep]) + seq![sep] + last =~= (joined(
                    pieces.drop_last(),
                    seq![sep],
                ) + seq![sep] + pieces.last()).push(s.last()));
                assert(before.push(s.last()) =~= s);
            }
        }
    }
}

/// Joining puts the separator between the pieces, and only there.
pub proof fn law_joined(list: Seq<Seq<char>>, sep: Seq<char>, last: Seq<char>)
    ensures
        joined(Seq::empty(), sep) == Seq::<char>::empty(),
        joined(seq![last], sep) == last,
        list.len() > 0 ==> joined(list.push(last), sep) == joined(list, sep) + sep + last,
{
    assert(list.push(last).drop_last() =~= list);
}

/// A number in words: one digit is itself, and a longer number is its tens and then its ones.
pub proof fn law_decimal(n: nat, d: nat)
    requires
        d < 10,
    ensures
        digit(d)@.len() == 1,
        digit(d)@[0] as u32 == '0' as u32 + d,
        decimal(d) == digit(d)@,
        n > 0 ==> decimal(10 * n + d) == decimal(n) + digit(d)@,
{
    reveal_strlit("0");
    reveal_strlit("1");
    reveal_strlit("2");
    reveal_strlit("3");
    reveal_strlit("4");
    reveal_strlit("5");
    reveal_strlit("6");
    reveal_strlit("7");
    reveal_strlit("8");
    reveal_strlit("9");
    if n > 0 {
        assert((10 * n + d) / 10 == n);
        assert((10 * n + d) % 10 == d);
    }
}

/// Replacing a character, and lowering an ASCII text, changes each character by itself: those
/// that are meant, and no other.
pub proof fn law_characters_change_one_by_one(s: Seq<char>, from: char, to: char, i: int)
    requires
        0 <= i < s.len(),
    ensures
        replaced(s, from, to).len() == s.len(),
        s[i] == from ==> replaced(s, from, to)[i] == to,
        s[i] != from ==> replaced(s, from, to)[i] == s[i],
        is_ascii_text(s) ==> {
            &&& lowercase(s).len() == s.len()
            &&& 'A' <= s[i] <= 'Z' ==> lowercase(s)[i] as u32 == s[i] as u32 + 32
            &&& !('A' <= s[i] <= 'Z') ==> lowercase(s)[i] == s[i]
        },
        !is_ascii_text(s) ==> lowercase(s) == lowercased(s),
        is_ascii_text(s) ==> s[i] as u32 <= 127,
{
}

/// White space is what is at most a blank and at least a tab in the controls, the blank itself,
/// and the separators of other scripts.
pub proof fn law_white_space(c: char)
    ensures
        is_white(c) <==> {
            let code = c as u32;
            ||| 9 <= code <= 13
            ||| code == 0x20 || code == 0x85 || code == 0xa0 || code == 0x1680
            ||| 0x2000 <= code <= 0x200a
            ||| code == 0x2028 || code == 0x2029 || code == 0x202f || code == 0x205f || code
                == 0x3000
        },
{
}

/// What is trimmed has no white space at its ends, and trimming it again changes nothing.
#[verifier::spinoff_prover]
pub proof fn law_trimmed(s: Seq<char>)
    ensures
        trimmed(s).len() > 0 ==> !is_white(trimmed(s)[0]) && !is_white(trimmed(s).last()),
        trimmed(trimmed(s)) == trimmed(s),
    decreases s.len(),
{
    if s.len() > 0 {
        if is_white(s[0]) {
            law_trimmed(s.drop_first());
        } else if is_white(s.last()) {
            law_trimmed(s.drop_last());
        }
    }
}

/// Trimming takes nothing but white space away, and only from the ends: more of it there changes
/// nothing, and a text without it there stays as it is.
#[verifier::spinoff_prover]
pub proof fn law_only_white_space_is_trimmed(s: Seq<char>, c: char)
    ensures
        is_white(c) ==> trimmed(seq![c] + s) == trimmed(s),
        is_white(c) ==> trimmed(s.push(c)) == trimmed(s),
        s.len() > 0 && !is_white(s[0]) && !is_white(s.last()) ==> trimmed(s) == s,
    decreases s.len(),
{
    assert((seq![c] + s).drop_first() =~= s);
    if is_white(c) {
        let longer = s.push(c);
        if s.len() == 0 {
            assert(longer.drop_first() =~= s);
        } else if is_white(s[0]) {
            assert(longer.drop_first() =~= s.drop_first().push(c));
            law_only_white_space_is_trimmed(s.drop_first(), c);
        } else {
            assert(longer.drop_last() =~= s);
        }
    }
}

/// A list in words stands in brackets, each item quoted, with commas between them.
pub proof fn law_quoted_list(list: Seq<Seq<char>>, last: Seq<char>)
    ensures
        quoted_list(seq![last]) == "["@ + quoted(last) + "]"@,
        list.len() > 0 ==> quoted_list(list.push(last)) == "["@ + (joined(
            list.map_values(|s: Seq<char>| quoted(s)),
            ", "@,
        ) + ", "@ + quoted(last)) + "]"@,
{
    let words = |s: Seq<char>| quoted(s);
    assert(seq![last].map_values(words) =~= seq![quoted(last)]);
    assert(list.push(last).map_values(words) =~= list.map_values(words).push(quoted(last)));
    law_joined(list.map_values(words), ", "@, quoted(last));
}

} // verus!
