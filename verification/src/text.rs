//! Character-level helpers shared by the parsers and the formatters.
//!
//! Text is handled as a sequence of `char`s: a `String` is unpacked once, searched and cut by
//! index, and the pieces are packed into `String`s again.

use vstd::prelude::*;
use vstd::string::*;

verus! {

/// `String::push` appends one character to the end of the string.
pub assume_specification[ String::push ](s: &mut String, c: char)
    ensures
        final(s)@ == old(s)@.push(c),
;

/// The characters of `s`, in order.
pub fn chars_of(s: &str) -> (chars: Vec<char>)
    ensures
        chars@ == s@,
{
    let mut chars: Vec<char> = Vec::new();
    for c in it: s.chars()
        invariant
            it.seq() == s@,
            chars@ == it.seq().take(it.index() as int),
    {
        chars.push(c);
    }
    chars
}

/// The string made of `chars[from..to]`.
pub fn string_of(chars: &Vec<char>, from: usize, to: usize) -> (s: String)
    requires
        from <= to <= chars.len(),
    ensures
        s@ == chars@.subrange(from as int, to as int),
{
    let mut s = String::new();
    let mut i: usize = from;
    while i < to
        invariant
            from <= i <= to <= chars.len(),
            s@ == chars@.subrange(from as int, i as int),
        decreases to - i,
    {
        s.push(chars[i]);
        i += 1;
    }
    s
}

/// Whether two strings hold the same text.
pub fn str_equal(left: &str, right: &str) -> (same: bool)
    ensures
        same == (left@ == right@),
{
    let a = String::from_str(left);
    let b = String::from_str(right);
    a == b
}

/// A copy of a list of strings.
pub fn copy_strings(list: &Vec<String>) -> (copy: Vec<String>)
    ensures
        copy.deep_view() == list.deep_view(),
{
    let mut copy: Vec<String> = Vec::new();
    let mut i: usize = 0;
    while i < list.len()
        invariant
            i <= list.len(),
            copy.deep_view() == list.deep_view().take(i as int),
        decreases list.len() - i,
    {
        let ghost before = copy.deep_view();
        copy.push(list[i].clone());
        assert(copy.deep_view() =~= before.push(list[i as int]@));
        assert(list.deep_view().take(i + 1) =~= before.push(list[i as int]@));
        i += 1;
    }
    assert(list.deep_view().take(i as int) =~= list.deep_view());
    copy
}

/// A copy of a list of byte strings.
pub fn copy_blobs(list: &Vec<Vec<u8>>) -> (copy: Vec<Vec<u8>>)
    ensures
        copy.deep_view() == list.deep_view(),
{
    let mut copy: Vec<Vec<u8>> = Vec::new();
    let mut i: usize = 0;
    while i < list.len()
        invariant
            i <= list.len(),
            copy.deep_view() == list.deep_view().take(i as int),
        decreases list.len() - i,
    {
        let ghost before = copy.deep_view();
        let blob = list[i].clone();
        assert(blob@ =~= list[i as int]@);
        copy.push(blob);
        assert(copy.deep_view() =~~= before.push(list[i as int]@));
        assert(list.deep_view().take(i + 1) =~~= before.push(list[i as int]@));
        i += 1;
    }
    assert(list.deep_view().take(i as int) =~= list.deep_view());
    copy
}

/// The parts in order, with `sep` between each two of them.
pub open spec fn joined(parts: Seq<Seq<char>>, sep: Seq<char>) -> Seq<char>
    decreases parts.len(),
{
    if parts.len() == 0 {
        Seq::empty()
    } else if parts.len() == 1 {
        parts[0]
    } else {
        joined(parts.drop_last(), sep) + sep + parts.last()
    }
}

/// The parts in order, with `sep` between each two of them.
pub fn join(parts: &Vec<String>, sep: &str) -> (text: String)
    ensures
        text@ == joined(parts.deep_view(), sep@),
{
    let mut text = String::new();
    let mut i: usize = 0;
    while i < parts.len()
        invariant
            i <= parts.len(),
            text@ == joined(parts.deep_view().take(i as int), sep@),
        decreases parts.len() - i,
    {
        if i > 0 {
            text.append(sep);
        }
        text.append(parts[i].as_str());
        proof {
            let all = parts.deep_view();
            assert(all.take(i + 1).drop_last() =~= all.take(i as int));
            assert(all.take(i + 1).last() == parts[i as int]@);
        }
        i += 1;
    }
    assert(parts.deep_view().take(i as int) =~= parts.deep_view());
    text
}

/// The fields of `text` between separators: every character of `seps` ends a field and starts
/// the next, so there is always one field more than there are separators in the text.
pub open spec fn split(text: Seq<char>, seps: Seq<char>) -> Seq<Seq<char>>
    decreases text.len(),
{
    if text.len() == 0 {
        seq![Seq::empty()]
    } else {
        let before = split(text.drop_last(), seps);
        if seps.contains(text.last()) {
            before.push(Seq::empty())
        } else {
            before.drop_last().push(before.last().push(text.last()))
        }
    }
}

/// The fields that are not empty, in order.
pub open spec fn without_empty(fields: Seq<Seq<char>>) -> Seq<Seq<char>>
    decreases fields.len(),
{
    if fields.len() == 0 {
        Seq::empty()
    } else if fields.last().len() == 0 {
        without_empty(fields.drop_last())
    } else {
        without_empty(fields.drop_last()).push(fields.last())
    }
}

/// The words of `text`: what stands between runs of spaces and tabs.
pub open spec fn words(text: Seq<char>) -> Seq<Seq<char>> {
    without_empty(split(text, seq![' ', '\t']))
}

/// Whether `c` is one of `set`.
pub fn is_one_of(c: char, set: &Vec<char>) -> (found: bool)
    ensures
        found == set@.contains(c),
{
    let mut i: usize = 0;
    while i < set.len()
        invariant
            i <= set.len(),
            forall|j: int| 0 <= j < i ==> set@[j] != c,
        decreases set.len() - i,
    {
        if set[i] == c {
            return true;
        }
        i += 1;
    }
    false
}

/// The fields of `text` between separators.
pub fn split_fields(text: &Vec<char>, seps: &Vec<char>) -> (fields: Vec<Vec<char>>)
    ensures
        fields.deep_view() == split(text@, seps@),
{
    let mut fields: Vec<Vec<char>> = Vec::new();
    let mut current: Vec<char> = Vec::new();
    let mut i: usize = 0;
    while i < text.len()
        invariant
            i <= text.len(),
            fields.deep_view().push(current@) == split(text@.take(i as int), seps@),
        decreases text.len() - i,
    {
        let c = text[i];
        let ghost before = split(text@.take(i as int), seps@);
        let ghost closed = fields.deep_view();
        let ghost open = current@;
        proof {
            assert(text@.take(i + 1).drop_last() =~= text@.take(i as int));
            assert(text@.take(i + 1).last() == c);
            assert(before.last() == open);
            assert(before.drop_last() =~= closed);
        }
        if is_one_of(c, seps) {
            fields.push(current);
            current = Vec::new();
            assert(fields.deep_view() =~~= closed.push(open));
            assert(fields.deep_view().push(current@) =~= before.push(Seq::empty()));
        } else {
            current.push(c);
            assert(fields.deep_view().push(current@) =~= before.drop_last().push(
                before.last().push(c),
            ));
        }
        i += 1;
    }
    assert(text@.take(i as int) =~= text@);
    let ghost closed = fields.deep_view();
    let ghost open = current@;
    fields.push(current);
    assert(fields.deep_view() =~~= closed.push(open));
    fields
}

/// The words of `text`: what stands between runs of spaces and tabs.
pub fn split_words(text: &Vec<char>) -> (found: Vec<Vec<char>>)
    ensures
        found.deep_view() == words(text@),
{
    let mut blanks: Vec<char> = Vec::new();
    blanks.push(' ');
    blanks.push('\t');
    assert(blanks@ =~= seq![' ', '\t']);
    let mut fields = split_fields(text, &blanks);
    let ghost all = fields.deep_view();
    let mut found: Vec<Vec<char>> = Vec::new();
    let mut i: usize = 0;
    while i < fields.len()
        invariant
            i <= fields.len(),
            fields.deep_view() == all,
            found.deep_view() == without_empty(all.take(i as int)),
        decreases fields.len() - i,
    {
        let ghost kept = found.deep_view();
        proof {
            assert(all.take(i + 1).drop_last() =~= all.take(i as int));
            assert(all.take(i + 1).last() == fields[i as int]@);
        }
        if fields[i].len() > 0 {
            let field = fields[i].clone();
            assert(field@ =~= fields[i as int]@);
            found.push(field);
            assert(found.deep_view() =~= kept.push(fields[i as int]@));
        }
        i += 1;
    }
    assert(all.take(i as int) =~= all);
    found
}

/// Each list of characters as a string.
pub fn strings_of(rows: &Vec<Vec<char>>) -> (strings: Vec<String>)
    ensures
        strings.deep_view() == rows.deep_view(),
{
    let mut strings: Vec<String> = Vec::new();
    let mut i: usize = 0;
    while i < rows.len()
        invariant
            i <= rows.len(),
            strings.deep_view() == rows.deep_view().take(i as int),
        decreases rows.len() - i,
    {
        let ghost before = strings.deep_view();
        let row = &rows[i];
        let text = string_of(row, 0, row.len());
        assert(text@ =~= row@);
        strings.push(text);
        assert(strings.deep_view() =~~= before.push(row@));
        assert(rows.deep_view().take(i + 1) =~~= before.push(row@));
        i += 1;
    }
    assert(rows.deep_view().take(i as int) =~= rows.deep_view());
    strings
}

/// The character of a digit below ten.
pub open spec fn digit_char(digit: int) -> char {
    seq!['0', '1', '2', '3', '4', '5', '6', '7', '8', '9'][digit]
}

/// The digits of `n` in base ten, without leading zeros.
pub open spec fn digits(n: nat) -> Seq<char>
    decreases n,
{
    if n < 10 {
        seq![digit_char(n as int)]
    } else {
        digits(n / 10).push(digit_char((n % 10) as int))
    }
}

/// An integer in base ten, with a minus sign if it is negative.
pub open spec fn decimal(n: int) -> Seq<char> {
    if n < 0 {
        seq!['-'] + digits((-n) as nat)
    } else {
        digits(n as nat)
    }
}

/// The character of a digit below ten.
pub fn digit_to_char(digit: u8) -> (c: char)
    requires
        digit < 10,
    ensures
        c == digit_char(digit as int),
{
    (digit + 48) as char
}

/// The digits of `n` in base ten, without leading zeros.
pub fn digits_of(n: u64) -> (text: String)
    ensures
        text@ == digits(n as nat),
{
    let mut reversed: Vec<char> = Vec::new();
    let mut rest: u64 = n;
    while rest >= 10
        invariant
            digits(n as nat) == digits(rest as nat) + reversed@.reverse(),
        decreases rest,
    {
        let ghost before = reversed@;
        reversed.push(digit_to_char((rest % 10) as u8));
        proof {
            assert(reversed@.reverse() =~= seq![digit_char((rest % 10) as int)]
                + before.reverse());
            assert(digits(rest as nat) == digits((rest / 10) as nat).push(
                digit_char((rest % 10) as int),
            ));
            assert(digits((rest / 10) as nat).push(digit_char((rest % 10) as int))
                + before.reverse() =~= digits((rest / 10) as nat) + reversed@.reverse());
        }
        rest = rest / 10;
    }
    let mut text = String::new();
    text.push(digit_to_char(rest as u8));
    let mut i: usize = reversed.len();
    while i > 0
        invariant
            i <= reversed.len(),
            rest < 10,
            text@ == digits(rest as nat) + reversed@.reverse().take(reversed.len() - i),
        decreases i,
    {
        i -= 1;
        text.push(reversed[i]);
        proof {
            let back = reversed@.reverse();
            assert(back.take(reversed.len() - i) =~= back.take(reversed.len() - i - 1).push(
                reversed@[i as int],
            ));
        }
    }
    assert(reversed@.reverse().take(reversed.len() as int) =~= reversed@.reverse());
    text
}

/// An integer in base ten, with a minus sign if it is negative.
pub fn decimal_of(n: i64) -> (text: String)
    ensures
        text@ == decimal(n as int),
{
    if n < 0 {
        let magnitude: u64 = if n == i64::MIN {
            9223372036854775808u64
        } else {
            (-n) as u64
        };
        let mut text = String::from_str("-");
        proof {
            reveal_strlit("-");
        }
        let tail = digits_of(magnitude);
        text.append(tail.as_str());
        assert("-"@ =~= seq!['-']);
        text
    } else {
        digits_of(n as u64)
    }
}

/// Whether `needle` stands in `hay` at index `at`.
pub open spec fn occurs_at(hay: Seq<char>, needle: Seq<char>, at: int) -> bool {
    &&& 0 <= at
    &&& at + needle.len() <= hay.len()
    &&& hay.subrange(at, at + needle.len()) == needle
}

/// The least index at or after `from` where `needle` stands in `hay`, if there is one.
pub open spec fn find_from(hay: Seq<char>, needle: Seq<char>, from: int) -> Option<int>
    decreases hay.len() - from + 1,
{
    if from < 0 || from + needle.len() > hay.len() {
        None
    } else if occurs_at(hay, needle, from) {
        Some(from)
    } else {
        find_from(hay, needle, from + 1)
    }
}

/// `find_from` gives the first occurrence at or after `from`, and `None` only where there is none.
pub proof fn lemma_find_from(hay: Seq<char>, needle: Seq<char>, from: int)
    requires
        0 <= from,
    ensures
        match find_from(hay, needle, from) {
            Some(at) => {
                &&& from <= at
                &&& occurs_at(hay, needle, at)
                &&& forall|j: int| from <= j < at ==> !occurs_at(hay, needle, j)
            },
            None => forall|j: int| from <= j ==> !occurs_at(hay, needle, j),
        },
    decreases hay.len() - from + 1,
{
    if from + needle.len() > hay.len() {
    } else if occurs_at(hay, needle, from) {
    } else {
        lemma_find_from(hay, needle, from + 1);
    }
}

/// Where `needle` stands at `at` and nowhere from `from` up to `at`, `find_from` gives `at`.
pub proof fn lemma_find_from_is(hay: Seq<char>, needle: Seq<char>, from: int, at: int)
    requires
        0 <= from <= at,
        occurs_at(hay, needle, at),
        forall|j: int| from <= j < at ==> !occurs_at(hay, needle, j),
    ensures
        find_from(hay, needle, from) == Some(at),
{
    lemma_find_from(hay, needle, from);
}

/// Whether `needle` stands in `hay` at index `at`.
pub fn matches_at(hay: &Vec<char>, needle: &Vec<char>, at: usize) -> (found: bool)
    ensures
        found == occurs_at(hay@, needle@, at as int),
{
    if needle.len() > hay.len() || at > hay.len() - needle.len() {
        return false;
    }
    let mut k: usize = 0;
    while k < needle.len()
        invariant
            k <= needle.len(),
            at + needle.len() <= hay.len(),
            forall|j: int| 0 <= j < k ==> hay@[at + j] == needle@[j],
        decreases needle.len() - k,
    {
        if hay[at + k] != needle[k] {
            assert(hay@.subrange(at as int, at + needle.len())[k as int] != needle@[k as int]);
            return false;
        }
        k += 1;
    }
    assert(hay@.subrange(at as int, at + needle.len()) =~= needle@);
    true
}

/// The least index at or after `from` where `needle` stands in `hay`.
pub fn find(hay: &Vec<char>, needle: &Vec<char>, from: usize) -> (found: Option<usize>)
    ensures
        match found {
            Some(at) => find_from(hay@, needle@, from as int) == Some(at as int),
            None => find_from(hay@, needle@, from as int) is None,
        },
{
    let mut at: usize = from;
    while at <= hay.len()
        invariant
            from <= at,
            find_from(hay@, needle@, from as int) == find_from(hay@, needle@, at as int),
        decreases hay.len() + 1 - at,
    {
        if matches_at(hay, needle, at) {
            return Some(at);
        }
        if at == hay.len() {
            assert(find_from(hay@, needle@, at + 1) is None);
            return None;
        }
        at += 1;
    }
    None
}

} // verus!
