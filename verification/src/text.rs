//! Strings as sequences of characters: comparing, splitting, trimming, joining
//! and changing case.

use vstd::prelude::*;
use vstd::string::*;
use vstd::utf8::*;

verus! {

/// The lowercase form of a string that holds a character outside ASCII, as
/// `str::to_lowercase` gives it.
pub uninterp spec fn unicode_lowercase(s: Seq<char>) -> Seq<char>;

/// The lowercase of an ASCII character; every other character stands for itself.
pub open spec fn ascii_lowercase(c: char) -> char {
    if 'A' <= c <= 'Z' {
        ((c as u32) + 32) as char
    } else {
        c
    }
}

/// The uppercase of an ASCII character; every other character stands for itself.
pub open spec fn ascii_uppercase(c: char) -> char {
    if 'a' <= c <= 'z' {
        ((c as u32) - 32) as char
    } else {
        c
    }
}

/// The lowercase form of a string.
pub open spec fn lowercase(s: Seq<char>) -> Seq<char> {
    if is_ascii_chars(s) {
        s.map_values(|c: char| ascii_lowercase(c))
    } else {
        unicode_lowercase(s)
    }
}

/// `str::to_lowercase` maps the letters 'A' to 'Z' of an ASCII string to 'a' to
/// 'z' and keeps its other characters. What it gives for any other string
/// follows the Unicode tables and depends on the string alone. Which strings with
/// characters outside ASCII have one lowercase form is left unsaid, also of those
/// that differ in the case of ASCII letters alone.
pub assume_specification[ str::to_lowercase ](s: &str) -> (lower: String)
    ensures
        lower@ == (if is_ascii_chars(s@) {
            s@.map_values(|c: char| ascii_lowercase(c))
        } else {
            unicode_lowercase(s@)
        }),
;

/// `str::to_ascii_uppercase` maps the letters 'a' to 'z' to 'A' to 'Z' and keeps
/// every other character.
pub assume_specification[ str::to_ascii_uppercase ](s: &str) -> (upper: String)
    ensures
        upper@ == s@.map_values(|c: char| ascii_uppercase(c)),
;

/// `String::from_utf8` gives the text that bytes are the UTF-8 form of, and an
/// error exactly where they are not the UTF-8 form of a text.
#[verifier::external_body]
pub(crate) fn text_from_utf8(bytes: Vec<u8>) -> (text: Option<String>)
    ensures
        match text {
            Some(t) => valid_utf8(bytes@) && t@ == decode_utf8(bytes@),
            None => !valid_utf8(bytes@),
        },
{
    String::from_utf8(bytes).ok()
}

/// The characters of a string.
pub fn chars_of(s: &str) -> (chars: Vec<char>)
    ensures
        chars@ == s@,
{
    let mut chars: Vec<char> = Vec::new();
    for c in it: s.chars()
        invariant
            it.seq() == s@,
            chars@ == s@.take(it.index()),
    {
        chars.push(c);
        assert(s@.take(it.index() + 1) == s@.take(it.index()).push(c));
    }
    assert(s@.take(s@.len() as int) == s@);
    chars
}

/// Whether two strings hold the same characters.
pub fn same(a: &str, b: &str) -> (equal: bool)
    ensures
        equal == (a@ == b@),
{
    let left = chars_of(a);
    let right = chars_of(b);
    if left.len() != right.len() {
        return false;
    }
    let mut i: usize = 0;
    while i < left.len()
        invariant
            left@ == a@,
            right@ == b@,
            left@.len() == right@.len(),
            0 <= i <= left@.len(),
            left@.take(i as int) == right@.take(i as int),
        decreases left@.len() - i,
    {
        if left[i] != right[i] {
            return false;
        }
        assert(left@.take(i + 1) == left@.take(i as int).push(left@[i as int]));
        assert(right@.take(i + 1) == right@.take(i as int).push(right@[i as int]));
        i = i + 1;
    }
    assert(left@.take(i as int) == left@);
    assert(right@.take(i as int) == right@);
    true
}

/// The characters with the Unicode property `White_Space`.
pub open spec fn is_white_space(c: char) -> bool {
    ||| '\u{9}' <= c <= '\u{d}'
    ||| c == '\u{20}'
    ||| c == '\u{85}'
    ||| c == '\u{a0}'
    ||| c == '\u{1680}'
    ||| '\u{2000}' <= c <= '\u{200a}'
    ||| c == '\u{2028}'
    ||| c == '\u{2029}'
    ||| c == '\u{202f}'
    ||| c == '\u{205f}'
    ||| c == '\u{3000}'
}

/// Whether a character has the Unicode property `White_Space`.
pub fn white_space(c: char) -> (r: bool)
    ensures
        r == is_white_space(c),
{
    ('\u{9}' <= c && c <= '\u{d}') || c == '\u{20}' || c == '\u{85}' || c == '\u{a0}' || c
        == '\u{1680}' || ('\u{2000}' <= c && c <= '\u{200a}') || c == '\u{2028}' || c == '\u{2029}'
        || c == '\u{202f}' || c == '\u{205f}' || c == '\u{3000}'
}

/// A string without the white space that it starts with.
pub open spec fn trimmed_start(s: Seq<char>) -> Seq<char>
    decreases s.len(),
{
    if s.len() > 0 && is_white_space(s.first()) {
        trimmed_start(s.drop_first())
    } else {
        s
    }
}

/// A string without the white space that it ends with.
pub open spec fn trimmed_end(s: Seq<char>) -> Seq<char>
    decreases s.len(),
{
    if s.len() > 0 && is_white_space(s.last()) {
        trimmed_end(s.drop_last())
    } else {
        s
    }
}

/// A string without the white space at its two ends.
pub open spec fn trimmed(s: Seq<char>) -> Seq<char> {
    trimmed_end(trimmed_start(s))
}

/// A string without the white space at its two ends.
pub fn trim<'a>(s: &'a str) -> (part: &'a str)
    ensures
        part@ == trimmed(s@),
{
    let chars = chars_of(s);
    let mut from: usize = 0;
    assert(s@.skip(0) == s@);
    while from < chars.len() && white_space(chars[from])
        invariant
            chars@ == s@,
            from <= s@.len(),
            trimmed_start(s@) == trimmed_start(s@.skip(from as int)),
        decreases s@.len() - from,
    {
        assert(s@.skip(from as int).drop_first() == s@.skip(from + 1));
        from = from + 1;
    }
    assert(trimmed_start(s@) == s@.skip(from as int));
    let mut to: usize = chars.len();
    assert(s@.subrange(from as int, to as int) == s@.skip(from as int));
    while from < to && white_space(chars[to - 1])
        invariant
            chars@ == s@,
            from <= to <= s@.len(),
            trimmed(s@) == trimmed_end(s@.subrange(from as int, to as int)),
        decreases to,
    {
        assert(s@.subrange(from as int, to as int).drop_last() == s@.subrange(
            from as int,
            to - 1,
        ));
        to = to - 1;
    }
    s.substring_char(from, to)
}

/// The parts of a string between the places where `separator` stands; there is
/// one part more than there are separators.
pub open spec fn split(s: Seq<char>, separator: char) -> Seq<Seq<char>>
    decreases s.len(),
{
    if s.len() == 0 {
        seq![Seq::empty()]
    } else if s.last() == separator {
        split(s.drop_last(), separator).push(Seq::empty())
    } else {
        let parts = split(s.drop_last(), separator);
        parts.drop_last().push(parts.last().push(s.last()))
    }
}

/// What a list of string slices holds.
pub open spec fn views(parts: Seq<&str>) -> Seq<Seq<char>> {
    parts.map_values(|part: &str| part@)
}

/// The parts of a string between the places where `separator` stands.
pub fn split_str<'a>(s: &'a str, separator: char) -> (parts: Vec<&'a str>)
    ensures
        views(parts@) == split(s@, separator),
{
    let chars = chars_of(s);
    let mut parts: Vec<&'a str> = Vec::new();
    let mut start: usize = 0;
    let mut i: usize = 0;
    assert(s@.subrange(0, 0) == Seq::<char>::empty());
    assert(views(parts@).push(s@.subrange(0, 0)) == seq![Seq::<char>::empty()]);
    while i < chars.len()
        invariant
            chars@ == s@,
            start <= i <= s@.len(),
            views(parts@).push(s@.subrange(start as int, i as int)) == split(
                s@.take(i as int),
                separator,
            ),
        decreases s@.len() - i,
    {
        let ghost before = views(parts@);
        let ghost current = s@.subrange(start as int, i as int);
        let ghost next = s@.take(i + 1);
        assert(next.drop_last() == s@.take(i as int));
        assert(next.last() == s@[i as int]);
        if chars[i] == separator {
            parts.push(s.substring_char(start, i));
            assert(views(parts@) == before.push(current));
            start = i + 1;
            assert(s@.subrange(start as int, i + 1) == Seq::<char>::empty());
        } else {
            assert(s@.subrange(start as int, i + 1) == current.push(s@[i as int]));
            assert(before.push(current).drop_last() == before);
        }
        i = i + 1;
    }
    assert(s@.take(i as int) == s@);
    let ghost before = views(parts@);
    parts.push(s.substring_char(start, i));
    assert(views(parts@) == before.push(s@.subrange(start as int, i as int)));
    parts
}

/// Strings put one after the other, with `separator` between any two.
pub open spec fn joined(parts: Seq<Seq<char>>, separator: char) -> Seq<char>
    decreases parts.len(),
{
    if parts.len() == 0 {
        Seq::empty()
    } else if parts.len() == 1 {
        parts[0]
    } else {
        joined(parts.drop_last(), separator).push(separator) + parts.last()
    }
}

/// The given strings put one after the other, with '+' between any two.
pub fn join_with_plus(parts: &Vec<&str>) -> (whole: String)
    ensures
        whole@ == joined(views(parts@), '+'),
{
    let mut whole: String = String::new();
    let mut i: usize = 0;
    proof {
        reveal_strlit("+");
    }
    assert("+"@ == seq!['+']);
    while i < parts.len()
        invariant
            i <= parts@.len(),
            "+"@ == seq!['+'],
            whole@ == joined(views(parts@).take(i as int), '+'),
        decreases parts@.len() - i,
    {
        let ghost next = views(parts@).take(i + 1);
        let ghost before = whole@;
        assert(next.drop_last() == views(parts@).take(i as int));
        assert(next.last() == parts@[i as int]@);
        if i > 0 {
            whole.append("+");
            assert(whole@ == before.push('+'));
        }
        whole.append(parts[i]);
        if i == 0 {
            assert(whole@ == next[0]);
        }
        i = i + 1;
    }
    assert(views(parts@).take(i as int) == views(parts@));
    whole
}

proof fn lemma_split_after_separator(head: Seq<char>, separator: char, tail: Seq<char>)
    requires
        !tail.contains(separator),
    ensures
        split(head.push(separator) + tail, separator) == split(head, separator).push(tail),
    decreases tail.len(),
{
    let whole = head.push(separator) + tail;
    if tail.len() == 0 {
        assert(whole == head.push(separator));
        assert(whole.drop_last() == head);
        assert(tail == Seq::<char>::empty());
    } else {
        let shorter = tail.drop_last();
        assert(whole.drop_last() == head.push(separator) + shorter);
        assert forall|i: int| 0 <= i < shorter.len() implies shorter[i] != separator by {
            assert(tail.contains(tail[i]));
        }
        lemma_split_after_separator(head, separator, shorter);
        assert(tail.contains(tail.last()));
        assert(shorter.push(tail.last()) == tail);
        let parts = split(whole.drop_last(), separator);
        assert(parts == split(head, separator).push(shorter));
        assert(parts.drop_last() == split(head, separator));
    }
}

proof fn lemma_split_of_one(s: Seq<char>, separator: char)
    requires
        !s.contains(separator),
    ensures
        split(s, separator) == seq![s],
    decreases s.len(),
{
    if s.len() == 0 {
        assert(s == Seq::<char>::empty());
    } else {
        let shorter = s.drop_last();
        assert forall|i: int| 0 <= i < shorter.len() implies shorter[i] != separator by {
            assert(s.contains(s[i]));
        }
        lemma_split_of_one(shorter, separator);
        assert(s.contains(s.last()));
        assert(shorter.push(s.last()) == s);
        assert(seq![shorter].drop_last().push(s) == seq![s]);
    }
}

/// Splitting undoes joining: strings that do not hold the separator, put
/// together with it, come apart into the same strings.
pub proof fn split_of_joined(parts: Seq<Seq<char>>, separator: char)
    requires
        parts.len() > 0,
        forall|i: int| 0 <= i < parts.len() ==> !#[trigger] parts[i].contains(separator),
    ensures
        split(joined(parts, separator), separator) == parts,
    decreases parts.len(),
{
    if parts.len() == 1 {
        lemma_split_of_one(parts[0], separator);
        assert(seq![parts[0]] == parts);
    } else {
        let shorter = parts.drop_last();
        assert forall|i: int| 0 <= i < shorter.len() implies !#[trigger] shorter[i].contains(
            separator,
        ) by {
            assert(shorter[i] == parts[i]);
        }
        split_of_joined(shorter, separator);
        assert(!parts[parts.len() - 1].contains(separator));
        lemma_split_after_separator(joined(shorter, separator), separator, parts.last());
        assert(shorter.push(parts.last()) == parts);
    }
}

/// Joining undoes splitting: the parts of a string, put together again with the
/// separator, give the string, and none of them holds the separator.
pub proof fn joined_of_split(s: Seq<char>, separator: char)
    ensures
        joined(split(s, separator), separator) == s,
        split(s, separator).len() > 0,
        forall|i: int|
            0 <= i < split(s, separator).len() ==> !#[trigger] split(s, separator)[i].contains(
                separator,
            ),
    decreases s.len(),
{
    if s.len() == 0 {
        assert(split(s, separator)[0] == s);
    } else {
        joined_of_split(s.drop_last(), separator);
        let before = split(s.drop_last(), separator);
        let parts = split(s, separator);
        assert(s.drop_last().push(s.last()) == s);
        if s.last() == separator {
            assert(parts.drop_last() == before);
            assert(parts.last() == Seq::<char>::empty());
            assert(joined(parts, separator) == s);
        } else {
            let last = before.last().push(s.last());
            assert(parts.drop_last() == before.drop_last());
            assert(parts.last() == last);
            if before.len() == 1 {
                assert(joined(parts, separator) == s);
            } else {
                assert(joined(parts, separator) == joined(before, separator).push(s.last()));
            }
            assert(!before[before.len() - 1].contains(separator));
            assert forall|i: int| 0 <= i < last.len() implies last[i] != separator by {
                if i < before.last().len() {
                    assert(before.last().contains(before.last()[i]));
                }
            }
            assert forall|i: int| 0 <= i < parts.len() implies !#[trigger] parts[i].contains(
                separator,
            ) by {
                if i < before.len() - 1 {
                    assert(parts[i] == before[i]);
                }
            }
        }
    }
}

/// The printable ASCII characters but the space, '+' and the capital letters.
pub open spec fn is_plain(c: char) -> bool {
    '!' <= c <= '~' && c != '+' && !('A' <= c <= 'Z')
}

/// A string of plain characters is its own lowercase form, has nothing to trim,
/// and does not hold '+'.
pub proof fn plain_strings_stay(s: Seq<char>)
    requires
        forall|i: int| 0 <= i < s.len() ==> is_plain(#[trigger] s[i]),
    ensures
        lowercase(s) == s,
        trimmed(s) == s,
        !s.contains('+'),
{
    assert(lowercase(s) == s);
    if s.len() > 0 {
        assert(is_plain(s[0]));
        assert(is_plain(s[s.len() - 1]));
    }
}

proof fn lemma_trimmed_start(s: Seq<char>) -> (from: int)
    ensures
        0 <= from <= s.len(),
        trimmed_start(s) == s.skip(from),
        forall|i: int| 0 <= i < from ==> is_white_space(#[trigger] s[i]),
        from < s.len() ==> !is_white_space(s[from]),
    decreases s.len(),
{
    if s.len() > 0 && is_white_space(s.first()) {
        let rest = s.drop_first();
        let from = lemma_trimmed_start(rest);
        assert(rest.skip(from) == s.skip(from + 1));
        assert forall|i: int| 0 <= i < from + 1 implies is_white_space(#[trigger] s[i]) by {
            if i > 0 {
                assert(s[i] == rest[i - 1]);
            }
        }
        from + 1
    } else {
        assert(s.skip(0) == s);
        0
    }
}

proof fn lemma_trimmed_end(s: Seq<char>) -> (to: int)
    ensures
        0 <= to <= s.len(),
        trimmed_end(s) == s.take(to),
        forall|i: int| to <= i < s.len() ==> is_white_space(#[trigger] s[i]),
        to > 0 ==> !is_white_space(s[to - 1]),
    decreases s.len(),
{
    if s.len() > 0 && is_white_space(s.last()) {
        let rest = s.drop_last();
        let to = lemma_trimmed_end(rest);
        assert(rest.take(to) == s.take(to));
        assert forall|i: int| to <= i < s.len() implies is_white_space(#[trigger] s[i]) by {
            if i < rest.len() {
                assert(s[i] == rest[i]);
            }
        }
        to
    } else {
        assert(s.take(s.len() as int) == s);
        s.len() as int
    }
}

/// Trimming cuts off white space and nothing else, and all of it: what is left is a
/// part of the string that neither starts nor ends with white space, and what was
/// before and behind it is white space.
pub proof fn trimming_cuts_off_white_space(s: Seq<char>)
    ensures
        exists|from: int, to: int|
            #![trigger s.subrange(from, to)]
            {
                &&& 0 <= from <= to <= s.len()
                &&& trimmed(s) == s.subrange(from, to)
                &&& forall|i: int|
                    0 <= i < from || to <= i < s.len() ==> is_white_space(#[trigger] s[i])
            },
        trimmed(s).len() > 0 ==> !is_white_space(trimmed(s).first()) && !is_white_space(
            trimmed(s).last(),
        ),
{
    let from = lemma_trimmed_start(s);
    let middle = s.skip(from);
    let to = lemma_trimmed_end(middle);
    assert(middle.take(to) == s.subrange(from, from + to));
    assert forall|i: int| 0 <= i < from || from + to <= i < s.len() implies is_white_space(
        #[trigger] s[i],
    ) by {
        if i >= from {
            assert(middle[i - from] == s[i]);
        }
    }
    if to > 0 {
        assert(middle[0] == s[from]);
    }
}

/// No string is joined to the empty one, one string to itself, and every further one
/// follows behind the separator.
pub proof fn joining_puts_strings_in_a_row(parts: Seq<Seq<char>>, last: Seq<char>, separator: char)
    ensures
        joined(Seq::empty(), separator) == Seq::<char>::empty(),
        joined(seq![last], separator) == last,
        parts.len() > 0 ==> joined(parts.push(last), separator) == joined(parts, separator) + seq![
            separator,
        ] + last,
{
    if parts.len() > 0 {
        assert(parts.push(last).drop_last() == parts);
        assert(joined(parts, separator).push(separator) == joined(parts, separator) + seq![
            separator,
        ]);
    }
}

/// The 26 capital letters are 32 places before the small ones, and changing case
/// goes from the one to the other; no other character changes.
pub proof fn letters_change_case(c: char)
    ensures
        'A' <= c <= 'Z' ==> ascii_lowercase(c) as int == c as int + 32,
        !('A' <= c <= 'Z') ==> ascii_lowercase(c) == c,
        'a' <= c <= 'z' ==> ascii_uppercase(c) as int == c as int - 32,
        !('a' <= c <= 'z') ==> ascii_uppercase(c) == c,
        lowercase(seq![c]) == seq![c] || !('!' <= c <= '~') || 'A' <= c <= 'Z',
{
    if '!' <= c <= '~' && !('A' <= c <= 'Z') {
        assert(is_ascii_chars(seq![c]));
        assert(lowercase(seq![c]) == seq![c]);
    }
}

} // verus!
