//! Text primitives on `str`: comparison, splitting, joining and decimal rendering.
//!
//! Contracts speak of the characters of a string (`s@`); sizes are sizes of its UTF-8
//! encoding, as `str::len` gives them.

use vstd::prelude::*;
use vstd::string::*;
use vstd::utf8::*;

verus! {

broadcast use vstd::utf8::group_utf8_lib;

/// Size in bytes of the UTF-8 encoding of `s`.
pub open spec fn utf8_len(s: Seq<char>) -> nat {
    encode_utf8(s).len()
}

/// Position of the first `c` in `s`, or the length of `s` where there is none.
pub open spec fn find_char(s: Seq<char>, c: char) -> int
    decreases s.len(),
{
    if s.len() == 0 || s[0] == c {
        0
    } else {
        1 + find_char(s.drop_first(), c)
    }
}

/// A line without the carriage return that may stand before its line feed.
pub open spec fn without_carriage_return(line: Seq<char>) -> Seq<char> {
    if line.len() > 0 && line.last() == '\r' {
        line.drop_last()
    } else {
        line
    }
}

/// The lines of `text`: ended by a line feed or by a carriage return and a line feed, the end
/// of the last one being optional.
pub open spec fn lines_of(text: Seq<char>) -> Seq<Seq<char>>
    decreases text.len(),
    via lines_of_decreases
{
    let end = find_char(text, '\n');
    if text.len() == 0 {
        Seq::empty()
    } else if end == text.len() {
        seq![text]
    } else {
        seq![without_carriage_return(text.take(end))] + lines_of(text.skip(end + 1))
    }
}

#[via_fn]
proof fn lines_of_decreases(text: Seq<char>) {
    lemma_find_char(text, '\n');
}

/// `parts` one after the other, with `separator` between neighbours.
pub open spec fn joined(parts: Seq<Seq<char>>, separator: Seq<char>) -> Seq<char>
    decreases parts.len(),
{
    if parts.len() == 0 {
        Seq::empty()
    } else if parts.len() == 1 {
        parts[0]
    } else {
        joined(parts.drop_last(), separator) + separator + parts.last()
    }
}

/// The decimal digit for a value below ten.
pub open spec fn digit(d: nat) -> char {
    ('0' as u32 + d) as char
}

/// `n` in decimal, without leading zeros.
pub open spec fn decimal(n: nat) -> Seq<char>
    decreases n,
{
    if n < 10 {
        seq![digit(n)]
    } else {
        decimal(n / 10).push(digit(n % 10))
    }
}

/// The greatest character boundary of `bytes` that does not exceed `index`.
pub open spec fn boundary_at_or_before(bytes: Seq<u8>, index: int) -> int
    decreases index,
{
    if index <= 0 {
        0
    } else if is_char_boundary(bytes, index) {
        index
    } else {
        boundary_at_or_before(bytes, index - 1)
    }
}

/// The longest prefix of `s` whose encoding takes at most `limit` bytes.
pub open spec fn prefix_within(s: Seq<char>, limit: int) -> Seq<char> {
    decode_utf8(encode_utf8(s).take(boundary_at_or_before(encode_utf8(s), limit)))
}

/// What is left of `s` behind `prefix_within(s, limit)`.
pub open spec fn suffix_beyond(s: Seq<char>, limit: int) -> Seq<char> {
    decode_utf8(encode_utf8(s).skip(boundary_at_or_before(encode_utf8(s), limit)))
}

/// `s` without the run of slashes at its end.
pub open spec fn without_trailing_slashes(s: Seq<char>) -> Seq<char>
    decreases s.len(),
{
    if s.len() > 0 && s.last() == '/' {
        without_trailing_slashes(s.drop_last())
    } else {
        s
    }
}

/// What stands behind the last slash of `path`; all of it where there is none.
pub open spec fn last_segment(path: Seq<char>) -> Seq<char>
    decreases path.len(),
{
    if path.len() == 0 || path.last() == '/' {
        Seq::empty()
    } else {
        last_segment(path.drop_last()).push(path.last())
    }
}

/// The characters of each of `parts`.
pub open spec fn str_texts(parts: Seq<&str>) -> Seq<Seq<char>> {
    parts.map_values(|part: &str| part@)
}

/// The characters of each of `parts`.
pub open spec fn texts(parts: Seq<String>) -> Seq<Seq<char>> {
    parts.map_values(|part: String| part@)
}

/// The characters of an optional text.
pub open spec fn opt_text(text: Option<String>) -> Option<Seq<char>> {
    match text {
        Some(s) => Some(s@),
        None => None,
    }
}

/// A text, empty where there is none.
pub open spec fn or_empty(text: Option<Seq<char>>) -> Seq<char> {
    match text {
        Some(text) => text,
        None => Seq::empty(),
    }
}

/// `find_char` finds the first occurrence and nothing else.
pub proof fn lemma_find_char(s: Seq<char>, c: char)
    ensures
        0 <= find_char(s, c) <= s.len(),
        find_char(s, c) < s.len() ==> s[find_char(s, c)] == c,
        forall|i: int| 0 <= i < find_char(s, c) ==> s[i] != c,
    decreases s.len(),
{
    if s.len() > 0 && s[0] != c {
        lemma_find_char(s.drop_first(), c);
        assert forall|i: int| 0 <= i < find_char(s, c) implies s[i] != c by {
            if i > 0 {
                assert(s[i] == s.drop_first()[i - 1]);
            }
        }
    }
}

/// `find_char` is pinned by what it means.
proof fn lemma_find_char_at(s: Seq<char>, c: char, at: int)
    requires
        0 <= at <= s.len(),
        at < s.len() ==> s[at] == c,
        forall|i: int| 0 <= i < at ==> s[i] != c,
    ensures
        find_char(s, c) == at,
{
    lemma_find_char(s, c);
}

/// The encoding of a concatenation is the concatenation of the encodings.
pub proof fn lemma_encode_concat(a: Seq<char>, b: Seq<char>)
    ensures
        encode_utf8(a + b) == encode_utf8(a) + encode_utf8(b),
    decreases a.len(),
{
    if a.len() == 0 {
        assert(a + b =~= b);
        assert(encode_utf8(a) + encode_utf8(b) =~= encode_utf8(b));
    } else {
        lemma_encode_concat(a.drop_first(), b);
        assert((a + b).drop_first() =~= a.drop_first() + b);
        assert(encode_utf8(a + b) =~= encode_utf8(a) + encode_utf8(b));
    }
}

/// Texts with the same encoding are the same.
pub proof fn lemma_encode_injective(a: Seq<char>, b: Seq<char>)
    requires
        encode_utf8(a) == encode_utf8(b),
    ensures
        a == b,
{
    encode_utf8_decode_utf8(a);
    encode_utf8_decode_utf8(b);
}

/// An ASCII character is encoded as itself.
proof fn lemma_encode_ascii(c: char)
    requires
        c as u32 <= 0x7f,
    ensures
        encode_utf8(seq![c]) == seq![c as u8],
{
    assert(is_ascii_chars(seq![c]));
    is_ascii_chars_encode_utf8(seq![c]);
    assert(encode_utf8(seq![c]) =~= seq![c as u8]);
}

/// An ASCII character shows in the encoding as its own byte.
proof fn lemma_ascii_byte_present(s: Seq<char>, at: int)
    requires
        0 <= at < s.len(),
        s[at] as u32 <= 0x7f,
    ensures
        utf8_len(s.take(at)) < utf8_len(s),
        encode_utf8(s)[utf8_len(s.take(at)) as int] == s[at] as u8,
{
    lemma_encode_ascii(s[at]);
    lemma_encode_concat(s.take(at), seq![s[at]]);
    lemma_encode_concat(s.take(at) + seq![s[at]], s.skip(at + 1));
    assert(s =~= s.take(at) + seq![s[at]] + s.skip(at + 1));
}

/// Whether two strings hold the same characters.
pub fn same_text(a: &str, b: &str) -> (same: bool)
    ensures
        same == (a@ == b@),
{
    let left: &[u8] = a.as_bytes();
    let right: &[u8] = b.as_bytes();
    if left.len() != right.len() {
        return false;
    }
    let mut i: usize = 0;
    while i < left.len()
        invariant
            i <= left.len(),
            left.len() == right.len(),
            left@ == encode_utf8(a@),
            right@ == encode_utf8(b@),
            left@.take(i as int) == right@.take(i as int),
        decreases left.len() - i,
    {
        if left[i] != right[i] {
            return false;
        }
        assert(left@.take(i + 1) =~= left@.take(i as int).push(left@[i as int]));
        assert(right@.take(i + 1) =~= right@.take(i as int).push(right@[i as int]));
        i = i + 1;
    }
    proof {
        assert(left@.take(i as int) =~= left@);
        assert(right@.take(i as int) =~= right@);
        lemma_encode_injective(a@, b@);
    }
    true
}

/// Splits `s` at a character boundary.
fn split_text(s: &str, at: usize) -> (halves: (&str, &str))
    requires
        is_char_boundary(encode_utf8(s@), at as int),
    ensures
        at <= encode_utf8(s@).len(),
        encode_utf8(halves.0@) == encode_utf8(s@).take(at as int),
        encode_utf8(halves.1@) == encode_utf8(s@).skip(at as int),
        s@ == halves.0@ + halves.1@,
{
    let halves = s.split_at(at);
    proof {
        let bytes = encode_utf8(s@);
        reveal_with_fuel(is_char_boundary, 2);
        assert(bytes.take(at as int) + bytes.skip(at as int) =~= bytes);
        assert(bytes.subrange(0, at as int) =~= bytes.take(at as int));
        assert(bytes.subrange(at as int, bytes.len() as int) =~= bytes.skip(at as int));
        lemma_encode_concat(halves.0@, halves.1@);
        lemma_encode_injective(s@, halves.0@ + halves.1@);
    }
    halves
}

/// Splits `s` around the ASCII character whose byte stands at `at`.
fn split_around_ascii(s: &str, at: usize) -> (halves: (&str, &str))
    requires
        at < encode_utf8(s@).len(),
        encode_utf8(s@)[at as int] <= 0x7f,
    ensures
        encode_utf8(halves.0@) == encode_utf8(s@).take(at as int),
        encode_utf8(halves.1@) == encode_utf8(s@).skip(at + 1),
        s@ == halves.0@ + seq![encode_utf8(s@)[at as int] as char] + halves.1@,
{
    let ghost bytes = encode_utf8(s@);
    proof {
        is_char_boundary_iff_not_is_continuation_byte(bytes, at as int);
    }
    let (before, rest) = split_text(s, at);
    let ghost tail = encode_utf8(rest@);
    proof {
        encode_utf8_valid_utf8(rest@);
        reveal_with_fuel(is_char_boundary, 3);
        assert(tail[0] == bytes[at as int]);
        assert(is_char_boundary(tail, 1));
    }
    let (here, after) = split_text(rest, 1);
    proof {
        let b = bytes[at as int];
        let c = b as char;
        assert(c as u8 == b);
        lemma_encode_ascii(c);
        assert(tail.take(1) =~= seq![b]);
        lemma_encode_injective(here@, seq![c]);
        assert(tail.skip(1) =~= bytes.skip(at + 1));
        assert(before@ + (here@ + after@) =~= before@ + here@ + after@);
    }
    (before, after)
}

/// Splits `s` at its first line feed, which neither half keeps.
fn split_first_line(s: &str) -> (halves: Option<(&str, &str)>)
    ensures
        match halves {
            Some((line, rest)) => {
                &&& find_char(s@, '\n') < s@.len()
                &&& line@ == s@.take(find_char(s@, '\n'))
                &&& rest@ == s@.skip(find_char(s@, '\n') + 1)
            },
            None => find_char(s@, '\n') == s@.len(),
        },
{
    let bytes: &[u8] = s.as_bytes();
    let mut i: usize = 0;
    while i < bytes.len()
        invariant
            i <= bytes.len(),
            bytes@ == encode_utf8(s@),
            forall|j: int| 0 <= j < i ==> bytes@[j] != 10,
        decreases bytes.len() - i,
    {
        if bytes[i] == 10 {
            let (line, rest) = split_around_ascii(s, i);
            proof {
                let at = line@.len() as int;
                assert forall|k: int| 0 <= k < at implies s@[k] != '\n' by {
                    if s@[k] == '\n' {
                        assert(line@[k] == '\n');
                        lemma_ascii_byte_present(line@, k);
                    }
                }
                assert(s@[at] == '\n');
                lemma_find_char_at(s@, '\n', at);
                assert(line@ =~= s@.take(at));
                assert(rest@ =~= s@.skip(at + 1));
            }
            return Some((line, rest));
        }
        i = i + 1;
    }
    proof {
        assert forall|k: int| 0 <= k < s@.len() implies s@[k] != '\n' by {
            if s@[k] == '\n' {
                lemma_ascii_byte_present(s@, k);
            }
        }
        lemma_find_char_at(s@, '\n', s@.len() as int);
    }
    None
}

/// Takes the ASCII character `c` off the end of `s`; `None` where `s` does not end with it.
fn strip_last_ascii(s: &str, c: u8) -> (rest: Option<&str>)
    requires
        c <= 0x7f,
    ensures
        match rest {
            Some(rest) => s@.len() > 0 && s@.last() == c as char && rest@ == s@.drop_last(),
            None => !(s@.len() > 0 && s@.last() == c as char),
        },
{
    let bytes: &[u8] = s.as_bytes();
    let size: usize = bytes.len();
    proof {
        if s@.len() > 0 && s@.last() == c as char {
            lemma_encode_ascii(c as char);
            lemma_encode_concat(s@.drop_last(), seq![c as char]);
            assert(s@ =~= s@.drop_last() + seq![c as char]);
            assert((c as char) as u8 == c);
        }
    }
    if size > 0 && bytes[size - 1] == c {
        let (before, after) = split_around_ascii(s, size - 1);
        proof {
            let none = Seq::<char>::empty();
            assert(encode_utf8(after@) =~= encode_utf8(none));
            lemma_encode_injective(after@, none);
            assert(before@ =~= s@.drop_last());
        }
        Some(before)
    } else {
        None
    }
}

/// Splits `text` into its lines.
pub fn split_lines(text: &str) -> (lines: Vec<&str>)
    ensures
        str_texts(lines@) == lines_of(text@),
{
    let mut lines: Vec<&str> = Vec::new();
    let mut rest: &str = text;
    assert(str_texts(lines@) + lines_of(rest@) =~= lines_of(text@));
    while !rest.is_empty()
        invariant
            str_texts(lines@) + lines_of(rest@) == lines_of(text@),
        decreases rest@.len(),
    {
        proof {
            lemma_find_char(rest@, '\n');
        }
        match split_first_line(rest) {
            Some((line, tail)) => {
                let line: &str = match strip_last_ascii(line, 13) {
                    Some(shorter) => shorter,
                    None => line,
                };
                let ghost before = lines@;
                lines.push(line);
                assert(str_texts(lines@) =~= str_texts(before) + seq![line@]);
                assert(str_texts(lines@) + lines_of(tail@) =~= str_texts(before) + lines_of(
                    rest@,
                ));
                rest = tail;
            },
            None => {
                let ghost before = lines@;
                lines.push(rest);
                assert(str_texts(lines@) =~= str_texts(before) + lines_of(rest@));
                return lines;
            },
        }
    }
    assert(lines_of(rest@) =~= Seq::<Seq<char>>::empty());
    assert(str_texts(lines@) =~= lines_of(text@));
    lines
}

/// Appends the strings `parts[from..to]` to `out`, with `separator` between neighbours.
pub fn push_joined(out: &mut String, parts: &Vec<&str>, from: usize, to: usize, separator: &str)
    requires
        from <= to <= parts@.len(),
    ensures
        final(out)@ == old(out)@ + joined(
            str_texts(parts@).subrange(from as int, to as int),
            separator@,
        ),
{
    let ghost all = str_texts(parts@).subrange(from as int, to as int);
    let mut i: usize = from;
    assert(old(out)@ + joined(all.take(0), separator@) =~= old(out)@);
    while i < to
        invariant
            from <= i <= to <= parts@.len(),
            all == str_texts(parts@).subrange(from as int, to as int),
            out@ == old(out)@ + joined(all.take(i - from), separator@),
        decreases to - i,
    {
        let ghost done = all.take(i - from);
        if i > from {
            out.append(separator);
        }
        out.append(parts[i]);
        proof {
            let next = all.take(i + 1 - from);
            assert(next.drop_last() =~= done);
            assert(next.last() == parts@[i as int]@);
            if i > from {
                assert(joined(next, separator@) =~= joined(done, separator@) + separator@
                    + parts@[i as int]@);
            } else {
                assert(joined(done, separator@) =~= Seq::<char>::empty());
                assert(joined(next, separator@) =~= parts@[i as int]@);
            }
            assert(out@ =~= old(out)@ + joined(next, separator@));
        }
        i = i + 1;
    }
    assert(all.take(to - from) =~= all);
}

/// The strings `parts` in one, with `separator` between neighbours.
pub fn join_strings(parts: &Vec<String>, separator: &str) -> (out: String)
    ensures
        out@ == joined(texts(parts@), separator@),
{
    let mut views: Vec<&str> = Vec::new();
    let mut i: usize = 0;
    while i < parts.len()
        invariant
            i <= parts@.len(),
            str_texts(views@) == texts(parts@).take(i as int),
        decreases parts@.len() - i,
    {
        let ghost before = views@;
        views.push(parts[i].as_str());
        assert(str_texts(views@) =~= str_texts(before).push(parts@[i as int]@));
        assert(texts(parts@).take(i + 1) =~= texts(parts@).take(i as int).push(
            parts@[i as int]@,
        ));
        i = i + 1;
    }
    let mut out: String = String::new();
    assert(str_texts(views@).len() == views@.len());
    push_joined(&mut out, &views, 0, views.len(), separator);
    proof {
        assert(str_texts(views@).subrange(0, views@.len() as int) =~= texts(parts@));
        assert(out@ =~= joined(texts(parts@), separator@));
    }
    out
}

/// The digit for `d`.
fn digit_text(d: usize) -> (text: &'static str)
    requires
        d < 10,
    ensures
        text@ == seq![digit(d as nat)],
{
    proof {
        reveal_strlit("0");
        reveal_strlit("1");
        reveal_strlit("2");
        reveal_strlit("3");
        reveal_strlit("4");
        reveal_strlit("5");
        reveal_strlit("6");
        reveal_strlit("7");
        reveal_strlit("8");
        reveal_strlit("9");
    }
    let text: &'static str = if d == 0 {
        "0"
    } else if d == 1 {
        "1"
    } else if d == 2 {
        "2"
    } else if d == 3 {
        "3"
    } else if d == 4 {
        "4"
    } else if d == 5 {
        "5"
    } else if d == 6 {
        "6"
    } else if d == 7 {
        "7"
    } else if d == 8 {
        "8"
    } else {
        "9"
    };
    assert(text@ =~= seq![digit(d as nat)]);
    text
}

/// Appends `n` in decimal to `out`.
pub fn push_decimal(out: &mut String, n: usize)
    ensures
        final(out)@ == old(out)@ + decimal(n as nat),
    decreases n,
{
    if n >= 10 {
        push_decimal(out, n / 10);
    }
    out.append(digit_text(n % 10));
    assert(out@ =~= old(out)@ + decimal(n as nat));
}

/// Splits `s` at the greatest character boundary that does not exceed `limit` bytes.
pub fn split_within(s: &str, limit: usize) -> (halves: (&str, &str))
    requires
        limit <= utf8_len(s@),
    ensures
        halves.0@ == prefix_within(s@, limit as int),
        halves.1@ == suffix_beyond(s@, limit as int),
        s@ == halves.0@ + halves.1@,
        utf8_len(halves.0@) == boundary_at_or_before(encode_utf8(s@), limit as int),
{
    let ghost bytes = encode_utf8(s@);
    let mut at: usize = limit;
    while at > 0 && !s.is_char_boundary(at)
        invariant
            at <= limit <= bytes.len(),
            bytes == encode_utf8(s@),
            boundary_at_or_before(bytes, at as int) == boundary_at_or_before(bytes, limit as int),
        decreases at,
    {
        at = at - 1;
    }
    let halves = split_text(s, at);
    halves
}

/// `s` without the slashes at its end.
pub fn trim_trailing_slashes(s: &str) -> (trimmed: &str)
    ensures
        trimmed@ == without_trailing_slashes(s@),
{
    let mut rest: &str = s;
    loop
        invariant
            without_trailing_slashes(rest@) == without_trailing_slashes(s@),
        decreases rest@.len(),
    {
        match strip_last_ascii(rest, 47) {
            Some(shorter) => {
                rest = shorter;
            },
            None => {
                return rest;
            },
        }
    }
}

/// `last_segment` is what stands behind the last slash.
proof fn lemma_last_segment(before: Seq<char>, after: Seq<char>)
    requires
        forall|i: int| 0 <= i < after.len() ==> after[i] != '/',
    ensures
        last_segment(after) == after,
        last_segment(before + seq!['/'] + after) == after,
    decreases after.len(),
{
    let whole = before + seq!['/'] + after;
    if after.len() > 0 {
        lemma_last_segment(before, after.drop_last());
        assert(whole.drop_last() =~= before + seq!['/'] + after.drop_last());
        assert(whole.last() == after.last());
        assert(after.drop_last().push(after.last()) =~= after);
    } else {
        assert(whole.last() == '/');
        assert(after =~= Seq::<char>::empty());
    }
}

/// The part of `path` behind its last slash.
pub fn file_name(path: &str) -> (name: &str)
    ensures
        name@ == last_segment(path@),
{
    let bytes: &[u8] = path.as_bytes();
    let mut i: usize = bytes.len();
    while i > 0
        invariant
            i <= bytes.len(),
            bytes@ == encode_utf8(path@),
            forall|j: int| i <= j < bytes@.len() ==> bytes@[j] != 47,
        decreases i,
    {
        if bytes[i - 1] == 47 {
            let (before, after) = split_around_ascii(path, i - 1);
            proof {
                assert forall|k: int| 0 <= k < after@.len() implies after@[k] != '/' by {
                    if after@[k] == '/' {
                        lemma_ascii_byte_present(after@, k);
                        let at = utf8_len(after@.take(k)) as int;
                        assert(encode_utf8(after@)[at] == bytes@[i + at]);
                    }
                }
                lemma_last_segment(before@, after@);
            }
            return after;
        }
        i = i - 1;
    }
    proof {
        assert forall|k: int| 0 <= k < path@.len() implies path@[k] != '/' by {
            if path@[k] == '/' {
                lemma_ascii_byte_present(path@, k);
            }
        }
        lemma_last_segment(path@, path@);
    }
    path
}

/// Sum of the sizes of `parts`.
pub open spec fn total_size(parts: Seq<Seq<char>>) -> nat
    decreases parts.len(),
{
    if parts.len() == 0 {
        0
    } else {
        total_size(parts.drop_last()) + utf8_len(parts.last())
    }
}

/// `boundary_at_or_before` is a boundary, within range, and none in range lies behind it.
pub proof fn lemma_boundary_is_greatest(bytes: Seq<u8>, index: int)
    requires
        valid_utf8(bytes),
        0 <= index,
    ensures
        0 <= boundary_at_or_before(bytes, index) <= index,
        is_char_boundary(bytes, boundary_at_or_before(bytes, index)),
        forall|j: int|
            0 <= j <= index && #[trigger] is_char_boundary(bytes, j) ==> j
                <= boundary_at_or_before(bytes, index),
    decreases index,
{
    if index > 0 && !is_char_boundary(bytes, index) {
        lemma_boundary_is_greatest(bytes, index - 1);
    }
}

/// A character takes at most four bytes, so the next boundary down is at most three away.
proof fn lemma_boundary_is_near(bytes: Seq<u8>, index: int)
    requires
        valid_utf8(bytes),
        0 <= index <= bytes.len(),
    ensures
        index - boundary_at_or_before(bytes, index) <= 3,
    decreases bytes.len(),
{
    lemma_boundary_is_greatest(bytes, index);
    if index > 3 {
        let first = length_of_first_scalar(bytes);
        let rest = pop_first_scalar(bytes);
        lemma_boundary_is_near(rest, index - first);
        lemma_boundary_is_greatest(rest, index - first);
        assert(is_char_boundary(bytes, first + boundary_at_or_before(rest, index - first)));
    }
}

/// A text is cut in two without loss, at most three bytes before the limit.
pub proof fn lemma_cut_within(s: Seq<char>, limit: int)
    requires
        0 <= limit <= utf8_len(s),
    ensures
        prefix_within(s, limit) + suffix_beyond(s, limit) == s,
        utf8_len(prefix_within(s, limit)) + utf8_len(suffix_beyond(s, limit)) == utf8_len(s),
        limit - 3 <= utf8_len(prefix_within(s, limit)) <= limit,
{
    let bytes = encode_utf8(s);
    encode_utf8_valid_utf8(s);
    lemma_boundary_is_greatest(bytes, limit);
    lemma_boundary_is_near(bytes, limit);
    let at = boundary_at_or_before(bytes, limit);
    valid_utf8_split(bytes, at);
    decode_utf8_split(bytes, at);
    assert(bytes.take(at) =~= bytes.subrange(0, at));
    assert(bytes.skip(at) =~= bytes.subrange(at, bytes.len() as int));
    encode_utf8_decode_utf8(s);
    decode_utf8_encode_utf8(bytes.take(at));
    decode_utf8_encode_utf8(bytes.skip(at));
}

/// A larger limit never gives a shorter prefix.
pub proof fn lemma_cut_monotone(s: Seq<char>, low: int, high: int)
    requires
        0 <= low <= high <= utf8_len(s),
    ensures
        utf8_len(prefix_within(s, low)) <= utf8_len(prefix_within(s, high)),
{
    let bytes = encode_utf8(s);
    encode_utf8_valid_utf8(s);
    lemma_boundary_is_greatest(bytes, low);
    lemma_boundary_is_greatest(bytes, high);
    let first = boundary_at_or_before(bytes, low);
    let second = boundary_at_or_before(bytes, high);
    assert(first <= second);
    assert(bytes.take(first) =~= bytes.subrange(0, first));
    assert(bytes.take(second) =~= bytes.subrange(0, second));
    valid_utf8_split(bytes, first);
    valid_utf8_split(bytes, second);
    decode_utf8_encode_utf8(bytes.take(first));
    decode_utf8_encode_utf8(bytes.take(second));
}

/// A character takes one to four bytes.
pub broadcast proof fn lemma_utf8_len_bounds(s: Seq<char>)
    ensures
        s.len() <= #[trigger] utf8_len(s) <= 4 * s.len(),
    decreases s.len(),
{
    if s.len() > 0 {
        lemma_utf8_len_bounds(s.drop_first());
    }
}

/// The size of a concatenation is the sum of the sizes.
pub broadcast proof fn lemma_utf8_len_concat(a: Seq<char>, b: Seq<char>)
    ensures
        #[trigger] utf8_len(a + b) == utf8_len(a) + utf8_len(b),
{
    lemma_encode_concat(a, b);
}

/// A number starts with a digit.
pub proof fn lemma_decimal_starts_with_digit(n: nat)
    ensures
        decimal(n).len() > 0,
        '0' <= decimal(n)[0] <= '9',
    decreases n,
{
    if n >= 10 {
        lemma_decimal_starts_with_digit(n / 10);
    }
}

/// A 64-bit number has at most twenty digits.
pub proof fn lemma_decimal_len_u64(n: nat)
    requires
        n <= u64::MAX + 1,
    ensures
        1 <= decimal(n).len() <= 20,
{
    reveal_with_fuel(vstd::arithmetic::power::pow, 21);
    assert(vstd::arithmetic::power::pow(10, 20) == 100_000_000_000_000_000_000);
    lemma_decimal_len(n, 20);
}

/// A number below the k-th power of ten has at most k digits.
proof fn lemma_decimal_len(n: nat, k: nat)
    requires
        k >= 1,
        n < vstd::arithmetic::power::pow(10, k),
    ensures
        1 <= decimal(n).len() <= k,
    decreases k,
{
    if n >= 10 {
        reveal_with_fuel(vstd::arithmetic::power::pow, 2);
        assert(k > 1);
        assert(n / 10 < vstd::arithmetic::power::pow(10, (k - 1) as nat)) by (nonlinear_arith)
            requires
                n < 10 * vstd::arithmetic::power::pow(10, (k - 1) as nat),
        ;
        lemma_decimal_len(n / 10, (k - 1) as nat);
    }
}

/// The total size of a concatenation is the sum of the total sizes.
pub proof fn lemma_total_size_concat(a: Seq<Seq<char>>, b: Seq<Seq<char>>)
    ensures
        total_size(a + b) == total_size(a) + total_size(b),
    decreases b.len(),
{
    if b.len() == 0 {
        assert(a + b =~= a);
    } else {
        lemma_total_size_concat(a, b.drop_last());
        assert((a + b).drop_last() =~= a + b.drop_last());
        assert((a + b).last() == b.last());
    }
}

/// The total size of one part is its size.
proof fn lemma_total_size_one(part: Seq<char>)
    ensures
        total_size(seq![part]) == utf8_len(part),
{
    reveal_with_fuel(total_size, 2);
}

/// Joining with a separator of one byte adds one byte between neighbours.
pub proof fn lemma_joined_size(parts: Seq<Seq<char>>, separator: Seq<char>)
    requires
        parts.len() > 0,
        utf8_len(separator) == 1,
    ensures
        utf8_len(joined(parts, separator)) == total_size(parts) + parts.len() - 1,
    decreases parts.len(),
{
    if parts.len() == 1 {
        assert(total_size(parts.drop_last()) == 0);
        assert(parts.last() == parts[0]);
    } else {
        let front = joined(parts.drop_last(), separator);
        lemma_joined_size(parts.drop_last(), separator);
        lemma_utf8_len_concat(front, separator);
        lemma_utf8_len_concat(front + separator, parts.last());
    }
}

/// The lines of a text and their line feeds fit in it, but for one line feed at its end.
pub proof fn lemma_lines_size(text: Seq<char>)
    ensures
        total_size(lines_of(text)) + lines_of(text).len() <= utf8_len(text) + 1,
    decreases text.len(),
{
    let end = find_char(text, '\n');
    lemma_find_char(text, '\n');
    if text.len() == 0 {
    } else if end == text.len() {
        lemma_total_size_one(text);
    } else {
        let line = text.take(end);
        let rest = text.skip(end + 1);
        let shown = without_carriage_return(line);
        lemma_lines_size(rest);
        lemma_total_size_concat(seq![shown], lines_of(rest));
        lemma_total_size_one(shown);
        lemma_encode_ascii('\n');
        lemma_utf8_len_concat(line, seq!['\n']);
        lemma_utf8_len_concat(line + seq!['\n'], rest);
        assert(text =~= line + seq!['\n'] + rest);
        if shown != line {
            lemma_utf8_len_concat(shown, seq![line.last()]);
            assert(line =~= shown + seq![line.last()]);
        }
    }
}

} // verus!
