//! Laws of the text primitives: what each result is, told from the characters alone.

use crate::text::{
    boundary_at_or_before, decimal, find_char, joined, last_segment, lemma_boundary_is_greatest,
    lemma_cut_within, lemma_encode_concat, lemma_find_char, lines_of, opt_text, or_empty,
    prefix_within, str_texts, suffix_beyond, texts, without_carriage_return,
    without_trailing_slashes,
};
use vstd::prelude::*;
use vstd::utf8::*;

verus! {

/// How many line feeds a text holds.
pub open spec fn line_feeds(text: Seq<char>) -> nat
    decreases text.len(),
{
    if text.len() == 0 {
        0
    } else {
        line_feeds(text.drop_last()) + (if text.last() == '\n' {
            1nat
        } else {
            0nat
        })
    }
}

/// A text whose every carriage return and line feed in a row has become a line feed.
pub open spec fn with_plain_line_ends(text: Seq<char>) -> Seq<char>
    decreases text.len(),
{
    if text.len() == 0 {
        Seq::empty()
    } else if text.len() >= 2 && text[0] == '\r' && text[1] == '\n' {
        with_plain_line_ends(text.drop_first())
    } else {
        seq![text[0]] + with_plain_line_ends(text.drop_first())
    }
}

/// Whether a text ends with a line feed.
pub open spec fn ends_with_line_feed(text: Seq<char>) -> bool {
    text.len() > 0 && text.last() == '\n'
}

/// A text without the line feed that may end it.
pub open spec fn without_last_line_feed(text: Seq<char>) -> Seq<char> {
    if ends_with_line_feed(text) {
        text.drop_last()
    } else {
        text
    }
}

/// How many lines a text has: one for each line feed, and one for what stands behind the last.
pub open spec fn line_count(text: Seq<char>) -> nat {
    if text.len() > 0 && text.last() != '\n' {
        line_feeds(text) + 1
    } else {
        line_feeds(text)
    }
}

/// The number that a row of decimal digits denotes.
pub open spec fn value_of(digits: Seq<char>) -> int
    decreases digits.len(),
{
    if digits.len() == 0 {
        0
    } else {
        10 * value_of(digits.drop_last()) + (digits.last() as int - '0' as int)
    }
}

/// Line feeds add up.
pub proof fn lemma_line_feeds_concat(a: Seq<char>, b: Seq<char>)
    ensures
        line_feeds(a + b) == line_feeds(a) + line_feeds(b),
    decreases b.len(),
{
    if b.len() == 0 {
        assert(a + b =~= a);
    } else {
        lemma_line_feeds_concat(a, b.drop_last());
        assert((a + b).drop_last() =~= a + b.drop_last());
    }
}

/// A text has no line feeds if and only if none of its characters is one.
pub proof fn lemma_no_line_feeds(text: Seq<char>)
    ensures
        line_feeds(text) == 0 <==> !text.contains('\n'),
    decreases text.len(),
{
    if text.len() > 0 {
        lemma_no_line_feeds(text.drop_last());
        if text.contains('\n') {
            let i = choose|i: int| 0 <= i < text.len() && text[i] == '\n';
            if i < text.len() - 1 {
                assert(text.drop_last()[i] == '\n');
            }
        }
        if text.drop_last().contains('\n') {
            let i = choose|i: int|
                0 <= i < text.drop_last().len() && text.drop_last()[i] == '\n';
            assert(text[i] == '\n');
        }
        if text.last() == '\n' {
            assert(text[text.len() - 1] == '\n');
        }
    }
}

/// Joining nothing gives nothing, joining one part gives that part, and joining two lists of
/// parts joins what each gives.
pub proof fn law_joining_is_piecewise(
    left: Seq<Seq<char>>,
    right: Seq<Seq<char>>,
    part: Seq<char>,
    separator: Seq<char>,
)
    requires
        left.len() > 0,
        right.len() > 0,
    ensures
        joined(Seq::empty(), separator) == Seq::<char>::empty(),
        joined(seq![part], separator) == part,
        joined(left + right, separator) == joined(left, separator) + separator + joined(
            right,
            separator,
        ),
    decreases right.len(),
{
    let whole = left + right;
    assert(whole.drop_last() =~= left + right.drop_last());
    assert(whole.last() == right.last());
    if right.len() == 1 {
        assert(whole.drop_last() =~= left);
        assert(right[0] == right.last());
    } else {
        law_joining_is_piecewise(left, right.drop_last(), part, separator);
        assert(joined(whole, separator) =~= joined(left, separator) + separator + joined(
            right,
            separator,
        ));
    }
}

/// Parts without line feeds, joined by line feeds, hold one fewer line feed than there are
/// parts.
pub proof fn lemma_joined_line_feeds(parts: Seq<Seq<char>>)
    requires
        parts.len() > 0,
        forall|i: int| 0 <= i < parts.len() ==> line_feeds(#[trigger] parts[i]) == 0,
    ensures
        line_feeds(joined(parts, "\n"@)) == parts.len() - 1,
    decreases parts.len(),
{
    reveal_strlit("\n");
    if parts.len() > 1 {
        let front = parts.drop_last();
        assert forall|i: int| 0 <= i < front.len() implies line_feeds(#[trigger] front[i]) == 0 by {
            assert(front[i] == parts[i]);
        }
        lemma_joined_line_feeds(front);
        lemma_line_feeds_concat(joined(front, "\n"@), "\n"@);
        lemma_line_feeds_concat(joined(front, "\n"@) + "\n"@, parts.last());
        assert("\n"@.drop_last() =~= Seq::<char>::empty());
        assert(line_feeds("\n"@.drop_last()) == 0);
        assert(line_feeds("\n"@) == 1);
        assert(line_feeds(parts[parts.len() - 1]) == 0);
    } else {
        assert(line_feeds(parts[0]) == 0);
    }
}

/// Up to its first line feed a text has at most one carriage return to lose: the last one.
proof fn lemma_plain_line_ends_of_first_line(line: Seq<char>, rest: Seq<char>)
    requires
        !line.contains('\n'),
    ensures
        with_plain_line_ends(line) == line,
        with_plain_line_ends(line + seq!['\n'] + rest) == without_carriage_return(line) + seq![
            '\n',
        ] + with_plain_line_ends(rest),
    decreases line.len(),
{
    let whole = line + seq!['\n'] + rest;
    if line.len() == 0 {
        assert(line =~= Seq::<char>::empty());
        assert(whole.drop_first() =~= rest);
        assert(with_plain_line_ends(whole) =~= without_carriage_return(line) + seq!['\n']
            + with_plain_line_ends(rest));
    } else {
        let tail = line.drop_first();
        assert forall|i: int| 0 <= i < tail.len() implies tail[i] != '\n' by {
            assert(line.contains(line[i + 1]));
        }
        lemma_plain_line_ends_of_first_line(tail, rest);
        assert(whole.drop_first() =~= tail + seq!['\n'] + rest);
        assert(line.contains(line[0]));
        if line.len() >= 2 {
            assert(line.contains(line[1]));
            assert(whole[1] == line[1]);
            assert(without_carriage_return(line) =~= seq![line[0]] + without_carriage_return(tail));
            assert(with_plain_line_ends(line) =~= line);
            assert(with_plain_line_ends(whole) =~= seq![line[0]] + (without_carriage_return(tail)
                + seq!['\n'] + with_plain_line_ends(rest)));
            assert(with_plain_line_ends(whole) =~= without_carriage_return(line) + seq!['\n']
                + with_plain_line_ends(rest));
        } else {
            assert(tail =~= Seq::<char>::empty());
            assert(with_plain_line_ends(line) =~= line);
            assert(whole[1] == '\n');
            if line[0] == '\r' {
                assert(without_carriage_return(line) =~= Seq::<char>::empty());
            } else {
                assert(without_carriage_return(line) =~= line);
            }
            assert(with_plain_line_ends(whole) =~= without_carriage_return(line) + seq!['\n']
                + with_plain_line_ends(rest));
        }
    }
}

/// The lines of a text hold no line feeds and, joined by line feeds, give the text back, with
/// plain line ends and without the last one. There are as many as there are line feeds, and
/// one more where something stands behind the last.
pub proof fn law_lines_give_the_text_back(text: Seq<char>)
    ensures
        joined(lines_of(text), "\n"@) == without_last_line_feed(with_plain_line_ends(text)),
        ends_with_line_feed(with_plain_line_ends(text)) == ends_with_line_feed(text),
        lines_of(text).len() == line_count(text),
        forall|i: int| 0 <= i < lines_of(text).len() ==> line_feeds(#[trigger] lines_of(text)[i]) == 0,
    decreases text.len(),
{
    reveal_strlit("\n");
    assert("\n"@ =~= seq!['\n']);
    let end = find_char(text, '\n');
    lemma_find_char(text, '\n');
    if text.len() == 0 {
        assert(with_plain_line_ends(text) =~= Seq::<char>::empty());
    } else if end == text.len() {
        assert(!text.contains('\n'));
        lemma_plain_line_ends_of_first_line(text, Seq::empty());
        lemma_no_line_feeds(text);
        assert(text.last() == text[text.len() - 1]);
        assert(lines_of(text)[0] == text);
    } else {
        let line = text.take(end);
        let rest = text.skip(end + 1);
        let shown = without_carriage_return(line);
        let feed = seq!['\n'];
        assert(text =~= line + feed + rest);
        assert(!line.contains('\n'));
        lemma_plain_line_ends_of_first_line(line, rest);
        lemma_no_line_feeds(line);
        assert(!shown.contains('\n')) by {
            assert forall|i: int| 0 <= i < shown.len() implies shown[i] != '\n' by {
                assert(shown[i] == line[i]);
            }
        }
        lemma_no_line_feeds(shown);
        law_lines_give_the_text_back(rest);
        lemma_line_feeds_concat(line, feed);
        lemma_line_feeds_concat(line + feed, rest);
        assert(feed.drop_last() =~= Seq::<char>::empty());
        assert(line_feeds(feed.drop_last()) == 0);
        assert(line_feeds(feed) == 1);
        let plain = with_plain_line_ends(text);
        let plain_rest = with_plain_line_ends(rest);
        assert(plain == shown + feed + plain_rest);
        assert forall|i: int| 0 <= i < lines_of(text).len() implies line_feeds(
            #[trigger] lines_of(text)[i],
        ) == 0 by {
            if i > 0 {
                assert(lines_of(text)[i] == lines_of(rest)[i - 1]);
            }
        }
        if rest.len() == 0 {
            assert(lines_of(text) =~= seq![shown]);
            assert(plain_rest =~= Seq::<char>::empty());
            assert(plain =~= shown + feed);
            assert(plain.drop_last() =~= shown);
            assert(text.last() == '\n');
        } else {
            lemma_plain_is_not_empty(rest);
            assert(text.last() == rest.last());
            assert(plain.last() == plain_rest.last());
            assert(lines_of(rest).len() > 0) by {
                if rest.last() == '\n' {
                    assert(line_feeds(rest) >= 1);
                }
            }
            law_joining_is_piecewise(seq![shown], lines_of(rest), shown, "\n"@);
            assert(joined(lines_of(text), "\n"@) == shown + feed + joined(lines_of(rest), "\n"@));
            assert(without_last_line_feed(plain) =~= shown + feed + without_last_line_feed(
                plain_rest,
            ));
        }
    }
}

/// Something is left of a text whose line ends become plain.
proof fn lemma_plain_is_not_empty(text: Seq<char>)
    requires
        text.len() > 0,
    ensures
        with_plain_line_ends(text).len() > 0,
    decreases text.len(),
{
    if text.len() >= 2 {
        lemma_plain_is_not_empty(text.drop_first());
    }
}

/// A text without carriage returns has plain line ends.
pub proof fn law_plain_line_ends_change_only_carriage_returns(text: Seq<char>)
    requires
        !text.contains('\r'),
    ensures
        with_plain_line_ends(text) == text,
    decreases text.len(),
{
    if text.len() > 0 {
        let tail = text.drop_first();
        assert(text.contains(text[0]));
        assert forall|i: int| 0 <= i < tail.len() implies tail[i] != '\r' by {
            assert(text.contains(text[i + 1]));
        }
        law_plain_line_ends_change_only_carriage_returns(tail);
        assert(with_plain_line_ends(text) =~= text);
    }
}

/// A number in decimal is made of digits, denotes the number, and has no leading zero.
pub proof fn law_decimal_denotes_its_number(n: nat)
    ensures
        decimal(n).len() > 0,
        forall|i: int| 0 <= i < decimal(n).len() ==> '0' <= #[trigger] decimal(n)[i] <= '9',
        decimal(n).len() > 1 ==> decimal(n)[0] != '0',
        value_of(decimal(n)) == n,
    decreases n,
{
    if n >= 10 {
        law_decimal_denotes_its_number(n / 10);
        let front = decimal(n / 10);
        assert(decimal(n).drop_last() =~= front);
        assert forall|i: int| 0 <= i < decimal(n).len() implies '0' <= #[trigger] decimal(n)[i]
            <= '9' by {
            if i < front.len() {
                assert(decimal(n)[i] == front[i]);
            }
        }
        assert(decimal(n)[0] == front[0]);
        if front.len() == 1 {
            assert(front.drop_last() =~= Seq::<char>::empty());
            assert(value_of(front.drop_last()) == 0);
        }
    } else {
        assert(decimal(n).drop_last() =~= Seq::<char>::empty());
        assert(value_of(decimal(n).drop_last()) == 0);
    }
}

/// The end of every prefix is a character boundary.
proof fn lemma_prefix_ends_at_boundary(s: Seq<char>, count: int)
    requires
        0 <= count <= s.len(),
    ensures
        is_char_boundary(encode_utf8(s), encode_utf8(s.take(count)).len() as int),
        encode_utf8(s.take(count)).len() <= encode_utf8(s).len(),
    decreases count,
{
    encode_utf8_valid_utf8(s);
    let bytes = encode_utf8(s);
    lemma_encode_concat(s.take(count), s.skip(count));
    assert(s =~= s.take(count) + s.skip(count));
    if count == 0 {
        assert(encode_utf8(s.take(0)).len() == 0);
    } else {
        let rest = s.drop_first();
        lemma_prefix_ends_at_boundary(rest, count - 1);
        encode_utf8_first_scalar(s);
        assert(pop_first_scalar(bytes) =~= encode_utf8(rest));
        assert(s.take(count).drop_first() =~= rest.take(count - 1));
        assert(encode_utf8(s.take(count)).len() == encode_scalar(s[0] as u32).len() + encode_utf8(
            rest.take(count - 1),
        ).len());
    }
}

/// A cut within a limit takes as many whole characters as fit, and leaves all the others.
pub proof fn law_cut_takes_what_fits(s: Seq<char>, limit: int)
    requires
        0 <= limit <= encode_utf8(s).len(),
    ensures
        prefix_within(s, limit).len() <= s.len(),
        prefix_within(s, limit) == s.take(prefix_within(s, limit).len() as int),
        suffix_beyond(s, limit) == s.skip(prefix_within(s, limit).len() as int),
        encode_utf8(prefix_within(s, limit)).len() <= limit,
        prefix_within(s, limit).len() < s.len() ==> encode_utf8(
            s.take(prefix_within(s, limit).len() as int + 1),
        ).len() > limit,
{
    lemma_cut_within(s, limit);
    let head = prefix_within(s, limit);
    let count = head.len() as int;
    assert(s.take(count) =~= head);
    assert(s.skip(count) =~= suffix_beyond(s, limit));
    let bytes = encode_utf8(s);
    encode_utf8_valid_utf8(s);
    lemma_boundary_is_greatest(bytes, limit);
    let at = boundary_at_or_before(bytes, limit);
    valid_utf8_split(bytes, at);
    assert(bytes.take(at) =~= bytes.subrange(0, at));
    decode_utf8_encode_utf8(bytes.take(at));
    assert(encode_utf8(head).len() == at);
    if count < s.len() {
        let longer = s.take(count + 1);
        lemma_prefix_ends_at_boundary(s, count + 1);
        lemma_encode_concat(head, seq![s[count]]);
        assert(longer =~= head + seq![s[count]]);
        assert(encode_utf8(seq![s[count]]).len() > 0);
    }
}

/// Only slashes go from the end of a text, and all of them.
pub proof fn law_only_trailing_slashes_go(s: Seq<char>)
    ensures
        without_trailing_slashes(s).len() <= s.len(),
        without_trailing_slashes(s) == s.take(without_trailing_slashes(s).len() as int),
        forall|i: int| without_trailing_slashes(s).len() <= i < s.len() ==> s[i] == '/',
        without_trailing_slashes(s).len() > 0 ==> without_trailing_slashes(s).last() != '/',
    decreases s.len(),
{
    if s.len() > 0 && s.last() == '/' {
        let front = s.drop_last();
        law_only_trailing_slashes_go(front);
        assert forall|i: int| without_trailing_slashes(s).len() <= i < s.len() implies s[i]
            == '/' by {
            if i < front.len() {
                assert(s[i] == front[i]);
            }
        }
    }
}

/// The last segment of a path has no slash, and is the path or stands behind a slash of it.
pub proof fn law_last_segment_stands_behind_the_last_slash(path: Seq<char>)
    ensures
        !last_segment(path).contains('/'),
        last_segment(path).len() <= path.len(),
        last_segment(path) == path.skip(path.len() - last_segment(path).len()),
        last_segment(path).len() < path.len() ==> path[path.len() - last_segment(path).len() - 1]
            == '/',
    decreases path.len(),
{
    if path.len() == 0 || path.last() == '/' {
        assert(path.skip(path.len() as int) =~= Seq::<char>::empty());
    } else {
        let front = path.drop_last();
        law_last_segment_stands_behind_the_last_slash(front);
        let segment = last_segment(path);
        assert(segment =~= path.skip(path.len() - segment.len()));
        assert forall|i: int| 0 <= i < segment.len() implies segment[i] != '/' by {
            if i < segment.len() - 1 {
                assert(segment[i] == last_segment(front)[i]);
                assert(last_segment(front).contains(last_segment(front)[i]));
            }
        }
    }
}

/// The models of strings are their characters, one by one and in order.
pub proof fn law_models_of_strings(
    strings: Seq<String>,
    slices: Seq<&str>,
    string: String,
    text: Seq<char>,
)
    ensures
        texts(strings).len() == strings.len(),
        forall|i: int| 0 <= i < strings.len() ==> #[trigger] texts(strings)[i] == strings[i]@,
        str_texts(slices).len() == slices.len(),
        forall|i: int| 0 <= i < slices.len() ==> #[trigger] str_texts(slices)[i] == slices[i]@,
        opt_text(Some(string)) == Some(string@),
        opt_text(None) == None::<Seq<char>>,
        or_empty(Some(text)) == text,
        or_empty(None) == Seq::<char>::empty(),
{
}

} // verus!
