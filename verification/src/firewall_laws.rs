//! Laws of the firewall: when an output is replaced, and what its digest shows, told from the
//! settings and from the characters of the output.

use crate::config::{ArchiveConfig, Config};
use crate::firewall::{
    digest, digest_footer, digest_header, excerpt, firewallable, firewalled, size_head, size_tail,
};
use crate::text::{decimal, joined, lemma_encode_concat, lines_of};
use crate::text_laws::{
    law_cut_takes_what_fits, law_joining_is_piecewise, law_lines_give_the_text_back,
    law_plain_line_ends_change_only_carriage_returns, lemma_joined_line_feeds, line_count,
    line_feeds, with_plain_line_ends, without_last_line_feed,
};
use vstd::prelude::*;
use vstd::string::*;
use vstd::utf8::*;

verus! {

/// Without an archive nothing is replaced. With one, ephemeral mode is what the environment
/// asks for, and what is set where it asks for nothing; so is the threshold.
pub proof fn law_environment_wins_over_settings(archive: ArchiveConfig, wanted: bool, tokens: usize)
    ensures
        !archive.enabled ==> !archive.spec_ephemeral(),
        archive.enabled && archive.ephemeral_override == Some(wanted) ==> archive.spec_ephemeral()
            == wanted,
        archive.enabled && archive.ephemeral_override is None ==> archive.spec_ephemeral()
            == archive.ephemeral,
        archive.ephemeral_min_tokens_override == Some(tokens) ==> archive.spec_min_tokens()
            == tokens,
        archive.ephemeral_min_tokens_override is None ==> archive.spec_min_tokens()
            == archive.ephemeral_min_tokens,
{
}

/// The tools whose outputs may be replaced are the four output tools.
pub proof fn law_four_tools_are_firewallable(name: Seq<char>)
    ensures
        firewallable(name) <==> seq![
            "ctx_shell"@,
            "ctx_execute"@,
            "ctx_search"@,
            "ctx_tree"@,
        ].contains(name),
{
    let tools = seq!["ctx_shell"@, "ctx_execute"@, "ctx_search"@, "ctx_tree"@];
    assert(tools[0] == "ctx_shell"@);
    assert(tools[1] == "ctx_execute"@);
    assert(tools[2] == "ctx_search"@);
    assert(tools[3] == "ctx_tree"@);
}

/// While the archive is enabled and ephemeral mode is on, every output of each of the four
/// output tools that reaches the threshold is replaced, and none below it is.
pub proof fn law_large_outputs_of_output_tools_are_firewalled(output_tokens: usize, config: Config)
    requires
        config.archive.enabled,
        config.archive.ephemeral_override == Some(true) || (config.archive.ephemeral_override is None
            && config.archive.ephemeral),
    ensures
        ({
            let threshold = match config.archive.ephemeral_min_tokens_override {
                Some(tokens) => tokens,
                None => config.archive.ephemeral_min_tokens,
            };
            let large = output_tokens >= threshold;
            &&& firewalled("ctx_shell"@, output_tokens, config) == large
            &&& firewalled("ctx_execute"@, output_tokens, config) == large
            &&& firewalled("ctx_search"@, output_tokens, config) == large
            &&& firewalled("ctx_tree"@, output_tokens, config) == large
        }),
{
}

/// Nothing is replaced, however large, while there is no archive to keep it in or ephemeral mode
/// is off.
pub proof fn law_nothing_is_firewalled_while_off(
    tool: Seq<char>,
    output_tokens: usize,
    config: Config,
)
    requires
        !config.archive.enabled || config.archive.ephemeral_override == Some(false) || (
        config.archive.ephemeral_override is None && !config.archive.ephemeral),
    ensures
        !firewalled(tool, output_tokens, config),
{
}

/// The four output tools are treated alike, and every other tool is left alone.
pub proof fn law_output_tools_are_treated_alike(
    tool: Seq<char>,
    output_tokens: usize,
    config: Config,
)
    ensures
        firewalled("ctx_shell"@, output_tokens, config) == firewalled(
            "ctx_execute"@,
            output_tokens,
            config,
        ),
        firewalled("ctx_shell"@, output_tokens, config) == firewalled(
            "ctx_search"@,
            output_tokens,
            config,
        ),
        firewalled("ctx_shell"@, output_tokens, config) == firewalled(
            "ctx_tree"@,
            output_tokens,
            config,
        ),
        tool != "ctx_shell"@ && tool != "ctx_execute"@ && tool != "ctx_search"@ && tool
            != "ctx_tree"@ ==> !firewalled(tool, output_tokens, config),
{
}

/// Whether `text`, apart from a line feed at its end, is `head`, `middle` and `tail` with line
/// feeds between them, the first being its first twenty lines and the last its last eight.
pub open spec fn parted_by_lines(
    text: Seq<char>,
    head: Seq<char>,
    middle: Seq<char>,
    tail: Seq<char>,
) -> bool {
    &&& without_last_line_feed(text) == head + seq!['\n'] + middle + seq!['\n'] + tail
    &&& line_feeds(head) == 19
    &&& line_feeds(tail) == 7
}

/// Whether the first `count` characters of `text` are all that fit in `limit` bytes.
pub open spec fn fits_up_to(text: Seq<char>, count: int, limit: int) -> bool {
    &&& 0 <= count <= text.len()
    &&& encode_utf8(text.take(count)).len() <= limit
    &&& count < text.len() ==> encode_utf8(text.take(count + 1)).len() > limit
}

/// The first line of every digest names the tool and gives the size of the output in bytes,
/// in tokens and in lines; its last lines are the calls that fetch the archived output, whole
/// and in part. Between them stands the excerpt, which depends on the output alone.
#[verifier::rlimit(60)]
pub proof fn law_digest_frames_an_excerpt_of_the_output(
    full: Seq<char>,
    archive_id: Seq<char>,
    tool: Seq<char>,
    output_tokens: nat,
)
    ensures
        digest(full, archive_id, tool, output_tokens) == ("[Firewalled "@ + tool + " output — "@
            + decimal(encode_utf8(full).len()) + " chars, "@ + decimal(output_tokens) + " tok, "@
            + decimal(line_count(full)) + " lines stored out-of-band]\n"@) + excerpt(full) + (
        "--- retrieve full output ---\n"@ + "Full:    "@ + ("ctx_expand(id=\""@ + archive_id
            + "\")"@) + "\n"@ + "Range:   ctx_expand(id=\""@ + archive_id
            + "\", start_line=1, end_line=80)\n"@ + "Head:    ctx_expand(id=\""@ + archive_id
            + "\", head=120)\n"@ + "Search:  ctx_expand(id=\""@ + archive_id
            + "\", search=\"ERROR\")\n"@ + "JSON:    ctx_expand(id=\""@ + archive_id
            + "\", json_keys=true)"@),
{
    law_lines_give_the_text_back(full);
}

/// The first twenty lines, those between, and the last eight part a text of many lines.
#[verifier::rlimit(60)]
proof fn lemma_lines_are_parted(full: Seq<char>)
    requires
        line_count(full) > 29,
    ensures
        ({
            let lines = lines_of(full);
            let count = lines.len() as int;
            let head = joined(lines.take(20), "\n"@);
            let middle = joined(lines.subrange(20, count - 8), "\n"@);
            let tail = joined(lines.skip(count - 8), "\n"@);
            &&& count > 29
            &&& parted_by_lines(with_plain_line_ends(full), head, middle, tail)
            &&& line_feeds(middle) + 1 == count - 28
        }),
{
    reveal_strlit("\n");
    assert("\n"@ =~= seq!['\n']);
    law_lines_give_the_text_back(full);
    let lines = lines_of(full);
    let count = lines.len() as int;
    let first = lines.take(20);
    let omitted = lines.subrange(20, count - 8);
    let last = lines.skip(count - 8);
    assert forall|i: int| 0 <= i < first.len() implies line_feeds(#[trigger] first[i]) == 0 by {
        assert(first[i] == lines[i]);
    }
    assert forall|i: int| 0 <= i < omitted.len() implies line_feeds(#[trigger] omitted[i])
        == 0 by {
        assert(omitted[i] == lines[i + 20]);
    }
    assert forall|i: int| 0 <= i < last.len() implies line_feeds(#[trigger] last[i]) == 0 by {
        assert(last[i] == lines[i + count - 8]);
    }
    lemma_joined_line_feeds(first);
    lemma_joined_line_feeds(omitted);
    lemma_joined_line_feeds(last);
    assert(lines =~= first + omitted + last);
    law_joining_is_piecewise(first, omitted, Seq::empty(), "\n"@);
    law_joining_is_piecewise(first + omitted, last, Seq::empty(), "\n"@);
}

/// The head of a parted text starts it, and the tail ends it.
proof fn lemma_ends_of_parted_text(
    text: Seq<char>,
    head: Seq<char>,
    middle: Seq<char>,
    tail: Seq<char>,
)
    requires
        parted_by_lines(text, head, middle, tail),
    ensures
        head.is_prefix_of(text),
        tail.is_suffix_of(without_last_line_feed(text)),
{
    let body = without_last_line_feed(text);
    assert(body.take(head.len() as int) =~= head);
    assert(text.take(head.len() as int) =~= head);
    assert(body.skip(body.len() - tail.len()) =~= tail);
}

/// Of an output of more than 29 lines, a digest shows the first twenty lines and the last
/// eight, as they stand in the output with plain line ends, and how many lines there are
/// between them. What stands between the head's title and the omission is a start of the
/// output, and what stands below the tail's title is its end.
#[verifier::rlimit(60)]
pub proof fn law_excerpt_of_many_lines_shows_both_ends(full: Seq<char>)
    requires
        line_count(full) > 29,
    ensures
        exists|head: Seq<char>, middle: Seq<char>, tail: Seq<char>| #[trigger]
            parted_by_lines(with_plain_line_ends(full), head, middle, tail) && excerpt(full)
                == "--- head ---\n"@ + head + "\n--- … "@ + decimal(line_feeds(middle) + 1)
                + " lines omitted … ---\n"@ + "--- tail ---\n"@ + tail + "\n"@ && (!full.contains(
                '\r',
            ) ==> head.is_prefix_of(full) && tail.is_suffix_of(without_last_line_feed(full))),
{
    let lines = lines_of(full);
    let count = lines.len() as int;
    let head = joined(lines.take(20), "\n"@);
    let middle = joined(lines.subrange(20, count - 8), "\n"@);
    let tail = joined(lines.skip(count - 8), "\n"@);
    lemma_lines_are_parted(full);
    assert(parted_by_lines(with_plain_line_ends(full), head, middle, tail));
    if !full.contains('\r') {
        law_plain_line_ends_change_only_carriage_returns(full);
        lemma_ends_of_parted_text(full, head, middle, tail);
    }
}

/// In the digest of an output of more than 29 lines, what stands between the head's title and
/// the omission is the first twenty lines of the output, and what stands below the tail's title
/// is the last eight, with plain line ends; in the output itself, where it has no carriage
/// returns, the one is a start and the other the end.
#[verifier::rlimit(60)]
pub proof fn law_digest_of_many_lines_shows_both_ends(
    full: Seq<char>,
    archive_id: Seq<char>,
    tool: Seq<char>,
    output_tokens: nat,
)
    requires
        line_count(full) > 29,
    ensures
        exists|before: Seq<char>, head: Seq<char>, middle: Seq<char>, tail: Seq<char>, after: Seq<
            char,
        >|
            #![trigger parted_by_lines(with_plain_line_ends(full), head, middle, tail), before + after]
            parted_by_lines(with_plain_line_ends(full), head, middle, tail) && digest(
                full,
                archive_id,
                tool,
                output_tokens,
            ) == before + ("--- head ---\n"@ + head + "\n--- … "@ + decimal(line_feeds(middle) + 1)
                + " lines omitted … ---\n"@ + "--- tail ---\n"@ + tail + "\n"@) + after && (
            !full.contains('\r') ==> head.is_prefix_of(full) && tail.is_suffix_of(
                without_last_line_feed(full),
            )),
{
    law_excerpt_of_many_lines_shows_both_ends(full);
    let (head, middle, tail) = choose|head: Seq<char>, middle: Seq<char>, tail: Seq<char>|
        #[trigger]
        parted_by_lines(with_plain_line_ends(full), head, middle, tail) && excerpt(full)
            == "--- head ---\n"@ + head + "\n--- … "@ + decimal(line_feeds(middle) + 1)
            + " lines omitted … ---\n"@ + "--- tail ---\n"@ + tail + "\n"@ && (!full.contains('\r')
            ==> head.is_prefix_of(full) && tail.is_suffix_of(without_last_line_feed(full)));
    let before = digest_header(full, tool, output_tokens);
    let after = digest_footer(archive_id);
    let both = before + after;
    assert(digest(full, archive_id, tool, output_tokens) == before + excerpt(full) + after);
    assert(parted_by_lines(with_plain_line_ends(full), head, middle, tail));
}

/// Of an output of at most 29 lines, a digest shows as many whole characters of the start as
/// fit in 800 bytes. Where the output takes more than 1100 bytes, it also shows the end: all
/// characters behind those that fit in all bytes but the last 300.
#[verifier::rlimit(60)]
pub proof fn law_excerpt_of_few_lines_shows_what_fits(full: Seq<char>)
    requires
        line_count(full) <= 29,
    ensures
        exists|shown: int| #[trigger]
            fits_up_to(full, shown, 800) && (encode_utf8(full).len() <= 1100 ==> excerpt(full)
                == full.take(shown)),
        encode_utf8(full).len() > 1100 ==> exists|shown: int, hidden: int|
            #![trigger fits_up_to(full, shown, 800), fits_up_to(full, hidden, encode_utf8(full).len() - 300)]
            fits_up_to(full, shown, 800) && fits_up_to(
                full,
                hidden,
                encode_utf8(full).len() - 300,
            ) && excerpt(full) == full.take(shown) + "\n… (truncated) …\n"@ + full.skip(hidden)
                + "\n"@,
{
    law_lines_give_the_text_back(full);
    let size = encode_utf8(full).len() as int;
    let limit = if size < 800 {
        size
    } else {
        800
    };
    law_cut_takes_what_fits(full, limit);
    let shown = size_head(full).len() as int;
    if size < 800 && shown < full.len() {
        let longer = full.take(shown + 1);
        lemma_encode_concat(longer, full.skip(shown + 1));
        assert(full =~= longer + full.skip(shown + 1));
    }
    assert(fits_up_to(full, shown, 800));
    assert(full.take(shown) =~= size_head(full));
    if size > 1100 {
        law_cut_takes_what_fits(full, size - 300);
        let hidden = full.len() - size_tail(full).len();
        assert(fits_up_to(full, hidden, size - 300));
        assert(full.skip(hidden) =~= size_tail(full));
    }
}

} // verus!
