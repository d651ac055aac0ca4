//! Context firewall: a large tool output is stored out-of-band, and a compact digest with
//! instructions to fetch it back stands in its place.
//!
//! The digest is a head/tail excerpt, size figures and `ctx_expand` calls. Only outputs of
//! tools are replaced (`ctx_shell`, `ctx_execute`, `ctx_search`, `ctx_tree`); explicit file
//! reads never are.

use crate::config::Config;
use crate::text::{
    decimal, joined, lemma_cut_monotone, lemma_cut_within, lemma_decimal_len_u64,
    lemma_joined_size, lemma_lines_size, lemma_total_size_concat, lemma_utf8_len_bounds,
    lemma_utf8_len_concat, lines_of, prefix_within, push_decimal, push_joined, same_text,
    split_lines, split_within, str_texts, suffix_beyond, utf8_len,
};
use vstd::prelude::*;
use vstd::string::*;
use vstd::utf8::*;

verus! {

/// Lines of the head of a digest.
pub const HEAD_LINES: usize = 20;

/// Lines of the tail of a digest.
pub const TAIL_LINES: usize = 8;

/// Bytes of the head of a digest of few lines.
pub const LONG_LINE_HEAD_CHARS: usize = 800;

/// Bytes of the tail of a digest of few lines.
pub const LONG_LINE_TAIL_CHARS: usize = 300;

/// The tools whose outputs may be replaced.
pub open spec fn firewallable(name: Seq<char>) -> bool {
    ||| name == "ctx_shell"@
    ||| name == "ctx_execute"@
    ||| name == "ctx_search"@
    ||| name == "ctx_tree"@
}

/// When an output of `output_tokens` tokens is replaced.
pub open spec fn firewalled(tool: Seq<char>, output_tokens: usize, config: Config) -> bool {
    &&& config.archive.spec_ephemeral()
    &&& firewallable(tool)
    &&& output_tokens >= config.archive.spec_min_tokens()
}

/// First line of a digest: which tool, and how large its output was.
pub open spec fn digest_header(full: Seq<char>, tool: Seq<char>, output_tokens: nat) -> Seq<char> {
    "[Firewalled "@ + tool + " output — "@ + decimal(utf8_len(full)) + " chars, "@ + decimal(
        output_tokens,
    ) + " tok, "@ + decimal(lines_of(full).len()) + " lines stored out-of-band]\n"@
}

/// Whether an output has so many lines that its excerpt is made of lines.
pub open spec fn has_many_lines(full: Seq<char>) -> bool {
    lines_of(full).len() > HEAD_LINES + TAIL_LINES + 1
}

/// The lines that a digest made of lines leaves out.
pub open spec fn omitted_lines(full: Seq<char>) -> Seq<Seq<char>> {
    lines_of(full).subrange(HEAD_LINES as int, lines_of(full).len() - TAIL_LINES)
}

/// Excerpt of an output of many lines: the first ones and the last ones.
pub open spec fn line_excerpt(full: Seq<char>) -> Seq<char> {
    let lines = lines_of(full);
    "--- head ---\n"@ + joined(lines.take(HEAD_LINES as int), "\n"@) + "\n--- … "@ + decimal(
        (lines.len() - HEAD_LINES - TAIL_LINES) as nat,
    ) + " lines omitted … ---\n"@ + "--- tail ---\n"@ + joined(
        lines.skip(lines.len() - TAIL_LINES),
        "\n"@,
    ) + "\n"@
}

/// Start of an output, as an excerpt by size shows it.
pub open spec fn size_head(full: Seq<char>) -> Seq<char> {
    if utf8_len(full) < LONG_LINE_HEAD_CHARS {
        prefix_within(full, utf8_len(full) as int)
    } else {
        prefix_within(full, LONG_LINE_HEAD_CHARS as int)
    }
}

/// Whether an excerpt by size also shows the end of the output.
pub open spec fn has_size_tail(full: Seq<char>) -> bool {
    utf8_len(full) > LONG_LINE_HEAD_CHARS + LONG_LINE_TAIL_CHARS
}

/// End of an output, as an excerpt by size shows it.
pub open spec fn size_tail(full: Seq<char>) -> Seq<char> {
    suffix_beyond(full, utf8_len(full) - LONG_LINE_TAIL_CHARS)
}

/// Excerpt of an output of few lines, bounded by size.
pub open spec fn size_excerpt(full: Seq<char>) -> Seq<char> {
    if has_size_tail(full) {
        size_head(full) + "\n… (truncated) …\n"@ + size_tail(full) + "\n"@
    } else {
        size_head(full)
    }
}

/// Excerpt that a digest shows.
pub open spec fn excerpt(full: Seq<char>) -> Seq<char> {
    if has_many_lines(full) {
        line_excerpt(full)
    } else {
        size_excerpt(full)
    }
}

/// The call that brings back all of an archived output.
pub open spec fn retrieval_call(archive_id: Seq<char>) -> Seq<char> {
    "ctx_expand(id=\""@ + archive_id + "\")"@
}

/// End of a digest: how to get at the archived output.
pub open spec fn digest_footer(archive_id: Seq<char>) -> Seq<char> {
    "--- retrieve full output ---\n"@ + "Full:    "@ + retrieval_call(archive_id) + "\n"@
        + "Range:   ctx_expand(id=\""@ + archive_id + "\", start_line=1, end_line=80)\n"@
        + "Head:    ctx_expand(id=\""@ + archive_id + "\", head=120)\n"@
        + "Search:  ctx_expand(id=\""@ + archive_id + "\", search=\"ERROR\")\n"@
        + "JSON:    ctx_expand(id=\""@ + archive_id + "\", json_keys=true)"@
}

/// The digest that stands in for `full`.
pub open spec fn digest(
    full: Seq<char>,
    archive_id: Seq<char>,
    tool: Seq<char>,
    output_tokens: nat,
) -> Seq<char> {
    digest_header(full, tool, output_tokens) + excerpt(full) + digest_footer(archive_id)
}

/// Whether large outputs of the tool `name` may be replaced. Explicit file reads are left
/// alone: they have read modes of their own.
pub fn is_firewallable_tool(name: &str) -> (eligible: bool)
    ensures
        eligible == firewallable(name@),
{
    same_text(name, "ctx_shell") || same_text(name, "ctx_execute") || same_text(
        name,
        "ctx_search",
    ) || same_text(name, "ctx_tree")
}

/// Token count from which an output is replaced.
pub fn min_tokens(config: &Config) -> (tokens: usize)
    ensures
        tokens == config.archive.spec_min_tokens(),
{
    config.archive.ephemeral_min_tokens_effective()
}

/// Whether an output of `output_tokens` tokens of `tool` is to be replaced.
pub fn should_firewall(tool: &str, output_tokens: usize, config: &Config) -> (replace: bool)
    ensures
        replace == firewalled(tool@, output_tokens, *config),
{
    config.archive.ephemeral_effective() && is_firewallable_tool(tool) && output_tokens
        >= min_tokens(config)
}

/// Appends the first line of the digest of `full`, which has `line_count` lines.
#[verifier::rlimit(40)]
fn push_header(
    out: &mut String,
    full: &str,
    tool: &str,
    output_tokens: usize,
    size: usize,
    line_count: usize,
)
    requires
        size == utf8_len(full@),
        line_count == lines_of(full@).len(),
    ensures
        final(out)@ == old(out)@ + digest_header(full@, tool@, output_tokens as nat),
{
    out.append("[Firewalled ");
    out.append(tool);
    out.append(" output — ");
    push_decimal(out, size);
    out.append(" chars, ");
    push_decimal(out, output_tokens);
    out.append(" tok, ");
    push_decimal(out, line_count);
    out.append(" lines stored out-of-band]\n");
    assert(out@ =~= old(out)@ + digest_header(full@, tool@, output_tokens as nat));
}

/// Appends the excerpt of `full`, which has the many `lines`.
#[verifier::rlimit(40)]
fn push_line_excerpt(out: &mut String, full: &str, lines: &Vec<&str>)
    requires
        str_texts(lines@) == lines_of(full@),
        has_many_lines(full@),
    ensures
        final(out)@ == old(out)@ + line_excerpt(full@),
{
    let line_count: usize = lines.len();
    let ghost all = lines_of(full@);
    assert(all.len() == lines@.len());
    out.append("--- head ---\n");
    push_joined(out, lines, 0, HEAD_LINES, "\n");
    out.append("\n--- … ");
    push_decimal(out, line_count - HEAD_LINES - TAIL_LINES);
    out.append(" lines omitted … ---\n");
    out.append("--- tail ---\n");
    push_joined(out, lines, line_count - TAIL_LINES, line_count, "\n");
    out.append("\n");
    assert(all.subrange(0, HEAD_LINES as int) =~= all.take(HEAD_LINES as int));
    assert(all.subrange(line_count - TAIL_LINES, line_count as int) =~= all.skip(
        all.len() - TAIL_LINES,
    ));
    assert(out@ =~= old(out)@ + line_excerpt(full@));
}

/// Appends the excerpt by size of `full`.
fn push_size_excerpt(out: &mut String, full: &str, size: usize)
    requires
        size == utf8_len(full@),
    ensures
        final(out)@ == old(out)@ + size_excerpt(full@),
{
    let head_limit: usize = if size < LONG_LINE_HEAD_CHARS {
        size
    } else {
        LONG_LINE_HEAD_CHARS
    };
    let (head, _) = split_within(full, head_limit);
    out.append(head);
    if size > LONG_LINE_HEAD_CHARS + LONG_LINE_TAIL_CHARS {
        out.append("\n… (truncated) …\n");
        let (_, tail) = split_within(full, size - LONG_LINE_TAIL_CHARS);
        out.append(tail);
        out.append("\n");
    }
    assert(out@ =~= old(out)@ + size_excerpt(full@));
}

/// Appends the instructions to fetch the output archived as `archive_id`.
#[verifier::rlimit(40)]
fn push_footer(out: &mut String, archive_id: &str)
    ensures
        final(out)@ == old(out)@ + digest_footer(archive_id@),
{
    out.append("--- retrieve full output ---\n");
    out.append("Full:    ");
    out.append("ctx_expand(id=\"");
    out.append(archive_id);
    out.append("\")");
    out.append("\n");
    out.append("Range:   ctx_expand(id=\"");
    out.append(archive_id);
    out.append("\", start_line=1, end_line=80)\n");
    out.append("Head:    ctx_expand(id=\"");
    out.append(archive_id);
    out.append("\", head=120)\n");
    out.append("Search:  ctx_expand(id=\"");
    out.append(archive_id);
    out.append("\", search=\"ERROR\")\n");
    out.append("JSON:    ctx_expand(id=\"");
    out.append(archive_id);
    out.append("\", json_keys=true)");
    assert(out@ =~= old(out)@ + digest_footer(archive_id@));
}

/// The digest that replaces an output: an excerpt of lines where it has many of them, an
/// excerpt bounded by size where it has few, possibly very long ones, and then the
/// instructions to fetch the rest by `archive_id`.
pub fn summarize(full: &str, archive_id: &str, tool: &str, output_tokens: usize) -> (out: String)
    ensures
        out@ == digest(full@, archive_id@, tool@, output_tokens as nat),
{
    let size: usize = full.as_bytes().len();
    let lines: Vec<&str> = split_lines(full);
    let line_count: usize = lines.len();
    assert(line_count == lines_of(full@).len()) by {
        assert(str_texts(lines@).len() == lines@.len());
    }
    let mut out: String = String::new();
    push_header(&mut out, full, tool, output_tokens, size, line_count);
    if line_count > HEAD_LINES + TAIL_LINES + 1 {
        push_line_excerpt(&mut out, full, &lines);
    } else {
        push_size_excerpt(&mut out, full, size);
    }
    push_footer(&mut out, archive_id);
    assert(out@ =~= digest(full@, archive_id@, tool@, output_tokens as nat));
    out
}

/// Bytes of an output that its digest shows.
pub open spec fn shown_size(full: Seq<char>) -> nat {
    let lines = lines_of(full);
    if has_many_lines(full) {
        utf8_len(joined(lines.take(HEAD_LINES as int), "\n"@)) + utf8_len(
            joined(lines.skip(lines.len() - TAIL_LINES), "\n"@),
        )
    } else if has_size_tail(full) {
        utf8_len(size_head(full)) + utf8_len(size_tail(full))
    } else {
        utf8_len(size_head(full))
    }
}

/// Bytes of the markers around what a digest shows.
pub open spec fn marker_size(full: Seq<char>) -> nat {
    if has_many_lines(full) {
        utf8_len("--- head ---\n"@) + utf8_len("\n--- … "@) + utf8_len(
            decimal((lines_of(full).len() - HEAD_LINES - TAIL_LINES) as nat),
        ) + utf8_len(" lines omitted … ---\n"@) + utf8_len("--- tail ---\n"@) + utf8_len("\n"@)
    } else if has_size_tail(full) {
        utf8_len("\n… (truncated) …\n"@) + utf8_len("\n"@)
    } else {
        0
    }
}

/// Bytes of a digest apart from what it shows.
pub open spec fn frame_size(
    full: Seq<char>,
    archive_id: Seq<char>,
    tool: Seq<char>,
    output_tokens: nat,
) -> nat {
    utf8_len(digest_header(full, tool, output_tokens)) + marker_size(full) + utf8_len(
        digest_footer(archive_id),
    )
}

/// Nothing is replaced while ephemeral mode is off, nor is any output but those of the four
/// output tools: an explicit file read never is.
pub proof fn law_firewall_needs_mode_and_tool(tool: Seq<char>, output_tokens: usize, config: Config)
    ensures
        firewalled(tool, output_tokens, config) ==> config.archive.spec_ephemeral(),
        firewalled(tool, output_tokens, config) ==> tool == "ctx_shell"@ || tool
            == "ctx_execute"@ || tool == "ctx_search"@ || tool == "ctx_tree"@,
        !firewalled("ctx_read"@, output_tokens, config),
        !firewalled("ctx_multi_read"@, output_tokens, config),
{
    reveal_strlit("ctx_shell");
    reveal_strlit("ctx_execute");
    reveal_strlit("ctx_search");
    reveal_strlit("ctx_tree");
    reveal_strlit("ctx_read");
    reveal_strlit("ctx_multi_read");
    assert("ctx_read"@[4] != "ctx_tree"@[4]);
    assert("ctx_read"@.len() == 8);
    assert("ctx_multi_read"@.len() == 14);
}

/// The threshold parts small outputs from large ones: what is replaced at some size is
/// replaced at every larger size.
pub proof fn law_firewall_is_monotone(tool: Seq<char>, small: usize, large: usize, config: Config)
    requires
        small <= large,
    ensures
        firewalled(tool, small, config) ==> firewalled(tool, large, config),
{
}

/// Every digest ends with the instructions to fetch the output back, and they hold the call
/// that fetches all of it.
#[verifier::rlimit(40)]
pub proof fn law_digest_tells_how_to_retrieve(
    full: Seq<char>,
    archive_id: Seq<char>,
    tool: Seq<char>,
    output_tokens: nat,
)
    ensures
        digest_footer(archive_id).is_suffix_of(digest(full, archive_id, tool, output_tokens)),
        exists|before: Seq<char>, after: Seq<char>|
            digest_footer(archive_id) == #[trigger] (before + retrieval_call(archive_id) + after),
{
    let id = archive_id;
    let whole = digest(full, id, tool, output_tokens);
    let footer = digest_footer(id);
    assert(whole.skip(whole.len() - footer.len()) =~= footer);
    let before = "--- retrieve full output ---\n"@ + "Full:    "@;
    let after = "\n"@ + "Range:   ctx_expand(id=\""@ + id + "\", start_line=1, end_line=80)\n"@
        + "Head:    ctx_expand(id=\""@ + id + "\", head=120)\n"@ + "Search:  ctx_expand(id=\""@ + id
        + "\", search=\"ERROR\")\n"@ + "JSON:    ctx_expand(id=\""@ + id
        + "\", json_keys=true)"@;
    assert(footer =~= before + retrieval_call(id) + after);
}

/// An excerpt made of lines shows the first and the last lines and counts all the others.
pub proof fn law_line_excerpt_accounts_for_all_lines(full: Seq<char>)
    requires
        has_many_lines(full),
    ensures
        lines_of(full) == lines_of(full).take(HEAD_LINES as int) + omitted_lines(full) + lines_of(
            full,
        ).skip(lines_of(full).len() - TAIL_LINES),
        omitted_lines(full).len() == lines_of(full).len() - HEAD_LINES - TAIL_LINES,
{
}

/// An excerpt by size shows a start and an end of the output, cut between characters and
/// within the bounds, without overlap; an output within the first bound is shown whole.
pub proof fn law_size_excerpt_is_bounded(full: Seq<char>)
    ensures
        size_head(full).is_prefix_of(full),
        utf8_len(size_head(full)) <= LONG_LINE_HEAD_CHARS,
        utf8_len(full) <= LONG_LINE_HEAD_CHARS ==> size_head(full) == full,
        utf8_len(full) > LONG_LINE_HEAD_CHARS ==> utf8_len(size_head(full))
            >= LONG_LINE_HEAD_CHARS - 3,
        has_size_tail(full) ==> {
            &&& size_tail(full).is_suffix_of(full)
            &&& LONG_LINE_TAIL_CHARS <= utf8_len(size_tail(full)) <= LONG_LINE_TAIL_CHARS + 3
            &&& utf8_len(size_head(full)) + utf8_len(size_tail(full)) <= utf8_len(full)
        },
{
    let size = utf8_len(full) as int;
    let limit = if size < LONG_LINE_HEAD_CHARS {
        size
    } else {
        LONG_LINE_HEAD_CHARS as int
    };
    lemma_cut_within(full, limit);
    assert(full.take(size_head(full).len() as int) =~= size_head(full));
    if size <= LONG_LINE_HEAD_CHARS {
        encode_utf8_valid_utf8(full);
        is_char_boundary_start_end_of_seq(encode_utf8(full));
        assert(encode_utf8(full).take(size) =~= encode_utf8(full));
        encode_utf8_decode_utf8(full);
    }
    if has_size_tail(full) {
        lemma_cut_within(full, size - LONG_LINE_TAIL_CHARS);
        lemma_cut_monotone(full, limit, size - LONG_LINE_TAIL_CHARS);
        let start = full.len() - size_tail(full).len();
        assert(full.skip(start) =~= size_tail(full));
    }
}

/// Size of the first line of a digest.
proof fn lemma_header_size(full: Seq<char>, tool: Seq<char>, output_tokens: usize)
    requires
        utf8_len(full) <= usize::MAX,
    ensures
        utf8_len(digest_header(full, tool, output_tokens as nat)) <= utf8_len(tool) + 500,
{
    broadcast use {lemma_utf8_len_concat, lemma_utf8_len_bounds};

    lemma_lines_size(full);
    lemma_decimal_len_u64(utf8_len(full));
    lemma_decimal_len_u64(output_tokens as nat);
    lemma_decimal_len_u64(lines_of(full).len());
    reveal_strlit("[Firewalled ");
    reveal_strlit(" output — ");
    reveal_strlit(" chars, ");
    reveal_strlit(" tok, ");
    reveal_strlit(" lines stored out-of-band]\n");
}

/// Size of the instructions at the end of a digest.
#[verifier::rlimit(40)]
proof fn lemma_footer_size(archive_id: Seq<char>)
    ensures
        utf8_len(digest_footer(archive_id)) <= 5 * utf8_len(archive_id) + 950,
{
    broadcast use {lemma_utf8_len_concat, lemma_utf8_len_bounds};

    reveal_strlit("--- retrieve full output ---\n");
    reveal_strlit("Full:    ");
    reveal_strlit("ctx_expand(id=\"");
    reveal_strlit("\")");
    reveal_strlit("\n");
    reveal_strlit("Range:   ctx_expand(id=\"");
    reveal_strlit("\", start_line=1, end_line=80)\n");
    reveal_strlit("Head:    ctx_expand(id=\"");
    reveal_strlit("\", head=120)\n");
    reveal_strlit("Search:  ctx_expand(id=\"");
    reveal_strlit("\", search=\"ERROR\")\n");
    reveal_strlit("JSON:    ctx_expand(id=\"");
    reveal_strlit("\", json_keys=true)");
}

/// Size of the markers of an excerpt.
proof fn lemma_marker_size(full: Seq<char>)
    requires
        utf8_len(full) <= usize::MAX,
    ensures
        marker_size(full) <= 350,
{
    broadcast use lemma_utf8_len_bounds;

    reveal_strlit("\n");
    lemma_lines_size(full);
    if has_many_lines(full) {
        lemma_decimal_len_u64((lines_of(full).len() - HEAD_LINES - TAIL_LINES) as nat);
        reveal_strlit("--- head ---\n");
        reveal_strlit("\n--- … ");
        reveal_strlit(" lines omitted … ---\n");
        reveal_strlit("--- tail ---\n");
    } else {
        reveal_strlit("\n… (truncated) …\n");
    }
}

/// What a digest shows is a part of the output.
proof fn lemma_shown_size(full: Seq<char>)
    ensures
        shown_size(full) <= utf8_len(full),
{
    if has_many_lines(full) {
        let lines = lines_of(full);
        let head = lines.take(HEAD_LINES as int);
        let tail = lines.skip(lines.len() - TAIL_LINES);
        lemma_lines_size(full);
        law_line_excerpt_accounts_for_all_lines(full);
        lemma_total_size_concat(head, omitted_lines(full));
        lemma_total_size_concat(head + omitted_lines(full), tail);
        reveal_strlit("\n");
        is_ascii_chars_encode_utf8("\n"@);
        lemma_joined_size(head, "\n"@);
        lemma_joined_size(tail, "\n"@);
    } else {
        law_size_excerpt_is_bounded(full);
    }
}

/// A digest is its frame and what it shows of the output. So it is smaller than the output if
/// and only if it leaves out more than its frame takes.
pub proof fn law_digest_is_smaller_when_it_omits_more_than_its_frame(
    full: Seq<char>,
    archive_id: Seq<char>,
    tool: Seq<char>,
    output_tokens: nat,
)
    ensures
        shown_size(full) <= utf8_len(full),
        utf8_len(digest(full, archive_id, tool, output_tokens)) == frame_size(
            full,
            archive_id,
            tool,
            output_tokens,
        ) + shown_size(full),
        utf8_len(digest(full, archive_id, tool, output_tokens)) < utf8_len(full) <==> utf8_len(full)
            - shown_size(full) > frame_size(full, archive_id, tool, output_tokens),
{
    lemma_shown_size(full);
    assert(utf8_len(excerpt(full)) == marker_size(full) + shown_size(full)) by {
        broadcast use lemma_utf8_len_concat;

    }
    let header = digest_header(full, tool, output_tokens);
    lemma_utf8_len_concat(header, excerpt(full));
    lemma_utf8_len_concat(header + excerpt(full), digest_footer(archive_id));
}

/// The frame of a digest is small: 1800 bytes, the tool's name and five times the archive id
/// at most, however large the output is.
pub proof fn law_digest_frame_is_small(
    full: Seq<char>,
    archive_id: Seq<char>,
    tool: Seq<char>,
    output_tokens: usize,
)
    requires
        utf8_len(full) <= usize::MAX,
    ensures
        frame_size(full, archive_id, tool, output_tokens as nat) <= 1800 + utf8_len(tool) + 5
            * utf8_len(archive_id),
{
    lemma_header_size(full, tool, output_tokens);
    lemma_footer_size(archive_id);
    lemma_marker_size(full);
}

/// An output of few lines is replaced by a digest of bounded size, however long it is: a
/// single giant line costs no more than 3000 bytes, the tool's name and five times the
/// archive id.
pub proof fn law_digest_of_few_lines_is_bounded(
    full: Seq<char>,
    archive_id: Seq<char>,
    tool: Seq<char>,
    output_tokens: usize,
)
    requires
        utf8_len(full) <= usize::MAX,
        !has_many_lines(full),
    ensures
        utf8_len(digest(full, archive_id, tool, output_tokens as nat)) <= 3000 + utf8_len(tool) + 5
            * utf8_len(archive_id),
{
    law_digest_is_smaller_when_it_omits_more_than_its_frame(
        full,
        archive_id,
        tool,
        output_tokens as nat,
    );
    law_digest_frame_is_small(full, archive_id, tool, output_tokens);
    law_size_excerpt_is_bounded(full);
}

} // verus!
