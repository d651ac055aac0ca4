use lean_ctx::config::{ArchiveConfig, Config};
use lean_ctx::firewall::{is_firewallable_tool, min_tokens, should_firewall, summarize};

#[test]
fn firewallable_tools_are_outputs_not_reads() {
    assert!(is_firewallable_tool("ctx_shell"));
    assert!(is_firewallable_tool("ctx_search"));
    assert!(is_firewallable_tool("ctx_tree"));
    assert!(is_firewallable_tool("ctx_execute"));
    assert!(!is_firewallable_tool("ctx_read"));
    assert!(!is_firewallable_tool("ctx_multi_read"));
    assert!(!is_firewallable_tool("ctx_knowledge"));
}

#[test]
fn should_firewall_respects_tool_and_threshold() {
    let mut cfg = Config { archive: ArchiveConfig::new(false, 0) };
    cfg.archive.enabled = true;
    cfg.archive.ephemeral = true;
    cfg.archive.ephemeral_min_tokens = 2000;

    assert!(should_firewall("ctx_shell", 5000, &cfg));
    assert!(!should_firewall("ctx_shell", 1000, &cfg)); // below threshold
    assert!(!should_firewall("ctx_read", 5000, &cfg)); // not firewallable
}

#[test]
fn threshold_is_inclusive_and_environment_wins() {
    let mut cfg = Config { archive: ArchiveConfig::new(true, 2000) };
    assert!(cfg.archive.ephemeral);
    assert_eq!(min_tokens(&cfg), 2000);
    assert!(should_firewall("ctx_tree", 2000, &cfg));
    assert!(!should_firewall("ctx_tree", 1999, &cfg));

    cfg.archive.ephemeral_min_tokens_override = Some(10);
    assert_eq!(min_tokens(&cfg), 10);
    assert!(should_firewall("ctx_tree", 10, &cfg));

    cfg.archive.ephemeral_override = Some(false);
    assert!(!should_firewall("ctx_tree", 5000, &cfg));

    cfg.archive.ephemeral = false;
    cfg.archive.ephemeral_override = Some(true);
    assert!(should_firewall("ctx_tree", 5000, &cfg));
    cfg.archive.enabled = false;
    assert!(!should_firewall("ctx_tree", 5000, &cfg));
}

#[test]
fn summarize_includes_excerpt_stats_and_ref() {
    let full = (1..=200)
        .map(|i| format!("line {i}"))
        .collect::<Vec<_>>()
        .join("\n");
    let digest = summarize(&full, "abc123", "ctx_shell", 1234);
    assert!(digest.contains("Firewalled ctx_shell output"));
    assert!(digest.contains("1234 tok"));
    assert!(digest.contains("line 1")); // head
    assert!(digest.contains("line 200")); // tail
    assert!(digest.contains("lines omitted"));
    assert!(digest.contains("ctx_expand(id=\"abc123\")"));
    assert!(digest.contains("json_keys=true"));
    // The digest must be far smaller than the full output.
    assert!(digest.len() < full.len());
}

#[test]
fn summarize_handles_single_giant_line() {
    let full = "x".repeat(5000);
    let digest = summarize(&full, "id9", "ctx_search", 1300);
    assert!(digest.contains("Firewalled ctx_search output"));
    assert!(digest.contains("truncated"));
    assert!(digest.len() < full.len());
}

const FOOTER: &str = "--- retrieve full output ---\n\
Full:    ctx_expand(id=\"A\")\n\
Range:   ctx_expand(id=\"A\", start_line=1, end_line=80)\n\
Head:    ctx_expand(id=\"A\", head=120)\n\
Search:  ctx_expand(id=\"A\", search=\"ERROR\")\n\
JSON:    ctx_expand(id=\"A\", json_keys=true)";

#[test]
fn digest_of_an_empty_output() {
    assert_eq!(
        summarize("", "A", "ctx_tree", 0),
        format!("[Firewalled ctx_tree output — 0 chars, 0 tok, 0 lines stored out-of-band]\n{FOOTER}")
    );
}

#[test]
fn digest_of_a_short_output_shows_all_of_it() {
    assert_eq!(
        summarize("a\r\nb\n", "A", "t", 7),
        format!("[Firewalled t output — 5 chars, 7 tok, 2 lines stored out-of-band]\na\r\nb\n{FOOTER}")
    );
}

#[test]
fn digest_by_lines_starts_at_thirty_lines() {
    let lines: Vec<String> = (1..=30).map(|i| format!("l{i}")).collect();
    let head = lines[..20].join("\n");
    let tail = lines[22..].join("\n");
    let full = lines.join("\r\n") + "\n";
    assert_eq!(
        summarize(&full, "A", "t", 1),
        format!(
            "[Firewalled t output — {} chars, 1 tok, 30 lines stored out-of-band]\n--- head ---\n{head}\n--- … 2 lines omitted … ---\n--- tail ---\n{tail}\n{FOOTER}",
            full.len()
        )
    );
    let fewer = lines[..29].join("\n");
    assert_eq!(
        summarize(&fewer, "A", "t", 1),
        format!(
            "[Firewalled t output — {} chars, 1 tok, 29 lines stored out-of-band]\n{fewer}{FOOTER}",
            fewer.len()
        )
    );
}

#[test]
fn excerpt_by_size_keeps_characters_whole() {
    // 400 three-byte characters: the 800-byte head ends inside one, and so does the tail start.
    let full = "€".repeat(400);
    let digest = summarize(&full, "A", "t", 1);
    assert_eq!(
        digest,
        format!(
            "[Firewalled t output — 1200 chars, 1 tok, 1 lines stored out-of-band]\n{}\n… (truncated) …\n{}\n{FOOTER}",
            "€".repeat(266),
            "€".repeat(100)
        )
    );
    let shifted = format!("{}y", "€".repeat(400));
    let digest = summarize(&shifted, "A", "t", 1);
    assert!(digest.contains(&format!("(truncated) …\n{}y\n", "€".repeat(100))));
}

#[test]
fn excerpt_by_size_between_the_two_bounds_has_no_tail() {
    let full = "z".repeat(1100);
    let digest = summarize(&full, "A", "t", 1);
    assert!(digest.contains(&format!("\n{}--- retrieve", "z".repeat(800))));
    let longer = "z".repeat(1101);
    let digest = summarize(&longer, "A", "t", 1);
    assert!(digest.contains(&format!("\n{}\n… (truncated) …\n{}\n", "z".repeat(800), "z".repeat(300))));
}

#[test]
fn digest_of_one_giant_line_is_bounded() {
    let full = "€".repeat(500_000);
    let digest = summarize(&full, "id9", "ctx_search", usize::MAX);
    assert!(digest.len() <= 3000 + "ctx_search".len() + 5 * "id9".len());
    assert!(digest.ends_with("JSON:    ctx_expand(id=\"id9\", json_keys=true)"));
}

#[test]
fn digest_of_a_small_output_is_larger_than_it() {
    assert!(summarize("a", "A", "t", 1).len() > 1);
}
