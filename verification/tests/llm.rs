//! Reading clip candidates out of model replies.

use autoshorts::llm::{extract_json_span, parse_candidate_json, suppress_overlaps};
use autoshorts::models::CandidateDraft;

const SECOND: i64 = 1_000_000_000;
const HALF: i64 = 500_000_000;

#[test]
fn extracts_json_wrapped_in_prose() {
    let reply = "Sure! Here are the best moments:\n{\"candidates\":[]}\nHope that helps.";
    assert_eq!(extract_json_span(reply), Some("{\"candidates\":[]}"));
}

#[test]
fn ignores_braces_inside_strings() {
    let reply = "text {\"hook\":\"use } now\",\"n\":1} trailing";
    assert_eq!(extract_json_span(reply), Some("{\"hook\":\"use } now\",\"n\":1}"));
}

#[test]
fn handles_escaped_quotes() {
    let reply = "{\"hook\":\"she said \\\"stop\\\" firmly\"}";
    assert_eq!(extract_json_span(reply), Some(reply));
}

#[test]
fn returns_none_when_unbalanced() {
    assert_eq!(extract_json_span("{\"candidates\": ["), None);
}

#[test]
fn parses_prose_wrapped_candidates() {
    let reply = "Here you go:\n{\"candidates\":[{\"start\":10.0,\"end\":50.0,\"score\":0.9,\
                 \"hook\":\"h\",\"rationale\":\"r\"}]}";
    let parsed = parse_candidate_json(reply, 30 * SECOND).expect("should recover JSON from prose");
    assert_eq!(parsed.len(), 1);
}

/// Times in seconds, the score in hundredths.
fn draft(start: i64, end: i64, score: i64) -> CandidateDraft {
    CandidateDraft {
        start: start * SECOND,
        end: end * SECOND,
        score: score * 10_000_000,
        hook: "h".into(),
        rationale: "r".into(),
    }
}

#[test]
fn drops_candidate_contained_in_higher_scoring_one() {
    let out = suppress_overlaps(vec![draft(65, 140, 94), draft(100, 140, 93)], HALF);
    assert_eq!(out.len(), 1);
    assert_eq!(out[0].start, 65 * SECOND);
}

#[test]
fn keeps_adjacent_non_overlapping_moments() {
    let out = suppress_overlaps(vec![draft(0, 60, 90), draft(60, 120, 80)], HALF);
    assert_eq!(out.len(), 2);
}

#[test]
fn keeps_slightly_overlapping_distinct_moments() {
    // 10s shared out of a 60s clip is a different moment, not a duplicate.
    let out = suppress_overlaps(vec![draft(0, 60, 90), draft(50, 110, 80)], HALF);
    assert_eq!(out.len(), 2);
}

#[test]
fn highest_score_wins_within_an_overlapping_group() {
    let out = suppress_overlaps(
        vec![draft(140, 180, 97), draft(140, 220, 85), draft(150, 175, 70)],
        HALF,
    );
    assert_eq!(out.len(), 1);
    assert_eq!(out[0].score, 970_000_000);
}

/// A candidate as a model writes it.
fn item(start: &str, end: &str, score: &str, hook: &str) -> String {
    format!(
        "{{\"start\":{start},\"end\":{end},\"score\":{score},\"hook\":\"{hook}\",\"rationale\":\"r\"}}"
    )
}

#[test]
fn the_first_bracket_opens_the_span() {
    assert_eq!(extract_json_span("so [1, {\"a\": 2}] and {}"), Some("[1, {\"a\": 2}]"));
    assert_eq!(extract_json_span("nothing here"), None);
    assert_eq!(extract_json_span(""), None);
}

#[test]
fn prose_around_a_span_does_not_change_it() {
    let inner = "{\"a\":[\"}\"]}";
    assert_eq!(extract_json_span(inner), Some(inner));
    assert_eq!(extract_json_span(&format!("é, well: {inner} – done")), Some(inner));
}

#[test]
fn candidates_come_best_first_and_keep_the_order_of_equals() {
    let reply = format!(
        "[{},{},{}]",
        item("0", "40", "0.5", "first"),
        item("100", "140", "0.9", "second"),
        item("200", "240", "0.5", "third")
    );
    let out = parse_candidate_json(&reply, 30 * SECOND).expect("candidates");
    let hooks: Vec<&str> = out.iter().map(|d| d.hook.as_str()).collect();
    assert_eq!(hooks, vec!["second", "first", "third"]);
    assert_eq!(out[0].rationale, "r");
}

#[test]
fn scores_on_other_scales_are_brought_to_one() {
    let reply = format!(
        "[{},{},{},{},{}]",
        item("0", "40", "8", "tens"),
        item("100", "140", "75", "hundreds"),
        item("200", "240", "250", "beyond"),
        item("300", "340", "-3", "below"),
        item("400", "440", "\"0.4\"", "text")
    );
    let out = parse_candidate_json(&reply, 30 * SECOND).expect("candidates");
    let scores: Vec<(&str, i64)> = out.iter().map(|d| (d.hook.as_str(), d.score)).collect();
    assert_eq!(
        scores,
        vec![
            ("beyond", 1_000_000_000),
            ("tens", 800_000_000),
            ("hundreds", 750_000_000),
            ("text", 400_000_000),
            ("below", 0),
        ]
    );
}

#[test]
fn a_missing_score_counts_as_four_fifths() {
    let reply = "{\"clips\":[{\"start\":1.5,\"end\":\"61.25\",\"hook\":\"h\"}]}";
    let out = parse_candidate_json(reply, 30 * SECOND).expect("candidates");
    assert_eq!(out.len(), 1);
    assert_eq!(out[0].start, 1_500_000_000);
    assert_eq!(out[0].end, 61_250_000_000);
    assert_eq!(out[0].score, 800_000_000);
    assert_eq!(out[0].rationale, "");
}

#[test]
fn short_candidates_stay_only_where_nothing_longer_came() {
    let long = format!("[{},{}]", item("0", "40", "0.5", "long"), item("50", "60", "0.9", "short"));
    let out = parse_candidate_json(&long, 30 * SECOND).expect("candidates");
    assert_eq!(out.len(), 1);
    assert_eq!(out[0].hook, "long");

    let short = format!("[{},{}]", item("0", "4", "0.9", "tiny"), item("50", "60", "0.5", "short"));
    let out = parse_candidate_json(&short, 30 * SECOND).expect("candidates");
    assert_eq!(out.len(), 1);
    assert_eq!(out[0].hook, "short");
}

#[test]
fn a_blank_hook_is_no_candidate() {
    let reply = format!("[{}]", item("0", "40", "0.5", "  "));
    assert_eq!(parse_candidate_json(&reply, 30 * SECOND).expect("candidates").len(), 0);
}

#[test]
fn at_most_ten_candidates_come_of_a_reply() {
    let mut items: Vec<String> = Vec::new();
    for i in 0..14 {
        items.push(item(&format!("{}", i * 100), &format!("{}", i * 100 + 40), "0.5", "h"));
    }
    let reply = format!("{{\"moments\":[{}]}}", items.join(","));
    assert_eq!(parse_candidate_json(&reply, 30 * SECOND).expect("candidates").len(), 10);
}

#[test]
fn the_list_is_found_under_any_name() {
    let one = item("0", "40", "0.5", "h");
    for reply in [
        format!("{{\"Candidates\":[{one}]}}"),
        format!("{{\"whatever\":[{one}]}}"),
        one.clone(),
        format!("```json\n[{one}]\n```"),
    ] {
        assert_eq!(parse_candidate_json(&reply, 30 * SECOND).expect("candidates").len(), 1);
    }
}

#[test]
fn replies_without_candidates_say_why() {
    let e = parse_candidate_json("no json at all", 30 * SECOND).expect_err("unreadable");
    assert!(e.message().starts_with("parsing candidate JSON: "));
    let e = parse_candidate_json("here: {nope}", 30 * SECOND).expect_err("unreadable span");
    assert_eq!(e.message(), "parsing candidate JSON");
    let e = parse_candidate_json("{\"a\": 1}", 30 * SECOND).expect_err("no list");
    assert_eq!(
        e.message(),
        "Ollama output does not contain a candidates array. Raw output: {\"a\": 1}"
    );
}

#[test]
fn suppressing_twice_changes_nothing() {
    let once = suppress_overlaps(
        vec![draft(0, 60, 90), draft(10, 50, 80), draft(55, 115, 70), draft(5, 5, 60)],
        HALF,
    );
    let spans: Vec<(i64, i64)> = once.iter().map(|d| (d.start, d.end)).collect();
    let again = suppress_overlaps(once, HALF);
    let spans_again: Vec<(i64, i64)> = again.iter().map(|d| (d.start, d.end)).collect();
    assert_eq!(spans, vec![(0, 60 * SECOND), (55 * SECOND, 115 * SECOND)]);
    assert_eq!(spans, spans_again);
}
