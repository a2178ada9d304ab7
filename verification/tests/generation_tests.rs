use mlx_local_server::lm::reasoning::{classify_token, classify_token_defined, extract_reasoning};
use mlx_local_server::lm::stops::{
    clamp_max_tokens, delta_prompt_ids, length_or_stop, settle_finish_reason, truncate_at_stop,
    StopStreamer, MAX_TOKEN_LIMIT,
};

fn strings(v: &[&str]) -> Vec<String> {
    v.iter().map(|s| s.to_string()).collect()
}

/// Runs a stream of tokens through the scanner, returning what was sent and
/// whether a stop string ended it.
fn run_stream(stops: &[&str], tokens: &[&str]) -> (String, bool) {
    let mut s = StopStreamer::new(&strings(stops));
    let mut out = String::new();
    for t in tokens {
        assert!(s.push_defined(t));
        if let Some(piece) = s.push(t) {
            assert!(!piece.is_empty());
            out.push_str(&piece);
        }
        if s.is_stopped() {
            break;
        }
    }
    if let Some(rest) = s.flush() {
        out.push_str(&rest);
    }
    (out, s.is_stopped())
}

#[test]
fn token_budget_is_clamped() {
    assert_eq!(clamp_max_tokens(0), 1);
    assert_eq!(clamp_max_tokens(1), 1);
    assert_eq!(clamp_max_tokens(512), 512);
    assert_eq!(clamp_max_tokens(100_000), MAX_TOKEN_LIMIT);
    assert_eq!(MAX_TOKEN_LIMIT, 32768);
}

#[test]
fn session_cache_feeds_only_new_tokens() {
    assert_eq!(delta_prompt_ids(vec![1, 2, 3, 4], 2), vec![3, 4]);
    assert_eq!(delta_prompt_ids(vec![1, 2, 3, 4], 0), vec![1, 2, 3, 4]);
    assert_eq!(delta_prompt_ids(vec![1, 2, 3, 4], 4), vec![1, 2, 3, 4]);
    assert_eq!(delta_prompt_ids(vec![1, 2], 9), vec![1, 2]);
}

#[test]
fn finish_reasons() {
    assert_eq!(length_or_stop(10, 10), "length");
    assert_eq!(length_or_stop(9, 10), "stop");
    assert_eq!(settle_finish_reason("length".into(), true, false), "stop");
    assert_eq!(settle_finish_reason("length".into(), true, true), "tool_calls");
    assert_eq!(settle_finish_reason("length".into(), false, false), "length");
}

#[test]
fn truncation_cuts_at_the_earliest_stop() {
    let stops = strings(&["END", "b"]);
    assert_eq!(truncate_at_stop("acEND".into(), &stops), ("ac".to_string(), true));
    assert_eq!(truncate_at_stop("abcEND".into(), &stops), ("a".to_string(), true));
    // the earliest occurrence of any stop string decides, whatever the list order
    assert_eq!(truncate_at_stop("xaYb".into(), &strings(&["b", "a"])), ("x".to_string(), true));
    assert_eq!(truncate_at_stop("nothing".into(), &stops), ("nothing".to_string(), false));
    assert_eq!(truncate_at_stop("abc".into(), &strings(&[""])), ("".to_string(), true));
}

#[test]
fn stream_without_stop_reassembles_the_text() {
    let tokens = ["Hel", "lo, ", "wor", "ld", "!"];
    let (out, stopped) = run_stream(&["STOP"], &tokens);
    assert!(!stopped);
    assert_eq!(out, "Hello, world!");
}

#[test]
fn stream_stops_before_a_stop_split_across_tokens() {
    let (out, stopped) = run_stream(&["</end>"], &["abc", "de</e", "nd>more", "ignored"]);
    assert!(stopped);
    assert_eq!(out, "abcde");
}

#[test]
fn stream_holds_back_multibyte_text_at_char_boundaries() {
    // the stop is two bytes long; "é" is two bytes
    let (out, stopped) = run_stream(&["XY"], &["aé", "bc", "d"]);
    assert!(!stopped);
    assert_eq!(out, "aébcd");
}

#[test]
fn stream_with_undefined_cut_is_reported() {
    // holding back one byte of "é" would cut inside the character
    let s = StopStreamer::new(&strings(&["x"]));
    assert!(!s.push_defined("é"));
    assert!(s.push_defined("ab"));
}

#[test]
fn empty_stop_string_stops_at_once() {
    let (out, stopped) = run_stream(&[""], &["abc"]);
    assert!(stopped);
    assert_eq!(out, "");
}

#[test]
fn stream_stops_at_the_earliest_stop_whatever_the_order() {
    let (out, stopped) = run_stream(&["b", "a"], &["xaYb", "z"]);
    assert!(stopped);
    assert_eq!(out, "x");
}

#[test]
fn reasoning_is_split_from_the_answer() {
    let (content, reasoning) = extract_reasoning("<think>plan</think>  answer ".to_string());
    assert_eq!(content, "answer");
    assert_eq!(reasoning, Some("plan".to_string()));
    let (content, reasoning) = extract_reasoning("plain".to_string());
    assert_eq!(content, "plain");
    assert_eq!(reasoning, None);
}

#[test]
fn streamed_reasoning_routes_tags_split_across_tokens() {
    let mut buf = String::new();
    let mut in_think = false;
    let mut content = String::new();
    let mut reasoning = String::new();
    for tok in ["Hi <th", "ink>deep", " thought</th", "ink>done"] {
        assert!(classify_token_defined(tok, &buf, in_think));
        let (c, r, st) = classify_token(tok, &mut buf, in_think);
        if let Some(c) = c {
            content.push_str(&c);
        }
        if let Some(r) = r {
            reasoning.push_str(&r);
        }
        in_think = st;
    }
    assert_eq!(content, "Hi done");
    assert_eq!(reasoning, "deep thought");
    assert!(!in_think);
    assert_eq!(buf, "");
}
