use simple_webrtc_channel::{decode_reply, encode_reply, reply_to_signals, Signal};

fn strings(items: &[&str]) -> Vec<String> {
    items.iter().map(|s| s.to_string()).collect()
}

fn describe(signal: &Signal) -> String {
    match signal {
        Signal::Offer(s) => format!("offer:{}", s),
        Signal::Answer(s) => format!("answer:{}", s),
        Signal::IceCandidate(Some(c)) => format!("candidate:{}", c),
        Signal::IceCandidate(None) => "end".to_string(),
    }
}

#[test]
fn encode_reply_terminates_every_field_with_nul() {
    let body = encode_reply("v=0 answer", &strings(&["cand one", "cand two"]));
    assert_eq!(body, "v=0 answer\0cand one\0cand two\0");
}

#[test]
fn encode_reply_without_candidates() {
    assert_eq!(encode_reply("sdp", &Vec::new()), "sdp\0");
    assert_eq!(encode_reply("", &Vec::new()), "\0");
}

#[test]
fn decode_reply_reads_answer_and_candidates() {
    let (answer, candidates) = decode_reply("the answer\0c1\0c2\0");
    assert_eq!(answer, "the answer");
    assert_eq!(candidates, strings(&["c1", "c2"]));
}

#[test]
fn decode_reply_skips_empty_pieces() {
    let (answer, candidates) = decode_reply("a\0\0b\0\0\0c");
    assert_eq!(answer, "a");
    assert_eq!(candidates, strings(&["b", "c"]));
}

#[test]
fn decode_reply_of_body_without_nul() {
    let (answer, candidates) = decode_reply("only an answer");
    assert_eq!(answer, "only an answer");
    assert!(candidates.is_empty());
    let (answer, candidates) = decode_reply("");
    assert_eq!(answer, "");
    assert!(candidates.is_empty());
}

#[test]
fn decode_reply_keeps_non_ascii_text() {
    let (answer, candidates) = decode_reply("é→\0ü\0");
    assert_eq!(answer, "é→");
    assert_eq!(candidates, strings(&["ü"]));
}

#[test]
fn reply_round_trip_gives_back_fields() {
    let candidates = strings(&["candidate:1 1 udp 2122260223 192.168.1.2 54321 typ host", "x"]);
    let body = encode_reply("v=0\r\no=- 1 2 IN IP4 127.0.0.1", &candidates);
    let (answer, decoded) = decode_reply(&body);
    assert_eq!(answer, "v=0\r\no=- 1 2 IN IP4 127.0.0.1");
    assert_eq!(decoded, candidates);
}

#[test]
fn reply_to_signals_lists_answer_candidates_and_end() {
    let signals = reply_to_signals("ans\0c1\0\0c2\0");
    let described: Vec<String> = signals.iter().map(describe).collect();
    assert_eq!(described, vec!["answer:ans", "candidate:c1", "candidate:c2", "end"]);
}

#[test]
fn reply_to_signals_of_answer_alone() {
    let signals = reply_to_signals("ans\0");
    let described: Vec<String> = signals.iter().map(describe).collect();
    assert_eq!(described, vec!["answer:ans", "end"]);
}
