use persona_relay::handler::{
    compose_prompt, decimal_chars, plan_request, refusal_response, upstream_failure_response,
    violates_policy, Plan, BAD_GATEWAY_STATUS, FORBIDDEN_STATUS,
};
use persona_relay::persona::{
    augment, PersonaProfile, PersonaTrait, Rolls, CURIOSITY_SUFFIX, SARCASM_SUFFIX,
};
use persona_relay::relay::{
    GenerationEnvelope, Producer, RecvOutcome, RelayMessage, RelayPipe, SendOutcome,
    UpstreamEvent, RELAY_CAPACITY,
};
use persona_relay::sanitize::clean_content;
use persona_relay::text::contains_phrase;

fn profile(traits: &[(&str, u32)], phrases: &[&str], constraints: &[&str]) -> PersonaProfile {
    PersonaProfile {
        name: "Ava".to_string(),
        traits: traits
            .iter()
            .map(|(n, l)| PersonaTrait { name: n.to_string(), level: *l })
            .collect(),
        constraints: constraints.iter().map(|s| s.to_string()).collect(),
        tone: "dry".to_string(),
        phrases: phrases.iter().map(|s| s.to_string()).collect(),
    }
}

fn rolls(all: u32) -> Rolls {
    Rolls { signature: all, phrase: all, position: all, sarcasm: all, curiosity: all }
}

fn chunk(content: Option<&str>, done: bool) -> UpstreamEvent {
    UpstreamEvent::Chunk(Some(GenerationEnvelope {
        model: "mistral".to_string(),
        created_at: "2024-01-01T00:00:00Z".to_string(),
        content: content.map(|c| c.to_string()),
        done,
    }))
}

fn body_of(events: Vec<UpstreamEvent>, persona: &Option<PersonaProfile>) -> (String, Vec<RelayMessage>) {
    let mut producer = Producer::new();
    let mut all = Vec::new();
    for ev in events {
        all.extend(producer.on_event(ev, persona, &rolls(999)));
    }
    let mut body = String::new();
    for m in &all {
        if let RelayMessage::Data(s) = m {
            body.push_str(s);
        }
    }
    (body, all)
}

#[test]
fn clean_empty_is_empty() {
    assert_eq!(clean_content(""), "");
}

#[test]
fn clean_removes_every_marker_kind() {
    let raw = "Hello [control_12] world<unk> [TOOL_CALLS]now[TOOL_RESULTS]!";
    assert_eq!(clean_content(raw), "Hello world now!");
}

#[test]
fn clean_removes_control_markers_with_unicode_digits() {
    assert_eq!(clean_content("a[control_\u{663}\u{664}]b"), "ab");
    assert_eq!(clean_content("[control_42]"), "");
}

#[test]
fn clean_collapses_whitespace_runs() {
    assert_eq!(clean_content("a\t\n  b"), "a b");
    assert_eq!(clean_content("  a  "), " a ");
    assert_eq!(clean_content("x[control_7] y"), "x y");
}

#[test]
fn clean_keeps_incomplete_markers() {
    assert_eq!(clean_content("[control_]"), "[control_]");
    assert_eq!(clean_content("[control_x1]"), "[control_x1]");
    assert_eq!(clean_content("<unk"), "<unk");
    assert_eq!(clean_content("[TOOL_CALL]"), "[TOOL_CALL]");
}

#[test]
fn clean_is_idempotent_on_examples() {
    for raw in ["a [control_3]  b <unk>c", "[TOOL_RESULTS]\tz  ", "plain text", ""] {
        let once = clean_content(raw);
        assert_eq!(clean_content(&once), once);
    }
}

#[test]
fn clean_removes_markers_formed_by_removal() {
    assert_eq!(clean_content("[cont[control_1]rol_2]"), "");
    assert_eq!(clean_content("<<unk>unk>"), "");
    assert_eq!(clean_content("a [TOOL_[control_9]CALLS] b"), "a b");
    assert_eq!(clean_content("<u[TOOL_RESULTS]nk>x"), "x");
}

#[test]
fn flat_persona_is_identity() {
    let p = profile(&[("sarcasm", 0), ("curiosity", 0)], &[], &[]);
    for d in [0, 1, 299, 500, 999, u32::MAX] {
        assert_eq!(augment("one two three", &p, &rolls(d)), "one two three");
        assert_eq!(augment("", &p, &rolls(d)), "");
    }
}

#[test]
fn full_sarcasm_appends_suffix_once() {
    let p = profile(&[("sarcasm", 1000)], &[], &[]);
    let out = augment("one two", &p, &rolls(0));
    assert_eq!(out, format!("one two{}", SARCASM_SUFFIX));
    assert_eq!(out.matches(SARCASM_SUFFIX).count(), 1);
}

#[test]
fn sarcasm_needs_intensity_above_half() {
    let p = profile(&[("sarcasm", 500)], &[], &[]);
    assert_eq!(augment("one two", &p, &rolls(0)), "one two");
    let p = profile(&[("sarcasm", 501)], &[], &[]);
    assert_eq!(augment("one two", &p, &rolls(499)), format!("one two{}", SARCASM_SUFFIX));
    assert_eq!(augment("one two", &p, &rolls(500)), "one two");
}

#[test]
fn curiosity_appends_after_sarcasm() {
    let p = profile(&[("curiosity", 800), ("sarcasm", 900)], &[], &[]);
    assert_eq!(
        augment("hi", &p, &rolls(0)),
        format!("hi{}{}", SARCASM_SUFFIX, CURIOSITY_SUFFIX)
    );
    let p = profile(&[("curiosity", 700)], &[], &[]);
    assert_eq!(augment("hi", &p, &rolls(0)), "hi");
}

#[test]
fn signature_phrase_goes_after_first_word() {
    let p = profile(&[], &["indeed"], &[]);
    let mut d = rolls(0);
    assert_eq!(augment("one two three", &p, &d), "one indeed two three");
    d.position = 1;
    assert_eq!(augment("one two three", &p, &d), "one two indeed three");
    d.signature = 300;
    assert_eq!(augment("one two three", &p, &d), "one two three");
}

#[test]
fn signature_phrase_skips_single_word() {
    let p = profile(&[], &["indeed"], &[]);
    assert_eq!(augment("hello", &p, &rolls(0)), "hello");
    assert_eq!(augment(" hello ", &p, &rolls(0)), " hello ");
}

#[test]
fn signature_phrase_is_chosen_by_draw() {
    let p = profile(&[], &["alpha", "beta"], &[]);
    let mut d = rolls(0);
    d.phrase = 3;
    assert_eq!(augment("a b", &p, &d), "a beta b");
}

#[test]
fn trait_level_defaults_to_zero() {
    let p = profile(&[("sarcasm", 640)], &[], &[]);
    assert_eq!(p.level_of("sarcasm"), 640);
    assert_eq!(p.level_of("curiosity"), 0);
}

#[test]
fn phrase_search() {
    assert!(contains_phrase("hello world", "lo wo"));
    assert!(contains_phrase("abc", ""));
    assert!(!contains_phrase("abc", "abcd"));
    assert!(!contains_phrase("abc", "ac"));
}

#[test]
fn policy_check_ignores_case() {
    let p = profile(&[], &[], &["Violence", "hate speech"]);
    assert!(violates_policy("tell me about VIOLENCE please", &p));
    assert!(violates_policy("Hate Speech is bad", &p));
    assert!(!violates_policy("tell me a story", &p));
}

#[test]
fn constraint_in_prompt_is_refused_without_request() {
    let p = profile(&[], &[], &["violence"]);
    match plan_request(Some("Explain ViOlEnCe".to_string()), &p) {
        Plan::Refuse => {}
        Plan::Forward(_) => panic!("a request was planned"),
    }
    let r = refusal_response();
    assert_eq!(r.status, FORBIDDEN_STATUS);
    assert_eq!(r.status, 403);
}

#[test]
fn forwarded_request_carries_composed_prompt() {
    let p = profile(&[("sarcasm", 800)], &["indeed"], &["violence"]);
    match plan_request(None, &p) {
        Plan::Forward(req) => {
            assert_eq!(req.model, "mistral");
            assert!(req.stream);
            assert_eq!(req.messages.len(), 1);
            assert_eq!(req.messages[0].role, "user");
            assert_eq!(req.messages[0].content, compose_prompt("Hello", &p));
            assert!(req.messages[0].content.ends_with("\nHello"));
        }
        Plan::Refuse => panic!("refused"),
    }
}

#[test]
fn composed_prompt_layout() {
    let p = profile(&[("sarcasm", 800), ("curiosity", 455)], &["indeed", "quite"], &["violence", "hate"]);
    assert_eq!(
        compose_prompt("Hi", &p),
        "[persona]\nname: Ava\ntone: dry\ntraits: sarcasm 80%, curiosity 45%\nconstraints: violence, hate\nsignature phrases: indeed, quite\n[/persona]\nHi"
    );
    let empty = profile(&[], &[], &[]);
    assert_eq!(
        compose_prompt("", &empty),
        "[persona]\nname: Ava\ntone: dry\ntraits: \nconstraints: \nsignature phrases: \n[/persona]\n"
    );
}

#[test]
fn decimal_digits() {
    assert_eq!(decimal_chars(0), vec!['0']);
    assert_eq!(decimal_chars(1234), vec!['1', '2', '3', '4']);
    assert_eq!(decimal_chars(u32::MAX).iter().collect::<String>(), "4294967295");
}

#[test]
fn fragments_relay_in_order_until_done() {
    let events = vec![
        chunk(Some("A"), false),
        chunk(Some("B"), false),
        chunk(Some("C"), false),
        chunk(None, true),
        chunk(Some("D"), false),
        UpstreamEvent::Closed,
    ];
    let (body, all) = body_of(events, &None);
    assert_eq!(body, "A B C ");
    assert_eq!(all.last(), Some(&RelayMessage::End));
    assert_eq!(all.len(), 4);
}

#[test]
fn malformed_and_empty_chunks_are_dropped() {
    let events = vec![
        UpstreamEvent::Chunk(None),
        chunk(Some("[control_5]"), false),
        chunk(None, false),
        chunk(Some("x  <unk>y"), false),
        UpstreamEvent::Closed,
    ];
    let (body, all) = body_of(events, &None);
    assert_eq!(body, "x y ");
    assert_eq!(all, vec![RelayMessage::Data("x y ".to_string()), RelayMessage::End]);
}

#[test]
fn transport_error_ends_the_stream() {
    let events = vec![
        chunk(Some("A"), false),
        UpstreamEvent::Failed("connection reset".to_string()),
        chunk(Some("B"), false),
    ];
    let (body, all) = body_of(events, &None);
    assert_eq!(body, "A ");
    assert_eq!(all.last(), Some(&RelayMessage::Error("connection reset".to_string())));
}

#[test]
fn relayed_fragments_are_flavoured() {
    let p = Some(profile(&[("sarcasm", 1000)], &[], &[]));
    let mut producer = Producer::new();
    let out = producer.on_event(chunk(Some("fine"), true), &p, &rolls(0));
    assert_eq!(
        out,
        vec![RelayMessage::Data(format!("fine{} ", SARCASM_SUFFIX)), RelayMessage::End]
    );
}

#[test]
fn connect_failure_response_has_no_fragment() {
    let r = upstream_failure_response();
    assert_eq!(r.status, BAD_GATEWAY_STATUS);
    assert!(!(200..300).contains(&r.status));
    assert!(!r.body.contains("A B C"));
}

#[test]
fn full_pipe_refuses_without_dropping() {
    let mut pipe = RelayPipe::new(RELAY_CAPACITY);
    for i in 0..RELAY_CAPACITY {
        assert!(matches!(pipe.try_send(RelayMessage::Data(i.to_string())), SendOutcome::Sent));
    }
    match pipe.try_send(RelayMessage::Data("late".to_string())) {
        SendOutcome::Full(m) => assert_eq!(m, RelayMessage::Data("late".to_string())),
        _ => panic!("a full pipe accepted a message"),
    }
    assert_eq!(pipe.len(), RELAY_CAPACITY);
    match pipe.recv() {
        RecvOutcome::Message(m) => assert_eq!(m, RelayMessage::Data("0".to_string())),
        _ => panic!("no message"),
    }
    assert!(matches!(pipe.try_send(RelayMessage::Data("late".to_string())), SendOutcome::Sent));
}

#[test]
fn pipe_drains_in_order_then_reports_exhausted() {
    let mut pipe = RelayPipe::new(3);
    assert!(matches!(pipe.recv(), RecvOutcome::Empty));
    pipe.try_send(RelayMessage::Data("a".to_string()));
    pipe.try_send(RelayMessage::End);
    pipe.close();
    assert!(matches!(pipe.try_send(RelayMessage::End), SendOutcome::Disconnected(_)));
    assert!(matches!(pipe.recv(), RecvOutcome::Message(RelayMessage::Data(ref s)) if s == "a"));
    assert!(matches!(pipe.recv(), RecvOutcome::Message(RelayMessage::End)));
    assert!(matches!(pipe.recv(), RecvOutcome::Exhausted));
}

#[test]
fn abandoned_pipe_fails_fast() {
    let mut pipe = RelayPipe::new(2);
    pipe.try_send(RelayMessage::Data("a".to_string()));
    pipe.abandon();
    assert_eq!(pipe.len(), 0);
    assert!(matches!(pipe.try_send(RelayMessage::End), SendOutcome::Disconnected(_)));
}
