//! Requests to language models, and whom to ask.

use autoshorts::detection::{
    anthropic_credential, plan_detection, plan_transcription, reported_provider,
    selected_clip_count, Detection, Family, Settings, Transcription,
};
use autoshorts::json::Json;
use autoshorts::models::{NormalizedTranscript, TranscriptSegment};
use autoshorts::providers::{
    chat_reply, claude_reply, claude_request, compact_segments, deepseek_request,
    detect_candidates, gemini_reply, gemini_request, groq_request, local_request, min_duration,
    openai_request, openrouter_model, openrouter_request, openrouter_step, supports_json_mode,
    RouterStep, Vendor,
};

const SECOND: i64 = 1_000_000_000;

fn transcript() -> NormalizedTranscript {
    NormalizedTranscript {
        language: "en".into(),
        duration: 260 * SECOND,
        speakers: vec!["Doctor".into()],
        words: vec![],
        segments: vec![
            TranscriptSegment {
                start: 0,
                end: 30 * SECOND,
                speaker: Some("Doctor".into()),
                text: "First.".into(),
            },
            TranscriptSegment {
                start: 30_125_000_000,
                end: 65_135_000_000,
                speaker: None,
                text: "Second.".into(),
            },
        ],
    }
}

const LINES: &str = "[0.00-30.00] Doctor: First.\n[30.12-65.14] Speaker: Second.";

#[test]
fn a_transcript_has_one_line_to_each_segment() {
    assert_eq!(compact_segments(&transcript().segments), LINES);
    assert_eq!(compact_segments(&[]), "");
}

fn content(body: &Json, index: usize) -> String {
    let messages = body.items_at("messages").expect("messages");
    messages[index].text_at("content").expect("content").to_string()
}

fn header<'a>(headers: &'a Vec<(String, String)>, name: &str) -> Option<&'a str> {
    headers.iter().find(|h| h.0 == name).map(|h| h.1.as_str())
}

#[test]
fn chat_completions_carry_the_prompt_and_ask_for_json() {
    let t = transcript();
    for (r, url, model) in [
        (
            deepseek_request(&t, "k", None, Some("  ")),
            "https://api.deepseek.com/chat/completions",
            "deepseek-chat",
        ),
        (
            openai_request(&t, "k", None),
            "https://api.openai.com/v1/chat/completions",
            "gpt-4o-mini",
        ),
        (
            groq_request(&t, "k", Some("m")),
            "https://api.groq.com/openai/v1/chat/completions",
            "m",
        ),
    ] {
        assert_eq!(r.url, url);
        assert_eq!(header(&r.headers, "Authorization"), Some("Bearer k"));
        assert_eq!(r.body.text_at("model"), Some(model));
        let prompt = content(&r.body, 0);
        assert!(prompt.starts_with("You are an elite, world-class social media strategist"));
        assert!(prompt.contains("Return up to 25 candidates as JSON matching exactly this schema: {\"candidates\":[{\"start\":0.0,"));
        assert!(prompt.ends_with(&format!("}}]}}\n\nTranscript:\n{LINES}")));
        let format = r.body.get("response_format").expect("json mode");
        assert_eq!(format.text_at("type"), Some("json_object"));
        assert!(matches!(r.body.get("temperature"), Some(Json::Number(n)) if n == "0.2"));
    }
    let named = deepseek_request(&t, "k", Some(" r1 "), Some("set"));
    assert_eq!(named.body.text_at("model"), Some("r1"));
    let set = deepseek_request(&t, "k", Some(" "), Some(" set "));
    assert_eq!(set.body.text_at("model"), Some(" set "));
}

#[test]
fn gemini_takes_its_key_in_the_address() {
    let r = gemini_request(&transcript(), "k", None);
    assert_eq!(
        r.url,
        "https://generativelanguage.googleapis.com/v1beta/models/gemini-2.5-flash:generateContent?key=k"
    );
    assert!(r.headers.is_empty());
    let contents = r.body.items_at("contents").expect("contents");
    let parts = contents[0].items_at("parts").expect("parts");
    assert!(parts[0].text_at("text").expect("text").ends_with(LINES));
    let config = r.body.get("generationConfig").expect("config");
    assert_eq!(config.text_at("responseMimeType"), Some("application/json"));
}

#[test]
fn anthropic_takes_two_kinds_of_credential() {
    let r = claude_request(&transcript(), "sk-ant-api-1", None, "usual");
    assert_eq!(r.url, "https://api.anthropic.com/v1/messages");
    assert_eq!(header(&r.headers, "anthropic-version"), Some("2023-06-01"));
    assert_eq!(header(&r.headers, "x-api-key"), Some("sk-ant-api-1"));
    assert_eq!(header(&r.headers, "authorization"), None);
    assert_eq!(r.body.text_at("model"), Some("usual"));
    assert_eq!(r.body.natural_at("max_tokens"), Some(8000));
    assert!(content(&r.body, 0).ends_with(LINES));

    let r = claude_request(&transcript(), "sk-ant-oat-1", Some("set"), "usual");
    assert_eq!(header(&r.headers, "x-api-key"), None);
    assert_eq!(header(&r.headers, "authorization"), Some("Bearer sk-ant-oat-1"));
    assert_eq!(header(&r.headers, "anthropic-beta"), Some("oauth-2025-04-20"));
    assert_eq!(r.body.text_at("model"), Some("set"));
}

#[test]
fn a_local_model_is_held_to_a_schema() {
    let r = local_request(&transcript(), "llama3.2");
    assert_eq!(r.url, "http://localhost:11434/api/chat");
    assert_eq!(r.body.text_at("model"), Some("llama3.2"));
    assert!(content(&r.body, 0).contains("You MUST identify and return at least 3-10 candidates."));
    assert_eq!(content(&r.body, 1), format!("Transcript:\n{LINES}"));
    assert!(matches!(r.body.get("stream"), Some(Json::Boolean(false))));
    let schema = r.body.get("format").expect("format");
    let list = schema.get("properties").and_then(|p| p.get("candidates")).expect("candidates");
    assert_eq!(list.text_at("type"), Some("array"));
    let required = list.get("items").and_then(|i| i.items_at("required")).expect("required");
    assert_eq!(required.len(), 5);
}

#[test]
fn openrouter_asks_for_json_mode_where_it_is_taken() {
    assert!(supports_json_mode("google/gemini-2.5-flash", "family"));
    assert!(!supports_json_mode("Anthropic/some-model", "family"));
    assert!(!supports_json_mode("x/FAMILY-3", "family"));
    assert_eq!(openrouter_model(None, None), "google/gemini-2.5-flash");
    assert_eq!(openrouter_model(Some(" a/b "), Some("c")), "a/b");
    let r = openrouter_request(&transcript(), "k", "a/b", false);
    assert_eq!(r.url, "https://openrouter.ai/api/v1/chat/completions");
    assert_eq!(header(&r.headers, "X-Title"), Some("AutoShorts"));
    assert_eq!(header(&r.headers, "HTTP-Referer"), Some("https://github.com/JayWebtech/autoshorts"));
    assert!(r.body.get("response_format").is_none());
    assert!(openrouter_request(&transcript(), "k", "a/b", true)
        .body
        .get("response_format")
        .is_some());
}

#[test]
fn only_a_complaint_about_json_mode_is_retried_and_once() {
    let complaint = "Unknown parameter: Response_Format";
    assert!(matches!(openrouter_step(true, true, "200 OK", ""), RouterStep::Read));
    assert!(matches!(openrouter_step(true, false, "400 Bad Request", complaint), RouterStep::Retry));
    for (json_mode, body) in [(false, complaint), (true, "no credit")] {
        match openrouter_step(json_mode, false, "400 Bad Request", body) {
            RouterStep::Fail(m) => {
                assert_eq!(m, format!("OpenRouter request failed (400 Bad Request): {body}"))
            }
            other => panic!("{other:?}"),
        }
    }
}

#[test]
fn the_reply_is_the_first_text() {
    assert_eq!(chat_reply(&vec!["a".to_string(), "b".to_string()]).as_deref(), Some("a"));
    assert_eq!(chat_reply(&Vec::new()), None);
    let part = |t: &str| Some(t.to_string());
    assert_eq!(gemini_reply(&vec![vec![part("a"), part("b")]]).as_deref(), Some("a"));
    assert_eq!(gemini_reply(&vec![vec![None, part("b")]]), None);
    assert_eq!(gemini_reply(&vec![vec![], vec![part("b")]]), None);
    assert_eq!(gemini_reply(&Vec::new()), None);
    assert_eq!(claude_reply(&vec![None, part("b"), part("c")]).as_deref(), Some("b"));
    assert_eq!(claude_reply(&vec![None]), None);
}

#[test]
fn the_wanted_length_follows_the_source() {
    assert_eq!(min_duration(0), 5 * SECOND);
    assert_eq!(min_duration(-SECOND), 5 * SECOND);
    assert_eq!(min_duration(30 * SECOND), 15 * SECOND);
    assert_eq!(min_duration(60 * SECOND - 2), 30 * SECOND - 1);
    assert_eq!(min_duration(60 * SECOND), 30 * SECOND);
}

#[test]
fn a_reply_becomes_candidates_or_a_message() {
    let reply = "{\"candidates\":[{\"start\":0,\"end\":20,\"score\":0.9,\"hook\":\"h\"}]}";
    let out = detect_candidates(Vendor::Groq, Some(reply), 40 * SECOND).expect("candidates");
    assert_eq!(out.len(), 1);
    assert_eq!(
        detect_candidates(Vendor::Groq, Some("{}"), SECOND).expect_err("no list"),
        "Ollama output does not contain a candidates array. Raw output: {}"
    );
    let none = |v: Vendor| detect_candidates(v, None, SECOND).expect_err("no text");
    assert_eq!(none(Vendor::DeepSeek), "DeepSeek response did not include choices content");
    assert_eq!(none(Vendor::OpenAi), "OpenAI response did not include choices content");
    assert_eq!(none(Vendor::OpenRouter), "OpenRouter response did not include choices content");
    assert_eq!(none(Vendor::Groq), "Groq response did not include choices content");
    assert_eq!(none(Vendor::Gemini), "Gemini response did not include content text");
    assert_eq!(none(Vendor::Claude("Fam")), "Fam response did not include text content");
}

#[test]
fn failures_name_the_vendor() {
    assert_eq!(Vendor::Local.call_failure(), "calling local Ollama");
    assert_eq!(Vendor::Local.parse_failure(), "parsing local Ollama response");
    assert_eq!(
        Vendor::Local.refusal_message("500", "x"),
        "Local Ollama request failed (500): x"
    );
    assert_eq!(Vendor::Gemini.call_failure(), "calling Gemini");
    assert_eq!(Vendor::Claude("Fam").refusal_message("401", "no"), "Fam request failed (401): no");
    assert_eq!(Vendor::OpenAi.parse_failure(), "parsing OpenAI response");
}

fn settings() -> Settings<'static> {
    Settings {
        family: Family { id: "fam", title: "Fam" },
        llm_provider: None,
        anthropic_api_key: None,
        anthropic_oauth_token: None,
        deepseek_api_key: None,
        gemini_api_key: None,
        openai_api_key: None,
        openrouter_api_key: None,
        groq_api_key: None,
        ollama_model: None,
    }
}

#[test]
fn the_anthropic_credential_is_either_one() {
    assert_eq!(anthropic_credential(Some(" k "), Some("t")).as_deref(), Some("k"));
    assert_eq!(anthropic_credential(None, Some("t\n")).as_deref(), Some("t"));
    assert_eq!(anthropic_credential(Some(""), Some(" tok ")).as_deref(), Some("tok"));
    assert_eq!(anthropic_credential(Some(" \n"), Some("\t")), None);
    assert_eq!(anthropic_credential(Some("k"), Some("")).as_deref(), Some("k"));
    assert_eq!(anthropic_credential(None, None), None);
}

#[test]
fn anthropic_is_asked_by_default() {
    let mut s = settings();
    assert_eq!(
        plan_detection(None, None, None, &s).expect_err("no key"),
        "Set ANTHROPIC_API_KEY or ANTHROPIC_OAUTH_TOKEN, or supply a Fam key, to generate candidates."
    );
    s.anthropic_oauth_token = Some("t");
    match plan_detection(None, Some("  "), None, &s) {
        Ok(Detection::Claude { key }) => assert_eq!(key, "t"),
        other => panic!("{other:?}"),
    }
    match plan_detection(Some("FAM"), Some(" k "), None, &s) {
        Ok(Detection::Claude { key }) => assert_eq!(key, " k "),
        other => panic!("{other:?}"),
    }
}

#[test]
fn a_local_model_needs_no_key() {
    let mut s = settings();
    s.llm_provider = Some("Ollama");
    match plan_detection(None, None, None, &s) {
        Ok(Detection::Local { model }) => assert_eq!(model, "llama3.2"),
        other => panic!("{other:?}"),
    }
    s.ollama_model = Some("set");
    match plan_detection(Some("local"), None, Some("named"), &s) {
        Ok(Detection::Local { model }) => assert_eq!(model, "named"),
        other => panic!("{other:?}"),
    }
}

#[test]
fn every_provider_asks_for_its_own_key() {
    let s = settings();
    for (provider, message) in [
        ("gemini", "Set GEMINI_API_KEY or supply Gemini API Key to generate candidates."),
        ("openai", "Set OPENAI_API_KEY or supply OpenAI API Key to generate candidates."),
        ("openrouter", "Set OPENROUTER_API_KEY or supply OpenRouter API Key to generate candidates."),
        ("groq", "Set GROQ_API_KEY or supply Groq API Key to generate candidates."),
        ("deepseek", "Set DEEPSEEK_API_KEY or supply DeepSeek API Key to generate candidates."),
        ("unheard of", "Set DEEPSEEK_API_KEY or supply DeepSeek API Key to generate candidates."),
    ] {
        assert_eq!(plan_detection(Some(provider), None, None, &s).expect_err("no key"), message);
    }
    let mut s = settings();
    s.gemini_api_key = Some("g");
    s.openai_api_key = Some("o");
    s.openrouter_api_key = Some("r");
    s.groq_api_key = Some("q");
    s.deepseek_api_key = Some("d");
    let key = |provider: &str| match plan_detection(Some(provider), None, None, &s) {
        Ok(Detection::Gemini { key }) => format!("gemini {key}"),
        Ok(Detection::OpenAi { key }) => format!("openai {key}"),
        Ok(Detection::OpenRouter { key }) => format!("openrouter {key}"),
        Ok(Detection::Groq { key }) => format!("groq {key}"),
        Ok(Detection::DeepSeek { key }) => format!("deepseek {key}"),
        other => panic!("{other:?}"),
    };
    assert_eq!(key("Gemini"), "gemini g");
    assert_eq!(key("openai"), "openai o");
    assert_eq!(key("openrouter"), "openrouter r");
    match plan_detection(Some("openrouter"), Some("  "), None, &s) {
        Ok(Detection::OpenRouter { key }) => assert_eq!(key, "r"),
        other => panic!("{other:?}"),
    }
    match plan_detection(Some("openrouter"), Some("given"), None, &s) {
        Ok(Detection::OpenRouter { key }) => assert_eq!(key, "given"),
        other => panic!("{other:?}"),
    }
    assert_eq!(key("groq"), "groq q");
    assert_eq!(key("else"), "deepseek d");
}

#[test]
fn transcription_is_in_the_cloud_or_local() {
    match plan_transcription("deepgram", None, Some("k"), false) {
        Ok(Transcription::Deepgram { key }) => assert_eq!(key, "k"),
        other => panic!("{other:?}"),
    }
    assert_eq!(
        plan_transcription("deepgram", None, None, true).expect_err("no key"),
        "Set DEEPGRAM_API_KEY or paste an API key to use cloud transcription."
    );
    assert!(matches!(plan_transcription("local", None, None, true), Ok(Transcription::Local)));
    assert!(plan_transcription("local", None, None, false)
        .expect_err("no whisper")
        .starts_with("Whisper is not installed."));
    assert_eq!(
        plan_transcription("carrier pigeon", None, None, true).expect_err("unknown"),
        "Unsupported transcription provider: carrier pigeon"
    );
}

#[test]
fn at_most_ten_clips_are_selected() {
    assert_eq!(selected_clip_count(0), 0);
    assert_eq!(selected_clip_count(10), 10);
    assert_eq!(selected_clip_count(11), 10);
    assert_eq!(reported_provider(Some("ÄB")), "äb");
}
