//! What language models are asked for clip candidates, and which text of a
//! response is their reply.

use vstd::prelude::*;
use vstd::string::StringExecFns;
use crate::json::{item_views, member_views, put_item, put_member, Json, JsonView};
use crate::llm::{error_text, parse_candidate_json, reply_candidates};
use crate::models::{
    draft_views, CandidateDraft, DraftView, NormalizedTranscript, TranscriptSegment,
};
use crate::number::{fixed_string, fixed_text};
use crate::paths::{set_value, setting_of};
use crate::text::{
    contains, holds_text, is_blank, join, joined, law_joined, lower, lower_of, opt_str, opt_text,
    put, starts_with, texts, trim, trimmed,
};

verus! {

/// What a [`TranscriptSegment`] says.
pub struct SegmentView {
    pub start: int,
    pub end: int,
    pub speaker: Option<Seq<char>>,
    pub text: Seq<char>,
}

impl View for TranscriptSegment {
    type V = SegmentView;

    open spec fn view(&self) -> SegmentView {
        SegmentView {
            start: self.start as int,
            end: self.end as int,
            speaker: opt_text(self.speaker),
            text: self.text@,
        }
    }
}

/// The views of a list of segments.
pub open spec fn segment_views(v: Seq<TranscriptSegment>) -> Seq<SegmentView> {
    v.map_values(|s: TranscriptSegment| s@)
}

/// The line of a segment: its times, its speaker and its text.
pub open spec fn segment_line(s: SegmentView) -> Seq<char> {
    "["@ + fixed_text(s.start, 2) + "-"@ + fixed_text(s.end, 2) + "] "@ + match s.speaker {
        Some(name) => name,
        None => "Speaker"@,
    } + ": "@ + s.text
}

/// The lines of the segments.
pub open spec fn segment_lines(segments: Seq<SegmentView>) -> Seq<Seq<char>> {
    segments.map_values(|s: SegmentView| segment_line(s))
}

/// A transcript with one line to each segment.
pub open spec fn compact(segments: Seq<SegmentView>) -> Seq<char> {
    joined(segment_lines(segments), "\n"@)
}

/// Writes the line of a segment.
fn line_of(s: &TranscriptSegment) -> (res: String)
    ensures
        res@ == segment_line(s@),
{
    let start = fixed_string(s.start as i128, 2);
    let end = fixed_string(s.end as i128, 2);
    let mut line = "[".to_owned();
    line.append(start.as_str());
    line.append("-");
    line.append(end.as_str());
    line.append("] ");
    match &s.speaker {
        Some(name) => line.append(name.as_str()),
        None => line.append("Speaker"),
    }
    line.append(": ");
    line.append(s.text.as_str());
    line
}

/// Writes a transcript with one line to each segment.
pub fn compact_segments(segments: &[TranscriptSegment]) -> (res: String)
    ensures
        res@ == compact(segment_views(segments@)),
{
    let ghost all = segment_lines(segment_views(segments@));
    let mut parts: Vec<String> = Vec::new();
    let mut i: usize = 0;
    while i < segments.len()
        invariant
            i <= segments@.len(),
            all == segment_lines(segment_views(segments@)),
            texts(parts@) == all.take(i as int),
        decreases segments@.len() - i,
    {
        let line = line_of(&segments[i]);
        assert(all[i as int] == line@);
        let ghost before = texts(parts@);
        put(&mut parts, line.as_str());
        assert(texts(parts@) =~= before.push(line@));
        assert(all.take(i + 1) =~= all.take(i as int).push(all[i as int]));
        i += 1;
    }
    assert(texts(parts@) =~= all);
    join(&parts, "\n")
}

/// The request that models with a large context get.
pub open spec fn strategist_prompt(segments: Seq<SegmentView>) -> Seq<char> {
    "You are an elite, world-class social media strategist with a track record of generating viral multi-million-view Shorts, TikToks, and Reels. Your sole objective is to identify the ABSOLUTE BEST, most highly-engaging, and trend-setting short-form clip candidates from the provided transcript. Do NOT pick random or mediocre segments. Be ruthless in your selection, but extract AS MANY highly viral moments as possible. Every candidate must have an insanely strong, curiosity-inducing hook in the first 3 seconds to stop the scroll. Clips should be 30-90 seconds long, completely self-contained, cut at clean boundaries, and deliver a massive payoff (a mind-blowing fact, hilarious joke, highly controversial opinion, or deep emotional insight). Return up to 25 candidates as JSON matching exactly this schema: {\"candidates\":[{\"start\":0.0,\"end\":0.0,\"score\":0.0,\"hook\":\"...\",\"rationale\":\"...\"}]}\n\nTranscript:\n"@
        + compact(segments)
}

/// Writes the request that models with a large context get.
fn prompt_text(segments: &[TranscriptSegment]) -> (res: String)
    ensures
        res@ == strategist_prompt(segment_views(segments@)),
{
    let mut s =
        "You are an elite, world-class social media strategist with a track record of generating viral multi-million-view Shorts, TikToks, and Reels. Your sole objective is to identify the ABSOLUTE BEST, most highly-engaging, and trend-setting short-form clip candidates from the provided transcript. Do NOT pick random or mediocre segments. Be ruthless in your selection, but extract AS MANY highly viral moments as possible. Every candidate must have an insanely strong, curiosity-inducing hook in the first 3 seconds to stop the scroll. Clips should be 30-90 seconds long, completely self-contained, cut at clean boundaries, and deliver a massive payoff (a mind-blowing fact, hilarious joke, highly controversial opinion, or deep emotional insight). Return up to 25 candidates as JSON matching exactly this schema: {\"candidates\":[{\"start\":0.0,\"end\":0.0,\"score\":0.0,\"hook\":\"...\",\"rationale\":\"...\"}]}\n\nTranscript:\n".to_owned();
    let lines = compact_segments(segments);
    s.append(lines.as_str());
    s
}

/// The instructions that a local model gets.
pub open spec fn local_instructions() -> Seq<char> {
    "You are an elite, world-class social media strategist with a track record of generating viral multi-million-view Shorts, TikToks, and Reels. Your sole objective is to identify the ABSOLUTE BEST, most highly-engaging, and trend-setting short-form clip candidates from the provided transcript. Do NOT pick random or mediocre segments. Be ruthless in your selection. Every candidate must have an insanely strong, curiosity-inducing hook in the first 3 seconds to stop the scroll. CRITICAL: Each clip candidate MUST have a duration between 30 and 90 seconds (i.e. 'end' minus 'start' must be between 30.0 and 90.0). Do NOT return short clips of less than 30 seconds. Combine multiple adjacent sentences to build a meaningful segment of 30-90 seconds. Favor highly shareable content: concrete stories, strong opinions, emotional turns, surprising or counter-intuitive claims, clear payoffs, and high-energy/dramatic peaks. You MUST identify and return at least 3-10 candidates. Do not return an empty candidates list. Ensure the 'start' and 'end' values correspond to actual timestamps in the transcript. Do not output 0.0 for start and end times."@
}

/// An HTTP request with a JSON body.
pub struct Request {
    pub url: String,
    pub headers: Vec<(String, String)>,
    pub body: Json,
}

/// What a [`Request`] says.
pub struct RequestView {
    pub url: Seq<char>,
    pub headers: Seq<(Seq<char>, Seq<char>)>,
    pub body: JsonView,
}

/// The names and values of a list of headers.
pub open spec fn header_views(v: Seq<(String, String)>) -> Seq<(Seq<char>, Seq<char>)> {
    v.map_values(|h: (String, String)| (h.0@, h.1@))
}

impl View for Request {
    type V = RequestView;

    open spec fn view(&self) -> RequestView {
        RequestView {
            url: self.url@,
            headers: header_views(self.headers@),
            body: self.body@,
        }
    }
}

/// Adds a header to the end of a list.
fn put_header(list: &mut Vec<(String, String)>, name: &str, value: &str)
    ensures
        header_views(final(list)@) == header_views(old(list)@).push((name@, value@)),
{
    list.push((name.to_owned(), value.to_owned()));
    assert(header_views(list@) =~= header_views(old(list)@).push((name@, value@)));
}

/// The value of a header that carries a bearer token.
pub open spec fn bearer(key: Seq<char>) -> Seq<char> {
    "Bearer "@ + key
}

/// Writes the value of a header that carries a bearer token.
fn bearer_text(key: &str) -> (res: String)
    ensures
        res@ == bearer(key@),
{
    let mut s = "Bearer ".to_owned();
    s.append(key);
    s
}

/// A message of one role.
pub open spec fn message(role: Seq<char>, content: Seq<char>) -> JsonView {
    JsonView::Object(
        seq![("role"@, JsonView::Text(role)), ("content"@, JsonView::Text(content))],
    )
}

/// Builds a message of one role.
fn message_json(role: &str, content: &str) -> (res: Json)
    ensures
        res@ == message(role@, content@),
{
    let mut m: Vec<(String, Json)> = Vec::new();
    put_member(&mut m, "role", Json::of_text(role));
    put_member(&mut m, "content", Json::of_text(content));
    assert(member_views(m@) =~= message(role@, content@)->Object_0);
    Json::of_members(m)
}

/// An object with one member.
pub open spec fn single(key: Seq<char>, value: JsonView) -> JsonView {
    JsonView::Object(seq![(key, value)])
}

/// Builds an object with one member.
fn single_json(key: &str, value: Json) -> (res: Json)
    ensures
        res@ == single(key@, value@),
{
    let mut m: Vec<(String, Json)> = Vec::new();
    put_member(&mut m, key, value);
    assert(member_views(m@) =~= seq![(key@, value@)]);
    Json::of_members(m)
}

/// An array with one item.
pub open spec fn lone(value: JsonView) -> JsonView {
    JsonView::Array(seq![value])
}

/// Builds an array with one item.
fn lone_json(value: Json) -> (res: Json)
    ensures
        res@ == lone(value@),
{
    let mut v: Vec<Json> = Vec::new();
    put_item(&mut v, value);
    assert(item_views(v@) =~= seq![value@]);
    Json::of_items(v)
}

/// The body of a chat completion. JSON mode is asked for only where the model
/// takes the parameter.
pub open spec fn chat_body(model: Seq<char>, prompt: Seq<char>, json_mode: bool) -> JsonView {
    let base = seq![
        ("model"@, JsonView::Text(model)),
        ("messages"@, lone(message("user"@, prompt))),
        ("temperature"@, JsonView::Number("0.2"@)),
    ];
    JsonView::Object(
        if json_mode {
            base.push(("response_format"@, single("type"@, JsonView::Text("json_object"@))))
        } else {
            base
        },
    )
}

/// Builds the body of a chat completion.
fn chat_json(model: &str, prompt: &str, json_mode: bool) -> (res: Json)
    ensures
        res@ == chat_body(model@, prompt@, json_mode),
{
    let mut m: Vec<(String, Json)> = Vec::new();
    put_member(&mut m, "model", Json::of_text(model));
    put_member(&mut m, "messages", lone_json(message_json("user", prompt)));
    put_member(&mut m, "temperature", Json::of_number("0.2"));
    if json_mode {
        put_member(
            &mut m,
            "response_format",
            single_json("type", Json::of_text("json_object")),
        );
    }
    assert(member_views(m@) =~= chat_body(model@, prompt@, json_mode)->Object_0);
    Json::of_members(m)
}

/// The model that the caller names, else the one that is set, else the usual
/// one; a blank name is none.
pub open spec fn named_model(name: Option<Seq<char>>, setting: Option<Seq<char>>, usual: Seq<char>) -> Seq<
    char,
> {
    match set_value(name) {
        Some(m) => trimmed(m),
        None => match set_value(setting) {
            Some(m) => m,
            None => usual,
        },
    }
}

/// Chooses the model to ask.
fn choose_model(name: Option<&str>, setting: Option<&str>, usual: &str) -> (res: String)
    ensures
        res@ == named_model(opt_str(name), opt_str(setting), usual@),
{
    match setting_of(name) {
        Some(m) => trim(m.as_str()),
        None => match setting_of(setting) {
            Some(m) => m,
            None => usual.to_owned(),
        },
    }
}

/// The model that is set, else the usual one.
pub open spec fn set_model(setting: Option<Seq<char>>, usual: Seq<char>) -> Seq<char> {
    match setting {
        Some(m) => m,
        None => usual,
    }
}

/// Chooses between the model that is set and the usual one.
fn model_or(setting: Option<&str>, usual: &str) -> (res: String)
    ensures
        res@ == set_model(opt_str(setting), usual@),
{
    match setting {
        Some(m) => m.to_owned(),
        None => usual.to_owned(),
    }
}

/// A chat completion with a bearer token.
pub open spec fn chat_request(
    url: Seq<char>,
    key: Seq<char>,
    model: Seq<char>,
    segments: Seq<SegmentView>,
) -> RequestView {
    RequestView {
        url,
        headers: seq![("Authorization"@, bearer(key))],
        body: chat_body(model, strategist_prompt(segments), true),
    }
}

/// Builds a chat completion with a bearer token.
fn chat_call(url: &str, key: &str, model: &str, segments: &[TranscriptSegment]) -> (res: Request)
    ensures
        res@ == chat_request(url@, key@, model@, segment_views(segments@)),
{
    let prompt = prompt_text(segments);
    let token = bearer_text(key);
    let mut headers: Vec<(String, String)> = Vec::new();
    put_header(&mut headers, "Authorization", token.as_str());
    assert(header_views(headers@) =~= seq![("Authorization"@, bearer(key@))]);
    Request { url: url.to_owned(), headers, body: chat_json(model, prompt.as_str(), true) }
}

/// What DeepSeek is asked.
pub open spec fn deepseek_view(
    segments: Seq<SegmentView>,
    key: Seq<char>,
    name: Option<Seq<char>>,
    setting: Option<Seq<char>>,
) -> RequestView {
    chat_request(
        "https://api.deepseek.com/chat/completions"@,
        key,
        named_model(name, setting, "deepseek-chat"@),
        segments,
    )
}

/// Builds the request to DeepSeek.
pub fn deepseek_request(
    transcript: &NormalizedTranscript,
    api_key: &str,
    model_name: Option<&str>,
    model_setting: Option<&str>,
) -> (res: Request)
    ensures
        res@ == deepseek_view(
            segment_views(transcript.segments@),
            api_key@,
            opt_str(model_name),
            opt_str(model_setting),
        ),
        res@ == chat_request(
            "https://api.deepseek.com/chat/completions"@,
            api_key@,
            named_model(opt_str(model_name), opt_str(model_setting), "deepseek-chat"@),
            segment_views(transcript.segments@),
        ),
{
    let model = choose_model(model_name, model_setting, "deepseek-chat");
    chat_call(
        "https://api.deepseek.com/chat/completions",
        api_key,
        model.as_str(),
        transcript.segments.as_slice(),
    )
}

/// What OpenAI is asked.
pub open spec fn openai_view(
    segments: Seq<SegmentView>,
    key: Seq<char>,
    setting: Option<Seq<char>>,
) -> RequestView {
    chat_request("https://api.openai.com/v1/chat/completions"@, key, set_model(setting, "gpt-4o-mini"@), segments)
}

/// Builds the request to OpenAI.
pub fn openai_request(
    transcript: &NormalizedTranscript,
    api_key: &str,
    model_setting: Option<&str>,
) -> (res: Request)
    ensures
        res@ == openai_view(
            segment_views(transcript.segments@),
            api_key@,
            opt_str(model_setting),
        ),
        res@ == chat_request(
            "https://api.openai.com/v1/chat/completions"@,
            api_key@,
            set_model(opt_str(model_setting), "gpt-4o-mini"@),
            segment_views(transcript.segments@),
        ),
{
    let model = model_or(model_setting, "gpt-4o-mini");
    chat_call(
        "https://api.openai.com/v1/chat/completions",
        api_key,
        model.as_str(),
        transcript.segments.as_slice(),
    )
}

/// What Groq is asked.
pub open spec fn groq_view(
    segments: Seq<SegmentView>,
    key: Seq<char>,
    setting: Option<Seq<char>>,
) -> RequestView {
    chat_request("https://api.groq.com/openai/v1/chat/completions"@, key, set_model(setting, "llama-3.3-70b-versatile"@), segments)
}

/// Builds the request to Groq.
pub fn groq_request(
    transcript: &NormalizedTranscript,
    api_key: &str,
    model_setting: Option<&str>,
) -> (res: Request)
    ensures
        res@ == groq_view(
            segment_views(transcript.segments@),
            api_key@,
            opt_str(model_setting),
        ),
        res@ == chat_request(
            "https://api.groq.com/openai/v1/chat/completions"@,
            api_key@,
            set_model(opt_str(model_setting), "llama-3.3-70b-versatile"@),
            segment_views(transcript.segments@),
        ),
{
    let model = model_or(model_setting, "llama-3.3-70b-versatile");
    chat_call(
        "https://api.groq.com/openai/v1/chat/completions",
        api_key,
        model.as_str(),
        transcript.segments.as_slice(),
    )
}

/// The body of a request to Gemini.
pub open spec fn gemini_body(prompt: Seq<char>) -> JsonView {
    JsonView::Object(
        seq![
            (
                "contents"@,
                lone(single("parts"@, lone(single("text"@, JsonView::Text(prompt))))),
            ),
            (
                "generationConfig"@,
                JsonView::Object(
                    seq![
                        ("responseMimeType"@, JsonView::Text("application/json"@)),
                        ("temperature"@, JsonView::Number("0.2"@)),
                    ],
                ),
            ),
        ],
    )
}

/// What Gemini is asked.
pub open spec fn gemini_view(
    segments: Seq<SegmentView>,
    key: Seq<char>,
    setting: Option<Seq<char>>,
) -> RequestView {
    RequestView {
        url: "https://generativelanguage.googleapis.com/v1beta/models/"@ + set_model(
            setting,
            "gemini-2.5-flash"@,
        ) + ":generateContent?key="@ + key,
        headers: Seq::empty(),
        body: gemini_body(strategist_prompt(segments)),
    }
}

/// Builds the request to Gemini, which takes the key in its address.
pub fn gemini_request(
    transcript: &NormalizedTranscript,
    api_key: &str,
    model_setting: Option<&str>,
) -> (res: Request)
    ensures
        res@ == gemini_view(
            segment_views(transcript.segments@),
            api_key@,
            opt_str(model_setting),
        ),
        res@ == (RequestView {
            url: "https://generativelanguage.googleapis.com/v1beta/models/"@ + set_model(
                opt_str(model_setting),
                "gemini-2.5-flash"@,
            ) + ":generateContent?key="@ + api_key@,
            headers: Seq::empty(),
            body: gemini_body(strategist_prompt(segment_views(transcript.segments@))),
        }),
{
    let prompt = prompt_text(transcript.segments.as_slice());
    let model = model_or(model_setting, "gemini-2.5-flash");
    let mut url = "https://generativelanguage.googleapis.com/v1beta/models/".to_owned();
    url.append(model.as_str());
    url.append(":generateContent?key=");
    url.append(api_key);
    let mut config: Vec<(String, Json)> = Vec::new();
    put_member(&mut config, "responseMimeType", Json::of_text("application/json"));
    put_member(&mut config, "temperature", Json::of_number("0.2"));
    assert(member_views(config@) =~= seq![
        ("responseMimeType"@, JsonView::Text("application/json"@)),
        ("temperature"@, JsonView::Number("0.2"@)),
    ]);
    let parts = lone_json(single_json("text", Json::of_text(prompt.as_str())));
    let mut m: Vec<(String, Json)> = Vec::new();
    put_member(&mut m, "contents", lone_json(single_json("parts", parts)));
    put_member(&mut m, "generationConfig", Json::of_members(config));
    assert(member_views(m@) =~= gemini_body(prompt@)->Object_0);
    let headers: Vec<(String, String)> = Vec::new();
    assert(header_views(headers@) =~= Seq::<(Seq<char>, Seq<char>)>::empty());
    Request { url, headers, body: Json::of_members(m) }
}

/// The credential is a subscription's OAuth token rather than a console key.
pub open spec fn is_oauth_token(key: Seq<char>) -> bool {
    "sk-ant-oat"@.is_prefix_of(key)
}

/// The headers for Anthropic: a console key has a header of its own, while an OAuth
/// token is a bearer token and needs the header of the OAuth beta.
pub open spec fn claude_headers(key: Seq<char>) -> Seq<(Seq<char>, Seq<char>)> {
    if is_oauth_token(key) {
        seq![
            ("anthropic-version"@, "2023-06-01"@),
            ("authorization"@, bearer(key)),
            ("anthropic-beta"@, "oauth-2025-04-20"@),
        ]
    } else {
        seq![("anthropic-version"@, "2023-06-01"@), ("x-api-key"@, key)]
    }
}

/// The body of a request to Anthropic.
pub open spec fn claude_body(model: Seq<char>, prompt: Seq<char>) -> JsonView {
    JsonView::Object(
        seq![
            ("model"@, JsonView::Text(model)),
            ("max_tokens"@, JsonView::Number("8000"@)),
            ("temperature"@, JsonView::Number("0.2"@)),
            ("messages"@, lone(message("user"@, prompt))),
        ],
    )
}

/// What Anthropic is asked.
pub open spec fn anthropic_view(
    segments: Seq<SegmentView>,
    key: Seq<char>,
    setting: Option<Seq<char>>,
    usual: Seq<char>,
) -> RequestView {
    RequestView {
        url: "https://api.anthropic.com/v1/messages"@,
        headers: claude_headers(key),
        body: claude_body(set_model(setting, usual), strategist_prompt(segments)),
    }
}

/// Builds the request to Anthropic. `usual_model` is asked where no model is set.
pub fn claude_request(
    transcript: &NormalizedTranscript,
    api_key: &str,
    model_setting: Option<&str>,
    usual_model: &str,
) -> (res: Request)
    ensures
        res@ == anthropic_view(
            segment_views(transcript.segments@),
            api_key@,
            opt_str(model_setting),
            usual_model@,
        ),
        res@ == (RequestView {
            url: "https://api.anthropic.com/v1/messages"@,
            headers: claude_headers(api_key@),
            body: claude_body(
                set_model(opt_str(model_setting), usual_model@),
                strategist_prompt(segment_views(transcript.segments@)),
            ),
        }),
{
    let prompt = prompt_text(transcript.segments.as_slice());
    let model = model_or(model_setting, usual_model);
    let mut headers: Vec<(String, String)> = Vec::new();
    put_header(&mut headers, "anthropic-version", "2023-06-01");
    if starts_with(api_key, "sk-ant-oat") {
        let token = bearer_text(api_key);
        put_header(&mut headers, "authorization", token.as_str());
        put_header(&mut headers, "anthropic-beta", "oauth-2025-04-20");
    } else {
        put_header(&mut headers, "x-api-key", api_key);
    }
    assert(header_views(headers@) =~= claude_headers(api_key@));
    let mut m: Vec<(String, Json)> = Vec::new();
    put_member(&mut m, "model", Json::of_text(model.as_str()));
    put_member(&mut m, "max_tokens", Json::of_number("8000"));
    put_member(&mut m, "temperature", Json::of_number("0.2"));
    put_member(&mut m, "messages", lone_json(message_json("user", prompt.as_str())));
    assert(member_views(m@) =~= claude_body(model@, prompt@)->Object_0);
    Request {
        url: "https://api.anthropic.com/v1/messages".to_owned(),
        headers,
        body: Json::of_members(m),
    }
}

/// A schema for a value of one type.
pub open spec fn typed(name: Seq<char>) -> JsonView {
    single("type"@, JsonView::Text(name))
}

/// The schema that a local model's reply is held to.
pub open spec fn reply_schema() -> JsonView {
    let item = JsonView::Object(
        seq![
            ("type"@, JsonView::Text("object"@)),
            (
                "properties"@,
                JsonView::Object(
                    seq![
                        ("start"@, typed("number"@)),
                        ("end"@, typed("number"@)),
                        ("score"@, typed("number"@)),
                        ("hook"@, typed("string"@)),
                        ("rationale"@, typed("string"@)),
                    ],
                ),
            ),
            (
                "required"@,
                JsonView::Array(
                    seq![
                        JsonView::Text("start"@),
                        JsonView::Text("end"@),
                        JsonView::Text("score"@),
                        JsonView::Text("hook"@),
                        JsonView::Text("rationale"@),
                    ],
                ),
            ),
        ],
    );
    JsonView::Object(
        seq![
            ("type"@, JsonView::Text("object"@)),
            (
                "properties"@,
                single(
                    "candidates"@,
                    JsonView::Object(
                        seq![("type"@, JsonView::Text("array"@)), ("items"@, item)],
                    ),
                ),
            ),
            ("required"@, lone(JsonView::Text("candidates"@))),
        ],
    )
}

/// Builds the schema that a local model's reply is held to.
fn schema_json() -> (res: Json)
    ensures
        res@ == reply_schema(),
{
    let mut fields: Vec<(String, Json)> = Vec::new();
    put_member(&mut fields, "start", single_json("type", Json::of_text("number")));
    put_member(&mut fields, "end", single_json("type", Json::of_text("number")));
    put_member(&mut fields, "score", single_json("type", Json::of_text("number")));
    put_member(&mut fields, "hook", single_json("type", Json::of_text("string")));
    put_member(&mut fields, "rationale", single_json("type", Json::of_text("string")));
    let ghost fields_view = seq![
        ("start"@, typed("number"@)),
        ("end"@, typed("number"@)),
        ("score"@, typed("number"@)),
        ("hook"@, typed("string"@)),
        ("rationale"@, typed("string"@)),
    ];
    assert(member_views(fields@) =~= fields_view);
    let mut names: Vec<Json> = Vec::new();
    put_item(&mut names, Json::of_text("start"));
    put_item(&mut names, Json::of_text("end"));
    put_item(&mut names, Json::of_text("score"));
    put_item(&mut names, Json::of_text("hook"));
    put_item(&mut names, Json::of_text("rationale"));
    let ghost names_view = seq![
        JsonView::Text("start"@),
        JsonView::Text("end"@),
        JsonView::Text("score"@),
        JsonView::Text("hook"@),
        JsonView::Text("rationale"@),
    ];
    assert(item_views(names@) =~= names_view);
    let mut item: Vec<(String, Json)> = Vec::new();
    put_member(&mut item, "type", Json::of_text("object"));
    put_member(&mut item, "properties", Json::of_members(fields));
    put_member(&mut item, "required", Json::of_items(names));
    let ghost item_view = seq![
        ("type"@, JsonView::Text("object"@)),
        ("properties"@, JsonView::Object(fields_view)),
        ("required"@, JsonView::Array(names_view)),
    ];
    assert(member_views(item@) =~= item_view);
    let mut list: Vec<(String, Json)> = Vec::new();
    put_member(&mut list, "type", Json::of_text("array"));
    put_member(&mut list, "items", Json::of_members(item));
    let ghost list_view = seq![
        ("type"@, JsonView::Text("array"@)),
        ("items"@, JsonView::Object(item_view)),
    ];
    assert(member_views(list@) =~= list_view);
    let mut m: Vec<(String, Json)> = Vec::new();
    put_member(&mut m, "type", Json::of_text("object"));
    put_member(&mut m, "properties", single_json("candidates", Json::of_members(list)));
    put_member(&mut m, "required", lone_json(Json::of_text("candidates")));
    assert(member_views(m@) =~= seq![
        ("type"@, JsonView::Text("object"@)),
        ("properties"@, single("candidates"@, JsonView::Object(list_view))),
        ("required"@, lone(JsonView::Text("candidates"@))),
    ]);
    Json::of_members(m)
}

/// The body of a request to a local model.
pub open spec fn local_body(model: Seq<char>, segments: Seq<SegmentView>) -> JsonView {
    JsonView::Object(
        seq![
            ("model"@, JsonView::Text(model)),
            (
                "messages"@,
                JsonView::Array(
                    seq![
                        message("system"@, local_instructions()),
                        message("user"@, "Transcript:\n"@ + compact(segments)),
                    ],
                ),
            ),
            ("stream"@, JsonView::Boolean(false)),
            ("options"@, single("temperature"@, JsonView::Number("0.2"@))),
            ("format"@, reply_schema()),
        ],
    )
}

/// What a local model is asked.
pub open spec fn local_view(segments: Seq<SegmentView>, model: Seq<char>) -> RequestView {
    RequestView {
        url: "http://localhost:11434/api/chat"@,
        headers: Seq::empty(),
        body: local_body(model, segments),
    }
}

/// Builds the request to a local model.
pub fn local_request(transcript: &NormalizedTranscript, model_name: &str) -> (res: Request)
    ensures
        res@ == local_view(segment_views(transcript.segments@), model_name@),
        res@ == (RequestView {
            url: "http://localhost:11434/api/chat"@,
            headers: Seq::empty(),
            body: local_body(model_name@, segment_views(transcript.segments@)),
        }),
{
    let segments = compact_segments(transcript.segments.as_slice());
    let mut said = "Transcript:\n".to_owned();
    said.append(segments.as_str());
    let mut messages: Vec<Json> = Vec::new();
    put_item(
        &mut messages,
        message_json(
            "system",
            "You are an elite, world-class social media strategist with a track record of generating viral multi-million-view Shorts, TikToks, and Reels. Your sole objective is to identify the ABSOLUTE BEST, most highly-engaging, and trend-setting short-form clip candidates from the provided transcript. Do NOT pick random or mediocre segments. Be ruthless in your selection. Every candidate must have an insanely strong, curiosity-inducing hook in the first 3 seconds to stop the scroll. CRITICAL: Each clip candidate MUST have a duration between 30 and 90 seconds (i.e. 'end' minus 'start' must be between 30.0 and 90.0). Do NOT return short clips of less than 30 seconds. Combine multiple adjacent sentences to build a meaningful segment of 30-90 seconds. Favor highly shareable content: concrete stories, strong opinions, emotional turns, surprising or counter-intuitive claims, clear payoffs, and high-energy/dramatic peaks. You MUST identify and return at least 3-10 candidates. Do not return an empty candidates list. Ensure the 'start' and 'end' values correspond to actual timestamps in the transcript. Do not output 0.0 for start and end times.",
        ),
    );
    put_item(&mut messages, message_json("user", said.as_str()));
    assert(item_views(messages@) =~= seq![
        message("system"@, local_instructions()),
        message("user"@, said@),
    ]);
    let mut m: Vec<(String, Json)> = Vec::new();
    put_member(&mut m, "model", Json::of_text(model_name));
    put_member(&mut m, "messages", Json::of_items(messages));
    put_member(&mut m, "stream", Json::Boolean(false));
    put_member(&mut m, "options", single_json("temperature", Json::of_number("0.2")));
    put_member(&mut m, "format", schema_json());
    assert(member_views(m@) =~= local_body(
        model_name@,
        segment_views(transcript.segments@),
    )->Object_0);
    let headers: Vec<(String, String)> = Vec::new();
    assert(header_views(headers@) =~= Seq::<(Seq<char>, Seq<char>)>::empty());
    Request {
        url: "http://localhost:11434/api/chat".to_owned(),
        headers,
        body: Json::of_members(m),
    }
}

/// The model takes the parameter for JSON mode: OpenRouter fronts many vendors,
/// and Anthropic's models, whose family is called `family`, reject it.
pub open spec fn takes_json_mode(model: Seq<char>, family: Seq<char>) -> bool {
    !contains(lower(model), "anthropic"@) && !contains(lower(model), family)
}

/// Whether the model takes the parameter for JSON mode.
pub fn supports_json_mode(model: &str, family: &str) -> (res: bool)
    ensures
        res == takes_json_mode(model@, family@),
{
    let m = lower_of(model);
    !(holds_text(m.as_str(), "anthropic") || holds_text(m.as_str(), family))
}

/// Chooses the model to ask through OpenRouter.
pub fn openrouter_model(model_name: Option<&str>, model_setting: Option<&str>) -> (res: String)
    ensures
        res@ == named_model(
            opt_str(model_name),
            opt_str(model_setting),
            "google/gemini-2.5-flash"@,
        ),
{
    choose_model(model_name, model_setting, "google/gemini-2.5-flash")
}

/// What the router is asked.
pub open spec fn router_view(
    segments: Seq<SegmentView>,
    key: Seq<char>,
    model: Seq<char>,
    json_mode: bool,
) -> RequestView {
    RequestView {
        url: "https://openrouter.ai/api/v1/chat/completions"@,
        headers: seq![
            ("Authorization"@, bearer(key)),
            ("HTTP-Referer"@, "https://github.com/JayWebtech/autoshorts"@),
            ("X-Title"@, "AutoShorts"@),
        ],
        body: chat_body(model, strategist_prompt(segments), json_mode),
    }
}

/// Builds the request to a model through OpenRouter.
pub fn openrouter_request(
    transcript: &NormalizedTranscript,
    api_key: &str,
    model: &str,
    json_mode: bool,
) -> (res: Request)
    ensures
        res@ == router_view(
            segment_views(transcript.segments@),
            api_key@,
            model@,
            json_mode,
        ),
        res@ == (RequestView {
            url: "https://openrouter.ai/api/v1/chat/completions"@,
            headers: seq![
                ("Authorization"@, bearer(api_key@)),
                ("HTTP-Referer"@, "https://github.com/JayWebtech/autoshorts"@),
                ("X-Title"@, "AutoShorts"@),
            ],
            body: chat_body(
                model@,
                strategist_prompt(segment_views(transcript.segments@)),
                json_mode,
            ),
        }),
{
    let prompt = prompt_text(transcript.segments.as_slice());
    let token = bearer_text(api_key);
    let mut headers: Vec<(String, String)> = Vec::new();
    put_header(&mut headers, "Authorization", token.as_str());
    put_header(&mut headers, "HTTP-Referer", "https://github.com/JayWebtech/autoshorts");
    put_header(&mut headers, "X-Title", "AutoShorts");
    assert(header_views(headers@) =~= seq![
        ("Authorization"@, bearer(api_key@)),
        ("HTTP-Referer"@, "https://github.com/JayWebtech/autoshorts"@),
        ("X-Title"@, "AutoShorts"@),
    ]);
    Request {
        url: "https://openrouter.ai/api/v1/chat/completions".to_owned(),
        headers,
        body: chat_json(model, prompt.as_str(), json_mode),
    }
}

/// Who is asked for candidates; Anthropic with the name of its model family.
#[derive(Clone, Copy)]
pub enum Vendor<'a> {
    DeepSeek,
    Gemini,
    OpenAi,
    OpenRouter,
    Groq,
    Claude(&'a str),
    Local,
}

/// The vendor's name in messages.
pub open spec fn vendor_name(v: Vendor<'_>) -> Seq<char> {
    match v {
        Vendor::DeepSeek => "DeepSeek"@,
        Vendor::Gemini => "Gemini"@,
        Vendor::OpenAi => "OpenAI"@,
        Vendor::OpenRouter => "OpenRouter"@,
        Vendor::Groq => "Groq"@,
        Vendor::Claude(family) => family@,
        Vendor::Local => "local Ollama"@,
    }
}

/// The name that begins a message about a request.
pub open spec fn leading_name(v: Vendor<'_>) -> Seq<char> {
    match v {
        Vendor::Local => "Local Ollama"@,
        _ => vendor_name(v),
    }
}

/// The message for a request that was refused.
pub open spec fn refusal(v: Vendor<'_>, status: Seq<char>, body: Seq<char>) -> Seq<char> {
    leading_name(v) + " request failed ("@ + status + "): "@ + body
}

/// The message for a response without a text.
pub open spec fn no_text(v: Vendor<'_>) -> Seq<char> {
    match v {
        Vendor::Gemini => "Gemini response did not include content text"@,
        Vendor::Claude(family) => family@ + " response did not include text content"@,
        _ => leading_name(v) + " response did not include choices content"@,
    }
}

impl<'a> Vendor<'a> {
    /// The vendor's name in messages.
    fn name(self) -> (res: &'a str)
        ensures
            res@ == vendor_name(self),
    {
        match self {
            Vendor::DeepSeek => "DeepSeek",
            Vendor::Gemini => "Gemini",
            Vendor::OpenAi => "OpenAI",
            Vendor::OpenRouter => "OpenRouter",
            Vendor::Groq => "Groq",
            Vendor::Claude(family) => family,
            Vendor::Local => "local Ollama",
        }
    }

    /// The name that begins a message about a request.
    fn title(self) -> (res: &'a str)
        ensures
            res@ == leading_name(self),
    {
        match self {
            Vendor::Local => "Local Ollama",
            _ => self.name(),
        }
    }

    /// The message for a request that could not be sent.
    pub fn call_failure(self) -> (res: String)
        ensures
            res@ == "calling "@ + vendor_name(self),
    {
        let mut s = "calling ".to_owned();
        s.append(self.name());
        s
    }

    /// The message for a response that could not be read.
    pub fn parse_failure(self) -> (res: String)
        ensures
            res@ == "parsing "@ + vendor_name(self) + " response"@,
    {
        let mut s = "parsing ".to_owned();
        s.append(self.name());
        s.append(" response");
        s
    }

    /// The message for a request that was refused.
    pub fn refusal_message(self, status: &str, body: &str) -> (res: String)
        ensures
            res@ == refusal(self, status@, body@),
    {
        let mut s = self.title().to_owned();
        s.append(" request failed (");
        s.append(status);
        s.append("): ");
        s.append(body);
        s
    }

    /// The message for a response without a text.
    pub fn no_text_message(self) -> (res: String)
        ensures
            res@ == no_text(self),
    {
        match self {
            Vendor::Gemini => "Gemini response did not include content text".to_owned(),
            Vendor::Claude(family) => {
                let mut s = family.to_owned();
                s.append(" response did not include text content");
                s
            },
            _ => {
                let mut s = self.title().to_owned();
                s.append(" response did not include choices content");
                s
            },
        }
    }
}

/// What to do with a response of OpenRouter.
#[derive(Debug)]
pub enum RouterStep {
    /// Read the response.
    Read,
    /// Ask again without JSON mode.
    Retry,
    /// Give up with a message.
    Fail(String),
}

/// What a [`RouterStep`] says.
pub enum RouterStepView {
    Read,
    Retry,
    Fail(Seq<char>),
}

impl View for RouterStep {
    type V = RouterStepView;

    open spec fn view(&self) -> RouterStepView {
        match self {
            RouterStep::Read => RouterStepView::Read,
            RouterStep::Retry => RouterStepView::Retry,
            RouterStep::Fail(m) => RouterStepView::Fail(m@),
        }
    }
}

/// What to do with a response: only a complaint about the JSON-mode parameter is
/// worth asking again, and only where JSON mode was asked for.
pub open spec fn router_step(
    json_mode: bool,
    success: bool,
    status: Seq<char>,
    body: Seq<char>,
) -> RouterStepView {
    if success {
        RouterStepView::Read
    } else if json_mode && contains(lower(body), "response_format"@) {
        RouterStepView::Retry
    } else {
        RouterStepView::Fail(refusal(Vendor::OpenRouter, status, body))
    }
}

/// Decides what to do with a response of OpenRouter to a request with or without
/// JSON mode.
pub fn openrouter_step(json_mode: bool, success: bool, status: &str, body: &str) -> (res: RouterStep)
    ensures
        res@ == router_step(json_mode, success, status@, body@),
{
    if success {
        return RouterStep::Read;
    }
    if json_mode {
        let said = lower_of(body);
        if holds_text(said.as_str(), "response_format") {
            return RouterStep::Retry;
        }
    }
    RouterStep::Fail(Vendor::OpenRouter.refusal_message(status, body))
}

/// A request is sent again at most once: a second response is never answered
/// with a third request.
pub proof fn law_one_retry(success: bool, status: Seq<char>, body: Seq<char>)
    ensures
        !(router_step(false, success, status, body) is Retry),
        success ==> router_step(true, success, status, body) is Read,
{
}

/// A model of Anthropic is never asked for JSON mode, however its name is
/// written.
pub proof fn law_no_json_mode(model: Seq<char>, family: Seq<char>, at: int)
    requires
        0 <= at <= lower(model).len(),
        family.is_prefix_of(lower(model).skip(at)) || "anthropic"@.is_prefix_of(
            lower(model).skip(at),
        ),
    ensures
        !takes_json_mode(model, family),
{
}

/// The first text of a list.
pub open spec fn first_text(contents: Seq<Seq<char>>) -> Option<Seq<char>> {
    if contents.len() > 0 {
        Some(contents[0])
    } else {
        None
    }
}

/// The reply in a chat completion: the content of its first choice.
pub fn chat_reply(contents: &Vec<String>) -> (res: Option<String>)
    ensures
        opt_text(res) == first_text(texts(contents@)),
{
    if contents.len() > 0 {
        assert(texts(contents@)[0] == contents@[0]@);
        Some(contents[0].as_str().to_owned())
    } else {
        None
    }
}

/// The texts of a list of optional strings.
pub open spec fn part_texts(v: Seq<Option<String>>) -> Seq<Option<Seq<char>>> {
    v.map_values(|s: Option<String>| opt_text(s))
}

/// The texts of the parts of a list of candidates.
pub open spec fn candidate_texts(v: Seq<Vec<Option<String>>>) -> Seq<Seq<Option<Seq<char>>>> {
    v.map_values(|p: Vec<Option<String>>| part_texts(p@))
}

/// The text of the first part of the first candidate.
pub open spec fn first_part(candidates: Seq<Seq<Option<Seq<char>>>>) -> Option<Seq<char>> {
    if candidates.len() > 0 && candidates[0].len() > 0 {
        candidates[0][0]
    } else {
        None
    }
}

/// The reply of Gemini: the text of the first part of its first candidate.
pub fn gemini_reply(candidates: &Vec<Vec<Option<String>>>) -> (res: Option<String>)
    ensures
        opt_text(res) == first_part(candidate_texts(candidates@)),
{
    if candidates.len() > 0 {
        assert(candidate_texts(candidates@)[0] == part_texts(candidates@[0]@));
        let parts = &candidates[0];
        if parts.len() > 0 {
            assert(part_texts(parts@)[0] == opt_text(parts@[0]));
            return match &parts[0] {
                Some(t) => Some(t.as_str().to_owned()),
                None => None,
            };
        }
    }
    None
}

/// The first text that is there.
pub open spec fn first_some(parts: Seq<Option<Seq<char>>>) -> Option<Seq<char>>
    decreases parts.len(),
{
    if parts.len() == 0 {
        None
    } else if parts[0] is Some {
        parts[0]
    } else {
        first_some(parts.drop_first())
    }
}

/// The reply of Anthropic: the first of its contents that has a text.
pub fn claude_reply(contents: &Vec<Option<String>>) -> (res: Option<String>)
    ensures
        opt_text(res) == first_some(part_texts(contents@)),
{
    let ghost all = part_texts(contents@);
    let mut i: usize = 0;
    assert(all.skip(0) =~= all);
    while i < contents.len()
        invariant
            i <= contents@.len(),
            all == part_texts(contents@),
            first_some(all) == first_some(all.skip(i as int)),
        decreases contents@.len() - i,
    {
        assert(all.skip(i as int)[0] == opt_text(contents@[i as int]));
        if let Some(t) = &contents[i] {
            return Some(t.as_str().to_owned());
        }
        assert(all.skip(i as int).drop_first() =~= all.skip(i + 1));
        i += 1;
    }
    None
}

/// The wanted length of a clip: half the source where it is short, but at least
/// five seconds, and half a minute otherwise.
pub open spec fn wanted_length(duration: int) -> int {
    if duration >= 60_000_000_000 {
        30_000_000_000
    } else if duration > 10_000_000_000 {
        duration / 2
    } else {
        5_000_000_000
    }
}

/// Computes the wanted length of a clip.
pub fn min_duration(duration: i64) -> (res: i64)
    ensures
        res == wanted_length(duration as int),
{
    if duration >= 60_000_000_000 {
        30_000_000_000
    } else if duration > 10_000_000_000 {
        duration / 2
    } else {
        5_000_000_000
    }
}

/// The candidates that a vendor's reply yields, or the message of the failure.
pub open spec fn detected(v: Vendor<'_>, reply: Option<Seq<char>>, duration: int) -> Result<
    Seq<DraftView>,
    Seq<char>,
> {
    match reply {
        Some(text) => match reply_candidates(text, wanted_length(duration)) {
            Ok(best) => Ok(best),
            Err(e) => Err(error_text(e)),
        },
        None => Err(no_text(v)),
    }
}

/// Reads the candidates out of a vendor's reply.
pub fn detect_candidates(vendor: Vendor<'_>, reply: Option<&str>, duration: i64) -> (res: Result<
    Vec<CandidateDraft>,
    String,
>)
    ensures
        match (res, detected(vendor, opt_str(reply), duration as int)) {
            (Ok(v), Ok(best)) => draft_views(v@) == best,
            (Err(e), Err(x)) => e@ == x,
            _ => false,
        },
{
    match reply {
        Some(text) => match parse_candidate_json(text, min_duration(duration)) {
            Ok(v) => Ok(v),
            Err(e) => Err(e.message()),
        },
        None => Err(vendor.no_text_message()),
    }
}

/// The wanted length is between five seconds and half a minute.
pub proof fn law_wanted_length(duration: int)
    ensures
        5_000_000_000 <= wanted_length(duration) <= 30_000_000_000,
        10_000_000_000 <= duration ==> wanted_length(duration) <= duration / 2,
{
}

/// A segment is a line with its times to the hundredth, who speaks and what is
/// said; a speaker without a name is just that.
pub proof fn law_segment_line(start: int, end: int, name: Seq<char>, text: Seq<char>)
    ensures
        segment_line(SegmentView { start, end, speaker: Some(name), text }) == seq!['['] + fixed_text(
            start,
            2,
        ) + seq!['-'] + fixed_text(end, 2) + seq![']', ' '] + name + seq![':', ' '] + text,
        segment_line(SegmentView { start, end, speaker: None, text }) == segment_line(
            SegmentView { start, end, speaker: Some("Speaker"@), text },
        ),
{
    reveal_strlit("[");
    reveal_strlit("-");
    reveal_strlit("] ");
    reveal_strlit(": ");
    assert("["@ =~= seq!['[']);
    assert("-"@ =~= seq!['-']);
    assert("] "@ =~= seq![']', ' ']);
    assert(": "@ =~= seq![':', ' ']);
}

/// The segments stand one to a line, in order.
pub proof fn law_compact(segments: Seq<SegmentView>, s: SegmentView)
    ensures
        compact(Seq::empty()) == Seq::<char>::empty(),
        compact(seq![s]) == segment_line(s),
        segments.len() > 0 ==> compact(segments.push(s)) == compact(segments) + seq!['\n']
            + segment_line(s),
{
    reveal_strlit("\n");
    assert("\n"@ =~= seq!['\n']);
    assert(segment_lines(seq![s]) =~= seq![segment_line(s)]);
    assert(segment_lines(segments.push(s)) =~= segment_lines(segments).push(segment_line(s)));
    law_joined(segment_lines(segments), segment_line(s), "\n"@);
    assert(segment_lines(Seq::empty()) =~= Seq::<Seq<char>>::empty());
}

/// The prompt is the same for every transcript up to the transcript at its end.
pub proof fn law_strategist_prompt(segments: Seq<SegmentView>)
    ensures
        strategist_prompt(segments) == "You are an elite, world-class social media strategist with a track record of generating viral multi-million-view Shorts, TikToks, and Reels. Your sole objective is to identify the ABSOLUTE BEST, most highly-engaging, and trend-setting short-form clip candidates from the provided transcript. Do NOT pick random or mediocre segments. Be ruthless in your selection, but extract AS MANY highly viral moments as possible. Every candidate must have an insanely strong, curiosity-inducing hook in the first 3 seconds to stop the scroll. Clips should be 30-90 seconds long, completely self-contained, cut at clean boundaries, and deliver a massive payoff (a mind-blowing fact, hilarious joke, highly controversial opinion, or deep emotional insight). Return up to 25 candidates as JSON matching exactly this schema: {\"candidates\":[{\"start\":0.0,\"end\":0.0,\"score\":0.0,\"hook\":\"...\",\"rationale\":\"...\"}]}\n\nTranscript:\n"@
            + compact(segments),
        local_instructions() == "You are an elite, world-class social media strategist with a track record of generating viral multi-million-view Shorts, TikToks, and Reels. Your sole objective is to identify the ABSOLUTE BEST, most highly-engaging, and trend-setting short-form clip candidates from the provided transcript. Do NOT pick random or mediocre segments. Be ruthless in your selection. Every candidate must have an insanely strong, curiosity-inducing hook in the first 3 seconds to stop the scroll. CRITICAL: Each clip candidate MUST have a duration between 30 and 90 seconds (i.e. 'end' minus 'start' must be between 30.0 and 90.0). Do NOT return short clips of less than 30 seconds. Combine multiple adjacent sentences to build a meaningful segment of 30-90 seconds. Favor highly shareable content: concrete stories, strong opinions, emotional turns, surprising or counter-intuitive claims, clear payoffs, and high-energy/dramatic peaks. You MUST identify and return at least 3-10 candidates. Do not return an empty candidates list. Ensure the 'start' and 'end' values correspond to actual timestamps in the transcript. Do not output 0.0 for start and end times."@,
{
}

/// A key is borne behind its mark; a message has its role and its text.
pub proof fn law_message(key: Seq<char>, role: Seq<char>, text: Seq<char>, value: JsonView)
    ensures
        bearer(key) == "Bearer "@ + key,
        message(role, text) == JsonView::Object(
            seq![("role"@, JsonView::Text(role)), ("content"@, JsonView::Text(text))],
        ),
        single(key, value) == JsonView::Object(seq![(key, value)]),
        lone(value) == JsonView::Array(seq![value]),
        typed(text) == single("type"@, JsonView::Text(text)),
{
}

/// A chat is asked of the model with the one prompt of the user and little
/// freedom; in JSON mode it is also told the form of the answer.
pub proof fn law_chat_body(model: Seq<char>, prompt: Seq<char>, members: Seq<(Seq<char>, JsonView)>)
    requires
        members == seq![
            ("model"@, JsonView::Text(model)),
            ("messages"@, JsonView::Array(seq![message("user"@, prompt)])),
            ("temperature"@, JsonView::Number("0.2"@)),
        ],
    ensures
        chat_body(model, prompt, false) == JsonView::Object(members),
        chat_body(model, prompt, true) == JsonView::Object(
            members.push(
                (
                    "response_format"@,
                    JsonView::Object(seq![("type"@, JsonView::Text("json_object"@))]),
                ),
            ),
        ),
{
}

/// A request to a chat goes to its address with the key and the prompt about the
/// segments, in JSON mode.
pub proof fn law_chat_request(
    url: Seq<char>,
    key: Seq<char>,
    model: Seq<char>,
    segments: Seq<SegmentView>,
)
    ensures
        chat_request(url, key, model, segments).url == url,
        chat_request(url, key, model, segments).headers == seq![
            ("Authorization"@, "Bearer "@ + key),
        ],
        chat_request(url, key, model, segments).body == chat_body(
            model,
            strategist_prompt(segments),
            true,
        ),
{
}

/// The model is the one that was asked for, trimmed; else the one that is set;
/// else the usual one.
pub proof fn law_models(
    name: Seq<char>,
    set: Seq<char>,
    asked: Option<Seq<char>>,
    setting: Option<Seq<char>>,
    usual: Seq<char>,
)
    ensures
        !is_blank(name) ==> named_model(Some(name), setting, usual) == trimmed(name),
        is_blank(name) ==> named_model(Some(name), setting, usual) == named_model(None, setting, usual),
        !is_blank(set) ==> named_model(None, Some(set), usual) == set,
        is_blank(set) ==> named_model(None, Some(set), usual) == usual,
        named_model(None, None, usual) == usual,
        set_model(Some(set), usual) == set,
        set_model(None, usual) == usual,
{
}

/// The body for Gemini: the prompt as the only part of the only content, and the
/// form of the answer.
pub proof fn law_gemini_body(prompt: Seq<char>)
    ensures
        gemini_body(prompt) == JsonView::Object(
            seq![
                (
                    "contents"@,
                    JsonView::Array(
                        seq![
                            JsonView::Object(
                                seq![
                                    (
                                        "parts"@,
                                        JsonView::Array(
                                            seq![
                                                JsonView::Object(
                                                    seq![("text"@, JsonView::Text(prompt))],
                                                ),
                                            ],
                                        ),
                                    ),
                                ],
                            ),
                        ],
                    ),
                ),
                (
                    "generationConfig"@,
                    JsonView::Object(
                        seq![
                            ("responseMimeType"@, JsonView::Text("application/json"@)),
                            ("temperature"@, JsonView::Number("0.2"@)),
                        ],
                    ),
                ),
            ],
        ),
{
}

/// A token goes into its own header with the mark of its kind, a key into
/// another.
pub proof fn law_anthropic_headers(key: Seq<char>, rest: Seq<char>)
    ensures
        is_oauth_token("sk-ant-oat"@ + rest),
        is_oauth_token(key) <==> "sk-ant-oat"@.is_prefix_of(key),
        is_oauth_token(key) ==> claude_headers(key) == seq![
            ("anthropic-version"@, "2023-06-01"@),
            ("authorization"@, "Bearer "@ + key),
            ("anthropic-beta"@, "oauth-2025-04-20"@),
        ],
        !is_oauth_token(key) ==> claude_headers(key) == seq![
            ("anthropic-version"@, "2023-06-01"@),
            ("x-api-key"@, key),
        ],
{
    let t = "sk-ant-oat"@ + rest;
    assert(t.subrange(0, "sk-ant-oat"@.len() as int) =~= "sk-ant-oat"@);
}

/// The body for Anthropic: the model, room for the answer, little freedom and the
/// prompt.
pub proof fn law_anthropic_body(model: Seq<char>, prompt: Seq<char>)
    ensures
        claude_body(model, prompt) == JsonView::Object(
            seq![
                ("model"@, JsonView::Text(model)),
                ("max_tokens"@, JsonView::Number("8000"@)),
                ("temperature"@, JsonView::Number("0.2"@)),
                ("messages"@, JsonView::Array(seq![message("user"@, prompt)])),
            ],
        ),
{
}

/// The body for a local model: the instructions and the transcript as two
/// messages, no stream, little freedom and the schema of the answer.
pub proof fn law_local_body(model: Seq<char>, segments: Seq<SegmentView>)
    ensures
        local_body(model, segments) == JsonView::Object(
            seq![
                ("model"@, JsonView::Text(model)),
                (
                    "messages"@,
                    JsonView::Array(
                        seq![
                            message("system"@, local_instructions()),
                            message("user"@, "Transcript:\n"@ + compact(segments)),
                        ],
                    ),
                ),
                ("stream"@, JsonView::Boolean(false)),
                (
                    "options"@,
                    JsonView::Object(seq![("temperature"@, JsonView::Number("0.2"@))]),
                ),
                ("format"@, reply_schema()),
            ],
        ),
{
}

/// The schema asks for a list of candidates, each with the five members that a
/// draft is read from, all of them required.
pub proof fn law_reply_schema(item: JsonView)
    requires
        item == JsonView::Object(
            seq![
                ("type"@, JsonView::Text("object"@)),
                (
                    "properties"@,
                    JsonView::Object(
                        seq![
                            ("start"@, typed("number"@)),
                            ("end"@, typed("number"@)),
                            ("score"@, typed("number"@)),
                            ("hook"@, typed("string"@)),
                            ("rationale"@, typed("string"@)),
                        ],
                    ),
                ),
                (
                    "required"@,
                    JsonView::Array(
                        seq![
                            JsonView::Text("start"@),
                            JsonView::Text("end"@),
                            JsonView::Text("score"@),
                            JsonView::Text("hook"@),
                            JsonView::Text("rationale"@),
                        ],
                    ),
                ),
            ],
        ),
    ensures
        reply_schema() == JsonView::Object(
            seq![
                ("type"@, JsonView::Text("object"@)),
                (
                    "properties"@,
                    single(
                        "candidates"@,
                        JsonView::Object(
                            seq![("type"@, JsonView::Text("array"@)), ("items"@, item)],
                        ),
                    ),
                ),
                ("required"@, JsonView::Array(seq![JsonView::Text("candidates"@)])),
            ],
        ),
{
}

/// JSON mode is asked of every model but those of the one family, by either of
/// its names.
pub proof fn law_json_mode(model: Seq<char>, family: Seq<char>)
    ensures
        takes_json_mode(model, family) <==> !contains(lower(model), "anthropic"@) && !contains(
            lower(model),
            family,
        ),
{
}

/// What the vendors are called, and what is said of a request that was refused or
/// answered without a text.
pub proof fn law_vendors(family: &str, v: Vendor<'_>, status: Seq<char>, body: Seq<char>)
    ensures
        vendor_name(Vendor::DeepSeek) == "DeepSeek"@ && vendor_name(Vendor::Gemini) == "Gemini"@,
        vendor_name(Vendor::OpenAi) == "OpenAI"@ && vendor_name(Vendor::OpenRouter) == "OpenRouter"@,
        vendor_name(Vendor::Groq) == "Groq"@ && vendor_name(Vendor::Local) == "local Ollama"@,
        vendor_name(Vendor::Claude(family)) == family@,
        leading_name(Vendor::Local) == "Local Ollama"@,
        !(v is Local) ==> leading_name(v) == vendor_name(v),
        refusal(v, status, body) == leading_name(v) + " request failed ("@ + status + "): "@ + body,
        no_text(Vendor::Gemini) == "Gemini response did not include content text"@,
        no_text(Vendor::Claude(family)) == family@ + " response did not include text content"@,
        !(v is Gemini) && !(v is Claude) ==> no_text(v) == leading_name(v)
            + " response did not include choices content"@,
{
}

/// A router that refuses JSON mode is asked once more without it; any other
/// refusal ends the request.
pub proof fn law_router_step(json_mode: bool, status: Seq<char>, body: Seq<char>)
    ensures
        router_step(json_mode, true, status, body) is Read,
        json_mode && contains(lower(body), "response_format"@) ==> router_step(
            json_mode,
            false,
            status,
            body,
        ) is Retry,
        !json_mode || !contains(lower(body), "response_format"@) ==> router_step(
            json_mode,
            false,
            status,
            body,
        ) == RouterStepView::Fail("OpenRouter"@ + " request failed ("@ + status + "): "@ + body),
{
}

/// A chat's reply is its first text; Gemini's is the first part of its first
/// candidate.
pub proof fn law_first_text(contents: Seq<Seq<char>>, candidates: Seq<Seq<Option<Seq<char>>>>)
    ensures
        contents.len() > 0 ==> first_text(contents) == Some(contents[0]),
        contents.len() == 0 ==> first_text(contents) is None,
        candidates.len() > 0 && candidates[0].len() > 0 ==> first_part(candidates) == candidates[0][0],
        candidates.len() == 0 || candidates[0].len() == 0 ==> first_part(candidates) is None,
{
}

/// Of several parts the first with a text is the reply.
pub proof fn law_first_some(parts: Seq<Option<Seq<char>>>, i: int)
    requires
        0 <= i <= parts.len(),
        forall|k: int| 0 <= k < i ==> (#[trigger] parts[k]) is None,
        i < parts.len() ==> parts[i] is Some,
    ensures
        first_some(parts) == if i < parts.len() {
            parts[i]
        } else {
            None
        },
    decreases parts.len(),
{
    if i > 0 {
        assert(parts[0] is None);
        let rest = parts.drop_first();
        assert forall|k: int| 0 <= k < i - 1 implies (#[trigger] rest[k]) is None by {
            assert(rest[k] == parts[k + 1]);
        }
        law_first_some(rest, i - 1);
    }
}

/// Clips of half a minute are wanted from a source of a minute or more, of half
/// its length from one of more than ten seconds, and of five seconds from a
/// shorter one.
pub proof fn law_wanted(duration: int)
    ensures
        duration >= 60_000_000_000 ==> wanted_length(duration) == 30_000_000_000,
        10_000_000_000 < duration < 60_000_000_000 ==> 2 * wanted_length(duration) <= duration < 2
            * wanted_length(duration) + 2,
        duration <= 10_000_000_000 ==> wanted_length(duration) == 5_000_000_000,
{
}

/// What is detected are the candidates of the reply, for the wanted length; a
/// reply that is missing or unreadable is told.
pub proof fn law_detected(v: Vendor<'_>, text: Seq<char>, duration: int)
    ensures
        detected(v, None, duration) == Err::<Seq<DraftView>, Seq<char>>(no_text(v)),
        reply_candidates(text, wanted_length(duration)) matches Ok(best) ==> detected(
            v,
            Some(text),
            duration,
        ) == Ok::<Seq<DraftView>, Seq<char>>(best),
        reply_candidates(text, wanted_length(duration)) matches Err(e) ==> detected(
            v,
            Some(text),
            duration,
        ) == Err::<Seq<DraftView>, Seq<char>>(error_text(e)),
{
}

/// A segment, a request and the parts of a reply stand for what they hold.
pub proof fn law_provider_views(
    s: TranscriptSegment,
    v: Seq<TranscriptSegment>,
    r: Request,
    h: Seq<(String, String)>,
    step: RouterStep,
    parts: Seq<Option<String>>,
    candidates: Seq<Vec<Option<String>>>,
)
    ensures
        s@.start == s.start && s@.end == s.end && s@.text == s.text@,
        s@.speaker == opt_text(s.speaker),
        segment_views(v).len() == v.len(),
        forall|i: int| 0 <= i < v.len() ==> #[trigger] segment_views(v)[i] == v[i]@,
        r@.url == r.url@ && r@.headers == header_views(r.headers@) && r@.body == r.body@,
        header_views(h).len() == h.len(),
        forall|i: int| 0 <= i < h.len() ==> #[trigger] header_views(h)[i] == (h[i].0@, h[i].1@),
        match (step, step@) {
            (RouterStep::Read, RouterStepView::Read) => true,
            (RouterStep::Retry, RouterStepView::Retry) => true,
            (RouterStep::Fail(m), RouterStepView::Fail(x)) => m@ == x,
            _ => false,
        },
        part_texts(parts).len() == parts.len(),
        forall|i: int| 0 <= i < parts.len() ==> #[trigger] part_texts(parts)[i] == opt_text(parts[i]),
        candidate_texts(candidates).len() == candidates.len(),
        forall|i: int|
            0 <= i < candidates.len() ==> #[trigger] candidate_texts(candidates)[i] == part_texts(
                candidates[i]@,
            ),
{
}

/// Each vendor of chats is asked at its own address, for the model that is set or
/// its usual one.
pub proof fn law_chat_addresses(
    segments: Seq<SegmentView>,
    key: Seq<char>,
    name: Option<Seq<char>>,
    setting: Option<Seq<char>>,
)
    ensures
        deepseek_view(segments, key, name, setting) == chat_request(
            "https://api.deepseek.com/chat/completions"@,
            key,
            named_model(name, setting, "deepseek-chat"@),
            segments,
        ),
        openai_view(segments, key, setting) == chat_request(
            "https://api.openai.com/v1/chat/completions"@,
            key,
            set_model(setting, "gpt-4o-mini"@),
            segments,
        ),
        groq_view(segments, key, setting) == chat_request(
            "https://api.groq.com/openai/v1/chat/completions"@,
            key,
            set_model(setting, "llama-3.3-70b-versatile"@),
            segments,
        ),
{
}

/// Gemini has the model and the key in its address, Anthropic the key in its
/// headers, and a local model no key at all.
pub proof fn law_other_addresses(
    segments: Seq<SegmentView>,
    key: Seq<char>,
    setting: Option<Seq<char>>,
    model: Seq<char>,
    usual: Seq<char>,
)
    ensures
        gemini_view(segments, key, setting).url
            == "https://generativelanguage.googleapis.com/v1beta/models/"@ + set_model(
            setting,
            "gemini-2.5-flash"@,
        ) + ":generateContent?key="@ + key,
        gemini_view(segments, key, setting).headers.len() == 0,
        gemini_view(segments, key, setting).body == gemini_body(strategist_prompt(segments)),
        anthropic_view(segments, key, setting, usual).url == "https://api.anthropic.com/v1/messages"@,
        anthropic_view(segments, key, setting, usual).headers == claude_headers(key),
        anthropic_view(segments, key, setting, usual).body == claude_body(
            set_model(setting, usual),
            strategist_prompt(segments),
        ),
        local_view(segments, model).url == "http://localhost:11434/api/chat"@,
        local_view(segments, model).headers.len() == 0,
        local_view(segments, model).body == local_body(model, segments),
{
}

/// The router is told who asks, and is asked in JSON mode or not, as decided.
pub proof fn law_router_view(
    segments: Seq<SegmentView>,
    key: Seq<char>,
    model: Seq<char>,
    json_mode: bool,
)
    ensures
        router_view(segments, key, model, json_mode).url
            == "https://openrouter.ai/api/v1/chat/completions"@,
        router_view(segments, key, model, json_mode).headers == seq![
            ("Authorization"@, "Bearer "@ + key),
            ("HTTP-Referer"@, "https://github.com/JayWebtech/autoshorts"@),
            ("X-Title"@, "AutoShorts"@),
        ],
        router_view(segments, key, model, json_mode).body == chat_body(
            model,
            strategist_prompt(segments),
            json_mode,
        ),
{
}

} // verus!
