//! Which provider transcribes a project and which one finds its moments, and
//! with which credential.

use vstd::prelude::*;
use vstd::string::StringExecFns;
use crate::models::{draft_views, CandidateDraft, DraftView};
use crate::paths::{set_value, setting_of};
use crate::text::{is_blank, lemma_trimmed, lower, lower_of, opt_str, opt_text, same, trim, trimmed};

verus! {

/// The Anthropic credential: the key, else the token, trimmed. A blank one is
/// none and hides no other.
pub open spec fn anthropic_key(api_key: Option<Seq<char>>, oauth_token: Option<Seq<char>>) -> Option<
    Seq<char>,
> {
    match set_value(api_key) {
        Some(k) => Some(trimmed(k)),
        None => match set_value(oauth_token) {
            Some(t) => Some(trimmed(t)),
            None => None,
        },
    }
}

/// The Anthropic credential, in either shape the API accepts: a console key and
/// a subscription token authenticate differently but are both credentials.
pub fn anthropic_credential(api_key: Option<&str>, oauth_token: Option<&str>) -> (res: Option<String>)
    ensures
        opt_text(res) == anthropic_key(opt_str(api_key), opt_str(oauth_token)),
{
    match setting_of(api_key) {
        Some(k) => Some(trim(k.as_str())),
        None => match setting_of(oauth_token) {
            Some(t) => Some(trim(t.as_str())),
            None => None,
        },
    }
}

/// Anthropic's model family: its name as a provider, in lower case, and its name
/// in messages.
#[derive(Clone, Copy)]
pub struct Family<'a> {
    pub id: &'a str,
    pub title: &'a str,
}

/// The settings that decide who finds the moments.
pub struct Settings<'a> {
    pub family: Family<'a>,
    pub llm_provider: Option<&'a str>,
    pub anthropic_api_key: Option<&'a str>,
    pub anthropic_oauth_token: Option<&'a str>,
    pub deepseek_api_key: Option<&'a str>,
    pub gemini_api_key: Option<&'a str>,
    pub openai_api_key: Option<&'a str>,
    pub openrouter_api_key: Option<&'a str>,
    pub groq_api_key: Option<&'a str>,
    pub ollama_model: Option<&'a str>,
}

/// Who is asked to find the moments, and with what.
#[derive(Debug)]
pub enum Detection {
    Claude { key: String },
    Local { model: String },
    Gemini { key: String },
    OpenAi { key: String },
    OpenRouter { key: String },
    Groq { key: String },
    DeepSeek { key: String },
}

/// What a [`Detection`] says.
pub enum DetectionView {
    Claude { key: Seq<char> },
    Local { model: Seq<char> },
    Gemini { key: Seq<char> },
    OpenAi { key: Seq<char> },
    OpenRouter { key: Seq<char> },
    Groq { key: Seq<char> },
    DeepSeek { key: Seq<char> },
}

impl View for Detection {
    type V = DetectionView;

    open spec fn view(&self) -> DetectionView {
        match self {
            Detection::Claude { key } => DetectionView::Claude { key: key@ },
            Detection::Local { model } => DetectionView::Local { model: model@ },
            Detection::Gemini { key } => DetectionView::Gemini { key: key@ },
            Detection::OpenAi { key } => DetectionView::OpenAi { key: key@ },
            Detection::OpenRouter { key } => DetectionView::OpenRouter { key: key@ },
            Detection::Groq { key } => DetectionView::Groq { key: key@ },
            Detection::DeepSeek { key } => DetectionView::DeepSeek { key: key@ },
        }
    }
}

/// The first of two texts that is there.
pub open spec fn either(first: Option<Seq<char>>, second: Option<Seq<char>>) -> Option<Seq<char>> {
    match first {
        Some(v) => Some(v),
        None => second,
    }
}

/// The provider that is asked: the caller's, else the one that is set, else
/// Anthropic's family, in lower case.
pub open spec fn active(
    provider: Option<Seq<char>>,
    setting: Option<Seq<char>>,
    family: Seq<char>,
) -> Seq<char> {
    lower(
        match either(provider, setting) {
            Some(p) => p,
            None => family,
        },
    )
}

/// The message for a missing Anthropic credential.
pub open spec fn no_anthropic_key(title: Seq<char>) -> Seq<char> {
    "Set ANTHROPIC_API_KEY or ANTHROPIC_OAUTH_TOKEN, or supply a "@ + title
        + " key, to generate candidates."@
}

/// The provider that is asked and its credential, or what is missing. A blank
/// key for Anthropic or OpenRouter is none. A provider that is not known is
/// DeepSeek.
pub open spec fn detection(
    provider: Option<Seq<char>>,
    api_key: Option<Seq<char>>,
    model_name: Option<Seq<char>>,
    s: Settings<'_>,
) -> Result<DetectionView, Seq<char>> {
    let name = active(provider, opt_str(s.llm_provider), s.family.id@);
    if name == s.family.id@ {
        match either(
            set_value(api_key),
            anthropic_key(opt_str(s.anthropic_api_key), opt_str(s.anthropic_oauth_token)),
        ) {
            Some(key) => Ok(DetectionView::Claude { key }),
            None => Err(no_anthropic_key(s.family.title@)),
        }
    } else if name == "local"@ || name == "ollama"@ {
        Ok(
            DetectionView::Local {
                model: match either(model_name, opt_str(s.ollama_model)) {
                    Some(m) => m,
                    None => "llama3.2"@,
                },
            },
        )
    } else if name == "gemini"@ {
        match either(api_key, opt_str(s.gemini_api_key)) {
            Some(key) => Ok(DetectionView::Gemini { key }),
            None => Err(
                "Set GEMINI_API_KEY or supply Gemini API Key to generate candidates."@,
            ),
        }
    } else if name == "openai"@ {
        match either(api_key, opt_str(s.openai_api_key)) {
            Some(key) => Ok(DetectionView::OpenAi { key }),
            None => Err(
                "Set OPENAI_API_KEY or supply OpenAI API Key to generate candidates."@,
            ),
        }
    } else if name == "openrouter"@ {
        match either(set_value(api_key), opt_str(s.openrouter_api_key)) {
            Some(key) => Ok(DetectionView::OpenRouter { key }),
            None => Err(
                "Set OPENROUTER_API_KEY or supply OpenRouter API Key to generate candidates."@,
            ),
        }
    } else if name == "groq"@ {
        match either(api_key, opt_str(s.groq_api_key)) {
            Some(key) => Ok(DetectionView::Groq { key }),
            None => Err("Set GROQ_API_KEY or supply Groq API Key to generate candidates."@),
        }
    } else {
        match either(api_key, opt_str(s.deepseek_api_key)) {
            Some(key) => Ok(DetectionView::DeepSeek { key }),
            None => Err(
                "Set DEEPSEEK_API_KEY or supply DeepSeek API Key to generate candidates."@,
            ),
        }
    }
}

/// Takes the first of two texts that is there, or fails with a message.
fn need(first: Option<&str>, second: Option<&str>, message: &str) -> (res: Result<String, String>)
    ensures
        match (res, either(opt_str(first), opt_str(second))) {
            (Ok(v), Some(x)) => v@ == x,
            (Err(e), None) => e@ == message@,
            _ => false,
        },
{
    match first {
        Some(v) => Ok(v.to_owned()),
        None => match second {
            Some(v) => Ok(v.to_owned()),
            None => Err(message.to_owned()),
        },
    }
}

/// Decides who is asked to find the moments, and with which credential.
pub fn plan_detection(
    provider: Option<&str>,
    api_key: Option<&str>,
    model_name: Option<&str>,
    settings: &Settings<'_>,
) -> (res: Result<Detection, String>)
    ensures
        match (
            res,
            detection(opt_str(provider), opt_str(api_key), opt_str(model_name), *settings),
        ) {
            (Ok(d), Ok(x)) => d@ == x,
            (Err(e), Err(x)) => e@ == x,
            _ => false,
        },
{
    let chosen: &str = match provider {
        Some(p) => p,
        None => match settings.llm_provider {
            Some(p) => p,
            None => settings.family.id,
        },
    };
    let name = lower_of(chosen);
    let name = name.as_str();
    if same(name, settings.family.id) {
        if let Some(key) = setting_of(api_key) {
            return Ok(Detection::Claude { key });
        }
        match anthropic_credential(settings.anthropic_api_key, settings.anthropic_oauth_token) {
            Some(key) => Ok(Detection::Claude { key }),
            None => {
                let mut message =
                    "Set ANTHROPIC_API_KEY or ANTHROPIC_OAUTH_TOKEN, or supply a ".to_owned();
                message.append(settings.family.title);
                message.append(" key, to generate candidates.");
                Err(message)
            },
        }
    } else if same(name, "local") || same(name, "ollama") {
        let model = match model_name {
            Some(m) => m.to_owned(),
            None => match settings.ollama_model {
                Some(m) => m.to_owned(),
                None => "llama3.2".to_owned(),
            },
        };
        Ok(Detection::Local { model })
    } else if same(name, "gemini") {
        match need(
            api_key,
            settings.gemini_api_key,
            "Set GEMINI_API_KEY or supply Gemini API Key to generate candidates.",
        ) {
            Ok(key) => Ok(Detection::Gemini { key }),
            Err(e) => Err(e),
        }
    } else if same(name, "openai") {
        match need(
            api_key,
            settings.openai_api_key,
            "Set OPENAI_API_KEY or supply OpenAI API Key to generate candidates.",
        ) {
            Ok(key) => Ok(Detection::OpenAi { key }),
            Err(e) => Err(e),
        }
    } else if same(name, "openrouter") {
        if let Some(key) = setting_of(api_key) {
            return Ok(Detection::OpenRouter { key });
        }
        match need(
            None,
            settings.openrouter_api_key,
            "Set OPENROUTER_API_KEY or supply OpenRouter API Key to generate candidates.",
        ) {
            Ok(key) => Ok(Detection::OpenRouter { key }),
            Err(e) => Err(e),
        }
    } else if same(name, "groq") {
        match need(
            api_key,
            settings.groq_api_key,
            "Set GROQ_API_KEY or supply Groq API Key to generate candidates.",
        ) {
            Ok(key) => Ok(Detection::Groq { key }),
            Err(e) => Err(e),
        }
    } else {
        match need(
            api_key,
            settings.deepseek_api_key,
            "Set DEEPSEEK_API_KEY or supply DeepSeek API Key to generate candidates.",
        ) {
            Ok(key) => Ok(Detection::DeepSeek { key }),
            Err(e) => Err(e),
        }
    }
}

/// Who transcribes a project.
#[derive(Debug)]
pub enum Transcription {
    Deepgram { key: String },
    Local,
}

/// What a [`Transcription`] says.
pub enum TranscriptionView {
    Deepgram { key: Seq<char> },
    Local,
}

impl View for Transcription {
    type V = TranscriptionView;

    open spec fn view(&self) -> TranscriptionView {
        match self {
            Transcription::Deepgram { key } => TranscriptionView::Deepgram { key: key@ },
            Transcription::Local => TranscriptionView::Local,
        }
    }
}

/// Who transcribes a project, or what is missing.
pub open spec fn transcription(
    provider: Seq<char>,
    api_key: Option<Seq<char>>,
    deepgram_key: Option<Seq<char>>,
    has_whisper: bool,
) -> Result<TranscriptionView, Seq<char>> {
    if provider == "deepgram"@ {
        match either(api_key, deepgram_key) {
            Some(key) => Ok(TranscriptionView::Deepgram { key }),
            None => Err(
                "Set DEEPGRAM_API_KEY or paste an API key to use cloud transcription."@,
            ),
        }
    } else if provider == "local"@ {
        if has_whisper {
            Ok(TranscriptionView::Local)
        } else {
            Err(
                "Whisper is not installed. Please install it (e.g., via Homebrew 'brew install whisper-cli' or via Python 'pip3 install openai-whisper')."@,
            )
        }
    } else {
        Err("Unsupported transcription provider: "@ + provider)
    }
}

/// Decides who transcribes a project.
pub fn plan_transcription(
    provider: &str,
    api_key: Option<&str>,
    deepgram_key: Option<&str>,
    has_whisper: bool,
) -> (res: Result<Transcription, String>)
    ensures
        match (
            res,
            transcription(provider@, opt_str(api_key), opt_str(deepgram_key), has_whisper),
        ) {
            (Ok(t), Ok(x)) => t@ == x,
            (Err(e), Err(x)) => e@ == x,
            _ => false,
        },
{
    if same(provider, "deepgram") {
        match need(
            api_key,
            deepgram_key,
            "Set DEEPGRAM_API_KEY or paste an API key to use cloud transcription.",
        ) {
            Ok(key) => Ok(Transcription::Deepgram { key }),
            Err(e) => Err(e),
        }
    } else if same(provider, "local") {
        if has_whisper {
            Ok(Transcription::Local)
        } else {
            Err(
                "Whisper is not installed. Please install it (e.g., via Homebrew 'brew install whisper-cli' or via Python 'pip3 install openai-whisper').".to_owned(),
            )
        }
    } else {
        let mut message = "Unsupported transcription provider: ".to_owned();
        message.append(provider);
        Err(message)
    }
}

/// The provider that the status bar shows: the one that is set, else DeepSeek.
pub open spec fn reported(setting: Option<Seq<char>>) -> Seq<char> {
    lower(
        match setting {
            Some(p) => p,
            None => "deepseek"@,
        },
    )
}

/// Writes the provider that the status bar shows.
pub fn reported_provider(setting: Option<&str>) -> (res: String)
    ensures
        res@ == reported(opt_str(setting)),
{
    match setting {
        Some(p) => lower_of(p),
        None => lower_of("deepseek"),
    }
}

/// The candidates to store, or the message where there are none.
pub open spec fn viable(found: Seq<DraftView>) -> Result<Seq<DraftView>, Seq<char>> {
    if found.len() == 0 {
        Err("No viable clip candidates were returned for this transcript."@)
    } else {
        Ok(found)
    }
}

/// Takes the candidates that were found, where there are any.
pub fn viable_candidates(found: Vec<CandidateDraft>) -> (res: Result<Vec<CandidateDraft>, String>)
    ensures
        match (res, viable(draft_views(found@))) {
            (Ok(v), Ok(x)) => draft_views(v@) == x,
            (Err(e), Err(x)) => e@ == x,
            _ => false,
        },
{
    assert(draft_views(found@).len() == found@.len());
    if found.len() == 0 {
        Err("No viable clip candidates were returned for this transcript.".to_owned())
    } else {
        Ok(found)
    }
}

/// How many clips can be selected at most.
pub const MOST_SELECTED: usize = 10;

/// How many of so many clips are selected.
pub open spec fn selected(count: int) -> int {
    if count > MOST_SELECTED {
        MOST_SELECTED as int
    } else {
        count
    }
}

/// Holds the number of selected clips to the most that can be.
pub fn selected_clip_count(count: usize) -> (res: usize)
    ensures
        res == selected(count as int),
        res == if count > MOST_SELECTED { MOST_SELECTED } else { count },
{
    if count > MOST_SELECTED {
        MOST_SELECTED
    } else {
        count
    }
}

/// Finding moments locally needs no credential.
pub proof fn law_local_needs_no_key(model_name: Option<Seq<char>>, s: Settings<'_>)
    requires
        s.family.id@ != "local"@,
        s.family.id@ != "ollama"@,
    ensures
        detection(Some("local"@), None, model_name, s) is Ok,
        detection(Some("Ollama"@), None, model_name, s) is Ok,
{
    reveal_strlit("local");
    reveal_strlit("Ollama");
    reveal_strlit("ollama");
    assert(lower("local"@) =~= "local"@);
    assert(lower("Ollama"@) =~= "ollama"@);
}

/// Where nothing names a provider, Anthropic is asked: with the caller's key, or
/// with the credential that is set.
pub proof fn law_anthropic_by_default(key: Seq<char>, model_name: Option<Seq<char>>, s: Settings<'_>)
    requires
        s.llm_provider is None,
        lower(s.family.id@) == s.family.id@,
        !is_blank(key),
    ensures
        detection(None, Some(key), model_name, s) == Ok::<DetectionView, Seq<char>>(
            DetectionView::Claude { key },
        ),
        match anthropic_key(opt_str(s.anthropic_api_key), opt_str(s.anthropic_oauth_token)) {
            Some(set) => detection(None, None, model_name, s) == Ok::<DetectionView, Seq<char>>(
                DetectionView::Claude { key: set },
            ),
            None => detection(None, None, model_name, s) == Err::<DetectionView, Seq<char>>(
                no_anthropic_key(s.family.title@),
            ),
        },
{
}

/// Either Anthropic credential counts: one that is not blank is never hidden by
/// the other, a key comes before a token, and what counts is trimmed and not
/// empty.
pub proof fn law_either_credential(api_key: Option<Seq<char>>, oauth_token: Option<Seq<char>>)
    ensures
        anthropic_key(api_key, oauth_token) is Some <==> (set_value(api_key) is Some || set_value(
            oauth_token,
        ) is Some),
        set_value(api_key) is Some ==> anthropic_key(api_key, oauth_token) == Some(
            trimmed(api_key->0),
        ),
        set_value(api_key) is None && set_value(oauth_token) is Some ==> anthropic_key(
            api_key,
            oauth_token,
        ) == Some(trimmed(oauth_token->0)),
        anthropic_key(api_key, oauth_token) matches Some(v) ==> v.len() > 0 && trimmed(v) == v,
{
    match set_value(api_key) {
        Some(k) => lemma_trimmed(k),
        None => match set_value(oauth_token) {
            Some(t) => lemma_trimmed(t),
            None => {},
        },
    }
}

/// How the name of a provider is written does not matter.
pub proof fn law_provider_case(
    a: Seq<char>,
    b: Seq<char>,
    api_key: Option<Seq<char>>,
    model_name: Option<Seq<char>>,
    s: Settings<'_>,
)
    requires
        lower(a) == lower(b),
    ensures
        detection(Some(a), api_key, model_name, s) == detection(Some(b), api_key, model_name, s),
{
}

/// The names of the providers differ from each other.
proof fn lemma_provider_names()
    ensures
        "gemini"@ != "local"@ && "gemini"@ != "ollama"@,
        "openai"@ != "local"@ && "openai"@ != "ollama"@ && "openai"@ != "gemini"@,
        "openrouter"@ != "local"@ && "openrouter"@ != "ollama"@ && "openrouter"@ != "gemini"@
            && "openrouter"@ != "openai"@,
        "groq"@ != "local"@ && "groq"@ != "ollama"@ && "groq"@ != "gemini"@ && "groq"@ != "openai"@
            && "groq"@ != "openrouter"@,
{
    reveal_strlit("local");
    reveal_strlit("ollama");
    reveal_strlit("gemini");
    reveal_strlit("openai");
    reveal_strlit("openrouter");
    reveal_strlit("groq");
    assert("local"@.len() == 5 && "openrouter"@.len() == 10 && "groq"@.len() == 4);
    assert("ollama"@[0] == 'o' && "ollama"@[1] == 'l');
    assert("gemini"@[0] == 'g');
    assert("openai"@[0] == 'o' && "openai"@[1] == 'p');
}

/// The first of two that there is.
pub proof fn law_either(a: Seq<char>, other: Option<Seq<char>>)
    ensures
        either(Some(a), other) == Some(a),
        either(None, other) == other,
{
}

/// A cloud provider is asked with the key that was supplied, else with the one
/// that is set; without either the user is told which to set.
pub proof fn law_cloud_providers(
    p: Seq<char>,
    api_key: Option<Seq<char>>,
    model: Option<Seq<char>>,
    s: Settings<'_>,
)
    requires
        lower(p) != s.family.id@,
    ensures
        lower(p) == "gemini"@ ==> detection(Some(p), api_key, model, s) == match (
            api_key,
            s.gemini_api_key,
        ) {
            (Some(k), _) => Ok::<DetectionView, Seq<char>>(DetectionView::Gemini { key: k }),
            (None, Some(k)) => Ok(DetectionView::Gemini { key: k@ }),
            (None, None) => Err(
                "Set GEMINI_API_KEY or supply Gemini API Key to generate candidates."@,
            ),
        },
        lower(p) == "openai"@ ==> detection(Some(p), api_key, model, s) == match (
            api_key,
            s.openai_api_key,
        ) {
            (Some(k), _) => Ok::<DetectionView, Seq<char>>(DetectionView::OpenAi { key: k }),
            (None, Some(k)) => Ok(DetectionView::OpenAi { key: k@ }),
            (None, None) => Err(
                "Set OPENAI_API_KEY or supply OpenAI API Key to generate candidates."@,
            ),
        },
        lower(p) == "groq"@ ==> detection(Some(p), api_key, model, s) == match (
            api_key,
            s.groq_api_key,
        ) {
            (Some(k), _) => Ok::<DetectionView, Seq<char>>(DetectionView::Groq { key: k }),
            (None, Some(k)) => Ok(DetectionView::Groq { key: k@ }),
            (None, None) => Err("Set GROQ_API_KEY or supply Groq API Key to generate candidates."@),
        },
        lower(p) != "local"@ && lower(p) != "ollama"@ && lower(p) != "gemini"@ && lower(p)
            != "openai"@ && lower(p) != "openrouter"@ && lower(p) != "groq"@ ==> detection(
            Some(p),
            api_key,
            model,
            s,
        ) == match (api_key, s.deepseek_api_key) {
            (Some(k), _) => Ok::<DetectionView, Seq<char>>(DetectionView::DeepSeek { key: k }),
            (None, Some(k)) => Ok(DetectionView::DeepSeek { key: k@ }),
            (None, None) => Err(
                "Set DEEPSEEK_API_KEY or supply DeepSeek API Key to generate candidates."@,
            ),
        },
{
    lemma_provider_names();
}

/// A blank key hides none that is set: the router falls back to its setting.
pub proof fn law_router(p: Seq<char>, key: Seq<char>, model: Option<Seq<char>>, s: Settings<'_>)
    requires
        lower(p) != s.family.id@,
        lower(p) == "openrouter"@,
    ensures
        !is_blank(key) ==> detection(Some(p), Some(key), model, s) == Ok::<DetectionView, Seq<char>>(
            DetectionView::OpenRouter { key },
        ),
        is_blank(key) ==> detection(Some(p), Some(key), model, s) == detection(Some(p), None, model, s),
        detection(Some(p), None, model, s) == match s.openrouter_api_key {
            Some(k) => Ok::<DetectionView, Seq<char>>(DetectionView::OpenRouter { key: k@ }),
            None => Err(
                "Set OPENROUTER_API_KEY or supply OpenRouter API Key to generate candidates."@,
            ),
        },
{
    lemma_provider_names();
}

/// A local model is the one that was asked for, else the one that is set, else a
/// small usual one; no key has a say.
pub proof fn law_local(p: Seq<char>, api_key: Option<Seq<char>>, m: Seq<char>, s: Settings<'_>)
    requires
        lower(p) != s.family.id@,
        lower(p) == "local"@ || lower(p) == "ollama"@,
    ensures
        detection(Some(p), api_key, Some(m), s) == Ok::<DetectionView, Seq<char>>(
            DetectionView::Local { model: m },
        ),
        detection(Some(p), api_key, None, s) == Ok::<DetectionView, Seq<char>>(
            DetectionView::Local {
                model: match s.ollama_model {
                    Some(set) => set@,
                    None => "llama3.2"@,
                },
            },
        ),
{
}

/// Without a provider in the request the setting decides, and without a setting
/// the family does; a provider in the request overrules both.
pub proof fn law_active(p: Seq<char>, setting: Option<Seq<char>>, set: Seq<char>, family: Seq<char>)
    ensures
        active(Some(p), setting, family) == lower(p),
        active(None, Some(set), family) == lower(set),
        active(None, None, family) == lower(family),
        no_anthropic_key(family) == "Set ANTHROPIC_API_KEY or ANTHROPIC_OAUTH_TOKEN, or supply a "@
            + family + " key, to generate candidates."@,
{
}

/// The decision hangs on the name of the provider alone, wherever it came from.
pub proof fn law_provider_sources(
    p: Seq<char>,
    api_key: Option<Seq<char>>,
    model: Option<Seq<char>>,
    s: Settings<'_>,
)
    requires
        opt_str(s.llm_provider) == Some(p),
    ensures
        detection(None, api_key, model, s) == detection(Some(p), api_key, model, s),
{
}

/// Cloud transcription needs a key, supplied or set; local transcription needs the
/// program; any other provider is refused by name.
pub proof fn law_transcription(
    provider: Seq<char>,
    key: Seq<char>,
    set: Option<Seq<char>>,
    api_key: Option<Seq<char>>,
    has_whisper: bool,
)
    ensures
        transcription("deepgram"@, Some(key), set, has_whisper) == Ok::<TranscriptionView, Seq<char>>(
            TranscriptionView::Deepgram { key },
        ),
        transcription("deepgram"@, None, Some(key), has_whisper) == Ok::<TranscriptionView, Seq<char>>(
            TranscriptionView::Deepgram { key },
        ),
        transcription("deepgram"@, None, None, has_whisper) == Err::<TranscriptionView, Seq<char>>(
            "Set DEEPGRAM_API_KEY or paste an API key to use cloud transcription."@,
        ),
        transcription("local"@, api_key, set, true) == Ok::<TranscriptionView, Seq<char>>(
            TranscriptionView::Local,
        ),
        transcription("local"@, api_key, set, false) == Err::<TranscriptionView, Seq<char>>(
            "Whisper is not installed. Please install it (e.g., via Homebrew 'brew install whisper-cli' or via Python 'pip3 install openai-whisper')."@,
        ),
        provider != "deepgram"@ && provider != "local"@ ==> transcription(
            provider,
            api_key,
            set,
            has_whisper,
        ) == Err::<TranscriptionView, Seq<char>>("Unsupported transcription provider: "@ + provider),
{
    reveal_strlit("deepgram");
    reveal_strlit("local");
    assert("deepgram"@.len() == 8 && "local"@.len() == 5);
}

/// The provider is reported in small letters; without one it is the usual one.
/// Candidates are viable exactly where there are some, and then unchanged. Ten
/// are selected at most.
pub proof fn law_reported(p: Seq<char>, found: Seq<DraftView>)
    ensures
        reported(Some(p)) == lower(p),
        reported(None) == lower("deepseek"@),
        found.len() > 0 ==> viable(found) == Ok::<Seq<DraftView>, Seq<char>>(found),
        found.len() == 0 ==> viable(found) == Err::<Seq<DraftView>, Seq<char>>(
            "No viable clip candidates were returned for this transcript."@,
        ),
        MOST_SELECTED == 10,
{
}

/// A choice stands for what it holds.
pub proof fn law_detection_views(d: Detection, t: Transcription)
    ensures
        match (d, d@) {
            (Detection::Claude { key: k }, DetectionView::Claude { key: v }) => k@ == v,
            (Detection::Local { model: m }, DetectionView::Local { model: v }) => m@ == v,
            (Detection::Gemini { key: k }, DetectionView::Gemini { key: v }) => k@ == v,
            (Detection::OpenAi { key: k }, DetectionView::OpenAi { key: v }) => k@ == v,
            (Detection::OpenRouter { key: k }, DetectionView::OpenRouter { key: v }) => k@ == v,
            (Detection::Groq { key: k }, DetectionView::Groq { key: v }) => k@ == v,
            (Detection::DeepSeek { key: k }, DetectionView::DeepSeek { key: v }) => k@ == v,
            _ => false,
        },
        match (t, t@) {
            (Transcription::Deepgram { key: k }, TranscriptionView::Deepgram { key: v }) => k@ == v,
            (Transcription::Local, TranscriptionView::Local) => true,
            _ => false,
        },
{
}

/// All clips are selected up to ten, and ten of more.
pub proof fn law_selected(count: int)
    ensures
        count <= 10 ==> selected(count) == count,
        count >= 10 ==> selected(count) == 10,
{
}

} // verus!
