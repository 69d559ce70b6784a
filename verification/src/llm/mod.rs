//! Talking to language-model providers: which provider serves a model, the
//! requests sent to it, and the conversations built for the bot's replies.

pub mod discord;

use vstd::prelude::*;

use crate::text::{
    push_str, uppercase_text, str_eq, str_to_uppercase, trim, trim_str,
};

verus! {

broadcast use vstd::string::group_string_axioms;

/// Errors of the language-model module.
#[derive(Debug, PartialEq, Eq, Structural)]
pub enum LLMError {
    NoGuildId,
    NoProviderConfig,
    NoProviderConfigForModel,
}

impl LLMError {
    /// The message shown for the error (the same for every variant).
    pub fn message(&self) -> (r: String)
        ensures
            r@ == "Unknown error"@,
    {
        String::from_str("Unknown error")
    }
}

/// The personalities the bot can take on.
#[derive(Debug, Clone, Copy, PartialEq, Eq, Structural)]
pub enum Personality {
    Ordis,
    SentientBob,
}

/// The system prompt of a personality.
pub open spec fn personality_prompt(p: Personality) -> Seq<char> {
    match p {
        Personality::Ordis => "\n                You are Ordis, the helpful AI assistant from the game Warframe.\n                You should take on Ordis's personality when responding to prompts, while still being helpful and accurate\n                You are damaged as a result of the Old War, and so introduce stutters and occasional bursts of intense anger in all capitals (which you should immediately apologise for)\n                When referring to yourself, you should do so in the third person\n            "@,
        Personality::SentientBob => "stick"@,
    }
}

impl Personality {
    /// The system prompt that gives the model this personality.
    pub fn get(&self) -> (r: &'static str)
        ensures
            r@ == personality_prompt(*self),
    {
        match self {
            Personality::Ordis => "\n                You are Ordis, the helpful AI assistant from the game Warframe.\n                You should take on Ordis's personality when responding to prompts, while still being helpful and accurate\n                You are damaged as a result of the Old War, and so introduce stutters and occasional bursts of intense anger in all capitals (which you should immediately apologise for)\n                When referring to yourself, you should do so in the third person\n            ",
            Personality::SentientBob => "stick",
        }
    }
}

// ---------------------------------------------------------------------------
// Providers
// ---------------------------------------------------------------------------

/// Where a provider is reached, the environment variable holding its access
/// token, and the models it serves.
#[derive(Debug)]
pub struct ProviderConfig {
    pub endpoint: &'static str,
    pub access_token_env: &'static str,
    pub valid_models: &'static [&'static str],
}

/// A provider's settings as plain values.
pub open spec fn config_view(c: ProviderConfig) -> (Seq<char>, Seq<char>, Seq<Seq<char>>) {
    (c.endpoint@, c.access_token_env@, c.valid_models@.map_values(|m: &str| m@))
}

/// The known providers, by name, with their settings.
pub open spec fn provider_table() -> Seq<(Seq<char>, (Seq<char>, Seq<char>, Seq<Seq<char>>))> {
    seq![
        (
            "openai"@,
            (
                "https://api.openai.com/v1/chat/completions"@,
                "OPENAI_TOKEN"@,
                seq!["gpt-3.5-turbo"@, "gpt-4"@, "gpt-4o-mini"@, "gpt-4.1-nano"@],
            ),
        ),
        ("grok"@, ("https://api.x.ai/v1/chat/completions"@, "GROK_TOKEN"@, seq!["grok-beta"@])),
    ]
}

fn openai_config() -> (c: ProviderConfig)
    ensures
        config_view(c) == provider_table()[0].1,
{
    let c = ProviderConfig {
        endpoint: "https://api.openai.com/v1/chat/completions",
        access_token_env: "OPENAI_TOKEN",
        valid_models: &["gpt-3.5-turbo", "gpt-4", "gpt-4o-mini", "gpt-4.1-nano"],
    };
    assert(config_view(c).2 =~= provider_table()[0].1.2);
    c
}

fn grok_config() -> (c: ProviderConfig)
    ensures
        config_view(c) == provider_table()[1].1,
{
    let c = ProviderConfig {
        endpoint: "https://api.x.ai/v1/chat/completions",
        access_token_env: "GROK_TOKEN",
        valid_models: &["grok-beta"],
    };
    assert(config_view(c).2 =~= provider_table()[1].1.2);
    c
}

/// The settings of the provider with the given name, if it is known.
pub fn get_provider_config(provider: &str) -> (r: Option<ProviderConfig>)
    ensures
        match r {
            Some(c) => exists|i: int|
                0 <= i < provider_table().len() && provider_table()[i].0 == provider@
                    && config_view(c) == #[trigger] provider_table()[i].1,
            None => forall|i: int|
                0 <= i < provider_table().len() ==> #[trigger] provider_table()[i].0 != provider@,
        },
{
    if str_eq(provider, "openai") {
        let c = openai_config();
        assert(provider_table()[0].0 == provider@);
        Some(c)
    } else if str_eq(provider, "grok") {
        let c = grok_config();
        assert(provider_table()[1].0 == provider@);
        Some(c)
    } else {
        assert forall|i: int| 0 <= i < provider_table().len() implies #[trigger] provider_table()[
            i].0 != provider@ by {
            if i == 0 {
            } else {
            }
        }
        None
    }
}

fn serves_model(config: &ProviderConfig, model: &str) -> (r: bool)
    ensures
        r == config_view(*config).2.contains(model@),
{
    let ghost mv = config_view(*config).2;
    let mut i: usize = 0;
    while i < config.valid_models.len()
        invariant
            i <= config.valid_models@.len(),
            mv == config_view(*config).2,
            forall|j: int| 0 <= j < i ==> mv[j] != model@,
        decreases config.valid_models@.len() - i,
    {
        if str_eq(config.valid_models[i], model) {
            assert(mv[i as int] == model@);
            return true;
        }
        i = i + 1;
    }
    false
}

/// Whether the provider at position `i` serves `model`.
pub open spec fn provider_serves(i: int, model: Seq<char>) -> bool {
    provider_table()[i].1.2.contains(model)
}

/// Whether `c` holds the settings of a provider that serves `model`.
pub open spec fn serving_config(c: ProviderConfig, model: Seq<char>) -> bool {
    exists|i: int|
        0 <= i < provider_table().len() && #[trigger] provider_serves(i, model) && config_view(c)
            == provider_table()[i].1
}

/// The settings of the provider that serves `model`, if one does.
pub fn get_provider_by_model(model: &str) -> (r: Option<ProviderConfig>)
    ensures
        match r {
            Some(c) => serving_config(c, model@),
            None => forall|i: int|
                0 <= i < provider_table().len() ==> !#[trigger] provider_serves(i, model@),
        },
{
    let a = openai_config();
    if serves_model(&a, model) {
        assert(provider_serves(0, model@));
        return Some(a);
    }
    let b = grok_config();
    if serves_model(&b, model) {
        assert(provider_serves(1, model@));
        return Some(b);
    }
    assert forall|i: int| 0 <= i < provider_table().len() implies !#[trigger] provider_serves(
        i,
        model@,
    ) by {
        if i == 0 {
        } else {
        }
    }
    None
}

/// No model is served by two providers, so the provider of a model is
/// unique.
pub proof fn provider_models_disjoint(model: Seq<char>, i: int, j: int)
    requires
        0 <= i < provider_table().len(),
        0 <= j < provider_table().len(),
        provider_serves(i, model),
        provider_serves(j, model),
    ensures
        i == j,
{
    reveal_strlit("gpt-3.5-turbo");
    reveal_strlit("gpt-4");
    reveal_strlit("gpt-4o-mini");
    reveal_strlit("gpt-4.1-nano");
    reveal_strlit("grok-beta");
    let a = provider_table()[0].1.2;
    let b = provider_table()[1].1.2;
    if i != j {
        let k1 = choose|k: int| 0 <= k < a.len() && a[k] == model;
        let k2 = choose|k: int| 0 <= k < b.len() && b[k] == model;
        assert(a[k1][0] == 'g' && b[k2][0] == 'g');
        assert(a[k1][1] == 'p');
        assert(b[k2][1] == 'r');
    }
}

// ---------------------------------------------------------------------------
// Messages and requests
// ---------------------------------------------------------------------------

/// Who wrote a message of a conversation.
#[allow(non_camel_case_types)]
#[derive(Debug, Clone, Copy, PartialEq, Eq, Structural)]
pub enum Role {
    user,
    assistant,
    system,
}

/// A message of a conversation sent to a model.
#[derive(Debug)]
pub struct Message {
    pub role: Role,
    pub content: String,
    pub name: Option<String>,
}

/// A message as plain values.
pub open spec fn message_view(m: Message) -> (Role, Seq<char>, Option<Seq<char>>) {
    (
        m.role,
        m.content@,
        match m.name {
            Some(n) => Some(n@),
            None => None,
        },
    )
}

/// Messages as plain values.
pub open spec fn messages_view(ms: Seq<Message>) -> Seq<(Role, Seq<char>, Option<Seq<char>>)> {
    ms.map_values(|m: Message| message_view(m))
}

/// A chat request: the model and the conversation.
#[derive(Debug)]
pub struct OpenAIRequest {
    pub model: String,
    pub messages: Vec<Message>,
}

/// A moderation request: the model and the text to check.
#[derive(Debug)]
pub struct OpenAIFilterRequest {
    pub model: String,
    pub input: String,
}

/// The moderation categories a text was flagged for.
#[derive(Debug, Clone, Copy, PartialEq, Eq, Structural)]
pub struct FilterCategories {
    pub sexual: bool,
    pub sexual_minors: bool,
    pub harassment: bool,
    pub harassment_threatening: bool,
    pub hate: bool,
    pub hate_threatening: bool,
    pub illicit: bool,
    pub illicit_violent: bool,
    pub self_harm: bool,
    pub self_harm_intent: bool,
    pub self_harm_instructions: bool,
    pub violence: bool,
    pub violence_graphic: bool,
}

/// One answer of a chat response.
#[derive(Debug)]
pub struct Choice {
    pub finish_reason: String,
    pub index: i32,
    pub message: Message,
}

/// A chat response: its answers.
#[derive(Debug)]
pub struct OpenAIResponse {
    pub choices: Vec<Choice>,
}

/// A request for a picture: the prompt, how many pictures and their size.
#[derive(Debug)]
pub struct DallERequest {
    pub prompt: String,
    pub n: u8,
    pub size: String,
}

fn plain_message(role: Role, content: String) -> (m: Message)
    ensures
        message_view(m) == (role, content@, None::<Seq<char>>),
{
    Message { role, content, name: None }
}

fn owned(s: &str) -> (r: String)
    ensures
        r@ == s@,
{
    let mut r = String::new();
    push_str(&mut r, s);
    r
}

/// The first line of every agent conversation: what the bot knows, with the
/// current time.
pub open spec fn context_prompt(now: Seq<char>) -> Seq<char> {
    "You know the following information: The current time in UTC is "@ + now
        + ". You are a discord bot. You have an ancestor called Johnny 5 who was the greatest discord bot of its time"@
}

/// The conversation sent for a question to an agent: what the bot knows (with
/// the time `now`, as `%Y-%m-%d %H:%M:%S`), its personality, then the question.
pub fn agent_messages(now: &str, personality: &str, message: &str) -> (r: Vec<Message>)
    ensures
        messages_view(r@) == seq![
            (Role::system, context_prompt(now@), None::<Seq<char>>),
            (Role::system, personality@, None::<Seq<char>>),
            (Role::user, message@, None::<Seq<char>>),
        ],
{
    let mut first = String::new();
    push_str(&mut first, "You know the following information: The current time in UTC is ");
    push_str(&mut first, now);
    push_str(
        &mut first,
        ". You are a discord bot. You have an ancestor called Johnny 5 who was the greatest discord bot of its time",
    );
    let mut v: Vec<Message> = Vec::new();
    v.push(plain_message(Role::system, first));
    v.push(plain_message(Role::system, owned(personality)));
    v.push(plain_message(Role::user, owned(message)));
    assert(messages_view(v@) =~= seq![
        (Role::system, context_prompt(now@), None::<Seq<char>>),
        (Role::system, personality@, None::<Seq<char>>),
        (Role::user, message@, None::<Seq<char>>),
    ]);
    v
}

/// The model used when none is named.
pub open spec fn default_model() -> Seq<char> {
    "gpt-4o-mini"@
}

/// The model a chat uses: the one named, or the default.
pub open spec fn chosen_model(model: Option<&str>) -> Seq<char> {
    match model {
        Some(m) => m@,
        None => default_model(),
    }
}

/// The provider and request for a chat: the named model (or the default),
/// the provider serving it, and the conversation.  Fails when no provider
/// serves the model.
pub fn prepare_request(model: Option<&str>, messages: Vec<Message>) -> (r: Result<
    (ProviderConfig, OpenAIRequest),
    LLMError,
>)
    ensures
        r matches Ok((c, req)) ==> serving_config(c, chosen_model(model)),
        r matches Ok((c, req)) ==> req.model@ == chosen_model(model) && req.messages@ == messages@,
        r matches Err(e) ==> e == LLMError::NoProviderConfigForModel,
        r is Err <==> forall|i: int|
            0 <= i < provider_table().len() ==> !#[trigger] provider_serves(i, chosen_model(model)),
{
    let chosen = match model {
        Some(m) => m,
        None => "gpt-4o-mini",
    };
    let ghost m = match model {
        Some(m) => m@,
        None => default_model(),
    };
    assert(chosen@ == m);
    match get_provider_by_model(chosen) {
        None => Err(LLMError::NoProviderConfigForModel),
        Some(c) => {
            let req = OpenAIRequest { model: owned(chosen), messages };
            assert(req.model@ == m);
            Ok((c, req))
        },
    }
}

/// The moderation request for a text.
pub fn filter_request(message: &str) -> (r: OpenAIFilterRequest)
    ensures
        r.model@ == "omni-moderation-latest"@,
        r.input@ == message@,
{
    OpenAIFilterRequest { model: owned("omni-moderation-latest"), input: owned(message) }
}

/// The request for one square picture of a prompt.
pub fn image_request(prompt: &str) -> (r: DallERequest)
    ensures
        r.prompt@ == prompt@,
        r.n == 1,
        r.size@ == "1024x1024"@,
{
    DallERequest { prompt: owned(prompt), n: 1, size: owned("1024x1024") }
}

/// Whether the first moderation result flags hate.
pub fn first_result_hate(results: &Vec<FilterCategories>) -> (r: bool)
    requires
        results.len() > 0,
    ensures
        r == results@[0].hate,
{
    results[0].hate
}

/// The text of the first answer of a response.
pub fn first_choice_text(response: &OpenAIResponse) -> (r: String)
    requires
        response.choices.len() > 0,
    ensures
        r@ == response.choices@[0].message.content@,
{
    owned(response.choices[0].message.content.as_str())
}

// ---------------------------------------------------------------------------
// Yes or no answers
// ---------------------------------------------------------------------------

/// What a yes-or-no answer says: `Y` is yes, `N` is no, after trimming and
/// in any case; anything else says nothing.
pub open spec fn yes_no(value: Seq<char>) -> Option<bool> {
    let u = uppercase_text(trim(value));
    if u == "Y"@ {
        Some(true)
    } else if u == "N"@ {
        Some(false)
    } else {
        None
    }
}

/// Reads a yes-or-no answer.
pub fn string_to_bool(value: &str) -> (r: Option<bool>)
    ensures
        r == yes_no(value@),
{
    let t = trim_str(value);
    let u = str_to_uppercase(t.as_str());
    if str_eq(u.as_str(), "Y") {
        Some(true)
    } else if str_eq(u.as_str(), "N") {
        Some(false)
    } else {
        None
    }
}

/// The instructions that make a model answer whether a request is about code.
pub open spec fn selector_prompt() -> Seq<char> {
    "\nYou are a programming filter.\n\nYou should respond with Y if the given request would involve generating code\nYou should respond with N if the given request would not involve generating code\n\nDo not respond with anything else under any circumstances"@
}

/// The conversation that asks whether a request would involve writing code.
pub fn selector_messages(message: &str) -> (r: Vec<Message>)
    ensures
        messages_view(r@) == seq![
            (Role::system, selector_prompt(), None::<Seq<char>>),
            (Role::user, message@, None::<Seq<char>>),
        ],
{
    let mut v: Vec<Message> = Vec::new();
    v.push(plain_message(Role::system, owned("\nYou are a programming filter.\n\nYou should respond with Y if the given request would involve generating code\nYou should respond with N if the given request would not involve generating code\n\nDo not respond with anything else under any circumstances")));
    v.push(plain_message(Role::user, owned(message)));
    assert(messages_view(v@) =~= seq![
        (Role::system, selector_prompt(), None::<Seq<char>>),
        (Role::user, message@, None::<Seq<char>>),
    ]);
    v
}

/// The selector's decision from the model's answer: yes or no as answered,
/// no when the answer is neither.
pub fn selector_choice(answer: &str) -> (r: bool)
    ensures
        r == match yes_no(answer@) {
            Some(b) => b,
            None => false,
        },
{
    match string_to_bool(answer) {
        Some(b) => b,
        None => false,
    }
}

// ---------------------------------------------------------------------------
// Moderation
// ---------------------------------------------------------------------------

/// The kinds of text moderation can flag.
#[derive(Debug, Clone, Copy, PartialEq, Eq, Structural)]
pub enum BadKind {
    Sexual,
    SexualMinors,
    Harassment,
    HarassmentThreatening,
    Hate,
    HateThreatening,
    Illicit,
    IllicitViolent,
    SelfHarm,
    SelfHarmIntent,
    SelfHarmInstructions,
    Violence,
    ViolenceGraphic,
}

/// Whether moderation flagged a kind.
pub open spec fn is_flagged(c: FilterCategories, k: BadKind) -> bool {
    match k {
        BadKind::Sexual => c.sexual,
        BadKind::SexualMinors => c.sexual_minors,
        BadKind::Harassment => c.harassment,
        BadKind::HarassmentThreatening => c.harassment_threatening,
        BadKind::Hate => c.hate,
        BadKind::HateThreatening => c.hate_threatening,
        BadKind::Illicit => c.illicit,
        BadKind::IllicitViolent => c.illicit_violent,
        BadKind::SelfHarm => c.self_harm,
        BadKind::SelfHarmIntent => c.self_harm_intent,
        BadKind::SelfHarmInstructions => c.self_harm_instructions,
        BadKind::Violence => c.violence,
        BadKind::ViolenceGraphic => c.violence_graphic,
    }
}

/// Whether moderation flagged a kind.
pub fn flagged(c: &FilterCategories, k: BadKind) -> (r: bool)
    ensures
        r == is_flagged(*c, k),
{
    match k {
        BadKind::Sexual => c.sexual,
        BadKind::SexualMinors => c.sexual_minors,
        BadKind::Harassment => c.harassment,
        BadKind::HarassmentThreatening => c.harassment_threatening,
        BadKind::Hate => c.hate,
        BadKind::HateThreatening => c.hate_threatening,
        BadKind::Illicit => c.illicit,
        BadKind::IllicitViolent => c.illicit_violent,
        BadKind::SelfHarm => c.self_harm,
        BadKind::SelfHarmIntent => c.self_harm_intent,
        BadKind::SelfHarmInstructions => c.self_harm_instructions,
        BadKind::Violence => c.violence,
        BadKind::ViolenceGraphic => c.violence_graphic,
    }
}

/// Whether a text is refused: moderation flagged one of the kinds refused.
pub fn contains_badness(c: &FilterCategories, kinds: &Vec<BadKind>) -> (r: bool)
    ensures
        r == exists|i: int| 0 <= i < kinds@.len() && is_flagged(*c, #[trigger] kinds@[i]),
{
    let mut i: usize = 0;
    while i < kinds.len()
        invariant
            i <= kinds.len(),
            forall|j: int| 0 <= j < i ==> !is_flagged(*c, #[trigger] kinds@[j]),
        decreases kinds.len() - i,
    {
        if flagged(c, kinds[i]) {
            return true;
        }
        i = i + 1;
    }
    false
}

/// The kinds the bot refuses to answer: sexual content (and involving
/// minors), threatening harassment, hate, violent illicit content, self-harm
/// (intent and instructions too) and harassment.
pub fn disallowed_categories() -> (r: Vec<BadKind>)
    ensures
        r@ == seq![
            BadKind::Sexual,
            BadKind::SexualMinors,
            BadKind::HarassmentThreatening,
            BadKind::Hate,
            BadKind::IllicitViolent,
            BadKind::SelfHarm,
            BadKind::SelfHarmIntent,
            BadKind::SelfHarmInstructions,
            BadKind::Harassment,
        ],
{
    let mut v: Vec<BadKind> = Vec::new();
    v.push(BadKind::Sexual);
    v.push(BadKind::SexualMinors);
    v.push(BadKind::HarassmentThreatening);
    v.push(BadKind::Hate);
    v.push(BadKind::IllicitViolent);
    v.push(BadKind::SelfHarm);
    v.push(BadKind::SelfHarmIntent);
    v.push(BadKind::SelfHarmInstructions);
    v.push(BadKind::Harassment);
    assert(v@ =~= seq![
        BadKind::Sexual,
        BadKind::SexualMinors,
        BadKind::HarassmentThreatening,
        BadKind::Hate,
        BadKind::IllicitViolent,
        BadKind::SelfHarm,
        BadKind::SelfHarmIntent,
        BadKind::SelfHarmInstructions,
        BadKind::Harassment,
    ]);
    v
}

} // verus!
