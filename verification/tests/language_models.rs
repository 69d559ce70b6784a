use ordis::llm::discord::refusal_text;
use ordis::llm::discord::reply_handler::{ChainMessage, ReplyHandler, ReplyRoute};
use ordis::llm::discord::translator::{translation_text, translator_messages};
use ordis::llm::{
    agent_messages, filter_request, first_choice_text, first_result_hate, get_provider_by_model,
    get_provider_config, image_request, prepare_request, selector_choice, selector_messages,
    string_to_bool, Choice, FilterCategories, LLMError, Message, OpenAIResponse, Personality,
    Role,
};

#[test]
fn providers_by_name() {
    let openai = get_provider_config("openai").unwrap();
    assert_eq!(openai.endpoint, "https://api.openai.com/v1/chat/completions");
    assert_eq!(openai.access_token_env, "OPENAI_TOKEN");
    assert_eq!(openai.valid_models.len(), 4);
    let grok = get_provider_config("grok").unwrap();
    assert_eq!(grok.endpoint, "https://api.x.ai/v1/chat/completions");
    assert!(get_provider_config("anthropic").is_none());
}

#[test]
fn providers_by_model() {
    assert_eq!(get_provider_by_model("gpt-4").unwrap().access_token_env, "OPENAI_TOKEN");
    assert_eq!(get_provider_by_model("grok-beta").unwrap().access_token_env, "GROK_TOKEN");
    assert!(get_provider_by_model("gpt-5").is_none());
}

#[test]
fn requests_use_the_default_model() {
    let (config, request) = prepare_request(None, vec![]).unwrap();
    assert_eq!(request.model, "gpt-4o-mini");
    assert_eq!(config.access_token_env, "OPENAI_TOKEN");
    assert_eq!(
        prepare_request(Some("llama"), vec![]).err(),
        Some(LLMError::NoProviderConfigForModel)
    );
    assert_eq!(LLMError::NoGuildId.message(), "Unknown error");
}

#[test]
fn yes_no_answers() {
    assert_eq!(string_to_bool("Y"), Some(true));
    assert_eq!(string_to_bool("  n \n"), Some(false));
    assert_eq!(string_to_bool("y"), Some(true));
    assert_eq!(string_to_bool("yes"), None);
    assert!(selector_choice("Y"));
    assert!(!selector_choice("maybe"));
    let m = selector_messages("write me a parser");
    assert_eq!(m.len(), 2);
    assert!(m[0].content.starts_with("\nYou are a programming filter."));
    assert_eq!(m[1].content, "write me a parser");
}

#[test]
fn agent_conversation() {
    let m = agent_messages("2024-01-02 03:04:05", Personality::SentientBob.get(), "hi");
    assert_eq!(m.len(), 3);
    assert_eq!(m[0].role, Role::system);
    assert_eq!(
        m[0].content,
        "You know the following information: The current time in UTC is 2024-01-02 03:04:05. You are a discord bot. You have an ancestor called Johnny 5 who was the greatest discord bot of its time"
    );
    assert_eq!(m[1].content, "stick");
    assert_eq!(m[2].role, Role::user);
    assert_eq!(m[2].content, "hi");
    assert!(Personality::Ordis.get().contains("You are Ordis"));
}

#[test]
fn small_requests() {
    let f = filter_request("text");
    assert_eq!(f.model, "omni-moderation-latest");
    assert_eq!(f.input, "text");
    let i = image_request("a cat");
    assert_eq!((i.prompt.as_str(), i.n, i.size.as_str()), ("a cat", 1, "1024x1024"));
}

fn categories(hate: bool) -> FilterCategories {
    FilterCategories {
        sexual: false,
        sexual_minors: false,
        harassment: false,
        harassment_threatening: false,
        hate,
        hate_threatening: false,
        illicit: false,
        illicit_violent: false,
        self_harm: false,
        self_harm_intent: false,
        self_harm_instructions: false,
        violence: false,
        violence_graphic: false,
    }
}

#[test]
fn moderation_and_answers() {
    assert!(first_result_hate(&vec![categories(true), categories(false)]));
    assert!(!first_result_hate(&vec![categories(false)]));
    let response = OpenAIResponse {
        choices: vec![Choice {
            finish_reason: "stop".to_string(),
            index: 0,
            message: Message { role: Role::assistant, content: "Hello".to_string(), name: None },
        }],
    };
    assert_eq!(first_choice_text(&response), "Hello");
}

#[test]
fn refusals() {
    assert_eq!(refusal_text(false), "Sorry, I'm afraid I can't respond to that");
    assert_eq!(refusal_text(true), "Sorry, I'm afraid I can't respond to that.");
}

#[test]
fn translations() {
    let m = translator_messages("hola", "english", "spanish");
    assert_eq!(
        m[0].content,
        "Act as a english-spanish translator. Respond with only an accurate translation and nothing else. Please translate to natural speech in the given language"
    );
    assert_eq!(m[1].content, "hola");
    assert_eq!(translation_text("hola", "hello"), "translation of: ``hola``\n\nhello");
}

#[test]
fn reply_routes() {
    assert_eq!(ReplyHandler::route(true, Some(true), true), ReplyRoute::Ignore);
    assert_eq!(ReplyHandler::route(false, Some(true), false), ReplyRoute::Conversation);
    assert_eq!(ReplyHandler::route(false, Some(false), true), ReplyRoute::Ignore);
    assert_eq!(ReplyHandler::route(false, None, true), ReplyRoute::Mention);
    assert_eq!(ReplyHandler::route(false, None, false), ReplyRoute::Ignore);
}

#[test]
fn reply_conversations() {
    let chain = vec![
        ChainMessage {
            author_name: "ordis".to_string(),
            content: "newest".to_string(),
            from_bot: true,
            blocked: false,
        },
        ChainMessage {
            author_name: "tenno".to_string(),
            content: "oldest".to_string(),
            from_bot: false,
            blocked: true,
        },
    ];
    let m = ReplyHandler::conversation("persona", &chain, "original", "reply");
    assert_eq!(m.len(), 5);
    assert_eq!(m[0].content, "persona");
    assert_eq!(m[1].role, Role::user);
    assert_eq!(
        m[1].content,
        "tenno: BZZZZT (it seems static has prevented you from reading this message)"
    );
    assert_eq!(m[1].name.as_deref(), Some("tenno"));
    assert_eq!(m[2].role, Role::assistant);
    assert_eq!(
        m[2].content,
        "The following message was sent by the user ordis. Message: newest"
    );
    assert_eq!(m[3].content, "original");
    assert_eq!(m[4].content, "reply");
    assert_eq!(m[4].role, Role::assistant);
}

#[test]
fn refused_texts_get_the_refusal() {
    assert_eq!(ReplyHandler::refused_answer(false, true), None);
    assert_eq!(
        ReplyHandler::refused_answer(true, true),
        Some("Sorry, I'm afraid I can't respond to that.".to_string())
    );
    assert_eq!(
        ReplyHandler::refused_answer(true, false),
        Some("Sorry, I'm afraid I can't respond to that".to_string())
    );
}
