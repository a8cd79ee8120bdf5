use ragas::config::{
    redact, ProviderConfig, DEFAULT_BASE_URL, DEFAULT_EMBEDDING_MODEL, DEFAULT_MODEL, ENV_API_KEY,
    ENV_BASE_URL, ENV_EMBEDDING_API_KEY, ENV_EMBEDDING_BASE_URL, ENV_EMBEDDING_MODEL, ENV_MODEL,
};
use ragas::StringMap;

fn map(pairs: &[(&str, &str)]) -> StringMap<String> {
    let mut m = StringMap::new();
    for (k, v) in pairs {
        m.insert(k.to_string(), v.to_string());
    }
    m
}

#[test]
fn defaults_apply_when_nothing_is_configured() {
    let config = ProviderConfig::resolve(&StringMap::new(), &StringMap::new());
    assert_eq!(config.api_key, None);
    assert!(!config.has_api_key());
    assert_eq!(config.base_url, DEFAULT_BASE_URL);
    assert_eq!(config.model, DEFAULT_MODEL);
    assert_eq!(config.embedding_base_url, DEFAULT_BASE_URL);
    assert_eq!(config.embedding_model, DEFAULT_EMBEDDING_MODEL);
    assert!(config.chat_client().is_none());
    assert!(config.embedding_client().is_none());
}

#[test]
fn real_environment_wins_over_dotenv_which_wins_over_default() {
    let dotenv = map(&[
        (ENV_API_KEY, "from-dotenv"),
        (ENV_BASE_URL, "https://dotenv.example/v1"),
        (ENV_MODEL, "dotenv-model"),
    ]);
    let env = map(&[(ENV_BASE_URL, "https://real.example/v1")]);
    let config = ProviderConfig::resolve(&env, &dotenv);
    assert_eq!(config.base_url, "https://real.example/v1");
    assert_eq!(config.model, "dotenv-model");
    assert_eq!(config.api_key.as_deref(), Some("from-dotenv"));
}

#[test]
fn embeddings_fall_back_to_chat_provider_then_can_be_overridden() {
    let chat_only = map(&[
        (ENV_API_KEY, "chat-key"),
        (ENV_BASE_URL, "https://chat.example/v1"),
    ]);
    let config = ProviderConfig::resolve(&chat_only, &StringMap::new());
    assert_eq!(config.embedding_api_key.as_deref(), Some("chat-key"));
    assert_eq!(config.embedding_base_url, "https://chat.example/v1");
    assert_eq!(config.embedding_model, DEFAULT_EMBEDDING_MODEL);

    let split = map(&[
        (ENV_API_KEY, "chat-key"),
        (ENV_EMBEDDING_API_KEY, "embed-key"),
        (ENV_EMBEDDING_BASE_URL, "https://embed.example/v1"),
        (ENV_EMBEDDING_MODEL, "embed-model"),
    ]);
    let config = ProviderConfig::resolve(&split, &StringMap::new());
    assert_eq!(config.embedding_api_key.as_deref(), Some("embed-key"));
    assert_eq!(config.embedding_base_url, "https://embed.example/v1");
    assert_eq!(config.embedding_model, "embed-model");
    assert!(config.chat_client().is_some());
    assert!(config.embedding_client().is_some());
}

#[test]
fn blank_and_whitespace_values_are_treated_as_unset() {
    let env = map(&[(ENV_API_KEY, "   "), (ENV_MODEL, "")]);
    let config = ProviderConfig::resolve(&env, &StringMap::new());
    assert_eq!(config.api_key, None);
    assert_eq!(config.model, DEFAULT_MODEL);
}

#[test]
fn redacted_summary_masks_keys_and_never_leaks_the_secret() {
    let env = map(&[(ENV_API_KEY, "sk-abcdef0123456789")]);
    let config = ProviderConfig::resolve(&env, &StringMap::new());
    let summary = config.redacted_summary();
    assert!(!summary.contains("sk-abcdef0123456789"));
    assert!(summary.contains("sk-abc"));
    assert!(summary.contains("6789"));
    assert!(summary.contains(ENV_MODEL));
    assert_eq!(redact(None), "(not set)");
    assert_eq!(redact(Some("short")), "***");
}

#[test]
fn environment_value_wins_over_dotenv_for_the_same_key() {
    let env = map(&[(ENV_MODEL, "env-model")]);
    let dotenv = map(&[(ENV_MODEL, "dotenv-model")]);
    let config = ProviderConfig::resolve(&env, &dotenv);
    assert_eq!(config.model, "env-model");
    assert_eq!(redact(Some("abcdefghij")), "abcdef\u{2026}ghij");
    assert_eq!(redact(Some("12345678")), "***");
}

#[test]
fn chat_client_targets_configured_endpoint() {
    let env = map(&[(ENV_API_KEY, "key"), (ENV_MODEL, "m1"), (ENV_EMBEDDING_MODEL, "e1")]);
    let config = ProviderConfig::resolve(&env, &StringMap::new());
    let client = config.chat_client().expect("client");
    assert_eq!(client.chat_url(), format!("{}/chat/completions", DEFAULT_BASE_URL));
}

#[test]
fn dotenv_lines_are_parsed_like_a_shell_file() {
    let contents = "# comment\n\nexport OPENAI_API_KEY = \"sk-dotenv\"\r\nOPENAI_MODEL='m'\n=novalue\nBROKEN\nOPENAI_MODEL=\"later\"\n";
    let table = ragas::config::parse_dotenv(contents);
    assert_eq!(table.get("OPENAI_API_KEY").map(String::as_str), Some("sk-dotenv"));
    assert_eq!(table.get("OPENAI_MODEL").map(String::as_str), Some("later"));
    assert_eq!(table.len(), 2);
}
