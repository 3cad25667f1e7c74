use duga::runtime::providers::{
    choose_llm, resolve_api_key, resolve_base_url, resolve_provider, LlmChoice, ProviderConfig,
    ProviderSelection,
};
use duga::strmap::StrMap;

fn test_config(model: &str) -> ProviderConfig {
    ProviderConfig { model: model.into(), ..Default::default() }
}

fn env(pairs: &[(&str, &str)]) -> StrMap {
    let mut m = StrMap::new();
    for (k, v) in pairs {
        m.insert(k.to_string(), v.to_string());
    }
    m
}

#[test]
fn resolve_provider_supports_legacy_provider_model() {
    let mut config = test_config("dummy/test");
    config.provider = None;
    assert_eq!(
        resolve_provider(&config).unwrap(),
        ProviderSelection { provider: "dummy".into(), model: "test".into() }
    );
}

#[test]
fn resolve_provider_supports_separate_provider_field() {
    let mut config = test_config("test");
    config.provider = Some("dummy".into());
    assert_eq!(
        resolve_provider(&config).unwrap(),
        ProviderSelection { provider: "dummy".into(), model: "test".into() }
    );
}

#[test]
fn resolve_provider_rejects_conflicting_provider_sources() {
    let mut config = test_config("openai/gpt");
    config.provider = Some("anthropic".into());
    let err = resolve_provider(&config).unwrap_err();
    assert!(err.contains("conflicts"));
}

#[test]
fn resolve_provider_edge_cases() {
    let mut config = test_config(" openai/gpt-4o ");
    assert_eq!(
        resolve_provider(&config).unwrap(),
        ProviderSelection { provider: "openai".into(), model: "gpt-4o".into() }
    );
    config.provider = Some(" openai ".into());
    assert_eq!(resolve_provider(&config).unwrap().model, "gpt-4o");
    config.provider = Some("  ".into());
    assert_eq!(resolve_provider(&config).unwrap_err(), "provider must not be empty");
    assert_eq!(
        resolve_provider(&test_config("gpt")).unwrap_err(),
        "model must use provider/model format or config must set provider"
    );
    assert_eq!(
        resolve_provider(&test_config("a/b/c")).unwrap(),
        ProviderSelection { provider: "a".into(), model: "b/c".into() }
    );
}

#[test]
fn build_provider_rejects_unknown_provider() {
    let config = test_config("unknown/qwen");
    let err = match choose_llm("unknown", "qwen", &config, &env(&[])) {
        Ok(_) => panic!("unknown provider should fail"),
        Err(error) => error,
    };
    assert!(err.contains("unsupported LLM provider"));
}

#[test]
fn build_provider_keeps_dummy_for_offline_smoke_tests() {
    let config = test_config("dummy/test");
    match choose_llm("dummy", "test", &config, &env(&[])).unwrap() {
        LlmChoice::Dummy { model_id, response } => {
            assert_eq!(model_id, "dummy/test");
            assert_eq!(response, "Dummy provider for model 'test' is wired correctly.");
        }
        other => panic!("unexpected {other:?}"),
    }
}

#[test]
fn resolve_api_key_uses_literal_first() {
    let mut config = test_config("test");
    config.provider_api_key = Some("sk-literal".into());
    config.provider_api_key_env = Some("CUSTOM_KEY".into());
    let e = env(&[("CUSTOM_KEY", "sk-from-env")]);
    assert_eq!(resolve_api_key(&config, "OPENAI_API_KEY", &e), Some("sk-literal".into()));
}

#[test]
fn resolve_api_key_falls_back_to_env_var_name() {
    let mut config = test_config("test");
    config.provider_api_key_env = Some("CUSTOM_KEY".into());
    let e = env(&[("CUSTOM_KEY", "sk-from-env")]);
    assert_eq!(resolve_api_key(&config, "OPENAI_API_KEY", &e), Some("sk-from-env".into()));
}

#[test]
fn resolve_api_key_falls_back_to_default_env() {
    let config = test_config("test");
    let e = env(&[("OPENAI_API_KEY", "sk-default")]);
    assert_eq!(resolve_api_key(&config, "OPENAI_API_KEY", &e), Some("sk-default".into()));
}

#[test]
fn resolve_base_url_uses_literal_first() {
    let mut config = test_config("test");
    config.provider_base_url = Some("http://literal:8080/v1".into());
    config.provider_base_url_env = Some("CUSTOM_URL".into());
    let e = env(&[("CUSTOM_URL", "http://from-env:8080/v1")]);
    assert_eq!(resolve_base_url(&config, &e), Some("http://literal:8080/v1".into()));
}

#[test]
fn resolve_base_url_falls_back_to_env_var_name() {
    let mut config = test_config("test");
    config.provider_base_url_env = Some("CUSTOM_URL".into());
    let e = env(&[("CUSTOM_URL", "http://from-env:8080/v1")]);
    assert_eq!(resolve_base_url(&config, &e), Some("http://from-env:8080/v1".into()));
}

#[test]
fn resolve_base_url_falls_back_to_default_env() {
    let config = test_config("test");
    let e = env(&[("BASE_URL", "http://default:8080/v1")]);
    assert_eq!(resolve_base_url(&config, &e), Some("http://default:8080/v1".into()));
}

#[test]
fn resolve_base_url_none_when_nothing_set() {
    assert_eq!(resolve_base_url(&test_config("test"), &env(&[])), None);
}

#[test]
fn openai_and_anthropic_credentials() {
    let config = test_config("x");
    assert!(choose_llm("openai", "gpt", &config, &env(&[])).unwrap_err().starts_with("OPENAI_API_KEY is not set"));
    assert_eq!(
        choose_llm("openai", "gpt", &config, &env(&[("BASE_URL", "http://local")])).unwrap(),
        LlmChoice::OpenAi { model: "gpt".into(), api_key: "".into(), base_url: Some("http://local".into()) }
    );
    assert_eq!(
        choose_llm("anthropic", "sonnet", &config, &env(&[("ANTHROPIC_API_KEY", "k")])).unwrap(),
        LlmChoice::Anthropic { model: "sonnet".into(), api_key: "k".into(), base_url: None }
    );
    assert!(choose_llm("anthropic", "sonnet", &config, &env(&[])).unwrap_err().starts_with("ANTHROPIC_API_KEY is not set"));
}
