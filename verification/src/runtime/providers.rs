//! Provider resolution: which provider and model a configuration names,
//! where the credentials come from, and which client is built. Building the
//! client and reading the process environment are the frontend's work.
use vstd::prelude::*;
use vstd::string::StringExecFns;
use crate::strmap::StrMap;
use crate::text::{chars_of, find, find_exec, lemma_find_result, push_str, slice_vec, string_of, trim, trim_vec};

verus! {

/// The part of the configuration that selects the provider.
#[derive(Debug, Clone, Default)]
pub struct ProviderConfig {
    pub provider: Option<String>,
    pub model: String,
    pub provider_api_key: Option<String>,
    pub provider_api_key_env: Option<String>,
    pub provider_base_url: Option<String>,
    pub provider_base_url_env: Option<String>,
}

/// Resolved provider and model after processing config overrides.
#[derive(Debug, PartialEq, Eq, Clone)]
pub struct ProviderSelection {
    pub provider: String,
    pub model: String,
}

/// `s` split at its first `/`, if it has one.
pub open spec fn split_slash(s: Seq<char>) -> Option<(Seq<char>, Seq<char>)> {
    match find(s, seq!['/']) {
        Some(i) => if 0 <= i < s.len() { Some((s.subrange(0, i), s.subrange(i + 1, s.len() as int))) } else { None },
        None => None,
    }
}

fn split_slash_exec(s: &[char]) -> (r: Option<(Vec<char>, Vec<char>)>)
    ensures
        match split_slash(s@) {
            Some((a, b)) => r matches Some((x, y)) && x@ == a && y@ == b,
            None => r is None,
        },
{
    let slash = chars_of("/");
    proof { reveal_strlit("/"); assert(slash@ =~= seq!['/']); }
    proof { lemma_find_result(s@, seq!['/']); }
    match find_exec(s, &slash, 0) {
        Some(i) => {
            assert(crate::text::find(s@, seq!['/']) == Some(i as int));
            assert(i < s@.len());
            let n = s.len();
            assert(i < n);
            Some((slice_vec(s, 0, i), slice_vec(s, i + 1, n)))
        },
        None => None,
    }
}

/// The provider and model a configuration names: with a `provider` field
/// (trimmed, not empty), the model may repeat it as `provider/model` but
/// not name another; without one, the model must be `provider/model`.
pub open spec fn provider_selection(provider: Option<Seq<char>>, model: Seq<char>) -> Result<(Seq<char>, Seq<char>), Seq<char>> {
    let m = trim(model);
    match provider {
        Some(p0) => {
            let p = trim(p0);
            if p.len() == 0 {
                Err("provider must not be empty"@)
            } else {
                match split_slash(m) {
                    Some((ep, em)) => if ep == p {
                        Ok((p, em))
                    } else {
                        Err("provider '"@ + p + "' conflicts with model provider '"@ + ep + "'"@)
                    },
                    None => Ok((p, m)),
                }
            }
        },
        None => match split_slash(m) {
            Some((p, mm)) => Ok((p, mm)),
            None => Err("model must use provider/model format or config must set provider"@),
        },
    }
}

/// Resolve the provider and model (see `provider_selection`).
pub fn resolve_provider(config: &ProviderConfig) -> (r: Result<ProviderSelection, String>)
    ensures
        match provider_selection(match config.provider { Some(p) => Some(p@), None => None }, config.model@) {
            Ok((p, m)) => r matches Ok(s) && s.provider@ == p && s.model@ == m,
            Err(e) => r matches Err(x) && x@ == e,
        },
{
    let m = trim_vec(&chars_of(config.model.as_str()));
    match &config.provider {
        Some(p0) => {
            let p = trim_vec(&chars_of(p0.as_str()));
            if p.len() == 0 {
                return Err(String::from_str("provider must not be empty"));
            }
            match split_slash_exec(&m) {
                Some((ep, em)) => if crate::text::eq_chars(&ep, &p) {
                    Ok(ProviderSelection { provider: string_of(&p), model: string_of(&em) })
                } else {
                    let mut e = String::from_str("provider '");
                    push_str(&mut e, string_of(&p).as_str());
                    push_str(&mut e, "' conflicts with model provider '");
                    push_str(&mut e, string_of(&ep).as_str());
                    push_str(&mut e, "'");
                    Err(e)
                },
                None => Ok(ProviderSelection { provider: string_of(&p), model: string_of(&m) }),
            }
        },
        None => match split_slash_exec(&m) {
            Some((p, mm)) => Ok(ProviderSelection { provider: string_of(&p), model: string_of(&mm) }),
            None => Err(String::from_str("model must use provider/model format or config must set provider")),
        },
    }
}

/// A value configured literally, else read from the named environment
/// variable, else from the default variable.
pub open spec fn cascade(literal: Option<Seq<char>>, env_name: Option<Seq<char>>, default_env: Seq<char>, env: Map<Seq<char>, Seq<char>>) -> Option<Seq<char>> {
    match literal {
        Some(v) => Some(v),
        None => {
            let name = match env_name { Some(n) => n, None => default_env };
            if env.contains_key(name) { Some(env[name]) } else { None }
        },
    }
}

fn cascade_exec(literal: &Option<String>, env_name: &Option<String>, default_env: &str, env: &StrMap) -> (r: Option<String>)
    ensures
        r matches Some(v) ==> cascade(match literal { Some(l) => Some(l@), None => None },
            match env_name { Some(n) => Some(n@), None => None }, default_env@, env@) == Some(v@),
        r is None ==> cascade(match literal { Some(l) => Some(l@), None => None },
            match env_name { Some(n) => Some(n@), None => None }, default_env@, env@) is None,
{
    if let Some(v) = literal {
        return Some(v.clone());
    }
    let name: &str = match env_name {
        Some(n) => n.as_str(),
        None => default_env,
    };
    match env.get(name) {
        Some(v) => Some(v.clone()),
        None => None,
    }
}

/// The API key: `provider_api_key`, else the variable `provider_api_key_env`
/// names, else `default_env`, read from `env`.
pub fn resolve_api_key(config: &ProviderConfig, default_env: &str, env: &StrMap) -> (r: Option<String>)
    ensures
        match cascade(match config.provider_api_key { Some(l) => Some(l@), None => None },
            match config.provider_api_key_env { Some(n) => Some(n@), None => None }, default_env@, env@) {
            Some(v) => r matches Some(x) && x@ == v,
            None => r is None,
        },
{
    cascade_exec(&config.provider_api_key, &config.provider_api_key_env, default_env, env)
}

/// The base URL: `provider_base_url`, else the variable
/// `provider_base_url_env` names, else `BASE_URL`, read from `env`.
pub fn resolve_base_url(config: &ProviderConfig, env: &StrMap) -> (r: Option<String>)
    ensures
        match cascade(match config.provider_base_url { Some(l) => Some(l@), None => None },
            match config.provider_base_url_env { Some(n) => Some(n@), None => None }, "BASE_URL"@, env@) {
            Some(v) => r matches Some(x) && x@ == v,
            None => r is None,
        },
{
    cascade_exec(&config.provider_base_url, &config.provider_base_url_env, "BASE_URL", env)
}

/// The client to build.
#[derive(Debug, PartialEq, Eq, Clone)]
pub enum LlmChoice {
    /// The offline client, reporting `model_id` and answering `response`.
    Dummy { model_id: String, response: String },
    /// An OpenAI-compatible client (an empty key for a local endpoint).
    OpenAi { model: String, api_key: String, base_url: Option<String> },
    /// An Anthropic client.
    Anthropic { model: String, api_key: String, base_url: Option<String> },
}

/// Which client a provider gets, with the credentials found in `env`.
pub fn choose_llm(provider: &str, model: &str, config: &ProviderConfig, env: &StrMap) -> (r: Result<LlmChoice, String>)
    ensures
        provider@ == "dummy"@ ==> (r matches Ok(LlmChoice::Dummy { model_id, response })
            && model_id@ == provider@ + "/"@ + model@
            && response@ == "Dummy provider for model '"@ + model@ + "' is wired correctly."@),
        provider@ == "openai"@ ==> ({
            let base = cascade(match config.provider_base_url { Some(l) => Some(l@), None => None },
                match config.provider_base_url_env { Some(n) => Some(n@), None => None }, "BASE_URL"@, env@);
            let key = cascade(match config.provider_api_key { Some(l) => Some(l@), None => None },
                match config.provider_api_key_env { Some(n) => Some(n@), None => None }, "OPENAI_API_KEY"@, env@);
            if key is None && base is None {
                r matches Err(e) && e@ == "OPENAI_API_KEY is not set; set provider_api_key, provider_api_key_env, or provider_base_url for local endpoints"@
            } else {
                r matches Ok(LlmChoice::OpenAi { model: m, api_key, base_url }) && m@ == model@
                    && api_key@ == (match key { Some(k) => k, None => Seq::empty() })
                    && match base_url { Some(b) => base == Some(b@), None => base is None }
            }
        }),
        provider@ == "anthropic"@ ==> ({
            let base = cascade(match config.provider_base_url { Some(l) => Some(l@), None => None },
                match config.provider_base_url_env { Some(n) => Some(n@), None => None }, "BASE_URL"@, env@);
            let key = cascade(match config.provider_api_key { Some(l) => Some(l@), None => None },
                match config.provider_api_key_env { Some(n) => Some(n@), None => None }, "ANTHROPIC_API_KEY"@, env@);
            match key {
                None => r matches Err(e) && e@ == "ANTHROPIC_API_KEY is not set; set provider_api_key or provider_api_key_env"@,
                Some(k) => r matches Ok(LlmChoice::Anthropic { model: m, api_key, base_url }) && m@ == model@
                    && api_key@ == k && match base_url { Some(b) => base == Some(b@), None => base is None },
            }
        }),
        provider@ != "dummy"@ && provider@ != "openai"@ && provider@ != "anthropic"@ ==>
            (r matches Err(e) && e@ == "unsupported LLM provider '"@ + provider@ + "' (supported: dummy, openai, anthropic)"@),
{
    let p = String::from_str(provider);
    proof {
        reveal_strlit("dummy");
        reveal_strlit("openai");
        reveal_strlit("anthropic");
        assert("dummy"@.len() != "openai"@.len());
        assert("dummy"@.len() != "anthropic"@.len());
        assert("openai"@.len() != "anthropic"@.len());
    }
    if p == String::from_str("dummy") {
        let mut id = String::from_str(provider);
        push_str(&mut id, "/");
        push_str(&mut id, model);
        let mut response = String::from_str("Dummy provider for model '");
        push_str(&mut response, model);
        push_str(&mut response, "' is wired correctly.");
        Ok(LlmChoice::Dummy { model_id: id, response })
    } else if p == String::from_str("openai") {
        let base_url = resolve_base_url(config, env);
        let key = resolve_api_key(config, "OPENAI_API_KEY", env);
        match key {
            Some(k) => Ok(LlmChoice::OpenAi { model: String::from_str(model), api_key: k, base_url }),
            None => if base_url.is_some() {
                proof { reveal_strlit(""); }
                Ok(LlmChoice::OpenAi { model: String::from_str(model), api_key: String::new(), base_url })
            } else {
                Err(String::from_str("OPENAI_API_KEY is not set; set provider_api_key, provider_api_key_env, or provider_base_url for local endpoints"))
            },
        }
    } else if p == String::from_str("anthropic") {
        let base_url = resolve_base_url(config, env);
        match resolve_api_key(config, "ANTHROPIC_API_KEY", env) {
            Some(k) => Ok(LlmChoice::Anthropic { model: String::from_str(model), api_key: k, base_url }),
            None => Err(String::from_str("ANTHROPIC_API_KEY is not set; set provider_api_key or provider_api_key_env")),
        }
    } else {
        let mut e = String::from_str("unsupported LLM provider '");
        push_str(&mut e, provider);
        push_str(&mut e, "' (supported: dummy, openai, anthropic)");
        Err(e)
    }
}

} // verus!
