//! The settings of the assistant.

use vstd::prelude::*;
use vstd::string::StringSliceAdditionalSpecFns;
use vstd::utf8::{decode_utf8, encode_utf8, is_char_boundary};
use crate::text::{option_text, push_text, text_eq, texts};

verus! {

/// Everything the assistant is configured with.
pub struct Config {
    /// Base address of the model provider.
    pub api_base_url: String,
    /// Version segment of the provider's address.
    pub api_version: String,
    /// Name of the model.
    pub model: String,
    /// Key that authenticates to the provider; empty when there is none.
    pub api_key: String,
    /// Mail server.
    pub smtp_server: String,
    /// Login at the mail server; empty when there is none.
    pub smtp_username: String,
    /// Password at the mail server; empty when there is none.
    pub smtp_password: String,
    /// Where mail is sent to.
    pub destination_email: String,
    /// Where mail is sent from; empty to use the destination.
    pub sender_email: String,
    /// Key of the search service.
    pub google_search_api_key: String,
    /// Engine of the search service.
    pub google_search_engine_id: String,
    /// Key of the stock data service.
    pub alpha_vantage_api_key: String,
    /// Key of the web search service.
    pub tavily_api_key: String,
}

/// The value that `env` gives to `key`: that of the first pair with this key,
/// and `default` if there is none.
pub open spec fn setting(env: Seq<(String, String)>, key: Seq<char>, default: Seq<char>) -> Seq<
    char,
>
    decreases env.len(),
{
    if env.len() == 0 {
        default
    } else if env[0].0@ == key {
        env[0].1@
    } else {
        setting(env.skip(1), key, default)
    }
}

/// Looks a setting up, falling back on a default.
pub fn setting_or(env: &Vec<(String, String)>, key: &str, default: &str) -> (value: String)
    ensures
        value@ == setting(env@, key@, default@),
{
    let mut i: usize = 0;
    assert(env@.skip(0) =~= env@);
    while i < env.len()
        invariant
            i <= env.len(),
            setting(env@, key@, default@) == setting(env@.skip(i as int), key@, default@),
        decreases env.len() - i,
    {
        assert(env@.skip(i as int)[0] == env@[i as int]);
        if text_eq(env[i].0.as_str(), key) {
            return env[i].1.clone();
        }
        assert(env@.skip(i as int).skip(1) =~= env@.skip(i + 1));
        i += 1;
    }
    default.to_owned()
}

impl Config {
    /// The configuration that a list of settings describes. A setting that is
    /// not given takes its default.
    pub fn load(env: &Vec<(String, String)>) -> (config: Config)
        ensures
            config.api_base_url@ == setting(
                env@,
                "API_BASE_URL"@,
                "https://generativelanguage.googleapis.com"@,
            ),
            config.api_version@ == setting(env@, "API_VERSION"@, "v1beta"@),
            config.model@ == setting(env@, "MODEL"@, "gemini-2.5-flash"@),
            config.api_key@ == setting(env@, "API_KEY"@, ""@),
            config.smtp_server@ == setting(env@, "SMTP_SERVER_IP"@, "localhost"@),
            config.smtp_username@ == setting(env@, "SMTP_USERNAME"@, ""@),
            config.smtp_password@ == setting(env@, "SMTP_PASSWORD"@, ""@),
            config.destination_email@ == setting(env@, "DESTINATION_EMAIL"@, ""@),
            config.sender_email@ == setting(env@, "SENDER_EMAIL"@, ""@),
            config.google_search_api_key@ == setting(env@, "GOOGLE_SEARCH_API_KEY"@, ""@),
            config.google_search_engine_id@ == setting(env@, "GOOGLE_SEARCH_ENGINE_ID"@, ""@),
            config.alpha_vantage_api_key@ == setting(env@, "ALPHA_VANTAGE_API_KEY"@, ""@),
            config.tavily_api_key@ == setting(env@, "TAVILY_API_KEY"@, ""@),
    {
        Config {
            api_base_url: setting_or(
                env,
                "API_BASE_URL",
                "https://generativelanguage.googleapis.com",
            ),
            api_version: setting_or(env, "API_VERSION", "v1beta"),
            model: setting_or(env, "MODEL", "gemini-2.5-flash"),
            api_key: setting_or(env, "API_KEY", ""),
            smtp_server: setting_or(env, "SMTP_SERVER_IP", "localhost"),
            smtp_username: setting_or(env, "SMTP_USERNAME", ""),
            smtp_password: setting_or(env, "SMTP_PASSWORD", ""),
            destination_email: setting_or(env, "DESTINATION_EMAIL", ""),
            sender_email: setting_or(env, "SENDER_EMAIL", ""),
            google_search_api_key: setting_or(env, "GOOGLE_SEARCH_API_KEY", ""),
            google_search_engine_id: setting_or(env, "GOOGLE_SEARCH_ENGINE_ID", ""),
            alpha_vantage_api_key: setting_or(env, "ALPHA_VANTAGE_API_KEY", ""),
            tavily_api_key: setting_or(env, "TAVILY_API_KEY", ""),
        }
    }

    /// The address of the provider's chat completion endpoint.
    pub open spec fn api_endpoint(self) -> Seq<char> {
        self.api_base_url@ + "/"@ + self.api_version@ + "/chat/completions"@
    }

    /// The address that completion requests are sent to.
    pub fn get_api_endpoint(&self) -> (url: String)
        ensures
            url@ == self.api_endpoint(),
    {
        let mut url = String::new();
        push_text(&mut url, self.api_base_url.as_str());
        push_text(&mut url, "/");
        push_text(&mut url, self.api_version.as_str());
        push_text(&mut url, "/chat/completions");
        assert(url@ =~= self.api_endpoint());
        url
    }

    /// The value of the authorization header: a bearer token made of the key,
    /// or nothing when there is no key.
    pub fn get_auth_header(&self) -> (header: Option<String>)
        ensures
            option_text(header) == if self.api_key@.len() == 0 {
                None::<Seq<char>>
            } else {
                Some("Bearer "@ + self.api_key@)
            },
    {
        if self.api_key.as_str().is_empty() {
            None
        } else {
            let mut h = String::new();
            push_text(&mut h, "Bearer ");
            push_text(&mut h, self.api_key.as_str());
            assert(h@ =~= "Bearer "@ + self.api_key@);
            Some(h)
        }
    }
}

/// The start of a key that may be shown: its first four bytes if it is
/// longer than that, and three stars otherwise.
pub open spec fn key_hint(api_key: Seq<char>) -> Seq<char> {
    if encode_utf8(api_key).len() > 4 {
        decode_utf8(encode_utf8(api_key).subrange(0, 4))
    } else {
        "***"@
    }
}

impl Config {
    /// The lines that sum the provider's settings up, the key cut to a hint.
    pub open spec fn summary(self) -> Seq<Seq<char>> {
        seq![
            "=== AI Provider Configuration ==="@,
            "API Base URL: "@ + self.api_base_url@,
            "API Version: "@ + self.api_version@,
            "Model: "@ + self.model@,
            "API Key: "@ + key_hint(self.api_key@) + "***"@,
            "Endpoint: "@ + self.api_endpoint(),
            "Auth Method: Header (Bearer)"@,
            "================================"@,
        ]
    }

    /// Sums the provider's settings up for showing. The fourth byte of the
    /// key must not fall inside a character.
    pub fn display_summary(&self) -> (lines: Vec<String>)
        requires
            encode_utf8(self.api_key@).len() > 4 ==> is_char_boundary(encode_utf8(self.api_key@), 4),
        ensures
            texts(lines@) == self.summary(),
    {
        broadcast use {vstd::utf8::encode_utf8_decode_utf8, vstd::utf8::encode_utf8_valid_utf8};

        let mut lines: Vec<String> = Vec::new();
        lines.push("=== AI Provider Configuration ===".to_owned());
        lines.push(labelled("API Base URL: ", self.api_base_url.as_str()));
        lines.push(labelled("API Version: ", self.api_version.as_str()));
        lines.push(labelled("Model: ", self.model.as_str()));
        let key = self.api_key.as_str();
        let mut hint = String::new();
        push_text(&mut hint, "API Key: ");
        if key.as_bytes().len() > 4 {
            let (head, _) = key.split_at(4);
            assert(decode_utf8(head.spec_bytes()) == head@);
            push_text(&mut hint, head);
        } else {
            push_text(&mut hint, "***");
        }
        push_text(&mut hint, "***");
        lines.push(hint);
        lines.push(labelled("Endpoint: ", self.get_api_endpoint().as_str()));
        lines.push("Auth Method: Header (Bearer)".to_owned());
        lines.push("================================".to_owned());
        assert(texts(lines@) =~= self.summary());
        lines
    }
}

fn labelled(label: &str, value: &str) -> (s: String)
    ensures
        s@ == label@ + value@,
{
    let mut s = String::new();
    push_text(&mut s, label);
    push_text(&mut s, value);
    s
}

} // verus!
