//! Startup configuration: what the process needs before the first turn.
//!
//! Reading the environment and the dotenv file is the binary's business;
//! the decision over the values found — which defaults apply and when
//! startup is fatal — is made here.

use vstd::prelude::*;

use crate::error::Error;

verus! {

/// Where and as whom the model is reached.
pub struct ChatConfig {
    pub api_base: String,
    pub model: String,
    pub secret: String,
}

/// Settle the startup values.
///
/// The absence of a stored credential — in the environment or the
/// dotenv file, both already consulted by the caller — is a startup
/// fatal error, unconditionally.  The API base and the model name fall
/// back to the provider's standard endpoint and a fixed default model.
pub fn resolve_config(api_base: Option<String>, model: Option<String>, secret: Option<String>) -> (r:
    Result<ChatConfig, Error>)
    ensures
        r is Err <==> secret is None,
        r matches Err(e) ==> e.0@ == "expected env `OPENAI_API_KEY` to be available"@,
        r matches Ok(c) ==> {
            &&& c.api_base@ == (match api_base {
                Some(b) => b@,
                None => "https://api.openai.com/v1"@,
            })
            &&& c.model@ == (match model {
                Some(m) => m@,
                None => "gpt-4o"@,
            })
            &&& secret matches Some(s) && c.secret@ == s@
        },
{
    let secret = match secret {
        None => {
            return Err(Error::new("expected env `OPENAI_API_KEY` to be available"));
        },
        Some(s) => s,
    };
    let api_base = match api_base {
        Some(b) => b,
        None => String::from_str("https://api.openai.com/v1"),
    };
    let model = match model {
        Some(m) => m,
        None => String::from_str("gpt-4o"),
    };
    Ok(ChatConfig { api_base, model, secret })
}

} // verus!
