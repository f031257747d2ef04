//! The providers of explanations.

use crate::pairing::same_text;
use crate::text::{from_chars, lowercase, push_all, to_chars};
use vstd::prelude::*;

verus! {

/// A provider of explanations.
#[derive(Debug, Clone, Copy, PartialEq, Eq, Structural)]
pub enum AiProvider {
    Gemini,
    Qwen,
}

/// The provider that a name in lower case stands for.
pub open spec fn provider_named(lower: Seq<char>) -> Option<AiProvider> {
    if lower == "gemini"@ {
        Some(AiProvider::Gemini)
    } else if lower == "qwen"@ {
        Some(AiProvider::Qwen)
    } else {
        None
    }
}

/// What the reading of a provider's name gives: the provider, or the
/// complaint that names what was read.
pub open spec fn provider_read(name: Seq<char>, lower: Seq<char>) -> Result<AiProvider, Seq<char>> {
    match provider_named(lower) {
        Some(p) => Ok(p),
        None => Err("Unknown AI provider: "@ + name),
    }
}

/// The view of what the reading of a provider's name gives.
pub open spec fn read_view(r: Result<AiProvider, String>) -> Result<AiProvider, Seq<char>> {
    match r {
        Ok(p) => Ok(p),
        Err(e) => Err(e@),
    }
}

impl AiProvider {
    /// The name of the provider.
    pub open spec fn spec_name(self) -> Seq<char> {
        match self {
            AiProvider::Gemini => "gemini"@,
            AiProvider::Qwen => "qwen"@,
        }
    }

    /// The name of the provider.
    pub fn name(&self) -> (out: String)
        ensures
            out@ == self.spec_name(),
    {
        match self {
            AiProvider::Gemini => String::from_str("gemini"),
            AiProvider::Qwen => String::from_str("qwen"),
        }
    }

    /// Reads a provider's name, with `lower` as the name in lower case.
    pub fn from_lowercase(name: &str, lower: &str) -> (r: Result<AiProvider, String>)
        ensures
            read_view(r) == provider_read(name@, lower@),
    {
        if same_text(lower, "gemini") {
            Ok(AiProvider::Gemini)
        } else if same_text(lower, "qwen") {
            Ok(AiProvider::Qwen)
        } else {
            let mut msg = to_chars("Unknown AI provider: ");
            let tail = to_chars(name);
            push_all(&mut msg, &tail);
            Err(from_chars(&msg))
        }
    }

    /// Reads a provider's name, whatever the case of its letters.
    pub fn parse(name: &str) -> (r: Result<AiProvider, String>)
        ensures
            read_view(r) == provider_read(name@, lowercase(name@)),
    {
        let lower = name.to_lowercase();
        AiProvider::from_lowercase(name, lower.as_str())
    }
}

impl core::str::FromStr for AiProvider {
    type Err = String;

    /// Reads a provider's name, whatever the case of its letters.
    fn from_str(s: &str) -> (r: Result<Self, Self::Err>)
        ensures
            read_view(r) == provider_read(s@, lowercase(s@)),
    {
        AiProvider::parse(s)
    }
}

} // verus!
