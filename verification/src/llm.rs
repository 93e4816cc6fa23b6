//! How a model is reached.

use vstd::prelude::*;
use crate::text::{deep, dup_vec, Dup};

verus! {

/// The two wire formats that are spoken.
#[derive(Clone, Copy, Debug, PartialEq, Eq, Structural)]
pub enum Provider {
    Anthropic,
    OpenAI,
}

/// A name and its value.
#[derive(Clone, Debug, PartialEq)]
pub struct Header {
    pub name: String,
    pub value: String,
}

/// What a [`Header`] stands for.
#[verifier::ext_equal]
pub struct HeaderView {
    pub name: Seq<char>,
    pub value: Seq<char>,
}

impl View for Header {
    type V = HeaderView;

    open spec fn view(&self) -> HeaderView {
        HeaderView { name: self.name@, value: self.value@ }
    }
}

impl Dup for Header {
    fn dup(&self) -> (r: Self) {
        Header { name: self.name.clone(), value: self.value.clone() }
    }
}

/// A model, where it is served and how it is called.
#[derive(Clone, Debug, PartialEq)]
pub struct LlmClientConfig {
    pub provider: Provider,
    pub base_url: String,
    pub model: String,
    pub api_key: String,
    pub max_completion_tokens: Option<u32>,
    /// Sent with every request.
    pub extra_headers: Vec<Header>,
    pub disable_cache_control: bool,
}

/// What a [`LlmClientConfig`] stands for.
#[verifier::ext_equal]
pub struct LlmClientConfigView {
    pub provider: Provider,
    pub base_url: Seq<char>,
    pub model: Seq<char>,
    pub api_key: Seq<char>,
    pub max_completion_tokens: Option<u32>,
    pub extra_headers: Seq<HeaderView>,
    pub disable_cache_control: bool,
}

impl View for LlmClientConfig {
    type V = LlmClientConfigView;

    open spec fn view(&self) -> LlmClientConfigView {
        LlmClientConfigView {
            provider: self.provider,
            base_url: self.base_url@,
            model: self.model@,
            api_key: self.api_key@,
            max_completion_tokens: self.max_completion_tokens,
            extra_headers: deep(self.extra_headers@),
            disable_cache_control: self.disable_cache_control,
        }
    }
}

impl Dup for LlmClientConfig {
    fn dup(&self) -> (r: Self) {
        LlmClientConfig {
            provider: self.provider,
            base_url: self.base_url.clone(),
            model: self.model.clone(),
            api_key: self.api_key.clone(),
            max_completion_tokens: self.max_completion_tokens,
            extra_headers: dup_vec(&self.extra_headers),
            disable_cache_control: self.disable_cache_control,
        }
    }
}

} // verus!
