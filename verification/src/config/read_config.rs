//! The configuration of the models, and the opening of their sealed keys.

use crate::mcp::transport::TransportConfig;
use crate::secure::aes::{decrypt, opened_text, CipherError, KEY_LEN};
use vstd::prelude::*;

verus! {

/// What a model is used for.
#[derive(Debug, Clone, Copy, PartialEq, Eq, Structural)]
pub enum ModelType {
    Embedding,
    Completion,
    Chat,
}

/// One configured model.
#[derive(Debug, Clone, PartialEq, Eq)]
pub struct ModelConfig {
    pub base_url: String,
    /// The provider's key: sealed as stored, plain once the configuration is
    /// loaded.
    pub api_key: String,
    /// The provider's name in lower case.
    pub provider: String,
    pub model_name: String,
    pub model_type: ModelType,
}

/// The configuration of the application.
#[derive(Debug, Clone, PartialEq, Eq)]
pub struct AppConfig {
    pub models: Vec<ModelConfig>,
    pub mcp_servers: Option<Vec<TransportConfig>>,
}

/// The mathematical content of a [`ModelConfig`].
pub struct ModelView {
    pub base_url: Seq<char>,
    pub api_key: Seq<char>,
    pub provider: Seq<char>,
    pub model_name: Seq<char>,
    pub model_type: ModelType,
}

impl View for ModelConfig {
    type V = ModelView;

    open spec fn view(&self) -> ModelView {
        ModelView {
            base_url: self.base_url@,
            api_key: self.api_key@,
            provider: self.provider@,
            model_name: self.model_name@,
            model_type: self.model_type,
        }
    }
}

/// A model whose key could not be opened.
#[derive(Debug, Clone, PartialEq, Eq)]
pub struct SkippedModel {
    pub model_name: String,
    pub error: CipherError,
}

impl View for SkippedModel {
    type V = (Seq<char>, CipherError);

    open spec fn view(&self) -> (Seq<char>, CipherError) {
        (self.model_name@, self.error)
    }
}

/// Configured models, each by its mathematical content.
pub open spec fn models_view(models: Seq<ModelConfig>) -> Seq<ModelView> {
    models.map_values(|m: ModelConfig| m@)
}

/// Skipped models, each by its name and the reason.
pub open spec fn skipped_view(skipped: Seq<SkippedModel>) -> Seq<(Seq<char>, CipherError)> {
    skipped.map_values(|s: SkippedModel| s@)
}

/// The models among the first `n` whose key opens under `key`, in order,
/// each with its key in plain.
pub open spec fn opened_models(models: Seq<ModelView>, key: Seq<u8>, n: int) -> Seq<ModelView>
    decreases n,
{
    if n <= 0 || n > models.len() {
        Seq::empty()
    } else {
        let before = opened_models(models, key, n - 1);
        match opened_text(models[n - 1].api_key, key) {
            Ok(plain) => before.push(ModelView { api_key: plain, ..models[n - 1] }),
            Err(_) => before,
        }
    }
}

/// The models among the first `n` whose key does not open under `key`, in
/// order, each by its name and the reason.
pub open spec fn skipped_models(models: Seq<ModelView>, key: Seq<u8>, n: int) -> Seq<
    (Seq<char>, CipherError),
>
    decreases n,
{
    if n <= 0 || n > models.len() {
        Seq::empty()
    } else {
        let before = skipped_models(models, key, n - 1);
        match opened_text(models[n - 1].api_key, key) {
            Ok(_) => before,
            Err(error) => before.push((models[n - 1].model_name, error)),
        }
    }
}

/// Opens the sealed key of every model. A model whose key opens is kept
/// with the key in plain; any other is skipped and handed back with the
/// reason, for the caller to report.
pub fn decrypt_models(models: Vec<ModelConfig>, key_bytes: &[u8]) -> (out: (
    Vec<ModelConfig>,
    Vec<SkippedModel>,
))
    requires
        key_bytes@.len() == KEY_LEN,
    ensures
        models_view(out.0@) == opened_models(
            models_view(models@),
            key_bytes@,
            models@.len() as int,
        ),
        skipped_view(out.1@) == skipped_models(
            models_view(models@),
            key_bytes@,
            models@.len() as int,
        ),
{
    let mut valid: Vec<ModelConfig> = Vec::new();
    let mut skipped: Vec<SkippedModel> = Vec::new();
    let ghost raw = models@;
    let ghost all = models_view(models@);
    let count = models.len();
    let mut i: usize = 0;
    assert(models_view(valid@) =~= opened_models(all, key_bytes@, 0));
    assert(skipped_view(skipped@) =~= skipped_models(all, key_bytes@, 0));
    for model in it: models
        invariant
            it.seq() == raw,
            all == models_view(raw),
            count == raw.len(),
            i == it.index(),
            key_bytes@.len() == KEY_LEN,
            models_view(valid@) == opened_models(all, key_bytes@, i as int),
            skipped_view(skipped@) == skipped_models(
                all,
                key_bytes@,
                i as int,
            ),
    {
        assert(i < count);
        assert(all[i as int] == model@);
        let ghost kept = models_view(valid@);
        let ghost left = skipped_view(skipped@);
        match decrypt(model.api_key.as_str(), key_bytes) {
            Ok(plain) => {
                let opened = ModelConfig {
                    base_url: model.base_url,
                    api_key: plain,
                    provider: model.provider,
                    model_name: model.model_name,
                    model_type: model.model_type,
                };
                valid.push(opened);
                assert(models_view(valid@) =~= kept.push(opened@));
            },
            Err(error) => {
                let entry = SkippedModel { model_name: model.model_name, error };
                skipped.push(entry);
                assert(skipped_view(skipped@) =~= left.push(entry@));
            },
        }
        i += 1;
    }
    (valid, skipped)
}

} // verus!
