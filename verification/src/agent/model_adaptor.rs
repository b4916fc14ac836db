//! Which client each configured model calls for, and what the model serves
//! as.

use crate::config::read_config::{models_view, AppConfig, ModelConfig, ModelType, ModelView};
use vstd::prelude::*;

verus! {

/// The providers whose clients the assistant can build.
#[derive(Debug, Clone, Copy, PartialEq, Eq, Structural)]
pub enum Provider {
    OpenAi,
    Deepseek,
    Ollama,
}

/// The provider that a name written in a configuration stands for.
pub open spec fn provider_of(name: Seq<char>) -> Option<Provider> {
    if name == "openai"@ {
        Some(Provider::OpenAi)
    } else if name == "deepseek"@ {
        Some(Provider::Deepseek)
    } else if name == "ollama"@ {
        Some(Provider::Ollama)
    } else {
        None
    }
}

/// What a model of `model_type` serves as with a client of `provider`: an
/// embedding model, a completion model, or nothing. A chat model serves as
/// nothing, and Deepseek offers no embeddings.
pub open spec fn role_of(provider: Provider, model_type: ModelType) -> Option<ModelType> {
    match (provider, model_type) {
        (_, ModelType::Completion) => Some(ModelType::Completion),
        (Provider::OpenAi, ModelType::Embedding) => Some(ModelType::Embedding),
        (Provider::Ollama, ModelType::Embedding) => Some(ModelType::Embedding),
        _ => None,
    }
}

/// What is to be built for one configured model.
#[derive(Debug, Clone, Copy, PartialEq, Eq, Structural)]
pub struct ModelPlan {
    /// The model's position in the configuration.
    pub index: usize,
    /// The provider whose client is to be built.
    pub provider: Provider,
    /// What the model is to serve as, if anything.
    pub role: Option<ModelType>,
}

/// The plans for the first `n` models of a configuration, in order. A
/// model of an unknown provider gets none.
pub open spec fn planned(models: Seq<ModelView>, n: int) -> Seq<ModelPlan>
    decreases n,
{
    if n <= 0 || n > models.len() {
        Seq::empty()
    } else {
        let before = planned(models, n - 1);
        match provider_of(models[n - 1].provider) {
            Some(provider) => before.push(
                ModelPlan {
                    index: (n - 1) as usize,
                    provider,
                    role: role_of(provider, models[n - 1].model_type),
                },
            ),
            None => before,
        }
    }
}

impl Provider {
    /// The provider that `name` stands for: `openai`, `deepseek` or
    /// `ollama`.
    pub fn parse(name: &str) -> (provider: Option<Provider>)
        ensures
            provider == provider_of(name@),
    {
        let name = name.to_owned();
        if name == "openai".to_owned() {
            Some(Provider::OpenAi)
        } else if name == "deepseek".to_owned() {
            Some(Provider::Deepseek)
        } else if name == "ollama".to_owned() {
            Some(Provider::Ollama)
        } else {
            None
        }
    }

    /// What the model of `model_config` serves as with a client of this
    /// provider.
    pub fn build_model(self, model_config: &ModelConfig) -> (role: Option<ModelType>)
        ensures
            role == role_of(self, model_config@.model_type),
    {
        match (self, model_config.model_type) {
            (_, ModelType::Completion) => Some(ModelType::Completion),
            (Provider::OpenAi, ModelType::Embedding) => Some(ModelType::Embedding),
            (Provider::Ollama, ModelType::Embedding) => Some(ModelType::Embedding),
            _ => None,
        }
    }
}

/// Plans the models of a configuration: for every model of a known
/// provider, which client to build and what the model serves as.
pub fn load_models(app_config: &AppConfig) -> (plans: Vec<ModelPlan>)
    ensures
        plans@ == planned(
            models_view(app_config.models@),
            app_config.models@.len() as int,
        ),
{
    let mut plans: Vec<ModelPlan> = Vec::new();
    let ghost all = models_view(app_config.models@);
    let mut i: usize = 0;
    while i < app_config.models.len()
        invariant
            i <= app_config.models@.len(),
            all == models_view(app_config.models@),
            plans@ == planned(all, i as int),
        decreases app_config.models@.len() - i,
    {
        let model_config = &app_config.models[i];
        assert(all[i as int] == model_config@);
        match Provider::parse(model_config.provider.as_str()) {
            Some(provider) => {
                let role = provider.build_model(model_config);
                plans.push(ModelPlan { index: i, provider, role });
            },
            None => {},
        }
        i += 1;
    }
    plans
}

} // verus!
