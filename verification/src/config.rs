//! The proxy's configuration: its defaults, the builders that adjust it, and
//! the part of it the model manager needs.
use vstd::prelude::*;
use crate::inference::{join_path, joined_path};
use crate::models::SupportedModels;

verus! {

/// `dirs::home_dir`: the current user's home directory, as text; none when
/// there is no home directory, or when its path is not valid UTF-8, since the
/// library holds paths as text. What it returns depends on the environment
/// and the system, so nothing is promised of it.
#[verifier::external_body]
fn home_directory() -> (res: Option<String>) {
    match dirs::home_dir() {
        Some(p) => p.into_os_string().into_string().ok(),
        None => None,
    }
}

/// The settings that every Ahnlich server shares.
#[derive(Debug)]
pub struct CommonConfig {
    pub persist_location: Option<String>,
    pub enable_persistence: bool,
    pub persistence_interval: u64,
    pub maximum_clients: usize,
}

/// The configuration of the AI proxy.
#[derive(Debug)]
pub struct AIProxyConfig {
    pub port: u16,
    pub db_host: String,
    pub db_port: u16,
    pub db_client_pool_size: usize,
    pub supported_models: Vec<SupportedModels>,
    pub ai_model_idle_time: u64,
    pub model_cache_location: String,
    pub common: CommonConfig,
}

/// What the model manager needs to know.
#[derive(Debug)]
pub struct ModelConfig {
    pub supported_models: Vec<SupportedModels>,
    pub model_cache_location: String,
    pub model_idle_time: u64,
}

/// The default model cache below a home directory: `.ahnlich/models`.
pub open spec fn default_cache_location(home: Seq<char>) -> Seq<char> {
    joined_path(joined_path(home, ".ahnlich"@), "models"@)
}

/// The models a proxy supports unless told otherwise.
pub open spec fn default_supported_models() -> Seq<SupportedModels> {
    seq![
        SupportedModels::AllMiniLML6V2,
        SupportedModels::AllMiniLML12V2,
        SupportedModels::BGEBaseEnV15,
        SupportedModels::BGELargeEnV15,
        SupportedModels::ClipVitB32Text,
        SupportedModels::Resnet50,
        SupportedModels::ClipVitB32Image,
    ]
}

/// The model cache below a home directory.
pub fn cache_location_in(home: &str) -> (res: String)
    ensures
        res@ == default_cache_location(home@),
{
    let a = join_path(home, ".ahnlich");
    join_path(a.as_str(), "models")
}

impl ModelConfig {
    /// The default model configuration for a user whose home is `home`: one
    /// model, the cache below the home, five minutes of idle time.
    pub fn default_in(home: &str) -> (res: ModelConfig)
        ensures
            res.supported_models@ == seq![SupportedModels::AllMiniLML6V2],
            res.model_cache_location@ == default_cache_location(home@),
            res.model_idle_time == 300,
    {
        let models = vec![SupportedModels::AllMiniLML6V2];
        assert(models@ =~= seq![SupportedModels::AllMiniLML6V2]);
        ModelConfig {
            supported_models: models,
            model_cache_location: cache_location_in(home),
            model_idle_time: 60 * 5,
        }
    }

    /// The default model configuration for the current user; none when the
    /// home directory cannot be found or its path is not valid UTF-8.
    pub fn try_default() -> (res: Option<ModelConfig>)
        ensures
            res matches Some(c) ==> c.supported_models@ == seq![SupportedModels::AllMiniLML6V2]
                && c.model_idle_time == 300 && exists|home: Seq<char>|
                c.model_cache_location@ == #[trigger] default_cache_location(home),
    {
        match home_directory() {
            Some(home) => Some(Self::default_in(home.as_str())),
            None => None,
        }
    }

    /// The part of the proxy's configuration the model manager needs.
    pub fn from_config(config: &AIProxyConfig) -> (res: ModelConfig)
        ensures
            res.supported_models@ == config.supported_models@,
            res.model_cache_location@ == config.model_cache_location@,
            res.model_idle_time == config.ai_model_idle_time,
    {
        ModelConfig {
            supported_models: crate::operations::copy_vec(&config.supported_models),
            model_cache_location: config.model_cache_location.clone(),
            model_idle_time: config.ai_model_idle_time,
        }
    }
}

impl AIProxyConfig {
    /// The default configuration for a user whose home is `home`, with the
    /// shared settings given.
    pub fn default_in(home: &str, common: CommonConfig) -> (res: AIProxyConfig)
        ensures
            res.port == 1370,
            res.db_host@ == "127.0.0.1"@,
            res.db_port == 1369,
            res.db_client_pool_size == 10,
            res.supported_models@ == default_supported_models(),
            res.model_cache_location@ == default_cache_location(home@),
            res.ai_model_idle_time == 300,
            res.common == common,
    {
        let models = vec![
            SupportedModels::AllMiniLML6V2,
            SupportedModels::AllMiniLML12V2,
            SupportedModels::BGEBaseEnV15,
            SupportedModels::BGELargeEnV15,
            SupportedModels::ClipVitB32Text,
            SupportedModels::Resnet50,
            SupportedModels::ClipVitB32Image,
        ];
        assert(models@ =~= default_supported_models());
        AIProxyConfig {
            port: 1370,
            db_host: String::from_str("127.0.0.1"),
            db_port: 1369,
            db_client_pool_size: 10,
            supported_models: models,
            model_cache_location: cache_location_in(home),
            ai_model_idle_time: 60 * 5,
            common,
        }
    }

    /// The default configuration for the current user; none when the home
    /// directory cannot be found or its path is not valid UTF-8.
    pub fn try_default(common: CommonConfig) -> (res: Option<AIProxyConfig>)
        ensures
            res matches Some(c) ==> c.port == 1370 && c.db_host@ == "127.0.0.1"@ && c.db_port == 1369
                && c.db_client_pool_size == 10 && c.supported_models@ == default_supported_models()
                && c.ai_model_idle_time == 300 && c.common == common && exists|home: Seq<char>|
                c.model_cache_location@ == #[trigger] default_cache_location(home),
    {
        match home_directory() {
            Some(home) => Some(Self::default_in(home.as_str(), common)),
            None => None,
        }
    }

    /// Lets the operating system pick the port.
    pub fn os_select_port(self) -> (res: AIProxyConfig)
        ensures
            res == (AIProxyConfig { port: 0, ..self }),
    {
        AIProxyConfig { port: 0, ..self }
    }

    /// Persists the stores to `location`.
    pub fn set_persist_location(self, location: String) -> (res: AIProxyConfig)
        ensures
            res == (AIProxyConfig {
                common: CommonConfig { persist_location: Some(location), ..self.common },
                ..self
            }),
    {
        let mut c = self;
        c.common.persist_location = Some(location);
        c
    }

    /// Persists the stores every `interval`, which enables persistence.
    pub fn set_persistence_interval(self, interval: u64) -> (res: AIProxyConfig)
        ensures
            res == (AIProxyConfig {
                common: CommonConfig {
                    enable_persistence: true,
                    persistence_interval: interval,
                    ..self.common
                },
                ..self
            }),
    {
        let mut c = self;
        c.common.enable_persistence = true;
        c.common.persistence_interval = interval;
        c
    }

    /// Accepts at most `maximum_clients` clients at once.
    pub fn set_maximum_clients(self, maximum_clients: usize) -> (res: AIProxyConfig)
        ensures
            res == (AIProxyConfig {
                common: CommonConfig { maximum_clients, ..self.common },
                ..self
            }),
    {
        let mut c = self;
        c.common.maximum_clients = maximum_clients;
        c
    }

    /// Keeps model artifacts in `location`.
    pub fn set_model_cache_location(self, location: String) -> (res: AIProxyConfig)
        ensures
            res == (AIProxyConfig { model_cache_location: location, ..self }),
    {
        AIProxyConfig { model_cache_location: location, ..self }
    }

    /// Supports exactly `models`.
    pub fn set_supported_models(self, models: Vec<SupportedModels>) -> (res: AIProxyConfig)
        ensures
            res == (AIProxyConfig { supported_models: models, ..self }),
    {
        AIProxyConfig { supported_models: models, ..self }
    }
}

} // verus!
