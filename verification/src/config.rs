//! Configuration of the server, the language model, the embedding model and the store.

use vstd::prelude::*;

use crate::text::{chars_of, decimal, decimal_string, push_all, push_char, string_from_chars};

verus! {

/// The whole configuration; each section falls back to its defaults.
#[derive(Debug, Clone)]
pub struct AppConfig {
    pub server: ServerConfig,
    pub llm: LlmConfig,
    pub embedding: EmbeddingConfig,
    pub store: StoreConfig,
}

/// Where the REST server listens.
#[derive(Debug, Clone)]
pub struct ServerConfig {
    pub port: u16,
    pub bind: String,
}

/// The language model used to extract and deduplicate facts.
#[derive(Debug, Clone)]
pub struct LlmConfig {
    pub provider: String,
    pub api_key: String,
    pub base_url: String,
    pub model: String,
}

/// The embedding model.
#[derive(Debug, Clone)]
pub struct EmbeddingConfig {
    pub provider: String,
    pub api_key: String,
    pub base_url: String,
    pub model: String,
    pub dimensions: usize,
}

/// Where the SQLite database lives.
#[derive(Debug, Clone)]
pub struct StoreConfig {
    pub db_path: String,
}

/// The default port of the REST server.
pub fn default_port() -> (p: u16)
    ensures
        p == 8019,
{
    8019
}

/// The default address the REST server binds to (localhost only).
pub fn default_bind() -> (s: String)
    ensures
        s@ == "127.0.0.1"@,
{
    "127.0.0.1".to_owned()
}

/// The default provider of both models.
pub fn default_provider() -> (s: String)
    ensures
        s@ == "openai"@,
{
    "openai".to_owned()
}

/// The default embedding model.
pub fn default_embed_model() -> (s: String)
    ensures
        s@ == "nomic-embed-text"@,
{
    "nomic-embed-text".to_owned()
}

/// The default number of dimensions of an embedding.
pub fn default_dimensions() -> (d: usize)
    ensures
        d == 768,
{
    768
}

/// The default path of the database file.
pub fn default_db_path() -> (s: String)
    ensures
        s@ == "rustmem.db"@,
{
    "rustmem.db".to_owned()
}

/// The default name of the configuration file.
pub fn default_config_file() -> (s: String)
    ensures
        s@ == "rustmem.toml"@,
{
    "rustmem.toml".to_owned()
}

impl Default for ServerConfig {
    fn default() -> (c: Self)
        ensures
            c.port == 8019,
            c.bind@ == "127.0.0.1"@,
    {
        ServerConfig { port: default_port(), bind: default_bind() }
    }
}

impl Default for LlmConfig {
    fn default() -> (c: Self)
        ensures
            c.provider@ == "openai"@,
            c.api_key@ == Seq::<char>::empty(),
            c.base_url@ == Seq::<char>::empty(),
            c.model@ == Seq::<char>::empty(),
    {
        LlmConfig {
            provider: default_provider(),
            api_key: String::new(),
            base_url: String::new(),
            model: String::new(),
        }
    }
}

impl Default for EmbeddingConfig {
    fn default() -> (c: Self)
        ensures
            c.provider@ == "openai"@,
            c.api_key@ == Seq::<char>::empty(),
            c.base_url@ == Seq::<char>::empty(),
            c.model@ == "nomic-embed-text"@,
            c.dimensions == 768,
    {
        EmbeddingConfig {
            provider: default_provider(),
            api_key: String::new(),
            base_url: String::new(),
            model: default_embed_model(),
            dimensions: default_dimensions(),
        }
    }
}

impl Default for StoreConfig {
    fn default() -> (c: Self)
        ensures
            c.db_path@ == "rustmem.db"@,
    {
        StoreConfig { db_path: default_db_path() }
    }
}

impl Default for AppConfig {
    fn default() -> (c: Self)
        ensures
            c.server.port == 8019,
            c.server.bind@ == "127.0.0.1"@,
            c.llm.provider@ == "openai"@,
            c.llm.api_key@ == Seq::<char>::empty(),
            c.llm.base_url@ == Seq::<char>::empty(),
            c.llm.model@ == Seq::<char>::empty(),
            c.embedding.provider@ == "openai"@,
            c.embedding.api_key@ == Seq::<char>::empty(),
            c.embedding.base_url@ == Seq::<char>::empty(),
            c.embedding.model@ == "nomic-embed-text"@,
            c.embedding.dimensions == 768,
            c.store.db_path@ == "rustmem.db"@,
    {
        AppConfig {
            server: ServerConfig::default(),
            llm: LlmConfig::default(),
            embedding: EmbeddingConfig::default(),
            store: StoreConfig::default(),
        }
    }
}

impl ServerConfig {
    /// The socket address to listen on: `bind:port`.
    pub fn listen_addr(&self) -> (r: String)
        ensures
            r@ == self.bind@ + seq![':'] + decimal(self.port as nat),
    {
        let mut out = chars_of(self.bind.as_str());
        out.push(':');
        let port = decimal_string(self.port as u128);
        push_all(&mut out, &chars_of(port.as_str()));
        string_from_chars(&out)
    }
}

/// The configuration file to read: the path given on the command line, else
/// the one named by the environment (`RUSTMEM_CONFIG`), else `rustmem.toml`.
pub fn resolve_path(cli_path: Option<&str>, env_path: Option<String>) -> (r: String)
    ensures
        cli_path matches Some(p) ==> r@ == p@,
        cli_path is None ==> (env_path matches Some(p) ==> r@ == p@),
        cli_path is None && env_path is None ==> r@ == "rustmem.toml"@,
{
    match cli_path {
        Some(p) => p.to_owned(),
        None => match env_path {
            Some(p) => p,
            None => default_config_file(),
        },
    }
}

/// Applies the bare `OPENAI_API_KEY`: when it is set, it becomes the key of
/// both the language model and the embedding model.
pub fn apply_openai_key(config: &mut AppConfig, key: Option<String>)
    ensures
        key matches Some(k) ==> final(config).llm.api_key@ == k@ && final(config).embedding.api_key@ == k@,
        key is None ==> final(config).llm.api_key == old(config).llm.api_key
            && final(config).embedding.api_key == old(config).embedding.api_key,
        final(config).server == old(config).server,
        final(config).store == old(config).store,
        final(config).llm.provider == old(config).llm.provider,
        final(config).llm.base_url == old(config).llm.base_url,
        final(config).llm.model == old(config).llm.model,
        final(config).embedding.provider == old(config).embedding.provider,
        final(config).embedding.base_url == old(config).embedding.base_url,
        final(config).embedding.model == old(config).embedding.model,
        final(config).embedding.dimensions == old(config).embedding.dimensions,
{
    if let Some(k) = key {
        config.llm.api_key = k.clone();
        config.embedding.api_key = k;
    }
}

} // verus!
