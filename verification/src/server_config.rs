//! Settings of the semantic search server: where the embedding models are
//! cached, which model embeds, and which vector store collection is queried.
use vstd::prelude::*;

verus! {

/// The settings of the search server; each one may be left unset.
#[derive(Clone, Debug)]
pub struct Config {
    /// Print the effective configuration and exit.
    pub dump_config: Option<bool>,
    /// Where the embedding models are cached.
    pub fastembed_cache: Option<std::path::PathBuf>,
    /// The embedding model, by identifier or by code.
    pub embed_model: Option<String>,
    /// The address of the vector store.
    pub qdrant_url: Option<String>,
    /// The collection queried in the vector store.
    pub collection: Option<String>,
}

/// `dirs::cache_dir`: the user's cache directory, where the platform has one.
/// It depends on the environment, so nothing is claimed of it.
#[verifier::external_body]
fn user_cache_dir() -> (r: Option<std::path::PathBuf>) {
    dirs::cache_dir()
}

/// `Path::join`: the path with one more component. Nothing is claimed of the
/// joined path, which Verus sees as opaque.
#[verifier::external_body]
fn join_path(base: &std::path::PathBuf, part: &str) -> (r: std::path::PathBuf) {
    base.join(part)
}

impl Config {
    /// Whether the settings ask for the effective configuration to be printed.
    pub fn dumps_config(&self) -> (r: bool)
        ensures
            r == (self.dump_config == Some(true)),
    {
        match self.dump_config {
            Some(b) => b,
            None => false,
        }
    }

    /// The settings as they are printed: the same, without the request to
    /// print them.
    pub fn printable(&self) -> (r: Self)
        ensures
            r.dump_config.is_none(),
            r.fastembed_cache.is_some() == self.fastembed_cache.is_some(),
            r.embed_model.deep_view() == self.embed_model.deep_view(),
            r.qdrant_url.deep_view() == self.qdrant_url.deep_view(),
            r.collection.deep_view() == self.collection.deep_view(),
    {
        Config {
            dump_config: None,
            fastembed_cache: match &self.fastembed_cache {
                Some(p) => Some(p.clone()),
                None => None,
            },
            embed_model: copy_text(&self.embed_model),
            qdrant_url: copy_text(&self.qdrant_url),
            collection: copy_text(&self.collection),
        }
    }
}

fn copy_text(s: &Option<String>) -> (r: Option<String>)
    ensures
        r.deep_view() == s.deep_view(),
{
    match s {
        Some(t) => Some(t.clone()),
        None => None,
    }
}

impl Default for Config {
    /// The collection "myproject" on a local vector store, no model chosen,
    /// and the models cached under "fastembed" in the user's cache directory
    /// where there is one.
    fn default() -> (r: Self)
        ensures
            r.dump_config.is_none(),
            r.embed_model.is_none(),
            r.collection.deep_view() == Some("myproject"@),
            r.qdrant_url.deep_view() == Some("http://localhost:6334"@),
    {
        let fastembed_cache = match user_cache_dir() {
            Some(d) => Some(join_path(&d, "fastembed")),
            None => None,
        };
        Config {
            dump_config: None,
            collection: Some("myproject".to_owned()),
            qdrant_url: Some("http://localhost:6334".to_owned()),
            embed_model: None,
            fastembed_cache,
        }
    }
}

} // verus!
