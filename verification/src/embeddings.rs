//! Embedding service configuration: providers, the service chosen for a
//! configuration, vector dimension checks and the text sent for embedding.

use vstd::prelude::*;
use crate::text::{byte_len, chars_of, push_digits, push_str, string_from_chars};

verus! {

/// Embedding providers.
#[derive(Debug, Clone, Copy, PartialEq, Eq, Structural)]
pub enum EmbeddingProvider {
    OpenAI,
    Local,
    Ollama,
    Mock,
}

/// Configuration of an embedding service.
#[derive(Debug)]
pub struct EmbeddingConfig {
    pub provider: EmbeddingProvider,
    pub model: String,
    pub api_key: Option<String>,
    pub base_url: Option<String>,
    /// Longest text embedded, in bytes; longer text is cut.
    pub max_text_length: usize,
    /// Dimensions of the embedding vectors.
    pub dimensions: usize,
}

impl Default for EmbeddingConfig {
    fn default() -> (c: EmbeddingConfig)
        ensures
            c.provider == EmbeddingProvider::OpenAI,
            c.model@ == "text-embedding-3-small"@,
            c.api_key is None,
            c.base_url is None,
            c.max_text_length == 8192,
            c.dimensions == 1536,
    {
        EmbeddingConfig {
            provider: EmbeddingProvider::OpenAI,
            model: "text-embedding-3-small".to_string(),
            api_key: None,
            base_url: None,
            max_text_length: 8192,
            dimensions: 1536,
        }
    }
}

/// Similarity metrics.
#[derive(Debug, Clone, Copy, PartialEq, Eq, Structural)]
pub enum SimilarityMetric {
    Cosine,
    Euclidean,
    DotProduct,
}

/// The local embedding service.
#[derive(Debug)]
pub struct LocalEmbeddingService {
    pub config: EmbeddingConfig,
}

impl LocalEmbeddingService {
    /// Creates the service with its configuration.
    pub fn new(config: EmbeddingConfig) -> (s: LocalEmbeddingService)
        ensures
            s.config == config,
    {
        LocalEmbeddingService { config }
    }

    /// The dimensions of its vectors.
    pub fn dimensions(&self) -> (n: usize)
        ensures
            n == self.config.dimensions,
    {
        self.config.dimensions
    }

    /// The longest text it embeds.
    pub fn max_text_length(&self) -> (n: usize)
        ensures
            n == self.config.max_text_length,
    {
        self.config.max_text_length
    }
}

/// The mock embedding service used in tests.
#[derive(Debug)]
pub struct MockEmbeddingService {
    pub config: EmbeddingConfig,
}

impl MockEmbeddingService {
    /// Creates the service with its configuration.
    pub fn new(config: EmbeddingConfig) -> (s: MockEmbeddingService)
        ensures
            s.config == config,
    {
        MockEmbeddingService { config }
    }

    /// The dimensions of its vectors.
    pub fn dimensions(&self) -> (n: usize)
        ensures
            n == self.config.dimensions,
    {
        self.config.dimensions
    }

    /// The longest text it embeds.
    pub fn max_text_length(&self) -> (n: usize)
        ensures
            n == self.config.max_text_length,
    {
        self.config.max_text_length
    }
}

/// Creates embedding services from configurations.
pub struct EmbeddingServiceFactory;

impl EmbeddingServiceFactory {
    /// The kind of service built for a configuration: OpenAI (which needs
    /// an API key), local, or the mock service (also used for Ollama).
    pub fn service_provider(config: &EmbeddingConfig) -> (r: Result<EmbeddingProvider, String>)
        ensures
            match config.provider {
                EmbeddingProvider::OpenAI => if config.api_key is Some {
                    r == Ok::<EmbeddingProvider, String>(EmbeddingProvider::OpenAI)
                } else {
                    r is Err && r->Err_0@ == "OpenAI API key is required"@
                },
                EmbeddingProvider::Local => r == Ok::<EmbeddingProvider, String>(EmbeddingProvider::Local),
                _ => r == Ok::<EmbeddingProvider, String>(EmbeddingProvider::Mock),
            },
    {
        match config.provider {
            EmbeddingProvider::OpenAI => {
                if config.api_key.is_some() {
                    Ok(EmbeddingProvider::OpenAI)
                } else {
                    Err("OpenAI API key is required".to_string())
                }
            },
            EmbeddingProvider::Local => Ok(EmbeddingProvider::Local),
            EmbeddingProvider::Ollama => Ok(EmbeddingProvider::Mock),
            EmbeddingProvider::Mock => Ok(EmbeddingProvider::Mock),
        }
    }
}

/// Vector similarity helpers.
pub struct VectorSimilarity;

impl VectorSimilarity {
    /// Two vectors can be compared only when their dimensions agree.
    pub fn check_dimensions(a_len: usize, b_len: usize) -> (r: Result<(), String>)
        ensures
            a_len == b_len <==> r is Ok,
            r is Err ==> r->Err_0@ == "Vector dimensions don't match: "@ + crate::text::decimal(a_len as nat)
                + " vs "@ + crate::text::decimal(b_len as nat),
    {
        if a_len == b_len {
            Ok(())
        } else {
            let mut out: Vec<char> = Vec::new();
            push_str(&mut out, "Vector dimensions don't match: ");
            push_digits(a_len as u128, 10, &mut out);
            push_str(&mut out, " vs ");
            push_digits(b_len as u128, 10, &mut out);
            Err(string_from_chars(out.as_slice()))
        }
    }
}

/// The text sent for embedding: when it is longer than `max_len` bytes,
/// its first `max_len` characters.
pub open spec fn embedding_text(s: Seq<char>, max_len: nat) -> Seq<char> {
    if byte_len(s) > max_len {
        s.subrange(0, if max_len < s.len() { max_len as int } else { s.len() as int })
    } else {
        s
    }
}

/// Cuts a text that is too long for the embedding service.
pub fn embedding_input(text: &str, max_len: usize) -> (r: String)
    ensures
        r@ == embedding_text(text@, max_len as nat),
{
    if text.as_bytes().len() > max_len {
        let v = chars_of(text);
        let n = if max_len < v.len() {
            max_len
        } else {
            v.len()
        };
        let mut out: Vec<char> = Vec::new();
        let mut i: usize = 0;
        while i < n
            invariant
                v@ == text@,
                n <= v@.len(),
                i <= n,
                out@ == v@.subrange(0, i as int),
            decreases n - i,
        {
            out.push(v[i]);
            assert(out@ =~= v@.subrange(0, i + 1));
            i = i + 1;
        }
        string_from_chars(out.as_slice())
    } else {
        text.to_string()
    }
}

} // verus!
