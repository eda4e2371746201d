//! The completion client: it owns the configuration for one generation
//! endpoint and builds the payload of each request. The transport that
//! carries the request is a collaborator outside this crate; the decisions
//! about what to send and how to read the stream live here, in
//! [`crate::request`] and [`crate::stream`].

use vstd::prelude::*;
use vstd::string::StringSliceAdditionalSpecFns;
use crate::request::{spec_request_body, GenerationRequest};

verus! {

/// The endpoint generation requests are posted to: the configured base
/// address followed by the protocol's fixed path.
pub open spec fn spec_generate_endpoint(base: Seq<u8>) -> Seq<u8> {
    base + "/api/generate".spec_bytes()
}

/// Why a configuration was rejected at construction.
#[derive(Debug, Clone, Copy, PartialEq, Eq, Structural)]
pub enum ConfigError {
    /// The default model identifier is empty.
    EmptyModel,
    /// The server base address is empty.
    EmptyApiBase,
}

/// Where the generation server listens and which model to ask by default.
/// Supplied at construction; nothing is defaulted globally.
pub struct OllamaConfig {
    pub api_base: Vec<u8>,
    pub default_model: Vec<u8>,
}

/// A client for one generation endpoint.
pub struct OllamaClient {
    config: OllamaConfig,
}

impl OllamaClient {
    /// The configured server base address.
    pub closed spec fn api_base(self) -> Seq<u8> {
        self.config.api_base@
    }

    /// The configured default model identifier.
    pub closed spec fn default_model(self) -> Seq<u8> {
        self.config.default_model@
    }

    /// Every constructed client has a non-empty model identifier and a
    /// non-empty base address.
    pub closed spec fn wf(self) -> bool {
        self.config.default_model@.len() > 0 && self.config.api_base@.len() > 0
    }

    /// Accept a configuration whose model identifier and base address are
    /// both non-empty; reject anything else, naming the first empty part.
    pub fn new(config: OllamaConfig) -> (r: Result<OllamaClient, ConfigError>)
        ensures
            config.default_model@.len() == 0 ==> r == Err::<OllamaClient, ConfigError>(
                ConfigError::EmptyModel,
            ),
            config.default_model@.len() > 0 && config.api_base@.len() == 0 ==> r == Err::<
                OllamaClient,
                ConfigError,
            >(ConfigError::EmptyApiBase),
            config.default_model@.len() > 0 && config.api_base@.len() > 0 ==> (r matches Ok(c)
                && c.default_model() == config.default_model@ && c.api_base()
                == config.api_base@ && c.wf()),
    {
        if config.default_model.len() == 0 {
            Err(ConfigError::EmptyModel)
        } else if config.api_base.len() == 0 {
            Err(ConfigError::EmptyApiBase)
        } else {
            Ok(OllamaClient { config })
        }
    }

    /// A reading of the configured base address, for the transport.
    pub fn api_base_bytes(&self) -> (r: &Vec<u8>)
        ensures
            r@ == self.api_base(),
    {
        &self.config.api_base
    }

    /// The full URL bytes for a generation request against this client's
    /// server.
    pub fn generate_endpoint(&self) -> (r: Vec<u8>)
        ensures
            r@ == spec_generate_endpoint(self.api_base()),
    {
        let mut out: Vec<u8> = Vec::new();
        crate::stream::append_bytes(&mut out, self.config.api_base.as_slice());
        crate::stream::append_bytes(&mut out, "/api/generate".as_bytes());
        proof {
            assert((Seq::<u8>::empty() + self.config.api_base@) + "/api/generate".spec_bytes()
                =~= spec_generate_endpoint(self.api_base()));
        }
        out
    }

    /// The JSON payload asking the configured model to complete `prompt`.
    /// The prompt may be empty; it is not rejected.
    pub fn request_body(&self, prompt: &[u8]) -> (r: Vec<u8>)
        requires
            self.wf(),
        ensures
            r@ == spec_request_body(self.default_model(), prompt@),
    {
        let mut model: Vec<u8> = Vec::new();
        crate::stream::append_bytes(&mut model, self.config.default_model.as_slice());
        let mut p: Vec<u8> = Vec::new();
        crate::stream::append_bytes(&mut p, prompt);
        proof {
            assert(Seq::<u8>::empty() + self.config.default_model@ =~= self.config
                .default_model@);
            assert(Seq::<u8>::empty() + prompt@ =~= prompt@);
        }
        let req = GenerationRequest::new(model, p);
        req.encode()
    }
}

} // verus!
