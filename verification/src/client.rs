//! The client configuration: a language code and the two upstream base
//! URLs, built once through [`ClientBuilder`] and immutable afterwards.

use vstd::prelude::*;
use vstd::string::*;

verus! {

/// A builder used for constructing a [`Client`]. Constructed using
/// [`ClientBuilder::new`].
pub struct ClientBuilder {
    pub language: Option<String>,
}

/// A client holding the configuration for requests against the upstream
/// API: the language code and the base URLs. Constructed using a
/// [`ClientBuilder`].
pub struct Client {
    pub language: String,
    pub base_url: String,
    pub stats_base_url: String,
}

impl ClientBuilder {
    /// Creates a new [`ClientBuilder`] with no language set.
    pub fn new() -> (r: Self)
        ensures
            r.language is None,
    {
        ClientBuilder { language: None }
    }

    /// Sets the language code for the client.
    pub fn language(self, language: String) -> (r: Self)
        ensures
            r.language == Some(language),
    {
        ClientBuilder { language: Some(language) }
    }

    /// Builds the [`Client`]. This consumes the builder. The language
    /// defaults to "en"; the base URLs are fixed.
    pub fn build(self) -> (r: Client)
        ensures
            r.language@ == (match self.language {
                Some(l) => l@,
                None => "en"@,
            }),
            r.base_url@ == "https://api-web.nhle.com"@,
            r.stats_base_url@ == "https://api.nhle.com/stats/rest"@,
    {
        let language = match self.language {
            Some(l) => l,
            None => String::from_str("en"),
        };
        Client {
            language,
            base_url: String::from_str("https://api-web.nhle.com"),
            stats_base_url: String::from_str("https://api.nhle.com/stats/rest"),
        }
    }
}

/// The URL of a language-scoped resource: `{base}/{language}/{resource}`.
pub open spec fn spec_resource_url(base: Seq<char>, language: Seq<char>, resource: Seq<char>)
    -> Seq<char> {
    base + "/"@ + language + "/"@ + resource
}

impl Client {
    /// The URL for one language-scoped resource of the statistics API.
    pub fn resource_url(&self, resource: &str) -> (r: String)
        ensures
            r@ == spec_resource_url(self.stats_base_url@, self.language@, resource@),
    {
        let mut u = self.stats_base_url.clone();
        u.append("/");
        u.append(self.language.as_str());
        u.append("/");
        u.append(resource);
        u
    }

    /// The URL of the health-check endpoint, which is not language-scoped.
    pub fn ping_url(&self) -> (r: String)
        ensures
            r@ == self.stats_base_url@ + "/ping"@,
    {
        let mut u = self.stats_base_url.clone();
        u.append("/ping");
        u
    }
}

} // verus!
