//! The broker client: configuration, authentication headers and endpoint
//! URLs. The transport itself is outside the library; these functions pin
//! down exactly what every request carries.
use vstd::prelude::*;
use vstd::string::StringExecFns;

verus! {

/// Endpoint and access token of one broker, as the configuration file holds
/// them.
pub struct FiwareClientConfig {
    pub endpoint: String,
    pub token: String,
}

/// A configuration document: the platform label and the client settings.
pub struct FiwareConfig {
    pub platform: String,
    pub config: FiwareClientConfig,
}

/// A handle on one broker: where to reach it, how to authenticate, and the
/// optional tenant scope. Immutable once built.
pub struct Client {
    pub endpoint: String,
    pub token: String,
    pub service: Option<String>,
}

impl Client {
    /// Builds a client from a configuration document and an optional
    /// tenant service name.
    pub fn new(config: FiwareConfig, service: Option<String>) -> (c: Client)
        ensures
            c.endpoint == config.config.endpoint,
            c.token == config.config.token,
            c.service == service,
    {
        Client { endpoint: config.config.endpoint, token: config.config.token, service }
    }

    /// The headers every request carries: the auth token, and the tenant
    /// scope when one is configured.
    pub fn headers(&self) -> (h: Vec<(String, String)>)
        ensures
            h@.len() == (match self.service {
                Option::Some(_) => 2int,
                Option::None => 1int,
            }),
            h@[0].0@ == "X-Auth-Token"@,
            h@[0].1@ == self.token@,
            self.service matches Option::Some(s) ==> h@[1].0@ == "Fiware-Service"@
                && h@[1].1@ == s@,
    {
        let mut h: Vec<(String, String)> = Vec::new();
        h.push((String::from_str("X-Auth-Token"), self.token.clone()));
        match &self.service {
            Option::Some(s) => {
                h.push((String::from_str("Fiware-Service"), s.clone()));
            },
            Option::None => {},
        }
        h
    }

    /// The URL of the entity collection.
    pub fn entities_url(&self) -> (u: String)
        ensures
            u@ == self.endpoint@ + "/entities"@,
    {
        let mut u = self.endpoint.clone();
        u.append("/entities");
        u
    }

    /// The URL of one entity, by its identifier.
    pub fn entity_url(&self, urn: &String) -> (u: String)
        ensures
            u@ == self.endpoint@ + "/entities/"@ + urn@,
    {
        let mut u = self.endpoint.clone();
        u.append("/entities/");
        u.append(urn.as_str());
        u
    }

    /// The URL of the batch operation endpoint; `key_values` asks the broker
    /// for the simplified attribute encoding and is the only thing that ever
    /// adds a query string here.
    pub fn bulk_url(&self, key_values: bool) -> (u: String)
        ensures
            u@ == bulk_url_text(self.endpoint@, key_values),
    {
        let mut u = self.endpoint.clone();
        u.append("/op/update");
        if key_values {
            u.append("?options=keyValues");
        }
        u
    }
}

/// The batch endpoint URL: the `?options=keyValues` suffix appears exactly
/// when the simplified encoding is requested.
pub open spec fn bulk_url_text(endpoint: Seq<char>, key_values: bool) -> Seq<char> {
    if key_values {
        endpoint + "/op/update"@ + "?options=keyValues"@
    } else {
        endpoint + "/op/update"@
    }
}

} // verus!
