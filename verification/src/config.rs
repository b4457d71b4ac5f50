//! Configuration consumed by the core: delivery identity, batching bounds,
//! queue capacities, endpoint and timeout, with validation and defaults.

use vstd::prelude::*;
use vstd::string::StrSliceExecFns;
use crate::strutil::{ascii_lowercase, lower_seq};

verus! {

/// Environment-derived settings. Loading them from the process environment
/// is the caller's business; the core only validates and consumes them.
#[derive(Clone)]
pub struct EnvConfig {
    pub moesif_application_id: String,
    pub user_id_header: Option<String>,
    pub company_id_header: Option<String>,
    pub batch_max_size: usize,
    pub batch_max_wait: u64,
    pub queue_max_size: usize,
    pub grpc_processing_queue_size: usize,
    pub base_uri: String,
    pub debug: bool,
    pub connection_timeout: u64,
    pub rust_log: Option<String>,
}

/// The full configuration handed to the service.
#[derive(Clone)]
pub struct Config {
    pub env: EnvConfig,
}

/// The conditions a usable configuration must meet.
pub open spec fn config_valid(c: EnvConfig) -> bool {
    &&& c.moesif_application_id@.len() > 0
    &&& c.batch_max_size > 0
    &&& c.batch_max_wait > 0
    &&& c.queue_max_size > 0
    &&& c.grpc_processing_queue_size > 0
    &&& c.connection_timeout > 0
    &&& c.base_uri@.len() > 0
}

impl Default for EnvConfig {
    /// The defaults used when the environment supplies nothing.
    fn default() -> (r: EnvConfig)
        ensures
            r.moesif_application_id@.len() == 0,
            r.user_id_header is None,
            r.company_id_header is None,
            r.batch_max_size == 100,
            r.batch_max_wait == 2000,
            r.queue_max_size == 10000,
            r.grpc_processing_queue_size == 4,
            r.base_uri@ == "https://api.moesif.net"@,
            !r.debug,
            r.connection_timeout == 5000,
            r.rust_log is None,
    {
        EnvConfig {
            moesif_application_id: String::new(),
            user_id_header: None,
            company_id_header: None,
            batch_max_size: 100,
            batch_max_wait: 2000,
            queue_max_size: 10000,
            grpc_processing_queue_size: 4,
            base_uri: "https://api.moesif.net".to_owned(),
            debug: false,
            connection_timeout: 5000,
            rust_log: None,
        }
    }
}

impl EnvConfig {
    /// Checks the configuration, reporting the first violated condition.
    pub fn validate(&self) -> (r: Result<(), String>)
        ensures
            r is Ok <==> config_valid(*self),
            r matches Err(e) ==> e@ == (if self.moesif_application_id@.len() == 0 {
                "moesif_application_id cannot be empty."@
            } else if self.batch_max_size == 0 {
                "batch_max_size cannot be zero."@
            } else if self.batch_max_wait == 0 {
                "batch_max_wait cannot be zero."@
            } else if self.queue_max_size == 0 {
                "queue_max_size cannot be zero."@
            } else if self.grpc_processing_queue_size == 0 {
                "grpc_processing_queue_size cannot be zero."@
            } else if self.connection_timeout == 0 {
                "connection_timeout cannot be zero."@
            } else {
                "base_uri cannot be empty."@
            }),
    {
        if self.moesif_application_id.as_str().unicode_len() == 0 {
            return Err("moesif_application_id cannot be empty.".to_owned());
        }
        if self.batch_max_size == 0 {
            return Err("batch_max_size cannot be zero.".to_owned());
        }
        if self.batch_max_wait == 0 {
            return Err("batch_max_wait cannot be zero.".to_owned());
        }
        if self.queue_max_size == 0 {
            return Err("queue_max_size cannot be zero.".to_owned());
        }
        if self.grpc_processing_queue_size == 0 {
            return Err("grpc_processing_queue_size cannot be zero.".to_owned());
        }
        if self.connection_timeout == 0 {
            return Err("connection_timeout cannot be zero.".to_owned());
        }
        if self.base_uri.as_str().unicode_len() == 0 {
            return Err("base_uri cannot be empty.".to_owned());
        }
        Ok(())
    }

    /// Lower-cases the configured identity header names, as lookups in the
    /// normalized header map expect.
    pub fn post_process(&mut self)
        ensures
            final(self).user_id_header matches Some(s) ==> (old(self).user_id_header matches Some(
                o,
            ) && s@ == lower_seq(o@)),
            final(self).user_id_header is None <==> old(self).user_id_header is None,
            final(self).company_id_header matches Some(s) ==> (old(
                self,
            ).company_id_header matches Some(o) && s@ == lower_seq(o@)),
            final(self).company_id_header is None <==> old(self).company_id_header is None,
            final(self).moesif_application_id == old(self).moesif_application_id,
            final(self).batch_max_size == old(self).batch_max_size,
            final(self).batch_max_wait == old(self).batch_max_wait,
            final(self).queue_max_size == old(self).queue_max_size,
            final(self).grpc_processing_queue_size == old(self).grpc_processing_queue_size,
            final(self).base_uri == old(self).base_uri,
            final(self).debug == old(self).debug,
            final(self).connection_timeout == old(self).connection_timeout,
            final(self).rust_log == old(self).rust_log,
    {
        let lowered_user = match &self.user_id_header {
            Some(h) => Some(ascii_lowercase(h.as_str())),
            None => None,
        };
        self.user_id_header = lowered_user;
        let lowered_company = match &self.company_id_header {
            Some(h) => Some(ascii_lowercase(h.as_str())),
            None => None,
        };
        self.company_id_header = lowered_company;
    }
}

/// Remote configuration as the collector describes it; reserved for a
/// dynamic-reconfiguration path the core does not consume yet.
pub struct AppConfigResponse {
    pub org_id: String,
    pub app_id: String,
    pub sample_rate: i32,
    pub block_bot_traffic: bool,
    pub user_sample_rate: Vec<(String, i32)>,
    pub company_sample_rate: Vec<(String, i32)>,
    pub user_rules: Vec<(String, Vec<EntityRuleValues>)>,
    pub company_rules: Vec<(String, Vec<EntityRuleValues>)>,
    pub ip_addresses_blocked_by_name: Vec<(String, String)>,
    pub regex_config: Vec<RegexRule>,
    pub billing_config_jsons: Vec<(String, String)>,
    pub e_tag: Option<String>,
}

pub struct EntityRuleValues {
    pub rules: String,
    pub values: Option<Vec<(String, String)>>,
}

pub struct RegexRule {
    pub conditions: Vec<RegexCondition>,
    pub sample_rate: i32,
}

pub struct RegexCondition {
    pub path: String,
    pub value: String,
}

} // verus!
