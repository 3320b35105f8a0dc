use crate::distributed_config::{DistributedConfig, SessionConfig};
use vstd::prelude::*;

verus! {

/// What turns a logical plan into a physical one.
#[derive(Debug)]
pub enum QueryPlanner {
    /// A planner of the user's own, by its handle.
    User(u64),
    /// The planner that distributes what the planner before it, or the default one, produces.
    Distributed { prev: Option<Box<QueryPlanner>> },
}

/// A session that is being set up.
#[derive(Debug)]
pub struct SessionStateBuilder {
    pub config: Option<SessionConfig>,
    pub query_planner: Option<QueryPlanner>,
}

/// Adds distribution to a session that is being set up.
pub trait SessionStateBuilderExt: Sized {
    /// Makes the session distribute the plans of the query planner that it has so far, so a planner
    /// of the user's own has to be set before.
    fn with_distributed_planner(self) -> Self;
}

/// The settings of a session that nothing has been set for.
pub fn default_session_config() -> (result: SessionConfig)
    ensures
        result.distributed is None,
        result.physical_uncorrelated_scalar_subqueries,
        result.dynamic_filter_pushdown,
        result.user_codecs@.len() == 0,
        result.passthrough_headers@.len() == 0,
{
    SessionConfig {
        distributed: None,
        physical_uncorrelated_scalar_subqueries: true,
        dynamic_filter_pushdown: true,
        user_codecs: Vec::new(),
        passthrough_headers: Vec::new(),
    }
}

impl SessionStateBuilderExt for SessionStateBuilder {
    fn with_distributed_planner(self) -> (result: SessionStateBuilder)
        ensures
            result.query_planner == Some(
                QueryPlanner::Distributed {
                    prev: match self.query_planner {
                        Some(planner) => Some(Box::new(planner)),
                        None => None,
                    },
                },
            ),
            result.config matches Some(config) && config.distributed is Some
                && !config.physical_uncorrelated_scalar_subqueries,
            self.config matches Some(config) ==> result.config == Some(
                SessionConfig {
                    distributed: match config.distributed {
                        Some(distributed) => Some(distributed),
                        None => result.config->Some_0.distributed,
                    },
                    physical_uncorrelated_scalar_subqueries: false,
                    ..config
                },
            ),
            self.config is None ==> (result.config matches Some(config)
                && config.dynamic_filter_pushdown && config.user_codecs@.len() == 0
                && config.passthrough_headers@.len() == 0),
            (self.config is None || self.config->Some_0.distributed is None)
                ==> DistributedConfig::default.ensures(
                (),
                result.config->Some_0.distributed->Some_0,
            ),
    {
        let mut config = match self.config {
            Some(config) => config,
            None => default_session_config(),
        };
        DistributedConfig::ensure_in_config(&mut config);
        config.physical_uncorrelated_scalar_subqueries = false;
        let prev = match self.query_planner {
            Some(planner) => Some(Box::new(planner)),
            None => None,
        };
        SessionStateBuilder {
            config: Some(config),
            query_planner: Some(QueryPlanner::Distributed { prev }),
        }
    }
}

} // verus!
