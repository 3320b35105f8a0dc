use crate::codec::DistributedCodec;
use crate::distributed_config::{DistributedConfig, SessionConfig};
use crate::error::{DistributedError, DistributedErrorView, ErrorKind};
use vstd::prelude::*;

verus! {

/// The compressions that can be chosen for what is sent between workers.
#[derive(Clone, Copy, PartialEq, Eq, Debug, Structural)]
pub enum CompressionType {
    Lz4Frame,
    Zstd,
}

/// The name under which the settings hold a compression.
pub open spec fn compression_name(compression: Option<CompressionType>) -> Seq<char> {
    match compression {
        Some(CompressionType::Zstd) => "zstd"@,
        Some(CompressionType::Lz4Frame) => "lz4"@,
        None => "none"@,
    }
}

/// The prefix of the headers that carry settings to workers.
pub open spec fn reserved_prefix() -> Seq<char> {
    "x-datafusion-distributed-config-"@
}

/// Whether a text begins with another.
pub open spec fn begins_with(text: Seq<char>, prefix: Seq<char>) -> bool {
    prefix.len() <= text.len() && text.take(prefix.len() as int) == prefix
}

pub(crate) fn is_prefix(text: &str, prefix: &str) -> (result: bool)
    ensures
        result == begins_with(text@, prefix@),
{
    let len: usize = prefix.unicode_len();
    if len > text.unicode_len() {
        return false;
    }
    let mut i: usize = 0;
    while i < len
        invariant
            0 <= i <= len,
            len == prefix@.len(),
            len <= text@.len(),
            forall|j: int| 0 <= j < i ==> text@[j] == prefix@[j],
        decreases len - i,
    {
        if text.get_char(i) != prefix.get_char(i) {
            proof {
                assert(text@.take(len as int)[i as int] != prefix@[i as int]);
            }
            return false;
        }
        i += 1;
    }
    proof {
        assert(text@.take(len as int) =~= prefix@);
    }
    true
}

/// Whether one of the headers has a name that is kept for settings.
pub open spec fn has_reserved_header(headers: Seq<(String, String)>) -> bool {
    exists|i: int|
        0 <= i < headers.len() && begins_with((#[trigger] headers[i]).0@, reserved_prefix())
}

/// Whether the error refuses the first header of the list whose name is reserved.
pub open spec fn names_first_reserved(
    headers: Seq<(String, String)>,
    error: DistributedErrorView,
) -> bool {
    exists|i: int|
        0 <= i < headers.len() && begins_with((#[trigger] headers[i]).0@, reserved_prefix()) && (
        forall|j: int|
            0 <= j < i ==> !begins_with((#[trigger] headers[j]).0@, reserved_prefix())) && error
            == ErrorKind::ReservedHeader.about(headers[i].0@)
}

impl SessionConfig {
    /// Whether `after` is this session with other settings for distribution.
    pub open spec fn differs_in(self, after: SessionConfig, distributed: DistributedConfig) -> bool {
        after == (SessionConfig { distributed: Some(distributed), ..self })
    }

    /// Sets how many bytes each partition of a file scan is expected to read.
    pub fn set_distributed_file_scan_config_bytes_per_partition(&mut self, bytes_per_partition: usize) -> (result: Result<
        (),
        DistributedError,
    >)
        ensures
            match old(self).distributed {
                Some(distributed) => result is Ok && old(self).differs_in(
                    *final(self),
                    (DistributedConfig { file_scan_config_bytes_per_partition: bytes_per_partition, ..distributed }),
                ),
                None => *final(self) == *old(self) && (result matches Err(error) && error@
                    == ErrorKind::MissingDistributedConfig.plain()),
            },
    {
        match &mut self.distributed {
            Some(distributed) => {
                distributed.file_scan_config_bytes_per_partition = bytes_per_partition;
                Ok(())
            },
            None => Err(DistributedError::new(ErrorKind::MissingDistributedConfig)),
        }
    }

    /// Sets the factor by which task counts follow the cardinality of the data, as the bit
    /// pattern of a double.
    pub fn set_distributed_cardinality_effect_task_scale_factor(&mut self, factor_bits: u64) -> (result: Result<
        (),
        DistributedError,
    >)
        ensures
            match old(self).distributed {
                Some(distributed) => result is Ok && old(self).differs_in(
                    *final(self),
                    (DistributedConfig { cardinality_task_count_factor_bits: factor_bits, ..distributed }),
                ),
                None => *final(self) == *old(self) && (result matches Err(error) && error@
                    == ErrorKind::MissingDistributedConfig.plain()),
            },
    {
        match &mut self.distributed {
            Some(distributed) => {
                distributed.cardinality_task_count_factor_bits = factor_bits;
                Ok(())
            },
            None => Err(DistributedError::new(ErrorKind::MissingDistributedConfig)),
        }
    }

    /// Sets whether metrics are gathered across network boundaries.
    pub fn set_distributed_metrics_collection(&mut self, enabled: bool) -> (result: Result<
        (),
        DistributedError,
    >)
        ensures
            match old(self).distributed {
                Some(distributed) => result is Ok && old(self).differs_in(
                    *final(self),
                    (DistributedConfig { collect_metrics: enabled, ..distributed }),
                ),
                None => *final(self) == *old(self) && (result matches Err(error) && error@
                    == ErrorKind::MissingDistributedConfig.plain()),
            },
    {
        match &mut self.distributed {
            Some(distributed) => {
                distributed.collect_metrics = enabled;
                Ok(())
            },
            None => Err(DistributedError::new(ErrorKind::MissingDistributedConfig)),
        }
    }

    /// Sets whether the children of unions run in tasks of their own.
    pub fn set_distributed_children_isolator_unions(&mut self, enabled: bool) -> (result: Result<
        (),
        DistributedError,
    >)
        ensures
            match old(self).distributed {
                Some(distributed) => result is Ok && old(self).differs_in(
                    *final(self),
                    (DistributedConfig { children_isolator_unions: enabled, ..distributed }),
                ),
                None => *final(self) == *old(self) && (result matches Err(error) && error@
                    == ErrorKind::MissingDistributedConfig.plain()),
            },
    {
        match &mut self.distributed {
            Some(distributed) => {
                distributed.children_isolator_unions = enabled;
                Ok(())
            },
            None => Err(DistributedError::new(ErrorKind::MissingDistributedConfig)),
        }
    }

    /// Sets whether the build sides of collecting joins are broadcast.
    pub fn set_distributed_broadcast_joins(&mut self, enabled: bool) -> (result: Result<
        (),
        DistributedError,
    >)
        ensures
            match old(self).distributed {
                Some(distributed) => result is Ok && old(self).differs_in(
                    *final(self),
                    (DistributedConfig { broadcast_joins: enabled, ..distributed }),
                ),
                None => *final(self) == *old(self) && (result matches Err(error) && error@
                    == ErrorKind::MissingDistributedConfig.plain()),
            },
    {
        match &mut self.distributed {
            Some(distributed) => {
                distributed.broadcast_joins = enabled;
                Ok(())
            },
            None => Err(DistributedError::new(ErrorKind::MissingDistributedConfig)),
        }
    }

    /// Sets the batch size of worker stages. Zero leaves the batch size of the session in force.
    pub fn set_distributed_shuffle_batch_size(&mut self, batch_size: usize) -> (result: Result<
        (),
        DistributedError,
    >)
        ensures
            match old(self).distributed {
                Some(distributed) => result is Ok && old(self).differs_in(
                    *final(self),
                    (DistributedConfig { shuffle_batch_size: batch_size, ..distributed }),
                ),
                None => *final(self) == *old(self) && (result matches Err(error) && error@
                    == ErrorKind::MissingDistributedConfig.plain()),
            },
    {
        match &mut self.distributed {
            Some(distributed) => {
                distributed.shuffle_batch_size = batch_size;
                Ok(())
            },
            None => Err(DistributedError::new(ErrorKind::MissingDistributedConfig)),
        }
    }

    /// Sets how many tasks a stage may have. Zero stands for the number of workers.
    pub fn set_distributed_max_tasks_per_stage(&mut self, max_tasks_per_stage: usize) -> (result: Result<
        (),
        DistributedError,
    >)
        ensures
            match old(self).distributed {
                Some(distributed) => result is Ok && old(self).differs_in(
                    *final(self),
                    (DistributedConfig { max_tasks_per_stage: max_tasks_per_stage, ..distributed }),
                ),
                None => *final(self) == *old(self) && (result matches Err(error) && error@
                    == ErrorKind::MissingDistributedConfig.plain()),
            },
    {
        match &mut self.distributed {
            Some(distributed) => {
                distributed.max_tasks_per_stage = max_tasks_per_stage;
                Ok(())
            },
            None => Err(DistributedError::new(ErrorKind::MissingDistributedConfig)),
        }
    }

    /// Sets whether partial aggregates are merged before they are shuffled.
    pub fn set_distributed_partial_reduce(&mut self, enabled: bool) -> (result: Result<
        (),
        DistributedError,
    >)
        ensures
            match old(self).distributed {
                Some(distributed) => result is Ok && old(self).differs_in(
                    *final(self),
                    (DistributedConfig { partial_reduce: enabled, ..distributed }),
                ),
                None => *final(self) == *old(self) && (result matches Err(error) && error@
                    == ErrorKind::MissingDistributedConfig.plain()),
            },
    {
        match &mut self.distributed {
            Some(distributed) => {
                distributed.partial_reduce = enabled;
                Ok(())
            },
            None => Err(DistributedError::new(ErrorKind::MissingDistributedConfig)),
        }
    }

    /// Sets how many bytes a worker connection buffers before it pauses.
    pub fn set_distributed_worker_connection_buffer_budget_bytes(&mut self, budget_bytes: usize) -> (result: Result<
        (),
        DistributedError,
    >)
        ensures
            match old(self).distributed {
                Some(distributed) => result is Ok && old(self).differs_in(
                    *final(self),
                    (DistributedConfig { worker_connection_buffer_budget_bytes: budget_bytes, ..distributed }),
                ),
                None => *final(self) == *old(self) && (result matches Err(error) && error@
                    == ErrorKind::MissingDistributedConfig.plain()),
            },
    {
        match &mut self.distributed {
            Some(distributed) => {
                distributed.worker_connection_buffer_budget_bytes = budget_bytes;
                Ok(())
            },
            None => Err(DistributedError::new(ErrorKind::MissingDistributedConfig)),
        }
    }

    /// Sets whether task counts are decided during execution.
    pub fn set_distributed_dynamic_task_count(&mut self, enabled: bool) -> (result: Result<
        (),
        DistributedError,
    >)
        ensures
            match old(self).distributed {
                Some(distributed) => result is Ok && old(self).differs_in(
                    *final(self),
                    (DistributedConfig { dynamic_task_count: enabled, ..distributed }),
                ),
                None => *final(self) == *old(self) && (result matches Err(error) && error@
                    == ErrorKind::MissingDistributedConfig.plain()),
            },
    {
        match &mut self.distributed {
            Some(distributed) => {
                distributed.dynamic_task_count = enabled;
                Ok(())
            },
            None => Err(DistributedError::new(ErrorKind::MissingDistributedConfig)),
        }
    }

    /// Sets how many bytes a partition is expected to work through in a second.
    pub fn set_distributed_bytes_per_partition_per_second(&mut self, bytes_per_partition_per_second: usize) -> (result: Result<
        (),
        DistributedError,
    >)
        ensures
            match old(self).distributed {
                Some(distributed) => result is Ok && old(self).differs_in(
                    *final(self),
                    (DistributedConfig { bytes_per_partition_per_second: bytes_per_partition_per_second, ..distributed }),
                ),
                None => *final(self) == *old(self) && (result matches Err(error) && error@
                    == ErrorKind::MissingDistributedConfig.plain()),
            },
    {
        match &mut self.distributed {
            Some(distributed) => {
                distributed.bytes_per_partition_per_second = bytes_per_partition_per_second;
                Ok(())
            },
            None => Err(DistributedError::new(ErrorKind::MissingDistributedConfig)),
        }
    }

    /// Sets how what is sent between workers is compressed.
    pub fn set_distributed_compression(&mut self, compression: Option<CompressionType>) -> (result:
        Result<(), DistributedError>)
        ensures
            match old(self).distributed {
                Some(distributed) => result is Ok && (final(self).distributed matches Some(after)
                    && after.compression@ == compression_name(compression) && old(
                    self,
                ).differs_in(
                    *final(self),
                    (DistributedConfig { compression: after.compression, ..distributed }),
                )),
                None => *final(self) == *old(self) && (result matches Err(error) && error@
                    == ErrorKind::MissingDistributedConfig.plain()),
            },
    {
        let name = match compression {
            Some(CompressionType::Zstd) => "zstd".to_owned(),
            Some(CompressionType::Lz4Frame) => "lz4".to_owned(),
            None => "none".to_owned(),
        };
        match &mut self.distributed {
            Some(distributed) => {
                distributed.compression = name;
                Ok(())
            },
            None => Err(DistributedError::new(ErrorKind::MissingDistributedConfig)),
        }
    }

    /// Adds a codec for nodes of the user's own. Codecs that were added before stay in front.
    pub fn set_distributed_user_codec(&mut self, codec: u64)
        ensures
            final(self).user_codecs@ == old(self).user_codecs@.push(codec),
            *final(self) == (SessionConfig {
                user_codecs: final(self).user_codecs,
                ..*old(self)
            }),
    {
        self.user_codecs.push(codec);
    }

    /// Sets the headers that are forwarded to workers unchanged. Names that begin like those of
    /// the headers that carry settings are refused.
    pub fn set_distributed_passthrough_headers(&mut self, headers: Vec<(String, String)>) -> (result:
        Result<(), DistributedError>)
        ensures
            has_reserved_header(headers@) ==> *final(self) == *old(self) && (result matches Err(
                error,
            ) && names_first_reserved(headers@, error@)),
            !has_reserved_header(headers@) ==> result is Ok && *final(self) == (SessionConfig {
                passthrough_headers: headers,
                ..*old(self)
            }),
    {
        let mut i: usize = 0;
        while i < headers.len()
            invariant
                0 <= i <= headers@.len(),
                *self == *old(self),
                forall|j: int|
                    0 <= j < i ==> !begins_with((#[trigger] headers@[j]).0@, reserved_prefix()),
            decreases headers@.len() - i,
        {
            let name = &headers[i].0;
            if is_prefix(name.as_str(), "x-datafusion-distributed-config-") {
                proof {
                    assert(begins_with(headers@[i as int].0@, reserved_prefix()));
                }
                return Err(DistributedError::about(ErrorKind::ReservedHeader, name.clone()));
            }
            i += 1;
        }
        self.passthrough_headers = headers;
        Ok(())
    }
}

/// The settings for distribution of a session, set one after the other.
pub trait DistributedExt: Sized {
    spec fn session(&self) -> SessionConfig;

    /// Sets how many bytes each partition of a file scan is expected to read.
    fn with_distributed_file_scan_config_bytes_per_partition(self, bytes_per_partition: usize) -> (result: Result<Self, DistributedError>)
        ensures
            match self.session().distributed {
                Some(distributed) => result matches Ok(after) && self.session().differs_in(
                    after.session(),
                    (DistributedConfig { file_scan_config_bytes_per_partition: bytes_per_partition, ..distributed }),
                ),
                None => result matches Err(error) && error@
                    == ErrorKind::MissingDistributedConfig.plain(),
            },
    ;

    /// Sets the factor by which task counts follow the cardinality of the data, as the bit
    /// pattern of a double.
    fn with_distributed_cardinality_effect_task_scale_factor(self, factor_bits: u64) -> (result: Result<Self, DistributedError>)
        ensures
            match self.session().distributed {
                Some(distributed) => result matches Ok(after) && self.session().differs_in(
                    after.session(),
                    (DistributedConfig { cardinality_task_count_factor_bits: factor_bits, ..distributed }),
                ),
                None => result matches Err(error) && error@
                    == ErrorKind::MissingDistributedConfig.plain(),
            },
    ;

    /// Sets whether metrics are gathered across network boundaries.
    fn with_distributed_metrics_collection(self, enabled: bool) -> (result: Result<Self, DistributedError>)
        ensures
            match self.session().distributed {
                Some(distributed) => result matches Ok(after) && self.session().differs_in(
                    after.session(),
                    (DistributedConfig { collect_metrics: enabled, ..distributed }),
                ),
                None => result matches Err(error) && error@
                    == ErrorKind::MissingDistributedConfig.plain(),
            },
    ;

    /// Sets whether the children of unions run in tasks of their own.
    fn with_distributed_children_isolator_unions(self, enabled: bool) -> (result: Result<Self, DistributedError>)
        ensures
            match self.session().distributed {
                Some(distributed) => result matches Ok(after) && self.session().differs_in(
                    after.session(),
                    (DistributedConfig { children_isolator_unions: enabled, ..distributed }),
                ),
                None => result matches Err(error) && error@
                    == ErrorKind::MissingDistributedConfig.plain(),
            },
    ;

    /// Sets whether the build sides of collecting joins are broadcast.
    fn with_distributed_broadcast_joins(self, enabled: bool) -> (result: Result<Self, DistributedError>)
        ensures
            match self.session().distributed {
                Some(distributed) => result matches Ok(after) && self.session().differs_in(
                    after.session(),
                    (DistributedConfig { broadcast_joins: enabled, ..distributed }),
                ),
                None => result matches Err(error) && error@
                    == ErrorKind::MissingDistributedConfig.plain(),
            },
    ;

    /// Sets the batch size of worker stages. Zero leaves the batch size of the session in force.
    fn with_distributed_shuffle_batch_size(self, batch_size: usize) -> (result: Result<Self, DistributedError>)
        ensures
            match self.session().distributed {
                Some(distributed) => result matches Ok(after) && self.session().differs_in(
                    after.session(),
                    (DistributedConfig { shuffle_batch_size: batch_size, ..distributed }),
                ),
                None => result matches Err(error) && error@
                    == ErrorKind::MissingDistributedConfig.plain(),
            },
    ;

    /// Sets how many tasks a stage may have. Zero stands for the number of workers.
    fn with_distributed_max_tasks_per_stage(self, max_tasks_per_stage: usize) -> (result: Result<Self, DistributedError>)
        ensures
            match self.session().distributed {
                Some(distributed) => result matches Ok(after) && self.session().differs_in(
                    after.session(),
                    (DistributedConfig { max_tasks_per_stage: max_tasks_per_stage, ..distributed }),
                ),
                None => result matches Err(error) && error@
                    == ErrorKind::MissingDistributedConfig.plain(),
            },
    ;

    /// Sets whether partial aggregates are merged before they are shuffled.
    fn with_distributed_partial_reduce(self, enabled: bool) -> (result: Result<Self, DistributedError>)
        ensures
            match self.session().distributed {
                Some(distributed) => result matches Ok(after) && self.session().differs_in(
                    after.session(),
                    (DistributedConfig { partial_reduce: enabled, ..distributed }),
                ),
                None => result matches Err(error) && error@
                    == ErrorKind::MissingDistributedConfig.plain(),
            },
    ;

    /// Sets how many bytes a worker connection buffers before it pauses.
    fn with_distributed_worker_connection_buffer_budget_bytes(self, budget_bytes: usize) -> (result: Result<Self, DistributedError>)
        ensures
            match self.session().distributed {
                Some(distributed) => result matches Ok(after) && self.session().differs_in(
                    after.session(),
                    (DistributedConfig { worker_connection_buffer_budget_bytes: budget_bytes, ..distributed }),
                ),
                None => result matches Err(error) && error@
                    == ErrorKind::MissingDistributedConfig.plain(),
            },
    ;

    /// Sets whether task counts are decided during execution.
    fn with_distributed_dynamic_task_count(self, enabled: bool) -> (result: Result<Self, DistributedError>)
        ensures
            match self.session().distributed {
                Some(distributed) => result matches Ok(after) && self.session().differs_in(
                    after.session(),
                    (DistributedConfig { dynamic_task_count: enabled, ..distributed }),
                ),
                None => result matches Err(error) && error@
                    == ErrorKind::MissingDistributedConfig.plain(),
            },
    ;

    /// Sets how many bytes a partition is expected to work through in a second.
    fn with_distributed_bytes_per_partition_per_second(self, bytes_per_partition_per_second: usize) -> (result: Result<Self, DistributedError>)
        ensures
            match self.session().distributed {
                Some(distributed) => result matches Ok(after) && self.session().differs_in(
                    after.session(),
                    (DistributedConfig { bytes_per_partition_per_second: bytes_per_partition_per_second, ..distributed }),
                ),
                None => result matches Err(error) && error@
                    == ErrorKind::MissingDistributedConfig.plain(),
            },
    ;

    /// Sets how what is sent between workers is compressed.
    fn with_distributed_compression(self, compression: Option<CompressionType>) -> (result: Result<
        Self,
        DistributedError,
    >)
        ensures
            match self.session().distributed {
                Some(distributed) => result matches Ok(session) && (
                session.session().distributed matches Some(after) && after.compression@
                    == compression_name(compression) && self.session().differs_in(
                    session.session(),
                    (DistributedConfig { compression: after.compression, ..distributed }),
                )),
                None => result matches Err(error) && error@
                    == ErrorKind::MissingDistributedConfig.plain(),
            },
    ;

    /// Adds a codec for nodes of the user's own. Codecs that were added before stay in front.
    fn with_distributed_user_codec(self, codec: u64) -> (result: Self)
        ensures
            result.session().user_codecs@ == self.session().user_codecs@.push(codec),
            result.session() == (SessionConfig {
                user_codecs: result.session().user_codecs,
                ..self.session()
            }),
    ;

    /// Sets the headers that are forwarded to workers unchanged. Names that begin like those of
    /// the headers that carry settings are refused.
    fn with_distributed_passthrough_headers(self, headers: Vec<(String, String)>) -> (result: Result<
        Self,
        DistributedError,
    >)
        ensures
            has_reserved_header(headers@) ==> (result matches Err(error)
                && names_first_reserved(headers@, error@)),
            !has_reserved_header(headers@) ==> (result matches Ok(after) && after.session() == (
            SessionConfig { passthrough_headers: headers, ..self.session() })),
    ;
}

impl DistributedExt for SessionConfig {
    open spec fn session(&self) -> SessionConfig {
        *self
    }

    fn with_distributed_file_scan_config_bytes_per_partition(self, bytes_per_partition: usize) -> (result: Result<Self, DistributedError>) {
        let mut session = self;
        session.set_distributed_file_scan_config_bytes_per_partition(bytes_per_partition)?;
        Ok(session)
    }

    fn with_distributed_cardinality_effect_task_scale_factor(self, factor_bits: u64) -> (result: Result<Self, DistributedError>) {
        let mut session = self;
        session.set_distributed_cardinality_effect_task_scale_factor(factor_bits)?;
        Ok(session)
    }

    fn with_distributed_metrics_collection(self, enabled: bool) -> (result: Result<Self, DistributedError>) {
        let mut session = self;
        session.set_distributed_metrics_collection(enabled)?;
        Ok(session)
    }

    fn with_distributed_children_isolator_unions(self, enabled: bool) -> (result: Result<Self, DistributedError>) {
        let mut session = self;
        session.set_distributed_children_isolator_unions(enabled)?;
        Ok(session)
    }

    fn with_distributed_broadcast_joins(self, enabled: bool) -> (result: Result<Self, DistributedError>) {
        let mut session = self;
        session.set_distributed_broadcast_joins(enabled)?;
        Ok(session)
    }

    fn with_distributed_shuffle_batch_size(self, batch_size: usize) -> (result: Result<Self, DistributedError>) {
        let mut session = self;
        session.set_distributed_shuffle_batch_size(batch_size)?;
        Ok(session)
    }

    fn with_distributed_max_tasks_per_stage(self, max_tasks_per_stage: usize) -> (result: Result<Self, DistributedError>) {
        let mut session = self;
        session.set_distributed_max_tasks_per_stage(max_tasks_per_stage)?;
        Ok(session)
    }

    fn with_distributed_partial_reduce(self, enabled: bool) -> (result: Result<Self, DistributedError>) {
        let mut session = self;
        session.set_distributed_partial_reduce(enabled)?;
        Ok(session)
    }

    fn with_distributed_worker_connection_buffer_budget_bytes(self, budget_bytes: usize) -> (result: Result<Self, DistributedError>) {
        let mut session = self;
        session.set_distributed_worker_connection_buffer_budget_bytes(budget_bytes)?;
        Ok(session)
    }

    fn with_distributed_dynamic_task_count(self, enabled: bool) -> (result: Result<Self, DistributedError>) {
        let mut session = self;
        session.set_distributed_dynamic_task_count(enabled)?;
        Ok(session)
    }

    fn with_distributed_bytes_per_partition_per_second(self, bytes_per_partition_per_second: usize) -> (result: Result<Self, DistributedError>) {
        let mut session = self;
        session.set_distributed_bytes_per_partition_per_second(bytes_per_partition_per_second)?;
        Ok(session)
    }

    fn with_distributed_compression(self, compression: Option<CompressionType>) -> (result: Result<
        Self,
        DistributedError,
    >) {
        let mut session = self;
        session.set_distributed_compression(compression)?;
        Ok(session)
    }

    fn with_distributed_user_codec(self, codec: u64) -> (result: Self) {
        let mut session = self;
        session.set_distributed_user_codec(codec);
        session
    }

    fn with_distributed_passthrough_headers(self, headers: Vec<(String, String)>) -> (result: Result<
        Self,
        DistributedError,
    >) {
        let mut session = self;
        session.set_distributed_passthrough_headers(headers)?;
        Ok(session)
    }
}

/// The codecs that users registered for nodes of their own, in order.
pub fn get_distributed_user_codecs(session: &SessionConfig) -> (result: Vec<u64>)
    ensures
        result@ == session.user_codecs@,
{
    let mut codecs: Vec<u64> = Vec::new();
    let mut i: usize = 0;
    while i < session.user_codecs.len()
        invariant
            0 <= i <= session.user_codecs@.len(),
            codecs@ =~= session.user_codecs@.take(i as int),
        decreases session.user_codecs@.len() - i,
    {
        codecs.push(session.user_codecs[i]);
        i += 1;
    }
    proof {
        assert(session.user_codecs@.take(i as int) =~= session.user_codecs@);
    }
    codecs
}

/// A codec that plans are encoded with.
#[derive(Clone, Copy, PartialEq, Eq, Debug, Structural)]
pub enum CodecHandle {
    /// The codec of this library.
    Distributed,
    /// A codec that the user registered.
    User(u64),
}

impl DistributedCodec {
    /// The codecs that are tried on a node, one after the other: that of this library, then those
    /// of the user.
    pub fn new_combined_with_user(session: &SessionConfig) -> (result: Vec<CodecHandle>)
        ensures
            result@ == seq![CodecHandle::Distributed] + session.user_codecs@.map_values(
                |codec: u64| CodecHandle::User(codec),
            ),
    {
        let users = get_distributed_user_codecs(session);
        let mut codecs: Vec<CodecHandle> = Vec::new();
        codecs.push(CodecHandle::Distributed);
        let mut i: usize = 0;
        while i < users.len()
            invariant
                0 <= i <= users@.len(),
                users@ == session.user_codecs@,
                codecs@ =~= seq![CodecHandle::Distributed] + users@.take(i as int).map_values(
                    |codec: u64| CodecHandle::User(codec),
                ),
            decreases users@.len() - i,
        {
            codecs.push(CodecHandle::User(users[i]));
            i += 1;
        }
        proof {
            assert(users@.take(i as int) =~= users@);
        }
        codecs
    }
}

} // verus!
