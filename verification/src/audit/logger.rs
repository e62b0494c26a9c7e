//! Configuration of the audit logger, which publishes events to a Kafka
//! topic, and its builder.
use vstd::prelude::*;

verus! {

/// Configuration of the audit logger.
#[derive(Debug, Clone)]
pub struct AuditLoggerConfig {
    /// Kafka broker addresses.
    pub kafka_brokers: String,
    /// Topic of the audit events.
    pub topic: String,
    /// Wait for the broker's acknowledgement of each event.
    pub synchronous: bool,
    /// Buffer size of asynchronous logging.
    pub buffer_size: usize,
}

impl Default for AuditLoggerConfig {
    /// Brokers "localhost:9092", topic "auth-audit-events", asynchronous,
    /// a buffer of 1000 events.
    fn default() -> (c: Self)
        ensures
            c.kafka_brokers@ == "localhost:9092"@,
            c.topic@ == "auth-audit-events"@,
            !c.synchronous,
            c.buffer_size == 1000,
    {
        AuditLoggerConfig {
            kafka_brokers: String::from_str("localhost:9092"),
            topic: String::from_str("auth-audit-events"),
            synchronous: false,
            buffer_size: 1000,
        }
    }
}

/// Builds an audit logger's configuration step by step.
pub struct AuditLoggerBuilder {
    pub config: AuditLoggerConfig,
}

impl AuditLoggerBuilder {
    /// A builder starting from the default configuration.
    pub fn new() -> (b: AuditLoggerBuilder)
        ensures
            b.config.kafka_brokers@ == "localhost:9092"@,
            b.config.topic@ == "auth-audit-events"@,
            !b.config.synchronous,
            b.config.buffer_size == 1000,
    {
        AuditLoggerBuilder { config: AuditLoggerConfig::default() }
    }

    /// Sets the brokers.
    pub fn with_kafka_brokers(self, brokers: String) -> (b: AuditLoggerBuilder)
        ensures
            b.config == (AuditLoggerConfig { kafka_brokers: brokers, ..self.config }),
    {
        let mut b = self;
        b.config.kafka_brokers = brokers;
        b
    }

    /// Sets the topic.
    pub fn with_topic(self, topic: String) -> (b: AuditLoggerBuilder)
        ensures
            b.config == (AuditLoggerConfig { topic: topic, ..self.config }),
    {
        let mut b = self;
        b.config.topic = topic;
        b
    }

    /// Makes logging synchronous.
    pub fn synchronous(self) -> (b: AuditLoggerBuilder)
        ensures
            b.config == (AuditLoggerConfig { synchronous: true, ..self.config }),
    {
        let mut b = self;
        b.config.synchronous = true;
        b
    }

    /// Sets the buffer size.
    pub fn with_buffer_size(self, size: usize) -> (b: AuditLoggerBuilder)
        ensures
            b.config == (AuditLoggerConfig { buffer_size: size, ..self.config }),
    {
        let mut b = self;
        b.config.buffer_size = size;
        b
    }

    /// The configuration built.
    pub fn build(self) -> (c: AuditLoggerConfig)
        ensures
            c == self.config,
    {
        self.config
    }
}

} // verus!
