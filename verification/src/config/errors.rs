//! Errors and warnings of the configuration.
use vstd::prelude::*;

verus! {

/// What makes a configuration unusable.
#[derive(Debug)]
pub enum ConfigError {
    /// A file could not be read.
    Io { message: String },
    /// A document is not valid YAML, or does not describe a configuration.
    Yaml { message: String },
    /// The deprecated top-level key `project` is present.
    DeprecatedProjectKey,
    /// A key under `hooks.events` is no phase-event.
    InvalidHookPhaseEvent { phase_event: String },
    /// Two fields are set that exclude each other.
    MutuallyExclusive { field1: String, field2: String },
    /// The completion promise is blank.
    InvalidCompletionPromise,
    /// The custom backend has no command.
    CustomBackendRequiresCommand,
    /// The bot settings are not valid.
    InvalidRobot { message: String },
    /// A hook setting is not valid.
    HookValidation { field: String, message: String },
    /// A hook field is not supported.
    UnsupportedHookField { field: String, reason: String },
    /// A hat has no description.
    MissingDescription { hat: String },
    /// A hat has a concurrency of zero.
    InvalidConcurrency { hat: String, value: u32 },
    /// A hat both aggregates and runs concurrently.
    AggregateOnConcurrentHat { hat: String },
    /// A hat is triggered by a topic that is reserved for the coordinator.
    ReservedTrigger { trigger: String, hat: String },
    /// Two hats are triggered by one topic.
    AmbiguousRouting { trigger: String, hat1: String, hat2: String },
}

/// The plain values of a [`ConfigError`].
pub enum ConfigFault {
    Io { message: Seq<char> },
    Yaml { message: Seq<char> },
    DeprecatedProjectKey,
    InvalidHookPhaseEvent { phase_event: Seq<char> },
    MutuallyExclusive { field1: Seq<char>, field2: Seq<char> },
    InvalidCompletionPromise,
    CustomBackendRequiresCommand,
    InvalidRobot { message: Seq<char> },
    HookValidation { field: Seq<char>, message: Seq<char> },
    UnsupportedHookField { field: Seq<char>, reason: Seq<char> },
    MissingDescription { hat: Seq<char> },
    InvalidConcurrency { hat: Seq<char>, value: u32 },
    AggregateOnConcurrentHat { hat: Seq<char> },
    ReservedTrigger { trigger: Seq<char>, hat: Seq<char> },
    AmbiguousRouting { trigger: Seq<char>, hat1: Seq<char>, hat2: Seq<char> },
}

impl View for ConfigError {
    type V = ConfigFault;

    open spec fn view(&self) -> ConfigFault {
        match *self {
            ConfigError::Io { message } => ConfigFault::Io { message: message@ },
            ConfigError::Yaml { message } => ConfigFault::Yaml { message: message@ },
            ConfigError::DeprecatedProjectKey => ConfigFault::DeprecatedProjectKey,
            ConfigError::InvalidHookPhaseEvent { phase_event } => ConfigFault::InvalidHookPhaseEvent {
                phase_event: phase_event@,
            },
            ConfigError::MutuallyExclusive { field1, field2 } => ConfigFault::MutuallyExclusive {
                field1: field1@,
                field2: field2@,
            },
            ConfigError::InvalidCompletionPromise => ConfigFault::InvalidCompletionPromise,
            ConfigError::CustomBackendRequiresCommand => ConfigFault::CustomBackendRequiresCommand,
            ConfigError::InvalidRobot { message } => ConfigFault::InvalidRobot { message: message@ },
            ConfigError::HookValidation { field, message } => ConfigFault::HookValidation {
                field: field@,
                message: message@,
            },
            ConfigError::UnsupportedHookField { field, reason } => ConfigFault::UnsupportedHookField {
                field: field@,
                reason: reason@,
            },
            ConfigError::MissingDescription { hat } => ConfigFault::MissingDescription { hat: hat@ },
            ConfigError::InvalidConcurrency { hat, value } => ConfigFault::InvalidConcurrency {
                hat: hat@,
                value,
            },
            ConfigError::AggregateOnConcurrentHat { hat } => ConfigFault::AggregateOnConcurrentHat {
                hat: hat@,
            },
            ConfigError::ReservedTrigger { trigger, hat } => ConfigFault::ReservedTrigger {
                trigger: trigger@,
                hat: hat@,
            },
            ConfigError::AmbiguousRouting { trigger, hat1, hat2 } => ConfigFault::AmbiguousRouting {
                trigger: trigger@,
                hat1: hat1@,
                hat2: hat2@,
            },
        }
    }
}

/// What a user should be told of a usable configuration.
#[derive(Debug)]
pub enum ConfigWarning {
    /// An enabled feature is not available.
    DeferredFeature { field: String, message: String },
    /// A field is accepted and ignored.
    DroppedField { field: String, reason: String },
    /// A value is out of range.
    InvalidValue { field: String, message: String },
}

/// The plain values of a [`ConfigWarning`].
pub enum ConfigNote {
    DeferredFeature { field: Seq<char>, message: Seq<char> },
    DroppedField { field: Seq<char>, reason: Seq<char> },
    InvalidValue { field: Seq<char>, message: Seq<char> },
}

impl View for ConfigWarning {
    type V = ConfigNote;

    open spec fn view(&self) -> ConfigNote {
        match *self {
            ConfigWarning::DeferredFeature { field, message } => ConfigNote::DeferredFeature {
                field: field@,
                message: message@,
            },
            ConfigWarning::DroppedField { field, reason } => ConfigNote::DroppedField {
                field: field@,
                reason: reason@,
            },
            ConfigWarning::InvalidValue { field, message } => ConfigNote::InvalidValue {
                field: field@,
                message: message@,
            },
        }
    }
}

} // verus!
