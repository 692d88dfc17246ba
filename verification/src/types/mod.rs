//! Shared data types of the observation pipeline.
pub mod embedding;
pub mod envelope;
pub mod filter;
pub mod kinds;
pub mod memory;
pub mod observation;

pub use self::kinds::{
    Checkpoint, ConnectionInfo, ConnectionKind, DebugAction, DebugSessionOutcome,
    DebugSessionStatus, DevicePlatform, HealthStatus, MemoryKind, ObservationKindTag,
    RuntimeSummary, Severity, SYSTEM_TAG, TAG_PREFIX_FRAMEWORK, TAG_PREFIX_LANG,
    TAG_PREFIX_PROJECT, TAG_PREFIX_SOURCE, TAG_PREFIX_TOOL,
};
pub use self::observation::{AppName, DeviceSerial, SessionId, TabId};
pub use self::filter::{Filter, OriginPattern};
