//! Verified core of a detection-and-response engine: a poller diffs
//! successive membership snapshots of a monitored region into events, an
//! identify-friend-or-foe classifier assigns each newly seen nation a
//! disposition, a control-loop state machine consumes events, maintains a
//! candidate pool and a skip set, and gates each engagement behind an
//! authorization pulse, and a session state machine classifies each
//! engagement outcome into a retry policy.

pub mod control;
pub mod missilesystem;
pub mod radar;

pub use radar::canonicalize;
