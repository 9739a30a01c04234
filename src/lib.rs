//! A rhythm-game chart player core: chart text parsing, the audio transport
//! state machine and the per-frame hit-object scheduler.
pub mod audio;
pub mod chart;
pub mod hit_type;
pub mod scheduler;
pub mod text;
