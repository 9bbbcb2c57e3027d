//! A status-line layout engine for a terminal workspace multiplexer: given
//! pre-measured styled segments, one per tab, it decides which tabs fit in a
//! limited column budget, keeps the active tab visible and centred, and
//! collapses overflow into "+N" indicators — all behind proved contracts.

pub mod parts;
pub mod style;
pub mod line;
pub mod guarantees;
