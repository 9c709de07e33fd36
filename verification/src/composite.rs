//! The composite node family: ordered, parallel, repeating and decorating
//! nodes, each a self-contained resumable state machine over shared
//! children.

mod inverter;
mod parallel;
mod repeater;
mod selector;
mod sequence;
mod succeeder;

pub(crate) use selector::sel_tick_from;
pub(crate) use sequence::seq_tick_from;

pub use inverter::Inverter;
pub use parallel::ParallelSelector;
pub use parallel::ParallelSequence;
pub use repeater::LimitedRepeated;
pub use repeater::Repeated;
pub use repeater::RepeatedUntilFailure;
pub use selector::Selector;
pub use sequence::Sequence;
pub use succeeder::Succeeder;
