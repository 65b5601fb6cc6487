//! POSIX-style signal subsystem for an OS personality layer: the signal
//! catalog with its default-disposition table, the dispatch algorithm that
//! routes a raised signal to a thread or to a process-wide shared queue, the
//! delivery state machine run at the return-to-user trap boundary, and the
//! exit/group-exit coordinator.
//!
//! The kernel around this subsystem (task scheduler, trap/ABI layer, user
//! memory) is an external collaborator: it owns the lifecycle of processes
//! and threads and invokes these entry points. The subsystem itself is a
//! state machine over plain values, fully specified and verified.

pub mod action;
pub mod catalog;
pub mod delivery;
pub mod dispatch;
pub mod exit;
pub mod laws;
pub mod mask;
pub mod registry;
pub mod store;

pub use action::SignalAction;
pub use action::SignalOSAction;
pub use catalog::SigDisposition;
pub use catalog::Signal;
pub use mask::SigMask;
