//! Lifecycle bookkeeping for an editor shell's tab strip: an ordered list of
//! open tabs, a bounded history of recently closed tabs, a monotonic id
//! allocator, a registry of instantiable tab kinds, and the transient state of
//! the tab context menu and the "new tab" dropdown.
//!
//! The store guarantees, and the proofs in `laws` spell out, that tab ids are
//! never reused, that the selection always refers to an open tab while any tab
//! is open, that the closed-tab history never exceeds its capacity and evicts
//! oldest-first, and that a tab whose content refuses closing is never removed
//! by `close_tab` or `close_other_tabs`.

pub mod content;
pub mod editors;
pub mod events;
pub mod frame_counter;
pub mod laws;
pub mod menu;
pub mod registry;
pub mod store;
pub mod tab;
