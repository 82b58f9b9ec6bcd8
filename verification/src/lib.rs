//! Workstation provisioning core: reconciling a declared package set against
//! the installed state, parsing the declarative catalog document, driving the
//! credential-provisioning state machine, and merging SSH host-config blocks.
//!
//! All decision logic lives here and is verified; running external tools
//! (the package manager, ssh, git) is left to the surrounding application,
//! which feeds their observed results back into these functions.

pub mod adapter;
pub mod catalog;
pub mod credential;
pub mod identity;
pub mod reconcile;
pub mod sshconfig;
pub mod text;
