//! Verified core of an OpenVPN single-sign-on plugin for NetworkManager.
use vstd::prelude::*;

pub mod auth_dialog;
pub mod config;
pub mod config_laws;
pub mod keyed;
pub mod text;

verus! {

} // verus!
