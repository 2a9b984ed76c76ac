//! Release identifiers of the platform.
use vstd::prelude::*;

verus! {

pub const APP_NAME: &'static str = "NovelGraph AI Platform";
pub const APP_VERSION: &'static str = "0.1.0";
pub const API_VERSION: &'static str = "v0";
pub const RELEASE_CHANNEL: &'static str = "foundation";
pub const STORAGE_SCHEMA_VERSION: &'static str = "2026-04-27.foundation.v5";

} // verus!
