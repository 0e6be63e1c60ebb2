pub mod bindings;
pub mod config;
pub mod floodgate;
pub mod forwarding;
pub mod identity;
pub mod laws;
pub mod numeric;
pub mod text;
