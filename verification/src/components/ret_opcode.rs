pub mod component;
pub mod consistency;
pub mod interaction;
pub mod laws;
pub mod lifecycle;
pub mod trace_check;
