//! Argument binding and module-registration logic for native functions that
//! are exposed to a dynamic host runtime.

pub mod binder;
pub mod call;
pub mod kwargs;
pub mod laws;
pub mod message;
pub mod module_def;
