//! A small process supervisor: a registry of named services, the restart
//! policy of the task that guards each service, and the text protocol that
//! controls them.
pub mod text;
pub mod registry;
pub mod definition;
pub mod protocol;
pub mod laws;
