//! What holds of the endpoint as a whole.
pub mod dialogue;
pub mod events;
pub mod history;
pub mod lifecycle;
pub mod methods;
pub mod operations;
