//! What holds of the library as a whole.

pub mod calls;
pub mod crafting;
pub mod ingredients;
pub mod layout;
pub mod making;
pub mod moving;
pub mod occupation;
pub mod patterns;
pub mod reading;
pub mod searching;
pub mod shifting;
pub mod showing;
pub mod taking;
