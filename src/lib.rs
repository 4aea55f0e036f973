pub mod label;
pub mod layout;
pub mod thermal;
