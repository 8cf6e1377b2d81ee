pub mod commit;
pub mod config;
pub mod input_field;
pub mod selection;
pub mod session;
pub mod substitution;
pub mod text;
