pub mod text;
pub mod specifier;
pub mod collections;
pub mod errors;
pub mod ops;
pub mod handles;
pub mod modules;
pub mod moonbit;
pub mod evaluation;
pub mod input;
