pub mod circuits;
pub mod decimal;
pub mod field;
pub mod pipeline;
pub mod relation;
