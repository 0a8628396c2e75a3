pub mod colspec;
pub mod reader;
pub mod value;
