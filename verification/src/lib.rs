pub mod bytecode;
pub mod render;
pub mod value;
pub mod vm;
