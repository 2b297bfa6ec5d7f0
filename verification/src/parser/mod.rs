pub mod scan;
pub mod grammar;
pub mod xml;
