pub mod parser;
pub mod styling;
pub mod widget;
