pub mod model;
pub mod resolve;
pub mod select;
