pub mod add;
pub mod eq;
pub mod mul;
