pub mod random;
pub mod snake;
