pub mod predator;
pub mod prey;
