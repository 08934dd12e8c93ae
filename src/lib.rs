pub mod crypto;
pub mod send;
