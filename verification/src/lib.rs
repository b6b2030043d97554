//! A credential broker for temporary credentials: the configuration it keeps,
//! the two exchanges it makes with the identity service, and its errors.

pub mod aws_sts;
pub mod config;
pub mod error;
