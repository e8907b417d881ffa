pub mod database;
pub mod gateway;
pub mod measurements;
pub mod password;
pub mod session;
pub mod text;
