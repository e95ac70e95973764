pub mod auth;
pub mod credentials;
pub mod errors;
pub mod extract;
pub mod gate;
pub mod jwt;
pub mod store;
pub mod text;
