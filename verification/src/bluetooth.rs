pub mod aacp;
pub mod address;
pub mod att;
pub mod discovery;
pub mod le;
pub mod manager;
pub mod managers;
pub mod router;
pub mod session;
