pub mod addr;
pub mod session;
pub mod context;
