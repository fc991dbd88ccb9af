//! What can be relied on: laws over what the library's functions return, stated of
//! the values that go in and come out.

pub mod logins;
pub mod shells;
pub mod transfers;
pub mod limits;
pub mod credentials;
pub mod audit;
pub mod streams;
pub mod daemons;
pub mod pages;
pub mod arguments;
pub mod links;
pub mod bridges;
pub mod memory;
pub mod clients;
pub mod lives;
pub mod basics;
