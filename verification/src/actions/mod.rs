//! What each command group reads from the API's answers, what it prints,
//! and the requests it makes.
pub mod endpoint;
pub mod stack;
pub mod system;
pub mod container;
pub mod image;
pub mod network;
pub mod volume;
