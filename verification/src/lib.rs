pub mod frames;
pub mod mailbox;
pub mod store;
pub mod thread_pool;
pub mod wire;
