pub mod deployment;
pub mod engines;
pub mod japanese;
pub mod korean;
pub mod paging;
pub mod types;
pub mod worker;
