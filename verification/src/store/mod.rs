pub mod merkle;
pub mod order;
pub mod storage_manager;
