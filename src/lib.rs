pub mod adjuster;
pub mod limiter;
pub mod process_manager;
