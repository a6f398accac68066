pub mod log_writer;
pub mod logger;
