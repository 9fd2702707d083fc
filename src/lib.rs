pub mod pool;
pub mod grep;
pub mod http;
