pub use crate::expand::pipe;
pub use crate::pool::ThreadPool;
