//! Backtesting data: the cache of loaded data shared by the readers, and the NumPy file header.
pub mod cache;
pub mod npy;
pub mod parser;
pub mod reader;

pub use cache::{Cache, CachedData};
pub use reader::{DataPreprocess, DataSource, Load, Reader, ReaderBuilder};
