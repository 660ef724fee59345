//! A helper library that builds a pipeline of worker stages connected by
//! message channels, together with the verified front end of its `pipe`
//! code generator: the token model, the pipeline grammar, the flattening of
//! nested `match` routing and the emission of the stage and pool code.

pub mod expand;
pub mod flatten;
pub mod node;
pub mod parse;
pub mod pod;
pub mod pool;
pub mod prelude;
pub mod status;
pub mod syntax;
pub mod template;
pub mod tokens;
pub mod worker;

pub use expand::pipe;
pub use status::Status;

pub use anyhow;
pub use flume;
pub use tokio;
pub use async_std;
