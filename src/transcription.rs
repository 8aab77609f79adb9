pub mod model;
pub mod model_old;
pub mod rechunker;
