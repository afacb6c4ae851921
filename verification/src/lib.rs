pub mod generator;
pub mod subdivision;
mod text;

pub use subdivision::Code;
pub use subdivision::Subdivision;
pub use subdivision::SubdivisionCodeParseError;
