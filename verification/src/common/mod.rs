pub mod buffer;
pub mod collections;
pub mod error;
pub mod has_name;
pub mod seqs;

pub use collections::hwire_items;
pub use collections::input_items;
pub use collections::set4_items;
pub use collections::Set4;
pub use collections::Vec4;
pub use error::ArgumentFault;
pub use error::ConstructionFault;
pub use error::FormatFault;
pub use error::SimError;
pub use has_name::find_by_name;
pub use has_name::first_named;
pub use has_name::HasName;
pub use buffer::Buffer;
pub use buffer::EmptyBuffer;
