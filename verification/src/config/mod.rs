pub mod features;
pub mod version;
