pub mod type1;
pub mod type2;

pub use type1::Type1Handler;
pub use type2::Type2Handler;
