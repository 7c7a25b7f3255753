pub mod coprime;
pub mod math;
pub mod numbertools;
pub mod product;
pub mod stringtools;
