pub mod fixedpoint;
pub mod i256;
pub mod logexpmath;
pub mod model;
pub mod math;
pub mod u256;
