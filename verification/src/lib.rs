use vstd::prelude::*;

pub mod action;
pub mod adopt;
pub mod audit;
pub mod dxl;
pub mod feetech;
pub mod gains;
pub mod model;
pub mod replacement;
pub mod short_read;
pub mod stale;
pub mod torque;
