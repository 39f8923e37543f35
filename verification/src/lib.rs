#![allow(non_upper_case_globals)]
#![allow(non_camel_case_types)]

pub mod common;
pub mod model;
pub mod ops;
pub mod sim;
pub mod packed;
pub mod json;
