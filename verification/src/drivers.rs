//! Concrete lightguide drivers.

pub mod kk_mk2;
