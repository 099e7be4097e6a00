pub mod consts;
pub mod impl_profile;
