//! What the machines do as a whole, stated over the model of
//! [`crate::world`] and proved.

pub mod checking;
pub mod installing;
pub mod placing;
pub mod removing;
pub mod running;
