//! The last step before machine code: flat code is turned into the plan
//! that the native backend carries out.

pub mod lower;
