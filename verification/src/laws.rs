//! What holds of the features as a whole: each law says what comes out of an
//! operation in terms of what goes in, byte by byte and name by name, and is
//! proved from what the operations state of themselves.

pub mod arrays;
pub mod calibration;
pub mod calls;
pub mod chams;
pub mod features;
pub mod http;
pub mod lifecycle;
pub mod metadata;
pub mod overlay;
pub mod raid;
pub mod results;
pub mod scan;
pub mod text;
