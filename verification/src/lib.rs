//! Safe shared ownership and lazy traversal over a device-property node
//! graph whose nodes are allocated, reference-counted and reclaimed by an
//! owning subsystem, together with the small consumer-side state kept by
//! the power-regulator and video sub-device layers built on top of it.

pub mod fwnode;
pub mod regulator;
pub mod v4l2;
pub mod v4l2_fwnode;
