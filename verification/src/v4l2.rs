//! Video sub-device surface: the operation traits a driver implements,
//! grouped as the sub-device operation table groups them, and the
//! sub-device object that carries one driver's data.

use vstd::prelude::*;

verus! {

/// Names the driver data a sub-device carries.
pub trait DataWrapper {
    /// Data stored on the sub-device by the driver.
    type Data;
}

/// Core operations of a sub-device.
pub trait CoreSubDevOps: DataWrapper {
    /// Logs the current status of the device.
    fn log_status(data: &Self::Data) -> Result<(), i32>;
}

/// Tuner operations of a sub-device.
pub trait TunerSubDevOps {
}

/// Audio operations of a sub-device.
pub trait AudioSubDevOps {
}

/// Video operations of a sub-device.
pub trait VideoSubDevOps {
}

/// Vertical-blanking operations of a sub-device.
pub trait VbiSubDevOps {
}

/// Infrared operations of a sub-device.
pub trait IrSubDevOps {
}

/// Sensor operations of a sub-device.
pub trait SensorSubDevOps {
}

/// Pad operations of a sub-device.
pub trait PadSubDevOps {
}

/// The full operation surface of a sub-device driver: one bundle of all
/// the per-group operation traits.
pub trait SubDevOps:
    CoreSubDevOps
    + TunerSubDevOps
    + VideoSubDevOps
    + VbiSubDevOps
    + AudioSubDevOps
    + IrSubDevOps
    + SensorSubDevOps
    + PadSubDevOps
{
}

/// One sub-device, carrying the driver's data for the operations of `T`.
pub struct SubDev<T: SubDevOps> {
    data: <T as DataWrapper>::Data,
}

impl<T: SubDevOps> SubDev<T> {
    /// The driver data the sub-device was initialized with.
    pub closed spec fn data_spec(self) -> <T as DataWrapper>::Data {
        self.data
    }

    /// Initializes a sub-device around the driver's data.
    pub fn new(data: <T as DataWrapper>::Data) -> (r: SubDev<T>)
        ensures
            r.data_spec() == data,
    {
        SubDev { data }
    }

    /// The driver data stored on the sub-device.
    pub fn data(&self) -> (r: &<T as DataWrapper>::Data)
        ensures
            *r == self.data_spec(),
    {
        &self.data
    }
}

} // verus!
