//! Compute device the inference server reports running on.

use vstd::prelude::*;

verus! {

/// The device a model is served from. The health endpoint reports it as a
/// lower-case name; `name` gives that wire spelling.
#[derive(Clone, Copy, Debug, PartialEq, Eq, Structural)]
pub enum Device {
    Cpu,
    Cuda,
    Rocm,
    Metal,
    ExperimentalHttp,
}

/// Wire spelling of a device, as the health endpoint reports it.
pub open spec fn device_name_spec(d: Device) -> Seq<char> {
    match d {
        Device::Cpu => "cpu"@,
        Device::Cuda => "cuda"@,
        Device::Rocm => "rocm"@,
        Device::Metal => "metal"@,
        Device::ExperimentalHttp => "experimental_http"@,
    }
}

impl Device {
    /// Whether the GGML backend drives a GPU for this device.
    pub fn ggml_use_gpu(&self) -> (r: bool)
        ensures
            r == (*self == Device::Cuda || *self == Device::Rocm || *self == Device::Metal),
    {
        match self {
            Device::Cuda | Device::Rocm | Device::Metal => true,
            _ => false,
        }
    }

    /// The device's wire name.
    pub fn name(&self) -> (r: String)
        ensures
            r@ == device_name_spec(*self),
    {
        match self {
            Device::Cpu => "cpu".to_owned(),
            Device::Cuda => "cuda".to_owned(),
            Device::Rocm => "rocm".to_owned(),
            Device::Metal => "metal".to_owned(),
            Device::ExperimentalHttp => "experimental_http".to_owned(),
        }
    }
}

} // verus!
