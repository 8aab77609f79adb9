//! The device list shared by every platform.
use crate::audio::devices::DeviceOption;
use vstd::prelude::*;

verus! {

/// The name of the system's default input.
pub const DEFAULT_DEVICE_NAME: &'static str = "Default";

/// Appends the system's default input, id -1, to the list.
pub fn list_available_audio_input_devices(devices: &mut Vec<DeviceOption>) -> (r: Result<
    (),
    String,
>)
    ensures
        r is Ok,
        final(devices)@.len() == old(devices)@.len() + 1,
        forall|i: int| 0 <= i < old(devices)@.len() ==> final(devices)@[i]@ == old(devices)@[i]@,
        final(devices)@.last()@ == (-1i32, DEFAULT_DEVICE_NAME@),
{
    devices.push(DeviceOption { id: -1, name: DEFAULT_DEVICE_NAME.to_owned() });
    Ok(())
}

} // verus!
