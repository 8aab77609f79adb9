//! Audio devices that can be listened to.
use crate::audio::macos_core_audio::{
    fetch_hidden_output_device_macos, list_available_audio_input_devices_macos, offered, DeviceProbe,
    LOCAL_ECHO_INTERNAL_DISPLAY_NAME, LOCAL_ECHO_INTERNAL_UID,
};
use crate::audio::shared::DEFAULT_DEVICE_NAME;
use vstd::prelude::*;
use vstd::string::StringExecFns;

verus! {

/// A device offered for listening; id -1 stands for the system default.
#[derive(Clone, Debug)]
pub struct DeviceOption {
    pub id: i32,
    pub name: String,
}

impl View for DeviceOption {
    type V = (i32, Seq<char>);

    open spec fn view(&self) -> (i32, Seq<char>) {
        (self.id, self.name@)
    }
}

/// The message of a platform without device enumeration.
pub const PLATFORM_NOT_SUPPORTED: &'static str = "Platform not supported";

/// The prefix of the message of a failed enumeration.
pub const FETCH_INPUTS_FAILED: &'static str = "Failed to fetch input audio devices: ";

/// Input devices can only be enumerated on macOS; elsewhere nothing is added.
pub fn list_available_audio_input_devices(devices: &mut Vec<DeviceOption>) -> (r: Result<
    (),
    String,
>)
    ensures
        final(devices)@ == old(devices)@,
        r matches Err(e) && e@ == PLATFORM_NOT_SUPPORTED@,
{
    Err(PLATFORM_NOT_SUPPORTED.to_owned())
}

/// The hidden loopback output device can only be found on macOS.
pub fn fetch_hidden_output_device() -> (r: Result<Option<DeviceOption>, String>)
    ensures
        r matches Err(e) && e@ == PLATFORM_NOT_SUPPORTED@,
{
    Err(PLATFORM_NOT_SUPPORTED.to_owned())
}

/// The devices that can be listened to, or why they could not be listed.
pub fn get_listen_device_options() -> (r: Result<Vec<DeviceOption>, String>)
    ensures
        r matches Err(e) && e@ == FETCH_INPUTS_FAILED@ + PLATFORM_NOT_SUPPORTED@,
{
    let mut listen_device_options: Vec<DeviceOption> = Vec::new();
    match list_available_audio_input_devices(&mut listen_device_options) {
        Ok(()) => Ok(listen_device_options),
        Err(e) => {
            let mut message = FETCH_INPUTS_FAILED.to_owned();
            message.append(e.as_str());
            Err(message)
        },
    }
}

/// The hidden loopback output device, if there is one.
pub fn get_hidden_device() -> (r: Result<Option<DeviceOption>, String>)
    ensures
        r matches Err(e) && e@ == PLATFORM_NOT_SUPPORTED@,
{
    fetch_hidden_output_device()
}

/// The devices that can be listened to on macOS, given what the CoreAudio
/// enumeration answered: the default input, then the offered devices; a
/// failed enumeration becomes an error with the usual prefix.
pub fn get_listen_device_options_macos(probes: Result<Vec<DeviceProbe>, String>) -> (r: Result<
    Vec<DeviceOption>,
    String,
>)
    ensures
        match probes {
            Ok(p) => r matches Ok(v) && v@.map_values(|d: DeviceOption| d@) == seq![
                (-1i32, DEFAULT_DEVICE_NAME@),
            ] + offered(p@),
            Err(e) => r matches Err(m) && m@ == FETCH_INPUTS_FAILED@ + e@,
        },
{
    let mut listen_device_options: Vec<DeviceOption> = Vec::new();
    proof {
        assert(listen_device_options@.map_values(|d: DeviceOption| d@).push(
            (-1i32, DEFAULT_DEVICE_NAME@),
        ) =~= seq![(-1i32, DEFAULT_DEVICE_NAME@)]);
    }
    match list_available_audio_input_devices_macos(&mut listen_device_options, probes) {
        Ok(()) => Ok(listen_device_options),
        Err(e) => {
            let mut message = FETCH_INPUTS_FAILED.to_owned();
            message.append(e.as_str());
            Err(message)
        },
    }
}

/// The hidden loopback output device on macOS, given what the lookup of its
/// UID answered.
pub fn get_hidden_device_macos(lookup: Result<Option<u32>, String>) -> (r: Result<
    Option<DeviceOption>,
    String,
>)
    ensures
        match lookup {
            Ok(Some(id)) => r matches Ok(Some(d)) && d@ == (id as i32, LOCAL_ECHO_INTERNAL_DISPLAY_NAME@),
            Ok(None) => r matches Ok(None),
            Err(e) => r matches Err(m) && m@ == "Failed to fetch "@ + LOCAL_ECHO_INTERNAL_UID@
                + " output device: "@ + e@,
        },
{
    fetch_hidden_output_device_macos(lookup)
}

} // verus!
