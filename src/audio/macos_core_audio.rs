//! Device decisions on macOS. The CoreAudio queries are made by the caller;
//! these functions decide what the answers mean.
use crate::audio::devices::DeviceOption;
use crate::audio::shared::DEFAULT_DEVICE_NAME;
use vstd::prelude::*;
use vstd::string::StringExecFns;

verus! {

/// The UID of the application's hidden loopback device.
pub const LOCAL_ECHO_INTERNAL_UID: &'static str = "Ollisten_INTERNAL";

/// The name under which the loopback device is offered.
pub const LOCAL_ECHO_INTERNAL_DISPLAY_NAME: &'static str = "Ollisten";

/// What CoreAudio answered about one device.
#[derive(Clone, Debug)]
pub struct DeviceProbe {
    pub id: u32,
    pub has_input_channels: bool,
    pub is_primary_input: bool,
    /// The device's name, if CoreAudio gave one.
    pub name: Option<String>,
}

/// The devices offered out of a sequence of probes: primary input devices
/// that have input channels and a name, in order.
pub open spec fn offered(probes: Seq<DeviceProbe>) -> Seq<(i32, Seq<char>)>
    decreases probes.len(),
{
    if probes.len() == 0 {
        Seq::empty()
    } else {
        let rest = offered(probes.drop_last());
        let p = probes.last();
        if p.has_input_channels && p.is_primary_input && p.name is Some {
            rest.push((p.id as i32, p.name->Some_0@))
        } else {
            rest
        }
    }
}

/// Appends the offered devices among `probes` to the list; an enumeration
/// that failed leaves the list as it is and passes its error on.
pub fn list_audio_input_devices(
    devices: &mut Vec<DeviceOption>,
    probes: Result<Vec<DeviceProbe>, String>,
) -> (r: Result<(), String>)
    ensures
        match probes {
            Ok(p) => r is Ok && final(devices)@.map_values(|d: DeviceOption| d@)
                == old(devices)@.map_values(|d: DeviceOption| d@) + offered(p@),
            Err(e) => r == Err::<(), String>(e) && final(devices)@ == old(devices)@,
        },
{
    match probes {
        Ok(p) => append_offered(devices, p),
        Err(e) => Err(e),
    }
}

fn append_offered(devices: &mut Vec<DeviceOption>, probes: Vec<DeviceProbe>) -> (r: Result<
    (),
    String,
>)
    ensures
        r is Ok,
        final(devices)@.map_values(|d: DeviceOption| d@) == old(devices)@.map_values(
            |d: DeviceOption| d@,
        ) + offered(probes@),
{
    let ghost start = devices@.map_values(|d: DeviceOption| d@);
    let mut i: usize = 0;
    while i < probes.len()
        invariant
            i <= probes@.len(),
            devices@.map_values(|d: DeviceOption| d@) == start + offered(
                probes@.subrange(0, i as int),
            ),
        decreases probes@.len() - i,
    {
        let ghost prefix = probes@.subrange(0, i as int);
        let ghost next = probes@.subrange(0, i + 1);
        assert(next.drop_last() =~= prefix);
        let probe = &probes[i];
        if probe.has_input_channels && probe.is_primary_input {
            match &probe.name {
                Some(name) => {
                    let ghost before = devices@;
                    let option = DeviceOption {
                        id: #[verifier::truncate] (probe.id as i32),
                        name: name.clone(),
                    };
                    assert(next.last() == probes@[i as int]);
                    assert(option@ == (probe.id as i32, probe.name->Some_0@));
                    assert(offered(next) == offered(prefix).push(option@));
                    devices.push(option);
                    assert(devices@ == before.push(option));
                    assert(devices@.map_values(|d: DeviceOption| d@) =~= before.map_values(
                        |d: DeviceOption| d@,
                    ).push(option@));
                },
                None => {
                    assert(offered(next) == offered(prefix));
                },
            }
        } else {
            assert(offered(next) == offered(prefix));
        }
        i = i + 1;
    }
    assert(probes@.subrange(0, probes@.len() as int) =~= probes@);
    Ok(())
}

/// Appends the default input, id -1, then the offered devices among
/// `probes`; when the enumeration failed, the default input stays and the
/// error is passed on.
pub fn list_available_audio_input_devices_macos(
    devices: &mut Vec<DeviceOption>,
    probes: Result<Vec<DeviceProbe>, String>,
) -> (r: Result<(), String>)
    ensures
        match probes {
            Ok(p) => r is Ok && final(devices)@.map_values(|d: DeviceOption| d@)
                == old(devices)@.map_values(|d: DeviceOption| d@).push(
                (-1i32, DEFAULT_DEVICE_NAME@),
            ) + offered(p@),
            Err(e) => r == Err::<(), String>(e) && final(devices)@.map_values(
                |d: DeviceOption| d@,
            ) == old(devices)@.map_values(|d: DeviceOption| d@).push(
                (-1i32, DEFAULT_DEVICE_NAME@),
            ),
        },
{
    let ghost start = devices@.map_values(|d: DeviceOption| d@);
    devices.push(DeviceOption { id: -1, name: DEFAULT_DEVICE_NAME.to_owned() });
    assert(devices@.map_values(|d: DeviceOption| d@) =~= start.push((-1i32, DEFAULT_DEVICE_NAME@)));
    list_audio_input_devices(devices, probes)
}

/// What the lookup of the loopback device by its UID means: a device id
/// (zero is none) is offered under the display name; a failed lookup
/// becomes an error that names the UID.
pub fn fetch_hidden_output_device_macos(lookup: Result<Option<u32>, String>) -> (r: Result<
    Option<DeviceOption>,
    String,
>)
    ensures
        match lookup {
            Ok(Some(id)) => r matches Ok(Some(d)) && d@ == (id as i32, LOCAL_ECHO_INTERNAL_DISPLAY_NAME@),
            Ok(None) => r matches Ok(None),
            Err(e) => r matches Err(m) && m@ == "Failed to fetch "@ + LOCAL_ECHO_INTERNAL_UID@
                + " output device: "@ + e@,
        },
{
    match lookup {
        Ok(Some(id)) => Ok(
            Some(DeviceOption { id: #[verifier::truncate] (id as i32), name: LOCAL_ECHO_INTERNAL_DISPLAY_NAME.to_owned() }),
        ),
        Ok(None) => Ok(None),
        Err(e) => {
            let mut message = "Failed to fetch ".to_owned();
            message.append(LOCAL_ECHO_INTERNAL_UID);
            message.append(" output device: ");
            message.append(e.as_str());
            Err(message)
        },
    }
}

} // verus!
