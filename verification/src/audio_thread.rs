use vstd::prelude::*;

verus! {

/// The position of the first device called `wanted` in the list of device names.
pub fn position_of_name(names: &Vec<String>, wanted: &str) -> (r: Option<usize>)
    ensures
        r matches Some(i) ==> i < names@.len() && names@[i as int]@ == wanted@ && forall|k: int|
            0 <= k < i ==> names@[k]@ != wanted@,
        r is None ==> forall|k: int| 0 <= k < names@.len() ==> names@[k]@ != wanted@,
{
    let w: String = wanted.to_owned();
    let n = names.len();
    for i in 0..n
        invariant
            n == names@.len(),
            w@ == wanted@,
            forall|k: int| 0 <= k < i ==> names@[k]@ != wanted@,
    {
        if names[i].eq(&w) {
            return Some(i);
        }
    }
    None
}

/// The name of the input device the application listens to.
pub open spec fn listening_device_name() -> Seq<char> {
    "BlackHole 2ch"@
}

/// The input device the application records from: the first one called "BlackHole 2ch".
pub fn find_input_device(names: &Vec<String>) -> (r: Option<usize>)
    ensures
        r matches Some(i) ==> i < names@.len() && names@[i as int]@ == listening_device_name()
            && forall|k: int| 0 <= k < i ==> names@[k]@ != listening_device_name(),
        r is None ==> forall|k: int| 0 <= k < names@.len() ==> names@[k]@ != listening_device_name(),
{
    position_of_name(names, "BlackHole 2ch")
}

/// The device `get_device` picks: the first one called "default".  The requested name is
/// not consulted.
pub fn get_device(names: &Vec<String>, _name: &str) -> (r: Option<usize>)
    ensures
        r matches Some(i) ==> i < names@.len() && names@[i as int]@ == "default"@ && forall|k: int|
            0 <= k < i ==> names@[k]@ != "default"@,
        r is None ==> forall|k: int| 0 <= k < names@.len() ==> names@[k]@ != "default"@,
{
    position_of_name(names, "default")
}

/// How many frames the audio driver delivers per callback.
#[derive(Clone, Copy, Debug, PartialEq, Eq, Structural)]
pub enum BufferSize {
    /// Whatever the driver prefers.
    Default,
    /// Exactly this many frames.
    Fixed(u32),
}

/// The shape of the input stream asked of the audio driver.
#[derive(Clone, Copy, Debug, PartialEq, Eq, Structural)]
pub struct StreamSettings {
    pub channels: u16,
    pub sample_rate: u32,
    pub buffer_size: BufferSize,
}

/// Sample rate of the stand-alone capture stream.
pub const CAPTURE_SAMPLE_RATE: u32 = 44100;

/// The stand-alone capture stream: mono, 44100 Hz, driver-chosen buffers.
pub fn capture_stream_settings() -> (s: StreamSettings)
    ensures
        s == (StreamSettings {
            channels: 1,
            sample_rate: CAPTURE_SAMPLE_RATE,
            buffer_size: BufferSize::Default,
        }),
{
    StreamSettings { channels: 1, sample_rate: CAPTURE_SAMPLE_RATE, buffer_size: BufferSize::Default }
}

/// The application's stream: mono, at the chosen sample rate, one transform's worth of
/// frames per callback.
pub fn app_stream_settings(sample_rate: u32, fft_size: u32) -> (s: StreamSettings)
    ensures
        s == (StreamSettings {
            channels: 1,
            sample_rate,
            buffer_size: BufferSize::Fixed(fft_size),
        }),
{
    StreamSettings { channels: 1, sample_rate, buffer_size: BufferSize::Fixed(fft_size) }
}

} // verus!
