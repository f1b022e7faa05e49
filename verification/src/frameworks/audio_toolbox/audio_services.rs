//! `AudioServices.h`: system sounds. Nothing is played yet; sound ids are
//! handed out in turn.

use vstd::prelude::*;
use crate::environment::Environment;
use crate::mem::put_u32;

verus! {

/// A status code.
pub type OSStatus = i32;
/// Usually a FourCC.
pub type AudioServicesPropertyID = u32;
pub type SystemSoundID = u32;

/// The four-character code `pty?`.
pub const kAudioServicesUnsupportedPropertyError: OSStatus = 0x7074_793f;
/// The id that vibrates the device.
pub const kSystemSoundID_Vibrate: SystemSoundID = 0x0000_0FFF;

/// `AudioServicesGetProperty`: only the property `0xfff` is known, and it is
/// answered as unsupported.
pub fn AudioServicesGetProperty(
    env: &mut Environment,
    in_property_id: AudioServicesPropertyID,
    in_specifier_size: u32,
    in_specifier: u32,
    io_property_data_size: u32,
    out_property_data: u32,
) -> (r: OSStatus)
    requires
        in_property_id == 0xfff,
    ensures
        *final(env) == *old(env),
        r == kAudioServicesUnsupportedPropertyError,
{
    kAudioServicesUnsupportedPropertyError
}

/// `AudioServicesPlaySystemSound`: does nothing yet.
pub fn AudioServicesPlaySystemSound(env: &mut Environment, in_system_sound_id: SystemSoundID)
    ensures
        *final(env) == *old(env),
{
}

/// `AudioServicesPlayAlertSound`: as `AudioServicesPlaySystemSound`.
pub fn AudioServicesPlayAlertSound(env: &mut Environment, in_system_sound_id: SystemSoundID)
    ensures
        *final(env) == *old(env),
{
    AudioServicesPlaySystemSound(env, in_system_sound_id)
}

/// `AudioServicesCreateSystemSoundID`: writes the next sound id to
/// `out_system_sound_id` and returns 0; a null destination gives
/// `kAudioServicesUnsupportedPropertyError`.
pub fn AudioServicesCreateSystemSoundID(env: &mut Environment, in_file_url: u32, out_system_sound_id: u32) -> (r: OSStatus)
    requires
        old(env).wf(),
        out_system_sound_id != 0 ==> out_system_sound_id + 4 <= old(env).mem@.len(),
        old(env).framework_state.next_sound_id < u32::MAX,
    ensures
        out_system_sound_id == 0 ==> r == kAudioServicesUnsupportedPropertyError && *final(env) == *old(env),
        out_system_sound_id != 0 ==> {
            let n = old(env).framework_state.next_sound_id;
            &&& r == 0
            &&& final(env).mem@ == put_u32(old(env).mem@, out_system_sound_id as int, n as int)
            &&& final(env).mem.heap_top() == old(env).mem.heap_top()
            &&& final(env).framework_state == (crate::frameworks::FrameworkState { next_sound_id: (n + 1) as u32, ..old(env).framework_state })
            &&& final(env).wf()
            &&& final(env).errno == old(env).errno
            &&& final(env).libc_state == old(env).libc_state
            &&& final(env).threads@ == old(env).threads@
            &&& final(env).current_thread == old(env).current_thread
            &&& final(env).objc.objects@ == old(env).objc.objects@
        },
{
    if out_system_sound_id == 0 {
        return kAudioServicesUnsupportedPropertyError;
    }
    let id = env.framework_state.next_sound_id;
    env.framework_state.next_sound_id = id + 1;
    env.mem.write_u32(out_system_sound_id, id);
    0
}

/// `AudioServicesDisposeSystemSoundID`: does nothing.
pub fn AudioServicesDisposeSystemSoundID(env: &mut Environment, in_system_sound_id: SystemSoundID)
    ensures
        *final(env) == *old(env),
{
}

/// `AudioServicesAddSystemSoundCompletion`: accepted (0), though
/// completions are never called.
pub fn AudioServicesAddSystemSoundCompletion(
    env: &mut Environment,
    in_system_sound_id: SystemSoundID,
    in_run_loop: u32,
    in_run_loop_mode: u32,
    in_completion_proc: u32,
    in_client_data: u32,
) -> (r: OSStatus)
    ensures
        *final(env) == *old(env),
        r == 0,
{
    0
}

} // verus!
