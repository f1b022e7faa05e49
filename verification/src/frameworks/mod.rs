//! The system frameworks offered to guest code, over the object store.

pub mod foundation;
pub mod core_foundation;
pub mod core_graphics;
pub mod uikit;
pub mod audio_toolbox;

use vstd::prelude::*;
use crate::objc::id;
use core_foundation::cf_bundle::BundleData;
use core_graphics::cg_color::CGColorState;

verus! {

/// State the frameworks keep between calls.
pub struct FrameworkState {
    /// The application's bundle object (`nil` until one is made).
    pub main_bundle: id,
    /// What the application's own bundle knows of itself.
    pub app_bundle: BundleData,
    /// The user's preferred languages, most preferred first.
    pub preferred_languages: Vec<Vec<u8>>,
    /// The main thread's run loop (`nil` until one is made).
    pub main_run_loop: id,
    /// The run loops of other threads, by thread.
    pub thread_run_loops: Vec<(u32, id)>,
    pub cg_color: CGColorState,
    /// The next system sound id to hand out.
    pub next_sound_id: u32,
}

} // verus!
