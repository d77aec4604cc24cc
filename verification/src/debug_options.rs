//! The renderer's debug displays.
use vstd::prelude::*;
use webrender_api::DebugFlags;

verus! {

/// A debug display that can be switched on and off while the engine runs.
#[derive(Clone, Copy, Debug, PartialEq, Eq, Structural)]
pub enum WebRenderDebugOption {
    Profiler,
    TextureCacheDebug,
    RenderTargetDebug,
}

/// The bits of `DebugFlags::PROFILER_DBG`, `GPU_TIME_QUERIES` and `GPU_SAMPLE_QUERIES` of
/// `webrender_api`: the first, the fourth and the fifth.
#[verifier::external_body]
fn profiler_flags() -> (bits: u64)
    ensures
        bits == 0b11001,
{
    (DebugFlags::PROFILER_DBG | DebugFlags::GPU_TIME_QUERIES | DebugFlags::GPU_SAMPLE_QUERIES).bits()
}

/// The bit of `DebugFlags::TEXTURE_CACHE_DBG` of `webrender_api`: the third.
#[verifier::external_body]
fn texture_cache_flag() -> (bits: u64)
    ensures
        bits == 0b100,
{
    DebugFlags::TEXTURE_CACHE_DBG.bits()
}

/// The bit of `DebugFlags::RENDER_TARGET_DBG` of `webrender_api`: the second.
#[verifier::external_body]
fn render_target_flag() -> (bits: u64)
    ensures
        bits == 0b10,
{
    DebugFlags::RENDER_TARGET_DBG.bits()
}

/// Calls `DebugFlags::toggle` of `webrender_api`, which flips the given bits.
#[verifier::external_body]
fn toggle_flags(flags: u64, flag: u64) -> (bits: u64)
    ensures
        bits == flags ^ flag,
{
    let mut toggled = DebugFlags::from_bits_retain(flags);
    toggled.toggle(DebugFlags::from_bits_retain(flag));
    toggled.bits()
}

/// The bits that belong to a debug display.
pub open spec fn option_bits(option: WebRenderDebugOption) -> u64 {
    match option {
        WebRenderDebugOption::Profiler => 0b11001,
        WebRenderDebugOption::TextureCacheDebug => 0b100,
        WebRenderDebugOption::RenderTargetDebug => 0b10,
    }
}

/// The renderer's flags once the display is switched on or off.
pub fn toggled_debug_flags(flags: u64, option: WebRenderDebugOption) -> (bits: u64)
    ensures
        bits == flags ^ option_bits(option),
{
    let flag: u64 = match option {
        WebRenderDebugOption::Profiler => profiler_flags(),
        WebRenderDebugOption::TextureCacheDebug => texture_cache_flag(),
        WebRenderDebugOption::RenderTargetDebug => render_target_flag(),
    };
    toggle_flags(flags, flag)
}

/// Switching a display twice leaves everything as it was.
pub proof fn law_toggling_twice_restores(flags: u64, option: WebRenderDebugOption)
    ensures
        flags ^ option_bits(option) ^ option_bits(option) == flags,
{
    let b = option_bits(option);
    assert(flags ^ b ^ b == flags) by (bit_vector);
}

} // verus!
