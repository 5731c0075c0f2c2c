//! The graphics back end shown in the status overlay.
use vstd::prelude::*;

verus! {

/// The graphics back ends.
#[derive(Clone, Copy, Debug, PartialEq, Eq, Structural)]
pub enum GpuBackend {
    Noop,
    Vulkan,
    Metal,
    Dx12,
    Gl,
    BrowserWebGpu,
}

/// How the back end is shown.
#[derive(Clone, Copy, Debug, PartialEq, Eq, Structural)]
pub enum BackendTier {
    /// Vulkan, Metal, Direct3D 12 or WebGPU (green).
    Modern,
    /// OpenGL / WebGL (blue).
    OpenGl,
    /// Anything else (yellow).
    Other,
}

/// The tier of a back end.
pub fn backend_tier(b: GpuBackend) -> (t: BackendTier)
    ensures
        (b == GpuBackend::Vulkan || b == GpuBackend::Metal || b == GpuBackend::Dx12 || b
            == GpuBackend::BrowserWebGpu) <==> t == BackendTier::Modern,
        b == GpuBackend::Gl <==> t == BackendTier::OpenGl,
        b == GpuBackend::Noop <==> t == BackendTier::Other,
{
    match b {
        GpuBackend::Vulkan | GpuBackend::Metal | GpuBackend::Dx12 | GpuBackend::BrowserWebGpu => BackendTier::Modern,
        GpuBackend::Gl => BackendTier::OpenGl,
        _ => BackendTier::Other,
    }
}

} // verus!
