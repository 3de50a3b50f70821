//! Plain values shared by the codec, the pass builder and the executor.
use vstd::prelude::*;

verus! {

/// A generational handle into a resource table: a slot and the epoch the slot
/// had when the resource was stored there.
#[derive(PartialEq, Eq, Structural, Clone, Copy, Debug, Hash)]
pub struct Id {
    pub index: u32,
    pub epoch: u32,
}

/// A rectangle; viewports carry their coordinates as `f32` bit patterns.
#[derive(PartialEq, Eq, Structural, Clone, Copy, Debug, Default)]
pub struct Rect<T> {
    pub x: T,
    pub y: T,
    pub w: T,
    pub h: T,
}

/// A color whose channels are `f64` bit patterns, handed on to the backend untouched.
#[derive(PartialEq, Eq, Structural, Clone, Copy, Debug)]
pub struct Color {
    pub r: u64,
    pub g: u64,
    pub b: u64,
    pub a: u64,
}

#[derive(PartialEq, Eq, Structural, Clone, Copy, Debug, Hash)]
pub enum LoadOp {
    Clear,
    Load,
}

#[derive(PartialEq, Eq, Structural, Clone, Copy, Debug, Hash)]
pub enum StoreOp {
    Clear,
    Store,
}

#[derive(PartialEq, Eq, Structural, Clone, Copy, Debug, Hash)]
pub enum IndexFormat {
    Uint16,
    Uint32,
}

#[derive(PartialEq, Eq, Structural, Clone, Copy, Debug, Hash)]
pub enum InputStepMode {
    Vertex,
    Instance,
}

/// A texture format, by its backend-independent code.
#[derive(PartialEq, Eq, Structural, Clone, Copy, Debug, Hash)]
pub struct TextureFormat {
    pub code: u32,
}

/// The width, height and depth of an attachment.
#[derive(PartialEq, Eq, Structural, Clone, Copy, Debug, Hash)]
pub struct Extent3d {
    pub width: u32,
    pub height: u32,
    pub depth: u32,
}

/// Supported physical device types.
#[derive(PartialEq, Eq, Structural, Clone, Copy, Debug)]
pub enum DeviceType {
    /// Other.
    Other,
    /// Integrated GPU with shared CPU/GPU memory.
    IntegratedGpu,
    /// Discrete GPU with separate CPU/GPU memory.
    DiscreteGpu,
    /// Virtual / Hosted.
    VirtualGpu,
    /// Cpu / Software Rendering.
    Cpu,
}

/// A color attachment of a render pass.
#[derive(PartialEq, Eq, Structural, Clone, Copy, Debug)]
pub struct ColorAttachmentDescriptor {
    pub attachment: Id,
    pub resolve_target: Option<Id>,
    pub load_op: LoadOp,
    pub store_op: StoreOp,
    pub clear_color: Color,
}

/// The depth-stencil attachment of a render pass; `clear_depth` is an `f32` bit pattern.
#[derive(PartialEq, Eq, Structural, Clone, Copy, Debug)]
pub struct DepthStencilAttachmentDescriptor {
    pub attachment: Id,
    pub depth_load_op: LoadOp,
    pub depth_store_op: StoreOp,
    pub clear_depth: u32,
    pub depth_read_only: bool,
    pub stencil_load_op: LoadOp,
    pub stencil_store_op: StoreOp,
    pub clear_stencil: u32,
    pub stencil_read_only: bool,
}

/// The attachments a render pass draws into.
#[derive(Clone, Debug)]
pub struct RenderPassDescriptor {
    pub color_attachments: Vec<ColorAttachmentDescriptor>,
    pub depth_stencil_attachment: Option<DepthStencilAttachmentDescriptor>,
}

/// A buffer size that stands for "from the offset to the end of the buffer".
pub const WHOLE_SIZE: u64 = 0xffff_ffff_ffff_ffff;

/// The most color attachments a pass can have.
pub const MAX_COLOR_TARGETS: usize = 4;

/// The most vertex buffer slots a pipeline can use.
pub const MAX_VERTEX_BUFFERS: usize = 16;

} // verus!
