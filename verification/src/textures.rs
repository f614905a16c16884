use vstd::prelude::*;

verus! {

/// Holds a texture object handle.  A handle of zero means "no
/// object"; a well-formed `Texture` holds a nonzero handle.
pub struct Texture(pub u32);

impl Texture {
    pub open spec fn wf(self) -> bool {
        self.0 != 0
    }

    /// Wraps a raw handle freshly generated by the driver; a zero
    /// handle signals an allocation failure and yields `None`.
    pub fn from_raw(id: u32) -> (r: Option<Texture>)
        ensures
            r is Some <==> id != 0,
            r is Some ==> (r->0).0 == id && (r->0).wf(),
    {
        if id != 0 {
            Some(Texture(id))
        } else {
            None
        }
    }
}

/// Represents the types of textures.
#[derive(Debug, Clone, Copy, PartialEq, Eq, Structural)]
pub enum TextureType {
    /// Standard two-dimensional texture.
    Tex2d,
}

/// Represents the directions of texture wrapping.
#[derive(Debug, Clone, Copy, PartialEq, Eq, Structural)]
pub enum TexDirectionWrap {
    /// The x direction.
    X,
    /// The y direction.
    Y,
}

/// Represents the repeat behaviours at the edge of a texture.
#[derive(Debug, Clone, Copy, PartialEq, Eq, Structural)]
pub enum TexWrapBehaviour {
    /// Repeats the texture by tiling it.
    Repeat,
    /// Repeats the texture by flipping at the edge.
    MirroredRepeat,
    /// Clamps coordinates to the edge, smearing the edge colours.
    ClampToEdge,
    /// Coordinates outside the texture read a separate border colour.
    ClampToBorder,
}

/// Represents the kinds of texture scaling.
#[derive(Debug, Clone, Copy, PartialEq, Eq, Structural)]
pub enum TexScaleType {
    /// Minifying operations.
    Minify,
    /// Magnifying operations.
    Magnify,
}

/// Represents the options for texture scaling.
#[derive(Debug, Clone, Copy, PartialEq, Eq, Structural)]
pub enum TexScaleOp {
    /// Copies the nearest texel outright.
    Nearest,
    /// Interpolates between the four neighbouring texels.
    Linear,
    /// Nearest mipmap, nearest-texel sampling; minification only.
    NearestMipmapNearest,
    /// Nearest mipmap, interpolated sampling; minification only.
    LinearMipmapNearest,
    /// Interpolated mipmaps, nearest-texel sampling; minification only.
    NearestMipmapLinear,
    /// Interpolated mipmaps, interpolated sampling; minification only.
    LinearMipmapLinear,
}

/// Whether a scaling behaviour may be set for this kind of scaling:
/// magnification accepts only the non-mipmap behaviours, and a
/// mismatch is refused without touching the driver.
pub fn scale_behaviour_valid(scale: TexScaleType, behaviour: TexScaleOp) -> (r: bool)
    ensures
        r <==> (scale is Minify || behaviour is Nearest || behaviour is Linear),
{
    match scale {
        TexScaleType::Minify => true,
        TexScaleType::Magnify => match behaviour {
            TexScaleOp::Nearest => true,
            TexScaleOp::Linear => true,
            _ => false,
        },
    }
}

} // verus!
