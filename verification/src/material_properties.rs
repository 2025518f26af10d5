//! The switches of a mesh material and the integer words of its uniform buffer.
//!
//! A material keeps its settings beside a copy of the uniform buffer that the
//! GPU reads. The copy is rewritten by the setters that refresh the buffer;
//! choosing the alpha mode or the double-sided flag does not refresh it, so the
//! buffer's alpha word keeps the mode of the last refresh.
use vstd::prelude::*;

verus! {

/// How to treat the alpha channel of fragment colors.
#[derive(Clone, Copy, Debug, PartialEq, Eq, Structural)]
pub enum AlphaMode {
    /// mesh is opaque (cant see through it)
    Opaque,
    /// mesh is opaque to a point before being culled
    Mask,
    /// mesh opacity is same as alpha
    Blend,
}

impl AlphaMode {
    /// The buffer word for the mode: 0 opaque, 1 mask, 2 blend.
    pub open spec fn code(self) -> u32 {
        match self {
            AlphaMode::Opaque => 0,
            AlphaMode::Mask => 1,
            AlphaMode::Blend => 2,
        }
    }

    /// The buffer word for the mode.
    pub fn buffer_code(&self) -> (r: u32)
        ensures
            r == self.code(),
    {
        match self {
            AlphaMode::Opaque => 0,
            AlphaMode::Mask => 1,
            AlphaMode::Blend => 2,
        }
    }
}

impl Default for AlphaMode {
    fn default() -> (m: AlphaMode)
        ensures
            m == AlphaMode::Opaque,
    {
        AlphaMode::Opaque
    }
}

/// The buffer word for the unlit switch: 1 unlit, 0 lit.
pub open spec fn unlit_code(unlit: bool) -> u32 {
    if unlit {
        1
    } else {
        0
    }
}

/// The integer words of the material's uniform buffer.
#[derive(Clone, Copy, Debug, PartialEq, Eq, Structural)]
pub struct MaterialBufferFlags {
    /// 0 opaque, 1 mask, 2 blend
    pub alpha_mode: u32,
    /// 0 lit, 1 unlit
    pub unlit: u32,
}

/// The switches of a material, with the buffer words last written for them.
#[derive(Clone, Copy, Debug, PartialEq, Eq, Structural)]
pub struct MaterialProperties {
    double_sided: bool,
    alpha_mode: AlphaMode,
    unlit: bool,
    buffer: MaterialBufferFlags,
}

impl MaterialProperties {
    pub closed spec fn is_double_sided(self) -> bool {
        self.double_sided
    }

    pub closed spec fn mode(self) -> AlphaMode {
        self.alpha_mode
    }

    pub closed spec fn is_unlit(self) -> bool {
        self.unlit
    }

    /// The buffer words as last written.
    pub closed spec fn buffer(self) -> MaterialBufferFlags {
        self.buffer
    }

    /// The buffer words that the current switches call for.
    pub open spec fn fresh_buffer(self) -> MaterialBufferFlags {
        MaterialBufferFlags { alpha_mode: self.mode().code(), unlit: unlit_code(self.is_unlit()) }
    }

    /// Single-sided, opaque and lit, with the buffer written for that.
    pub fn new() -> (m: Self)
        ensures
            !m.is_double_sided(),
            m.mode() == AlphaMode::Opaque,
            !m.is_unlit(),
            m.buffer() == m.fresh_buffer(),
    {
        MaterialProperties {
            double_sided: false,
            alpha_mode: AlphaMode::Opaque,
            unlit: false,
            buffer: MaterialBufferFlags { alpha_mode: 0, unlit: 0 },
        }
    }

    /// Rewrite the buffer words from the current switches; every setter of a
    /// buffered factor does this.
    pub fn update_buffer(&mut self)
        ensures
            final(self).is_double_sided() == old(self).is_double_sided(),
            final(self).mode() == old(self).mode(),
            final(self).is_unlit() == old(self).is_unlit(),
            final(self).buffer() == old(self).fresh_buffer(),
    {
        let unlit: u32 = if self.unlit {
            1
        } else {
            0
        };
        self.buffer = MaterialBufferFlags { alpha_mode: self.alpha_mode.buffer_code(), unlit };
    }

    /// Double sided; the buffer is left as it was.
    pub fn with_double_sided(self, double_sided: bool) -> (m: Self)
        ensures
            m.is_double_sided() == double_sided,
            m.mode() == self.mode(),
            m.is_unlit() == self.is_unlit(),
            m.buffer() == self.buffer(),
    {
        MaterialProperties { double_sided, ..self }
    }

    pub fn double_sided(&self) -> (r: bool)
        ensures
            r == self.is_double_sided(),
    {
        self.double_sided
    }

    /// Alpha mode; the buffer is left as it was.
    pub fn with_alpha_mode(self, alpha_mode: AlphaMode) -> (m: Self)
        ensures
            m.is_double_sided() == self.is_double_sided(),
            m.mode() == alpha_mode,
            m.is_unlit() == self.is_unlit(),
            m.buffer() == self.buffer(),
    {
        MaterialProperties { alpha_mode, ..self }
    }

    pub fn alpha_mode(&self) -> (r: AlphaMode)
        ensures
            r == self.mode(),
    {
        self.alpha_mode
    }

    /// Unlit (skip lighting calculations); the buffer is rewritten.
    pub fn with_unlit(self, unlit: bool) -> (m: Self)
        ensures
            m.is_double_sided() == self.is_double_sided(),
            m.mode() == self.mode(),
            m.is_unlit() == unlit,
            m.buffer() == m.fresh_buffer(),
    {
        let mut m = MaterialProperties { unlit, ..self };
        m.update_buffer();
        m
    }

    pub fn unlit(&self) -> (r: bool)
        ensures
            r == self.is_unlit(),
    {
        self.unlit
    }

    /// The buffer words as last written.
    pub fn buffer_flags(&self) -> (r: MaterialBufferFlags)
        ensures
            r == self.buffer(),
    {
        self.buffer
    }
}

} // verus!
