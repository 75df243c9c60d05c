//! The shading modes of the final shading pass.
use vstd::prelude::*;

verus! {

/// What the shading pass writes: the fully lit image, or one of its ingredients.
#[derive(Debug, Clone, Copy, PartialEq, Eq, Structural)]
pub enum ShadingMode {
    Full,
    LightingOnly,
    Albedo,
    Normals,
    Texcoords,
    Emission,
    Velocity,
    Fog,
    SimpleLighting,
}

impl ShadingMode {
    /// The number the shading shader receives for this mode: its position in the declaration.
    pub open spec fn spec_code(self) -> u32 {
        match self {
            ShadingMode::Full => 0,
            ShadingMode::LightingOnly => 1,
            ShadingMode::Albedo => 2,
            ShadingMode::Normals => 3,
            ShadingMode::Texcoords => 4,
            ShadingMode::Emission => 5,
            ShadingMode::Velocity => 6,
            ShadingMode::Fog => 7,
            ShadingMode::SimpleLighting => 8,
        }
    }

    /// The number the shading shader receives for this mode.
    pub fn code(&self) -> (r: u32)
        ensures
            r == self.spec_code(),
    {
        match self {
            ShadingMode::Full => 0,
            ShadingMode::LightingOnly => 1,
            ShadingMode::Albedo => 2,
            ShadingMode::Normals => 3,
            ShadingMode::Texcoords => 4,
            ShadingMode::Emission => 5,
            ShadingMode::Velocity => 6,
            ShadingMode::Fog => 7,
            ShadingMode::SimpleLighting => 8,
        }
    }

    /// The name shown for this mode.
    pub open spec fn spec_name(self) -> Seq<char> {
        match self {
            ShadingMode::Full => "Full"@,
            ShadingMode::LightingOnly => "Lighting Only"@,
            ShadingMode::Albedo => "Albedo"@,
            ShadingMode::Normals => "Normals"@,
            ShadingMode::Texcoords => "Texcoords"@,
            ShadingMode::Emission => "Emission"@,
            ShadingMode::Velocity => "Velocity"@,
            ShadingMode::Fog => "Fog"@,
            ShadingMode::SimpleLighting => "Simple Lighting"@,
        }
    }

    /// The name shown for this mode.
    pub fn name(&self) -> (r: &'static str)
        ensures
            r@ == self.spec_name(),
    {
        match self {
            ShadingMode::Full => "Full",
            ShadingMode::LightingOnly => "Lighting Only",
            ShadingMode::Albedo => "Albedo",
            ShadingMode::Normals => "Normals",
            ShadingMode::Texcoords => "Texcoords",
            ShadingMode::Emission => "Emission",
            ShadingMode::Velocity => "Velocity",
            ShadingMode::Fog => "Fog",
            ShadingMode::SimpleLighting => "Simple Lighting",
        }
    }

    /// The name shown for this mode, as an owned string.
    pub fn to_string(&self) -> (r: String)
        ensures
            r@ == self.spec_name(),
    {
        self.name().to_owned()
    }
}

impl Default for ShadingMode {
    fn default() -> (r: Self)
        ensures
            r == ShadingMode::Full,
    {
        ShadingMode::Full
    }
}

} // verus!
