//! Image-based-lighting environment settings.
use vstd::prelude::*;

verus! {

/// Resolution scale factor for environment maps.
#[derive(Clone, Copy, Debug, PartialEq, Eq, Structural)]
pub enum ResolutionScale {
    /// Use full source resolution (default)
    Full,
    /// Use half resolution (1/2)
    Half,
    /// Use quarter resolution (1/4)
    Quarter,
    /// Use eighth resolution (1/8)
    Eighth,
}

impl ResolutionScale {
    /// The integer factor a resolution is divided by.
    pub open spec fn divisor(self) -> nat {
        match self {
            ResolutionScale::Full => 1,
            ResolutionScale::Half => 2,
            ResolutionScale::Quarter => 4,
            ResolutionScale::Eighth => 8,
        }
    }

    /// Apply the scale to a resolution value.
    pub fn apply(&self, resolution: u32) -> (r: u32)
        ensures
            r == resolution as nat / self.divisor(),
    {
        match self {
            ResolutionScale::Full => resolution,
            ResolutionScale::Half => resolution / 2,
            ResolutionScale::Quarter => resolution / 4,
            ResolutionScale::Eighth => resolution / 8,
        }
    }
}

/// The resolution settings of an image-based-lighting environment: how the
/// cubemap is scaled from the source image, and the side lengths of the
/// irradiance map, the prefiltered specular map and the BRDF lookup table.
#[derive(Clone, Copy, Debug, PartialEq, Eq, Structural)]
pub struct Environment {
    cubemap_scale: ResolutionScale,
    irradiance_resolution: u32,
    prefilter_resolution: u32,
    brdf_resolution: u32,
}

impl Environment {
    /// The scale applied to the source image height to size the cubemap.
    pub closed spec fn scale(self) -> ResolutionScale {
        self.cubemap_scale
    }

    /// Side length of the irradiance map.
    pub closed spec fn irradiance(self) -> u32 {
        self.irradiance_resolution
    }

    /// Side length of the prefiltered specular map.
    pub closed spec fn prefilter(self) -> u32 {
        self.prefilter_resolution
    }

    /// Side length of the BRDF lookup table.
    pub closed spec fn brdf(self) -> u32 {
        self.brdf_resolution
    }

    /// Whether the four settings are the given ones.
    pub open spec fn has_settings(self, scale: ResolutionScale, irradiance: u32, prefilter: u32, brdf: u32) -> bool {
        &&& self.scale() == scale
        &&& self.irradiance() == irradiance
        &&& self.prefilter() == prefilter
        &&& self.brdf() == brdf
    }

    /// Full-resolution cubemap, 32 irradiance, 128 prefilter, 512 BRDF.
    pub fn new() -> (e: Self)
        ensures
            e.has_settings(ResolutionScale::Full, 32, 128, 512),
    {
        Environment {
            cubemap_scale: ResolutionScale::Full,
            irradiance_resolution: 32,
            prefilter_resolution: 128,
            brdf_resolution: 512,
        }
    }

    /// Set the resolution scale for the cubemap.
    pub fn with_resolution_scale(self, scale: ResolutionScale) -> (e: Self)
        ensures
            e.has_settings(scale, self.irradiance(), self.prefilter(), self.brdf()),
    {
        Environment { cubemap_scale: scale, ..self }
    }

    /// The cubemap resolution: the source image height (an equirectangular
    /// map is twice as wide as it is high) divided by the scale, or `None`
    /// while the source image is not available.
    pub fn get_cubemap_resolution(&self, source_height: Option<u32>) -> (r: Option<u32>)
        ensures
            r == (match source_height {
                Some(h) => Some((h as nat / self.scale().divisor()) as u32),
                None => None::<u32>,
            }),
    {
        match source_height {
            Some(h) => Some(self.cubemap_scale.apply(h)),
            None => None,
        }
    }

    /// Set a custom irradiance map resolution.
    pub fn with_irradiance_resolution(self, resolution: u32) -> (e: Self)
        ensures
            e.has_settings(self.scale(), resolution, self.prefilter(), self.brdf()),
    {
        Environment { irradiance_resolution: resolution, ..self }
    }

    /// Set a custom prefilter map resolution.
    pub fn with_prefilter_resolution(self, resolution: u32) -> (e: Self)
        ensures
            e.has_settings(self.scale(), self.irradiance(), resolution, self.brdf()),
    {
        Environment { prefilter_resolution: resolution, ..self }
    }

    /// Set a custom BRDF lookup table resolution.
    pub fn with_brdf_resolution(self, resolution: u32) -> (e: Self)
        ensures
            e.has_settings(self.scale(), self.irradiance(), self.prefilter(), resolution),
    {
        Environment { brdf_resolution: resolution, ..self }
    }

    /// Low quality preset: quarter-resolution cubemap, 16 / 64 / 256.
    pub fn quality_low(self) -> (e: Self)
        ensures
            e.has_settings(ResolutionScale::Quarter, 16, 64, 256),
    {
        Environment {
            cubemap_scale: ResolutionScale::Quarter,
            irradiance_resolution: 16,
            prefilter_resolution: 64,
            brdf_resolution: 256,
        }
    }

    /// Medium quality preset: half-resolution cubemap, 32 / 128 / 512.
    pub fn quality_medium(self) -> (e: Self)
        ensures
            e.has_settings(ResolutionScale::Half, 32, 128, 512),
    {
        Environment {
            cubemap_scale: ResolutionScale::Half,
            irradiance_resolution: 32,
            prefilter_resolution: 128,
            brdf_resolution: 512,
        }
    }

    /// High quality preset: the default settings.
    pub fn quality_high(self) -> (e: Self)
        ensures
            e.has_settings(ResolutionScale::Full, 32, 128, 512),
    {
        Environment {
            cubemap_scale: ResolutionScale::Full,
            irradiance_resolution: 32,
            prefilter_resolution: 128,
            brdf_resolution: 512,
        }
    }

    pub fn get_irradiance_resolution(&self) -> (r: u32)
        ensures
            r == self.irradiance(),
    {
        self.irradiance_resolution
    }

    pub fn get_prefilter_resolution(&self) -> (r: u32)
        ensures
            r == self.prefilter(),
    {
        self.prefilter_resolution
    }

    pub fn get_brdf_resolution(&self) -> (r: u32)
        ensures
            r == self.brdf(),
    {
        self.brdf_resolution
    }

    pub fn get_resolution_scale(&self) -> (r: ResolutionScale)
        ensures
            r == self.scale(),
    {
        self.cubemap_scale
    }
}

} // verus!
