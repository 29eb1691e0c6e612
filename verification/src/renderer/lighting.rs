//! The frame lighting and its persistent settings: the ambient light, the
//! lights submitted per frame, the environment (cubemap, sky, exposure)
//! and the directional shadow settings.

use vstd::prelude::*;
use super::Renderer;
use crate::backend::{environment_bound, one_call, shadow_bound, BackendCall, GraphicsBackend, ShadowConfig};
use crate::error::{RenderError, ResourceKind};
use crate::floats::{finite, finite_non_negative, finite_positive, is_finite, is_finite_non_negative, is_finite_positive};
use crate::frame::FrameEnvironment;
use crate::handles::TextureHandle;
use crate::lights::{collect_lights, collected, light_valid, valid_light, FrameLights, Light};
use crate::math::{Color, Vec3};
use crate::textures::TextureKind;

verus! {

/// The environment to set: a cubemap, its intensity (bit pattern) and
/// whether the sky is drawn from it.
#[derive(Clone, Copy, Debug)]
pub struct EnvironmentDescriptor {
    pub cubemap: TextureHandle,
    pub intensity: u32,
    pub sky: bool,
}

impl EnvironmentDescriptor {
    /// The environment of `cubemap` at intensity 1, its sky drawn.
    pub fn new(cubemap: TextureHandle) -> (d: Self)
        ensures
            d == (EnvironmentDescriptor { cubemap, intensity: crate::math::ONE_BITS, sky: true }),
    {
        EnvironmentDescriptor { cubemap, intensity: crate::math::ONE_BITS, sky: true }
    }

    /// The same environment at another intensity (bit pattern).
    pub fn with_intensity(self, intensity: u32) -> (d: Self)
        ensures
            d == (EnvironmentDescriptor { intensity, ..self }),
    {
        EnvironmentDescriptor { intensity, ..self }
    }

    /// The same environment, its sky drawn or not.
    pub fn with_sky(self, sky: bool) -> (d: Self)
        ensures
            d == (EnvironmentDescriptor { sky, ..self }),
    {
        EnvironmentDescriptor { sky, ..self }
    }
}

/// The active environment.
#[derive(Clone, Copy, Debug, PartialEq, Eq, Structural)]
pub struct EnvironmentState {
    pub cubemap: TextureHandle,
    pub intensity: u32,
    pub sky: bool,
}

/// What the tools see of the active environment.
#[derive(Debug)]
pub struct EnvironmentInfo {
    pub label: String,
    pub intensity: u32,
    pub sky: bool,
    pub mip_levels: u32,
}

/// The world box the directional shadow map covers (bit patterns).
#[derive(Clone, Copy, Debug, PartialEq, Eq, Structural)]
pub struct ShadowVolume {
    pub center: Vec3,
    pub half_extents: Vec3,
}

/// The directional shadow settings: map resolution, covered volume and
/// biases (bit patterns).
#[derive(Clone, Copy, Debug, PartialEq, Eq, Structural)]
pub struct DirectionalShadowDescriptor {
    pub resolution: u32,
    pub volume: ShadowVolume,
    pub depth_bias: u32,
    pub normal_bias: u32,
}

/// What the tools see of the shadow settings.
#[derive(Clone, Copy, Debug, PartialEq, Eq, Structural)]
pub struct DirectionalShadowInfo {
    pub resolution: u32,
    pub volume: ShadowVolume,
    pub depth_bias: u32,
    pub normal_bias: u32,
}

/// The default shadow map resolution.
pub const DEFAULT_SHADOW_RESOLUTION: u32 = 2048;

/// The default depth bias (0.005).
pub const DEFAULT_DEPTH_BIAS: u32 = 0x3BA3_D70A;

/// The default normal bias (0.01).
pub const DEFAULT_NORMAL_BIAS: u32 = 0x3C23_D70A;

/// The smallest and largest shadow map resolutions.
pub const MIN_SHADOW_RESOLUTION: u32 = 16;

pub const MAX_SHADOW_RESOLUTION: u32 = 8192;

/// Why shadow settings are refused, in checking order.
pub open spec fn shadow_rule(d: DirectionalShadowDescriptor) -> Option<RenderError> {
    if d.resolution < MIN_SHADOW_RESOLUTION || d.resolution > MAX_SHADOW_RESOLUTION {
        Some(RenderError::ShadowResolutionRange { resolution: d.resolution })
    } else if !(is_finite_positive(d.volume.half_extents.x) && is_finite_positive(d.volume.half_extents.y)
        && is_finite_positive(d.volume.half_extents.z) && is_finite(d.volume.center.x) && is_finite(
        d.volume.center.y,
    ) && is_finite(d.volume.center.z)) {
        Some(RenderError::ShadowVolume)
    } else if !(is_finite_non_negative(d.depth_bias) && is_finite_non_negative(d.normal_bias)) {
        Some(RenderError::ShadowBias)
    } else {
        None
    }
}

impl DirectionalShadowDescriptor {
    /// Settings covering `volume`, at the default resolution and biases.
    pub fn new(volume: ShadowVolume) -> (d: Self)
        ensures
            d == (DirectionalShadowDescriptor {
                resolution: DEFAULT_SHADOW_RESOLUTION,
                volume,
                depth_bias: DEFAULT_DEPTH_BIAS,
                normal_bias: DEFAULT_NORMAL_BIAS,
            }),
    {
        DirectionalShadowDescriptor {
            resolution: DEFAULT_SHADOW_RESOLUTION,
            volume,
            depth_bias: DEFAULT_DEPTH_BIAS,
            normal_bias: DEFAULT_NORMAL_BIAS,
        }
    }

    pub fn with_resolution(self, resolution: u32) -> (d: Self)
        ensures
            d == (DirectionalShadowDescriptor { resolution, ..self }),
    {
        DirectionalShadowDescriptor { resolution, ..self }
    }

    pub fn with_depth_bias(self, depth_bias: u32) -> (d: Self)
        ensures
            d == (DirectionalShadowDescriptor { depth_bias, ..self }),
    {
        DirectionalShadowDescriptor { depth_bias, ..self }
    }

    pub fn with_normal_bias(self, normal_bias: u32) -> (d: Self)
        ensures
            d == (DirectionalShadowDescriptor { normal_bias, ..self }),
    {
        DirectionalShadowDescriptor { normal_bias, ..self }
    }

    /// Checks the settings: resolution in 16..=8192, a finite volume with
    /// positive half extents, finite non-negative biases.
    pub fn validate(&self) -> (result: Result<(), RenderError>)
        ensures
            match shadow_rule(*self) {
                Some(RenderError::ShadowResolutionRange { resolution }) => result matches Err(
                    RenderError::ShadowResolutionRange { resolution: r },
                ) && r == resolution,
                Some(RenderError::ShadowVolume) => result matches Err(RenderError::ShadowVolume),
                Some(_) => result matches Err(RenderError::ShadowBias),
                None => result is Ok,
            },
    {
        if self.resolution < MIN_SHADOW_RESOLUTION || self.resolution > MAX_SHADOW_RESOLUTION {
            return Err(RenderError::ShadowResolutionRange { resolution: self.resolution });
        }
        let v = self.volume;
        if !(finite_positive(v.half_extents.x) && finite_positive(v.half_extents.y) && finite_positive(
            v.half_extents.z,
        ) && finite(v.center.x) && finite(v.center.y) && finite(v.center.z)) {
            return Err(RenderError::ShadowVolume);
        }
        if !(finite_non_negative(self.depth_bias) && finite_non_negative(self.normal_bias)) {
            return Err(RenderError::ShadowBias);
        }
        Ok(())
    }
}

impl<B: GraphicsBackend> Renderer<B> {
    /// Sets the ambient light, a persistent setting (black and 0 by
    /// default).
    pub fn set_ambient_light(&mut self, color: Color, intensity: u32)
        ensures
            final(self).ambient() == (color, intensity),
            final(self).same_resources(old(self)),
            final(self).same_frame(old(self)),
            final(self).backend() == old(self).backend(),
            final(self).environment() == old(self).environment(),
            final(self).exposure_bits() == old(self).exposure_bits(),
            final(self).shadow_settings() == old(self).shadow_settings(),
            final(self).surface() == old(self).surface(),
            final(self).last_clear() == old(self).last_clear(),
            final(self).limits() == old(self).limits(),
            final(self).wf() == old(self).wf(),
    {
        self.ambient_color = color;
        self.ambient_intensity = intensity;
    }

    /// The ambient light (color, intensity).
    pub fn ambient_light(&self) -> (ambient: (Color, u32))
        ensures
            ambient == self.ambient(),
    {
        (self.ambient_color, self.ambient_intensity)
    }

    /// Sets the environment, a persistent setting. The cubemap must be live
    /// and a cubemap, the intensity finite and non-negative; the backend is
    /// rebound only when the cubemap changes, and a backend refusal keeps
    /// the previous environment.
    pub fn set_environment(&mut self, descriptor: &EnvironmentDescriptor) -> (result: Result<(), RenderError>)
        requires
            old(self).wf(),
        ensures
            final(self).wf(),
            final(self).same_resources(old(self)),
            final(self).same_frame(old(self)),
            final(self).ambient() == old(self).ambient(),
            final(self).exposure_bits() == old(self).exposure_bits(),
            final(self).shadow_settings() == old(self).shadow_settings(),
            final(self).surface() == old(self).surface(),
            final(self).last_clear() == old(self).last_clear(),
            final(self).limits() == old(self).limits(),
            ({
                let textures = old(self).tracker().textures();
                let k = descriptor.cubemap.spec_key();
                let state = EnvironmentState {
                    cubemap: descriptor.cubemap,
                    intensity: descriptor.intensity,
                    sky: descriptor.sky,
                };
                &&& !textures.contains_key(k) ==> (result matches Err(RenderError::Stale(ResourceKind::Texture)))
                &&& textures.contains_key(k) && textures[k].kind != TextureKind::Cube ==> (result matches Err(
                    RenderError::NotACubemap { label },
                ) && label@ == textures[k].label@)
                &&& textures.contains_key(k) && textures[k].kind == TextureKind::Cube && !is_finite_non_negative(
                    descriptor.intensity,
                ) ==> (result matches Err(RenderError::EnvironmentIntensity { label }) && label@
                    == textures[k].label@)
                &&& textures.contains_key(k) && textures[k].kind == TextureKind::Cube && is_finite_non_negative(
                    descriptor.intensity,
                ) ==> {
                    &&& (old(self).environment() matches Some(e) && e.cubemap == descriptor.cubemap) ==> {
                        &&& result is Ok
                        &&& final(self).backend() == old(self).backend()
                    }
                    &&& result is Ok || result matches Err(RenderError::Backend(_))
                }
                &&& result is Ok ==> final(self).environment() == Some(state)
                &&& result is Err ==> final(self).environment() == old(self).environment()
                &&& (result is Err && !(result matches Err(RenderError::Backend(_)))) ==> final(self).backend()
                    == old(self).backend()
                &&& if textures.contains_key(k) && textures[k].kind == TextureKind::Cube && is_finite_non_negative(
                    descriptor.intensity,
                ) && !(old(self).environment() matches Some(e) && e.cubemap == descriptor.cubemap) {
                    environment_bound(
                        final(self).backend_calls(),
                        old(self).backend_calls(),
                        Some(descriptor.cubemap),
                        result,
                    )
                } else {
                    final(self).backend_calls() == old(self).backend_calls()
                }
            }),
    {
        let info = match self.lifetime.texture_info(descriptor.cubemap) {
            Some(info) => info,
            None => return Err(RenderError::Stale(ResourceKind::Texture)),
        };
        if info.kind != TextureKind::Cube {
            return Err(RenderError::NotACubemap { label: info.label.clone() });
        }
        if !finite_non_negative(descriptor.intensity) {
            return Err(RenderError::EnvironmentIntensity { label: info.label.clone() });
        }
        let rebind = match self.environment {
            Some(e) => e.cubemap != descriptor.cubemap,
            None => true,
        };
        if rebind {
            let answer = self.backend.set_environment(Some(descriptor.cubemap));
            proof {
                self.sent@ = self.sent@.push(BackendCall::SetEnvironment(Some(descriptor.cubemap), answer));
                assert(one_call(self.backend_calls(), old(self).backend_calls(), BackendCall::SetEnvironment(Some(descriptor.cubemap), answer)));
            }
            if let Err(e) = answer {
                return Err(RenderError::Backend(e));
            }
        }
        self.environment = Some(
            EnvironmentState { cubemap: descriptor.cubemap, intensity: descriptor.intensity, sky: descriptor.sky },
        );
        Ok(())
    }

    /// Clears the environment (the backend rebinds its black fallback, the
    /// sky disappears). Clearing without an environment changes nothing.
    pub fn clear_environment(&mut self) -> (result: Result<(), RenderError>)
        requires
            old(self).wf(),
        ensures
            final(self).wf(),
            final(self).same_resources(old(self)),
            final(self).same_frame(old(self)),
            final(self).ambient() == old(self).ambient(),
            final(self).exposure_bits() == old(self).exposure_bits(),
            final(self).shadow_settings() == old(self).shadow_settings(),
            final(self).surface() == old(self).surface(),
            final(self).last_clear() == old(self).last_clear(),
            final(self).limits() == old(self).limits(),
            old(self).environment() is None ==> result is Ok && final(self).backend() == old(self).backend()
                && final(self).environment() is None,
            old(self).environment() is Some ==> match result {
                Ok(()) => final(self).environment() is None,
                Err(e) => e is Backend && final(self).environment() == old(self).environment(),
            },
            old(self).environment() is Some ==> environment_bound(final(self).backend_calls(), old(self).backend_calls(), None, result),
            old(self).environment() is None ==> final(self).backend_calls() == old(self).backend_calls(),
    {
        if self.environment.is_some() {
            let answer = self.backend.set_environment(None);
            proof {
                self.sent@ = self.sent@.push(BackendCall::SetEnvironment(None, answer));
                assert(one_call(self.backend_calls(), old(self).backend_calls(), BackendCall::SetEnvironment(None, answer)));
            }
            if let Err(e) = answer {
                return Err(RenderError::Backend(e));
            }
            self.environment = None;
        }
        Ok(())
    }

    /// What the tools see of the active environment, if any.
    pub fn environment_info(&self) -> (info: Option<EnvironmentInfo>)
        requires
            self.wf(),
        ensures
            match self.environment() {
                Some(e) => {
                    let textures = self.tracker().textures();
                    let k = e.cubemap.spec_key();
                    if textures.contains_key(k) {
                        info matches Some(i) && i.label@ == textures[k].label@ && i.intensity == e.intensity
                            && i.sky == e.sky && i.mip_levels == textures[k].mip_levels
                    } else {
                        info is None
                    }
                },
                None => info is None,
            },
    {
        match self.environment {
            Some(e) => match self.lifetime.texture_info(e.cubemap) {
                Some(t) => Some(
                    EnvironmentInfo {
                        label: t.label.clone(),
                        intensity: e.intensity,
                        sky: e.sky,
                        mip_levels: t.mip_levels,
                    },
                ),
                None => None,
            },
            None => None,
        }
    }

    /// Configures the shadows of the main directional light, a persistent
    /// setting: validated before any backend call, the device texture
    /// limit enforced, the backend touched only when the resolution
    /// changes (volume and biases are per-frame data).
    pub fn set_directional_shadow(&mut self, descriptor: &DirectionalShadowDescriptor) -> (result: Result<
        (),
        RenderError,
    >)
        requires
            old(self).wf(),
        ensures
            final(self).wf(),
            final(self).same_resources(old(self)),
            final(self).same_frame(old(self)),
            final(self).ambient() == old(self).ambient(),
            final(self).exposure_bits() == old(self).exposure_bits(),
            final(self).environment() == old(self).environment(),
            final(self).surface() == old(self).surface(),
            final(self).last_clear() == old(self).last_clear(),
            final(self).limits() == old(self).limits(),
            match shadow_rule(*descriptor) {
                Some(RenderError::ShadowResolutionRange { resolution }) => result matches Err(
                    RenderError::ShadowResolutionRange { resolution: r },
                ) && r == resolution,
                Some(RenderError::ShadowVolume) => result matches Err(RenderError::ShadowVolume),
                Some(_) => result matches Err(RenderError::ShadowBias),
                None => if descriptor.resolution > old(self).limits().max_texture_2d {
                    result matches Err(RenderError::ShadowResolutionLimit { resolution, limit }) && resolution
                        == descriptor.resolution && limit == old(self).limits().max_texture_2d
                } else if old(self).shadow_settings() matches Some(s) && s.resolution == descriptor.resolution {
                    result is Ok && final(self).backend() == old(self).backend()
                } else {
                    result is Ok || result matches Err(RenderError::Backend(_))
                },
            },
            result is Ok ==> final(self).shadow_settings() == Some(*descriptor),
            result is Err ==> final(self).shadow_settings() == old(self).shadow_settings(),
            (shadow_rule(*descriptor) is Some || descriptor.resolution > old(self).limits().max_texture_2d)
                ==> final(self).backend() == old(self).backend(),
            if shadow_rule(*descriptor) is None && descriptor.resolution <= old(self).limits().max_texture_2d && !(
            old(self).shadow_settings() matches Some(s) && s.resolution == descriptor.resolution) {
                shadow_bound(
                    final(self).backend_calls(),
                    old(self).backend_calls(),
                    Some(ShadowConfig { resolution: descriptor.resolution }),
                    result,
                )
            } else {
                final(self).backend_calls() == old(self).backend_calls()
            },
    {
        if let Err(e) = descriptor.validate() {
            return Err(e);
        }
        let ceiling = self.limits.max_texture_2d;
        if descriptor.resolution > ceiling {
            return Err(RenderError::ShadowResolutionLimit { resolution: descriptor.resolution, limit: ceiling });
        }
        let recreate = match self.directional_shadow {
            Some(current) => current.resolution != descriptor.resolution,
            None => true,
        };
        if recreate {
            let config = ShadowConfig { resolution: descriptor.resolution };
            let answer = self.backend.set_shadow(Some(config));
            proof {
                self.sent@ = self.sent@.push(BackendCall::SetShadow(Some(config), answer));
                assert(one_call(self.backend_calls(), old(self).backend_calls(), BackendCall::SetShadow(Some(config), answer)));
            }
            if let Err(e) = answer {
                return Err(RenderError::Backend(e));
            }
        }
        self.directional_shadow = Some(*descriptor);
        Ok(())
    }

    /// Clears the shadows (the backend releases the map). Clearing without
    /// shadows changes nothing.
    pub fn clear_directional_shadow(&mut self) -> (result: Result<(), RenderError>)
        requires
            old(self).wf(),
        ensures
            final(self).wf(),
            final(self).same_resources(old(self)),
            final(self).same_frame(old(self)),
            final(self).ambient() == old(self).ambient(),
            final(self).exposure_bits() == old(self).exposure_bits(),
            final(self).environment() == old(self).environment(),
            final(self).surface() == old(self).surface(),
            final(self).last_clear() == old(self).last_clear(),
            final(self).limits() == old(self).limits(),
            old(self).shadow_settings() is None ==> result is Ok && final(self).backend() == old(self).backend()
                && final(self).shadow_settings() is None,
            old(self).shadow_settings() is Some ==> match result {
                Ok(()) => final(self).shadow_settings() is None,
                Err(e) => e is Backend && final(self).shadow_settings() == old(self).shadow_settings(),
            },
            old(self).shadow_settings() is Some ==> shadow_bound(final(self).backend_calls(), old(self).backend_calls(), None, result),
            old(self).shadow_settings() is None ==> final(self).backend_calls() == old(self).backend_calls(),
    {
        if self.directional_shadow.is_some() {
            let answer = self.backend.set_shadow(None);
            proof {
                self.sent@ = self.sent@.push(BackendCall::SetShadow(None, answer));
                assert(one_call(self.backend_calls(), old(self).backend_calls(), BackendCall::SetShadow(None, answer)));
            }
            if let Err(e) = answer {
                return Err(RenderError::Backend(e));
            }
            self.directional_shadow = None;
        }
        Ok(())
    }

    /// What the tools see of the shadow settings, if any.
    pub fn directional_shadow_info(&self) -> (info: Option<DirectionalShadowInfo>)
        ensures
            match self.shadow_settings() {
                Some(s) => info == Some(
                    DirectionalShadowInfo {
                        resolution: s.resolution,
                        volume: s.volume,
                        depth_bias: s.depth_bias,
                        normal_bias: s.normal_bias,
                    },
                ),
                None => info is None,
            },
    {
        match self.directional_shadow {
            Some(s) => Some(
                DirectionalShadowInfo {
                    resolution: s.resolution,
                    volume: s.volume,
                    depth_bias: s.depth_bias,
                    normal_bias: s.normal_bias,
                },
            ),
            None => None,
        }
    }

    /// Sets the global exposure applied before tone mapping (1 by
    /// default): refused unless finite and positive.
    pub fn set_exposure(&mut self, exposure: u32) -> (result: Result<(), RenderError>)
        ensures
            result is Ok <==> is_finite_positive(exposure),
            result is Err ==> (result matches Err(RenderError::Exposure)),
            final(self).exposure_bits() == if is_finite_positive(exposure) {
                exposure
            } else {
                old(self).exposure_bits()
            },
            final(self).same_resources(old(self)),
            final(self).same_frame(old(self)),
            final(self).backend() == old(self).backend(),
            final(self).ambient() == old(self).ambient(),
            final(self).environment() == old(self).environment(),
            final(self).shadow_settings() == old(self).shadow_settings(),
            final(self).surface() == old(self).surface(),
            final(self).last_clear() == old(self).last_clear(),
            final(self).limits() == old(self).limits(),
            final(self).wf() == old(self).wf(),
    {
        if !finite_positive(exposure) {
            return Err(RenderError::Exposure);
        }
        self.exposure = exposure;
        Ok(())
    }

    /// The global exposure.
    pub fn exposure(&self) -> (exposure: u32)
        ensures
            exposure == self.exposure_bits(),
    {
        self.exposure
    }

    /// Submits a light for the current simulation frame (cleared by
    /// `clear_draws`); an invalid light is dropped here, never sent.
    pub fn submit_light(&mut self, light: Light)
        ensures
            final(self).submitted_lights() == if light_valid(light) {
                old(self).submitted_lights().push(light)
            } else {
                old(self).submitted_lights()
            },
            final(self).same_resources(old(self)),
            final(self).same_settings(old(self)),
            final(self).backend() == old(self).backend(),
            final(self).passes() == old(self).passes(),
            final(self).queues() == old(self).queues(),
            final(self).debug_store() == old(self).debug_store(),
            final(self).last_report() == old(self).last_report(),
            final(self).last_diagnostics() == old(self).last_diagnostics(),
            final(self).wf() == old(self).wf(),
    {
        if valid_light(&light) {
            self.frame_lights.push(light);
        }
    }

    /// The environment terms of the plan: the active intensity (zero
    /// without an environment) and the exposure.
    pub fn frame_environment(&self) -> (environment: FrameEnvironment)
        ensures
            environment.intensity == match self.environment() {
                Some(e) => e.intensity,
                None => crate::math::ZERO_BITS,
            },
            environment.exposure == self.exposure_bits(),
    {
        FrameEnvironment {
            intensity: match self.environment {
                Some(e) => e.intensity,
                None => crate::math::ZERO_BITS,
            },
            exposure: self.exposure,
        }
    }

    /// The lighting of the frame: the ambient term and the enabled
    /// submitted lights, the first `MAX_LIGHTS` of them.
    pub fn frame_lights(&self) -> (lights: FrameLights)
        ensures
            lights.ambient_color == self.ambient().0,
            lights.ambient_intensity == self.ambient().1,
            lights.lights@ == collected(self.submitted_lights()),
    {
        let (lights, _) = collect_lights(&self.frame_lights);
        FrameLights { ambient_color: self.ambient_color, ambient_intensity: self.ambient_intensity, lights }
    }
}

} // verus!
