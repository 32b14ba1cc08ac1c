//! What is asked of the graphics system, and what its answers mean.

use vstd::prelude::*;
use vstd::string::*;

use crate::capture::{ends_with, CaptureCall, CaptureError, MissingObject};
use crate::text::joined;

verus! {

/// The order of the channels of a pixel.
#[derive(Clone, Copy, Debug, PartialEq, Eq, Structural)]
pub enum PixelFormat {
    /// Blue, green, red and opacity, in eight bits each.
    Bgra,
    /// Red, green, blue and opacity, in eight bits each.
    Rgba,
}

/// Who uses a texture.
#[derive(Clone, Copy, Debug, PartialEq, Eq, Structural)]
pub enum TextureUsage {
    /// The graphics card.
    Standard,
    /// The processor, to exchange pixels with the graphics card.
    Staging,
}

/// A texture: one picture without smaller copies.
#[derive(Clone, Copy, Debug, PartialEq, Eq, Structural)]
pub struct TexturePlan {
    pub width: u32,
    pub height: u32,
    pub format: PixelFormat,
    pub usage: TextureUsage,
    pub bind_flags: u32,
    pub cpu_access: u32,
}

pub const BIND_SHADER_RESOURCE: u32 = 0x8;

pub const CPU_ACCESS_WRITE: u32 = 0x1_0000;

pub const CPU_ACCESS_READ: u32 = 0x2_0000;

/// The texture from which the processor reads what was captured.
pub fn create_staging_texture(width: u32, height: u32) -> (r: TexturePlan)
    ensures
        r == (TexturePlan {
            width,
            height,
            format: PixelFormat::Bgra,
            usage: TextureUsage::Staging,
            bind_flags: 0,
            cpu_access: CPU_ACCESS_READ,
        }),
{
    TexturePlan {
        width,
        height,
        format: PixelFormat::Bgra,
        usage: TextureUsage::Staging,
        bind_flags: 0,
        cpu_access: CPU_ACCESS_READ,
    }
}

/// A texture of the encoder.
pub fn create_texture(
    width: u32,
    height: u32,
    usage: TextureUsage,
    bind_flags: u32,
    cpu_access: u32,
) -> (r: TexturePlan)
    ensures
        r == (TexturePlan {
            width,
            height,
            format: PixelFormat::Rgba,
            usage,
            bind_flags,
            cpu_access,
        }),
{
    TexturePlan { width, height, format: PixelFormat::Rgba, usage, bind_flags, cpu_access }
}

/// The texture that the processor writes frames for an encoder to.
pub open spec fn encoder_staging(width: u32, height: u32) -> TexturePlan {
    TexturePlan {
        width,
        height,
        format: PixelFormat::Rgba,
        usage: TextureUsage::Staging,
        bind_flags: 0,
        cpu_access: CPU_ACCESS_WRITE,
    }
}

/// The texture that an encoder reads frames from.
pub open spec fn encoder_source(width: u32, height: u32) -> TexturePlan {
    TexturePlan {
        width,
        height,
        format: PixelFormat::Rgba,
        usage: TextureUsage::Standard,
        bind_flags: BIND_SHADER_RESOURCE,
        cpu_access: 0,
    }
}

/// The textures of an encoder: the one that the processor writes frames to, and
/// the one that the encoder reads them from.
pub fn encoder_textures(width: u32, height: u32) -> (r: (TexturePlan, TexturePlan))
    ensures
        r == (encoder_staging(width, height), encoder_source(width, height)),
{
    (
        create_texture(width, height, TextureUsage::Staging, 0, CPU_ACCESS_WRITE),
        create_texture(width, height, TextureUsage::Standard, BIND_SHADER_RESOURCE, 0),
    )
}

/// What came of making a device: whether there is a device, and whether there
/// is a context.
#[derive(Debug)]
pub struct DeviceAnswer {
    pub result: Result<(), String>,
    pub device: bool,
    pub context: bool,
}

/// Whether a device can be used. It takes a device and a context.
pub fn create_d3d11_device(answer: DeviceAnswer) -> (r: Result<(), CaptureError>)
    ensures
        r == (match answer.result {
            Err(e) => Err(CaptureError::CallFailed(CaptureCall::CreateDevice, e)),
            Ok(_) => if !answer.device {
                Err(CaptureError::Missing(MissingObject::Device))
            } else if !answer.context {
                Err(CaptureError::Missing(MissingObject::Context))
            } else {
                Ok(())
            },
        }),
{
    match answer.result {
        Err(e) => Err(CaptureError::CallFailed(CaptureCall::CreateDevice, e)),
        Ok(_) => {
            if !answer.device {
                return Err(CaptureError::Missing(MissingObject::Device));
            }
            if !answer.context {
                return Err(CaptureError::Missing(MissingObject::Context));
            }
            Ok(())
        },
    }
}

/// Whether the encoder can use a device.
pub fn create_d3d11_device_and_context(answer: DeviceAnswer) -> (r: Result<(), String>)
    ensures
        match r {
            Ok(_) => answer.result is Ok && answer.device && answer.context,
            Err(text) => match answer.result {
                Err(e) => text@ == CaptureCall::CreateDevice.text() + e@,
                Ok(_) => (!answer.device && text@ == CaptureError::Missing(
                    MissingObject::Device,
                ).text()) || (answer.device && !answer.context && text@ == CaptureError::Missing(
                    MissingObject::Context,
                ).text()),
            },
        },
{
    match create_d3d11_device(answer) {
        Ok(_) => Ok(()),
        Err(e) => Err(e.message()),
    }
}

/// What came of making a texture: whether there is one.
#[derive(Debug)]
pub struct TextureAnswer {
    pub result: Result<(), String>,
    pub texture: bool,
}

/// Whether the texture of a capturer can be used.
pub fn staging_texture_made(answer: TextureAnswer) -> (r: Result<(), CaptureError>)
    ensures
        r == (match answer.result {
            Err(e) => Err(CaptureError::CallFailed(CaptureCall::CreateTexture, e)),
            Ok(_) => if answer.texture {
                Ok(())
            } else {
                Err(CaptureError::Missing(MissingObject::Texture))
            },
        }),
{
    match answer.result {
        Err(e) => Err(CaptureError::CallFailed(CaptureCall::CreateTexture, e)),
        Ok(_) => {
            if answer.texture {
                Ok(())
            } else {
                Err(CaptureError::Missing(MissingObject::Texture))
            }
        },
    }
}

/// Whether a texture of the encoder can be used.
pub fn texture_made(answer: TextureAnswer) -> (r: Result<(), String>)
    ensures
        match r {
            Ok(_) => answer.result is Ok && answer.texture,
            Err(text) => match answer.result {
                Err(e) => text@ == "CreateTexture2D failed: "@ + e@,
                Ok(_) => !answer.texture && text@ == "CreateTexture2D returned null"@,
            },
        },
{
    match answer.result {
        Err(e) => Err(joined("CreateTexture2D failed: ", e.as_str())),
        Ok(_) => {
            if answer.texture {
                Ok(())
            } else {
                Err("CreateTexture2D returned null".to_owned())
            }
        },
    }
}

/// The textures of an encoder have the size of its frames and the same pixels;
/// the processor writes the one, and the encoder reads the other.
pub proof fn encoder_textures_fit_the_frames(
    width: u32,
    height: u32,
    r: (TexturePlan, TexturePlan),
)
    requires
        call_ensures(encoder_textures, (width, height), r),
    ensures
        r.0.width == width && r.0.height == height,
        r.1.width == width && r.1.height == height,
        r.0.format is Rgba && r.1.format is Rgba,
        r.0.usage is Staging && r.0.cpu_access == 0x1_0000,
        r.1.usage is Standard && r.1.cpu_access == 0,
        r.0.bind_flags == 0 && r.1.bind_flags == 0x8,
{
}

/// The texture of a capturer has the size of its output, and the processor reads
/// it with blue first.
pub proof fn capturer_textures_fit_the_output(width: u32, height: u32, r: TexturePlan)
    requires
        call_ensures(create_staging_texture, (width, height), r),
    ensures
        r.width == width && r.height == height,
        r.format is Bgra,
        r.usage is Staging && r.cpu_access == 0x2_0000,
{
}

/// A device can be used exactly if it was made with a context, and a texture
/// exactly if it was made; a failure is told with its reason.
pub proof fn what_was_made_can_be_used(
    device: DeviceAnswer,
    d: Result<(), String>,
    texture: TextureAnswer,
    t: Result<(), String>,
)
    requires
        call_ensures(create_d3d11_device_and_context, (device,), d),
        call_ensures(texture_made, (texture,), t),
    ensures
        d is Ok <==> device.result is Ok && device.device && device.context,
        t is Ok <==> texture.result is Ok && texture.texture,
        device.result matches Err(why) ==> (d matches Err(text) && ends_with(text@, why@)),
        texture.result matches Err(why) ==> (t matches Err(text) && ends_with(text@, why@)),
{
    if let Err(why) = device.result {
        if let Err(text) = d {
            assert(text@.skip(text@.len() - why@.len()) =~= why@);
        }
    }
    if let Err(why) = texture.result {
        if let Err(text) = t {
            assert(text@.skip(text@.len() - why@.len()) =~= why@);
        }
    }
}

} // verus!
