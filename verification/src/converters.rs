//! The attachment converter model: which programs convert which media, and
//! the argument lists handed to them. Probing the system for the programs
//! and running them stay with the caller.
use vstd::prelude::*;

use crate::text::lower_of;

verus! {

broadcast use vstd::string::group_string_axioms;

/// The image formats conversion can produce.
#[derive(Debug, PartialEq, Eq)]
pub enum ImageType {
    Jpeg,
    Gif,
    Png,
}

impl ImageType {
    pub fn to_str(&self) -> (r: &'static str)
        ensures
            match *self {
                ImageType::Jpeg => r@ == "jpeg"@,
                ImageType::Gif => r@ == "gif"@,
                ImageType::Png => r@ == "png"@,
            },
    {
        match self {
            Self::Jpeg => "jpeg",
            Self::Gif => "gif",
            Self::Png => "png",
        }
    }
}

/// The video formats conversion can produce.
#[derive(Debug, PartialEq, Eq)]
pub enum VideoType {
    Mp4,
}

impl VideoType {
    pub fn to_str(&self) -> (r: &'static str)
        ensures
            r@ == "mp4"@,
    {
        match self {
            Self::Mp4 => "mp4",
        }
    }
}

/// The audio formats conversion can produce.
#[derive(Debug, PartialEq, Eq)]
pub enum AudioType {
    Mp4,
}

impl AudioType {
    pub fn to_str(&self) -> (r: &'static str)
        ensures
            r@ == "mp4"@,
    {
        match self {
            Self::Mp4 => "mp4",
        }
    }
}

/// Programs that convert images.
#[derive(Debug, PartialEq, Eq)]
pub enum ImageConverter {
    /// The macOS builtin.
    Sips,
    Imagemagick,
}

impl ImageConverter {
    /// The program name of this converter.
    pub fn name(&self) -> (r: &'static str)
        ensures
            match *self {
                ImageConverter::Sips => r@ == "sips"@,
                ImageConverter::Imagemagick => r@ == "magick"@,
            },
    {
        match self {
            ImageConverter::Sips => "sips",
            ImageConverter::Imagemagick => "magick",
        }
    }
}

/// Programs that convert audio.
#[derive(Debug, PartialEq, Eq)]
pub enum AudioConverter {
    /// The macOS builtin.
    AfConvert,
    Ffmpeg,
}

impl AudioConverter {
    /// The program name of this converter.
    pub fn name(&self) -> (r: &'static str)
        ensures
            match *self {
                AudioConverter::AfConvert => r@ == "afconvert"@,
                AudioConverter::Ffmpeg => r@ == "ffmpeg"@,
            },
    {
        match self {
            AudioConverter::AfConvert => "afconvert",
            AudioConverter::Ffmpeg => "ffmpeg",
        }
    }
}

/// Programs that convert video.
#[derive(Debug, PartialEq, Eq)]
pub enum VideoConverter {
    Ffmpeg,
}

impl VideoConverter {
    /// The program name of this converter.
    pub fn name(&self) -> (r: &'static str)
        ensures
            r@ == "ffmpeg"@,
    {
        match self {
            VideoConverter::Ffmpeg => "ffmpeg",
        }
    }
}

/// The hardware H.264 encoders conversion can use.
#[derive(Debug, PartialEq, Eq)]
pub enum HardwareEncoder {
    /// The NVIDIA GPU encoder.
    Nvenc,
    /// The Intel Quick Sync encoder.
    Qsv,
    /// The Apple VideoToolbox encoder.
    VideoToolbox,
}

impl HardwareEncoder {
    /// The name the conversion program uses for this encoder.
    pub fn codec_name(&self) -> (r: &'static str)
        ensures
            match *self {
                HardwareEncoder::Nvenc => r@ == "h264_nvenc"@,
                HardwareEncoder::Qsv => r@ == "h264_qsv"@,
                HardwareEncoder::VideoToolbox => r@ == "h264_videotoolbox"@,
            },
    {
        match self {
            HardwareEncoder::Nvenc => "h264_nvenc",
            HardwareEncoder::Qsv => "h264_qsv",
            HardwareEncoder::VideoToolbox => "h264_videotoolbox",
        }
    }
}

/// The arguments that remux a video into an MP4 container without
/// re-encoding.
pub fn build_remux_args<'a>(from_path: &'a str, to_path: &'a str) -> (r: Vec<&'a str>)
    ensures
        r@.len() == 7,
        r@[0]@ == "-i"@,
        r@[1]@ == from_path@,
        r@[2]@ == "-c"@,
        r@[3]@ == "copy"@,
        r@[4]@ == "-f"@,
        r@[5]@ == "mp4"@,
        r@[6]@ == to_path@,
{
    let mut args: Vec<&str> = Vec::new();
    args.push("-i");
    args.push(from_path);
    args.push("-c");
    args.push("copy");
    args.push("-f");
    args.push(VideoType::Mp4.to_str());
    args.push(to_path);
    args
}

/// The arguments that re-encode a video, with the hardware encoder when
/// one is available and the software encoder otherwise.
pub fn build_encode_args<'a>(
    from_path: &'a str,
    to_path: &'a str,
    hw: Option<&HardwareEncoder>,
) -> (r: Vec<&'a str>)
    ensures
        r@.len() == 11,
        r@[0]@ == "-i"@,
        r@[1]@ == from_path@,
        r@[2]@ == "-c:v"@,
        (match hw {
            Some(h) => match *h {
                HardwareEncoder::Nvenc => r@[3]@ == "h264_nvenc"@,
                HardwareEncoder::Qsv => r@[3]@ == "h264_qsv"@,
                HardwareEncoder::VideoToolbox => r@[3]@ == "h264_videotoolbox"@,
            },
            None => r@[3]@ == "libx264"@,
        }),
        r@[4]@ == "-preset"@,
        r@[5]@ == "fast"@,
        r@[6]@ == "-c:a"@,
        r@[7]@ == "copy"@,
        r@[8]@ == "-movflags"@,
        r@[9]@ == "+faststart"@,
        r@[10]@ == to_path@,
{
    let mut args: Vec<&str> = Vec::new();
    args.push("-i");
    args.push(from_path);
    args.push("-c:v");
    match hw {
        Some(h) => args.push(h.codec_name()),
        Option::None => args.push("libx264"),
    }
    args.push("-preset");
    args.push("fast");
    args.push("-c:a");
    args.push("copy");
    args.push("-movflags");
    args.push("+faststart");
    args.push(to_path);
    args
}


/// The arguments that convert a Core Audio file to MP4, per converter.
pub fn build_audio_args<'a>(
    converter: &AudioConverter,
    from_path: &'a str,
    to_path: &'a str,
) -> (r: Vec<&'a str>)
    ensures
        match *converter {
            AudioConverter::AfConvert => r@.len() == 7 && r@[0]@ == "-f"@ && r@[1]@ == "mp4f"@
                && r@[2]@ == "-d"@ && r@[3]@ == "aac"@ && r@[4]@ == "-v"@ && r@[5]@ == from_path@
                && r@[6]@ == to_path@,
            AudioConverter::Ffmpeg => r@.len() == 3 && r@[0]@ == "-i"@ && r@[1]@ == from_path@
                && r@[2]@ == to_path@,
        },
{
    let mut args: Vec<&str> = Vec::new();
    match converter {
        AudioConverter::AfConvert => {
            args.push("-f");
            args.push("mp4f");
            args.push("-d");
            args.push("aac");
            args.push("-v");
            args.push(from_path);
            args.push(to_path);
        },
        AudioConverter::Ffmpeg => {
            args.push("-i");
            args.push(from_path);
            args.push(to_path);
        },
    }
    args
}

/// The arguments that convert an HEIC image to the given format, per
/// converter.
pub fn build_image_args<'a>(
    converter: &ImageConverter,
    output_image_type: &'a ImageType,
    from_path: &'a str,
    to_path: &'a str,
) -> (r: Vec<&'a str>)
    ensures
        match *converter {
            ImageConverter::Sips => r@.len() == 6 && r@[0]@ == "-s"@ && r@[1]@ == "format"@ && (
            match *output_image_type {
                ImageType::Jpeg => r@[2]@ == "jpeg"@,
                ImageType::Gif => r@[2]@ == "gif"@,
                ImageType::Png => r@[2]@ == "png"@,
            }) && r@[3]@ == from_path@ && r@[4]@ == "-o"@ && r@[5]@ == to_path@,
            ImageConverter::Imagemagick => r@.len() == 2 && r@[0]@ == from_path@ && r@[1]@
                == to_path@,
        },
{
    let mut args: Vec<&str> = Vec::new();
    match converter {
        ImageConverter::Sips => {
            args.push("-s");
            args.push("format");
            args.push(output_image_type.to_str());
            args.push(from_path);
            args.push("-o");
            args.push(to_path);
        },
        ImageConverter::Imagemagick => {
            args.push(from_path);
            args.push(to_path);
        },
    }
    args
}

/// How attachments are handled during archival.
#[derive(Debug, PartialEq, Eq)]
pub enum AttachmentManagerMode {
    /// Do not copy attachments.
    Disabled,
    /// Copy, converting images to compatible formats.
    Basic,
    /// Copy without converting.
    Clone,
    /// Copy, converting all media to compatible formats.
    Full,
}

impl Default for AttachmentManagerMode {
    /// The default mode converts everything.
    fn default() -> (r: Self)
        ensures
            r == AttachmentManagerMode::Full,
    {
        Self::Full
    }
}

impl AttachmentManagerMode {
    /// The mode named by user input, compared case-insensitively.
    pub fn from_cli(copy_state: &str) -> (r: Option<Self>)
        ensures
            match r {
                Some(AttachmentManagerMode::Disabled) => lower_of(copy_state@) == "disabled"@,
                Some(AttachmentManagerMode::Basic) => lower_of(copy_state@) == "basic"@,
                Some(AttachmentManagerMode::Clone) => lower_of(copy_state@) == "clone"@,
                Some(AttachmentManagerMode::Full) => lower_of(copy_state@) == "full"@,
                None => lower_of(copy_state@) != "disabled"@ && lower_of(copy_state@) != "basic"@
                    && lower_of(copy_state@) != "clone"@ && lower_of(copy_state@) != "full"@,
            },
    {
        let lowered = crate::text::to_lowercase(copy_state);
        if crate::text::str_eq(lowered.as_str(), "disabled") {
            Some(Self::Disabled)
        } else if crate::text::str_eq(lowered.as_str(), "basic") {
            Some(Self::Basic)
        } else if crate::text::str_eq(lowered.as_str(), "clone") {
            Some(Self::Clone)
        } else if crate::text::str_eq(lowered.as_str(), "full") {
            Some(Self::Full)
        } else {
            Option::None
        }
    }
}

} // verus!
