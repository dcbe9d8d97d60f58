//! Management of the video mode.
//!
//! The kernel may name a resolution that it would like. If the display has a
//! mode of exactly that resolution, it is set; else the display stays as it
//! is. Either way the kernel is told how to find the pixels.
use vstd::prelude::*;
use crate::quirk::{Quirk, QuirkSet};
use crate::status::Status;

verus! {

/// The video mode that a kernel would like.
#[derive(Clone, Copy, Debug, PartialEq, Eq, Structural)]
pub struct VideoMode {
    /// whether this is a mode with pixels, not one with characters
    pub graphics: bool,
    /// pixels or characters in a line, 0 for no preference
    pub width: u32,
    /// lines, 0 for no preference
    pub height: u32,
    /// bits per pixel, 0 for no preference; nothing for a mode with
    /// characters
    pub depth: u32,
}

/// How the bytes of a pixel are laid out.
#[derive(Clone, Copy, Debug, PartialEq, Eq, Structural)]
pub enum PixelFormat {
    /// each pixel is 32 bit long, with 24 bit RGB and the last byte reserved
    Rgb,
    /// each pixel is 32 bit long, with 24 bit BGR and the last byte reserved
    Bgr,
    /// custom pixel format, described by a bitmask
    Bitmask,
    /// the graphics mode does not support drawing directly to the frame buffer
    BltOnly,
}

/// Which bits of a pixel belong to which colour.
#[derive(Clone, Copy, Debug, PartialEq, Eq, Structural)]
pub struct PixelBitmask {
    pub red: u32,
    pub green: u32,
    pub blue: u32,
    pub reserved: u32,
}

/// What the display says about one of its modes.
#[derive(Clone, Copy, Debug, PartialEq, Eq, Structural)]
pub struct ModeInfo {
    pub width: u64,
    pub height: u64,
    pub pixel_format: PixelFormat,
    /// the bitmask, for the pixel format `Bitmask`
    pub pixel_bitmask: Option<PixelBitmask>,
    /// the number of pixels per scanline
    pub stride: u64,
}

/// What to do with the display.
#[derive(Clone, Copy, Debug, PartialEq, Eq, Structural)]
pub enum VideoDecision {
    /// just use the mode we're already in
    Keep,
    /// set the mode with this number
    Switch(usize),
}

/// What has been decided about the display, and what is worth a warning.
#[derive(Clone, Copy, Debug, PartialEq, Eq, Structural)]
pub struct VideoSetup {
    pub decision: VideoDecision,
    /// the depth that the kernel wants, if it is not 24 bit: the color depth
    /// will be 24-bit anyway
    pub unsupported_depth: Option<u32>,
    /// the kernel wants a mode with characters, which is not implemented
    pub text_mode_wanted: bool,
    /// the kernel wants a resolution that the display does not have
    pub no_matching_mode: bool,
}

/// Where a colour is found in a pixel.
#[derive(Clone, Copy, Debug, PartialEq, Eq, Structural)]
pub struct ColorInfo {
    pub red_field_position: u8,
    pub red_mask_size: u8,
    pub green_field_position: u8,
    pub green_mask_size: u8,
    pub blue_field_position: u8,
    pub blue_mask_size: u8,
}

/// What the kernel is told about the framebuffer.
#[derive(Clone, Copy, Debug, PartialEq, Eq, Structural)]
pub struct FramebufferInfo {
    pub address: u64,
    /// bytes per line
    pub pitch: u32,
    pub width: u32,
    pub height: u32,
    /// bits per pixel
    pub bpp: u8,
    pub color_info: ColorInfo,
}

/// The depth that the display is going to have.
pub const SUPPORTED_DEPTH: u32 = 24;

/// How many bits a mask has.
pub const MASK_BITS: u32 = 32;

/// The resolution to look for: that of a graphics mode that the kernel
/// prefers, unless `KeepResolution` is set.
pub open spec fn wanted_resolution(preferred: Option<VideoMode>, quirks: Set<Quirk>) -> Option<
    (u32, u32),
> {
    match preferred {
        Some(mode) => if !quirks.contains(Quirk::KeepResolution) && mode.graphics {
            Some((mode.width, mode.height))
        } else {
            None
        },
        None => None,
    }
}

/// Whether the mode has exactly this resolution.
pub open spec fn has_resolution(mode: ModeInfo, width: u32, height: u32) -> bool {
    mode.width == width && mode.height == height
}

/// Whether the mode with this number is the first of the given resolution.
pub open spec fn is_first_match(modes: Seq<ModeInfo>, width: u32, height: u32, index: int) -> bool {
    &&& 0 <= index < modes.len()
    &&& has_resolution(modes[index], width, height)
    &&& forall|k: int| 0 <= k < index ==> !has_resolution(#[trigger] modes[k], width, height)
}

/// Whether no mode has the given resolution.
pub open spec fn no_match(modes: Seq<ModeInfo>, width: u32, height: u32) -> bool {
    forall|k: int| 0 <= k < modes.len() ==> !has_resolution(#[trigger] modes[k], width, height)
}

/// Find the first mode with the given resolution.
pub fn find_mode(modes: &Vec<ModeInfo>, width: u32, height: u32) -> (r: Option<usize>)
    ensures
        match r {
            Some(index) => is_first_match(modes@, width, height, index as int),
            None => no_match(modes@, width, height),
        },
{
    let mut i: usize = 0;
    while i < modes.len()
        invariant
            i <= modes@.len(),
            forall|k: int| 0 <= k < i ==> !has_resolution(#[trigger] modes@[k], width, height),
        decreases modes@.len() - i,
    {
        if modes[i].width == width as u64 && modes[i].height == height as u64 {
            return Some(i);
        }
        i += 1;
    }
    None
}

/// Try to get the video in a mode the kernel wants.
///
/// If there is no available mode that matches, just use the one we're
/// already in. The same goes for a kernel that has no preference or prefers
/// a mode with characters, and for `KeepResolution`.
pub fn setup_video(preferred: Option<VideoMode>, quirks: &QuirkSet, modes: &Vec<ModeInfo>) -> (r:
    VideoSetup)
    ensures
        match wanted_resolution(preferred, quirks@) {
            Some((width, height)) => match r.decision {
                VideoDecision::Switch(index) => is_first_match(modes@, width, height, index as int)
                    && !r.no_matching_mode,
                VideoDecision::Keep => no_match(modes@, width, height) && r.no_matching_mode,
            },
            None => r.decision == VideoDecision::Keep && !r.no_matching_mode,
        },
        r.text_mode_wanted == (preferred matches Some(mode) && !quirks@.contains(
            Quirk::KeepResolution,
        ) && !mode.graphics),
        r.unsupported_depth == match wanted_resolution(preferred, quirks@) {
            Some(_) => if preferred.unwrap().depth != SUPPORTED_DEPTH {
                Some(preferred.unwrap().depth)
            } else {
                None
            },
            None => None,
        },
{
    let mut setup = VideoSetup {
        decision: VideoDecision::Keep,
        unsupported_depth: None,
        text_mode_wanted: false,
        no_matching_mode: false,
    };
    let mode: VideoMode = match preferred {
        Some(mode) => mode,
        None => {
            return setup;
        },
    };
    if quirks.contains(Quirk::KeepResolution) {
        return setup;
    }
    if !mode.graphics {
        // We could set the console to this resolution,
        // but if the kernel doesn't have any EFI support, it won't be able to use it.
        // So, just chose a video mode and hope that the kernel supports video.
        setup.text_mode_wanted = true;
        return setup;
    }
    // lets just hope that the firmware supports 24-bit RGB
    // the other modes are way too obscure
    // 0 means "no preference"
    if mode.depth != SUPPORTED_DEPTH {
        setup.unsupported_depth = Some(mode.depth);
    }
    // try to see, if we find a matching mode
    match find_mode(modes, mode.width, mode.height) {
        Some(index) => {
            setup.decision = VideoDecision::Switch(index);
        },
        None => {
            setup.no_matching_mode = true;
        },
    }
    setup
}

/// Whether bit `bit` of the mask is set.
pub open spec fn bit_set(mask: u32, bit: u32) -> bool {
    mask & (1u32 << bit) == (1u32 << bit)
}

/// The lowest set bit of the mask at or above `from`; 0 if there is none.
pub open spec fn first_set_from(mask: u32, from: u32) -> u32
    decreases MASK_BITS - from,
{
    if from >= MASK_BITS {
        0
    } else if bit_set(mask, from) {
        from
    } else {
        first_set_from(mask, (from + 1) as u32)
    }
}

/// How many bits are set in a row from `from` on.
pub open spec fn run_length(mask: u32, from: u32) -> int
    decreases MASK_BITS - from,
{
    if from >= MASK_BITS || !bit_set(mask, from) {
        0
    } else {
        1 + run_length(mask, (from + 1) as u32)
    }
}

/// Whether a bit is set at or above `from`.
pub open spec fn any_set_from(mask: u32, from: u32) -> bool {
    exists|bit: u32| from <= bit < MASK_BITS && #[trigger] bit_set(mask, bit)
}

/// How many of the lowest `n` bits of the mask are set.
pub open spec fn count_bits(mask: u32, n: u32) -> int
    decreases n,
{
    if n == 0 {
        0
    } else {
        count_bits(mask, (n - 1) as u32) + if bit_set(mask, (n - 1) as u32) {
            1int
        } else {
            0int
        }
    }
}

/// Where the colour of the mask begins in a pixel.
pub open spec fn field_position(mask: u32) -> u32 {
    first_set_from(mask, 0)
}

/// How many bits the colour of the mask has.
pub open spec fn mask_size(mask: u32) -> int {
    run_length(mask, field_position(mask))
}

/// Whether the set bits of the mask are one run.
pub open spec fn is_continuous(mask: u32) -> bool {
    !any_set_from(mask, (field_position(mask) + mask_size(mask)) as u32)
}

proof fn lemma_first_set_bound(mask: u32, from: u32)
    ensures
        first_set_from(mask, from) < MASK_BITS,
        first_set_from(mask, from) == 0 || from <= first_set_from(mask, from),
    decreases MASK_BITS - from,
{
    if from < MASK_BITS && !bit_set(mask, from) {
        lemma_first_set_bound(mask, (from + 1) as u32);
    }
}

/// Whether bit `bit` of the mask is set.
pub fn check_bit(mask: u32, bit: u32) -> (r: bool)
    requires
        bit < 32,
    ensures
        r == bit_set(mask, bit),
{
    mask & (1u32 << bit) == (1u32 << bit)
}

/// Converts a bitmask into a tuple of `field_position`, `mask_size`.
///
/// This fails with `DeviceError` for a color bitmask that is not
/// continuous. The error stands for a panic: such a display cannot be
/// described to the kernel, and no tuple is returned.
pub fn parse_color_bitmap(bitmask: u32) -> (r: Result<(u8, u8), Status>)
    ensures
        r is Ok <==> is_continuous(bitmask),
        r matches Ok((position, size)) ==> position == field_position(bitmask) && size
            == mask_size(bitmask),
        r matches Err(e) ==> e == Status::DeviceError,
{
    // find the first set bit
    let mut position: u32 = 0;
    let mut i: u32 = 0;
    while i < MASK_BITS
        invariant_except_break
            i <= MASK_BITS,
            position == 0,
            first_set_from(bitmask, 0) == first_set_from(bitmask, i),
        ensures
            position == field_position(bitmask),
            position < MASK_BITS,
        decreases MASK_BITS - i,
    {
        if check_bit(bitmask, i) {
            position = i;
            break ;
        }
        i += 1;
    }
    // count how many bits are set
    let mut size: u32 = 0;
    let mut j: u32 = position;
    while j < MASK_BITS
        invariant_except_break
            position <= j <= MASK_BITS,
            j == position + size,
            run_length(bitmask, position) == size + run_length(bitmask, j),
        ensures
            size == run_length(bitmask, position),
            position + size <= MASK_BITS,
        decreases MASK_BITS - j,
    {
        if !check_bit(bitmask, j) {
            break ;
        }
        size += 1;
        j += 1;
    }
    // check whether there are remaining bits set
    let mut k: u32 = position + size;
    while k < MASK_BITS
        invariant
            position + size <= k <= MASK_BITS,
            position == field_position(bitmask),
            size == mask_size(bitmask),
            forall|bit: u32| position + size <= bit < k ==> !#[trigger] bit_set(bitmask, bit),
        decreases MASK_BITS - k,
    {
        if check_bit(bitmask, k) {
            assert(position + size <= k < MASK_BITS && bit_set(bitmask, k));
            return Err(Status::DeviceError);
        }
        k += 1;
    }
    Ok((position as u8, size as u8))
}

/// Whether no bit belongs to two colours.
pub open spec fn colours_apart(pixel_bitmask: PixelBitmask) -> bool {
    &&& pixel_bitmask.red & pixel_bitmask.green == 0
    &&& pixel_bitmask.red & pixel_bitmask.blue == 0
    &&& pixel_bitmask.green & pixel_bitmask.blue == 0
}

/// Converts UEFI's `PixelBitmask` to Multiboot's `bpp` (bits per pixel): the
/// number of bits that belong to a colour.
///
/// This fails with `DeviceError` where a bit belongs to two colours.
pub fn bitmask_to_bpp(pixel_bitmask: PixelBitmask) -> (r: Result<u8, Status>)
    ensures
        r is Ok <==> colours_apart(pixel_bitmask),
        r matches Ok(bpp) ==> bpp == count_bits(
            pixel_bitmask.red | pixel_bitmask.green | pixel_bitmask.blue,
            MASK_BITS,
        ),
        r matches Err(e) ==> e == Status::DeviceError,
{
    let combined_bitmask: u32 = pixel_bitmask.red | pixel_bitmask.green | pixel_bitmask.blue;
    if pixel_bitmask.red & pixel_bitmask.green != 0 || pixel_bitmask.red & pixel_bitmask.blue != 0
        || pixel_bitmask.green & pixel_bitmask.blue != 0 {
        return Err(Status::DeviceError);
    }
    let mut bpp: u32 = 0;
    let mut i: u32 = 0;
    while i < MASK_BITS
        invariant
            i <= MASK_BITS,
            bpp == count_bits(combined_bitmask, i),
            bpp <= i,
            combined_bitmask == pixel_bitmask.red | pixel_bitmask.green | pixel_bitmask.blue,
        decreases MASK_BITS - i,
    {
        if check_bit(combined_bitmask, i) {
            bpp += 1;
        }
        i += 1;
    }
    Ok(bpp as u8)
}

/// Converts UEFI's `PixelBitmask` to Multiboot's `ColorInfoRGB`.
///
/// This fails with `DeviceError` where the bitmask of a colour is not
/// continuous.
pub fn bitmask_to_color_info(pixel_bitmask: PixelBitmask) -> (r: Result<ColorInfo, Status>)
    ensures
        r is Ok <==> is_continuous(pixel_bitmask.red) && is_continuous(pixel_bitmask.green)
            && is_continuous(pixel_bitmask.blue),
        r matches Ok(info) ==> info == (ColorInfo {
            red_field_position: field_position(pixel_bitmask.red) as u8,
            red_mask_size: mask_size(pixel_bitmask.red) as u8,
            green_field_position: field_position(pixel_bitmask.green) as u8,
            green_mask_size: mask_size(pixel_bitmask.green) as u8,
            blue_field_position: field_position(pixel_bitmask.blue) as u8,
            blue_mask_size: mask_size(pixel_bitmask.blue) as u8,
        }),
        r matches Err(e) ==> e == Status::DeviceError,
{
    let (red_field_position, red_mask_size) = match parse_color_bitmap(pixel_bitmask.red) {
        Ok(pair) => pair,
        Err(e) => {
            return Err(e);
        },
    };
    let (green_field_position, green_mask_size) = match parse_color_bitmap(pixel_bitmask.green) {
        Ok(pair) => pair,
        Err(e) => {
            return Err(e);
        },
    };
    let (blue_field_position, blue_mask_size) = match parse_color_bitmap(pixel_bitmask.blue) {
        Ok(pair) => pair,
        Err(e) => {
            return Err(e);
        },
    };
    proof {
        lemma_first_set_bound(pixel_bitmask.red, 0);
        lemma_first_set_bound(pixel_bitmask.green, 0);
        lemma_first_set_bound(pixel_bitmask.blue, 0);
    }
    Ok(
        ColorInfo {
            red_field_position,
            red_mask_size,
            green_field_position,
            green_mask_size,
            blue_field_position,
            blue_mask_size,
        },
    )
}

/// Where the colours are found in a pixel of the format `Rgb`.
pub open spec fn rgb_color_info() -> ColorInfo {
    ColorInfo {
        red_field_position: 0,
        red_mask_size: 8,
        green_field_position: 8,
        green_mask_size: 8,
        blue_field_position: 16,
        blue_mask_size: 8,
    }
}

/// Where the colours are found in a pixel of the format `Bgr`.
pub open spec fn bgr_color_info() -> ColorInfo {
    ColorInfo {
        red_field_position: 16,
        red_mask_size: 8,
        green_field_position: 8,
        green_mask_size: 8,
        blue_field_position: 0,
        blue_mask_size: 8,
    }
}

/// Whether the kernel can be told about a framebuffer in this mode: the
/// pixels can be written to, a bitmask is there where the format asks for
/// one, it gives every bit to one colour at most and every colour one run of
/// bits, and pitch, width and height fit into 32 bits.
pub open spec fn mode_is_usable(mode: ModeInfo) -> bool {
    &&& mode.pixel_format != PixelFormat::BltOnly
    &&& mode.pixel_format == PixelFormat::Bitmask ==> {
        &&& mode.pixel_bitmask matches Some(bitmask)
        &&& colours_apart(bitmask)
        &&& is_continuous(bitmask.red)
        &&& is_continuous(bitmask.green)
        &&& is_continuous(bitmask.blue)
    }
    &&& mode.stride * (bits_per_pixel(mode) / 8) <= u32::MAX
    &&& mode.width <= u32::MAX
    &&& mode.height <= u32::MAX
}

/// The bits per pixel of a mode: 32, or for a bitmask the number of bits
/// that belong to a colour.
pub open spec fn bits_per_pixel(mode: ModeInfo) -> u8 {
    match mode.pixel_format {
        PixelFormat::Bitmask => match mode.pixel_bitmask {
            Some(bitmask) => count_bits(bitmask.red | bitmask.green | bitmask.blue, MASK_BITS) as u8,
            None => 32,
        },
        _ => 32,
    }
}

/// Where the colours are found in a pixel of the mode.
pub open spec fn color_info_of(mode: ModeInfo) -> ColorInfo {
    match mode.pixel_format {
        PixelFormat::Bgr => bgr_color_info(),
        PixelFormat::Bitmask => match mode.pixel_bitmask {
            Some(bitmask) => ColorInfo {
                red_field_position: field_position(bitmask.red) as u8,
                red_mask_size: mask_size(bitmask.red) as u8,
                green_field_position: field_position(bitmask.green) as u8,
                green_mask_size: mask_size(bitmask.green) as u8,
                blue_field_position: field_position(bitmask.blue) as u8,
                blue_mask_size: mask_size(bitmask.blue) as u8,
            },
            None => rgb_color_info(),
        },
        _ => rgb_color_info(),
    }
}

/// Pass the framebuffer information to the kernel.
///
/// `address` is where the framebuffer is, `mode` the mode that the display
/// is in. This fails with `DeviceError` for a mode that the kernel cannot be
/// told about.
pub fn prepare_information(address: u64, mode: &ModeInfo) -> (r: Result<FramebufferInfo, Status>)
    ensures
        r is Ok <==> mode_is_usable(*mode),
        r matches Ok(info) ==> info == (FramebufferInfo {
            address,
            pitch: (mode.stride * (bits_per_pixel(*mode) / 8)) as u32,
            width: mode.width as u32,
            height: mode.height as u32,
            bpp: bits_per_pixel(*mode),
            color_info: color_info_of(*mode),
        }),
        r matches Err(e) ==> e == Status::DeviceError,
{
    let mut bpp: u8 = 32;
    let color_info: ColorInfo = match mode.pixel_format {
        PixelFormat::Rgb => ColorInfo {
            red_field_position: 0,
            red_mask_size: 8,
            green_field_position: 8,
            green_mask_size: 8,
            blue_field_position: 16,
            blue_mask_size: 8,
        },
        PixelFormat::Bgr => ColorInfo {
            red_field_position: 16,
            red_mask_size: 8,
            green_field_position: 8,
            green_mask_size: 8,
            blue_field_position: 0,
            blue_mask_size: 8,
        },
        PixelFormat::Bitmask => {
            let bitmask: PixelBitmask = match mode.pixel_bitmask {
                Some(bitmask) => bitmask,
                None => {
                    return Err(Status::DeviceError);
                },
            };
            bpp =
            match bitmask_to_bpp(bitmask) {
                Ok(bpp) => bpp,
                Err(e) => {
                    return Err(e);
                },
            };
            match bitmask_to_color_info(bitmask) {
                Ok(info) => info,
                Err(e) => {
                    return Err(e);
                },
            }
        },
        PixelFormat::BltOnly => {
            // GPU doesn't support pixel access
            return Err(Status::DeviceError);
        },
    };
    let bytes_per_pixel: u64 = (bpp / 8) as u64;
    let pitch: u64 = match mode.stride.checked_mul(bytes_per_pixel) {
        Some(pitch) => pitch,
        None => {
            return Err(Status::DeviceError);
        },
    };
    if pitch > u32::MAX as u64 || mode.width > u32::MAX as u64 || mode.height > u32::MAX as u64 {
        return Err(Status::DeviceError);
    }
    Ok(
        FramebufferInfo {
            address,
            pitch: pitch as u32,
            width: mode.width as u32,
            height: mode.height as u32,
            bpp,
            color_info,
        },
    )
}

} // verus!
