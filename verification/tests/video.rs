use towboot::quirk::{Quirk, QuirkSet};
use towboot::status::Status;
use towboot::video::{
    bitmask_to_bpp, bitmask_to_color_info, check_bit, find_mode, parse_color_bitmap,
    prepare_information, setup_video, ColorInfo, FramebufferInfo, ModeInfo, PixelBitmask,
    PixelFormat, VideoDecision, VideoMode,
};

fn mode(width: u64, height: u64) -> ModeInfo {
    ModeInfo { width, height, pixel_format: PixelFormat::Bgr, pixel_bitmask: None, stride: width }
}

fn wanted(width: u32, height: u32, depth: u32) -> Option<VideoMode> {
    Some(VideoMode { graphics: true, width, height, depth })
}

#[test]
fn preferred_mode_is_set_if_it_is_there() {
    let modes = vec![mode(640, 480), mode(800, 600), mode(1024, 768), mode(1280, 1024), mode(1024, 768)];
    let setup = setup_video(wanted(1024, 768, 24), &QuirkSet::new(), &modes);
    assert_eq!(setup.decision, VideoDecision::Switch(2));
    assert!(!setup.no_matching_mode);
    assert_eq!(setup.unsupported_depth, None);
    assert!(!setup.text_mode_wanted);
    assert_eq!(find_mode(&modes, 1024, 768), Some(2));
}

#[test]
fn current_mode_is_kept_if_the_preferred_one_is_missing() {
    let modes = vec![mode(640, 480), mode(800, 600), mode(1280, 1024), mode(768, 1024)];
    let setup = setup_video(wanted(1024, 768, 24), &QuirkSet::new(), &modes);
    assert_eq!(setup.decision, VideoDecision::Keep);
    assert!(setup.no_matching_mode);
    assert_eq!(find_mode(&modes, 1024, 768), None);
    let setup = setup_video(wanted(1024, 768, 24), &QuirkSet::new(), &vec![]);
    assert_eq!(setup.decision, VideoDecision::Keep);
    assert!(setup.no_matching_mode);
}

#[test]
fn other_depths_are_worth_a_warning() {
    let modes = vec![mode(1024, 768)];
    let setup = setup_video(wanted(1024, 768, 32), &QuirkSet::new(), &modes);
    assert_eq!(setup.decision, VideoDecision::Switch(0));
    assert_eq!(setup.unsupported_depth, Some(32));
    let setup = setup_video(wanted(1024, 768, 0), &QuirkSet::new(), &modes);
    assert_eq!(setup.unsupported_depth, Some(0));
}

#[test]
fn resolution_is_kept_without_a_wish_for_graphics() {
    let modes = vec![mode(1024, 768), mode(80, 25)];
    let mut keep = QuirkSet::new();
    keep.insert(Quirk::KeepResolution);
    let setup = setup_video(wanted(1024, 768, 16), &keep, &modes);
    assert_eq!(setup.decision, VideoDecision::Keep);
    assert!(!setup.no_matching_mode);
    assert_eq!(setup.unsupported_depth, None);
    let setup = setup_video(None, &QuirkSet::new(), &modes);
    assert_eq!(setup.decision, VideoDecision::Keep);
    assert!(!setup.no_matching_mode && !setup.text_mode_wanted);
    let text = Some(VideoMode { graphics: false, width: 80, height: 25, depth: 0 });
    let setup = setup_video(text, &QuirkSet::new(), &modes);
    assert_eq!(setup.decision, VideoDecision::Keep);
    assert!(setup.text_mode_wanted);
    assert!(!setup_video(text, &keep, &modes).text_mode_wanted);
}

#[test]
fn color_bitmaps_are_parsed() {
    assert_eq!(parse_color_bitmap(0x0000_00ff), Ok((0, 8)));
    assert_eq!(parse_color_bitmap(0x0000_ff00), Ok((8, 8)));
    assert_eq!(parse_color_bitmap(0x00ff_0000), Ok((16, 8)));
    assert_eq!(parse_color_bitmap(0x0000_f800), Ok((11, 5)));
    assert_eq!(parse_color_bitmap(0x0000_07e0), Ok((5, 6)));
    assert_eq!(parse_color_bitmap(0x4000_0000), Ok((30, 1)));
    assert_eq!(parse_color_bitmap(0x7fff_ffff), Ok((0, 31)));
    assert_eq!(parse_color_bitmap(0), Ok((0, 0)));
    // the highest bit counts as well
    assert_eq!(parse_color_bitmap(0x8000_0000), Ok((31, 1)));
    assert_eq!(parse_color_bitmap(0xff00_0000), Ok((24, 8)));
    assert_eq!(parse_color_bitmap(0xffff_ffff), Ok((0, 32)));
    for position in 0..32u32 {
        for size in 1..=(32 - position) {
            let mask = (((1u64 << size) - 1) << position) as u32;
            assert_eq!(parse_color_bitmap(mask), Ok((position as u8, size as u8)));
        }
    }
}

#[test]
fn color_bitmaps_have_to_be_continuous() {
    assert_eq!(parse_color_bitmap(0x0000_0f0f), Err(Status::DeviceError));
    assert_eq!(parse_color_bitmap(0b101), Err(Status::DeviceError));
    assert_eq!(parse_color_bitmap(0x4000_0001), Err(Status::DeviceError));
    assert_eq!(parse_color_bitmap(0x8000_0001), Err(Status::DeviceError));
    assert_eq!(parse_color_bitmap(0x00ff_00ff), Err(Status::DeviceError));
    let bitmask = PixelBitmask { red: 0xff, green: 0xf0f00, blue: 0xff0000, reserved: 0 };
    assert_eq!(bitmask_to_color_info(bitmask), Err(Status::DeviceError));
}

#[test]
fn bits_per_pixel_are_counted() {
    let rgb = PixelBitmask { red: 0xff, green: 0xff00, blue: 0xff0000, reserved: 0xff000000 };
    assert_eq!(bitmask_to_bpp(rgb), Ok(24));
    let rgb565 = PixelBitmask { red: 0xf800, green: 0x07e0, blue: 0x001f, reserved: 0 };
    assert_eq!(bitmask_to_bpp(rgb565), Ok(16));
    assert_eq!(bitmask_to_bpp(PixelBitmask { red: 0, green: 0, blue: 0, reserved: 0 }), Ok(0));
    let top = PixelBitmask { red: 0xc000_0000, green: 0, blue: 1, reserved: 0 };
    assert_eq!(bitmask_to_bpp(top), Ok(3));
    let all = PixelBitmask { red: 0xffc0_0000, green: 0x003f_f800, blue: 0x7ff, reserved: 0 };
    assert_eq!(bitmask_to_bpp(all), Ok(32));
    let shared = PixelBitmask { red: 0x1ff, green: 0xff00, blue: 0xff0000, reserved: 0 };
    assert_eq!(bitmask_to_bpp(shared), Err(Status::DeviceError));
    assert!(check_bit(0b100, 2));
    assert!(!check_bit(0b100, 1));
    assert!(check_bit(0x8000_0000, 31));
}

#[test]
fn bitmask_gives_color_info() {
    let rgb565 = PixelBitmask { red: 0xf800, green: 0x07e0, blue: 0x001f, reserved: 0 };
    assert_eq!(
        bitmask_to_color_info(rgb565),
        Ok(ColorInfo {
            red_field_position: 11,
            red_mask_size: 5,
            green_field_position: 5,
            green_mask_size: 6,
            blue_field_position: 0,
            blue_mask_size: 5,
        })
    );
}

#[test]
fn framebuffer_information() {
    let bgr = ModeInfo { width: 1024, height: 768, pixel_format: PixelFormat::Bgr, pixel_bitmask: None, stride: 1024 };
    assert_eq!(
        prepare_information(0x8000_0000, &bgr),
        Ok(FramebufferInfo {
            address: 0x8000_0000,
            pitch: 4096,
            width: 1024,
            height: 768,
            bpp: 32,
            color_info: ColorInfo {
                red_field_position: 16,
                red_mask_size: 8,
                green_field_position: 8,
                green_mask_size: 8,
                blue_field_position: 0,
                blue_mask_size: 8,
            },
        })
    );
    let rgb = ModeInfo { pixel_format: PixelFormat::Rgb, stride: 1056, ..bgr };
    let info = prepare_information(0xc000_0000, &rgb).unwrap();
    assert_eq!(info.pitch, 4224);
    assert_eq!(info.bpp, 32);
    assert_eq!((info.color_info.red_field_position, info.color_info.red_mask_size), (0, 8));
    assert_eq!((info.color_info.green_field_position, info.color_info.green_mask_size), (8, 8));
    assert_eq!((info.color_info.blue_field_position, info.color_info.blue_mask_size), (16, 8));
    let rgb565 = PixelBitmask { red: 0xf800, green: 0x07e0, blue: 0x001f, reserved: 0 };
    let bitmask = ModeInfo { pixel_format: PixelFormat::Bitmask, pixel_bitmask: Some(rgb565), ..bgr };
    let info = prepare_information(0, &bitmask).unwrap();
    assert_eq!(info.bpp, 16);
    assert_eq!(info.pitch, 2048);
    assert_eq!(info.color_info.red_field_position, 11);
}

#[test]
fn unusable_modes() {
    let bgr = ModeInfo { width: 1024, height: 768, pixel_format: PixelFormat::Bgr, pixel_bitmask: None, stride: 1024 };
    let blt = ModeInfo { pixel_format: PixelFormat::BltOnly, ..bgr };
    assert_eq!(prepare_information(0, &blt), Err(Status::DeviceError));
    let no_mask = ModeInfo { pixel_format: PixelFormat::Bitmask, ..bgr };
    assert_eq!(prepare_information(0, &no_mask), Err(Status::DeviceError));
    let broken = PixelBitmask { red: 0b101, green: 0b1000, blue: 0b10000, reserved: 0 };
    let with_holes = ModeInfo { pixel_format: PixelFormat::Bitmask, pixel_bitmask: Some(broken), ..bgr };
    assert_eq!(prepare_information(0, &with_holes), Err(Status::DeviceError));
    let wide = ModeInfo { width: 0x1_0000_0000, ..bgr };
    assert_eq!(prepare_information(0, &wide), Err(Status::DeviceError));
    let long = ModeInfo { stride: 0x4000_0000, ..bgr };
    assert_eq!(prepare_information(0, &long), Err(Status::DeviceError));
    let longest = ModeInfo { stride: 0x3fff_ffff, ..bgr };
    assert_eq!(prepare_information(0, &longest).unwrap().pitch, 0xffff_fffc);
}
