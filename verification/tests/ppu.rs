use crusty::gba::system::SystemMemory;
use crusty::ppu::bg_control::{BgControl, BgOffset};
use crusty::ppu::color_effect::{ColorEffect, ColorEffectSelection, EffectCoef};
use crusty::ppu::disp_control::{display_control, DisplayControl};
use crusty::ppu::oam_attribute::{
    get_palettes, is_oam_entry_enabled, ObjectFlag, OamAttribute, RotationScaleParameterBuilder,
    Shape, Transformation,
};
use crusty::ppu::window_control::{WindowCnt, WindowDimensions};
use crusty::ppu::{euclid_to_buffer_idx, get_bgs, Mosaic, PPU};

#[test]
fn tick_walks_lines_and_frames() {
    let mut ppu = PPU::default();
    let mut ram = SystemMemory::default();
    // no time passes
    assert!(!ppu.tick(3, &mut ram));
    // dot 240: H-blank raised
    assert!(!ppu.tick(4 * 240, &mut ram));
    assert_eq!(ram.read_word(0x4000004), Ok(0x2));
    // dot 308: H-blank lowered, line 1 written to V count
    assert!(!ppu.tick(4 * 308, &mut ram));
    assert_eq!(ram.read_word(0x4000004), Ok(0x1_0000));
    let mut cycle: u32 = 4 * 308;
    let mut done = 0;
    for line in 2..=228u32 {
        cycle += 4 * 240;
        assert!(!ppu.tick(cycle, &mut ram));
        cycle += 4 * 68;
        let finished = ppu.tick(cycle, &mut ram);
        if line == 160 {
            // V-blank raised on line 160
            assert_eq!(ram.read_word(0x4000004), Ok((160 << 16) | 0x1));
        }
        if finished {
            done += 1;
            assert_eq!(line, 228);
        }
    }
    assert_eq!(done, 1);
    assert_eq!(ppu.frame(), 1);
    assert_eq!(ram.read_word(0x4000004), Ok(0));
}

#[test]
fn next_frame_draws_a_sixteen_colour_object() {
    let mut ppu = PPU::default();
    let mut ram = SystemMemory::default();
    // objects on, background mode 0, no backgrounds
    ram.write_word(0x4000000, 0x1000).unwrap();
    // object 0 at (2, 1), 8x8, 16 colours, palette 0, tiles from character 2
    ram.write_word(0x7000000, 0x0000_0001).unwrap();
    ram.write_word(0x7000004, 0x0000_0002).unwrap();
    // palette 0: colour 0 black, colour 1 red
    ram.write_word(0x5000200, 0x001f_0000).unwrap();
    // pixel (0, 0) uses colour 1
    ram.write_byte(0x6010040, 0x01).unwrap();
    let frame = ppu.get_next_frame(&mut ram);
    assert_eq!(frame.len(), 160 * 240 * 4);
    let at = euclid_to_buffer_idx(2, 1);
    assert_eq!(at, 968);
    assert_eq!(&frame[at..at + 4], &[124, 0, 0, 255]);
    // the next pixel takes colour 0
    assert_eq!(&frame[at + 4..at + 8], &[0, 0, 0, 255]);
    // outside the object the buffer is untouched
    assert_eq!(&frame[0..4], &[255, 255, 255, 255]);
    let (x, y) = (2 + 8, 1);
    let past = euclid_to_buffer_idx(x, y);
    assert_eq!(&frame[past..past + 4], &[255, 255, 255, 255]);
}

#[test]
fn next_frame_skips_transparent_256_colour_pixels() {
    let mut ppu = PPU::default();
    let mut ram = SystemMemory::default();
    ram.write_word(0x4000000, 0x1000).unwrap();
    // 256 colours (bit 13), y = 0 but the word is not zero thanks to the colour bit
    ram.write_word(0x7000000, 0x0000_2000).unwrap();
    ram.write_word(0x7000004, 0x0000_0001).unwrap();
    // colour 3 is the upper half of the second object palette word
    ram.write_word(0x5000204, 0x0001_0000).unwrap();
    // pixel (0, 0): colour 3; pixel (1, 0): colour 0, transparent
    ram.write_byte(0x6010020, 0x03).unwrap();
    let frame = ppu.get_next_frame(&mut ram);
    let at = euclid_to_buffer_idx(1, 0);
    assert_eq!(&frame[at..at + 4], &[4, 0, 0, 255]);
    let next = euclid_to_buffer_idx(2, 0);
    assert_eq!(&frame[next..next + 4], &[255, 255, 255, 255]);
}

#[test]
fn display_registers_decode() {
    let dc = DisplayControl::from(0x1f03);
    assert_eq!(dc.bg_mode, 3);
    assert!(dc.display_bg0 && dc.display_bg1 && dc.display_bg2 && dc.display_bg3 && dc.display_obj);
    assert!(!dc.forced_blank);
    let mut ram = SystemMemory::default();
    ram.write_word(0x4000000, 0x0104).unwrap();
    let read = display_control(&mut ram).unwrap();
    assert_eq!(read.bg_mode, 4);
    assert!(read.display_bg0);
}

#[test]
fn backgrounds_follow_the_mode() {
    let mut ram = SystemMemory::default();
    ram.write_halfword(0x4000008, 0x1f83).unwrap();
    ram.write_halfword(0x400000c, 0x4000).unwrap();
    let mode0 = DisplayControl::from(0x0500);
    let bgs = get_bgs(&mode0, &mut ram).unwrap();
    assert_eq!(bgs.len(), 2);
    assert_eq!(
        bgs[0],
        BgControl {
            bg_priority: 3,
            character_base_block: 0,
            mosaic: false,
            pallete: true,
            screen_base_block: 0x1f,
            display_area_wraparound: false,
            screen_size: 0,
        }
    );
    assert_eq!(bgs[1].screen_size, 1);
    // mode 2 shows only backgrounds 2 and 3
    let mode2 = DisplayControl::from(0x0302);
    assert_eq!(get_bgs(&mode2, &mut ram).unwrap().len(), 0);
    let off = BgOffset::from(0x01ff_0123);
    assert_eq!((off.x, off.y), (0x123, 0x1ff));
}

#[test]
fn object_attributes_decode() {
    let words = [0x8000_4132u32, 0x0000_3005];
    let obj = OamAttribute::from(&words);
    assert_eq!(obj.y_coord, 0x32);
    assert_eq!(obj.x_coord, 5);
    assert!(obj.is_rot_scale);
    assert_eq!(obj.object_flag, ObjectFlag::DoublSize(false));
    assert_eq!(obj.obj_shape, Shape { w: 32, h: 16 });
    assert_eq!(obj.palette_idx, 3);
    assert_eq!(obj.transformation, Transformation::RotScale { idx: 0 });
    assert!(is_oam_entry_enabled(&words));
    assert!(!is_oam_entry_enabled(&[0x200]));
}

#[test]
fn rotation_parameters_group_by_four() {
    let mut builder = RotationScaleParameterBuilder::new();
    for i in 0..8u32 {
        builder.add_parameter((i + 1) << 16);
    }
    let params = builder.build();
    assert_eq!(params.len(), 2);
    assert_eq!((params[1].dx, params[1].dmx, params[1].dy, params[1].dmy), (5, 6, 7, 8));
}

#[test]
fn palettes_split_words_into_two_colours() {
    let mut ram = SystemMemory::default();
    ram.write_word(0x5000200, 0x7fff_001f).unwrap();
    let colors = get_palettes(&ram);
    assert_eq!(colors.num_of_palettes(), 16);
    let p0 = colors.get_palette(0);
    assert_eq!(p0.len(), 16);
    assert_eq!(p0[0], (124, 0, 0));
    assert_eq!(p0[1], (252, 252, 124));
    assert_eq!(colors.get_256_color(1), (252, 252, 124));
}

#[test]
fn effect_and_window_registers_decode() {
    let sel = ColorEffectSelection::from((0x0045, 7));
    assert_eq!(sel.effect, Some(ColorEffect::AlphaBlending { eva: EffectCoef(0), evb: EffectCoef(0) }));
    assert!(sel.first_target.bg0 && sel.first_target.bg2);
    let bright = ColorEffectSelection::from((0x0080, 9));
    assert_eq!(bright.effect, Some(ColorEffect::BrightnessIncrease(EffectCoef(9))));
    assert_eq!(EffectCoef::from(0x3f), EffectCoef(15));
    let dims = WindowDimensions::from((0x1020, 0x3040));
    assert_eq!((dims.left, dims.right, dims.top, dims.bottom), (0x10, 0x20, 0x30, 0x40));
    let cnt = WindowCnt::from(0x0001_0200);
    assert!(cnt.window_1.bg1 && cnt.outside.bg0 && !cnt.window_0.bg0);
    let m = Mosaic::from(0x1234);
    assert_eq!((m.bg_h, m.bg_v, m.obj_h, m.obj_v), (3, 2, 1, 0));
}

#[test]
fn display_status_reads_back() {
    let mut ram = SystemMemory::default();
    ram.get_io_ram()[1] = 0x00a0_2b13;
    let stat = crusty::ppu::disp_control::display_stat(&mut ram).unwrap();
    assert!(stat.v_blank && stat.h_blank && !stat.v_counter && !stat.v_blank_irq && stat.h_blank_irq);
    assert_eq!(stat.v_count_setting, 0x2b);
    assert_eq!(stat.v_count, 0xa0);
}
