use imxrt_flash_algorithm::bindings::__BindgenBitfieldUnit;
use imxrt_flash_algorithm::bindings::_serial_nor_config_option__bindgen_ty_1__bindgen_ty_1 as Option0;
use imxrt_flash_algorithm::bindings::_serial_nor_config_option__bindgen_ty_2__bindgen_ty_1 as Option1;
use imxrt_flash_algorithm::clock::clock_plan;
use imxrt_flash_algorithm::clock::rom_ocotp_boot_freq_value;
use imxrt_flash_algorithm::clock::rom_ocotp_lpb_boot_value;

fn option0() -> Option0 {
    Option0 { _bitfield_align_1: [], _bitfield_1: __BindgenBitfieldUnit::new([0; 4]) }
}

#[test]
fn bits_are_little_endian() {
    let unit = __BindgenBitfieldUnit::new([0b0000_0101u8, 0x80]);
    assert!(unit.get_bit(0));
    assert!(!unit.get_bit(1));
    assert!(unit.get_bit(2));
    assert!(unit.get_bit(15));
    assert!(!unit.get_bit(14));
    assert_eq!(unit.get(0, 3), 0b101);
    assert_eq!(unit.get(2, 14), 0b1000_0000_0000_01);
}

#[test]
fn set_bit_touches_one_bit() {
    let mut unit = __BindgenBitfieldUnit::new([0xFFu8, 0x00]);
    unit.set_bit(3, false);
    unit.set_bit(9, true);
    assert_eq!(unit, __BindgenBitfieldUnit::new([0xF7, 0x02]));
}

#[test]
fn set_stores_low_bits_only() {
    let mut unit = __BindgenBitfieldUnit::new([0u8; 4]);
    unit.set(4, 4, 0xABC);
    assert_eq!(unit, __BindgenBitfieldUnit::new([0xC0, 0, 0, 0]));
    assert_eq!(unit.get(4, 4), 0xC);
    unit.set(0, 32, 0x1234_5678);
    assert_eq!(unit.get(0, 32), 0x1234_5678);
    assert_eq!(unit, __BindgenBitfieldUnit::new([0x78, 0x56, 0x34, 0x12]));
}

#[test]
fn option_block_tag_and_frequency() {
    let mut o = option0();
    o.set_tag(0x0C);
    o.set_max_freq(6);
    assert_eq!(o.tag(), 0x0C);
    assert_eq!(o.max_freq(), 6);
    assert_eq!(o.misc_mode(), 0);
    assert_eq!(o._bitfield_1, __BindgenBitfieldUnit::new([0x06, 0, 0, 0xC0]));
    o.set_device_type(0x1F);
    assert_eq!(o.device_type(), 0xF);
    assert_eq!(o.tag(), 0x0C);
}

#[test]
fn option_block_from_all_fields() {
    let unit = Option0::new_bitfield_1(6, 1, 2, 3, 4, 5, 7, 0x0C);
    assert_eq!(unit, __BindgenBitfieldUnit::new([0x16, 0x32, 0x54, 0xC7]));
    let o = Option0 { _bitfield_align_1: [], _bitfield_1: unit };
    assert_eq!(
        [o.max_freq(), o.misc_mode(), o.quad_mode_setting(), o.cmd_pads(), o.query_pads(), o.device_type(), o.option_size(), o.tag()],
        [6, 1, 2, 3, 4, 5, 7, 0x0C]
    );
    o.clone();
}

#[test]
fn second_option_word() {
    let unit = Option1::new_bitfield_1(0x20, 0xAA, 3, 0x55, 9);
    let mut o = Option1 { _bitfield_align_1: [], _bitfield_1: unit };
    assert_eq!(o.dummy_cycles(), 0x20);
    assert_eq!(o.reserved0(), 0xAA);
    assert_eq!(o.pinmux_group(), 3);
    assert_eq!(o.reserved1(), 0x55);
    assert_eq!(o.flash_connection(), 9);
    o.set_pinmux_group(0xF);
    o.set_reserved0(0);
    o.set_reserved1(1);
    o.set_dummy_cycles(7);
    o.set_flash_connection(1);
    assert_eq!(o._bitfield_1, __BindgenBitfieldUnit::new([0x07, 0x00, 0x1F, 0x10]));
}

#[test]
fn fuse_fields() {
    assert_eq!(rom_ocotp_lpb_boot_value(0x0060_0000), 3);
    assert_eq!(rom_ocotp_lpb_boot_value(0xFFBF_FFFF), 1);
    assert_eq!(rom_ocotp_lpb_boot_value(0x0040_0000), 2);
    assert_eq!(rom_ocotp_lpb_boot_value(0x0020_0000), 1);
    assert_eq!(rom_ocotp_boot_freq_value(0x04), 1);
    assert_eq!(rom_ocotp_boot_freq_value(0xFB), 0);
}

#[test]
fn clock_plan_for_fuses() {
    let p = clock_plan(0, 1);
    assert_eq!((p.clock_divider, p.arm_pll_div, p.system_core_clock, p.ahb_divider), (1, 88, 528_000_000, 4));
    let p = clock_plan(0, 0);
    assert_eq!((p.clock_divider, p.arm_pll_div, p.system_core_clock, p.ahb_divider), (1, 66, 396_000_000, 3));
    let p = clock_plan(1, 0);
    assert_eq!((p.clock_divider, p.arm_pll_div, p.system_core_clock, p.ahb_divider), (2, 66, 198_000_000, 2));
    let p = clock_plan(3, 1);
    assert_eq!((p.clock_divider, p.arm_pll_div, p.system_core_clock, p.ahb_divider), (8, 88, 66_000_000, 1));
}
