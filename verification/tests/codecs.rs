use apple_drivers::codec::{
    parse_gpio, pause, update_bits, write_reg, CodecAction, CodecBus, CodecRun, CodecSite, CodecStep,
    Gpio,
};
use apple_drivers::cs42l83::{self, pll_ratio, Cs42l83};
use apple_drivers::device::{DeviceNode, Property, Resolved, TreeNode};
use apple_drivers::i2c::I2cError;
use apple_drivers::pcm::{PcmFormat, PcmParams};
use apple_drivers::tas5770l::{self, read_optional_u8_property, resolve_fixed_supply, Tas5770l};

fn property(name: &str, cells: &[u32]) -> Property {
    let mut value = Vec::new();
    for cell in cells {
        value.extend_from_slice(&cell.to_be_bytes());
    }
    let number = if cells.len() == 1 { Some(cells[0] as usize) } else { None };
    Property { name: String::from(name), value, number }
}

fn node(properties: Vec<Property>) -> DeviceNode {
    DeviceNode {
        name: String::from("codec"),
        compatible: Vec::new(),
        resources: Vec::new(),
        properties,
    }
}

fn params(rate: u32, format: PcmFormat) -> PcmParams {
    PcmParams {
        format,
        rate,
        channels: 2,
        period_frames: 256,
        buffer_frames: 1024,
        period_bytes: Some(1024),
        buffer_bytes: Some(4096),
    }
}

fn amplifier() -> Tas5770l {
    Tas5770l {
        address: 0x31,
        sdz_supply: None,
        shutdown_gpio: None,
        reset_gpio: None,
        i_sense_slot: None,
        v_sense_slot: None,
        sdout_pull_down: false,
        sdout_zero_fill: false,
        powered: false,
        unmuted: false,
    }
}

#[test]
fn the_page_is_selected_before_a_register() {
    let bus = CodecBus { paged: true, settle_us: 0 };
    let steps = vec![write_reg(0x1025, 7), update_bits(0x1026, 0x0f, 0x05), write_reg(0x2001, 1)];
    let mut run = CodecRun::new(steps, bus, 0);
    assert_eq!(run.next(Ok(0)), CodecAction::Send { register: 0, value: 0x10 });
    let mut sent = vec![(0u8, 0x10u8)];
    let result = loop {
        match run.next(Ok(0xf0)) {
            CodecAction::Send { register, value } => sent.push((register, value)),
            CodecAction::Finish { result } => break result,
            _ => {}
        }
    };
    assert_eq!(result, Ok(()));
    assert_eq!(
        sent,
        vec![(0, 0x10), (0x25, 7), (0x26, 0xf5), (0, 0x20), (0x01, 1)]
    );
    assert_eq!(run.page(), 0x20);
}

#[test]
fn a_failed_transfer_ends_the_program() {
    let bus = CodecBus { paged: false, settle_us: 0 };
    let mut run = CodecRun::new(vec![write_reg(2, 1), pause(5)], bus, 0);
    assert_eq!(run.next(Ok(0)), CodecAction::Send { register: 2, value: 1 });
    let mut last = run.next(Err(I2cError::Nack));
    while !matches!(last, CodecAction::Finish { result: _ }) {
        last = run.next(Ok(0));
    }
    assert_eq!(last, CodecAction::Finish { result: Err(I2cError::Nack) });
    let mut run = CodecRun::new(vec![CodecStep::Refuse], bus, 0);
    assert_eq!(run.next(Ok(0)), CodecAction::Finish { result: Err(I2cError::InvalidArg) });
}

#[test]
fn pins_may_be_active_low() {
    let low = Gpio { controller: 1, pin: 2, active_low: true };
    assert!(!low.physical_value(true));
    assert!(low.physical_value(false));
    let mut cells = Vec::new();
    for cell in [9u32, 152, 1] {
        cells.extend_from_slice(&cell.to_be_bytes());
    }
    assert_eq!(parse_gpio(&cells), Some(Gpio { controller: 9, pin: 152, active_low: true }));
    assert_eq!(parse_gpio(&cells[..8]).map(|gpio| gpio.active_low), Some(false));
    assert_eq!(parse_gpio(&cells[..7]), None);
}

#[test]
fn the_clock_setup_follows_the_bit_clock() {
    let direct = pll_ratio(12_288_000).unwrap();
    assert_eq!((direct.mclk_src_sel, direct.mclk_int, direct.n), (0, 12_288_000, 1));
    let locked = pll_ratio(3_072_000).unwrap();
    assert_eq!(
        (locked.pll_div_int, locked.pll_div_frac, locked.pll_cal_ratio),
        (0x3e, 0x80_0000, 125)
    );
    assert_eq!(pll_ratio(3_072_001), None);
}

#[test]
fn headphones_play_what_their_clock_allows() {
    let mut chip = Cs42l83::new(0x48, None);
    assert_eq!(Cs42l83::device_id(0x42, 0xa8, 0x30), 0x42a83);
    assert!(Cs42l83::initialize(0x42, 0xa8, 0x30).is_ok());
    assert!(Cs42l83::initialize(0, 0, 0).is_err());
    let wrong = chip.configure_playback(&params(48_000, PcmFormat::S24Le3), 3, 2, 32);
    assert_eq!(wrong, vec![CodecStep::Refuse]);
    let narrow = chip.configure_playback(&params(48_000, PcmFormat::S16Le), 3, 2, 16);
    assert_eq!(narrow, vec![CodecStep::Refuse]);
    let odd = chip.configure_playback(&params(50_000, PcmFormat::S16Le), 3, 2, 32);
    assert_eq!(odd.last(), Some(&CodecStep::Refuse));
    let good = chip.configure_playback(&params(48_000, PcmFormat::S16Le), 3, 2, 32);
    assert_ne!(good.last(), Some(&CodecStep::Refuse));
    assert_eq!(chip.next_pll.map(|pll| pll.sclk), Some(3_072_000));
    assert!(chip.set_powered(false).is_empty());
    chip.settle(u32::MAX & !4, 0x10);
    assert_eq!(chip.pll_config.map(|pll| pll.sclk), Some(3_072_000));
    assert!(chip.powered);
    assert!(chip.set_powered(true).is_empty());
}

#[test]
fn a_headphone_codec_is_described_by_its_node() {
    cs42l83::force_link();
    let good = node(vec![
        property("phandle", &[4]),
        property("reg", &[0x48]),
        property("reset-gpios", &[9, 152, 1]),
    ]);
    let buses = vec![2];
    match cs42l83::probe(&good, Some(2), &buses, &vec![9]) {
        Resolved::Ready((site, gpio)) => {
            assert_eq!(site, CodecSite { bus: 2, phandle: 4, address: 0x48 });
            assert!(gpio.is_some());
        }
        _ => panic!("the node is complete"),
    }
    assert!(matches!(cs42l83::probe(&good, Some(2), &buses, &Vec::new()), Resolved::Defer));
    assert!(matches!(cs42l83::probe(&good, Some(3), &buses, &vec![9]), Resolved::Defer));
    assert!(matches!(
        cs42l83::probe(&good, None, &buses, &vec![9]),
        Resolved::Fault("cs42l83: missing parent I2C bus")
    ));
    let wide = node(vec![property("phandle", &[4]), property("reg", &[0x80])]);
    assert!(matches!(
        cs42l83::probe(&wide, Some(2), &buses, &Vec::new()),
        Resolved::Fault("cs42l83: unsupported I2C address")
    ));
    assert!(matches!(
        cs42l83::probe(&node(Vec::new()), Some(2), &buses, &Vec::new()),
        Resolved::Fault("cs42l83: missing phandle")
    ));
}

#[test]
fn amplifier_slots_come_from_the_mask() {
    let chip = amplifier();
    let steps = chip.configure_playback(PcmFormat::S32Le, 96_000, 0b1010, 4, 32);
    assert!(steps.contains(&update_bits(0x0d, 0x0f, 1)));
    assert!(steps.contains(&update_bits(0x0d, 0xf0, 0x30)));
    let three = chip.configure_playback(PcmFormat::S32Le, 96_000, 0b111, 4, 32);
    assert_eq!(three.last(), Some(&CodecStep::Refuse));
    let none = chip.configure_playback(PcmFormat::S32Le, 96_000, 0, 4, 32);
    assert_eq!(none.last(), Some(&CodecStep::Refuse));
    let slow = chip.configure_playback(PcmFormat::S16Le, 8_000, 1, 4, 32);
    assert_eq!(slow.last(), Some(&CodecStep::Refuse));
}

#[test]
fn an_amplifier_is_powered_and_muted_by_one_register() {
    let mut chip = amplifier();
    assert_eq!(chip.set_powered(true).len(), 1);
    assert_eq!(chip.set_muted(false).len(), 1);
    assert!(chip.powered && chip.unmuted);
    let down = chip.enter_shutdown();
    assert_eq!(down.len(), 2);
    assert!(!chip.powered);
    let start = chip.initialize();
    assert!(start.contains(&write_reg(0x01, 1)));
    assert!(!chip.powered && chip.unmuted);
    chip.settle(0);
    assert!(!chip.powered && chip.unmuted);
    chip.settle(1);
    assert!(chip.powered && chip.unmuted);
    chip.settle(3);
    assert!(chip.powered && !chip.unmuted);
}

#[test]
fn an_amplifier_is_described_by_its_node() {
    tas5770l::force_link();
    let supply = TreeNode {
        name: String::from("regulator"),
        depth: 1,
        compatible: vec![String::from("regulator-fixed")],
        properties: vec![
            property("phandle", &[60]),
            property("gpio", &[9, 88, 0]),
            property("startup-delay-us", &[1000]),
        ],
        regs: Vec::new(),
    };
    let root = TreeNode {
        name: String::new(),
        depth: 0,
        compatible: Vec::new(),
        properties: Vec::new(),
        regs: Vec::new(),
    };
    let tree = vec![root, supply];
    let good = node(vec![
        property("phandle", &[4]),
        property("reg", &[0x31]),
        property("SDZ-supply", &[60]),
        property("ti,imon-slot-no", &[2]),
        property("ti,sdout-zero-fill", &[]),
    ]);
    let buses = vec![2];
    match tas5770l::probe(&good, Some(2), &buses, Some(&tree), &vec![9]) {
        Resolved::Ready((site, chip)) => {
            assert_eq!((site.bus, site.phandle, chip.address), (2, 4, 0x31));
            assert_eq!(chip.i_sense_slot, Some(2));
            assert!(chip.sdout_zero_fill && !chip.sdout_pull_down);
            let supply = chip.sdz_supply.unwrap();
            assert_eq!(supply.startup_delay_us, 1000);
            assert_eq!(supply.gpio, Some(Gpio { controller: 9, pin: 88, active_low: true }));
            assert_eq!(supply.enable().len(), 3);
        }
        _ => panic!("the node is complete"),
    }
    assert!(matches!(
        tas5770l::probe(&good, Some(2), &buses, None, &vec![9]),
        Resolved::Fault("tas5770l: FDT is not available")
    ));
    assert!(matches!(
        tas5770l::probe(&good, None, &buses, Some(&tree), &vec![9]),
        Resolved::Fault("tas5770l: missing parent I2C bus")
    ));
    assert!(matches!(
        tas5770l::probe(&good, Some(7), &buses, Some(&tree), &vec![9]),
        Resolved::Defer
    ));
    assert!(matches!(
        resolve_fixed_supply(&[property("SDZ-supply", &[61])], "SDZ-supply", Some(&tree), &vec![9]),
        Resolved::Fault("tas5770l: supply node not found")
    ));
    assert_eq!(
        read_optional_u8_property(&[property("slot", &[256])], "slot"),
        Err("tas5770l: property value is too large")
    );
}
