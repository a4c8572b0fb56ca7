use echo_mini_os::boot::image::{crc32, FirmwareHeader, CHIP_ID_RKNANOD, FORMAT_VERSION, MAGIC};
use echo_mini_os::clock::pll::{
    current_mclk_hz, is_pll_locked, pll_params, set_audio_clock, AudioFamily, CRU_PLL_CON0, CRU_PLL_CON1,
    CRU_PLL_STATUS, PLL_LOCK, PLL_PD,
};
use echo_mini_os::hal::mmio::HwOp;

fn header() -> FirmwareHeader {
    FirmwareHeader {
        magic: MAGIC,
        version: FORMAT_VERSION,
        payload_size: 1024,
        crc32: 0,
        load_addr: 0,
        entry_addr: 0x200,
        flags: 0,
        chip_id: CHIP_ID_RKNANOD,
        _reserved: [0; 12],
        _padding: [0; 464],
    }
}

#[test]
fn crc32_check_value() {
    assert_eq!(crc32(b"123456789"), 0xCBF4_3926);
}

#[test]
fn crc32_edge_inputs() {
    assert_eq!(crc32(&[]), 0);
    assert_eq!(crc32(&[0]), 0xD202_EF8D);
    assert_eq!(crc32(b"The quick brown fox jumps over the lazy dog"), 0x414F_A339);
}

#[test]
fn header_valid_only_with_magic_version_and_chip() {
    let good = header();
    assert!(good.is_valid());
    let mut bad_magic = header();
    bad_magic.magic[7] = b'X';
    assert!(!bad_magic.is_valid());
    let mut bad_version = header();
    bad_version.version = 2;
    assert!(!bad_version.is_valid());
    let mut bad_chip = header();
    bad_chip.chip_id = 0;
    assert!(!bad_chip.is_valid());
}

#[test]
fn magic_spells_rknanofw() {
    assert_eq!(&MAGIC, b"RKnanoFW");
}

#[test]
fn mclk_targets() {
    assert_eq!(AudioFamily::F44100.mclk_hz(), 22_579_200);
    assert_eq!(AudioFamily::F48000.mclk_hz(), 24_576_000);
    assert_eq!(AudioFamily::F44100.mclk_hz(), 512 * 44_100);
    assert_eq!(AudioFamily::F48000.mclk_hz(), 512 * 48_000);
}

#[test]
fn pll_lock_bit() {
    assert!(is_pll_locked(PLL_LOCK));
    assert!(is_pll_locked(0xFFFF_FFFF));
    assert!(!is_pll_locked(0));
    assert!(!is_pll_locked(!PLL_LOCK));
}

#[test]
fn set_audio_clock_program() {
    let ops = set_audio_clock(AudioFamily::F44100);
    assert_eq!(ops.len(), 9);
    assert_eq!(ops[0], HwOp::SetBits { addr: CRU_PLL_CON1, mask: PLL_PD });
    assert_eq!(ops[1], HwOp::Write { addr: CRU_PLL_CON0, val: 188 | (4 << 16) });
    assert_eq!(ops[2], HwOp::Write { addr: CRU_PLL_CON1, val: 5 | (10 << 8) });
    assert_eq!(ops[4], HwOp::WaitFor { addr: CRU_PLL_STATUS, mask: PLL_LOCK, expected: PLL_LOCK });
    assert_eq!(ops[8], HwOp::Fence);
    let p = pll_params(AudioFamily::F48000);
    assert_eq!((p.fbdiv, p.fracdiv, p.refdiv, p.postdiv1, p.postdiv2), (204, 13_421_773, 5, 4, 10));
}

#[test]
fn mclk_readback_of_programmed_pll() {
    // 24 MHz / (5 * 4 * 10) * FBDIV, the integer approximation of the target MCLK.
    for (family, expected) in [(AudioFamily::F44100, 22_560_000u32), (AudioFamily::F48000, 24_480_000u32)] {
        let ops = set_audio_clock(family);
        let con0 = match ops[1] { HwOp::Write { val, .. } => val, _ => panic!("CON0 write expected") };
        let con1 = match ops[2] { HwOp::Write { val, .. } => val, _ => panic!("CON1 write expected") };
        assert_eq!(current_mclk_hz(con0, con1), expected);
    }
    assert_eq!(current_mclk_hz(100, 0), 0);
}
