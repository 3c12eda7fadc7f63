use flash_writer::config::{check_range, flash_size_bytes, FlashConfig};
use flash_writer::controller::{EraseSelect, KeyStage, RegisterInterface};
use flash_writer::error::FlashWriterError;
use flash_writer::flash::{erase_sram, flash_read, flash_read_slice, write_sram, FlashWriter};
use flash_writer::mem_ext::MemExt;
use flash_writer::poller::{check_bsy_sram, check_errors_ram};
use flash_writer::sim::SimController;
use flash_writer::status::{decode_status, StatusFlags};

const BASE: u32 = 0x0800_0000;

fn small_config() -> FlashConfig {
    FlashConfig {
        program_size: 2,
        page_size: 1024,
        base_address: BASE,
        flash_size_kb: 32,
        dual_bank: false,
        extended_errors: false,
    }
}

fn wide_config() -> FlashConfig {
    FlashConfig {
        program_size: 8,
        page_size: 2048,
        base_address: BASE,
        flash_size_kb: 512,
        dual_bank: true,
        extended_errors: true,
    }
}

fn small_sim() -> SimController {
    SimController::new(BASE, 1024, 0, 32 * 1024, 0x00)
}

fn erased_sim() -> SimController {
    SimController::new(BASE, 1024, 0, 32 * 1024, 0xFF)
}

#[test]
fn construction_keeps_the_start_address() {
    let mut w = FlashWriter::new(BASE + 1024..BASE + 4096, small_config()).unwrap();
    assert_eq!(w.get_start_address(), BASE + 1024);
    assert_eq!(w.get_next_write_address(), BASE + 1024);
    assert_eq!(w.get_image_len(), 0);
}

#[test]
fn construction_accepts_the_whole_device_and_the_empty_region() {
    assert!(FlashWriter::new(BASE..BASE + 32 * 1024, small_config()).is_ok());
    assert!(FlashWriter::new(BASE + 16..BASE + 16, small_config()).is_ok());
}

#[test]
fn construction_rejects_regions_outside_the_device() {
    let cfg = small_config();
    assert_eq!(FlashWriter::new(BASE - 2..BASE + 16, cfg).err(), Some(FlashWriterError::InvalidRange));
    assert_eq!(
        FlashWriter::new(BASE..BASE + 32 * 1024 + 1, cfg).err(),
        Some(FlashWriterError::InvalidRange)
    );
    assert_eq!(FlashWriter::new(0..16, cfg).err(), Some(FlashWriterError::InvalidRange));
    assert_eq!(
        FlashWriter::new(BASE + 64 * 1024..BASE + 65 * 1024, cfg).err(),
        Some(FlashWriterError::InvalidRange)
    );
}

#[test]
fn construction_rejects_a_reversed_region() {
    assert_eq!(
        FlashWriter::new(BASE + 16..BASE + 8, small_config()).err(),
        Some(FlashWriterError::InvalidRange)
    );
}

#[test]
fn configurations_are_checked() {
    assert!(small_config().is_valid());
    assert!(wide_config().is_valid());
    let mut c = small_config();
    c.program_size = 0;
    assert!(!c.is_valid());
    let mut c = small_config();
    c.page_size = 0;
    assert!(!c.is_valid());
    let mut c = small_config();
    c.base_address = u32::MAX - 1024;
    assert!(!c.is_valid());
    let mut c = small_config();
    c.dual_bank = true;
    c.page_size = 256;
    assert!(!c.is_valid());
    c.page_size = 512;
    assert!(c.is_valid());
    c.flash_size_kb = 0;
    assert!(!c.is_valid());
}

#[test]
fn check_range_wants_both_ends_inside() {
    assert!(check_range(10, 20, 10, 20));
    assert!(check_range(10, 20, 12, 12));
    assert!(!check_range(10, 20, 9, 15));
    assert!(!check_range(10, 20, 15, 21));
}

#[test]
fn sizes_in_bytes() {
    assert_eq!(flash_size_bytes(32), 32768);
    assert_eq!(flash_size_bytes(0), 0);
    assert_eq!(flash_size_bytes(u16::MAX), 67_107_840);
    assert_eq!(2u32.kb(), 2048);
    assert_eq!(3u32.mb(), 3_145_728);
    assert_eq!(5usize.kb(), 5120);
    assert_eq!(1usize.mb(), 1_048_576);
}

#[test]
fn erase_sets_every_byte_of_the_region_and_locks() {
    let mut sim = small_sim();
    sim.latency = 7;
    let mut w = FlashWriter::new(BASE + 1024..BASE + 3072, small_config()).unwrap();
    assert_eq!(w.erase(&mut sim), Ok(()));
    assert!(sim.locked);
    assert!(!sim.erase_request);
    assert!(sim.memory[..1024].iter().all(|b| *b == 0x00));
    assert!(sim.memory[1024..3072].iter().all(|b| *b == 0xFF));
    assert!(sim.memory[3072..].iter().all(|b| *b == 0x00));
}

#[test]
fn erase_stops_at_the_first_page_that_fails() {
    let mut sim = small_sim();
    sim.status.wrp_err = true;
    let mut w = FlashWriter::new(BASE..BASE + 2048, small_config()).unwrap();
    assert_eq!(w.erase(&mut sim), Err(FlashWriterError::WrpErr));
    assert!(sim.locked);
    assert!(sim.memory.iter().all(|b| *b == 0x00));
    sim.locked = false;
    assert_eq!(w.erase(&mut sim), Err(FlashWriterError::WrpErr));
    assert!(!sim.locked);
    assert!(sim.erase_request);
    assert!(sim.memory[..1024].iter().all(|b| *b == 0xFF));
    assert!(sim.memory[1024..2048].iter().all(|b| *b == 0x00));
}

#[test]
fn erase_names_pages_by_bank_and_number() {
    let mut sim = SimController::new(BASE, 2048, 128, 512 * 1024, 0x00);
    let w = FlashWriter::new(BASE + 128 * 2048..BASE + 129 * 2048, wide_config()).unwrap();
    sim.locked = false;
    assert_eq!(erase_sram(&w, &mut sim), Ok(()));
    assert_eq!(sim.erase_select, EraseSelect::Page { second_bank: true, number: 1 });
    let w = FlashWriter::new(BASE + 127 * 2048..BASE + 128 * 2048, wide_config()).unwrap();
    assert_eq!(erase_sram(&w, &mut sim), Ok(()));
    assert_eq!(sim.erase_select, EraseSelect::Page { second_bank: false, number: 127 });
    assert!(sim.memory[127 * 2048..128 * 2048].iter().all(|b| *b == 0xFF));
}

#[test]
fn written_bytes_read_back() {
    let mut sim = small_sim();
    sim.latency = 3;
    let mut w = FlashWriter::new(BASE + 1024..BASE + 2048, small_config()).unwrap();
    assert_eq!(w.erase(&mut sim), Ok(()));
    let data = [1u8, 2, 3, 4, 5];
    assert_eq!(w.write(&mut sim, &data), Ok(()));
    assert_eq!(w.get_next_write_address(), BASE + 1024 + 4);
    assert_eq!(w.get_image_len(), 5);
    assert_eq!(w.flush(&mut sim), Ok(()));
    assert_eq!(w.get_next_write_address(), BASE + 1024 + 6);
    assert!(sim.locked);
    assert!(!sim.program_request);
    assert_eq!(flash_read_slice(&sim, BASE + 1024, 5), data.to_vec());
    assert_eq!(flash_read(&sim, BASE + 1024 + 5), 0xFF);
    assert_eq!(flash_read(&sim, BASE + 1024 + 2), 3);
    assert_eq!(flash_read(&sim, BASE - 1), 0xFF);
}

#[test]
fn split_writes_program_the_same_image() {
    let data: Vec<u8> = (0u8..23).collect();
    for size in [1u32, 2, 4, 8] {
        let mut cfg = small_config();
        cfg.program_size = size;
        let mut whole = erased_sim();
        let mut w = FlashWriter::new(BASE..BASE + 1024, cfg).unwrap();
        assert_eq!(w.write(&mut whole, &data), Ok(()));
        assert_eq!(w.flush(&mut whole), Ok(()));
        let end = w.get_next_write_address();
        for split in 0..=data.len() {
            let mut sim = erased_sim();
            let mut w = FlashWriter::new(BASE..BASE + 1024, cfg).unwrap();
            assert_eq!(w.write(&mut sim, &data[..split]), Ok(()));
            assert_eq!(w.write(&mut sim, &data[split..]), Ok(()));
            assert_eq!(w.flush(&mut sim), Ok(()));
            assert_eq!(sim.memory, whole.memory);
            assert_eq!(w.get_next_write_address(), end);
            assert_eq!(w.get_image_len(), data.len());
        }
    }
}

#[test]
fn a_short_write_completes_the_pending_chunk_with_the_erased_pattern() {
    let mut cfg = small_config();
    cfg.program_size = 4;
    let mut sim = erased_sim();
    let mut w = FlashWriter::new(BASE..BASE + 64, cfg).unwrap();
    assert_eq!(w.write(&mut sim, &[0x11]), Ok(()));
    assert_eq!(w.get_next_write_address(), BASE);
    assert_eq!(w.write(&mut sim, &[0x22]), Ok(()));
    assert_eq!(w.get_next_write_address(), BASE + 4);
    assert_eq!(flash_read_slice(&sim, BASE, 4), vec![0x11, 0x22, 0xFF, 0xFF]);
    assert_eq!(w.write(&mut sim, &[0x33]), Ok(()));
    assert_eq!(w.flush(&mut sim), Ok(()));
    assert_eq!(flash_read_slice(&sim, BASE + 4, 4), vec![0x33, 0xFF, 0xFF, 0xFF]);
    assert_eq!(w.get_image_len(), 3);
}

#[test]
fn flush_with_nothing_pending_changes_nothing_but_the_lock() {
    let mut sim = erased_sim();
    let mut w = FlashWriter::new(BASE..BASE + 64, small_config()).unwrap();
    assert_eq!(w.write(&mut sim, &[9, 8, 7, 6]), Ok(()));
    let before = sim.memory.clone();
    sim.locked = false;
    assert_eq!(w.flush(&mut sim), Ok(()));
    assert_eq!(w.flush(&mut sim), Ok(()));
    assert!(sim.locked);
    assert_eq!(w.get_next_write_address(), BASE + 4);
    assert_eq!(w.get_image_len(), 4);
    assert_eq!(sim.memory, before);
}

#[test]
fn flush_with_nothing_pending_works_on_a_stuck_controller() {
    let mut sim = erased_sim();
    sim.stuck = true;
    let mut w = FlashWriter::new(BASE..BASE + 64, small_config()).unwrap();
    assert_eq!(w.flush(&mut sim), Ok(()));
    assert_eq!(w.get_next_write_address(), BASE);
}

#[test]
fn the_region_takes_exactly_its_size() {
    let mut sim = erased_sim();
    let mut w = FlashWriter::new(BASE + 8..BASE + 16, small_config()).unwrap();
    let data = [1u8, 2, 3, 4, 5, 6, 7, 8];
    assert_eq!(w.write(&mut sim, &data), Ok(()));
    assert_eq!(w.get_next_write_address(), BASE + 16);
    assert_eq!(w.flush(&mut sim), Ok(()));
    let image = sim.memory.clone();
    assert_eq!(w.write(&mut sim, &[9]), Ok(()));
    assert_eq!(w.flush(&mut sim), Err(FlashWriterError::OutOfFlashWriterMemory));
    assert_eq!(w.get_next_write_address(), BASE + 16);
    assert_eq!(sim.memory, image);
    assert_eq!(flash_read_slice(&sim, BASE + 8, 8), data.to_vec());
}

#[test]
fn a_write_past_the_end_fails_and_keeps_the_region() {
    let mut sim = erased_sim();
    let mut w = FlashWriter::new(BASE..BASE + 8, small_config()).unwrap();
    let data = [1u8, 2, 3, 4, 5, 6, 7, 8, 9, 10];
    assert_eq!(w.write(&mut sim, &data), Err(FlashWriterError::OutOfFlashWriterMemory));
    assert_eq!(w.get_next_write_address(), BASE + 8);
    assert_eq!(w.get_image_len(), 10);
    assert_eq!(flash_read_slice(&sim, BASE, 8), data[..8].to_vec());
    assert!(!sim.locked);
}

#[test]
fn a_stuck_controller_times_out_everywhere() {
    let mut sim = erased_sim();
    sim.stuck = true;
    let mut w = FlashWriter::new(BASE..BASE + 1024, small_config()).unwrap();
    assert_eq!(check_bsy_sram(&mut sim, false), Err(FlashWriterError::BsyTimeout));
    assert_eq!(w.erase(&mut sim), Err(FlashWriterError::BsyTimeout));
    assert_eq!(w.write(&mut sim, &[1, 2]), Err(FlashWriterError::BsyTimeout));
    assert_eq!(w.get_image_len(), 0);
    assert_eq!(w.unlock(&mut sim), Err(FlashWriterError::BsyTimeout));
    sim.locked = false;
    assert_eq!(write_sram(&mut sim, BASE, &[1, 2], false), Err(FlashWriterError::BsyTimeout));
    assert_eq!(erase_sram(&w, &mut sim), Err(FlashWriterError::BsyTimeout));
    assert_eq!(w.write(&mut sim, &[1, 2, 3]), Err(FlashWriterError::BsyTimeout));
    assert_eq!(w.get_image_len(), 3);
    assert_eq!(w.write(&mut sim, &[4]), Ok(()));
    assert_eq!(w.flush(&mut sim), Err(FlashWriterError::BsyTimeout));
}

#[test]
fn the_wait_gives_up_after_its_retries() {
    let mut sim = erased_sim();
    sim.busy_polls = 220;
    assert_eq!(check_bsy_sram(&mut sim, false), Ok(()));
    assert_eq!(sim.busy_polls, 0);
    sim.busy_polls = 221;
    assert_eq!(check_bsy_sram(&mut sim, false), Err(FlashWriterError::BsyTimeout));
    assert_eq!(sim.busy_polls, 0);
    sim.busy_polls = 500;
    assert_eq!(check_bsy_sram(&mut sim, false), Err(FlashWriterError::BsyTimeout));
    assert_eq!(sim.busy_polls, 279);
}

#[test]
fn the_first_error_bit_in_order_is_reported() {
    let all = StatusFlags {
        prog_err: true,
        size_err: true,
        pga_err: true,
        pgs_err: true,
        wrp_err: true,
        miss_err: true,
        fast_err: true,
    };
    assert_eq!(decode_status(all, true), Err(FlashWriterError::ProgErr));
    assert_eq!(decode_status(all, false), Err(FlashWriterError::ProgErr));
    let mut f = all;
    f.prog_err = false;
    assert_eq!(decode_status(f, true), Err(FlashWriterError::SizeErr));
    assert_eq!(decode_status(f, false), Err(FlashWriterError::WrpErr));
    f.size_err = false;
    assert_eq!(decode_status(f, true), Err(FlashWriterError::PgaErr));
    f.pga_err = false;
    assert_eq!(decode_status(f, true), Err(FlashWriterError::PgsErr));
    f.pgs_err = false;
    assert_eq!(decode_status(f, true), Err(FlashWriterError::WrpErr));
    f.wrp_err = false;
    assert_eq!(decode_status(f, true), Err(FlashWriterError::MissErr));
    assert_eq!(decode_status(f, false), Ok(()));
    f.miss_err = false;
    assert_eq!(decode_status(f, true), Err(FlashWriterError::FastErr));
    f.fast_err = false;
    assert_eq!(decode_status(f, true), Ok(()));
    assert_eq!(f, StatusFlags::clear());
}

#[test]
fn the_status_register_is_decoded_after_the_wait() {
    let mut sim = erased_sim();
    sim.status.prog_err = true;
    sim.status.wrp_err = true;
    assert_eq!(check_errors_ram(&mut sim, false), Err(FlashWriterError::ProgErr));
    assert_eq!(check_bsy_sram(&mut sim, false), Err(FlashWriterError::ProgErr));
    sim.status.prog_err = false;
    let mut w = FlashWriter::new(BASE..BASE + 64, small_config()).unwrap();
    assert_eq!(w.write(&mut sim, &[1, 2, 3, 4]), Err(FlashWriterError::WrpErr));
    sim.locked = false;
    sim.status.wrp_err = false;
    sim.status.fast_err = true;
    assert_eq!(w.write(&mut sim, &[1, 2, 3, 4]), Ok(()));
}

#[test]
fn lock_can_be_repeated() {
    let mut sim = erased_sim();
    let w = FlashWriter::new(BASE..BASE + 64, small_config()).unwrap();
    sim.locked = false;
    w.lock(&mut sim);
    assert!(sim.lock_bit());
    w.lock(&mut sim);
    w.lock(&mut sim);
    assert!(sim.lock_bit());
    assert_eq!(sim.key_stage, KeyStage::Idle);
}

#[test]
fn unlock_writes_both_keys() {
    let mut sim = erased_sim();
    let w = FlashWriter::new(BASE..BASE + 64, small_config()).unwrap();
    assert!(sim.locked);
    assert_eq!(w.unlock(&mut sim), Ok(()));
    assert!(!sim.locked);
    assert_eq!(w.unlock(&mut sim), Ok(()));
    assert!(!sim.locked);
}

#[test]
fn a_controller_that_takes_no_keys_stays_locked() {
    let mut sim = erased_sim();
    sim.write_key(0x1234_5678);
    assert_eq!(sim.key_stage, KeyStage::Frozen);
    let mut w = FlashWriter::new(BASE..BASE + 64, small_config()).unwrap();
    assert_eq!(w.unlock(&mut sim), Err(FlashWriterError::FlashLocked));
    assert_eq!(w.erase(&mut sim), Err(FlashWriterError::FlashLocked));
    assert_eq!(w.write(&mut sim, &[1, 2]), Err(FlashWriterError::FlashLocked));
    assert!(sim.memory.iter().all(|b| *b == 0xFF));
}

#[test]
fn programming_needs_the_request_bit_and_an_unlocked_controller() {
    let mut sim = erased_sim();
    sim.program(BASE, &[1, 2]);
    assert_eq!(flash_read_slice(&sim, BASE, 2), vec![0xFF, 0xFF]);
    sim.locked = false;
    sim.program(BASE, &[1, 2]);
    assert_eq!(flash_read_slice(&sim, BASE, 2), vec![0xFF, 0xFF]);
    assert_eq!(write_sram(&mut sim, BASE, &[1, 2], false), Ok(()));
    assert_eq!(flash_read_slice(&sim, BASE, 2), vec![1, 2]);
    assert!(!sim.program_request);
}
