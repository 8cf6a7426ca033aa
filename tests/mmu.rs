use dsvita::cpu::CpuType;
use dsvita::emu::Emu;
use dsvita::mmu::TcmState;
use dsvita::regions::{
    main_region, ARM7_WRAM_SHM_OFFSET, DTCM_SHM_OFFSET, ITCM_SHM_OFFSET, MAIN_SHM_OFFSET, MMU_PAGE_SHIFT, SHARED_WRAM_SHM_OFFSET,
};

fn page(addr: u32) -> usize {
    (addr as usize) >> MMU_PAGE_SHIFT
}

fn emu() -> Emu {
    Emu::new(0x4000_0000, 0x5000_0000, 0x6000_0000)
}

#[test]
fn fresh_tables_are_empty() {
    let e = emu();
    assert!(e.mmu_get_read(CpuType::ARM9).iter().all(|&v| v == 0));
    assert!(e.mmu_get_write_tcm(CpuType::ARM9).iter().all(|&v| v == 0));
    assert!(e.mmu_get_read(CpuType::ARM7).iter().all(|&v| v == 0));
    assert_eq!(e.mmu_get_base_ptr(CpuType::ARM9), 0x4000_0000);
    assert_eq!(e.mmu_get_base_tcm_ptr(CpuType::ARM9), 0x5000_0000);
    assert_eq!(e.mmu_get_base_tcm_ptr(CpuType::ARM7), 0x6000_0000);
}

#[test]
fn rebuild_maps_main_memory_and_its_mirrors() {
    let mut e = emu();
    e.mmu_update_all(CpuType::ARM9);
    let read = e.mmu_get_read(CpuType::ARM9);
    assert_eq!(read[page(0x0200_0000)], MAIN_SHM_OFFSET);
    assert_eq!(read[page(0x0200_4000)], MAIN_SHM_OFFSET + 0x4000);
    assert_eq!(read[page(0x0240_0000)], MAIN_SHM_OFFSET);
    assert_eq!(read[page(0x02FF_C000)], MAIN_SHM_OFFSET + 0x3F_C000);
    assert_eq!(read[page(0x0000_0000)], 0);
    assert_eq!(read[page(0x0400_0000)], 0);
    assert_eq!(e.mmu_get_write(CpuType::ARM9)[page(0x0200_0000)], MAIN_SHM_OFFSET);
    assert_eq!(e.mmu_get_read_tcm()[page(0x0200_0000)], MAIN_SHM_OFFSET);
    assert_eq!(e.mmu_get_write_tcm(CpuType::ARM9)[page(0x0200_0000)], MAIN_SHM_OFFSET);
}

#[test]
fn work_ram_banking() {
    let mut e = emu();
    e.mmu_update_all(CpuType::ARM9);
    e.mmu_update_all(CpuType::ARM7);
    assert_eq!(e.mmu_get_read(CpuType::ARM9)[page(0x0300_0000)], SHARED_WRAM_SHM_OFFSET);
    assert_eq!(e.mmu_get_read(CpuType::ARM9)[page(0x0300_4000)], SHARED_WRAM_SHM_OFFSET + 0x4000);
    assert_eq!(e.mmu_get_read(CpuType::ARM7)[page(0x0300_0000)], ARM7_WRAM_SHM_OFFSET);
    assert_eq!(e.mmu_get_read(CpuType::ARM7)[page(0x0380_C000)], ARM7_WRAM_SHM_OFFSET + 0xC000);
    e.wram.cnt = 3;
    e.mmu_update_wram(CpuType::ARM9);
    e.mmu_update_wram(CpuType::ARM7);
    assert_eq!(e.mmu_get_read(CpuType::ARM9)[page(0x0300_0000)], 0);
    assert_eq!(e.mmu_get_write(CpuType::ARM9)[page(0x0300_0000)], 0);
    assert_eq!(e.mmu_get_read_tcm()[page(0x0300_0000)], 0);
    assert_eq!(e.mmu_get_read(CpuType::ARM7)[page(0x0300_4000)], SHARED_WRAM_SHM_OFFSET + 0x4000);
    assert_eq!(e.mmu_arm9.vmem.read_u8(&e.shm, 0x0300_0010), None);
    e.wram.cnt = 1;
    e.mmu_update_wram(CpuType::ARM9);
    assert_eq!(e.mmu_get_read(CpuType::ARM9)[page(0x0300_0000)], SHARED_WRAM_SHM_OFFSET + 0x4000);
}

#[test]
fn rebuild_all_twice_gives_the_same_tables() {
    let mut e = emu();
    e.cp15.itcm_size = 0x8000;
    e.cp15.itcm_state = TcmState::RW;
    e.cp15.dtcm_addr = 0x027C_0000;
    e.cp15.dtcm_size = 0x4000;
    e.cp15.dtcm_state = TcmState::RW;
    e.jit_memory_map.insert_block(0x0200_8000);
    for cpu in [CpuType::ARM9, CpuType::ARM7] {
        e.mmu_update_all(cpu);
        let first = (
            e.mmu_get_read(cpu).to_vec(),
            e.mmu_get_write(cpu).to_vec(),
            e.mmu_get_write_tcm(cpu).to_vec(),
        );
        let first_tcm = e.mmu_get_read_tcm().to_vec();
        e.mmu_update_all(cpu);
        assert_eq!(first.0, e.mmu_get_read(cpu).to_vec());
        assert_eq!(first.1, e.mmu_get_write(cpu).to_vec());
        assert_eq!(first.2, e.mmu_get_write_tcm(cpu).to_vec());
        assert_eq!(first_tcm, e.mmu_get_read_tcm().to_vec());
    }
}

#[test]
fn dtcm_move_leaves_no_stale_page() {
    let mut e = emu();
    e.mmu_update_all(CpuType::ARM9);
    e.cp15.dtcm_addr = 0x027C_0000;
    e.cp15.dtcm_size = 0x4000;
    e.cp15.dtcm_state = TcmState::RW;
    e.mmu_update_dtcm();
    assert_eq!(e.mmu_get_read_tcm()[page(0x027C_0000)], DTCM_SHM_OFFSET);
    assert_eq!(e.mmu_get_write_tcm(CpuType::ARM9)[page(0x027C_0000)], DTCM_SHM_OFFSET);
    assert_eq!(e.mmu_get_read(CpuType::ARM9)[page(0x027C_0000)], MAIN_SHM_OFFSET + 0x3C_0000);
    assert_eq!(e.mmu_arm9.current_dtcm_addr, 0x027C_0000);
    e.cp15.dtcm_addr = 0x0280_0000;
    e.mmu_update_dtcm();
    assert_eq!(e.mmu_get_read_tcm()[page(0x027C_0000)], MAIN_SHM_OFFSET + 0x3C_0000);
    assert_eq!(e.mmu_get_read_tcm()[page(0x0280_0000)], DTCM_SHM_OFFSET);
    e.cp15.dtcm_state = TcmState::W;
    e.mmu_update_dtcm();
    assert_eq!(e.mmu_get_read_tcm()[page(0x0280_0000)], 0);
    assert_eq!(e.mmu_get_write_tcm(CpuType::ARM9)[page(0x0280_0000)], 0);
}

#[test]
fn itcm_enable_and_shrink() {
    let mut e = emu();
    e.mmu_update_all(CpuType::ARM9);
    e.cp15.itcm_size = 0x8000;
    e.cp15.itcm_state = TcmState::RW;
    e.mmu_update_itcm();
    assert_eq!(e.mmu_get_read_tcm()[0], ITCM_SHM_OFFSET);
    assert_eq!(e.mmu_get_read_tcm()[1], ITCM_SHM_OFFSET + 0x4000);
    assert_eq!(e.mmu_get_read_tcm()[2], 0);
    e.cp15.itcm_size = 0x4000;
    e.mmu_update_itcm();
    assert_eq!(e.mmu_get_read_tcm()[0], ITCM_SHM_OFFSET);
    assert_eq!(e.mmu_get_read_tcm()[1], 0);
    assert_eq!(e.mmu_arm9.current_itcm_size, 0x4000);
}

#[test]
fn code_pages_are_read_only_in_the_tcm_window() {
    let mut e = emu();
    e.jit_memory_map.insert_block(0x0200_8000);
    e.mmu_update_all(CpuType::ARM9);
    assert_eq!(e.mmu_get_read_tcm()[page(0x0200_8000)], MAIN_SHM_OFFSET + 0x8000);
    assert_eq!(e.mmu_get_write_tcm(CpuType::ARM9)[page(0x0200_8000)], 0);
    assert_eq!(e.mmu_get_write_tcm(CpuType::ARM9)[page(0x0200_C000)], MAIN_SHM_OFFSET + 0xC000);
}

#[test]
fn fast_path_reads_the_arena() {
    let mut e = emu();
    e.mmu_update_all(CpuType::ARM9);
    e.shm[MAIN_SHM_OFFSET + 0x123] = 0xAB;
    assert_eq!(e.mmu_arm9.vmem.read_u8(&e.shm, 0x0200_0123), Some(0xAB));
    assert_eq!(e.mmu_arm9.vmem.read_u8(&e.shm, 0x0240_0123), Some(0xAB));
    assert_eq!(e.mmu_arm9.vmem_tcm.read_u8(&e.shm, 0x0200_0123), Some(0xAB));
    assert_eq!(e.mmu_arm9.vmem.read_u8(&e.shm, 0x0000_0123), None);
}

#[test]
fn double_word_at_0x1000_reads_the_itcm_arena() {
    let mut e = emu();
    e.cp15.itcm_size = 0x8000;
    e.cp15.itcm_state = TcmState::RW;
    e.mmu_update_all(CpuType::ARM9);
    for k in 0..8usize {
        e.shm[ITCM_SHM_OFFSET + 0x1000 + k] = 0x10 + k as u8;
    }
    let fast: Vec<Option<u8>> = (0..8u32).map(|k| e.mmu_arm9.vmem_tcm.read_u8(&e.shm, 0x1000 + k)).collect();
    let direct: Vec<Option<u8>> = (0..8usize).map(|k| Some(e.shm[ITCM_SHM_OFFSET + 0x1000 + k])).collect();
    assert_eq!(fast, direct);
    assert_eq!(e.mmu_get_read_tcm()[page(0x1000)] + 0x1000, ITCM_SHM_OFFSET + 0x1000);
}

#[test]
fn write_protect_clears_every_mirror() {
    let mut e = emu();
    e.mmu_update_all(CpuType::ARM9);
    e.mmu_update_all(CpuType::ARM7);
    let x = 0x0200_0100u32;
    e.jit_memory_map.insert_block(x);
    e.mmu_remove_write(CpuType::ARM9, x, &main_region());
    for alias in [0x0200_0100u32, 0x0240_0100, 0x0280_0100, 0x02C0_0100] {
        assert_eq!(e.mmu_get_write(CpuType::ARM9)[page(alias)], 0);
        assert_eq!(e.mmu_get_write_tcm(CpuType::ARM9)[page(alias)], 0);
        assert_eq!(e.mmu_get_read(CpuType::ARM9)[page(alias)], MAIN_SHM_OFFSET);
    }
    assert_eq!(e.mmu_get_write(CpuType::ARM9)[page(0x0200_4100)], MAIN_SHM_OFFSET + 0x4000);
    assert_eq!(e.mmu_get_write(CpuType::ARM7)[page(x)], MAIN_SHM_OFFSET);
    assert_eq!(e.mmu_arm9.vmem.read_u8(&e.shm, x), Some(0));
}

#[test]
fn write_to_compiled_code_is_seen_by_the_other_cpu() {
    let mut e = emu();
    e.mmu_update_all(CpuType::ARM9);
    e.mmu_update_all(CpuType::ARM7);
    let x = 0x0200_0200u32;
    assert!(e.mmu_arm7.vmem.write_u8(&mut e.shm, x, 0x11));
    assert_eq!(e.mmu_arm9.vmem.read_u8(&e.shm, x), Some(0x11));
    // The first CPU compiles a block at X: every mirror of X loses its fast write path.
    e.jit_memory_map.insert_block(x);
    e.mmu_remove_write(CpuType::ARM9, x, &main_region());
    e.mmu_remove_write(CpuType::ARM7, x, &main_region());
    assert_eq!(e.mmu_get_write(CpuType::ARM7)[page(x)], 0);
    assert_eq!(e.mmu_get_write(CpuType::ARM7)[page(x + 0x40_0000)], 0);
    assert_eq!(e.mmu_get_write(CpuType::ARM9)[page(x + 0x80_0000)], 0);
    // The second CPU's 4-byte store faults on the fast path ...
    assert!(!e.mmu_arm7.vmem.write_u8(&mut e.shm, x, 0xDE));
    assert!(!e.mmu_arm7.vmem.write_u8(&mut e.shm, x + 0x40_0000, 0xDE));
    assert_eq!(e.mmu_arm9.vmem.read_u8(&e.shm, x), Some(0x11));
    // ... so the slow path stores it and drops the compiled block.
    let offset = e.mmu_get_read(CpuType::ARM7)[page(x)] + (x as usize & 0x3FFF);
    for (k, b) in [0xDEu8, 0xAD, 0xBE, 0xEF].iter().enumerate() {
        e.shm[offset + k] = *b;
    }
    e.jit_memory_map.invalidate_block(x);
    assert!(!e.jit_memory_map.has_jit_block(x));
    let fetched: Vec<Option<u8>> = (0..4u32).map(|k| e.mmu_arm9.vmem.read_u8(&e.shm, x + k)).collect();
    assert_eq!(fetched, vec![Some(0xDE), Some(0xAD), Some(0xBE), Some(0xEF)]);
}

#[test]
fn window_outside_its_range_faults() {
    let mut e = emu();
    e.mmu_update_all(CpuType::ARM9);
    assert_eq!(e.mmu_arm9.vmem.read_u8(&e.shm, 0x1000_0000), None);
    assert_eq!(e.mmu_arm9.vmem.read_u8(&e.shm, 0xFFFF_FFFF), None);
    assert!(!e.mmu_arm9.vmem.write_u8(&mut e.shm, 0x0400_0000, 1));
    assert!(e.mmu_arm9.vmem.write_u8(&mut e.shm, 0x0200_0001, 7));
    assert_eq!(e.shm[MAIN_SHM_OFFSET + 1], 7);
}

#[test]
fn work_ram_write_protection_covers_its_mirrors() {
    let mut e = emu();
    e.mmu_update_all(CpuType::ARM9);
    let region = dsvita::regions::shared_wram_region();
    e.mmu_remove_write(CpuType::ARM9, 0x0300_4010, &region);
    for alias in [0x0300_4000u32, 0x0300_C000, 0x0301_4000, 0x037F_C000] {
        assert_eq!(e.mmu_get_write(CpuType::ARM9)[page(alias)], 0);
    }
    for other in [0x0300_0000u32, 0x0300_8000, 0x037F_8000] {
        assert_ne!(e.mmu_get_write(CpuType::ARM9)[page(other)], 0);
    }
}
