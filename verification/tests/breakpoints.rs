use edbgserver::breakpoints::{resolve_vma_to_probe_location, ProbeError, SavedBreakpoints};
use edbgserver::maps::MemoryRegion;

fn region(start: u64, end: u64, offset: u64, path: Option<&str>) -> MemoryRegion {
    MemoryRegion { start, end, offset, path: path.map(|p| p.as_bytes().to_vec()) }
}

#[test]
fn address_resolves_to_file_offset() {
    let regions = vec![
        region(0x1000, 0x2000, 0, None),
        region(0x4000, 0x6000, 0x3000, Some("/usr/bin/app")),
    ];
    let loc = resolve_vma_to_probe_location(&regions, 0x4010).ok().unwrap();
    assert_eq!(loc.path, b"/usr/bin/app".to_vec());
    assert_eq!(loc.offset, 0x3010);
}

#[test]
fn region_covers_its_end_but_not_its_start() {
    let regions = vec![
        region(0x4000, 0x6000, 0, Some("/a")),
        region(0x3000, 0x4000, 0x100, Some("/b")),
    ];
    let loc = resolve_vma_to_probe_location(&regions, 0x6000).ok().unwrap();
    assert_eq!((loc.path, loc.offset), (b"/a".to_vec(), 0x2000));
    let loc = resolve_vma_to_probe_location(&regions, 0x4000).ok().unwrap();
    assert_eq!((loc.path, loc.offset), (b"/b".to_vec(), 0x1100));
}

#[test]
fn first_covering_region_wins() {
    let regions = vec![
        region(0x1000, 0x3000, 0, Some("/first")),
        region(0x1000, 0x3000, 0, Some("/second")),
    ];
    let loc = resolve_vma_to_probe_location(&regions, 0x2000).ok().unwrap();
    assert_eq!(loc.path, b"/first".to_vec());
}

#[test]
fn anonymous_memory_is_refused() {
    let regions = vec![region(0x1000, 0x3000, 0, None), region(0x1000, 0x3000, 0, Some("/x"))];
    assert!(matches!(
        resolve_vma_to_probe_location(&regions, 0x2000),
        Err(ProbeError::NotFileBacked)
    ));
}

#[test]
fn breakpoints_report_success() {
    let mut saved = SavedBreakpoints::new();
    assert!(saved.add_sw_breakpoint(0x4010, 0x55));
    assert!(saved.add_sw_breakpoint(0x4010, 0xcc));
    assert!(saved.remove_sw_breakpoint(0x4010));
    assert!(saved.remove_sw_breakpoint(0x9999));
}
