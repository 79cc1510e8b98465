use edbgserver::libraries::{get_libraries_svr4, is_library_path, library_list, read_window};
use edbgserver::maps::MemoryRegion;

fn region(start: u64, path: Option<&str>) -> MemoryRegion {
    MemoryRegion {
        start,
        end: start + 0x1000,
        offset: 0,
        path: path.map(|p| p.as_bytes().to_vec()),
    }
}

#[test]
fn library_paths_are_recognised() {
    assert!(is_library_path(b"/usr/lib/libm.so"));
    assert!(is_library_path(b"/lib/x86_64-linux-gnu/libc.so.6"));
    assert!(is_library_path(b"/system/bin/linker64"));
    assert!(is_library_path(b"/system/bin/linker"));
    assert!(is_library_path(b".so"));
    assert!(!is_library_path(b"/usr/bin/bash"));
    assert!(!is_library_path(b"/data/a.sox"));
    assert!(!is_library_path(b"/system/bin/linker32"));
    assert!(!is_library_path(b""));
}

#[test]
fn empty_map_gives_empty_list() {
    let xml = library_list(&[]);
    assert_eq!(
        String::from_utf8(xml).unwrap(),
        r#"<library-list-svr4 version="1.0"></library-list-svr4>"#
    );
}

#[test]
fn list_names_each_library_once_at_first_mapping() {
    let regions = vec![
        region(0x5555_0000, Some("/usr/bin/app")),
        region(0x7f00_0000_1000, Some("/lib/libc.so.6")),
        region(0x7f00_0000_2000, Some("/lib/libc.so.6")),
        region(0x7f00_0000_3000, None),
        region(0x7f00_0000_4000, Some("/lib/libdl.so")),
        region(0, Some("/system/bin/linker64")),
    ];
    let xml = String::from_utf8(library_list(&regions)).unwrap();
    assert_eq!(
        xml,
        String::from(r#"<library-list-svr4 version="1.0">"#)
            + r#"<library name="/lib/libc.so.6" lm="0x0" l_addr="0x7f0000001000" l_ld="0x0" lmid="0"/>"#
            + r#"<library name="/lib/libdl.so" lm="0x0" l_addr="0x7f0000004000" l_ld="0x0" lmid="0"/>"#
            + r#"<library name="/system/bin/linker64" lm="0x0" l_addr="0x0" l_ld="0x0" lmid="0"/>"#
            + r#"</library-list-svr4>"#
    );
}

#[test]
fn address_formats_like_alternate_hex() {
    for start in [0u64, 9, 10, 15, 16, 0xabcdef, u64::MAX] {
        let xml = String::from_utf8(library_list(&[region(start, Some("/a.so"))])).unwrap();
        assert!(xml.contains(&format!("l_addr=\"{:#x}\"", start)), "{}", xml);
    }
}

#[test]
fn window_reads_the_requested_slice() {
    let doc = b"0123456789";
    let mut buf = [b'x'; 4];
    assert_eq!(read_window(doc, 3, 10, &mut buf), 4);
    assert_eq!(&buf, b"3456");
    let mut buf = [b'x'; 8];
    assert_eq!(read_window(doc, 3, 2, &mut buf), 2);
    assert_eq!(&buf, b"34xxxxxx");
    let mut buf = [b'x'; 8];
    assert_eq!(read_window(doc, 7, 100, &mut buf), 3);
    assert_eq!(&buf, b"789xxxxx");
}

#[test]
fn window_at_or_past_end_is_empty() {
    let doc = b"0123456789";
    let mut buf = [b'x'; 4];
    assert_eq!(read_window(doc, 10, 4, &mut buf), 0);
    assert_eq!(read_window(doc, u64::MAX, 4, &mut buf), 0);
    assert_eq!(&buf, b"xxxx");
}

#[test]
fn consecutive_windows_reassemble_the_document() {
    let regions = vec![
        region(0x1000, Some("/lib/liba.so")),
        region(0x2000, Some("/lib/libb.so.1")),
    ];
    let whole = library_list(&regions);
    let mut got = Vec::new();
    let mut offset = 0u64;
    loop {
        let mut buf = [0u8; 7];
        let n = get_libraries_svr4(&regions, offset, 7, &mut buf);
        if n == 0 {
            break;
        }
        got.extend_from_slice(&buf[..n]);
        offset += n as u64;
    }
    assert_eq!(got, whole);
}
