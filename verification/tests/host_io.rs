use edbgserver::host_io::{copy_prefix, read_len, FdError, HostIoFiles};

#[test]
fn descriptors_are_handed_out_in_order() {
    let mut files = HostIoFiles::new(3);
    assert_eq!(files.open("a"), Ok(3));
    assert_eq!(files.open("b"), Ok(4));
    assert_eq!(files.get(3).copied(), Ok("a"));
    assert_eq!(files.get(4).copied(), Ok("b"));
}

#[test]
fn closed_descriptor_is_bad() {
    let mut files = HostIoFiles::new(0);
    let fd = files.open(String::from("f")).unwrap();
    assert_eq!(files.close(fd), Ok(()));
    assert_eq!(files.close(fd), Err(FdError::BadDescriptor));
    assert!(matches!(files.get(fd), Err(FdError::BadDescriptor)));
    assert!(matches!(files.get_mut(fd), Err(FdError::BadDescriptor)));
    assert_eq!(files.open(String::from("g")), Ok(1));
}

#[test]
fn unknown_descriptor_is_bad() {
    let mut files: HostIoFiles<u8> = HostIoFiles::new(10);
    assert_eq!(files.get(3), Err(FdError::BadDescriptor));
    assert_eq!(files.close(3), Err(FdError::BadDescriptor));
}

#[test]
fn descriptors_run_out_at_the_last_u32() {
    let mut files = HostIoFiles::new(u32::MAX - 1);
    assert_eq!(files.open(1u8), Ok(u32::MAX - 1));
    assert_eq!(files.open(2u8), Err(FdError::TooManyOpenFiles));
    assert_eq!(files.open(3u8), Err(FdError::TooManyOpenFiles));
    assert_eq!(files.get(u32::MAX), Err(FdError::BadDescriptor));
}

#[test]
fn writes_through_get_mut_stay() {
    let mut files = HostIoFiles::new(0);
    let fd = files.open(vec![1u8]).unwrap();
    files.get_mut(fd).unwrap().push(2);
    assert_eq!(files.get(fd).unwrap(), &vec![1u8, 2]);
}

#[test]
fn read_length_is_capped_by_buffer() {
    assert_eq!(read_len(10, 4), 4);
    assert_eq!(read_len(3, 4), 3);
    assert_eq!(read_len(0, 4), 0);
}

#[test]
fn link_target_is_truncated_to_buffer() {
    let mut buf = [0u8; 4];
    assert_eq!(copy_prefix(b"/proc/self", &mut buf), 4);
    assert_eq!(&buf, b"/pro");
    let mut buf = [b'-'; 6];
    assert_eq!(copy_prefix(b"/a", &mut buf), 2);
    assert_eq!(&buf, b"/a----");
}

#[test]
fn open_then_close_leaves_other_files() {
    let mut files = HostIoFiles::new(5);
    let a = files.open('a').unwrap();
    let b = files.open('b').unwrap();
    assert_eq!(files.close(b), Ok(()));
    assert_eq!(files.get(a).copied(), Ok('a'));
    assert_eq!(files.get(b).copied(), Err(FdError::BadDescriptor));
    assert_eq!(files.open('c'), Ok(7));
}
