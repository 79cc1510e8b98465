use edbgserver::server::{listen_address, DEFAULT_PORT};

#[test]
fn listen_address_names_every_interface() {
    assert_eq!(listen_address(DEFAULT_PORT), "0.0.0.0:3333");
    assert_eq!(listen_address(0), "0.0.0.0:0");
    assert_eq!(listen_address(10), "0.0.0.0:10");
    assert_eq!(listen_address(u32::MAX), "0.0.0.0:4294967295");
}
