use diag_server::bootstrap::{bind_address, dec_string, startup_line};

#[test]
fn formats_ports_in_decimal() {
    assert_eq!(dec_string(0), "0");
    assert_eq!(dec_string(7), "7");
    assert_eq!(dec_string(80), "80");
    assert_eq!(dec_string(8080), "8080");
    assert_eq!(dec_string(65535), "65535");
}

#[test]
fn builds_bind_addresses() {
    assert_eq!(bind_address("0.0.0.0", 8080), "0.0.0.0:8080");
    assert_eq!(bind_address("127.0.0.1", 8080), "127.0.0.1:8080");
    assert_eq!(bind_address("localhost", 0), "localhost:0");
}

#[test]
fn announces_the_bound_address() {
    assert_eq!(
        startup_line("0.0.0.0:8080"),
        "Starting server on http://0.0.0.0:8080"
    );
}
