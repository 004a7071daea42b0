use diffodil::config::{listen_addr, log_filter, DEFAULT_PORT};

#[test]
fn verbosity_filters() {
    assert_eq!(log_filter(0), "warn");
    assert_eq!(log_filter(1), "info");
    assert_eq!(log_filter(2), "debug");
    assert_eq!(log_filter(255), "debug");
}

#[test]
fn listen_address() {
    assert_eq!(listen_addr(DEFAULT_PORT), "0.0.0.0:8765");
    assert_eq!(listen_addr(0), "0.0.0.0:0");
}
