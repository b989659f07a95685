use tls_bench::cancel::CancelFlag;
use tls_bench::config::tls_config;
use tls_bench::config::TlsVersion;
use tls_bench::probe::ehlo_line;
use tls_bench::probe::starttls_accepted;
use tls_bench::probe::starttls_line;

#[test]
fn test_tls_config_zero_rtt() {
    let config = tls_config(Some(true), Some(TlsVersion::Tls12));
    assert!(config.zero_rtt);
}

#[test]
fn test_tls_config_defaults() {
    let config = tls_config(None, None);
    assert!(!config.zero_rtt);
    assert_eq!(config.version, TlsVersion::Tls12);
    let config13 = tls_config(Some(false), Some(TlsVersion::Tls13));
    assert_eq!(config13.version, TlsVersion::Tls13);
    assert!(!config13.zero_rtt);
}

#[test]
fn test_starttls_accepted() {
    assert!(starttls_accepted(b"220 2.0.0 Ready to start TLS\r\n"));
    assert!(starttls_accepted(b"250-mail\r\n220 go ahead\r\n"));
    assert!(starttls_accepted(b"x220y"));
    assert!(!starttls_accepted(b"554 not supported\r\n"));
    assert!(!starttls_accepted(b"22"));
    assert!(!starttls_accepted(b""));
    assert!(!starttls_accepted(b"2 2 0"));
}

#[test]
fn test_ehlo_line() {
    assert_eq!(ehlo_line(b"127.0.0.1"), b"EHLO 127.0.0.1\r\n".to_vec());
    assert_eq!(ehlo_line(b""), b"EHLO \r\n".to_vec());
}

#[test]
fn test_starttls_line() {
    assert_eq!(starttls_line(), b"STARTTLS\r\n".to_vec());
}

#[test]
fn test_cancel_flag_latches() {
    let mut flag = CancelFlag::new();
    assert!(!flag.is_cancelled());
    flag.set();
    assert!(flag.is_cancelled());
    flag.set();
    assert!(flag.is_cancelled());
}
