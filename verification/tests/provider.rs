use mousee::address::Ipv4;
use mousee::tls::{configure, generate_ca, generate_leaf};

#[test]
fn server_takes_the_provider_of_the_process() {
    let now = 1_700_000_000;
    let ca = generate_ca(now).unwrap();
    let leaf = generate_leaf(&ca, &vec![Ipv4::localhost()], now).unwrap();
    let mut provider = rustls::crypto::ring::default_provider();
    provider.cipher_suites.truncate(1);
    let expected = provider.cipher_suites.clone();
    provider.install_default().unwrap();
    let config = configure(&leaf).unwrap();
    assert_eq!(config.crypto_provider().cipher_suites, expected);
}
