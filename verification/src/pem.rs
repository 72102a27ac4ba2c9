//! PEM texts: the calls into `rustls_pemfile` that read them, and the call into
//! `rustls` that makes a server of what they hold.

use rustls::pki_types::{CertificateDer, PrivateKeyDer};
use rustls::ServerConfig;
use vstd::prelude::*;

verus! {

/// The form in which a private key is encoded.
#[derive(Debug, Clone, Copy, PartialEq, Eq, Structural)]
pub enum KeyForm {
    Pkcs1,
    Sec1,
    Pkcs8,
}

/// A private key in DER.
#[derive(Debug)]
pub struct KeyDer {
    pub form: KeyForm,
    pub bytes: Vec<u8>,
}

impl View for KeyDer {
    type V = (KeyForm, Seq<u8>);

    open spec fn view(&self) -> (KeyForm, Seq<u8>) {
        (self.form, self.bytes@)
    }
}

/// What `rustls_pemfile::certs` yields for a text: for each certificate section
/// its bytes, and for each section that is broken what the error says.
pub uninterp spec fn pem_certs(text: Seq<char>) -> Seq<Result<Seq<u8>, Seq<char>>>;

/// What `rustls_pemfile::private_key` returns for a text: the first private
/// key, if there is one; or what the error says.
pub uninterp spec fn pem_key(text: Seq<char>) -> Result<Option<(KeyForm, Seq<u8>)>, Seq<char>>;

/// Whether `rustls`'s `with_single_cert` can come to this for the chain and the
/// key: a configuration whose servers present this chain and sign with this
/// key, or an error.
pub uninterp spec fn server_made(
    chain: Seq<Seq<u8>>,
    form: KeyForm,
    key: Seq<u8>,
    config: Result<ServerConfig, rustls::Error>,
) -> bool;

/// The longest section that `rustls_pemfile` reads, in bytes.
pub const SECTION_LIMIT: usize = 268435456;

/// Whether `rustls_pemfile` reads one sound certificate from the text, and the
/// same one followed by what another text holds where that comes on the next
/// line.
pub open spec fn one_certificate(text: Seq<char>) -> bool {
    &&& pem_certs(text).len() == 1
    &&& pem_certs(text)[0] is Ok
    &&& forall|rest: Seq<char>|
        #[trigger] pem_certs(text + seq!['\n'] + rest) == pem_certs(text) + pem_certs(rest)
}

/// Whether the text of a certificate reads back, unless it is too long to be
/// read.
pub open spec fn reads_back(text: Seq<char>) -> bool {
    text.len() <= SECTION_LIMIT ==> one_certificate(text)
}

/// What was read of a certificate section, as values.
pub open spec fn item_value(item: Result<Vec<u8>, String>) -> Result<Seq<u8>, Seq<char>> {
    match item {
        Ok(der) => Ok(der@),
        Err(e) => Err(e@),
    }
}

/// What was read of a key, as values.
pub open spec fn key_value(key: Result<Option<KeyDer>, String>) -> Result<
    Option<(KeyForm, Seq<u8>)>,
    Seq<char>,
> {
    match key {
        Ok(Some(k)) => Ok(Some(k@)),
        Ok(None) => Ok(None),
        Err(e) => Err(e@),
    }
}

/// Calls `rustls_pemfile::certs` on the text and collects what it yields, an
/// error as what it says.
#[verifier::external_body]
pub(crate) fn read_certs(text: &str) -> (r: Vec<Result<Vec<u8>, String>>)
    ensures
        r@.map_values(|item: Result<Vec<u8>, String>| item_value(item)) == pem_certs(text@),
{
    rustls_pemfile::certs(&mut text.as_bytes()).map(|item| item.map(|der| der.to_vec()).map_err(|e| e.to_string())).collect()
}

/// Calls `rustls_pemfile::private_key` on the text; it knows three forms of
/// keys.
#[verifier::external_body]
pub(crate) fn read_key(text: &str) -> (r: Result<Option<KeyDer>, String>)
    ensures
        key_value(r) == pem_key(text@),
{
    match rustls_pemfile::private_key(&mut text.as_bytes()) {
        Ok(Some(PrivateKeyDer::Pkcs1(k))) => Ok(Some(KeyDer { form: KeyForm::Pkcs1, bytes: k.secret_pkcs1_der().to_vec() })),
        Ok(Some(PrivateKeyDer::Sec1(k))) => Ok(Some(KeyDer { form: KeyForm::Sec1, bytes: k.secret_sec1_der().to_vec() })),
        Ok(Some(PrivateKeyDer::Pkcs8(k))) => Ok(Some(KeyDer { form: KeyForm::Pkcs8, bytes: k.secret_pkcs8_der().to_vec() })),
        Ok(Some(_)) => Err(String::new()),
        Ok(None) => Ok(None),
        Err(e) => Err(e.to_string()),
    }
}

/// The configuration of a `rustls` server; opaque.
#[verifier::external_type_specification]
#[verifier::external_body]
pub struct ExServerConfig(rustls::ServerConfig);

/// The error of `rustls`; opaque.
#[verifier::external_type_specification]
#[verifier::external_body]
pub struct ExRustlsError(rustls::Error);

/// Calls `rustls`'s `with_single_cert` for a server without client
/// authentication, with the default protocol versions and the cryptography
/// provider of the process; where none is installed, `builder` installs that of
/// the `ring` feature. It fails where the key is not valid or does not belong to
/// the first certificate. It draws random numbers too, so it may also fail where
/// the system has none to give. `builder` takes for granted that a provider which
/// the process installed itself supports one of the versions.
#[verifier::external_body]
pub(crate) fn make_config(chain: Vec<Vec<u8>>, key: KeyDer) -> (r: Result<ServerConfig, rustls::Error>)
    ensures
        server_made(chain@.map_values(|der: Vec<u8>| der@), key.form, key.bytes@, r),
{
    let chain = chain.into_iter().map(CertificateDer::from).collect();
    let key = match key.form {
        KeyForm::Pkcs1 => PrivateKeyDer::Pkcs1(key.bytes.into()),
        KeyForm::Sec1 => PrivateKeyDer::Sec1(key.bytes.into()),
        KeyForm::Pkcs8 => PrivateKeyDer::Pkcs8(key.bytes.into()),
    };
    ServerConfig::builder().with_no_client_auth().with_single_cert(chain, key)
}

} // verus!
