//! The local certificate authority and the server certificates it issues.
//!
//! A stable root is kept in the cache directory; server certificates for the
//! current addresses can then be replaced without invalidating the trust that
//! a phone has put in the root.

use rustls::ServerConfig;
use std::sync::Arc;
use vstd::prelude::*;

use crate::address;
use crate::address::Ipv4;
use crate::cache;
use crate::cache::{CacheDir, CacheFile, Entry};
use crate::issue;
use crate::issue::{KeyOwner, DAY};
use crate::pem;
use crate::pem::{KeyDer, KeyForm};
use crate::text;

verus! {

/// Days after which a server certificate is replaced.
pub const LEAF_RENEW_AFTER_DAYS: i64 = 365;

/// Why there is no certificate, or no server, with the error behind it where
/// there is one: that of `rcgen` or of `rustls`, or what the error says.
#[derive(Debug, PartialEq)]
pub enum TlsError {
    /// Only one of the two files of the root is there.
    IncompleteCa,
    /// A file is there but cannot be read.
    Unreadable(CacheFile, String),
    /// The parameters of the root certificate were refused.
    RootParams(rcgen::Error),
    /// No key could be made for the root.
    RootKey(rcgen::Error),
    /// The root certificate could not be signed.
    RootSigning(rcgen::Error),
    /// The key of the root is not a key.
    RootKeyInvalid(rcgen::Error),
    /// The parameters of the server certificate were refused.
    LeafParams(rcgen::Error),
    /// The root could not be set up as an issuer.
    RootIssuer(rcgen::Error),
    /// No key could be made for the server certificate.
    LeafKey(rcgen::Error),
    /// The server certificate could not be signed.
    LeafSigning(rcgen::Error),
    /// The root certificate is not valid PEM.
    RootPemInvalid(String),
    /// The server certificate is not valid PEM.
    CertPemInvalid(String),
    /// The key of the server certificate is not valid PEM.
    KeyPemInvalid(String),
    /// The PEM of the root holds no certificate.
    RootPemEmpty,
    /// The PEM of the key holds no private key.
    NoPrivateKey,
    /// The chain and the key make no server.
    ConfigRejected(rustls::Error),
}

/// The contents of a [`TlsError`].
pub enum Failure {
    IncompleteCa,
    Unreadable(CacheFile, Seq<char>),
    RootParams(rcgen::Error),
    RootKey(rcgen::Error),
    RootSigning(rcgen::Error),
    RootKeyInvalid(rcgen::Error),
    LeafParams(rcgen::Error),
    RootIssuer(rcgen::Error),
    LeafKey(rcgen::Error),
    LeafSigning(rcgen::Error),
    RootPemInvalid(Seq<char>),
    CertPemInvalid(Seq<char>),
    KeyPemInvalid(Seq<char>),
    RootPemEmpty,
    NoPrivateKey,
    ConfigRejected(rustls::Error),
}

impl View for TlsError {
    type V = Failure;

    open spec fn view(&self) -> Failure {
        match *self {
            TlsError::IncompleteCa => Failure::IncompleteCa,
            TlsError::Unreadable(file, e) => Failure::Unreadable(file, e@),
            TlsError::RootParams(e) => Failure::RootParams(e),
            TlsError::RootKey(e) => Failure::RootKey(e),
            TlsError::RootSigning(e) => Failure::RootSigning(e),
            TlsError::RootKeyInvalid(e) => Failure::RootKeyInvalid(e),
            TlsError::LeafParams(e) => Failure::LeafParams(e),
            TlsError::RootIssuer(e) => Failure::RootIssuer(e),
            TlsError::LeafKey(e) => Failure::LeafKey(e),
            TlsError::LeafSigning(e) => Failure::LeafSigning(e),
            TlsError::RootPemInvalid(e) => Failure::RootPemInvalid(e@),
            TlsError::CertPemInvalid(e) => Failure::CertPemInvalid(e@),
            TlsError::KeyPemInvalid(e) => Failure::KeyPemInvalid(e@),
            TlsError::RootPemEmpty => Failure::RootPemEmpty,
            TlsError::NoPrivateKey => Failure::NoPrivateKey,
            TlsError::ConfigRejected(e) => Failure::ConfigRejected(e),
        }
    }
}

impl Failure {
    /// What the error says, of a cache in the directory `dir`. Of a file that
    /// cannot be read it is what the error of the disk says.
    pub open spec fn message(self, dir: Seq<char>) -> Seq<char> {
        match self {
            Failure::IncompleteCa => "incomplete local CA cache in "@ + dir
                + ": restore the missing file or remove both CA files explicitly"@,
            Failure::Unreadable(_, e) => e,
            Failure::RootParams(_) => "building root certificate params"@,
            Failure::RootKey(_) => "generating root CA key"@,
            Failure::RootSigning(_) => "self-signing root CA"@,
            Failure::RootKeyInvalid(_) => "parsing root CA key"@,
            Failure::LeafParams(_) => "building server certificate params"@,
            Failure::RootIssuer(_) => "loading root CA issuer"@,
            Failure::LeafKey(_) => "generating server key"@,
            Failure::LeafSigning(_) => "signing server certificate with local root CA"@,
            Failure::RootPemInvalid(_) => "parsing root CA PEM"@,
            Failure::CertPemInvalid(_) => "parsing certificate PEM"@,
            Failure::KeyPemInvalid(_) => "parsing key PEM"@,
            Failure::RootPemEmpty => "root CA PEM is empty"@,
            Failure::NoPrivateKey => "no private key found in PEM"@,
            Failure::ConfigRejected(_) => "building rustls server config"@,
        }
    }
}

impl TlsError {
    /// What the error says, of a cache in the directory `dir`, without the error
    /// behind it.
    pub fn describe(&self, dir: &str) -> (r: String)
        ensures
            r@ == self@.message(dir@),
    {
        match self {
            TlsError::IncompleteCa => {
                let mut s: String = "incomplete local CA cache in ".to_string();
                s.append(dir);
                s.append(": restore the missing file or remove both CA files explicitly");
                s
            },
            TlsError::Unreadable(_, e) => e.clone(),
            TlsError::RootParams(_) => "building root certificate params".to_string(),
            TlsError::RootKey(_) => "generating root CA key".to_string(),
            TlsError::RootSigning(_) => "self-signing root CA".to_string(),
            TlsError::RootKeyInvalid(_) => "parsing root CA key".to_string(),
            TlsError::LeafParams(_) => "building server certificate params".to_string(),
            TlsError::RootIssuer(_) => "loading root CA issuer".to_string(),
            TlsError::LeafKey(_) => "generating server key".to_string(),
            TlsError::LeafSigning(_) => "signing server certificate with local root CA".to_string(),
            TlsError::RootPemInvalid(_) => "parsing root CA PEM".to_string(),
            TlsError::CertPemInvalid(_) => "parsing certificate PEM".to_string(),
            TlsError::KeyPemInvalid(_) => "parsing key PEM".to_string(),
            TlsError::RootPemEmpty => "root CA PEM is empty".to_string(),
            TlsError::NoPrivateKey => "no private key found in PEM".to_string(),
            TlsError::ConfigRejected(_) => "building rustls server config".to_string(),
        }
    }
}

/// The per-user directory under which the cache lies.
pub open spec fn base_dir<T>(
    windows: bool,
    local_app_data: Option<T>,
    data_home: Option<T>,
    home: Option<T>,
) -> Option<T> {
    if windows {
        local_app_data
    } else if data_home is Some {
        data_home
    } else {
        home
    }
}

/// The per-user directory under which the cache lies: on Windows the local
/// application data, elsewhere the data directory or else the home directory.
pub fn cache_base<T>(
    windows: bool,
    local_app_data: Option<T>,
    data_home: Option<T>,
    home: Option<T>,
) -> (r: Option<T>)
    ensures
        r == base_dir(windows, local_app_data, data_home, home),
        windows ==> r == local_app_data,
        !windows && data_home is Some ==> r == data_home,
        !windows && data_home is None ==> r == home,
{
    if windows {
        local_app_data
    } else {
        match data_home {
            Some(d) => Some(d),
            None => home,
        }
    }
}

/// The root certificate and its key, in PEM.
#[derive(Debug)]
pub struct CaPems {
    pub cert: String,
    pub key: String,
}

/// A server certificate with its chain, and its key, in PEM.
#[derive(Debug)]
pub struct Pems {
    pub cert: String,
    pub key: String,
}

/// The texts of a [`CaPems`] or a [`Pems`].
#[verifier::ext_equal]
pub struct PemTexts {
    pub cert: Seq<char>,
    pub key: Seq<char>,
}

impl View for CaPems {
    type V = PemTexts;

    open spec fn view(&self) -> PemTexts {
        PemTexts { cert: self.cert@, key: self.key@ }
    }
}

impl View for Pems {
    type V = PemTexts;

    open spec fn view(&self) -> PemTexts {
        PemTexts { cert: self.cert@, key: self.key@ }
    }
}

/// The texts of a root, or why there are none.
pub open spec fn root_result(r: Result<CaPems, TlsError>) -> Result<PemTexts, Failure> {
    match r {
        Ok(ca) => Ok(ca@),
        Err(e) => Err(e@),
    }
}

/// The texts of a server certificate, or why there are none.
pub open spec fn leaf_result(r: Result<Pems, TlsError>) -> Result<PemTexts, Failure> {
    match r {
        Ok(p) => Ok(p@),
        Err(e) => Err(e@),
    }
}

/// Whether there is no root yet: neither of its files is there.
pub open spec fn root_missing(files: Map<CacheFile, cache::Content>) -> bool {
    files[CacheFile::CaCert] is Absent && files[CacheFile::CaKey] is Absent
}

/// Whether the texts are those of a root made at `now`: a new key, and a
/// certificate that it signed itself.
pub open spec fn root_made(now: int, ca: PemTexts) -> bool {
    let key = issue::key_in(ca.key);
    &&& issue::key_made(KeyOwner::Root, Ok(key))
    &&& ca.key == issue::key_pem(key)
    &&& issue::key_text(ca.key)
    &&& issue::self_signed(issue::root_fields(now), key, Ok(ca.cert))
    &&& pem::reads_back(ca.cert)
}

/// Whether signing the root with a new key may have failed with this error.
pub open spec fn root_signing_failed(now: int, cause: rcgen::Error) -> bool {
    exists|key: Seq<u8>|
        issue::key_made(KeyOwner::Root, Ok(key)) && #[trigger] issue::self_signed(
            issue::root_fields(now),
            key,
            Err(cause),
        )
}

/// Whether making a root at `now` may end with this error: no key came, or the
/// certificate could not be signed with the one that did.
pub open spec fn root_failure(now: int, e: Failure) -> bool {
    match e {
        Failure::RootKey(cause) => issue::key_made(KeyOwner::Root, Err(cause)),
        Failure::RootSigning(cause) => root_signing_failed(now, cause),
        _ => false,
    }
}

/// How loading or making the root may turn out: where both files are there
/// they are read, where one is missing nothing is touched, and where both are
/// missing a new root is made and written.
pub open spec fn root_step(
    before: cache::DirState,
    now: int,
    after: cache::DirState,
    r: Result<PemTexts, Failure>,
) -> bool {
    match (before.files[CacheFile::CaCert], before.files[CacheFile::CaKey]) {
        (cache::Content::Absent, cache::Content::Absent) => match r {
            Ok(ca) => {
                &&& root_made(now, ca)
                &&& after == before.write(CacheFile::CaCert, ca.cert).write(
                    CacheFile::CaKey,
                    ca.key,
                )
            },
            Err(e) => after == before && root_failure(now, e),
        },
        (cache::Content::Absent, _) => after == before && r == Err::<PemTexts, Failure>(
            Failure::IncompleteCa,
        ),
        (_, cache::Content::Absent) => after == before && r == Err::<PemTexts, Failure>(
            Failure::IncompleteCa,
        ),
        (cache::Content::Unreadable(e), _) => after == before && r == Err::<PemTexts, Failure>(
            Failure::Unreadable(CacheFile::CaCert, e),
        ),
        (_, cache::Content::Unreadable(e)) => after == before && r == Err::<PemTexts, Failure>(
            Failure::Unreadable(CacheFile::CaKey, e),
        ),
        (cache::Content::Text(cert), cache::Content::Text(key)) => after == before && r == Ok::<
            PemTexts,
            Failure,
        >(PemTexts { cert, key }),
    }
}

/// The moment that a renewal file names; 0 where it names none.
pub open spec fn renewal_moment(s: Seq<char>) -> int {
    match text::parsed_i64(text::trimmed(s)) {
        Some(v) => v,
        None => 0,
    }
}

/// Whether the list names the address on a line of its own.
pub open spec fn lists_address(s: Seq<char>, ip: Ipv4) -> bool {
    exists|i: int|
        0 <= i < text::lines(s).len() && text::trimmed(#[trigger] text::lines(s)[i]) == ip.dotted()
}

/// Whether the files hold a server certificate that can be used for the
/// address at `now`.
pub open spec fn leaf_usable(
    files: Map<CacheFile, cache::Content>,
    active: Ipv4,
    now: int,
) -> bool {
    &&& text::trimmed(files[CacheFile::Version].or_empty()) == "2"@
    &&& lists_address(files[CacheFile::IpList].or_empty(), active)
    &&& renewal_moment(files[CacheFile::RenewAt].or_empty()) > now
    &&& !(files[CacheFile::Cert] is Absent)
    &&& !(files[CacheFile::Key] is Absent)
}

/// The addresses that a server certificate covers: those of the machine, the
/// active one and the loopback address, in order and none twice.
pub open spec fn covers(ips: Seq<Ipv4>, candidates: Seq<Ipv4>, active: Ipv4) -> bool {
    &&& address::strictly_increasing(ips)
    &&& forall|x: Ipv4| #[trigger]
        ips.contains(x) <==> candidates.contains(x) || x == active || x == address::loopback()
}

/// Whether a server certificate for the address has to be issued at `now`,
/// together with a root or by the one that is there.
pub open spec fn issue_needed(
    files: Map<CacheFile, cache::Content>,
    active: Ipv4,
    now: int,
) -> bool {
    ||| root_missing(files)
    ||| files[CacheFile::CaCert] is Text && files[CacheFile::CaKey] is Text && !leaf_usable(
        files,
        active,
        now,
    )
}

/// Whether `leaf` is the certificate that the root issued for the addresses and
/// the key of `p` at `now`, and `p.cert` has the root certificate behind it.
pub open spec fn leaf_of(
    ca: PemTexts,
    ips: Seq<Ipv4>,
    now: int,
    p: PemTexts,
    leaf: Seq<char>,
) -> bool {
    &&& issue::signed_by(
        issue::leaf_fields(ips, now),
        issue::key_in(p.key),
        issue::root_fields(now),
        issue::key_in(ca.key),
        Ok(leaf),
    )
    &&& issue::tells(leaf, issue::leaf_fields(ips, now))
    &&& pem::reads_back(leaf)
    &&& p.cert == leaf + seq!['\n'] + ca.cert
}

/// Whether the texts are those of a server certificate that the root issued
/// for the addresses at `now`: a new key, and the certificate for it, signed
/// with the root's key, with the root certificate behind it.
pub open spec fn leaf_issued(ca: PemTexts, ips: Seq<Ipv4>, now: int, p: PemTexts) -> bool {
    let key = issue::key_in(p.key);
    &&& issue::key_text(ca.key)
    &&& issue::key_made(KeyOwner::Leaf, Ok(key))
    &&& p.key == issue::key_pem(key)
    &&& issue::key_text(p.key)
    &&& pem::pem_key(p.key) == Ok::<_, Seq<char>>(Some((KeyForm::Pkcs8, key)))
    &&& exists|leaf: Seq<char>| leaf_of(ca, ips, now, p, leaf)
}

/// Whether the root's key, as read from its text, may make this of an issuer.
pub open spec fn issuer_made(
    ca: PemTexts,
    now: int,
    issuer: Result<Seq<char>, rcgen::Error>,
) -> bool {
    &&& issue::key_text(ca.key)
    &&& issue::self_signed(issue::root_fields(now), issue::key_in(ca.key), issuer)
}

/// Whether signing a server certificate with the root's key may have failed with
/// this error, where a new key was made for it.
pub open spec fn leaf_signing_failed(
    ca: PemTexts,
    ips: Seq<Ipv4>,
    now: int,
    cause: rcgen::Error,
) -> bool {
    &&& issue::key_text(ca.key)
    &&& exists|key: Seq<u8>|
        issue::key_made(KeyOwner::Leaf, Ok(key)) && #[trigger] issue::signed_by(
            issue::leaf_fields(ips, now),
            key,
            issue::root_fields(now),
            issue::key_in(ca.key),
            Err(cause),
        )
}

/// Whether issuing a server certificate for the addresses at `now` may end with
/// this error: the text of the root's key could not be read, no issuer could be
/// made with the key, no key came for the certificate, or it could not be
/// signed.
pub open spec fn leaf_failure(ca: PemTexts, ips: Seq<Ipv4>, now: int, e: Failure) -> bool {
    match e {
        Failure::RootKeyInvalid(cause) => issue::key_read(ca.key, Err(cause)),
        Failure::RootIssuer(cause) => issuer_made(ca, now, Err(cause)),
        Failure::LeafKey(cause) => issue::key_made(KeyOwner::Leaf, Err(cause)) && exists|
            issuer: Seq<char>,
        |
            issuer_made(ca, now, Ok(issuer)),
        Failure::LeafSigning(cause) => leaf_signing_failed(ca, ips, now, cause),
        _ => false,
    }
}

/// The directory after a server certificate has been recorded in it.
pub open spec fn recorded(
    dir: cache::DirState,
    p: PemTexts,
    ips: Seq<Ipv4>,
    now: int,
) -> cache::DirState {
    dir.write(CacheFile::Cert, p.cert).write(CacheFile::Key, p.key).write(
        CacheFile::IpList,
        text::joined(address::dotted_texts(ips)) + seq!['\n'],
    ).write(CacheFile::Version, "2\n"@).write(
        CacheFile::RenewAt,
        text::signed_decimal(now + LEAF_RENEW_AFTER_DAYS * DAY) + seq!['\n'],
    )
}

/// How loading or issuing the server certificate may turn out once the root is
/// at hand: a usable one is read, otherwise a new one is issued and recorded.
pub open spec fn leaf_step(
    before: cache::DirState,
    ca: PemTexts,
    active: Ipv4,
    ips: Seq<Ipv4>,
    now: int,
    after: cache::DirState,
    r: Result<PemTexts, Failure>,
) -> bool {
    if leaf_usable(before.files, active, now) {
        &&& after == before
        &&& match (before.files[CacheFile::Cert], before.files[CacheFile::Key]) {
            (cache::Content::Text(cert), cache::Content::Text(key)) => r == Ok::<
                PemTexts,
                Failure,
            >(PemTexts { cert, key }),
            (cache::Content::Unreadable(e), _) => r == Err::<PemTexts, Failure>(
                Failure::Unreadable(CacheFile::Cert, e),
            ),
            (_, cache::Content::Unreadable(e)) => r == Err::<PemTexts, Failure>(
                Failure::Unreadable(CacheFile::Key, e),
            ),
            _ => false,
        }
    } else {
        match r {
            Ok(p) => {
                &&& leaf_issued(ca, ips, now, p)
                &&& after == recorded(before, p, ips, now)
            },
            Err(e) => after == before && leaf_failure(ca, ips, now, e),
        }
    }
}

/// How loading or issuing a server certificate for an address may turn out.
pub open spec fn load_step(
    before: cache::DirState,
    active: Ipv4,
    ips: Seq<Ipv4>,
    now: int,
    after: cache::DirState,
    r: Result<PemTexts, Failure>,
) -> bool {
    exists|mid: cache::DirState, root: Result<PemTexts, Failure>| #[trigger]
        root_step(before, now, mid, root) && match root {
            Ok(ca) => leaf_step(mid, ca, active, ips, now, after, r),
            Err(e) => after == mid && r == Err::<PemTexts, Failure>(e),
        }
}

/// Makes a root: a key, and a certificate that it signs itself.
pub fn generate_ca(now: i64) -> (r: Result<CaPems, TlsError>)
    requires
        issue::issuable_at(now as int),
    ensures
        match r {
            Ok(ca) => root_made(now as int, ca@),
            Err(e) => root_failure(now as int, e@),
        },
{
    let pair = match issue::generate_key(KeyOwner::Root) {
        Ok(pair) => pair,
        Err(e) => {
            return Err(TlsError::RootKey(e));
        },
    };
    let ghost key = issue::pair_key(pair)->0;
    assert(issue::key_made(KeyOwner::Root, Ok(key)));
    let profile = issue::ca_params(now);
    let params = match issue::to_rcgen(&profile) {
        Ok(params) => params,
        Err(e) => {
            return Err(TlsError::RootParams(e));
        },
    };
    match issue::sign_self(params, &pair) {
        Ok(cert) => {
            let ca = CaPems { cert: issue::write_certificate(&cert), key: issue::write_key(&pair) };
            assert(issue::self_signed(issue::root_fields(now as int), key, Ok(ca@.cert)));
            Ok(ca)
        },
        Err(e) => {
            assert(issue::self_signed(issue::root_fields(now as int), key, Err(e)));
            assert(root_signing_failed(now as int, e));
            Err(TlsError::RootSigning(e))
        },
    }
}

/// Whether a root has to be made.
pub fn must_make_root(dir: &CacheDir) -> (r: bool)
    ensures
        r == root_missing(dir@.files),
{
    !dir.has_file(CacheFile::CaCert) && !dir.has_file(CacheFile::CaKey)
}

/// Writes the two files of a root that was made, and hands it on; where none
/// was made, hands on why.
pub fn keep_root(dir: &mut CacheDir, made: Result<CaPems, TlsError>) -> (r: Result<
    CaPems,
    TlsError,
>)
    ensures
        root_result(r) == root_result(made),
        match made {
            Ok(ca) => final(dir)@ == old(dir)@.write(CacheFile::CaCert, ca.cert@).write(
                CacheFile::CaKey,
                ca.key@,
            ),
            Err(_) => final(dir)@ == old(dir)@,
        },
{
    match made {
        Ok(ca) => {
            dir.write(CacheFile::CaCert, &ca.cert);
            dir.write(CacheFile::CaKey, &ca.key);
            Ok(ca)
        },
        Err(e) => Err(e),
    }
}

/// Reads a file that is there.
fn read_file(dir: &CacheDir, file: CacheFile) -> (r: Result<String, TlsError>)
    requires
        !(dir@.files[file] is Absent),
    ensures
        match dir@.files[file] {
            cache::Content::Text(s) => r matches Ok(t) && t@ == s,
            cache::Content::Unreadable(e) => r matches Err(f) && f@ == Failure::Unreadable(file, e),
            cache::Content::Absent => false,
        },
{
    match dir.get(file) {
        Entry::Text(s) => Ok(s.clone()),
        Entry::Unreadable(e) => Err(TlsError::Unreadable(file, e.clone())),
        Entry::Absent => Err(TlsError::IncompleteCa),
    }
}

/// Loads the root, or makes and writes one where there is none. The root is
/// never replaced: once it is trusted on a phone it stays the identity behind
/// all server certificates to come.
pub fn load_or_generate_ca(dir: &mut CacheDir, now: i64) -> (r: Result<CaPems, TlsError>)
    requires
        root_missing(old(dir)@.files) ==> issue::issuable_at(now as int),
    ensures
        root_step(old(dir)@, now as int, final(dir)@, root_result(r)),
{
    if must_make_root(dir) {
        return keep_root(dir, generate_ca(now));
    }
    if !dir.has_file(CacheFile::CaCert) || !dir.has_file(CacheFile::CaKey) {
        return Err(TlsError::IncompleteCa);
    }
    let cert: String = match read_file(dir, CacheFile::CaCert) {
        Ok(cert) => cert,
        Err(e) => {
            return Err(e);
        },
    };
    match read_file(dir, CacheFile::CaKey) {
        Ok(key) => Ok(CaPems { cert, key }),
        Err(e) => Err(e),
    }
}

/// The addresses that a server certificate is to cover.
pub fn certificate_ips(candidates: &Vec<Ipv4>, active: Ipv4) -> (r: Vec<Ipv4>)
    ensures
        covers(r@, candidates@, active),
{
    let mut ips: Vec<Ipv4> = Vec::new();
    let mut i: usize = 0;
    while i < candidates.len()
        invariant
            i <= candidates@.len(),
            address::strictly_increasing(ips@),
            forall|x: Ipv4| #[trigger] ips@.contains(x) <==> candidates@.take(i as int).contains(x),
        decreases candidates@.len() - i,
    {
        let ghost before = ips@;
        address::insert_ordered(&mut ips, candidates[i]);
        i = i + 1;
        proof {
            let head = candidates@.take(i as int);
            let prev = candidates@.take(i - 1);
            assert(head =~= prev.push(candidates@[i - 1]));
            assert forall|x: Ipv4| #[trigger] ips@.contains(x) <==> head.contains(x) by {
                assert(before.contains(x) <==> prev.contains(x));
                if prev.contains(x) {
                    let k = choose|k: int| 0 <= k < prev.len() && prev[k] == x;
                    assert(head[k] == x);
                }
                assert(head[i - 1] == candidates@[i - 1]);
                if head.contains(x) && x != candidates@[i - 1] {
                    let k = choose|k: int| 0 <= k < head.len() && head[k] == x;
                    assert(prev[k] == x);
                }
            }
        }
    }
    assert(candidates@.take(i as int) =~= candidates@);
    address::insert_ordered(&mut ips, active);
    address::insert_ordered(&mut ips, Ipv4::localhost());
    ips
}

/// Whether the directory holds a server certificate that can be used for the
/// address at `now`: of this layout, for this address, not yet due for renewal,
/// and with both files there.
pub fn cached_leaf_is_usable(dir: &CacheDir, active: Ipv4, now: i64) -> (r: bool)
    ensures
        r == leaf_usable(dir@.files, active, now as int),
{
    let version: Vec<char> = text::chars_of(dir.read_or_empty(CacheFile::Version).as_str());
    let ips: Vec<char> = text::chars_of(dir.read_or_empty(CacheFile::IpList).as_str());
    let renew: Vec<char> = text::chars_of(dir.read_or_empty(CacheFile::RenewAt).as_str());
    let renew_at: i64 = match text::parse_i64(text::trim(renew.as_slice())) {
        Some(v) => v,
        None => 0,
    };
    let expected: Vec<char> = text::chars_of("2");
    let word: Vec<char> = text::chars_of(active.to_dotted().as_str());
    text::same_chars(text::trim(version.as_slice()), expected.as_slice()) && text::has_line(
        ips.as_slice(),
        word.as_slice(),
    ) && renew_at > now && dir.has_file(CacheFile::Cert) && dir.has_file(CacheFile::Key)
}

/// The texts of a server certificate: the certificate with the root certificate
/// behind it, and its key.
pub fn leaf_pems(leaf: &String, key: String, ca: &CaPems) -> (r: Pems)
    ensures
        r.cert@ == leaf@ + seq!['\n'] + ca.cert@,
        r.key == key,
{
    let mut cert: String = leaf.clone();
    cert.push('\n');
    cert.append(ca.cert.as_str());
    assert(cert@ =~= leaf@ + seq!['\n'] + ca.cert@);
    Pems { cert, key }
}

/// Whether a server certificate for the address has to be issued at `now`.
pub fn must_issue(dir: &CacheDir, active: Ipv4, now: i64) -> (r: bool)
    ensures
        r == issue_needed(dir@.files, active, now as int),
{
    must_make_root(dir) || (dir.read(CacheFile::CaCert).is_some() && dir.read(
        CacheFile::CaKey,
    ).is_some() && !cached_leaf_is_usable(dir, active, now))
}

/// Issues a server certificate for the addresses. The issuer is made anew of
/// the root's key; that does not touch the root certificate.
pub fn generate_leaf(ca: &CaPems, ips: &Vec<Ipv4>, now: i64) -> (r: Result<Pems, TlsError>)
    requires
        issue::issuable_at(now as int),
    ensures
        match r {
            Ok(p) => leaf_issued(ca@, ips@, now as int, p@),
            Err(e) => leaf_failure(ca@, ips@, now as int, e@),
        },
        !issue::key_text(ca.key@) ==> (r matches Err(e) && e is RootKeyInvalid),
{
    let profile = issue::leaf_params(ips, now);
    let params = match issue::to_rcgen(&profile) {
        Ok(params) => params,
        Err(e) => {
            return Err(TlsError::LeafParams(e));
        },
    };
    let ca_pair = match issue::read_key(ca.key.as_str()) {
        Ok(pair) => pair,
        Err(e) => {
            return Err(TlsError::RootKeyInvalid(e));
        },
    };
    let ghost ca_key = issue::key_in(ca@.key);
    let root_profile = issue::ca_params(now);
    let root_params = match issue::to_rcgen(&root_profile) {
        Ok(params) => params,
        Err(e) => {
            return Err(TlsError::RootParams(e));
        },
    };
    let ghost root = issue::root_fields(now as int);
    let issuer = match issue::sign_self(root_params, &ca_pair) {
        Ok(issuer) => issuer,
        Err(e) => {
            assert(issue::self_signed(root, ca_key, Err(e)));
            assert(issuer_made(ca@, now as int, Err(e)));
            return Err(TlsError::RootIssuer(e));
        },
    };
    assert(issue::self_signed(root, ca_key, Ok(issue::certificate_pem(issuer))));
    assert(issuer_made(ca@, now as int, Ok(issue::certificate_pem(issuer))));
    let pair = match issue::generate_key(KeyOwner::Leaf) {
        Ok(pair) => pair,
        Err(e) => {
            return Err(TlsError::LeafKey(e));
        },
    };
    let ghost key = issue::pair_key(pair)->0;
    let ghost fields = issue::leaf_fields(ips@, now as int);
    assert(issue::key_made(KeyOwner::Leaf, Ok(key)));
    match issue::sign_by(params, &pair, &issuer, &ca_pair) {
        Ok(cert) => {
            let leaf: String = issue::write_certificate(&cert);
            let p: Pems = leaf_pems(&leaf, issue::write_key(&pair), ca);
            assert(issue::signed_by(fields, key, root, ca_key, Ok(leaf@)));
            assert(leaf_of(ca@, ips@, now as int, p@, leaf@));
            Ok(p)
        },
        Err(e) => {
            assert(issue::signed_by(fields, key, root, ca_key, Err(e)));
            assert(leaf_signing_failed(ca@, ips@, now as int, e));
            Err(TlsError::LeafSigning(e))
        },
    }
}

/// Records a server certificate that was issued, and hands it on: its texts,
/// the addresses it covers, the layout, and when it is to be replaced. Where
/// none was issued, hands on why.
pub fn keep_leaf(
    dir: &mut CacheDir,
    issued: Result<Pems, TlsError>,
    ips: &Vec<Ipv4>,
    now: i64,
) -> (r: Result<Pems, TlsError>)
    requires
        issued is Ok ==> now + LEAF_RENEW_AFTER_DAYS * DAY <= i64::MAX,
    ensures
        leaf_result(r) == leaf_result(issued),
        match issued {
            Ok(p) => final(dir)@ == recorded(old(dir)@, p@, ips@, now as int),
            Err(_) => final(dir)@ == old(dir)@,
        },
{
    let p: Pems = match issued {
        Ok(p) => p,
        Err(e) => {
            return Err(e);
        },
    };
    dir.write(CacheFile::Cert, &p.cert);
    dir.write(CacheFile::Key, &p.key);
    dir.write(CacheFile::IpList, &address::dotted_lines(ips));
    dir.write(CacheFile::Version, &"2\n".to_string());
    let mut renew_at: String = text::i64_text(now + LEAF_RENEW_AFTER_DAYS * DAY);
    renew_at.push('\n');
    assert(renew_at@ =~= text::signed_decimal(now + LEAF_RENEW_AFTER_DAYS * DAY) + seq!['\n']);
    dir.write(CacheFile::RenewAt, &renew_at);
    Ok(p)
}

/// Loads a server certificate that covers the address, or issues and records a
/// new one. `candidates` are the addresses of the machine.
pub fn load_or_generate_in(
    dir: &mut CacheDir,
    ip: Ipv4,
    candidates: &Vec<Ipv4>,
    now: i64,
) -> (r: Result<Pems, TlsError>)
    requires
        issue_needed(old(dir)@.files, ip, now as int) ==> issue::issuable_at(now as int),
    ensures
        exists|ips: Seq<Ipv4>| #[trigger]
            covers(ips, candidates@, ip) && load_step(
                old(dir)@,
                ip,
                ips,
                now as int,
                final(dir)@,
                leaf_result(r),
            ),
{
    let ips: Vec<Ipv4> = certificate_ips(candidates, ip);
    let ghost before = dir@;
    let root = load_or_generate_ca(dir, now);
    let ghost mid = dir@;
    assert(root_step(before, now as int, mid, root_result(root)));
    let ca: CaPems = match root {
        Ok(ca) => ca,
        Err(e) => {
            return Err(e);
        },
    };
    if cached_leaf_is_usable(dir, ip, now) {
        let cert: String = match read_file(dir, CacheFile::Cert) {
            Ok(cert) => cert,
            Err(e) => {
                return Err(e);
            },
        };
        return match read_file(dir, CacheFile::Key) {
            Ok(key) => Ok(Pems { cert, key }),
            Err(e) => Err(e),
        };
    }
    proof {
        lemma_root_step_keeps_leaf(before, now as int, mid, root_result(root), ip, now as int);
    }
    keep_leaf(dir, generate_leaf(&ca, &ips, now), &ips, now)
}

/// The first certificate of those that a root's PEM yields.
pub open spec fn first_der(items: Seq<Result<Seq<u8>, Seq<char>>>) -> Result<Seq<u8>, Failure> {
    if items.len() == 0 {
        Err(Failure::RootPemEmpty)
    } else {
        match items[0] {
            Ok(der) => Ok(der),
            Err(e) => Err(Failure::RootPemInvalid(e)),
        }
    }
}

/// The items of a list of certificates, as values.
pub open spec fn item_values(items: Seq<Result<Vec<u8>, String>>) -> Seq<
    Result<Seq<u8>, Seq<char>>,
> {
    items.map_values(|item: Result<Vec<u8>, String>| pem::item_value(item))
}

/// The bytes of a certificate, or why there are none.
pub open spec fn der_result(r: Result<Vec<u8>, TlsError>) -> Result<Seq<u8>, Failure> {
    match r {
        Ok(der) => Ok(der@),
        Err(e) => Err(e@),
    }
}

/// The first certificate of those that a root's PEM yields.
pub fn first_certificate(items: &Vec<Result<Vec<u8>, String>>) -> (r: Result<Vec<u8>, TlsError>)
    ensures
        der_result(r) == first_der(item_values(items@)),
{
    if items.len() == 0 {
        return Err(TlsError::RootPemEmpty);
    }
    assert(item_values(items@)[0] == pem::item_value(items@[0]));
    match &items[0] {
        Ok(der) => Ok(der.clone()),
        Err(e) => Err(TlsError::RootPemInvalid(e.clone())),
    }
}

/// The root certificate in DER, for installation on a phone. The key of the
/// root has no part in it.
pub fn ca_der(dir: &mut CacheDir, now: i64) -> (r: Result<Vec<u8>, TlsError>)
    requires
        root_missing(old(dir)@.files) ==> issue::issuable_at(now as int),
    ensures
        exists|root: Result<PemTexts, Failure>| #[trigger]
            root_step(old(dir)@, now as int, final(dir)@, root) && der_result(r) == match root {
                Ok(ca) => first_der(pem::pem_certs(ca.cert)),
                Err(e) => Err::<Seq<u8>, Failure>(e),
            },
{
    let root = load_or_generate_ca(dir, now);
    assert(root_step(old(dir)@, now as int, dir@, root_result(root)));
    match root {
        Ok(ca) => first_certificate(&pem::read_certs(ca.cert.as_str())),
        Err(e) => Err(e),
    }
}

/// Makes sure that there is a server certificate for the address.
pub fn ensure_cert(dir: &mut CacheDir, ip: Ipv4, candidates: &Vec<Ipv4>, now: i64) -> (r: Result<
    (),
    TlsError,
>)
    requires
        issue_needed(old(dir)@.files, ip, now as int) ==> issue::issuable_at(now as int),
    ensures
        exists|ips: Seq<Ipv4>, pems: Result<PemTexts, Failure>| #[trigger]
            covers(ips, candidates@, ip) && #[trigger] load_step(
                old(dir)@,
                ip,
                ips,
                now as int,
                final(dir)@,
                pems,
            ) && match pems {
                Ok(_) => r is Ok,
                Err(e) => r matches Err(f) && f@ == e,
            },
{
    match load_or_generate_in(dir, ip, candidates, now) {
        Ok(_) => Ok(()),
        Err(e) => Err(e),
    }
}

/// Whether item `i` is the first that is broken.
pub open spec fn breaks_at(items: Seq<Result<Seq<u8>, Seq<char>>>, i: int) -> bool {
    &&& 0 <= i < items.len()
    &&& items[i] is Err
    &&& forall|j: int| 0 <= j < i ==> (#[trigger] items[j]) is Ok
}

/// The certificates of a list in which none is broken.
pub open spec fn sound_items(items: Seq<Result<Seq<u8>, Seq<char>>>) -> Seq<Seq<u8>> {
    items.map_values(|item: Result<Seq<u8>, Seq<char>>| item->Ok_0)
}

/// The chain and the key of a server: every section of the certificate text
/// must be sound, and there must be a key.
pub open spec fn server_parts(
    items: Seq<Result<Seq<u8>, Seq<char>>>,
    key: Result<Option<(KeyForm, Seq<u8>)>, Seq<char>>,
) -> Result<(Seq<Seq<u8>>, (KeyForm, Seq<u8>)), Failure> {
    if exists|i: int| breaks_at(items, i) {
        Err(Failure::CertPemInvalid(items[choose|i: int| breaks_at(items, i)]->Err_0))
    } else {
        match key {
            Err(e) => Err(Failure::KeyPemInvalid(e)),
            Ok(None) => Err(Failure::NoPrivateKey),
            Ok(Some(k)) => Ok((sound_items(items), k)),
        }
    }
}

/// Puts together the chain and the key of a server from what its texts hold.
pub fn server_identity(
    items: Vec<Result<Vec<u8>, String>>,
    key: Result<Option<KeyDer>, String>,
) -> (r: Result<(Vec<Vec<u8>>, KeyDer), TlsError>)
    ensures
        match r {
            Ok((chain, k)) => server_parts(item_values(items@), pem::key_value(key)) == Ok::<
                _,
                Failure,
            >((chain@.map_values(|der: Vec<u8>| der@), k@)),
            Err(e) => server_parts(item_values(items@), pem::key_value(key)) == Err::<
                (Seq<Seq<u8>>, (KeyForm, Seq<u8>)),
                Failure,
            >(e@),
        },
{
    let ghost values = item_values(items@);
    let mut chain: Vec<Vec<u8>> = Vec::new();
    let mut i: usize = 0;
    while i < items.len()
        invariant
            i <= items@.len(),
            values == item_values(items@),
            chain@.len() == i,
            forall|j: int|
                0 <= j < i ==> #[trigger] values[j] == Ok::<Seq<u8>, Seq<char>>(chain@[j]@),
        decreases items@.len() - i,
    {
        assert(values[i as int] == pem::item_value(items@[i as int]));
        match &items[i] {
            Ok(der) => {
                chain.push(der.clone());
            },
            Err(e) => {
                proof {
                    assert(breaks_at(values, i as int));
                    let k = choose|k: int| breaks_at(values, k);
                    assert(values[k] is Err);
                    assert(k == i);
                }
                return Err(TlsError::CertPemInvalid(e.clone()));
            },
        }
        i = i + 1;
    }
    match key {
        Err(e) => Err(TlsError::KeyPemInvalid(e)),
        Ok(None) => Err(TlsError::NoPrivateKey),
        Ok(Some(k)) => {
            assert(sound_items(values) =~= chain@.map_values(|der: Vec<u8>| der@));
            Ok((chain, k))
        },
    }
}

/// How making a server of the texts of its certificate and key may turn out:
/// the server has the chain and the key that the texts hold.
pub open spec fn configured(p: PemTexts, r: Result<Arc<ServerConfig>, TlsError>) -> bool {
    match server_parts(pem::pem_certs(p.cert), pem::pem_key(p.key)) {
        Ok((chain, (form, key))) => match r {
            Ok(config) => pem::server_made(chain, form, key, Ok(*config)),
            Err(e) => e@ matches Failure::ConfigRejected(cause) && pem::server_made(
                chain,
                form,
                key,
                Err(cause),
            ),
        },
        Err(e) => r matches Err(f) && f@ == e,
    }
}

/// How making a server for an address may turn out: of the server certificate
/// that was loaded or issued.
pub open spec fn server_step(
    before: cache::DirState,
    active: Ipv4,
    ips: Seq<Ipv4>,
    now: int,
    after: cache::DirState,
    r: Result<Arc<ServerConfig>, TlsError>,
) -> bool {
    exists|pems: Result<PemTexts, Failure>| #[trigger]
        load_step(before, active, ips, now, after, pems) && match pems {
            Ok(p) => configured(p, r),
            Err(e) => r matches Err(f) && f@ == e,
        }
}

/// Makes a server of the texts of its certificate and key.
pub fn configure(pems: &Pems) -> (r: Result<Arc<ServerConfig>, TlsError>)
    ensures
        configured(pems@, r),
{
    let items = pem::read_certs(pems.cert.as_str());
    let key = pem::read_key(pems.key.as_str());
    let (chain, key) = match server_identity(items, key) {
        Ok(parts) => parts,
        Err(e) => {
            return Err(e);
        },
    };
    match pem::make_config(chain, key) {
        Ok(config) => Ok(Arc::new(config)),
        Err(e) => Err(TlsError::ConfigRejected(e)),
    }
}

/// Loads or issues a server certificate for the address and makes a server of
/// it.
pub fn server_config(dir: &mut CacheDir, ip: Ipv4, candidates: &Vec<Ipv4>, now: i64) -> (r: Result<
    Arc<ServerConfig>,
    TlsError,
>)
    requires
        issue_needed(old(dir)@.files, ip, now as int) ==> issue::issuable_at(now as int),
    ensures
        exists|ips: Seq<Ipv4>| #[trigger]
            covers(ips, candidates@, ip) && server_step(
                old(dir)@,
                ip,
                ips,
                now as int,
                final(dir)@,
                r,
            ),
{
    match load_or_generate_in(dir, ip, candidates, now) {
        Ok(pems) => configure(&pems),
        Err(e) => Err(e),
    }
}

/// Issuing and recording a server certificate does not touch the root: where a
/// file of the root was there, both files stay as they were, whatever the
/// outcome.
pub proof fn root_is_never_rotated(
    before: cache::DirState,
    active: Ipv4,
    ips: Seq<Ipv4>,
    now: int,
    after: cache::DirState,
    r: Result<PemTexts, Failure>,
)
    requires
        load_step(before, active, ips, now, after, r),
        !(before.files[CacheFile::CaCert] is Absent) || !(before.files[CacheFile::CaKey] is Absent),
    ensures
        after.files[CacheFile::CaCert] == before.files[CacheFile::CaCert],
        after.files[CacheFile::CaKey] == before.files[CacheFile::CaKey],
{
}

/// Once the root was loaded or made, every later load gives the same root and
/// writes nothing, also where server certificates were loaded or issued in
/// between.
pub proof fn root_is_stable(
    first: cache::DirState,
    now: int,
    second: cache::DirState,
    ca: PemTexts,
    active: Ipv4,
    ips: Seq<Ipv4>,
    between: int,
    third: cache::DirState,
    leaf: Result<PemTexts, Failure>,
    later: int,
    fourth: cache::DirState,
    r: Result<PemTexts, Failure>,
)
    requires
        root_step(first, now, second, Ok(ca)),
        load_step(second, active, ips, between, third, leaf),
        root_step(third, later, fourth, r),
    ensures
        fourth == third,
        r == Ok::<PemTexts, Failure>(ca),
{
    assert(second.files[CacheFile::CaCert] == cache::Content::Text(ca.cert));
    assert(second.files[CacheFile::CaKey] == cache::Content::Text(ca.key));
    root_is_never_rotated(second, active, ips, between, third, leaf);
}

/// Where one file of the root is missing nothing is written, and that is what
/// the error says.
pub proof fn incomplete_root_is_left_alone(
    before: cache::DirState,
    active: Ipv4,
    ips: Seq<Ipv4>,
    now: int,
    after: cache::DirState,
    r: Result<PemTexts, Failure>,
)
    requires
        load_step(before, active, ips, now, after, r),
        (before.files[CacheFile::CaCert] is Absent) != (before.files[CacheFile::CaKey] is Absent),
    ensures
        after == before,
        r == Err::<PemTexts, Failure>(Failure::IncompleteCa),
{
}

/// The list of addresses reads back: one dotted text on each line.
proof fn lemma_list_reads_back(ips: Seq<Ipv4>)
    requires
        ips.len() > 0,
    ensures
        text::lines(text::joined(address::dotted_texts(ips)) + seq!['\n'])
            == address::dotted_texts(ips),
{
    let texts = address::dotted_texts(ips);
    assert forall|i: int| 0 <= i < texts.len() implies !(#[trigger] texts[i]).contains('\n')
        && text::without_carriage_return(texts[i]) == texts[i] by {
        assert(texts[i] == ips[i].dotted());
        address::dotted_is_plain(ips[i]);
    }
    text::lines_read_back(texts);
}

/// A recorded server certificate can be used for exactly the addresses it
/// covers, until it is due for renewal.
pub proof fn recorded_leaf_is_usable(
    dir: cache::DirState,
    p: PemTexts,
    ips: Seq<Ipv4>,
    now: int,
    active: Ipv4,
    later: int,
)
    requires
        issue::issuable_at(now),
        ips.len() > 0,
    ensures
        leaf_usable(recorded(dir, p, ips, now).files, active, later) <==> ips.contains(active)
            && later < now + LEAF_RENEW_AFTER_DAYS * DAY,
{
    let files = recorded(dir, p, ips, now).files;
    let texts = address::dotted_texts(ips);
    lemma_list_reads_back(ips);
    text::number_reads_back(now + LEAF_RENEW_AFTER_DAYS * DAY);
    assert(text::trimmed("2\n"@) == "2"@) by {
        reveal_strlit("2\n");
        reveal_strlit("2");
        assert("2\n"@ =~= "2"@ + seq!['\n']);
        text::trimmed_line_reads_back("2"@);
    }
    let list = files[CacheFile::IpList].or_empty();
    assert(text::lines(list) == texts);
    assert forall|i: int| 0 <= i < texts.len() implies text::trimmed(#[trigger] texts[i])
        == ips[i].dotted() by {
        assert(texts[i] == ips[i].dotted());
        address::dotted_is_plain(ips[i]);
        text::trimmed_line_reads_back(texts[i]);
    }
    if ips.contains(active) {
        let i = choose|i: int| 0 <= i < ips.len() && ips[i] == active;
        assert(text::trimmed(text::lines(list)[i]) == active.dotted());
        assert(lists_address(list, active));
    }
    if lists_address(list, active) {
        let i = choose|i: int|
            0 <= i < text::lines(list).len() && text::trimmed(#[trigger] text::lines(list)[i])
                == active.dotted();
        assert(texts[i] == text::lines(list)[i]);
        address::dotted_is_injective(ips[i], active);
        assert(ips.contains(active));
    }
}

/// A server certificate that is issued for an address names that address, the
/// loopback address and `localhost`.
pub proof fn issued_leaf_names_the_address(
    candidates: Seq<Ipv4>,
    active: Ipv4,
    ips: Seq<Ipv4>,
    now: int,
)
    requires
        covers(ips, candidates, active),
    ensures
        issue::leaf_fields(ips, now).alt_names.contains(active.dotted()),
        issue::leaf_fields(ips, now).alt_names.contains(address::loopback().dotted()),
        issue::leaf_fields(ips, now).alt_names.contains("localhost"@),
{
    let names = issue::leaf_fields(ips, now).alt_names;
    assert(ips.contains(active));
    assert(ips.contains(address::loopback()));
    let i = choose|i: int| 0 <= i < ips.len() && ips[i] == active;
    let j = choose|j: int| 0 <= j < ips.len() && ips[j] == address::loopback();
    assert(names[i] == active.dotted());
    assert(names[j] == address::loopback().dotted());
    assert(names[ips.len() as int] == "localhost"@);
}

/// As long as a recorded server certificate is used it is valid: it is replaced
/// before it expires.
pub proof fn used_leaf_is_valid(
    dir: cache::DirState,
    p: PemTexts,
    ips: Seq<Ipv4>,
    now: int,
    active: Ipv4,
    later: int,
)
    requires
        issue::issuable_at(now),
        ips.len() > 0,
        now <= later,
        leaf_usable(recorded(dir, p, ips, now).files, active, later),
    ensures
        issue::leaf_fields(ips, now).not_before <= later < issue::leaf_fields(ips, now).not_after,
{
    recorded_leaf_is_usable(dir, p, ips, now, active, later);
}

/// A new root touches no file of the server certificate.
proof fn lemma_root_step_keeps_leaf(
    before: cache::DirState,
    now: int,
    mid: cache::DirState,
    root: Result<PemTexts, Failure>,
    active: Ipv4,
    at: int,
)
    requires
        root_step(before, now, mid, root),
    ensures
        leaf_usable(mid.files, active, at) == leaf_usable(before.files, active, at),
{
    assert(mid.files[CacheFile::Version] == before.files[CacheFile::Version]);
    assert(mid.files[CacheFile::IpList] == before.files[CacheFile::IpList]);
    assert(mid.files[CacheFile::RenewAt] == before.files[CacheFile::RenewAt]);
    assert(mid.files[CacheFile::Cert] == before.files[CacheFile::Cert]);
    assert(mid.files[CacheFile::Key] == before.files[CacheFile::Key]);
}

/// A load is made of a step for the root and one for the server certificate, and
/// the first leaves open whether the second can use the one that is there.
proof fn lemma_load_splits(
    before: cache::DirState,
    active: Ipv4,
    ips: Seq<Ipv4>,
    now: int,
    after: cache::DirState,
    r: Result<PemTexts, Failure>,
) -> (s: (cache::DirState, Result<PemTexts, Failure>))
    requires
        load_step(before, active, ips, now, after, r),
    ensures
        root_step(before, now, s.0, s.1),
        match s.1 {
            Ok(ca) => leaf_step(s.0, ca, active, ips, now, after, r),
            Err(e) => after == s.0 && r == Err::<PemTexts, Failure>(e),
        },
        leaf_usable(s.0.files, active, now) == leaf_usable(before.files, active, now),
{
    let (mid, root) = choose|mid: cache::DirState, root: Result<PemTexts, Failure>| #[trigger]
        root_step(before, now, mid, root) && match root {
            Ok(ca) => leaf_step(mid, ca, active, ips, now, after, r),
            Err(e) => after == mid && r == Err::<PemTexts, Failure>(e),
        };
    lemma_root_step_keeps_leaf(before, now, mid, root, active, now);
    (mid, root)
}

/// A server certificate that was issued for an address is handed out again,
/// unchanged and without a write, for every address it covers, until it is due
/// for renewal.
pub proof fn issued_leaf_is_reused(
    first: cache::DirState,
    active: Ipv4,
    ips: Seq<Ipv4>,
    now: int,
    second: cache::DirState,
    p: PemTexts,
    other: Ipv4,
    other_ips: Seq<Ipv4>,
    later: int,
    third: cache::DirState,
    r: Result<PemTexts, Failure>,
)
    requires
        issue::issuable_at(now),
        load_step(first, active, ips, now, second, Ok(p)),
        !leaf_usable(first.files, active, now),
        ips.contains(other),
        later < now + LEAF_RENEW_AFTER_DAYS * DAY,
        load_step(second, other, other_ips, later, third, r),
    ensures
        third == second,
        r == Ok::<PemTexts, Failure>(p),
{
    let (mid, root) = lemma_load_splits(first, active, ips, now, second, Ok(p));
    assert(second == recorded(mid, p, ips, now));
    recorded_leaf_is_usable(mid, p, ips, now, other, later);
}

/// Loading twice at one moment gives the same server certificate twice, and the
/// second time writes nothing.
pub proof fn loading_twice_is_loading_once(
    first: cache::DirState,
    active: Ipv4,
    ips: Seq<Ipv4>,
    now: int,
    second: cache::DirState,
    p: PemTexts,
    other_ips: Seq<Ipv4>,
    third: cache::DirState,
    r: Result<PemTexts, Failure>,
)
    requires
        issue_needed(first.files, active, now) ==> issue::issuable_at(now),
        load_step(first, active, ips, now, second, Ok(p)),
        ips.contains(active),
        load_step(second, active, other_ips, now, third, r),
    ensures
        third == second,
        r == Ok::<PemTexts, Failure>(p),
{
    let (mid, root) = lemma_load_splits(first, active, ips, now, second, Ok(p));
    if !leaf_usable(first.files, active, now) {
        issued_leaf_is_reused(
            first,
            active,
            ips,
            now,
            second,
            p,
            active,
            other_ips,
            now,
            third,
            r,
        );
    }
}

/// Two server certificates of one root differ where the second covers an
/// address that the first does not, or was issued later.
proof fn lemma_other_leaf_differs(
    ca: PemTexts,
    ips: Seq<Ipv4>,
    now: int,
    p: PemTexts,
    other: Ipv4,
    other_ips: Seq<Ipv4>,
    later: int,
    q: PemTexts,
)
    requires
        leaf_issued(ca, ips, now, p),
        leaf_issued(ca, other_ips, later, q),
        other_ips.contains(other),
        !ips.contains(other) || later > now,
    ensures
        q.cert != p.cert,
{
    let fields = issue::leaf_fields(ips, now);
    let other_fields = issue::leaf_fields(other_ips, later);
    let leaf = choose|leaf: Seq<char>| leaf_of(ca, ips, now, p, leaf);
    let other_leaf = choose|leaf: Seq<char>| leaf_of(ca, other_ips, later, q, leaf);
    if q.cert == p.cert {
        assert(p.cert == leaf + seq!['\n'] + ca.cert);
        assert(q.cert == other_leaf + seq!['\n'] + ca.cert);
        assert(p.cert.len() == leaf.len() + 1 + ca.cert.len());
        assert(leaf.len() == other_leaf.len());
        assert(leaf =~= p.cert.take(leaf.len() as int));
        assert(other_leaf =~= q.cert.take(leaf.len() as int));
        assert(fields.alt_names == other_fields.alt_names);
        assert(fields.not_after == other_fields.not_after);
        let i = choose|i: int| 0 <= i < other_ips.len() && other_ips[i] == other;
        assert(other_fields.alt_names[i] == other.dotted());
        assert(fields.alt_names.len() == ips.len() + 1);
        assert(other_fields.alt_names.len() == other_ips.len() + 1);
        assert(fields.alt_names[i] == ips[i].dotted());
        address::dotted_is_injective(ips[i], other);
    }
}

/// For an address that the recorded server certificate does not cover, or once
/// it is due for renewal, a new one is issued by the same root and recorded: a
/// different one.
pub proof fn uncovered_address_gets_a_new_leaf(
    first: cache::DirState,
    active: Ipv4,
    ips: Seq<Ipv4>,
    now: int,
    second: cache::DirState,
    p: PemTexts,
    other: Ipv4,
    other_ips: Seq<Ipv4>,
    later: int,
    third: cache::DirState,
    q: PemTexts,
)
    requires
        issue::issuable_at(now),
        load_step(first, active, ips, now, second, Ok(p)),
        !leaf_usable(first.files, active, now),
        ips.contains(active),
        !ips.contains(other) || later >= now + LEAF_RENEW_AFTER_DAYS * DAY,
        other_ips.contains(other),
        load_step(second, other, other_ips, later, third, Ok(q)),
    ensures
        second.files[CacheFile::CaCert] is Text,
        second.files[CacheFile::CaKey] is Text,
        leaf_issued(
            PemTexts {
                cert: second.files[CacheFile::CaCert].or_empty(),
                key: second.files[CacheFile::CaKey].or_empty(),
            },
            other_ips,
            later,
            q,
        ),
        third == recorded(second, q, other_ips, later),
        q.cert != p.cert,
{
    let (mid, root) = lemma_load_splits(first, active, ips, now, second, Ok(p));
    assert(second == recorded(mid, p, ips, now));
    recorded_leaf_is_usable(mid, p, ips, now, other, later);
    lemma_other_leaf_differs(root->Ok_0, ips, now, p, other, other_ips, later, q);
}

/// After a server certificate was issued for one address, loading one for an
/// address that it does not cover leaves both files of the root as they were,
/// whatever the outcome. Where it succeeds the certificate is another one, and
/// the list names the new address on a line of its own; where it fails nothing
/// is written.
pub proof fn second_address_keeps_the_root(
    first: cache::DirState,
    active: Ipv4,
    ips: Seq<Ipv4>,
    now: int,
    second: cache::DirState,
    p: PemTexts,
    other: Ipv4,
    other_ips: Seq<Ipv4>,
    later: int,
    third: cache::DirState,
    r: Result<PemTexts, Failure>,
)
    requires
        issue::issuable_at(now),
        load_step(first, active, ips, now, second, Ok(p)),
        !leaf_usable(first.files, active, now),
        ips.contains(active),
        !ips.contains(other),
        other_ips.contains(other),
        load_step(second, other, other_ips, later, third, r),
    ensures
        second.files[CacheFile::CaCert] is Text,
        second.files[CacheFile::CaKey] is Text,
        third.files[CacheFile::CaCert] == second.files[CacheFile::CaCert],
        third.files[CacheFile::CaKey] == second.files[CacheFile::CaKey],
        match r {
            Ok(q) => q.cert != p.cert && text::lines(
                third.files[CacheFile::IpList].or_empty(),
            ).contains(other.dotted()),
            Err(_) => third == second,
        },
{
    let (mid, root) = lemma_load_splits(first, active, ips, now, second, Ok(p));
    assert(second == recorded(mid, p, ips, now));
    recorded_leaf_is_usable(mid, p, ips, now, other, later);
    root_is_never_rotated(second, other, other_ips, later, third, r);
    if r is Ok {
        let q = r->Ok_0;
        uncovered_address_gets_a_new_leaf(
            first,
            active,
            ips,
            now,
            second,
            p,
            other,
            other_ips,
            later,
            third,
            q,
        );
        let texts = address::dotted_texts(other_ips);
        lemma_list_reads_back(other_ips);
        let i = choose|i: int| 0 <= i < other_ips.len() && other_ips[i] == other;
        assert(texts[i] == other.dotted());
    }
}

/// Once a server certificate was loaded or issued for an address, loading again
/// before it is due for renewal gives the same one, which is what the two files
/// hold, and writes nothing.
pub proof fn loaded_leaf_is_reused(
    first: cache::DirState,
    active: Ipv4,
    ips: Seq<Ipv4>,
    now: int,
    second: cache::DirState,
    p: PemTexts,
    other_ips: Seq<Ipv4>,
    later: int,
    third: cache::DirState,
    r: Result<PemTexts, Failure>,
)
    requires
        issue_needed(first.files, active, now) ==> issue::issuable_at(now),
        load_step(first, active, ips, now, second, Ok(p)),
        ips.contains(active),
        later < renewal_moment(second.files[CacheFile::RenewAt].or_empty()),
        load_step(second, active, other_ips, later, third, r),
    ensures
        second.files[CacheFile::Cert] == cache::Content::Text(p.cert),
        second.files[CacheFile::Key] == cache::Content::Text(p.key),
        third == second,
        r == Ok::<PemTexts, Failure>(p),
{
    let (mid, root) = lemma_load_splits(first, active, ips, now, second, Ok(p));
    if !leaf_usable(first.files, active, now) {
        assert(second == recorded(mid, p, ips, now));
        text::number_reads_back(now + LEAF_RENEW_AFTER_DAYS * DAY);
        recorded_leaf_is_usable(mid, p, ips, now, active, later);
    }
    assert(leaf_usable(second.files, active, later));
}

/// A server that is made for an address after a certificate was loaded or
/// issued for it, and before that is due for renewal, is made of exactly what
/// the files of the certificate and its key hold, and nothing is written.
pub proof fn server_uses_the_files(
    first: cache::DirState,
    active: Ipv4,
    ips: Seq<Ipv4>,
    now: int,
    second: cache::DirState,
    p: PemTexts,
    other_ips: Seq<Ipv4>,
    later: int,
    third: cache::DirState,
    r: Result<Arc<ServerConfig>, TlsError>,
)
    requires
        issue_needed(first.files, active, now) ==> issue::issuable_at(now),
        load_step(first, active, ips, now, second, Ok(p)),
        ips.contains(active),
        later < renewal_moment(second.files[CacheFile::RenewAt].or_empty()),
        server_step(second, active, other_ips, later, third, r),
    ensures
        second.files[CacheFile::Cert] == cache::Content::Text(p.cert),
        second.files[CacheFile::Key] == cache::Content::Text(p.key),
        third == second,
        configured(p, r),
{
    let pems = choose|pems: Result<PemTexts, Failure>| #[trigger]
        load_step(second, active, other_ips, later, third, pems) && match pems {
            Ok(q) => configured(q, r),
            Err(e) => r matches Err(f) && f@ == e,
        };
    loaded_leaf_is_reused(first, active, ips, now, second, p, other_ips, later, third, pems);
}

/// A server that is made of a server certificate as it was issued presents that
/// certificate, with what the text of the root holds behind it, and signs with
/// the private key that was made for the certificate. It can only fail where
/// the chain and the key are refused, or the text of the root is broken.
pub proof fn issued_server_has_the_issued_key(
    ca: PemTexts,
    ips: Seq<Ipv4>,
    now: int,
    p: PemTexts,
    r: Result<Arc<ServerConfig>, TlsError>,
) -> (leaf: Seq<char>)
    requires
        leaf_issued(ca, ips, now, p),
        p.cert.len() <= pem::SECTION_LIMIT,
        configured(p, r),
    ensures
        leaf_of(ca, ips, now, p, leaf),
        pem::one_certificate(leaf),
        issue::key_made(KeyOwner::Leaf, Ok(issue::key_in(p.key))),
        ({
            let items = pem::pem_certs(leaf) + pem::pem_certs(ca.cert);
            let key = issue::key_in(p.key);
            match r {
                Ok(config) => pem::server_made(
                    sound_items(items),
                    KeyForm::Pkcs8,
                    key,
                    Ok(*config),
                ),
                Err(e) => match e@ {
                    Failure::ConfigRejected(cause) => pem::server_made(
                        sound_items(items),
                        KeyForm::Pkcs8,
                        key,
                        Err(cause),
                    ),
                    Failure::CertPemInvalid(_) => exists|i: int|
                        breaks_at(pem::pem_certs(ca.cert), i),
                    _ => false,
                },
            }
        }),
{
    let leaf = choose|leaf: Seq<char>| leaf_of(ca, ips, now, p, leaf);
    let items = pem::pem_certs(leaf) + pem::pem_certs(ca.cert);
    assert(p.cert.len() == leaf.len() + 1 + ca.cert.len());
    assert(pem::pem_certs(p.cert) == items);
    if exists|i: int| breaks_at(items, i) {
        let i = choose|i: int| breaks_at(items, i);
        let rest = pem::pem_certs(ca.cert);
        assert(rest[i - 1] == items[i]);
        assert forall|j: int| 0 <= j < i - 1 implies (#[trigger] rest[j]) is Ok by {
            assert(items[j + 1] == rest[j]);
        }
        assert(breaks_at(rest, i - 1));
    }
    leaf
}

/// A server that is made of a server certificate as it was issued by a root as
/// it was made presents the two certificates, and nothing is broken.
pub proof fn fresh_server_presents_leaf_and_root(
    made: int,
    ca: PemTexts,
    ips: Seq<Ipv4>,
    now: int,
    p: PemTexts,
    r: Result<Arc<ServerConfig>, TlsError>,
) -> (leaf: Seq<char>)
    requires
        root_made(made, ca),
        leaf_issued(ca, ips, now, p),
        p.cert.len() <= pem::SECTION_LIMIT,
        configured(p, r),
    ensures
        leaf_of(ca, ips, now, p, leaf),
        ({
            let chain = seq![pem::pem_certs(leaf)[0]->Ok_0, pem::pem_certs(ca.cert)[0]->Ok_0];
            let key = issue::key_in(p.key);
            match r {
                Ok(config) => pem::server_made(chain, KeyForm::Pkcs8, key, Ok(*config)),
                Err(e) => e@ matches Failure::ConfigRejected(cause) && pem::server_made(
                    chain,
                    KeyForm::Pkcs8,
                    key,
                    Err(cause),
                ),
            }
        }),
{
    let leaf = issued_server_has_the_issued_key(ca, ips, now, p, r);
    let items = pem::pem_certs(leaf) + pem::pem_certs(ca.cert);
    assert(p.cert.len() == leaf.len() + 1 + ca.cert.len());
    assert(sound_items(items) =~= seq![
        pem::pem_certs(leaf)[0]->Ok_0,
        pem::pem_certs(ca.cert)[0]->Ok_0,
    ]);
    leaf
}

/// A root that was made can be handed out: its text holds a certificate.
pub proof fn made_root_is_handed_out(now: int, ca: PemTexts)
    requires
        root_made(now, ca),
        ca.cert.len() <= pem::SECTION_LIMIT,
    ensures
        first_der(pem::pem_certs(ca.cert)) is Ok,
{
}

/// One private key stands behind a root that was made and every server
/// certificate that it issues: it signed both.
pub proof fn root_key_signs_root_and_leaf(
    made: int,
    ca: PemTexts,
    ips: Seq<Ipv4>,
    now: int,
    p: PemTexts,
) -> (leaf: Seq<char>)
    requires
        root_made(made, ca),
        leaf_issued(ca, ips, now, p),
    ensures
        issue::self_signed(issue::root_fields(made), issue::key_in(ca.key), Ok(ca.cert)),
        issue::signed_by(
            issue::leaf_fields(ips, now),
            issue::key_in(p.key),
            issue::root_fields(now),
            issue::key_in(ca.key),
            Ok(leaf),
        ),
        p.cert == leaf + seq!['\n'] + ca.cert,
{
    choose|leaf: Seq<char>| leaf_of(ca, ips, now, p, leaf)
}

/// A load that was carried out: for which address and addresses, when, what it
/// left behind and what it came to.
pub struct Load {
    pub active: Ipv4,
    pub ips: Seq<Ipv4>,
    pub now: int,
    pub after: cache::DirState,
    pub r: Result<PemTexts, Failure>,
}

/// The directory that the loads left behind.
pub open spec fn after_loads(before: cache::DirState, loads: Seq<Load>) -> cache::DirState {
    if loads.len() == 0 {
        before
    } else {
        loads.last().after
    }
}

/// Whether the loads may have been carried out one after the other.
pub open spec fn loaded(before: cache::DirState, loads: Seq<Load>) -> bool
    decreases loads.len(),
{
    loads.len() == 0 || {
        let load = loads.last();
        &&& loaded(before, loads.drop_last())
        &&& load_step(
            after_loads(before, loads.drop_last()),
            load.active,
            load.ips,
            load.now,
            load.after,
            load.r,
        )
    }
}

/// However many server certificates are loaded or issued, the root stays as it
/// is.
pub proof fn root_outlives_all_loads(before: cache::DirState, ca: PemTexts, loads: Seq<Load>)
    requires
        before.files[CacheFile::CaCert] == cache::Content::Text(ca.cert),
        before.files[CacheFile::CaKey] == cache::Content::Text(ca.key),
        loaded(before, loads),
    ensures
        after_loads(before, loads).files[CacheFile::CaCert] == cache::Content::Text(ca.cert),
        after_loads(before, loads).files[CacheFile::CaKey] == cache::Content::Text(ca.key),
    decreases loads.len(),
{
    if loads.len() > 0 {
        let load = loads.last();
        let rest = loads.drop_last();
        root_outlives_all_loads(before, ca, rest);
        root_is_never_rotated(
            after_loads(before, rest),
            load.active,
            load.ips,
            load.now,
            load.after,
            load.r,
        );
    }
}

/// Where there is no root, a load that succeeds makes one and keeps it, and
/// issues the server certificate from it unless there is one that can be used.
pub proof fn first_load_makes_the_root(
    before: cache::DirState,
    active: Ipv4,
    ips: Seq<Ipv4>,
    now: int,
    after: cache::DirState,
    p: PemTexts,
) -> (ca: PemTexts)
    requires
        load_step(before, active, ips, now, after, Ok(p)),
        root_missing(before.files),
    ensures
        root_made(now, ca),
        after.files[CacheFile::CaCert] == cache::Content::Text(ca.cert),
        after.files[CacheFile::CaKey] == cache::Content::Text(ca.key),
        !leaf_usable(before.files, active, now) ==> leaf_issued(ca, ips, now, p),
{
    let (mid, root) = lemma_load_splits(before, active, ips, now, after, Ok(p));
    root->Ok_0
}

/// The root is the identity behind all server certificates to come: once it was
/// made and kept, every certificate that is issued, after however many loads,
/// is signed with the private key that signed the root.
pub proof fn root_signs_every_leaf(
    made: int,
    ca: PemTexts,
    before: cache::DirState,
    loads: Seq<Load>,
    active: Ipv4,
    ips: Seq<Ipv4>,
    now: int,
    after: cache::DirState,
    p: PemTexts,
) -> (leaf: Seq<char>)
    requires
        root_made(made, ca),
        before.files[CacheFile::CaCert] == cache::Content::Text(ca.cert),
        before.files[CacheFile::CaKey] == cache::Content::Text(ca.key),
        loaded(before, loads),
        !leaf_usable(after_loads(before, loads).files, active, now),
        load_step(after_loads(before, loads), active, ips, now, after, Ok(p)),
    ensures
        issue::self_signed(issue::root_fields(made), issue::key_in(ca.key), Ok(ca.cert)),
        issue::signed_by(
            issue::leaf_fields(ips, now),
            issue::key_in(p.key),
            issue::root_fields(now),
            issue::key_in(ca.key),
            Ok(leaf),
        ),
        p.cert == leaf + seq!['\n'] + ca.cert,
        after.files[CacheFile::Cert] == cache::Content::Text(p.cert),
{
    root_outlives_all_loads(before, ca, loads);
    let (mid, root) = lemma_load_splits(after_loads(before, loads), active, ips, now, after, Ok(p));
    root_key_signs_root_and_leaf(made, ca, ips, now, p)
}

/// Whatever the outcome, the pending writes are what changed: made on the files
/// from before, they give the files from after.
pub proof fn load_changes_by_writes(
    before: cache::DirState,
    active: Ipv4,
    ips: Seq<Ipv4>,
    now: int,
    after: cache::DirState,
    r: Result<PemTexts, Failure>,
)
    requires
        load_step(before, active, ips, now, after, r),
    ensures
        cache::by_writes(before, after),
{
    let (mid, root) = lemma_load_splits(before, active, ips, now, after, r);
    root_changes_by_writes(before, now, mid, root);
    if after != mid {
        let p = r->Ok_0;
        let d1 = mid.write(CacheFile::Cert, p.cert);
        let d2 = d1.write(CacheFile::Key, p.key);
        let list = text::joined(address::dotted_texts(ips)) + seq!['\n'];
        let d3 = d2.write(CacheFile::IpList, list);
        let d4 = d3.write(CacheFile::Version, "2\n"@);
        let renew_at = text::signed_decimal(now + LEAF_RENEW_AFTER_DAYS * DAY) + seq!['\n'];
        cache::write_is_by_writes(before, mid, CacheFile::Cert, p.cert);
        cache::write_is_by_writes(before, d1, CacheFile::Key, p.key);
        cache::write_is_by_writes(before, d2, CacheFile::IpList, list);
        cache::write_is_by_writes(before, d3, CacheFile::Version, "2\n"@);
        cache::write_is_by_writes(before, d4, CacheFile::RenewAt, renew_at);
    }
}

/// The same for loading or making the root alone.
pub proof fn root_changes_by_writes(
    before: cache::DirState,
    now: int,
    after: cache::DirState,
    r: Result<PemTexts, Failure>,
)
    requires
        root_step(before, now, after, r),
    ensures
        cache::by_writes(before, after),
{
    cache::unchanged_is_by_writes(before);
    if after != before {
        let ca = r->Ok_0;
        let d1 = before.write(CacheFile::CaCert, ca.cert);
        cache::write_is_by_writes(before, before, CacheFile::CaCert, ca.cert);
        cache::write_is_by_writes(before, d1, CacheFile::CaKey, ca.key);
    }
}

/// What an error says: of an incomplete root it names the directory, of a file
/// that cannot be read it is what the disk said, and of anything else it depends
/// neither on the directory nor on the error behind it.
pub proof fn message_says_what_failed(
    dir: Seq<char>,
    other: Seq<char>,
    file: CacheFile,
    said: Seq<char>,
    f: Failure,
)
    ensures
        Failure::IncompleteCa.message(dir) == "incomplete local CA cache in "@ + dir
            + ": restore the missing file or remove both CA files explicitly"@,
        Failure::Unreadable(file, said).message(dir) == said,
        !(f is IncompleteCa) ==> f.message(dir) == f.message(other),
        Failure::RootPemInvalid(said).message(dir) == Failure::RootPemInvalid(other).message(dir),
        Failure::CertPemInvalid(said).message(dir) == Failure::CertPemInvalid(other).message(dir),
        Failure::KeyPemInvalid(said).message(dir) == Failure::KeyPemInvalid(other).message(dir),
{
}

/// A root of which both files can be read is read as it is, and nothing is
/// written; where one cannot be read, that is the error.
pub proof fn present_root_is_read(
    before: cache::DirState,
    now: int,
    after: cache::DirState,
    r: Result<PemTexts, Failure>,
)
    requires
        root_step(before, now, after, r),
        !(before.files[CacheFile::CaCert] is Absent),
        !(before.files[CacheFile::CaKey] is Absent),
    ensures
        after == before,
        r matches Ok(ca) ==> before.files[CacheFile::CaCert] == cache::Content::Text(ca.cert)
            && before.files[CacheFile::CaKey] == cache::Content::Text(ca.key),
        r is Ok <==> before.files[CacheFile::CaCert] is Text && before.files[CacheFile::CaKey]
            is Text,
        before.files[CacheFile::CaCert] matches cache::Content::Unreadable(e) ==> r == Err::<
            PemTexts,
            Failure,
        >(Failure::Unreadable(CacheFile::CaCert, e)),
        before.files[CacheFile::CaCert] is Text ==> (
        before.files[CacheFile::CaKey] matches cache::Content::Unreadable(e) ==> r == Err::<
            PemTexts,
            Failure,
        >(Failure::Unreadable(CacheFile::CaKey, e))),
{
}

/// Where there is no root, one is made of a key made for it and written to its
/// two files, each with its own text; or it is said why there is none, and
/// nothing is written.
pub proof fn missing_root_is_made(
    before: cache::DirState,
    now: int,
    after: cache::DirState,
    r: Result<PemTexts, Failure>,
)
    requires
        root_step(before, now, after, r),
        root_missing(before.files),
    ensures
        match r {
            Ok(ca) => {
                &&& after.files[CacheFile::CaCert] == cache::Content::Text(ca.cert)
                &&& after.files[CacheFile::CaKey] == cache::Content::Text(ca.key)
                &&& issue::key_made(KeyOwner::Root, Ok(issue::key_in(ca.key)))
                &&& issue::self_signed(
                    issue::root_fields(now),
                    issue::key_in(ca.key),
                    Ok(ca.cert),
                )
            },
            Err(e) => after == before && match e {
                Failure::RootKey(cause) => issue::key_made(KeyOwner::Root, Err(cause)),
                Failure::RootSigning(cause) => exists|key: Seq<u8>|
                    issue::key_made(KeyOwner::Root, Ok(key)) && #[trigger] issue::self_signed(
                        issue::root_fields(now),
                        key,
                        Err(cause),
                    ),
                _ => false,
            },
        },
{
}

/// A server certificate that is in use is on record: the layout is that of this
/// version, the list names the address, the renewal is still to come, and both
/// its files are there. It could have been used at any earlier moment too, and
/// the files of the root do not matter.
pub proof fn usable_leaf_is_on_record(
    files: Map<CacheFile, cache::Content>,
    others: Map<CacheFile, cache::Content>,
    active: Ipv4,
    now: int,
    earlier: int,
)
    requires
        leaf_usable(files, active, now),
        earlier <= now,
        others[CacheFile::Version] == files[CacheFile::Version],
        others[CacheFile::IpList] == files[CacheFile::IpList],
        others[CacheFile::RenewAt] == files[CacheFile::RenewAt],
        !(others[CacheFile::Cert] is Absent),
        !(others[CacheFile::Key] is Absent),
    ensures
        files[CacheFile::Version] is Text,
        text::trimmed(files[CacheFile::Version]->Text_0) == "2"@,
        files[CacheFile::IpList] is Text,
        exists|i: int|
            0 <= i < text::lines(files[CacheFile::IpList]->Text_0).len() && text::trimmed(
                #[trigger] text::lines(files[CacheFile::IpList]->Text_0)[i],
            ) == active.dotted(),
        !(files[CacheFile::Cert] is Absent),
        !(files[CacheFile::Key] is Absent),
        leaf_usable(others, active, earlier),
        now >= 0 ==> (files[CacheFile::RenewAt] matches cache::Content::Text(s) && (
        text::parsed_i64(text::trimmed(s)) matches Some(at) && at > now)),
{
    reveal_strlit("2");
    assert("2"@.len() == 1);
    let empty = Seq::<char>::empty();
    let cut = text::trimming_cuts_white_space(empty);
    assert(text::trimmed(empty).len() == 0);
    assert(text::lines(empty).len() == 0);
    if now >= 0 && !(files[CacheFile::RenewAt] is Text) {
        assert(text::trimmed(empty) =~= empty);
        text::other_texts_are_no_number(empty, 0);
    }
}

/// A server certificate on record that can be used is read as it is, and nothing
/// is written; where a file of it cannot be read, that is the error.
pub proof fn usable_leaf_is_read(
    before: cache::DirState,
    active: Ipv4,
    ips: Seq<Ipv4>,
    now: int,
    after: cache::DirState,
    r: Result<PemTexts, Failure>,
)
    requires
        load_step(before, active, ips, now, after, r),
        leaf_usable(before.files, active, now),
        before.files[CacheFile::CaCert] is Text,
        before.files[CacheFile::CaKey] is Text,
    ensures
        after == before,
        r matches Ok(p) ==> before.files[CacheFile::Cert] == cache::Content::Text(p.cert)
            && before.files[CacheFile::Key] == cache::Content::Text(p.key),
        r is Ok <==> before.files[CacheFile::Cert] is Text && before.files[CacheFile::Key] is Text,
        before.files[CacheFile::Cert] matches cache::Content::Unreadable(e) ==> r == Err::<
            PemTexts,
            Failure,
        >(Failure::Unreadable(CacheFile::Cert, e)),
        before.files[CacheFile::Cert] is Text ==> (
        before.files[CacheFile::Key] matches cache::Content::Unreadable(e) ==> r == Err::<
            PemTexts,
            Failure,
        >(Failure::Unreadable(CacheFile::Key, e))),
{
    let (mid, root) = lemma_load_splits(before, active, ips, now, after, r);
}

/// Something is written only where it has to be: where nothing has to be issued
/// the directory stays as it is, where a load succeeds and something has to be
/// issued it does not, and a load that fails leaves every file of the server
/// certificate alone.
pub proof fn writes_are_made_when_needed(
    before: cache::DirState,
    active: Ipv4,
    ips: Seq<Ipv4>,
    now: int,
    after: cache::DirState,
    r: Result<PemTexts, Failure>,
)
    requires
        load_step(before, active, ips, now, after, r),
    ensures
        !issue_needed(before.files, active, now) ==> after == before,
        issue_needed(before.files, active, now) && r is Ok ==> after.writes.len()
            > before.writes.len(),
        r is Err ==> after.files[CacheFile::Cert] == before.files[CacheFile::Cert]
            && after.files[CacheFile::Key] == before.files[CacheFile::Key]
            && after.files[CacheFile::IpList] == before.files[CacheFile::IpList]
            && after.files[CacheFile::Version] == before.files[CacheFile::Version]
            && after.files[CacheFile::RenewAt] == before.files[CacheFile::RenewAt],
{
    let (mid, root) = lemma_load_splits(before, active, ips, now, after, r);
}

/// A certificate that was issued is written with its key, each to its own file,
/// beside the addresses it covers and the moment of its renewal, 365 days
/// after it was issued.
pub proof fn issued_leaf_is_on_record(
    dir: cache::DirState,
    p: PemTexts,
    ips: Seq<Ipv4>,
    now: int,
)
    requires
        issue::issuable_at(now),
        ips.len() > 0,
    ensures
        ({
            let files = recorded(dir, p, ips, now).files;
            &&& files[CacheFile::Cert] == cache::Content::Text(p.cert)
            &&& files[CacheFile::Key] == cache::Content::Text(p.key)
            &&& text::lines(files[CacheFile::IpList].or_empty()) == address::dotted_texts(ips)
            &&& renewal_moment(files[CacheFile::RenewAt].or_empty()) == now + 365 * 24 * 60 * 60
            &&& files[CacheFile::CaCert] == dir.files[CacheFile::CaCert]
            &&& files[CacheFile::CaKey] == dir.files[CacheFile::CaKey]
        }),
{
    lemma_list_reads_back(ips);
    text::number_reads_back(now + LEAF_RENEW_AFTER_DAYS * DAY);
}

/// A server certificate covers the addresses of the machine, the active one and
/// the loopback address, and names these and `localhost` and nothing else.
pub proof fn leaf_names_what_it_covers(
    candidates: Seq<Ipv4>,
    active: Ipv4,
    ips: Seq<Ipv4>,
    now: int,
    ip: Ipv4,
)
    requires
        covers(ips, candidates, active),
    ensures
        ips.contains(ip) <==> candidates.contains(ip) || ip == active || (ip.a == 127 && ip.b == 0
            && ip.c == 0 && ip.d == 1),
        issue::leaf_fields(ips, now).alt_names.contains(ip.dotted()) <==> ips.contains(ip),
        forall|i: int, j: int|
            0 <= i < j < ips.len() ==> (#[trigger] ips[i]).number() < (#[trigger] ips[j]).number(),
{
    let names = issue::leaf_fields(ips, now).alt_names;
    issue::names_are_the_addresses(ips, ips, now, ip.dotted());
    if ips.contains(ip) {
        let i = choose|i: int| 0 <= i < ips.len() && ips[i] == ip;
        assert(names[i] == ip.dotted());
    }
    if names.contains(ip.dotted()) {
        reveal_strlit("localhost");
        address::dotted_is_plain(ip);
        assert("localhost"@[0] == 'l');
        let i = choose|i: int| 0 <= i < ips.len() && ip.dotted() == (#[trigger] ips[i]).dotted();
        address::dotted_is_injective(ips[i], ip);
    }
}

/// Where issuing fails, the error says which step failed and carries what that
/// step came to: reading the root's key, making the issuer with it, making a
/// key for the certificate, or signing.
pub proof fn issuing_fails_for_a_reason(ca: PemTexts, ips: Seq<Ipv4>, now: int, e: Failure)
    requires
        leaf_failure(ca, ips, now, e),
    ensures
        match e {
            Failure::RootKeyInvalid(cause) => issue::key_read(ca.key, Err(cause)),
            Failure::RootIssuer(cause) => issue::self_signed(
                issue::root_fields(now),
                issue::key_in(ca.key),
                Err(cause),
            ),
            Failure::LeafKey(cause) => issue::key_made(KeyOwner::Leaf, Err(cause)),
            Failure::LeafSigning(cause) => exists|key: Seq<u8>|
                issue::key_made(KeyOwner::Leaf, Ok(key)) && #[trigger] issue::signed_by(
                    issue::leaf_fields(ips, now),
                    key,
                    issue::root_fields(now),
                    issue::key_in(ca.key),
                    Err(cause),
                ),
            _ => false,
        },
        !(e is RootKeyInvalid) ==> issue::key_text(ca.key),
{
}

/// A server certificate that was issued has a key that was made for it, written
/// as it was made.
pub proof fn issued_leaf_has_its_own_key(ca: PemTexts, ips: Seq<Ipv4>, now: int, p: PemTexts)
    requires
        leaf_issued(ca, ips, now, p),
    ensures
        issue::key_made(KeyOwner::Leaf, Ok(issue::key_in(p.key))),
        p.key == issue::key_pem(issue::key_in(p.key)),
        pem::pem_key(p.key) matches Ok(Some((form, key))) && form == KeyForm::Pkcs8 && key
            == issue::key_in(p.key),
{
}

/// What is handed out of a root's text is its first certificate, whatever stands
/// behind it; a text without one, or with a broken one in front, gives none.
pub proof fn first_certificate_counts(
    items: Seq<Result<Seq<u8>, Seq<char>>>,
    der: Seq<u8>,
    said: Seq<char>,
)
    ensures
        first_der(seq![Ok(der)] + items) == Ok::<Seq<u8>, Failure>(der),
        first_der(seq![Err(said)] + items) == Err::<Seq<u8>, Failure>(
            Failure::RootPemInvalid(said),
        ),
        first_der(Seq::empty()) == Err::<Seq<u8>, Failure>(Failure::RootPemEmpty),
{
}

/// A server has every certificate of its text, in order, and the key; the first
/// broken section, a broken key or a missing one leaves it without.
pub proof fn server_has_the_whole_chain(
    items: Seq<Result<Seq<u8>, Seq<char>>>,
    key: Result<Option<(KeyForm, Seq<u8>)>, Seq<char>>,
    i: int,
)
    ensures
        ({
            let parts = server_parts(items, key);
            let sound = forall|j: int| 0 <= j < items.len() ==> (#[trigger] items[j]) is Ok;
            &&& parts is Ok <==> sound && (key matches Ok(Some(_)))
            &&& parts matches Ok((chain, k)) ==> {
                &&& chain.len() == items.len()
                &&& 0 <= i < items.len() ==> items[i] == Ok::<Seq<u8>, Seq<char>>(chain[i])
                &&& key == Ok::<_, Seq<char>>(Some(k))
            }
            &&& sound ==> (key matches Err(said) ==> parts == Err::<
                (Seq<Seq<u8>>, (KeyForm, Seq<u8>)),
                Failure,
            >(Failure::KeyPemInvalid(said)))
            &&& sound && key == Ok::<_, Seq<char>>(None::<(KeyForm, Seq<u8>)>) ==> parts == Err::<
                (Seq<Seq<u8>>, (KeyForm, Seq<u8>)),
                Failure,
            >(Failure::NoPrivateKey)
            &&& 0 <= i < items.len() && (forall|j: int|
                0 <= j < i ==> (#[trigger] items[j]) is Ok) ==> (items[i] matches Err(said)
                ==> parts == Err::<(Seq<Seq<u8>>, (KeyForm, Seq<u8>)), Failure>(
                Failure::CertPemInvalid(said),
            ))
        }),
{
    lemma_broken_item_is_found(items, items.len() as int);
    if exists|k: int| breaks_at(items, k) {
        let k = choose|k: int| breaks_at(items, k);
        assert(items[k] is Err);
        if 0 <= i < items.len() && items[i] is Err && (forall|j: int|
            0 <= j < i ==> (#[trigger] items[j]) is Ok) {
            assert(k == i);
        }
    } else if 0 <= i < items.len() && items[i] is Err && (forall|j: int|
        0 <= j < i ==> (#[trigger] items[j]) is Ok) {
        assert(breaks_at(items, i));
    }
}

proof fn lemma_broken_item_is_found(items: Seq<Result<Seq<u8>, Seq<char>>>, n: int)
    requires
        0 <= n <= items.len(),
    ensures
        (forall|j: int| 0 <= j < n ==> (#[trigger] items[j]) is Ok) || exists|k: int|
            breaks_at(items, k),
    decreases n,
{
    if n > 0 {
        lemma_broken_item_is_found(items, n - 1);
        if items[n - 1] is Err && !(exists|k: int| breaks_at(items, k)) {
            assert(breaks_at(items, n - 1));
        }
    }
}

/// A server is made of exactly what its texts hold, or it is said why not: the
/// texts are broken, or the chain and the key are refused.
pub proof fn server_is_made_of_its_texts(p: PemTexts, r: Result<Arc<ServerConfig>, TlsError>)
    requires
        configured(p, r),
    ensures
        ({
            let parts = server_parts(pem::pem_certs(p.cert), pem::pem_key(p.key));
            match r {
                Ok(config) => parts matches Ok((chain, (form, key))) && pem::server_made(
                    chain,
                    form,
                    key,
                    Ok(*config),
                ),
                Err(e) => match parts {
                    Ok((chain, (form, key))) => e@ matches Failure::ConfigRejected(cause)
                        && pem::server_made(chain, form, key, Err(cause)),
                    Err(f) => e@ == f,
                },
            }
        }),
{
}

/// On Windows only the local application data counts for the directory of the
/// cache; elsewhere the data directory, and the home directory where there is no
/// other.
pub proof fn base_is_that_of_the_system<T>(
    a: T,
    local_app_data: Option<T>,
    data_home: Option<T>,
    home: Option<T>,
)
    ensures
        base_dir(true, Some(a), data_home, home) == Some(a),
        base_dir(true, None, data_home, home) == None::<T>,
        base_dir(false, local_app_data, Some(a), home) == Some(a),
        base_dir(false, local_app_data, None, home) == home,
{
}

/// What is on record decides, and nothing else: a server certificate whose
/// version, addresses and renewal were written with white space around them, or
/// with other lines beside them, can be used all the same.
pub proof fn record_decides(
    files: Map<CacheFile, cache::Content>,
    active: Ipv4,
    now: int,
    version: Seq<char>,
    list: Seq<char>,
    i: int,
    renewal: Seq<char>,
    at: int,
)
    requires
        files[CacheFile::Version] == cache::Content::Text(version),
        files[CacheFile::IpList] == cache::Content::Text(list),
        files[CacheFile::RenewAt] == cache::Content::Text(renewal),
        text::trimmed(version) == "2"@,
        0 <= i < text::lines(list).len(),
        text::trimmed(text::lines(list)[i]) == active.dotted(),
        text::parsed_i64(text::trimmed(renewal)) == Some(at),
        !(files[CacheFile::Cert] is Absent),
        !(files[CacheFile::Key] is Absent),
    ensures
        leaf_usable(files, active, now) <==> now < at,
{
    assert(text::trimmed(text::lines(list)[i]) == active.dotted());
    assert(lists_address(list, active));
}

} // verus!
