//! Certificates: what the local root and the server certificates say, and the
//! calls into `rcgen` that make keys and sign.

use rcgen::{
    BasicConstraints, Certificate, CertificateParams, DnType, ExtendedKeyUsagePurpose, IsCa,
    KeyPair, KeyUsagePurpose,
};
use time::OffsetDateTime;
use vstd::prelude::*;

use crate::address;
use crate::address::Ipv4;
use crate::pem;
use crate::pem::KeyForm;

verus! {

/// Seconds in a day.
pub const DAY: i64 = 86400;

/// Days for which a root certificate is valid.
pub const ROOT_VALIDITY_DAYS: i64 = 7300;

/// Days for which a server certificate is valid.
pub const LEAF_VALIDITY_DAYS: i64 = 397;

/// The first second of year 0, in seconds since the Unix epoch.
pub const EARLIEST: i64 = -62167219200;

/// The last second of year 9999, in seconds since the Unix epoch.
pub const LATEST: i64 = 253402300799;

/// Whether the subject of a certificate may sign certificates itself.
#[derive(Debug, Clone, Copy, PartialEq, Eq, Structural)]
pub enum Authority {
    /// Not a certificate authority.
    EndEntity,
    /// A certificate authority without a limit on the length of the chain.
    Unconstrained,
}

/// What the key of a certificate may be used for.
#[derive(Debug, Clone, Copy, PartialEq, Eq, Structural)]
pub enum KeyUsage {
    DigitalSignature,
    KeyCertSign,
    CrlSign,
}

/// What a certificate may be presented for.
#[derive(Debug, Clone, Copy, PartialEq, Eq, Structural)]
pub enum ExtendedKeyUsage {
    ServerAuth,
}

/// What a certificate is to say. Times are seconds since the Unix epoch.
#[derive(Debug)]
pub struct CertProfile {
    pub common_name: String,
    pub authority: Authority,
    pub key_usages: Vec<KeyUsage>,
    pub extended_key_usages: Vec<ExtendedKeyUsage>,
    pub alt_names: Vec<String>,
    pub not_before: i64,
    pub not_after: i64,
}

/// The contents of a [`CertProfile`].
#[verifier::ext_equal]
pub struct CertFields {
    pub common_name: Seq<char>,
    pub authority: Authority,
    pub key_usages: Seq<KeyUsage>,
    pub extended_key_usages: Seq<ExtendedKeyUsage>,
    pub alt_names: Seq<Seq<char>>,
    pub not_before: int,
    pub not_after: int,
}

impl View for CertProfile {
    type V = CertFields;

    open spec fn view(&self) -> CertFields {
        CertFields {
            common_name: self.common_name@,
            authority: self.authority,
            key_usages: self.key_usages@,
            extended_key_usages: self.extended_key_usages@,
            alt_names: self.alt_names@.map_values(|s: String| s@),
            not_before: self.not_before as int,
            not_after: self.not_after as int,
        }
    }
}

impl CertFields {
    /// Whether both ends of the validity can be written in a certificate.
    pub open spec fn encodable(self) -> bool {
        &&& EARLIEST <= self.not_before <= LATEST
        &&& EARLIEST <= self.not_after <= LATEST
    }

    /// Whether every alternative name is ASCII text without a colon, so that
    /// none of them is an IPv6 address.
    pub open spec fn plain_names(self) -> bool {
        forall|i: int, j: int|
            0 <= i < self.alt_names.len() && 0 <= j < self.alt_names[i].len() ==> is_plain(
                #[trigger] self.alt_names[i][j],
            )
    }
}

/// Whether a character is ASCII and not a colon.
pub open spec fn is_plain(c: char) -> bool {
    (c as u32) < 128 && c != ':'
}

/// The moments at which certificates can be issued: everything they then say
/// can be written in a certificate.
pub open spec fn issuable_at(now: int) -> bool {
    EARLIEST + DAY <= now <= LATEST - ROOT_VALIDITY_DAYS * DAY
}

/// Whether certificates can be issued at `now`.
pub fn can_issue_at(now: i64) -> (r: bool)
    ensures
        r == issuable_at(now as int),
{
    EARLIEST + DAY <= now && now <= LATEST - ROOT_VALIDITY_DAYS * DAY
}

/// What the root certificate says when it is made at `now`.
pub open spec fn root_fields(now: int) -> CertFields {
    CertFields {
        common_name: "mousee local root CA"@,
        authority: Authority::Unconstrained,
        key_usages: seq![KeyUsage::KeyCertSign, KeyUsage::CrlSign, KeyUsage::DigitalSignature],
        extended_key_usages: Seq::empty(),
        alt_names: Seq::empty(),
        not_before: now - DAY,
        not_after: now + ROOT_VALIDITY_DAYS * DAY,
    }
}

/// What a server certificate for the addresses says when it is made at `now`.
pub open spec fn leaf_fields(ips: Seq<Ipv4>, now: int) -> CertFields {
    CertFields {
        common_name: "mousee"@,
        authority: Authority::EndEntity,
        key_usages: seq![KeyUsage::DigitalSignature],
        extended_key_usages: seq![ExtendedKeyUsage::ServerAuth],
        alt_names: address::dotted_texts(ips).push("localhost"@),
        not_before: now - DAY,
        not_after: now + LEAF_VALIDITY_DAYS * DAY,
    }
}

/// The parameters of a root certificate made at `now`.
pub fn ca_params(now: i64) -> (r: CertProfile)
    requires
        issuable_at(now as int),
    ensures
        r@ == root_fields(now as int),
        r@.encodable(),
        r@.plain_names(),
{
    let mut key_usages: Vec<KeyUsage> = Vec::new();
    key_usages.push(KeyUsage::KeyCertSign);
    key_usages.push(KeyUsage::CrlSign);
    key_usages.push(KeyUsage::DigitalSignature);
    let r = CertProfile {
        common_name: "mousee local root CA".to_string(),
        authority: Authority::Unconstrained,
        key_usages,
        extended_key_usages: Vec::new(),
        alt_names: Vec::new(),
        not_before: now - DAY,
        not_after: now + ROOT_VALIDITY_DAYS * DAY,
    };
    assert(r@ =~~= root_fields(now as int));
    r
}

/// The parameters of a server certificate for the addresses, made at `now`.
pub fn leaf_params(ips: &Vec<Ipv4>, now: i64) -> (r: CertProfile)
    requires
        issuable_at(now as int),
    ensures
        r@ == leaf_fields(ips@, now as int),
        r@.encodable(),
        r@.plain_names(),
{
    let mut alt_names: Vec<String> = Vec::new();
    let mut i: usize = 0;
    while i < ips.len()
        invariant
            i <= ips@.len(),
            alt_names@.len() == i,
            forall|j: int| 0 <= j < i ==> (#[trigger] alt_names@[j])@ == ips@[j].dotted(),
        decreases ips@.len() - i,
    {
        alt_names.push(ips[i].to_dotted());
        i = i + 1;
    }
    alt_names.push("localhost".to_string());
    let mut key_usages: Vec<KeyUsage> = Vec::new();
    key_usages.push(KeyUsage::DigitalSignature);
    let mut extended_key_usages: Vec<ExtendedKeyUsage> = Vec::new();
    extended_key_usages.push(ExtendedKeyUsage::ServerAuth);
    let r = CertProfile {
        common_name: "mousee".to_string(),
        authority: Authority::EndEntity,
        key_usages,
        extended_key_usages,
        alt_names,
        not_before: now - DAY,
        not_after: now + LEAF_VALIDITY_DAYS * DAY,
    };
    proof {
        assert(r@ =~~= leaf_fields(ips@, now as int));
        reveal_strlit("localhost");
        assert forall|i: int, j: int|
            0 <= i < r@.alt_names.len() && 0 <= j < r@.alt_names[i].len() implies is_plain(
            #[trigger] r@.alt_names[i][j],
        ) by {
            if i < ips@.len() {
                address::dotted_is_plain(ips@[i]);
                assert(r@.alt_names[i] == ips@[i].dotted());
            }
        }
    }
    r
}

/// The parameters of `rcgen` for a certificate; opaque.
#[verifier::external_type_specification]
#[verifier::external_body]
pub struct ExCertificateParams(rcgen::CertificateParams);

/// A key pair of `rcgen`; opaque.
#[verifier::external_type_specification]
#[verifier::external_body]
pub struct ExKeyPair(rcgen::KeyPair);

/// A certificate of `rcgen`; opaque.
#[verifier::external_type_specification]
#[verifier::external_body]
pub struct ExCertificate(rcgen::Certificate);

/// The error of `rcgen`; opaque.
#[verifier::external_type_specification]
#[verifier::external_body]
pub struct ExRcgenError(rcgen::Error);

/// The fields that `rcgen::CertificateParams` were filled with: `Some` for those
/// that hold what a [`CertProfile`] says, with plain alternative names, and
/// `rcgen`'s defaults in everything else; `None` for any other.
pub uninterp spec fn params_fields(params: CertificateParams) -> Option<CertFields>;

/// The private key of an `rcgen::KeyPair` as PKCS #8 bytes: `Some` for a pair
/// that `generate` or `from_pem` returned, `None` for any other.
pub uninterp spec fn pair_key(pair: KeyPair) -> Option<Seq<u8>>;

/// Whose key is to be made.
#[derive(Debug, Clone, Copy, PartialEq, Eq, Structural)]
pub enum KeyOwner {
    Root,
    Leaf,
}

/// Whether `rcgen::KeyPair::generate` can come to this when a key is to be made
/// for the owner: a new private key, or an error.
pub uninterp spec fn key_made(owner: KeyOwner, key: Result<Seq<u8>, rcgen::Error>) -> bool;

/// The private key that a text holds, where `rcgen::KeyPair::from_pem` reads it:
/// the bytes of its section.
pub uninterp spec fn key_in(pem: Seq<char>) -> Seq<u8>;

/// Whether `rcgen::KeyPair::from_pem` can come to this on the text: that it reads
/// the key, or an error.
pub uninterp spec fn key_read(pem: Seq<char>, read: Result<(), rcgen::Error>) -> bool;

/// What `rcgen::KeyPair::serialize_pem` writes for a private key.
pub uninterp spec fn key_pem(key: Seq<u8>) -> Seq<char>;

/// The fields of the parameters that an `rcgen::Certificate` was made with, as
/// [`params_fields`] has them.
pub uninterp spec fn certificate_fields(cert: Certificate) -> Option<CertFields>;

/// What `rcgen::Certificate::pem` writes for a certificate.
pub uninterp spec fn certificate_pem(cert: Certificate) -> Seq<char>;

/// Whether `rcgen::CertificateParams::self_signed` can come to this for the
/// fields and the private key: the PEM text of a certificate, or an error.
pub uninterp spec fn self_signed(
    fields: CertFields,
    key: Seq<u8>,
    cert: Result<Seq<char>, rcgen::Error>,
) -> bool;

/// Whether `rcgen::CertificateParams::signed_by` can come to this for the
/// fields and the private key of the subject and those of the issuer: the PEM
/// text of a certificate, or an error.
pub uninterp spec fn signed_by(
    fields: CertFields,
    key: Seq<u8>,
    issuer: CertFields,
    issuer_key: Seq<u8>,
    cert: Result<Seq<char>, rcgen::Error>,
) -> bool;

/// The private key that a call came to, or its error.
pub open spec fn key_outcome(r: Result<KeyPair, rcgen::Error>) -> Result<Seq<u8>, rcgen::Error> {
    match r {
        Ok(pair) => Ok(pair_key(pair)->0),
        Err(e) => Err(e),
    }
}

/// Whether a call read a key, or its error.
pub open spec fn read_outcome(r: Result<KeyPair, rcgen::Error>) -> Result<(), rcgen::Error> {
    match r {
        Ok(_) => Ok(()),
        Err(e) => Err(e),
    }
}

/// The PEM text of the certificate that a call came to, or its error.
pub open spec fn pem_outcome(r: Result<Certificate, rcgen::Error>) -> Result<
    Seq<char>,
    rcgen::Error,
> {
    match r {
        Ok(cert) => Ok(certificate_pem(cert)),
        Err(e) => Err(e),
    }
}

/// Whether the text of a signed certificate tells its alternative names and its
/// end from those of other fields.
pub open spec fn tells(cert: Seq<char>, fields: CertFields) -> bool {
    forall|f: CertFields, key: Seq<u8>, issuer: CertFields, issuer_key: Seq<u8>| #[trigger]
        signed_by(f, key, issuer, issuer_key, Ok(cert)) ==> f.alt_names == fields.alt_names
            && f.not_after == fields.not_after
}

/// Whether a text is a private key in PEM that `rcgen::KeyPair::from_pem` can
/// read.
pub open spec fn key_text(pem: Seq<char>) -> bool {
    key_read(pem, Ok(()))
}

/// Calls `rcgen::CertificateParams::new` with the alternative names and fills
/// in the other fields, the times through
/// `time::OffsetDateTime::from_unix_timestamp`. `new` takes a name that reads
/// as an IP address for an address, and any other for a DNS name. It accepts
/// every ASCII name, and without a colon in it a name can only be an IPv4
/// address, which has one text. What is not in the profile keeps `rcgen`'s
/// default.
#[verifier::external_body]
pub(crate) fn to_rcgen(p: &CertProfile) -> (r: Result<CertificateParams, rcgen::Error>)
    requires
        p@.encodable(),
        p@.plain_names(),
    ensures
        r is Ok,
        r matches Ok(params) ==> params_fields(params) == Some(p@),
{
    let mut c = CertificateParams::new(p.alt_names.clone())?;
    c.distinguished_name.push(DnType::CommonName, p.common_name.as_str());
    c.is_ca = match p.authority {
        Authority::EndEntity => IsCa::NoCa,
        Authority::Unconstrained => IsCa::Ca(BasicConstraints::Unconstrained),
    };
    c.key_usages = p.key_usages.iter().map(|u| match u {
        KeyUsage::DigitalSignature => KeyUsagePurpose::DigitalSignature,
        KeyUsage::KeyCertSign => KeyUsagePurpose::KeyCertSign,
        KeyUsage::CrlSign => KeyUsagePurpose::CrlSign,
    }).collect();
    c.extended_key_usages = p.extended_key_usages.iter().map(|u| match u { ExtendedKeyUsage::ServerAuth => ExtendedKeyUsagePurpose::ServerAuth }).collect();
    c.not_before = OffsetDateTime::from_unix_timestamp(p.not_before).unwrap();
    c.not_after = OffsetDateTime::from_unix_timestamp(p.not_after).unwrap();
    Ok(c)
}

/// Calls `rcgen::KeyPair::generate`. The key is random, and there may be none
/// where the system has no random numbers to give. That two keys differ is left
/// unsaid: it rests on chance. The call itself has no argument; the owner is
/// named so that a key that was made for one is not taken for that of another.
#[verifier::external_body]
#[allow(unused_variables)]
pub(crate) fn generate_key(owner: KeyOwner) -> (r: Result<KeyPair, rcgen::Error>)
    ensures
        r matches Ok(pair) ==> pair_key(pair) is Some,
        key_made(owner, key_outcome(r)),
{
    KeyPair::generate()
}

/// Calls `rcgen::KeyPair::from_pem`. Which key it reads depends on the text
/// alone. It draws random numbers too, so a key may still be refused where the
/// system has none to give; a text that is no key is always refused.
#[verifier::external_body]
pub(crate) fn read_key(pem: &str) -> (r: Result<KeyPair, rcgen::Error>)
    ensures
        r matches Ok(pair) ==> pair_key(pair) == Some(key_in(pem@)),
        key_read(pem@, read_outcome(r)),
{
    KeyPair::from_pem(pem)
}

/// Calls `rcgen::KeyPair::serialize_pem`, which writes one section under the
/// heading of PKCS #8. Both `from_pem` and `rustls_pemfile` read the key back
/// from the text.
#[verifier::external_body]
pub(crate) fn write_key(pair: &KeyPair) -> (r: String)
    requires
        pair_key(*pair) is Some,
    ensures
        r@ == key_pem(pair_key(*pair)->0),
        key_in(r@) == pair_key(*pair)->0,
        key_text(r@),
        pem::pem_key(r@) is Ok,
        pem::pem_key(r@)->Ok_0 == Some((KeyForm::Pkcs8, pair_key(*pair)->0)),
{
    pair.serialize_pem()
}

/// Calls `rcgen::CertificateParams::self_signed`. The certificate keeps the
/// parameters. The signature is random, so that there is one is left unsaid.
#[verifier::external_body]
pub(crate) fn sign_self(params: CertificateParams, key: &KeyPair) -> (r: Result<
    Certificate,
    rcgen::Error,
>)
    requires
        params_fields(params) is Some,
        params_fields(params)->0.encodable(),
        pair_key(*key) is Some,
    ensures
        r matches Ok(cert) ==> certificate_fields(cert) == params_fields(params),
        self_signed(params_fields(params)->0, pair_key(*key)->0, pem_outcome(r)),
{
    params.self_signed(key)
}

/// Calls `rcgen::CertificateParams::signed_by`. The certificate holds the
/// alternative names in order and the end of its validity to the second, so its
/// text tells them. The signature is random, so that there is one is left
/// unsaid.
#[verifier::external_body]
pub(crate) fn sign_by(
    params: CertificateParams,
    key: &KeyPair,
    issuer: &Certificate,
    issuer_key: &KeyPair,
) -> (r: Result<Certificate, rcgen::Error>)
    requires
        params_fields(params) is Some,
        params_fields(params)->0.encodable(),
        pair_key(*key) is Some,
        certificate_fields(*issuer) is Some,
        pair_key(*issuer_key) is Some,
    ensures
        signed_by(
            params_fields(params)->0,
            pair_key(*key)->0,
            certificate_fields(*issuer)->0,
            pair_key(*issuer_key)->0,
            pem_outcome(r),
        ),
        r matches Ok(cert) ==> tells(certificate_pem(cert), params_fields(params)->0),
{
    params.signed_by(key, issuer, issuer_key)
}

/// Calls `rcgen::Certificate::pem`, which writes one section under the heading
/// of a certificate. `rustls_pemfile` reads it back, also with more text behind
/// it.
#[verifier::external_body]
pub(crate) fn write_certificate(cert: &Certificate) -> (r: String)
    ensures
        r@ == certificate_pem(*cert),
        pem::reads_back(r@),
{
    cert.pem()
}

/// What a certificate says moves with the moment it is made at and nothing else
/// of it does: it is valid from a day before, the root for twenty years of 365
/// days and a server certificate for 397 days.
pub proof fn validity_moves_with_the_clock(ips: Seq<Ipv4>, now: int, later: int)
    ensures
        root_fields(later) == (CertFields {
            not_before: root_fields(now).not_before + (later - now),
            not_after: root_fields(now).not_after + (later - now),
            ..root_fields(now)
        }),
        leaf_fields(ips, later) == (CertFields {
            not_before: leaf_fields(ips, now).not_before + (later - now),
            not_after: leaf_fields(ips, now).not_after + (later - now),
            ..leaf_fields(ips, now)
        }),
        root_fields(now).not_before == now - 24 * 60 * 60,
        leaf_fields(ips, now).not_before == now - 24 * 60 * 60,
        root_fields(now).not_after == now + 20 * 365 * 24 * 60 * 60,
        leaf_fields(ips, now).not_after == now + 397 * 24 * 60 * 60,
{
}

/// A server certificate names its addresses in order and then `localhost`, and
/// nothing else; the addresses change nothing but the names. The root names
/// nothing.
pub proof fn names_are_the_addresses(ips: Seq<Ipv4>, others: Seq<Ipv4>, now: int, name: Seq<char>)
    ensures
        ({
            let names = leaf_fields(ips, now).alt_names;
            &&& names.len() == ips.len() + 1
            &&& forall|i: int| 0 <= i < ips.len() ==> #[trigger] names[i] == ips[i].dotted()
            &&& names.last() == "localhost"@
            &&& names.contains(name) ==> name == "localhost"@ || exists|i: int|
                0 <= i < ips.len() && name == (#[trigger] ips[i]).dotted()
        }),
        leaf_fields(others, now) == (CertFields {
            alt_names: leaf_fields(others, now).alt_names,
            ..leaf_fields(ips, now)
        }),
        root_fields(now).alt_names.len() == 0,
{
    let names = leaf_fields(ips, now).alt_names;
    if names.contains(name) {
        let i = choose|i: int| 0 <= i < names.len() && names[i] == name;
        if i < ips.len() {
            assert(names[i] == ips[i].dotted());
        }
    }
}

/// The root is an authority that may sign certificates; a server certificate is
/// none, and is for servers only. Each goes by its own name.
pub proof fn only_the_root_may_sign(ips: Seq<Ipv4>, now: int)
    ensures
        root_fields(now).authority == Authority::Unconstrained,
        root_fields(now).key_usages.contains(KeyUsage::KeyCertSign),
        root_fields(now).key_usages.contains(KeyUsage::CrlSign),
        root_fields(now).key_usages.contains(KeyUsage::DigitalSignature),
        root_fields(now).extended_key_usages.len() == 0,
        root_fields(now).common_name == "mousee local root CA"@,
        leaf_fields(ips, now).authority == Authority::EndEntity,
        !leaf_fields(ips, now).key_usages.contains(KeyUsage::KeyCertSign),
        !leaf_fields(ips, now).key_usages.contains(KeyUsage::CrlSign),
        leaf_fields(ips, now).key_usages.contains(KeyUsage::DigitalSignature),
        leaf_fields(ips, now).extended_key_usages.contains(ExtendedKeyUsage::ServerAuth),
        leaf_fields(ips, now).common_name == "mousee"@,
{
    let root = root_fields(now).key_usages;
    assert(root[0] == KeyUsage::KeyCertSign);
    assert(root[1] == KeyUsage::CrlSign);
    assert(root[2] == KeyUsage::DigitalSignature);
    let leaf = leaf_fields(ips, now);
    assert(leaf.key_usages[0] == KeyUsage::DigitalSignature);
    assert(leaf.extended_key_usages[0] == ExtendedKeyUsage::ServerAuth);
}

/// Certificates can be issued exactly at the moments at which everything that a
/// root and a server certificate then say can be written.
pub proof fn issuable_is_encodable(ips: Seq<Ipv4>, now: int)
    ensures
        issuable_at(now) <==> root_fields(now).encodable() && leaf_fields(ips, now).encodable(),
{
}

} // verus!
