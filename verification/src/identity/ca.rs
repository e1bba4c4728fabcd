//! A certificate authority for short-lived workload certificates.
//!
//! There is no revocation: a certificate is valid for 24 hours, and a compromised key is exposed
//! for no longer than that.

use rcgen::{
    BasicConstraints, Certificate, CertificateParams, DistinguishedName, DnType,
    ExtendedKeyUsagePurpose, IsCa, KeyPair, KeyUsagePurpose, SanType, SerialNumber,
};
use time::OffsetDateTime;
use vstd::prelude::*;

use crate::common::constants::cert;
use crate::common::error::{ErrorKind, Fault, InterlinkError};
use crate::common::identity;
use crate::common::identity::{SpiffeId, SpiffeParts};
use crate::common::laws;
use crate::text;
use crate::x509;
use crate::x509::{AltNameValue, Extension};

verus! {

/// The length of a serial number: 160 bits make a collision improbable (RFC 5280).
pub const SERIAL_NUMBER_BYTES: usize = 20;

/// The first second of the year 0 and the last of the year 9999, since 1970: the times that a
/// certificate can carry.
pub const EARLIEST_TIME: i64 = -62_167_219_200;

pub const LATEST_TIME: i64 = 253_402_300_799;

/// `rcgen::KeyPair`.
#[verifier::external_type_specification]
#[verifier::external_body]
pub struct ExKeyPair(rcgen::KeyPair);

/// `rcgen::Certificate`.
#[verifier::external_type_specification]
#[verifier::external_body]
pub struct ExCertificate(rcgen::Certificate);

/// `rcgen::Error`.
#[verifier::external_type_specification]
#[verifier::external_body]
pub struct ExRcgenError(rcgen::Error);

/// `rcgen::CertificateParams`.
#[verifier::external_type_specification]
#[verifier::external_body]
pub struct ExCertificateParams(rcgen::CertificateParams);

/// An attribute of a subject, such as its common name.
#[derive(Debug)]
pub struct Attribute {
    /// The object identifier of its type.
    pub oid: Vec<u64>,
    pub value: String,
}

/// An `Attribute` as a value.
pub struct AttributeParts {
    pub oid: Seq<u64>,
    pub value: Seq<char>,
}

impl View for Attribute {
    type V = AttributeParts;

    open spec fn view(&self) -> AttributeParts {
        AttributeParts { oid: self.oid@, value: self.value@ }
    }
}

/// What every certificate holds, that of an authority as that of a workload.
#[derive(Debug)]
pub struct Profile {
    /// The subject, one attribute after the other.
    pub subject: Vec<Attribute>,
    /// Whether the basic constraints say that this is an authority, with no limit on the length of
    /// the path below it. If not, they say that it is none.
    pub is_ca: bool,
    pub signs_certificates: bool,
    pub signs_data: bool,
    /// The validity, in seconds since 1970.
    pub not_before: i64,
    pub not_after: i64,
}

/// A `Profile` as a value.
pub struct ProfileParts {
    pub subject: Seq<AttributeParts>,
    pub is_ca: bool,
    pub signs_certificates: bool,
    pub signs_data: bool,
    pub not_before: int,
    pub not_after: int,
}

impl View for Profile {
    type V = ProfileParts;

    open spec fn view(&self) -> ProfileParts {
        ProfileParts {
            subject: self.subject@.map_values(|a: Attribute| a@),
            is_ca: self.is_ca,
            signs_certificates: self.signs_certificates,
            signs_data: self.signs_data,
            not_before: self.not_before as int,
            not_after: self.not_after as int,
        }
    }
}

/// A subject name beside the identity.
#[derive(Debug)]
pub struct SubjectName {
    pub text: String,
    /// Whether the text reads as an IP address. Then the name stands in the certificate as one,
    /// else as a DNS name.
    pub is_address: bool,
}

/// A `SubjectName` as a value.
pub struct NameParts {
    pub text: Seq<char>,
    pub is_address: bool,
}

impl View for SubjectName {
    type V = NameParts;

    open spec fn view(&self) -> NameParts {
        NameParts { text: self.text@, is_address: self.is_address }
    }
}

/// Subject names as values.
pub open spec fn name_values(names: Seq<SubjectName>) -> Seq<NameParts> {
    names.map_values(|n: SubjectName| n@)
}

/// What the certificate of a workload holds.
#[derive(Debug)]
pub struct LeafProfile {
    pub profile: Profile,
    /// The identity.
    pub uri: String,
    /// Further subject names.
    pub names: Vec<SubjectName>,
    pub server_auth: bool,
    pub client_auth: bool,
    pub serial: Vec<u8>,
}

/// A `LeafProfile` as a value.
pub struct LeafParts {
    pub profile: ProfileParts,
    pub uri: Seq<char>,
    pub names: Seq<NameParts>,
    pub server_auth: bool,
    pub client_auth: bool,
    pub serial: Seq<u8>,
}

impl View for LeafProfile {
    type V = LeafParts;

    open spec fn view(&self) -> LeafParts {
        LeafParts {
            profile: self.profile@,
            uri: self.uri@,
            names: name_values(self.names@),
            server_auth: self.server_auth,
            client_auth: self.client_auth,
            serial: self.serial@,
        }
    }
}

/// Whether a certificate can carry the validity of a profile.
pub open spec fn datable(profile: ProfileParts) -> bool {
    &&& EARLIEST_TIME <= profile.not_before <= LATEST_TIME
    &&& EARLIEST_TIME <= profile.not_after <= LATEST_TIME
}

/// Whether the object identifiers of a subject can be encoded: there are at least two components,
/// and the first two fit into one number.
pub open spec fn well_formed_oids(profile: ProfileParts) -> bool {
    forall|i: int|
        0 <= i < profile.subject.len() ==> {
            let oid = (#[trigger] profile.subject[i]).oid;
            &&& oid.len() >= 2
            &&& oid[0] < 3
            &&& oid[0] < 2 ==> oid[1] < 40
            &&& oid[1] < 18_446_744_073_709_551_535
        }
}

/// Whether parameters are those of a profile that can be encoded.
pub open spec fn encodable(params: CertificateParams) -> bool {
    exists|profile: ProfileParts, names: Seq<Seq<char>>|
        {
            &&& datable(profile)
            &&& well_formed_oids(profile)
            &&& #[trigger] certificate_params(profile, names) == Ok::<
                CertificateParams,
                rcgen::Error,
            >(params)
        }
}

/// Whether `KeyPair::is_compatible` holds of a key and Ed25519.
pub uninterp spec fn is_ed25519(key: KeyPair) -> bool;

/// Whether `KeyPair::as_remote` finds a key that is held elsewhere.
pub uninterp spec fn is_remote(key: KeyPair) -> bool;

/// A key that Ed25519 signatures are made with here. Such a signature depends on the key and the
/// message alone.
pub open spec fn signs_here(key: KeyPair) -> bool {
    is_ed25519(key) && !is_remote(key)
}

/// `KeyPair::generate_for` makes a random key for the algorithm, and holds it in memory.
#[verifier::external_body]
fn generate_key() -> (key: Result<KeyPair, rcgen::Error>)
    ensures
        key matches Ok(k) ==> is_ed25519(k) && !is_remote(k),
{
    KeyPair::generate_for(&rcgen::PKCS_ED25519)
}

/// A key in PKCS#8, as `KeyPair::serialize_der` gives it.
pub uninterp spec fn key_der(key: KeyPair) -> Seq<u8>;

/// `KeyPair::serialize_der` gives a key in PKCS#8; the bytes depend on the key alone. It panics on
/// a key that is held elsewhere.
#[verifier::external_body]
fn serialize_key(key: &KeyPair) -> (der: Vec<u8>)
    requires
        !is_remote(*key),
    ensures
        der@ == key_der(*key),
{
    key.serialize_der()
}

/// The bytes of a certificate, as `Certificate::der` gives them.
pub uninterp spec fn certificate_bytes(certificate: Certificate) -> Seq<u8>;

/// `Certificate::der` gives the bytes of a certificate; they depend on the certificate alone.
#[verifier::external_body]
fn certificate_der(certificate: &Certificate) -> (der: Vec<u8>)
    ensures
        der@ == certificate_bytes(*certificate),
{
    certificate.der().to_vec()
}

/// What an error says, as its `Display` gives it.
pub uninterp spec fn error_text(error: rcgen::Error) -> Seq<char>;

/// The `Display` of `rcgen::Error` says what went wrong; the text depends on the error alone.
#[verifier::external_body]
fn describe_error(error: &rcgen::Error) -> (message: String)
    ensures
        message@ == error_text(*error),
{
    error.to_string()
}

/// An error as its `Debug` gives it.
pub uninterp spec fn error_form(error: rcgen::Error) -> Seq<char>;

/// The derived `Debug` of `rcgen::Error` shows its variant and fields; the text depends on the
/// error alone.
#[verifier::external_body]
fn show_error(error: &rcgen::Error) -> (message: String)
    ensures
        message@ == error_form(*error),
{
    format!("{error:?}")
}

/// `time::OffsetDateTime::now_utc` reads the clock: the time in seconds since 1970, whatever it
/// is.
#[verifier::external_body]
fn clock() -> (now: i64)
{
    OffsetDateTime::now_utc().unix_timestamp()
}

/// `ring::rand::generate` makes as many random bytes as it is asked for.
#[verifier::external_body]
fn random_serial() -> (serial: Result<Vec<u8>, String>)
    ensures
        serial matches Ok(bytes) ==> bytes@.len() == SERIAL_NUMBER_BYTES,
{
    let bytes = ring::rand::generate::<[u8; SERIAL_NUMBER_BYTES]>(&ring::rand::SystemRandom::new());
    bytes.map(|b| b.expose().to_vec()).map_err(|e| e.to_string())
}

/// Why `Ia5String::try_from` refuses a text.
pub uninterp spec fn ia5_fault(text: Seq<char>) -> Option<rcgen::Error>;

/// `rcgen::Ia5String::try_from` accepts ASCII text and nothing else; the error depends on the text
/// alone.
#[verifier::external_body]
fn check_ia5(text: &str) -> (checked: Result<(), rcgen::Error>)
    ensures
        checked.err() == ia5_fault(text@),
        checked is Ok == vstd::utf8::is_ascii_chars(text@),
{
    rcgen::Ia5String::try_from(text).map(|_| ())
}

/// What `CertificateParams::new` takes a subject name for: an IP address, or else a DNS name.
pub uninterp spec fn name_reading(name: Seq<char>) -> Result<bool, rcgen::Error>;

/// `CertificateParams::new` takes a name that reads as an IP address for one, and any other for a
/// DNS name; it refuses a name that is not ASCII. What it takes a name for depends on the name
/// alone.
#[verifier::external_body]
fn read_name(name: &str) -> (is_address: Result<bool, rcgen::Error>)
    ensures
        is_address == name_reading(name@),
        is_address is Ok == vstd::utf8::is_ascii_chars(name@),
{
    let params = CertificateParams::new(vec![name.to_owned()])?;
    Ok(matches!(params.subject_alt_names.first(), Some(SanType::IpAddress(_))))
}

/// What `CertificateParams::new` makes of subject names, with the fields that a profile holds put
/// in.
pub uninterp spec fn certificate_params(profile: ProfileParts, names: Seq<Seq<char>>) -> Result<
    CertificateParams,
    rcgen::Error,
>;

/// `CertificateParams::new` makes the parameters of a certificate with these subject names. The
/// fields of the profile are put in one for one; the others stay as they are by default. The
/// parameters depend on the profile and the names alone.
#[verifier::external_body]
fn new_params(p: &Profile, names: Vec<String>) -> (params: Result<CertificateParams, rcgen::Error>)
    requires
        datable(p@),
    ensures
        params == certificate_params(p@, text::strings(names@)),
{
    let mut c = CertificateParams::new(names)?;
    c.distinguished_name = DistinguishedName::new();
    for a in &p.subject {
        c.distinguished_name.push(DnType::from_oid(&a.oid), a.value.as_str());
    }
    c.is_ca = match p.is_ca {
        true => IsCa::Ca(BasicConstraints::Unconstrained),
        false => IsCa::ExplicitNoCa,
    };
    c.key_usages.extend(p.signs_certificates.then_some(KeyUsagePurpose::KeyCertSign));
    c.key_usages.extend(p.signs_data.then_some(KeyUsagePurpose::DigitalSignature));
    c.not_before = OffsetDateTime::UNIX_EPOCH + time::Duration::seconds(p.not_before);
    c.not_after = OffsetDateTime::UNIX_EPOCH + time::Duration::seconds(p.not_after);
    Ok(c)
}

/// What `CertificateParams::self_signed` makes of parameters and a key.
pub uninterp spec fn self_signed(params: CertificateParams, key: KeyPair) -> Result<
    Certificate,
    rcgen::Error,
>;

/// `CertificateParams::self_signed` makes a certificate that is signed by its own key. With an
/// Ed25519 key the certificate depends on the parameters and the key alone. It panics on a subject
/// or a validity that can not be encoded.
#[verifier::external_body]
fn sign_root(params: CertificateParams, key: &KeyPair) -> (certificate: Result<
    Certificate,
    rcgen::Error,
>)
    requires
        signs_here(*key),
        encodable(params),
    ensures
        certificate == self_signed(params, *key),
{
    params.self_signed(key)
}

/// Whether an extension is the subject alternative name of a workload: its identity, then the
/// other names, each in its own form.
pub open spec fn carries(extension: Extension, uri: Seq<char>, names: Seq<NameParts>) -> bool {
    &&& extension.oid == "2.5.29.17"@
    &&& extension.alt_names matches Some(list)
    &&& list.len() == names.len() + 1
    &&& list[0] == AltNameValue::Uri(uri)
    &&& forall|i: int|
        0 <= i < names.len() ==> if (#[trigger] names[i]).is_address {
            list[i + 1] is Address
        } else {
            list[i + 1] == AltNameValue::Dns(names[i].text)
        }
}

/// Whether what was read from a certificate opens with the subject alternative name of a workload.
pub open spec fn opens_with(
    read: Result<Seq<Extension>, Seq<char>>,
    uri: Seq<char>,
    names: Seq<NameParts>,
) -> bool {
    read matches Ok(list) && list.len() > 0 && carries(list[0], uri, names)
}

/// Whether the names are what `CertificateParams::new` takes them for.
pub open spec fn settled(names: Seq<NameParts>) -> bool {
    forall|i: int|
        0 <= i < names.len() ==> name_reading((#[trigger] names[i]).text) == Ok::<
            bool,
            rcgen::Error,
        >(names[i].is_address)
}

/// The texts of names.
pub open spec fn texts(names: Seq<NameParts>) -> Seq<Seq<char>> {
    names.map_values(|n: NameParts| n.text)
}

/// What `CertificateParams::signed_by` makes of a profile, the key of the workload, and the
/// certificate and the key of an authority: the bytes of a certificate.
pub uninterp spec fn signed_leaf(
    profile: LeafParts,
    key: KeyPair,
    ca: Certificate,
    ca_key: KeyPair,
) -> Result<Seq<u8>, rcgen::Error>;

/// What was signed, as a value.
pub open spec fn signed(der: Result<Vec<u8>, rcgen::Error>) -> Result<Seq<u8>, rcgen::Error> {
    match der {
        Ok(bytes) => Ok(bytes@),
        Err(error) => Err(error),
    }
}

/// `CertificateParams::signed_by` makes a certificate, signed by the key of an authority. The
/// parameters are those of the profile, with its identity put before the other names, and its
/// purposes and serial number put in. With an Ed25519 key the certificate depends on the profile,
/// the two keys and the authority's certificate alone. It panics on a subject or a validity that
/// can not be encoded. The first extension of the certificate, as it is read back, is its subject
/// alternative name.
#[verifier::external_body]
fn sign_leaf(
    params: CertificateParams,
    p: &LeafProfile,
    key: &KeyPair,
    ca: &Certificate,
    ca_key: &KeyPair,
) -> (der: Result<Vec<u8>, rcgen::Error>)
    requires
        certificate_params(p@.profile, texts(p@.names)) == Ok::<CertificateParams, rcgen::Error>(
            params,
        ),
        datable(p@.profile),
        well_formed_oids(p@.profile),
        settled(p@.names),
        vstd::utf8::is_ascii_chars(p.uri@),
        signs_here(*ca_key),
    ensures
        signed(der) == signed_leaf(p@, *key, *ca, *ca_key),
        der matches Ok(bytes) ==> opens_with(
            x509::certificate_extensions(bytes@),
            p.uri@,
            p@.names,
        ),
{
    let mut c = params;
    c.subject_alt_names.insert(0, SanType::URI(p.uri.as_str().try_into()?));
    c.extended_key_usages.extend(p.server_auth.then_some(ExtendedKeyUsagePurpose::ServerAuth));
    c.extended_key_usages.extend(p.client_auth.then_some(ExtendedKeyUsagePurpose::ClientAuth));
    c.serial_number = Some(SerialNumber::from_slice(&p.serial));
    Ok(c.signed_by(key, ca, ca_key)?.der().to_vec())
}

/// The type of a common name, and that of an organization (RFC 4519).
pub open spec fn common_name() -> Seq<u64> {
    seq![2, 5, 4, 3]
}

pub open spec fn organization() -> Seq<u64> {
    seq![2, 5, 4, 10]
}

/// What the certificate of an authority holds, if it is made at a given time: it is an authority,
/// named after its trust domain.
pub open spec fn root_parts(trust_domain: Seq<char>, now: int) -> ProfileParts {
    ProfileParts {
        subject: seq![
            AttributeParts { oid: common_name(), value: "interlink CA"@ },
            AttributeParts { oid: organization(), value: trust_domain },
        ],
        is_ca: true,
        signs_certificates: true,
        signs_data: true,
        not_before: now,
        not_after: now + cert::ROOT_CA_TTL,
    }
}

/// What the certificate of a workload holds, if it is made at a given time. It is no authority.
/// Its subject is empty; the identity stands in the subject alternative name (RFC 5280 §4.2.1.6).
pub open spec fn leaf_parts(
    id: SpiffeParts,
    names: Seq<NameParts>,
    now: int,
    serial: Seq<u8>,
) -> LeafParts {
    LeafParts {
        profile: ProfileParts {
            subject: Seq::empty(),
            is_ca: false,
            signs_certificates: false,
            signs_data: true,
            not_before: now,
            not_after: now + cert::LEAF_TTL,
        },
        uri: identity::identity_uri(id),
        names,
        server_auth: true,
        client_auth: true,
        serial,
    }
}

/// An identity fault.
pub open spec fn identity_fault(message: Seq<char>) -> Fault {
    Fault { kind: ErrorKind::Identity, message }
}

/// The fault of a clock that shows a time which a certificate can not carry.
pub open spec fn clock_fault() -> Fault {
    identity_fault("the clock shows a time that no certificate can carry"@)
}

/// Whether a certificate can be made at a time: it can carry the time, and that at which its
/// lifetime ends.
pub open spec fn in_range(now: int, ttl: int) -> bool {
    EARLIEST_TIME <= now <= LATEST_TIME - ttl
}

fn attribute(oid: Vec<u64>, value: &str) -> (attribute: Attribute)
    ensures
        attribute@ == (AttributeParts { oid: oid@, value: value@ }),
{
    Attribute { oid, value: value.to_owned() }
}

/// The certificate of an authority for a trust domain, by what the clock shows.
pub fn root_profile(trust_domain: &str, now: i64) -> (result: Result<Profile, InterlinkError>)
    ensures
        if in_range(now as int, cert::ROOT_CA_TTL as int) {
            result matches Ok(profile) && profile@ == root_parts(trust_domain@, now as int)
        } else {
            result matches Err(error) && error@ == clock_fault()
        },
{
    if now < EARLIEST_TIME || now > LATEST_TIME - cert::ROOT_CA_TTL {
        return Err(clock_error());
    }
    let profile: Profile = Profile {
        subject: vec![
            attribute(vec![2, 5, 4, 3], "interlink CA"),
            attribute(vec![2, 5, 4, 10], trust_domain),
        ],
        is_ca: true,
        signs_certificates: true,
        signs_data: true,
        not_before: now,
        not_after: now + cert::ROOT_CA_TTL,
    };
    assert(profile.subject@[0]@.oid =~= common_name());
    assert(profile.subject@[1]@.oid =~= organization());
    assert(profile@.subject =~= root_parts(trust_domain@, now as int).subject);
    Ok(profile)
}

/// The certificate of a workload, by what the clock shows.
pub fn leaf_profile(
    identity: &SpiffeId,
    names: Vec<SubjectName>,
    now: i64,
    serial: Vec<u8>,
) -> (result: Result<LeafProfile, InterlinkError>)
    ensures
        if in_range(now as int, cert::LEAF_TTL as int) {
            result matches Ok(profile) && profile@ == leaf_parts(
                identity@,
                name_values(names@),
                now as int,
                serial@,
            )
        } else {
            result matches Err(error) && error@ == clock_fault()
        },
{
    if now < EARLIEST_TIME || now > LATEST_TIME - cert::LEAF_TTL {
        return Err(clock_error());
    }
    let profile: Profile = Profile {
        subject: Vec::new(),
        is_ca: false,
        signs_certificates: false,
        signs_data: true,
        not_before: now,
        not_after: now + cert::LEAF_TTL,
    };
    assert(profile@.subject =~= Seq::empty());
    Ok(
        LeafProfile {
            profile,
            uri: identity.to_uri(),
            names,
            server_auth: true,
            client_auth: true,
            serial,
        },
    )
}

/// The error of the first name that is refused.
pub open spec fn first_name_fault(names: Seq<Seq<char>>) -> Option<rcgen::Error>
    decreases names.len(),
{
    if names.len() == 0 {
        None
    } else {
        match name_reading(names[0]) {
            Err(error) => Some(error),
            Ok(_) => first_name_fault(names.skip(1)),
        }
    }
}

/// Whether names are ASCII.
pub open spec fn all_ascii(names: Seq<Seq<char>>) -> bool {
    forall|i: int| 0 <= i < names.len() ==> vstd::utf8::is_ascii_chars(#[trigger] names[i])
}

/// What names are taken for, each by itself.
pub open spec fn read_names(names: Seq<Seq<char>>) -> Seq<NameParts> {
    names.map_values(
        |text: Seq<char>|
            NameParts { text, is_address: name_reading(text) == Ok::<bool, rcgen::Error>(true) },
    )
}

/// Reads subject names: a name that reads as an IP address is one, any other is a DNS name. A name
/// that is not ASCII is refused.
pub fn subject_names(names: &[&str]) -> (result: Result<Vec<SubjectName>, InterlinkError>)
    ensures
        if all_ascii(text::slices(names@)) {
            &&& result matches Ok(list)
            &&& name_values(list@) == read_names(text::slices(names@))
            &&& settled(name_values(list@))
        } else {
            &&& first_name_fault(text::slices(names@)) matches Some(error)
            &&& result matches Err(e)
            &&& e@ == identity_fault("DNS SAN: "@ + error_form(error))
        },
{
    let ghost all = text::slices(names@);
    let mut list: Vec<SubjectName> = Vec::new();
    let mut i: usize = 0;
    assert(all.skip(0) =~= all);
    while i < names.len()
        invariant
            i <= names@.len(),
            all == text::slices(names@),
            first_name_fault(all) == first_name_fault(all.skip(i as int)),
            forall|j: int| 0 <= j < i ==> vstd::utf8::is_ascii_chars(#[trigger] all[j]),
            name_values(list@) =~= read_names(all).take(i as int),
            settled(name_values(list@)),
        decreases names@.len() - i,
    {
        assert(all.skip(i as int)[0] == names@[i as int]@);
        assert(all.skip(i as int).skip(1) =~= all.skip(i + 1));
        match read_name(names[i]) {
            Ok(is_address) => {
                let ghost before = name_values(list@);
                list.push(SubjectName { text: names[i].to_owned(), is_address });
                assert(name_values(list@) =~= before.push(read_names(all)[i as int]));
            },
            Err(error) => {
                return Err(
                    InterlinkError::Identity(
                        "DNS SAN: ".to_owned().concat(show_error(&error).as_str()),
                    ),
                );
            },
        }
        i = i + 1;
    }
    assert(read_names(all).take(i as int) =~= read_names(all));
    Ok(list)
}

/// A certificate that opens with the subject alternative name of a valid identity proves that
/// identity.
pub proof fn law_certificate_proves_its_identity(
    read: Result<Seq<Extension>, Seq<char>>,
    id: SpiffeParts,
    names: Seq<NameParts>,
)
    requires
        identity::valid_identity(id),
        opens_with(read, identity::identity_uri(id), names),
    ensures
        x509::identity_in(read) == Ok::<SpiffeParts, Fault>(id),
{
    laws::law_uri_round_trip(id);
    let list = read->Ok_0;
    let alt_names = list[0].alt_names->0;
    assert(x509::first_identity(alt_names) == Some(id));
    assert(x509::extension_identity(list[0]) == Some(id));
}

/// A workload can not issue certificates: whatever its certificate is made for and when, it says
/// that it is none of an authority, and it expires after 24 hours.
pub proof fn law_workloads_are_no_authorities(
    id: SpiffeParts,
    names: Seq<NameParts>,
    now: int,
    serial: Seq<u8>,
)
    ensures
        !leaf_parts(id, names, now, serial).profile.is_ca,
        !leaf_parts(id, names, now, serial).profile.signs_certificates,
        leaf_parts(id, names, now, serial).profile.not_after - leaf_parts(
            id,
            names,
            now,
            serial,
        ).profile.not_before == 24 * 60 * 60,
{
}

/// What becomes of an authority for a trust domain, by the key that was made for it and what the
/// clock shows: its certificate, or a fault.
pub open spec fn founding(
    trust_domain: Seq<char>,
    key: Result<KeyPair, rcgen::Error>,
    now: int,
) -> Result<Certificate, Fault> {
    match key {
        Err(error) => Err(identity_fault("root keygen: "@ + error_text(error))),
        Ok(key) => if !in_range(now, cert::ROOT_CA_TTL as int) {
            Err(clock_fault())
        } else {
            match certificate_params(root_parts(trust_domain, now), Seq::empty()) {
                Err(error) => Err(identity_fault("params: "@ + error_text(error))),
                Ok(params) => match self_signed(params, key) {
                    Err(error) => Err(identity_fault("self-sign: "@ + error_text(error))),
                    Ok(certificate) => Ok(certificate),
                },
            }
        },
    }
}

/// What becomes of the certificate of a workload, by the serial number and the key that were made
/// for it and what the clock shows: the certificate and the key in PKCS#8, or a fault.
pub open spec fn issuance(
    authority: CertificateAuthority,
    id: SpiffeParts,
    names: Seq<NameParts>,
    now: int,
    serial: Result<Seq<u8>, Seq<char>>,
    key: Result<KeyPair, rcgen::Error>,
) -> Result<(Seq<u8>, Seq<u8>), Fault> {
    match serial {
        Err(why) => Err(identity_fault("rng: "@ + why)),
        Ok(serial) => match key {
            Err(error) => Err(identity_fault("leaf keygen: "@ + error_text(error))),
            Ok(key) => if !in_range(now, cert::LEAF_TTL as int) {
                Err(clock_fault())
            } else {
                let parts = leaf_parts(id, names, now, serial);
                match certificate_params(parts.profile, texts(names)) {
                    Err(error) => Err(identity_fault("params: "@ + error_text(error))),
                    Ok(_) => match signed_leaf(
                        parts,
                        key,
                        authority.certificate(),
                        authority.signing_key(),
                    ) {
                        Err(error) => Err(identity_fault("sign: "@ + error_text(error))),
                        Ok(der) => Ok((der, key_der(key))),
                    },
                }
            },
        },
    }
}

/// Whether a certificate can carry an identity and names: they are ASCII.
pub open spec fn presentable(id: SpiffeParts, names: Seq<Seq<char>>) -> bool {
    vstd::utf8::is_ascii_chars(identity::identity_uri(id)) && all_ascii(names)
}

/// Why a certificate can not carry an identity and names: the identity is refused, or else the
/// first name that is.
pub open spec fn refusal(id: SpiffeParts, names: Seq<Seq<char>>) -> Option<Fault> {
    match ia5_fault(identity::identity_uri(id)) {
        Some(error) => Some(identity_fault("SPIFFE URI SAN: "@ + error_form(error))),
        None => match first_name_fault(names) {
            Some(error) => Some(identity_fault("DNS SAN: "@ + error_form(error))),
            None => None,
        },
    }
}

/// A serial number that was made, as a value.
pub open spec fn serial_value(serial: Result<Vec<u8>, String>) -> Result<Seq<u8>, Seq<char>> {
    match serial {
        Ok(bytes) => Ok(bytes@),
        Err(why) => Err(why@),
    }
}

/// What was issued, as a value.
pub open spec fn issued(result: Result<(Vec<u8>, Vec<u8>), InterlinkError>) -> Result<
    (Seq<u8>, Seq<u8>),
    Fault,
> {
    match result {
        Ok((der, key)) => Ok((der@, key@)),
        Err(error) => Err(error@),
    }
}

/// Whether a key, if one was made, is an Ed25519 key that is held here.
pub open spec fn usable(key: Result<KeyPair, rcgen::Error>) -> bool {
    key matches Ok(k) ==> signs_here(k)
}

/// Whether a serial number, if one was made, has 160 bits.
pub open spec fn full_length(serial: Result<Seq<u8>, Seq<char>>) -> bool {
    serial matches Ok(bytes) ==> bytes.len() == SERIAL_NUMBER_BYTES
}

/// An authority that issues X.509v3 certificates with SPIFFE identities in the subject alternative
/// name.
pub struct CertificateAuthority {
    root_key: KeyPair,
    root_cert: Certificate,
    root_cert_der: Vec<u8>,
}

impl CertificateAuthority {
    #[verifier::type_invariant]
    spec fn well_formed(self) -> bool {
        &&& signs_here(self.root_key)
        &&& self.root_cert_der@ == certificate_bytes(self.root_cert)
    }

    /// The certificate of the authority.
    pub closed spec fn certificate(&self) -> Certificate {
        self.root_cert
    }

    /// The key that the authority signs with.
    pub closed spec fn signing_key(&self) -> KeyPair {
        self.root_key
    }

    /// Makes a new Ed25519 key and a self-signed certificate for a trust domain.
    pub fn new(trust_domain: &str) -> (result: Result<Self, InterlinkError>)
        ensures
            exists|key: Result<KeyPair, rcgen::Error>, now: int|
                {
                    &&& usable(key)
                    &&& match #[trigger] founding(trust_domain@, key, now) {
                        Ok(certificate) => {
                            &&& result matches Ok(authority)
                            &&& authority.certificate() == certificate
                            &&& key == Ok::<KeyPair, rcgen::Error>(authority.signing_key())
                        },
                        Err(fault) => result matches Err(error) && error@ == fault,
                    }
                },
    {
        let key: Result<KeyPair, rcgen::Error> = generate_key();
        let now: i64 = clock();
        CertificateAuthority::found(trust_domain, key, now)
    }

    /// Makes an authority for a trust domain, by the key that was made for it and what the clock
    /// shows.
    pub fn found(trust_domain: &str, key: Result<KeyPair, rcgen::Error>, now: i64) -> (result:
        Result<Self, InterlinkError>)
        requires
            usable(key),
        ensures
            match founding(trust_domain@, key, now as int) {
                Ok(certificate) => {
                    &&& result matches Ok(authority)
                    &&& authority.certificate() == certificate
                    &&& key == Ok::<KeyPair, rcgen::Error>(authority.signing_key())
                },
                Err(fault) => result matches Err(error) && error@ == fault,
            },
    {
        let root_key: KeyPair = match key {
            Ok(key) => key,
            Err(error) => {
                return Err(failure("root keygen: ", &error));
            },
        };
        let profile: Profile = match root_profile(trust_domain, now) {
            Ok(profile) => profile,
            Err(error) => {
                return Err(error);
            },
        };
        let none: Vec<String> = Vec::new();
        assert(text::strings(none@) =~= Seq::<Seq<char>>::empty());
        let params: CertificateParams = match new_params(&profile, none) {
            Ok(params) => params,
            Err(error) => {
                return Err(failure("params: ", &error));
            },
        };
        match sign_root(params, &root_key) {
            Ok(root_cert) => {
                let root_cert_der: Vec<u8> = certificate_der(&root_cert);
                Ok(CertificateAuthority { root_key, root_cert, root_cert_der })
            },
            Err(error) => Err(failure("self-sign: ", &error)),
        }
    }

    /// Issues a certificate for an identity. What was issued proves the identity.
    pub fn issue_leaf(&self, identity: &SpiffeId) -> (result: Result<Vec<u8>, InterlinkError>)
        requires
            vstd::utf8::is_ascii_chars(identity::identity_uri(identity@)),
        ensures
            exists|
                now: int,
                serial: Result<Seq<u8>, Seq<char>>,
                key: Result<KeyPair, rcgen::Error>,
            |
                {
                    &&& full_length(serial)
                    &&& usable(key)
                    &&& match #[trigger] issuance(
                        *self,
                        identity@,
                        Seq::empty(),
                        now,
                        serial,
                        key,
                    ) {
                        Ok((der, _)) => result matches Ok(r) && r@ == der,
                        Err(fault) => result matches Err(error) && error@ == fault,
                    }
                },
            result matches Ok(der) ==> identity::valid_identity(identity@)
                ==> x509::certificate_identity(der@) == Ok::<
                SpiffeParts,
                Fault,
            >(identity@),
    {
        let none: Vec<&str> = Vec::new();
        assert(text::slices(none@) =~= Seq::<Seq<char>>::empty());
        assert(read_names(Seq::empty()) =~= Seq::<NameParts>::empty());
        assert(presentable(identity@, text::slices(none@)));
        match self.issue_leaf_with_key(identity, none.as_slice()) {
            Ok((der, _)) => Ok(der),
            Err(error) => Err(error),
        }
    }

    /// Issues a certificate for an identity and further subject names, and gives the private key
    /// in PKCS#8 too. A name that reads as an IP address becomes one: a peer that is dialed by its
    /// address does not match a DNS name. An identity or a name that is not ASCII is refused.
    pub fn issue_leaf_with_key(&self, identity: &SpiffeId, dns_names: &[&str]) -> (result: Result<
        (Vec<u8>, Vec<u8>),
        InterlinkError,
    >)
        ensures
            if presentable(identity@, text::slices(dns_names@)) {
                exists|
                    now: int,
                    serial: Result<Seq<u8>, Seq<char>>,
                    key: Result<KeyPair, rcgen::Error>,
                |
                    {
                        &&& full_length(serial)
                        &&& usable(key)
                        &&& issued(result) == #[trigger] issuance(
                            *self,
                            identity@,
                            read_names(text::slices(dns_names@)),
                            now,
                            serial,
                            key,
                        )
                    }
            } else {
                refusal(identity@, text::slices(dns_names@)) matches Some(fault) && issued(result)
                    == Err::<(Seq<u8>, Seq<u8>), Fault>(fault)
            },
            !vstd::utf8::is_ascii_chars(identity::identity_uri(identity@)) ==> (ia5_fault(
                identity::identity_uri(identity@),
            ) matches Some(error) && issued(result) == Err::<(Seq<u8>, Seq<u8>), Fault>(
                identity_fault("SPIFFE URI SAN: "@ + error_form(error)),
            )),
            vstd::utf8::is_ascii_chars(identity::identity_uri(identity@)) && !all_ascii(
                text::slices(dns_names@),
            ) ==> (first_name_fault(text::slices(dns_names@)) matches Some(error) && issued(result)
                == Err::<(Seq<u8>, Seq<u8>), Fault>(
                identity_fault("DNS SAN: "@ + error_form(error)),
            )),
            result matches Ok(issued) ==> opens_with(
                x509::certificate_extensions(issued.0@),
                identity::identity_uri(identity@),
                read_names(text::slices(dns_names@)),
            ),
            result matches Ok(issued) ==> identity::valid_identity(identity@)
                ==> x509::certificate_identity(issued.0@) == Ok::<
                SpiffeParts,
                Fault,
            >(identity@),
    {
        let now: i64 = clock();
        let serial: Result<Vec<u8>, String> = random_serial();
        let key: Result<KeyPair, rcgen::Error> = generate_key();
        self.issue_at(identity, dns_names, now, serial, key)
    }

    /// Issues a certificate for an identity and further subject names, by what the clock shows and
    /// the serial number and the key that were made for it.
    pub fn issue_at(
        &self,
        identity: &SpiffeId,
        dns_names: &[&str],
        now: i64,
        serial: Result<Vec<u8>, String>,
        key: Result<KeyPair, rcgen::Error>,
    ) -> (result: Result<(Vec<u8>, Vec<u8>), InterlinkError>)
        requires
            usable(key),
        ensures
            if presentable(identity@, text::slices(dns_names@)) {
                issued(result) == issuance(
                    *self,
                    identity@,
                    read_names(text::slices(dns_names@)),
                    now as int,
                    serial_value(serial),
                    key,
                )
            } else {
                refusal(identity@, text::slices(dns_names@)) matches Some(fault) && issued(result)
                    == Err::<(Seq<u8>, Seq<u8>), Fault>(fault)
            },
            !vstd::utf8::is_ascii_chars(identity::identity_uri(identity@)) ==> (ia5_fault(
                identity::identity_uri(identity@),
            ) matches Some(error) && issued(result) == Err::<(Seq<u8>, Seq<u8>), Fault>(
                identity_fault("SPIFFE URI SAN: "@ + error_form(error)),
            )),
            vstd::utf8::is_ascii_chars(identity::identity_uri(identity@)) && !all_ascii(
                text::slices(dns_names@),
            ) ==> (first_name_fault(text::slices(dns_names@)) matches Some(error) && issued(result)
                == Err::<(Seq<u8>, Seq<u8>), Fault>(
                identity_fault("DNS SAN: "@ + error_form(error)),
            )),
            result matches Ok(issued) ==> opens_with(
                x509::certificate_extensions(issued.0@),
                identity::identity_uri(identity@),
                read_names(text::slices(dns_names@)),
            ),
            result matches Ok(issued) ==> identity::valid_identity(identity@)
                ==> x509::certificate_identity(issued.0@) == Ok::<
                SpiffeParts,
                Fault,
            >(identity@),
    {
        proof {
            use_type_invariant(self);
        }
        if let Err(error) = check_ia5(identity.to_uri().as_str()) {
            return Err(
                InterlinkError::Identity(
                    "SPIFFE URI SAN: ".to_owned().concat(show_error(&error).as_str()),
                ),
            );
        }
        let names: Vec<SubjectName> = match subject_names(dns_names) {
            Ok(names) => names,
            Err(error) => {
                return Err(error);
            },
        };
        let serial: Vec<u8> = match serial {
            Ok(serial) => serial,
            Err(why) => {
                return Err(InterlinkError::Identity("rng: ".to_owned().concat(why.as_str())));
            },
        };
        let key: KeyPair = match key {
            Ok(key) => key,
            Err(error) => {
                return Err(failure("leaf keygen: ", &error));
            },
        };
        let profile: LeafProfile = match leaf_profile(identity, names, now, serial) {
            Ok(profile) => profile,
            Err(error) => {
                return Err(error);
            },
        };
        let params: CertificateParams = match new_params(
            &profile.profile,
            copy_texts(&profile.names),
        ) {
            Ok(params) => params,
            Err(error) => {
                return Err(failure("params: ", &error));
            },
        };
        match sign_leaf(params, &profile, &key, &self.root_cert, &self.root_key) {
            Ok(der) => {
                proof {
                    if identity::valid_identity(identity@) {
                        law_certificate_proves_its_identity(
                            x509::certificate_extensions(der@),
                            identity@,
                            profile@.names,
                        );
                    }
                }
                Ok((der, serialize_key(&key)))
            },
            Err(error) => Err(failure("sign: ", &error)),
        }
    }

    /// The certificate of the authority.
    pub fn root_cert_der(&self) -> (der: &[u8])
        ensures
            der@ == certificate_bytes(self.certificate()),
    {
        proof {
            use_type_invariant(self);
        }
        self.root_cert_der.as_slice()
    }

    /// The key of the authority.
    pub fn root_key(&self) -> (key: &KeyPair)
        ensures
            *key == self.signing_key(),
            signs_here(*key),
    {
        proof {
            use_type_invariant(self);
        }
        &self.root_key
    }
}

/// The texts of names, copied.
fn copy_texts(names: &Vec<SubjectName>) -> (copies: Vec<String>)
    ensures
        text::strings(copies@) == texts(name_values(names@)),
{
    let mut copies: Vec<String> = Vec::new();
    let mut i: usize = 0;
    while i < names.len()
        invariant
            i <= names@.len(),
            copies@.len() == i,
            forall|j: int| 0 <= j < i ==> (#[trigger] copies@[j])@ == names@[j].text@,
        decreases names@.len() - i,
    {
        copies.push(names[i].text.clone());
        i = i + 1;
    }
    assert(text::strings(copies@) =~= texts(name_values(names@)));
    copies
}

/// The error for a step that failed.
fn failure(step: &str, error: &rcgen::Error) -> (failure: InterlinkError)
    ensures
        failure@ == identity_fault(step@ + error_text(*error)),
{
    InterlinkError::Identity(step.to_owned().concat(describe_error(error).as_str()))
}

/// The error for a clock that shows a time which a certificate can not carry.
fn clock_error() -> (error: InterlinkError)
    ensures
        error@ == clock_fault(),
{
    InterlinkError::Identity("the clock shows a time that no certificate can carry".to_owned())
}

} // verus!
