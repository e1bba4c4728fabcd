//! What is read from certificates and from files that hold certificates and keys.

use vstd::prelude::*;

use x509_parser::extensions::{GeneralName, ParsedExtension};

use crate::common::error::{ErrorKind, Fault, InterlinkError};
use crate::common::identity;
use crate::common::identity::{SpiffeId, SpiffeParts};

verus! {

/// A name of a subject alternative name.
#[derive(Debug)]
pub enum AltName {
    Uri(String),
    Dns(String),
    /// The octets of an IP address.
    Address(Vec<u8>),
    /// A name of another form.
    Other,
}

/// An `AltName` as a value.
pub enum AltNameValue {
    Uri(Seq<char>),
    Dns(Seq<char>),
    Address(Seq<u8>),
    Other,
}

impl View for AltName {
    type V = AltNameValue;

    open spec fn view(&self) -> AltNameValue {
        match self {
            AltName::Uri(uri) => AltNameValue::Uri(uri@),
            AltName::Dns(name) => AltNameValue::Dns(name@),
            AltName::Address(octets) => AltNameValue::Address(octets@),
            AltName::Other => AltNameValue::Other,
        }
    }
}

/// An extension of a certificate.
#[derive(Debug)]
pub struct CertExtension {
    /// The object identifier, in dotted form.
    pub oid: String,
    /// For a subject alternative name, its names in order. None for another extension.
    pub alt_names: Option<Vec<AltName>>,
}

/// An extension as a value.
pub struct Extension {
    pub oid: Seq<char>,
    pub alt_names: Option<Seq<AltNameValue>>,
}

impl View for CertExtension {
    type V = Extension;

    open spec fn view(&self) -> Extension {
        Extension {
            oid: self.oid@,
            alt_names: match self.alt_names {
                Some(names) => Some(names@.map_values(|name: AltName| name@)),
                None => None,
            },
        }
    }
}

/// Extensions as values.
pub open spec fn extensions(list: Seq<CertExtension>) -> Seq<Extension> {
    list.map_values(|e: CertExtension| e@)
}

/// What `x509_parser` reads from a DER certificate: its extensions in order, or the text of the
/// error.
pub uninterp spec fn certificate_extensions(der: Seq<u8>) -> Result<Seq<Extension>, Seq<char>>;

/// `x509_parser::parse_x509_certificate` reads a certificate; what it reads depends on the bytes
/// alone. The extensions are converted one for one.
#[verifier::external_body]
fn read_extensions(der: &[u8]) -> (read: Result<Vec<CertExtension>, String>)
    ensures
        match certificate_extensions(der@) {
            Ok(list) => read matches Ok(r) && extensions(r@) == list,
            Err(message) => read matches Err(m) && m@ == message,
        },
{
    let (_, cert) = x509_parser::parse_x509_certificate(der).map_err(|e| e.to_string())?;
    Ok(cert.extensions().iter().map(|e| CertExtension {
        oid: e.oid.to_id_string(),
        alt_names: match e.parsed_extension() {
            ParsedExtension::SubjectAlternativeName(san) => Some(san.general_names.iter().map(|n| match n {
                GeneralName::URI(uri) => AltName::Uri(uri.to_string()),
                GeneralName::DNSName(name) => AltName::Dns(name.to_string()),
                GeneralName::IPAddress(octets) => AltName::Address(octets.to_vec()),
                _ => AltName::Other,
            }).collect()),
            _ => None,
        },
    }).collect())
}

/// The first of the names that is the URI of an identity.
pub open spec fn first_identity(names: Seq<AltNameValue>) -> Option<SpiffeParts>
    decreases names.len(),
{
    if names.len() == 0 {
        None
    } else {
        match names[0] {
            AltNameValue::Uri(uri) => match identity::identity_of(uri) {
                Ok(id) => Some(id),
                Err(_) => first_identity(names.skip(1)),
            },
            _ => first_identity(names.skip(1)),
        }
    }
}

/// The identities that an extension names: those of a subject alternative name.
pub open spec fn extension_identity(extension: Extension) -> Option<SpiffeParts> {
    if extension.oid == "2.5.29.17"@ {
        match extension.alt_names {
            Some(names) => first_identity(names),
            None => None,
        }
    } else {
        None
    }
}

/// The first identity that the extensions name.
pub open spec fn extensions_identity(list: Seq<Extension>) -> Option<SpiffeParts>
    decreases list.len(),
{
    if list.len() == 0 {
        None
    } else {
        match extension_identity(list[0]) {
            Some(id) => Some(id),
            None => extensions_identity(list.skip(1)),
        }
    }
}

/// The identity of a certificate, given what was read from it.
pub open spec fn identity_in(read: Result<Seq<Extension>, Seq<char>>) -> Result<SpiffeParts, Fault> {
    match read {
        Err(message) => Err(Fault { kind: ErrorKind::Identity, message: "cert parse: "@ + message }),
        Ok(list) => match extensions_identity(list) {
            Some(id) => Ok(id),
            None => Err(
                Fault { kind: ErrorKind::Identity, message: "no SPIFFE URI in SAN extension"@ },
            ),
        },
    }
}

/// The identity of a DER certificate.
pub open spec fn certificate_identity(der: Seq<u8>) -> Result<SpiffeParts, Fault> {
    identity_in(certificate_extensions(der))
}

/// What was read from a certificate, as a value.
pub open spec fn read_value(read: Result<Vec<CertExtension>, String>) -> Result<
    Seq<Extension>,
    Seq<char>,
> {
    match read {
        Ok(list) => Ok(extensions(list@)),
        Err(message) => Err(message@),
    }
}

/// The identity of a certificate, given what was read from it: the first SPIFFE URI in a subject
/// alternative name (RFC 5280 §4.2.1.6).
pub fn spiffe_id_from_extensions(read: Result<Vec<CertExtension>, String>) -> (result: Result<
    SpiffeId,
    InterlinkError,
>)
    ensures
        match identity_in(read_value(read)) {
            Ok(id) => result matches Ok(r) && r@ == id,
            Err(fault) => result matches Err(e) && e@ == fault,
        },
{
    let list: Vec<CertExtension> = match read {
        Ok(list) => list,
        Err(message) => {
            return Err(
                InterlinkError::Identity("cert parse: ".to_owned().concat(message.as_str())),
            );
        },
    };
    let ghost values = extensions(list@);
    let mut i: usize = 0;
    assert(values.skip(0) =~= values);
    while i < list.len()
        invariant
            i <= list@.len(),
            values == extensions(list@),
            read_value(read) == Ok::<Seq<Extension>, Seq<char>>(values),
            extensions_identity(values) == extensions_identity(values.skip(i as int)),
        decreases list@.len() - i,
    {
        assert(values.skip(i as int)[0] == list@[i as int]@);
        assert(values.skip(i as int).skip(1) =~= values.skip(i + 1));
        if let Some(id) = identity_of_extension(&list[i]) {
            return Ok(id);
        }
        i = i + 1;
    }
    Err(InterlinkError::Identity("no SPIFFE URI in SAN extension".to_owned()))
}

fn identity_of_extension(extension: &CertExtension) -> (id: Option<SpiffeId>)
    ensures
        match extension_identity(extension@) {
            Some(parts) => id matches Some(i) && i@ == parts,
            None => id is None,
        },
{
    if extension.oid != "2.5.29.17".to_owned() {
        return None;
    }
    let names: &Vec<AltName> = match &extension.alt_names {
        Some(names) => names,
        None => {
            return None;
        },
    };
    let ghost values = extension@.alt_names->0;
    let mut i: usize = 0;
    assert(values.skip(0) =~= values);
    while i < names.len()
        invariant
            i <= names@.len(),
            values == names@.map_values(|name: AltName| name@),
            extension@.oid == "2.5.29.17"@,
            extension@.alt_names == Some(values),
            first_identity(values) == first_identity(values.skip(i as int)),
        decreases names@.len() - i,
    {
        assert(values.skip(i as int)[0] == names@[i as int]@);
        assert(values.skip(i as int).skip(1) =~= values.skip(i + 1));
        if let AltName::Uri(uri) = &names[i] {
            if let Ok(id) = SpiffeId::from_uri(uri.as_str()) {
                return Some(id);
            }
        }
        i = i + 1;
    }
    None
}

/// The identity of a DER certificate.
pub fn spiffe_id_from_cert_der(leaf_der: &[u8]) -> (result: Result<SpiffeId, InterlinkError>)
    ensures
        match certificate_identity(leaf_der@) {
            Ok(id) => result matches Ok(r) && r@ == id,
            Err(fault) => result matches Err(e) && e@ == fault,
        },
{
    let read: Result<Vec<CertExtension>, String> = read_extensions(leaf_der);
    assert(read_value(read) == certificate_extensions(leaf_der@));
    spiffe_id_from_extensions(read)
}

} // verus!
