//! What the certificates of an authority hold, and where an identity comes from.

use rcgen::{Certificate, CertificateParams, KeyPair};
use vstd::prelude::*;

use crate::common::error::InterlinkError;
use crate::common::identity;
use crate::common::identity::{IdentityProvider, SpiffeId, SpiffeParts, TrustDomain};
use crate::identity::ca;
use crate::identity::ca::{
    CertificateAuthority, LeafParts, LeafProfile, NameParts, Profile, ProfileParts,
    SubjectName,
};
use crate::identity::provider;
use crate::identity::provider::{
    KubernetesIdentityProvider, StaticIdentityProvider, WorkloadSources,
};
use crate::proxy::handshake;
use crate::text;

verus! {

/// Whether an error is an identity error with a message.
pub open spec fn is_identity(error: InterlinkError, message: Seq<char>) -> bool {
    error matches InterlinkError::Identity(m) && m@ == message
}

/// Whether parts are those of a certificate that a workload gets at a time: one for both sides of
/// a handshake and for signing, that carries its identity and names and nothing else, is none of
/// an authority, and is valid from that time for 24 hours.
pub open spec fn is_workload_certificate(
    parts: LeafParts,
    id: SpiffeParts,
    names: Seq<NameParts>,
    now: int,
    serial: Seq<u8>,
) -> bool {
    &&& parts.uri == "spiffe://"@ + id.trust_domain + "/ns/"@ + id.namespace + "/sa/"@
        + id.service_account
    &&& parts.names == names
    &&& parts.serial == serial
    &&& parts.server_auth
    &&& parts.client_auth
    &&& parts.profile.signs_data
    &&& !parts.profile.signs_certificates
    &&& !parts.profile.is_ca
    &&& parts.profile.subject.len() == 0
    &&& parts.profile.not_before == now
    &&& parts.profile.not_after == now + 86_400
}

/// Whether parts are those of the certificate of an authority that is made at a time: one that may
/// sign certificates and data, named after its trust domain, and valid from that time for 365
/// days.
pub open spec fn is_authority_certificate(
    parts: ProfileParts,
    trust_domain: Seq<char>,
    now: int,
) -> bool {
    &&& parts.is_ca
    &&& parts.signs_certificates
    &&& parts.signs_data
    &&& parts.not_before == now
    &&& parts.not_after == now + 31_536_000
    &&& parts.subject.len() == 2
    &&& parts.subject[0].oid == seq![2u64, 5, 4, 3]
    &&& parts.subject[0].value == "interlink CA"@
    &&& parts.subject[1].oid == seq![2u64, 5, 4, 10]
    &&& parts.subject[1].value == trust_domain
}

/// Whether a certificate can carry a time and the end of a lifetime that begins then: years 0 to
/// 9999.
pub open spec fn fits(now: int, lifetime: int) -> bool {
    -62_167_219_200 <= now && now + lifetime <= 253_402_300_799
}

/// A workload certificate is for both sides of a handshake, whatever its identity, names, time and
/// serial number, and it is owed at every time that a certificate can carry.
pub proof fn law_workload_certificates_serve_both_sides(
    id: SpiffeId,
    names: Vec<SubjectName>,
    now: i64,
    serial: Vec<u8>,
    result: Result<LeafProfile, InterlinkError>,
)
    requires
        call_ensures(ca::leaf_profile, (&id, names, now, serial), result),
    ensures
        result is Ok <==> fits(now as int, 86_400),
        result matches Ok(profile) ==> is_workload_certificate(
            profile@,
            id@,
            Seq::new(names@.len(), |i: int| names@[i]@),
            now as int,
            serial@,
        ),
        result matches Ok(profile) ==> {
            &&& profile.server_auth && profile.client_auth
            &&& profile.profile.signs_data
            &&& !profile.profile.signs_certificates
            &&& !profile.profile.is_ca
            &&& profile.profile.subject@.len() == 0
            &&& profile.profile.not_before == now
            &&& profile.profile.not_after == now + 86_400
            &&& profile.serial@ == serial@
            &&& profile.names@.len() == names@.len()
            &&& forall|i: int|
                0 <= i < names@.len() ==> (#[trigger] profile.names@[i]).text@ == names@[i].text@
                    && profile.names@[i].is_address == names@[i].is_address
            &&& profile.uri@ == "spiffe://"@ + id.trust_domain@ + "/ns/"@ + id.namespace@ + "/sa/"@
                + id.service_account@
        },
        result matches Err(e) ==> is_identity(
            e,
            "the clock shows a time that no certificate can carry"@,
        ),
{
    let given = Seq::new(names@.len(), |i: int| names@[i]@);
    assert(ca::name_values(names@) =~= given);
    if let Ok(profile) = result {
        let kept = ca::name_values(profile.names@);
        assert(kept == given);
        assert(kept.len() == profile.names@.len());
        assert forall|i: int| 0 <= i < names@.len() implies (#[trigger] profile.names@[i]).text@
            == names@[i].text@ && profile.names@[i].is_address == names@[i].is_address by {
            assert(kept[i] == profile.names@[i]@);
            assert(given[i] == names@[i]@);
        }
        assert(profile.profile@.subject.len() == profile.profile.subject@.len());
    }
}

/// The certificate of an authority is owed at every time that a certificate can carry.
pub proof fn law_authority_certificates_sign(
    trust_domain: &str,
    now: i64,
    result: Result<Profile, InterlinkError>,
)
    requires
        call_ensures(ca::root_profile, (trust_domain, now), result),
    ensures
        result is Ok <==> fits(now as int, 31_536_000),
        result matches Ok(profile) ==> is_authority_certificate(
            profile@,
            trust_domain@,
            now as int,
        ),
        result matches Ok(profile) ==> {
            &&& profile.is_ca
            &&& profile.signs_certificates && profile.signs_data
            &&& profile.not_before == now
            &&& profile.not_after == now + 31_536_000
            &&& profile.subject@.len() == 2
        },
        result matches Err(e) ==> is_identity(
            e,
            "the clock shows a time that no certificate can carry"@,
        ),
{
    if let Ok(profile) = result {
        assert(profile@.subject.len() == profile.subject@.len());
    }
}

/// Names are read one by one and kept in their order. Those that read as addresses are marked.
pub proof fn law_names_are_kept(
    names: &[&str],
    result: Result<Vec<SubjectName>, InterlinkError>,
)
    requires
        call_ensures(ca::subject_names, (names,), result),
    ensures
        result is Ok <==> forall|i: int|
            0 <= i < names@.len() ==> vstd::utf8::is_ascii_chars((#[trigger] names@[i])@),
        result matches Ok(list) ==> {
            &&& list@.len() == names@.len()
            &&& forall|i: int|
                0 <= i < list@.len() ==> {
                    &&& (#[trigger] list@[i]).text@ == names@[i]@
                    &&& ca::name_reading(names@[i]@) == Ok::<bool, rcgen::Error>(
                        list@[i].is_address,
                    )
                }
        },
        result matches Err(e) ==> exists|error: rcgen::Error| #[trigger]
            is_identity(e, "DNS SAN: "@ + ca::error_form(error)),
{
    let values = text::slices(names@);
    assert forall|i: int| 0 <= i < values.len() implies #[trigger] values[i] == names@[i]@ by {}
    if let Err(e) = result {
        let error = ca::first_name_fault(values)->0;
        assert(is_identity(e, "DNS SAN: "@ + ca::error_form(error)));
    }
    if ca::all_ascii(values) {
        assert forall|i: int| 0 <= i < names@.len() implies vstd::utf8::is_ascii_chars(
            (#[trigger] names@[i])@,
        ) by {
            assert(vstd::utf8::is_ascii_chars(values[i]));
        }
    }
    if let Ok(list) = result {
        let parts = ca::name_values(list@);
        assert(parts == ca::read_names(values));
        assert(parts.len() == list@.len());
        assert(values.len() == names@.len());
        assert forall|i: int| 0 <= i < list@.len() implies {
            &&& (#[trigger] list@[i]).text@ == names@[i]@
            &&& ca::name_reading(names@[i]@) == Ok::<bool, rcgen::Error>(list@[i].is_address)
        } by {
            assert(parts[i] == list@[i]@);
            assert(ca::read_names(values)[i].text == values[i]);
            assert(ca::name_reading(parts[i].text) == Ok::<bool, rcgen::Error>(
                parts[i].is_address,
            ));
        }
    }
}

/// An authority is made of its key and of the profile for its trust domain and time, signed by that
/// key. It is made if and only if the key was made, the profile can be, and signing succeeds.
pub proof fn law_authorities_sign_themselves(
    trust_domain: &str,
    key: Result<KeyPair, rcgen::Error>,
    now: i64,
    result: Result<CertificateAuthority, InterlinkError>,
)
    requires
        call_ensures(CertificateAuthority::found, (trust_domain, key, now), result),
    ensures
        result is Ok ==> key is Ok && fits(now as int, 31_536_000),
        key matches Err(error) ==> result matches Err(e) && is_identity(
            e,
            "root keygen: "@ + ca::error_text(error),
        ),
        key is Ok && !fits(now as int, 31_536_000) ==> (result matches Err(e) && is_identity(
            e,
            "the clock shows a time that no certificate can carry"@,
        )),
        key is Ok && fits(now as int, 31_536_000) ==> exists|parts: ProfileParts|
            {
                &&& is_authority_certificate(parts, trust_domain@, now as int)
                &&& match #[trigger] ca::certificate_params(parts, Seq::empty()) {
                    Err(error) => result matches Err(e) && is_identity(
                        e,
                        "params: "@ + ca::error_text(error),
                    ),
                    Ok(params) => match ca::self_signed(params, key->Ok_0) {
                        Err(error) => result matches Err(e) && is_identity(
                            e,
                            "self-sign: "@ + ca::error_text(error),
                        ),
                        Ok(certificate) => {
                            &&& result matches Ok(authority)
                            &&& authority.certificate() == certificate
                            &&& authority.signing_key() == key->Ok_0
                        },
                    },
                }
            },
{
    let parts = ca::root_parts(trust_domain@, now as int);
    assert(is_authority_certificate(parts, trust_domain@, now as int));
    let _ = ca::certificate_params(parts, Seq::empty());
}

/// A certificate is made of the profile for its identity, names, time and serial number, for the
/// key of the workload, and signed by the authority. It is made if and only if the serial number
/// and the key were made, the profile can be, and signing succeeds. The key is handed out with it.
pub proof fn law_certificates_are_signed_by_the_authority(
    authority: CertificateAuthority,
    id: SpiffeId,
    dns_names: &[&str],
    now: i64,
    serial: Result<Vec<u8>, String>,
    key: Result<KeyPair, rcgen::Error>,
    names: Result<Vec<SubjectName>, InterlinkError>,
    result: Result<(Vec<u8>, Vec<u8>), InterlinkError>,
)
    requires
        call_ensures(ca::subject_names, (dns_names,), names),
        call_ensures(
            CertificateAuthority::issue_at,
            (&authority, &id, dns_names, now, serial, key),
            result,
        ),
        vstd::utf8::is_ascii_chars(identity::identity_uri(id@)),
    ensures
        names matches Err(error) ==> result matches Err(e) && e@ == error@,
        names is Ok ==> (serial matches Err(why) ==> result matches Err(e) && is_identity(
            e,
            "rng: "@ + why@,
        )),
        names is Ok && serial is Ok ==> (key matches Err(error) ==> result matches Err(e)
            && is_identity(e, "leaf keygen: "@ + ca::error_text(error))),
        names is Ok && serial is Ok && key is Ok && !fits(now as int, 86_400) ==> (
        result matches Err(e) && is_identity(
            e,
            "the clock shows a time that no certificate can carry"@,
        )),
        names is Ok && serial is Ok && key is Ok && fits(now as int, 86_400)
            ==> exists|parts: LeafParts|
            {
                &&& is_workload_certificate(
                    parts,
                    id@,
                    Seq::new(names->Ok_0@.len(), |i: int| names->Ok_0@[i]@),
                    now as int,
                    serial->Ok_0@,
                )
                &&& match ca::certificate_params(parts.profile, ca::texts(parts.names)) {
                    Err(error) => result matches Err(e) && is_identity(
                        e,
                        "params: "@ + ca::error_text(error),
                    ),
                    Ok(_) => match #[trigger] ca::signed_leaf(
                        parts,
                        key->Ok_0,
                        authority.certificate(),
                        authority.signing_key(),
                    ) {
                        Err(error) => result matches Err(e) && is_identity(
                            e,
                            "sign: "@ + ca::error_text(error),
                        ),
                        Ok(der) => {
                            &&& result matches Ok(issued)
                            &&& issued.0@ == der
                            &&& issued.1@ == ca::key_der(key->Ok_0)
                        },
                    },
                }
            },
{
    law_names_are_kept(dns_names, names);
    let values = text::slices(dns_names@);
    assert forall|i: int| 0 <= i < values.len() implies #[trigger] values[i] == dns_names@[i]@ by {}
    if let Ok(list) = names {
        assert forall|i: int| 0 <= i < values.len() implies vstd::utf8::is_ascii_chars(
            #[trigger] values[i],
        ) by {
            assert(vstd::utf8::is_ascii_chars(dns_names@[i]@));
        }
        let given = Seq::new(list@.len(), |i: int| list@[i]@);
        assert(given =~= ca::read_names(values));
        if serial is Ok && key is Ok && fits(now as int, 86_400) {
            let parts = ca::leaf_parts(id@, given, now as int, serial->Ok_0@);
            assert(is_workload_certificate(parts, id@, given, now as int, serial->Ok_0@));
            let _ = ca::signed_leaf(
                parts,
                key->Ok_0,
                authority.certificate(),
                authority.signing_key(),
            );
        }
    } else {
        assert(!ca::all_ascii(values)) by {
            let i = choose|i: int|
                0 <= i < dns_names@.len() && !vstd::utf8::is_ascii_chars(
                    (#[trigger] dns_names@[i])@,
                );
            assert(!vstd::utf8::is_ascii_chars(values[i]));
        }
    }
}

/// Whatever the clock shows and whatever serial number and key are made, an issued certificate is
/// that of a workload for the identity, for a key that is handed out with it.
pub proof fn law_issued_certificates_are_workload_certificates(
    authority: CertificateAuthority,
    id: SpiffeId,
    dns_names: &[&str],
    with_key: Result<(Vec<u8>, Vec<u8>), InterlinkError>,
    alone: Result<Vec<u8>, InterlinkError>,
)
    requires
        vstd::utf8::is_ascii_chars(identity::identity_uri(id@)),
        call_ensures(
            CertificateAuthority::issue_leaf_with_key,
            (&authority, &id, dns_names),
            with_key,
        ),
        call_ensures(CertificateAuthority::issue_leaf, (&authority, &id), alone),
    ensures
        with_key matches Ok(issued) ==> exists|
            parts: LeafParts,
            key: KeyPair,
            now: int,
        |
            {
                &&& #[trigger] ca::signed_leaf(
                    parts,
                    key,
                    authority.certificate(),
                    authority.signing_key(),
                ) == Ok::<Seq<u8>, rcgen::Error>(issued.0@)
                &&& issued.1@ == ca::key_der(key)
                &&& parts.names.len() == dns_names@.len()
                &&& forall|i: int|
                    0 <= i < parts.names.len() ==> (#[trigger] parts.names[i]).text
                        == dns_names@[i]@
                &&& parts.serial.len() == 20
                &&& #[trigger] fits(now, 86_400)
                &&& is_workload_certificate(parts, id@, parts.names, now, parts.serial)
            },
        alone matches Ok(der) ==> exists|parts: LeafParts, key: KeyPair, now: int|
            {
                &&& #[trigger] ca::signed_leaf(
                    parts,
                    key,
                    authority.certificate(),
                    authority.signing_key(),
                ) == Ok::<Seq<u8>, rcgen::Error>(der@)
                &&& parts.serial.len() == 20
                &&& #[trigger] fits(now, 86_400)
                &&& is_workload_certificate(parts, id@, Seq::empty(), now, parts.serial)
            },
{
    let values = text::slices(dns_names@);
    assert forall|i: int| 0 <= i < values.len() implies #[trigger] values[i] == dns_names@[i]@ by {}
    if let Ok(issued) = with_key {
        let names = ca::read_names(values);
        let (now, serial, key) = choose|
            now: int,
            serial: Result<Seq<u8>, Seq<char>>,
            key: Result<KeyPair, rcgen::Error>,
        |
            {
                &&& ca::full_length(serial)
                &&& ca::usable(key)
                &&& ca::issued(with_key) == #[trigger] ca::issuance(
                    authority,
                    id@,
                    names,
                    now,
                    serial,
                    key,
                )
            };
        let parts = ca::leaf_parts(id@, names, now, serial->Ok_0);
        assert(fits(now, 86_400));
        assert(ca::signed_leaf(
            parts,
            key->Ok_0,
            authority.certificate(),
            authority.signing_key(),
        ) == Ok::<Seq<u8>, rcgen::Error>(issued.0@));
    }
    if let Ok(der) = alone {
        let (now, serial, key) = choose|
            now: int,
            serial: Result<Seq<u8>, Seq<char>>,
            key: Result<KeyPair, rcgen::Error>,
        |
            {
                &&& ca::full_length(serial)
                &&& ca::usable(key)
                &&& match #[trigger] ca::issuance(
                    authority,
                    id@,
                    Seq::empty(),
                    now,
                    serial,
                    key,
                ) {
                    Ok((bytes, _)) => alone matches Ok(r) && r@ == bytes,
                    Err(fault) => alone matches Err(error) && error@ == fault,
                }
            };
        let parts = ca::leaf_parts(id@, Seq::empty(), now, serial->Ok_0);
        assert(fits(now, 86_400));
        assert(ca::signed_leaf(
            parts,
            key->Ok_0,
            authority.certificate(),
            authority.signing_key(),
        ) == Ok::<Seq<u8>, rcgen::Error>(der@));
    }
}

/// A new authority is one for its trust domain, whatever key is made and whatever the clock shows.
pub proof fn law_new_authorities_are_for_their_trust_domain(
    trust_domain: &str,
    result: Result<CertificateAuthority, InterlinkError>,
)
    requires
        call_ensures(CertificateAuthority::new, (trust_domain,), result),
    ensures
        result matches Ok(authority) ==> exists|
            parts: ProfileParts,
            params: CertificateParams,
            now: int,
        |
            {
                &&& #[trigger] fits(now, 31_536_000)
                &&& is_authority_certificate(parts, trust_domain@, now)
                &&& #[trigger] ca::certificate_params(parts, Seq::empty()) == Ok::<
                    CertificateParams,
                    rcgen::Error,
                >(params)
                &&& #[trigger] ca::self_signed(params, authority.signing_key()) == Ok::<
                    Certificate,
                    rcgen::Error,
                >(authority.certificate())
                &&& ca::signs_here(authority.signing_key())
            },
{
    if let Ok(authority) = result {
        let (key, now) = choose|key: Result<KeyPair, rcgen::Error>, now: int|
            {
                &&& ca::usable(key)
                &&& match #[trigger] ca::founding(trust_domain@, key, now) {
                    Ok(certificate) => {
                        &&& result matches Ok(authority)
                        &&& authority.certificate() == certificate
                        &&& key == Ok::<KeyPair, rcgen::Error>(authority.signing_key())
                    },
                    Err(fault) => result matches Err(error) && error@ == fault,
                }
            };
        let parts = ca::root_parts(trust_domain@, now);
        let params = ca::certificate_params(parts, Seq::empty())->Ok_0;
        assert(fits(now, 31_536_000));
        assert(ca::self_signed(params, authority.signing_key()) == Ok::<Certificate, rcgen::Error>(
            authority.certificate(),
        ));
    }
}

/// The certificate and the key that an authority hands out are those that it signs with.
pub proof fn law_authorities_hand_out_their_own(
    authority: CertificateAuthority,
    der: &[u8],
    key: &KeyPair,
)
    requires
        call_ensures(CertificateAuthority::root_cert_der, (&authority,), der),
        call_ensures(CertificateAuthority::root_key, (&authority,), key),
    ensures
        der@ == ca::certificate_bytes(authority.certificate()),
        *key == authority.signing_key(),
{
}

/// Whether a character is not in a text.
pub open spec fn lacks(s: Seq<char>, c: char) -> bool {
    forall|i: int| 0 <= i < s.len() ==> #[trigger] s[i] != c
}

proof fn lemma_piece_alone(s: Seq<char>, separator: char)
    requires
        lacks(s, separator),
    ensures
        text::pieces(s, separator) == seq![s],
{
    text::lemma_first_of_unique(s, set![separator], s.len() as int);
}

proof fn lemma_piece_before(head: Seq<char>, rest: Seq<char>, separator: char)
    requires
        lacks(head, separator),
    ensures
        text::pieces(head.push(separator) + rest, separator) == seq![head] + text::pieces(
            rest,
            separator,
        ),
{
    let s = head.push(separator) + rest;
    assert forall|i: int| 0 <= i < head.len() implies !set![separator].contains(
        #[trigger] s[i],
    ) by {
        assert(s[i] == head[i]);
    }
    assert(s[head.len() as int] == separator);
    text::lemma_first_of_unique(s, set![separator], head.len() as int);
    assert(s.take(head.len() as int) =~= head);
    assert(s.skip(head.len() as int + 1) =~= rest);
}

/// What was split is what was put together.
proof fn lemma_pieces_recompose(s: Seq<char>, separator: char)
    ensures
        text::pieces(s, separator).len() >= 1,
        lacks(text::pieces(s, separator)[0], separator),
        text::pieces(s, separator).len() == 1 ==> s == text::pieces(s, separator)[0],
        text::pieces(s, separator).len() > 1 ==> exists|rest: Seq<char>|
            s == text::pieces(s, separator)[0].push(separator) + rest && #[trigger] text::pieces(
                rest,
                separator,
            ) == text::pieces(s, separator).skip(1),
{
    let end = text::first_of(s, set![separator]);
    text::lemma_first_of(s, set![separator]);
    let all = text::pieces(s, separator);
    if end >= s.len() {
        assert(all =~= seq![s]);
        assert forall|i: int| 0 <= i < s.len() implies #[trigger] s[i] != separator by {
            assert(!set![separator].contains(s[i]));
        }
    } else {
        let head = s.take(end);
        let rest = s.skip(end + 1);
        assert forall|i: int| 0 <= i < head.len() implies #[trigger] head[i] != separator by {
            assert(!set![separator].contains(s[i]));
        }
        assert(all[0] == head);
        assert(set![separator].contains(s[end]));
        assert(s =~= head.push(separator) + rest);
        assert(all.skip(1) =~= text::pieces(rest, separator));
        lemma_pieces_nonempty(rest, separator);
    }
}

proof fn lemma_pieces_nonempty(s: Seq<char>, separator: char)
    ensures
        text::pieces(s, separator).len() >= 1,
{
}

/// The subject `system:serviceaccount:<namespace>:<account>` names the account, and no other
/// subject names one.
pub proof fn law_subjects_name_their_account(subject: &str, account: Option<String>)
    requires
        call_ensures(provider::account_of_subject, (subject,), account),
    ensures
        account matches Some(name) ==> exists|namespace: Seq<char>|
            #[trigger] is_subject(subject@, namespace, name@),
        forall|namespace: Seq<char>, name: Seq<char>| #[trigger]
            is_subject(subject@, namespace, name) ==> (account matches Some(a) && a@ == name),
{
    let s = subject@;
    let parts = text::pieces(s, ':');
    reveal_strlit("system");
    reveal_strlit("serviceaccount");
    if let Some(name) = account {
        lemma_pieces_recompose(s, ':');
        let r1 = choose|rest: Seq<char>|
            s == parts[0].push(':') + rest && #[trigger] text::pieces(rest, ':') == parts.skip(1);
        lemma_pieces_recompose(r1, ':');
        let r2 = choose|rest: Seq<char>|
            r1 == parts.skip(1)[0].push(':') + rest && #[trigger] text::pieces(rest, ':')
                == parts.skip(1).skip(1);
        lemma_pieces_recompose(r2, ':');
        let r3 = choose|rest: Seq<char>|
            r2 == parts.skip(1).skip(1)[0].push(':') + rest && #[trigger] text::pieces(rest, ':')
                == parts.skip(1).skip(1).skip(1);
        lemma_pieces_recompose(r3, ':');
        assert(parts[1] == parts.skip(1)[0]);
        assert(parts[2] == parts.skip(1).skip(1)[0]);
        assert(parts[3] == parts.skip(1).skip(1).skip(1)[0]);
        assert(r3 == parts[3]);
        assert(s =~= "system"@.push(':') + "serviceaccount"@.push(':') + parts[2].push(':')
            + parts[3]);
        assert(is_subject(s, parts[2], name@));
    }
    assert forall|namespace: Seq<char>, name: Seq<char>| #[trigger]
        is_subject(s, namespace, name) implies account matches Some(a) && a@ == name by {
        lemma_piece_alone(name, ':');
        lemma_piece_before(namespace, name, ':');
        let tail = namespace.push(':') + name;
        lemma_piece_before("serviceaccount"@, tail, ':');
        lemma_piece_before("system"@, "serviceaccount"@.push(':') + tail, ':');
        assert(s =~= "system"@.push(':') + ("serviceaccount"@.push(':') + tail));
    }
}

/// Whether a text is the subject of a service account.
pub open spec fn is_subject(s: Seq<char>, namespace: Seq<char>, account: Seq<char>) -> bool {
    &&& lacks(namespace, ':')
    &&& lacks(account, ':')
    &&& s == "system"@.push(':') + "serviceaccount"@.push(':') + namespace.push(':') + account
}

/// Whether a text is a token with a payload: what stands between its first two dots, or behind the
/// only one.
pub open spec fn has_payload(token: Seq<char>, payload: Seq<char>) -> bool {
    &&& lacks(payload, '.')
    &&& exists|head: Seq<char>, rest: Seq<char>|
        {
            &&& lacks(head, '.')
            &&& token == #[trigger] (head.push('.') + payload + rest)
            &&& rest.len() > 0 ==> rest[0] == '.'
        }
}

/// A token names the account in the subject of its payload, and no account without one.
pub proof fn law_tokens_name_the_account_of_their_subject(
    token: &str,
    payload: Seq<char>,
    subject: &str,
    named: Option<String>,
    account: Option<String>,
)
    requires
        has_payload(token@, payload),
        call_ensures(
            KubernetesIdentityProvider::extract_service_account_from_token,
            (token,),
            account,
        ),
        call_ensures(provider::account_of_subject, (subject,), named),
    ensures
        provider::base64url_bytes(payload) is None ==> account is None,
        provider::base64url_bytes(payload) matches Some(json) ==> {
            &&& provider::json_string(json, "sub"@) is None ==> account is None
            &&& provider::json_string(json, "sub"@) == Some(subject@) ==> match named {
                Some(name) => account matches Some(a) && a@ == name@,
                None => account is None,
            }
        },
{
    let (head, rest) = choose|head: Seq<char>, rest: Seq<char>|
        {
            &&& lacks(head, '.')
            &&& token@ == #[trigger] (head.push('.') + payload + rest)
            &&& rest.len() > 0 ==> rest[0] == '.'
        };
    assert(token@ =~= head.push('.') + (payload + rest));
    lemma_piece_before(head, payload + rest, '.');
    if rest.len() == 0 {
        assert(payload + rest =~= payload);
        lemma_piece_alone(payload, '.');
    } else {
        assert(payload + rest =~= payload.push('.') + rest.skip(1));
        lemma_piece_before(payload, rest.skip(1), '.');
    }
    assert(text::pieces(token@, '.')[1] == payload);
}

/// A token without a dot names no account.
pub proof fn law_tokens_without_payload_name_nobody(token: &str, account: Option<String>)
    requires
        lacks(token@, '.'),
        call_ensures(
            KubernetesIdentityProvider::extract_service_account_from_token,
            (token,),
            account,
        ),
    ensures
        account is None,
{
    lemma_piece_alone(token@, '.');
}

/// The identity of a workload is the configured one, if that is valid. Else it is made of the
/// trust domain, of the namespace of the file or else of the environment, and of the account of
/// the token or else of the environment, and there is none where one of them is not known.
pub proof fn law_workload_identity(
    trust_domain: &str,
    sources: WorkloadSources,
    token: &str,
    of_token: Option<String>,
    result: Result<KubernetesIdentityProvider, InterlinkError>,
)
    requires
        sources.token_file matches Some(file) ==> token@ == text::trimmed(file@),
        call_ensures(
            KubernetesIdentityProvider::extract_service_account_from_token,
            (token,),
            of_token,
        ),
        call_ensures(KubernetesIdentityProvider::new, (trust_domain, sources), result),
    ensures
        ({
            let configured = match sources.identity {
                Some(uri) => identity::identity_of(uri@).ok(),
                None => None,
            };
            let file = match sources.namespace_file {
                Some(file) => text::trimmed(file@),
                None => Seq::empty(),
            };
            let namespace = if file.len() > 0 {
                Some(file)
            } else {
                match (sources.kubernetes_namespace, sources.pod_namespace) {
                    (Some(name), _) => Some(name@),
                    (None, Some(name)) => Some(name@),
                    (None, None) => None,
                }
            };
            let account = match (sources.token_file, of_token, sources.service_account) {
                (Some(_), Some(name), _) => Some(name@),
                (_, _, Some(name)) => Some(name@),
                (_, _, None) => None,
            };
            match (configured, namespace, account) {
                (Some(id), _, _) => result matches Ok(p) && p.provided() == id,
                (None, None, _) => result matches Err(e) && is_identity(
                    e,
                    "could not determine Kubernetes namespace"@,
                ),
                (None, Some(_), None) => result matches Err(e) && is_identity(
                    e,
                    "could not determine Kubernetes service account"@,
                ),
                (None, Some(namespace), Some(account)) => if trust_domain@.len() == 0
                    || namespace.len() == 0 || account.len() == 0 {
                    result matches Err(e) && e is Identity
                } else {
                    &&& result matches Ok(p)
                    &&& p.provided() == (SpiffeParts {
                        trust_domain: trust_domain@,
                        namespace,
                        service_account: account,
                    })
                },
            }
        }),
        result matches Ok(p) ==> p.domain().0 == trust_domain@ && p.domain().1.len() == 0,
{
}

proof fn lemma_trimmed_start(s: Seq<char>)
    ensures
        exists|lead: Seq<char>| s == #[trigger] (lead + text::trimmed_start(s)) && blank(lead),
        text::trimmed_start(s).len() > 0 ==> !text::white_space(text::trimmed_start(s)[0]),
    decreases s.len(),
{
    if s.len() > 0 && text::white_space(s[0]) {
        lemma_trimmed_start(s.skip(1));
        let lead = choose|lead: Seq<char>|
            s.skip(1) == #[trigger] (lead + text::trimmed_start(s.skip(1))) && blank(lead);
        let longer = seq![s[0]] + lead;
        let front = text::trimmed_start(s);
        assert(s =~= seq![s[0]] + s.skip(1));
        assert(seq![s[0]] + (lead + front) =~= longer + front);
        assert forall|i: int| 0 <= i < longer.len() implies text::white_space(
            #[trigger] longer[i],
        ) by {
            if i > 0 {
                assert(longer[i] == lead[i - 1]);
            }
        }
    } else {
        assert(s =~= Seq::<char>::empty() + text::trimmed_start(s));
    }
}

proof fn lemma_trimmed_end(s: Seq<char>)
    ensures
        exists|trail: Seq<char>| s == #[trigger] (text::trimmed_end(s) + trail) && blank(trail),
        text::trimmed_end(s).len() > 0 ==> {
            &&& !text::white_space(text::trimmed_end(s).last())
            &&& text::trimmed_end(s)[0] == s[0]
        },
    decreases s.len(),
{
    if s.len() > 0 && text::white_space(s.last()) {
        lemma_trimmed_end(s.drop_last());
        let trail = choose|trail: Seq<char>|
            s.drop_last() == #[trigger] (text::trimmed_end(s.drop_last()) + trail) && blank(trail);
        let longer = trail.push(s.last());
        let front = text::trimmed_end(s);
        assert(s =~= s.drop_last().push(s.last()));
        assert((front + trail).push(s.last()) =~= front + longer);
        assert forall|i: int| 0 <= i < longer.len() implies text::white_space(
            #[trigger] longer[i],
        ) by {
            if i < trail.len() {
                assert(longer[i] == trail[i]);
            }
        }
    } else {
        assert(s =~= text::trimmed_end(s) + Seq::<char>::empty());
    }
}

/// White space, as Unicode has it: tab to carriage return, the space, the next line, the
/// no-break spaces, the spaces of every width, and the separators of lines and paragraphs.
pub open spec fn is_white(c: char) -> bool {
    let n = c as int;
    9 <= n <= 13 || n == 0x20 || n == 0x85 || n == 0xa0 || n == 0x1680 || 0x2000 <= n <= 0x200a || n
        == 0x2028 || n == 0x2029 || n == 0x202f || n == 0x205f || n == 0x3000
}

/// Nothing but white space.
pub open spec fn blank(s: Seq<char>) -> bool {
    forall|i: int| 0 <= i < s.len() ==> is_white(#[trigger] s[i])
}

/// Trimming takes away the white space at both ends, all of it and nothing else.
pub proof fn law_trimming_takes_the_ends(s: &str, t: String)
    requires
        call_ensures(text::trim, (s,), t),
    ensures
        exists|lead: Seq<char>, trail: Seq<char>|
            s@ == #[trigger] (lead + t@ + trail) && blank(lead) && blank(trail),
        t@.len() > 0 ==> !is_white(t@[0]) && !is_white(t@.last()),
{
    let front = text::trimmed_start(s@);
    lemma_trimmed_start(s@);
    lemma_trimmed_end(front);
    let lead = choose|lead: Seq<char>| s@ == #[trigger] (lead + front) && blank(lead);
    let trail = choose|trail: Seq<char>|
        front == #[trigger] (text::trimmed_end(front) + trail) && blank(trail);
    assert(s@ =~= lead + t@ + trail);
}

/// An identity that is not ASCII gets no certificate, whatever the names.
pub proof fn law_foreign_identities_get_no_certificate(
    authority: CertificateAuthority,
    id: SpiffeId,
    dns_names: &[&str],
    now: i64,
    serial: Result<Vec<u8>, String>,
    key: Result<KeyPair, rcgen::Error>,
    at: Result<(Vec<u8>, Vec<u8>), InterlinkError>,
    with_key: Result<(Vec<u8>, Vec<u8>), InterlinkError>,
)
    requires
        !vstd::utf8::is_ascii_chars(identity::identity_uri(id@)),
        call_ensures(
            CertificateAuthority::issue_at,
            (&authority, &id, dns_names, now, serial, key),
            at,
        ),
        call_ensures(
            CertificateAuthority::issue_leaf_with_key,
            (&authority, &id, dns_names),
            with_key,
        ),
    ensures
        ca::ia5_fault(identity::identity_uri(id@)) matches Some(error) && at matches Err(e)
            && is_identity(e, "SPIFFE URI SAN: "@ + ca::error_form(error)),
        ca::ia5_fault(identity::identity_uri(id@)) matches Some(error) && with_key matches Err(e)
            && is_identity(e, "SPIFFE URI SAN: "@ + ca::error_form(error)),
{
}

/// A trust domain has the name that it was given, and the root certificates in the order in which
/// they were.
pub proof fn law_trust_domains(
    name: &str,
    new: TrustDomain,
    domain: TrustDomain,
    certificate: Vec<u8>,
    extended: TrustDomain,
)
    requires
        call_ensures(TrustDomain::new, (name,), new),
        call_ensures(TrustDomain::with_ca, (domain, certificate), extended),
    ensures
        new.name@ == name@,
        new.ca_certs@.len() == 0,
        extended.name == domain.name,
        extended.ca_certs@.len() == domain.ca_certs@.len() + 1,
        extended.ca_certs@.drop_last() == domain.ca_certs@,
        extended.ca_certs@.last() == certificate,
{
    assert(domain.ca_certs@.push(certificate).drop_last() =~= domain.ca_certs@);
}

/// A fixed provider hands out the identity and the trust domain that it was made of.
pub proof fn law_fixed_providers_hand_out_what_they_were_made_of(
    id: SpiffeId,
    domain: TrustDomain,
    provider: StaticIdentityProvider,
    of_provider: Result<SpiffeId, InterlinkError>,
    its_domain: &TrustDomain,
)
    requires
        call_ensures(StaticIdentityProvider::new, (id, domain), provider),
        call_ensures(
            <StaticIdentityProvider as IdentityProvider>::get_identity,
            (&provider,),
            of_provider,
        ),
        call_ensures(
            <StaticIdentityProvider as IdentityProvider>::get_trust_domain,
            (&provider,),
            its_domain,
        ),
    ensures
        of_provider matches Ok(given) && given@ == id@,
        *its_domain == domain,
{
}

/// A provider of an identity with root certificates has the trust domain of that identity.
pub proof fn law_providers_with_roots_are_of_the_trust_domain_of_their_identity(
    id: SpiffeId,
    roots: Vec<Vec<u8>>,
    provider: StaticIdentityProvider,
    of_provider: Result<SpiffeId, InterlinkError>,
    its_domain: &TrustDomain,
)
    requires
        call_ensures(StaticIdentityProvider::with_ca_bundle, (id, roots), provider),
        call_ensures(
            <StaticIdentityProvider as IdentityProvider>::get_identity,
            (&provider,),
            of_provider,
        ),
        call_ensures(
            <StaticIdentityProvider as IdentityProvider>::get_trust_domain,
            (&provider,),
            its_domain,
        ),
    ensures
        of_provider matches Ok(given) && given@ == id@,
        its_domain.name@ == id.trust_domain@,
        its_domain.ca_certs == roots,
{
}

/// A provider of a workload hands out the identity that it derived.
pub proof fn law_workload_providers_hand_out_what_they_derived(
    trust_domain: &str,
    sources: WorkloadSources,
    provider: KubernetesIdentityProvider,
    of_provider: Result<SpiffeId, InterlinkError>,
    its_domain: &TrustDomain,
)
    requires
        call_ensures(KubernetesIdentityProvider::new, (trust_domain, sources), Ok(provider)),
        call_ensures(
            <KubernetesIdentityProvider as IdentityProvider>::get_identity,
            (&provider,),
            of_provider,
        ),
        call_ensures(
            <KubernetesIdentityProvider as IdentityProvider>::get_trust_domain,
            (&provider,),
            its_domain,
        ),
    ensures
        of_provider matches Ok(given) && given@ == provider.provided(),
        its_domain.name@ == trust_domain@,
        its_domain.ca_certs@.len() == 0,
{
    assert(handshake::byte_strings(its_domain.ca_certs@).len() == 0);
}

} // verus!
