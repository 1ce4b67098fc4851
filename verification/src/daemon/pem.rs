//! Certificates and keys out of PEM files.
use vstd::prelude::*;
use vstd::string::*;

verus! {

/// The form that a private key is written in.
#[derive(Clone, Copy, Debug, PartialEq, Eq, Structural)]
pub enum KeyKind {
    Pkcs1,
    Sec1,
    Pkcs8,
}

/// The certificates among the sections of a PEM file, in order, unless a section is broken.
pub uninterp spec fn pem_certs(pem: Seq<u8>) -> Option<Seq<Seq<u8>>>;

/// The first private key among the sections of a PEM file, if it holds one, unless a section before
/// it is broken.
pub uninterp spec fn pem_key(pem: Seq<u8>) -> Option<Option<(KeyKind, Seq<u8>)>>;

/// `rustls_pemfile::certs` on a file that has been read: the certificates in it as DER, or a
/// failure. That is a matter of what the file holds.
#[verifier::external_body]
fn read_certs(pem: &[u8]) -> (r: Option<Vec<Vec<u8>>>)
    ensures
        match r {
            Some(v) => pem_certs(pem@) == Some(v@.map_values(|c: Vec<u8>| c@)),
            None => pem_certs(pem@) is None,
        },
{
    let mut reader = pem;
    rustls_pemfile::certs(&mut reader).map(|c| c.map(|c| c.to_vec())).collect::<Result<_, _>>().ok()
}

/// `rustls_pemfile::private_key` on a file that has been read: the first key in it as DER, with its
/// form, nothing where it holds none, or a failure. That is a matter of what the file holds.
#[verifier::external_body]
fn read_key(pem: &[u8]) -> (r: Option<Option<(KeyKind, Vec<u8>)>>)
    ensures
        match r {
            Some(Some((kind, der))) => pem_key(pem@) == Some(Some((kind, der@))),
            Some(None) => pem_key(pem@) == Some(None::<(KeyKind, Seq<u8>)>),
            None => pem_key(pem@) is None,
        },
{
    let mut reader = pem;
    let key = rustls_pemfile::private_key(&mut reader).ok()?;
    Some(match key {
        Some(rustls::pki_types::PrivateKeyDer::Pkcs1(k)) => {
            Some((KeyKind::Pkcs1, k.secret_pkcs1_der().to_vec()))
        },
        Some(rustls::pki_types::PrivateKeyDer::Sec1(k)) => {
            Some((KeyKind::Sec1, k.secret_sec1_der().to_vec()))
        },
        Some(rustls::pki_types::PrivateKeyDer::Pkcs8(k)) => {
            Some((KeyKind::Pkcs8, k.secret_pkcs8_der().to_vec()))
        },
        _ => None,
    })
}

/// The certificates of a PEM file, or why there are none.
pub open spec fn certs_or(found: Option<Seq<Seq<u8>>>, path: Seq<char>) -> Result<
    Seq<Seq<u8>>,
    Seq<char>,
> {
    match found {
        None => Err("parse certs "@ + path),
        Some(v) => if v.len() == 0 {
            Err("no certificates in "@ + path)
        } else {
            Ok(v)
        },
    }
}

/// What a list of certificates or a complaint says.
pub open spec fn certs_view(r: Result<Vec<Vec<u8>>, String>) -> Result<Seq<Seq<u8>>, Seq<char>> {
    match r {
        Ok(v) => Ok(v@.map_values(|c: Vec<u8>| c@)),
        Err(m) => Err(m@),
    }
}

/// The key of a PEM file, or why there is none.
pub open spec fn key_or(found: Option<Option<(KeyKind, Seq<u8>)>>, path: Seq<char>) -> Result<
    (KeyKind, Seq<u8>),
    Seq<char>,
> {
    match found {
        None => Err("parse key "@ + path),
        Some(None) => Err("no private key in "@ + path),
        Some(Some(k)) => Ok(k),
    }
}

/// What a key or a complaint says.
pub open spec fn key_view(r: Result<(KeyKind, Vec<u8>), String>) -> Result<
    (KeyKind, Seq<u8>),
    Seq<char>,
> {
    match r {
        Ok((kind, der)) => Ok((kind, der@)),
        Err(m) => Err(m@),
    }
}

/// The certificates of a PEM file, given what was read of it. A file without one is no good.
pub fn certs_given(found: Option<Vec<Vec<u8>>>, path: &str) -> (r: Result<Vec<Vec<u8>>, String>)
    ensures
        match found {
            None => r is Err && r->Err_0@ == "parse certs "@ + path@,
            Some(v) if v@.len() == 0 => r is Err && r->Err_0@ == "no certificates in "@ + path@,
            Some(v) => r == Ok::<Vec<Vec<u8>>, String>(v),
        },
{
    match found {
        None => {
            let mut out = "parse certs ".to_owned();
            out.append(path);
            Err(out)
        },
        Some(v) => {
            if v.len() == 0 {
                let mut out = "no certificates in ".to_owned();
                out.append(path);
                Err(out)
            } else {
                Ok(v)
            }
        },
    }
}

/// The certificates of a PEM file, as DER. It fails where a section of the file is broken, and where
/// the file holds no certificate.
pub fn certs_in(pem: &[u8], path: &str) -> (r: Result<Vec<Vec<u8>>, String>)
    ensures
        certs_view(r) == certs_or(pem_certs(pem@), path@),
        match pem_certs(pem@) {
            None => r is Err && r->Err_0@ == "parse certs "@ + path@,
            Some(v) if v.len() == 0 => r is Err && r->Err_0@ == "no certificates in "@ + path@,
            Some(v) => r is Ok && r->Ok_0@.map_values(|c: Vec<u8>| c@) == v,
        },
{
    certs_given(read_certs(pem), path)
}

/// The private key of a PEM file, given what was read of it. A file without one is no good.
pub fn key_given(found: Option<Option<(KeyKind, Vec<u8>)>>, path: &str) -> (r: Result<
    (KeyKind, Vec<u8>),
    String,
>)
    ensures
        match found {
            None => r is Err && r->Err_0@ == "parse key "@ + path@,
            Some(None) => r is Err && r->Err_0@ == "no private key in "@ + path@,
            Some(Some(k)) => r == Ok::<(KeyKind, Vec<u8>), String>(k),
        },
{
    match found {
        None => {
            let mut out = "parse key ".to_owned();
            out.append(path);
            Err(out)
        },
        Some(None) => {
            let mut out = "no private key in ".to_owned();
            out.append(path);
            Err(out)
        },
        Some(Some(k)) => Ok(k),
    }
}

/// The first private key of a PEM file, as DER and with its form. It fails where a section of the
/// file before the key is broken, and where the file holds no key.
pub fn key_in(pem: &[u8], path: &str) -> (r: Result<(KeyKind, Vec<u8>), String>)
    ensures
        key_view(r) == key_or(pem_key(pem@), path@),
        match pem_key(pem@) {
            None => r is Err && r->Err_0@ == "parse key "@ + path@,
            Some(None) => r is Err && r->Err_0@ == "no private key in "@ + path@,
            Some(Some((kind, der))) => r is Ok && r->Ok_0.0 == kind && r->Ok_0.1@ == der,
        },
{
    key_given(read_key(pem), path)
}

}
