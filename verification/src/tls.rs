//! What a TLS listener is made of, decided from what its files hold. The
//! files are read and parsed elsewhere; here stand the rules: which key is
//! used, what may not be missing, and which protocols are offered.

use vstd::prelude::*;
use vstd::string::StringSliceAdditionalSpecFns;
use crate::config::tls_alpn_protocols;

verus! {

/// The number of streams of each kind that a peer may have open on one
/// HTTP/3 connection.
pub const H3_MAX_CONCURRENT_STREAMS: u32 = 100;

/// The seconds after which an idle HTTP/3 connection is closed.
pub const H3_IDLE_TIMEOUT_SECS: u64 = 60;

/// The early data that an HTTP/3 listener accepts.
pub const H3_MAX_EARLY_DATA_SIZE: u32 = 4294967295;

/// A private key in DER, and the form it is in.
#[derive(Clone, Debug)]
pub enum TlsPrivateKey {
    Pkcs8(Vec<u8>),
    Rsa(Vec<u8>),
}

/// Why no TLS listener can be made of what the files hold.
#[derive(Clone, Copy, Debug, PartialEq, Eq, Structural)]
pub enum TlsError {
    /// The certificate file holds no certificate.
    NoCertificates,
    /// The key file holds no key in a form that is supported.
    NoPrivateKey,
    /// Clients are to be asked for a certificate, and the system has no
    /// root certificate to check one against.
    NoClientRoots,
}

/// What a TLS listener is made of.
#[derive(Clone, Debug)]
pub struct TlsServerPlan {
    /// The certificates that are presented, the server's own first.
    pub cert_chain: Vec<Vec<u8>>,
    pub key: TlsPrivateKey,
    /// The protocols that are offered, in order of preference.
    pub alpn_protocols: Vec<&'static str>,
    /// The root certificates that a client certificate is checked against.
    /// Where there are none, no client is asked for a certificate; where
    /// there are some, a client may still come without one.
    pub client_roots: Option<Vec<Vec<u8>>>,
}

/// Whether `pattern` stands in `text` from `start` on.
pub open spec fn spec_holds_at(text: Seq<u8>, start: int, pattern: Seq<u8>) -> bool {
    forall|j: int| 0 <= j < pattern.len() ==> #[trigger] text[start + j] == pattern[j]
}

/// Whether `pattern` stands somewhere in `text`.
pub open spec fn spec_holds(text: Seq<u8>, pattern: Seq<u8>) -> bool {
    exists|start: int|
        0 <= start && start + pattern.len() <= text.len() && #[trigger] spec_holds_at(
            text,
            start,
            pattern,
        )
}

/// The line that marks an encrypted key in a PEM file.
pub open spec fn spec_encrypted_key_marker() -> Seq<u8> {
    "BEGIN ENCRYPTED PRIVATE KEY".spec_bytes()
}

/// Whether `pattern` stands in `text` from `start` on.
fn holds_at(text: &[u8], start: usize, pattern: &[u8]) -> (found: bool)
    requires
        start + pattern@.len() <= text@.len(),
    ensures
        found == spec_holds_at(text@, start as int, pattern@),
{
    let mut j: usize = 0;
    let total = text.len();
    while j < pattern.len()
        invariant
            j <= pattern@.len(),
            total == text@.len(),
            start + pattern@.len() <= text@.len(),
            forall|k: int| 0 <= k < j ==> #[trigger] text@[start + k] == pattern@[k],
        decreases pattern@.len() - j,
    {
        if text[start + j] != pattern[j] {
            return false;
        }
        j += 1;
    }
    true
}

/// Whether `pattern` stands somewhere in `text`.
pub fn holds(text: &[u8], pattern: &[u8]) -> (found: bool)
    ensures
        found == spec_holds(text@, pattern@),
{
    if pattern.len() > text.len() {
        return false;
    }
    let last = text.len() - pattern.len();
    let mut start: usize = 0;
    loop
        invariant
            last == text@.len() - pattern@.len(),
            start <= last,
            forall|earlier: int| 0 <= earlier < start ==> !#[trigger] spec_holds_at(
                text@,
                earlier,
                pattern@,
            ),
        decreases last - start,
    {
        if holds_at(text, start, pattern) {
            return true;
        }
        if start == last {
            return false;
        }
        start += 1;
    }
}

/// Whether the key of a key file is decrypted before it is used: a
/// password was given, and the file holds an encrypted key.
pub fn uses_encrypted_key(key_password: Option<&str>, key_pem: &[u8]) -> (encrypted: bool)
    ensures
        encrypted == (key_password is Some && spec_holds(key_pem@, spec_encrypted_key_marker())),
{
    match key_password {
        Some(_) => holds(key_pem, "BEGIN ENCRYPTED PRIVATE KEY".as_bytes()),
        None => false,
    }
}

/// The key that is used of the PKCS#8 keys of a key file: the first, if
/// there is one.
pub fn first_pkcs8_key(keys: Vec<Vec<u8>>) -> (key: Option<TlsPrivateKey>)
    ensures
        keys@.len() == 0 ==> key is None,
        keys@.len() > 0 ==> key == Some(TlsPrivateKey::Pkcs8(keys@[0])),
{
    if keys.len() == 0 {
        None
    } else {
        let mut rest = keys;
        Some(TlsPrivateKey::Pkcs8(rest.remove(0)))
    }
}

/// The key that is used of the RSA keys of a key file that holds no PKCS#8
/// key: the first. A file without any is of no use.
pub fn first_rsa_key(keys: Vec<Vec<u8>>) -> (key: Result<TlsPrivateKey, TlsError>)
    ensures
        keys@.len() == 0 ==> key == Err::<TlsPrivateKey, TlsError>(TlsError::NoPrivateKey),
        keys@.len() > 0 ==> key == Ok::<TlsPrivateKey, TlsError>(TlsPrivateKey::Rsa(keys@[0])),
{
    if keys.len() == 0 {
        Err(TlsError::NoPrivateKey)
    } else {
        let mut rest = keys;
        Ok(TlsPrivateKey::Rsa(rest.remove(0)))
    }
}

/// Takes the certificates that a certificate file holds. A file without
/// any is of no use.
pub fn load_tls_cert_chain(certificates: Vec<Vec<u8>>) -> (result: Result<Vec<Vec<u8>>, TlsError>)
    ensures
        certificates@.len() == 0 ==> result == Err::<Vec<Vec<u8>>, TlsError>(
            TlsError::NoCertificates,
        ),
        certificates@.len() > 0 ==> result == Ok::<Vec<Vec<u8>>, TlsError>(certificates),
{
    if certificates.len() == 0 {
        Err(TlsError::NoCertificates)
    } else {
        Ok(certificates)
    }
}

/// Takes the root certificates that the system holds. Without any, no
/// client certificate can be checked.
pub fn load_native_root_store(certificates: Vec<Vec<u8>>) -> (result: Result<
    Vec<Vec<u8>>,
    TlsError,
>)
    ensures
        certificates@.len() == 0 ==> result == Err::<Vec<Vec<u8>>, TlsError>(
            TlsError::NoClientRoots,
        ),
        certificates@.len() > 0 ==> result == Ok::<Vec<Vec<u8>>, TlsError>(certificates),
{
    if certificates.len() == 0 {
        Err(TlsError::NoClientRoots)
    } else {
        Ok(certificates)
    }
}

/// What stands in the way of a listener with these certificates and root
/// certificates, if anything does.
pub open spec fn spec_tls_error(
    certificates: Seq<Vec<u8>>,
    client_roots: Option<Vec<Vec<u8>>>,
) -> Option<TlsError> {
    if certificates.len() == 0 {
        Some(TlsError::NoCertificates)
    } else if client_roots matches Some(roots) && roots@.len() == 0 {
        Some(TlsError::NoClientRoots)
    } else {
        None
    }
}

/// Puts a listener together with the protocols given.
fn plan_listener(
    certificates: Vec<Vec<u8>>,
    key: TlsPrivateKey,
    alpn_protocols: Vec<&'static str>,
    client_roots: Option<Vec<Vec<u8>>>,
) -> (result: Result<TlsServerPlan, TlsError>)
    ensures
        match spec_tls_error(certificates@, client_roots) {
            Some(error) => result == Err::<TlsServerPlan, TlsError>(error),
            None => result == Ok::<TlsServerPlan, TlsError>(
                (TlsServerPlan { cert_chain: certificates, key, alpn_protocols, client_roots }),
            ),
        },
{
    if certificates.len() == 0 {
        return Err(TlsError::NoCertificates);
    }
    let no_roots = match &client_roots {
        Some(roots) => roots.len() == 0,
        None => false,
    };
    if no_roots {
        return Err(TlsError::NoClientRoots);
    }
    Ok(TlsServerPlan { cert_chain: certificates, key, alpn_protocols, client_roots })
}

/// Puts together the TLS listener for HTTP/1.1 and, where it is enabled,
/// HTTP/2. It takes the certificates and the key that the files hold, and
/// the root certificates of the system where clients are to be asked for
/// a certificate.
pub fn load_tls_server_config(
    certificates: Vec<Vec<u8>>,
    key: TlsPrivateKey,
    enable_http2: bool,
    client_roots: Option<Vec<Vec<u8>>>,
) -> (result: Result<TlsServerPlan, TlsError>)
    ensures
        match spec_tls_error(certificates@, client_roots) {
            Some(error) => result == Err::<TlsServerPlan, TlsError>(error),
            None => {
                &&& result is Ok
                &&& result->Ok_0.cert_chain == certificates
                &&& result->Ok_0.key == key
                &&& result->Ok_0.client_roots == client_roots
                &&& enable_http2 ==> result->Ok_0.alpn_protocols@.len() == 2
                    && result->Ok_0.alpn_protocols@[0]@ == "h2"@
                    && result->Ok_0.alpn_protocols@[1]@ == "http/1.1"@
                &&& !enable_http2 ==> result->Ok_0.alpn_protocols@.len() == 1
                    && result->Ok_0.alpn_protocols@[0]@ == "http/1.1"@
            },
        },
{
    plan_listener(certificates, key, tls_alpn_protocols(enable_http2), client_roots)
}

/// Puts together the TLS side of the HTTP/3 listener, which offers `h3`
/// and nothing else.
pub fn plan_h3_endpoint(
    certificates: Vec<Vec<u8>>,
    key: TlsPrivateKey,
    client_roots: Option<Vec<Vec<u8>>>,
) -> (result: Result<TlsServerPlan, TlsError>)
    ensures
        match spec_tls_error(certificates@, client_roots) {
            Some(error) => result == Err::<TlsServerPlan, TlsError>(error),
            None => {
                &&& result is Ok
                &&& result->Ok_0.cert_chain == certificates
                &&& result->Ok_0.key == key
                &&& result->Ok_0.client_roots == client_roots
                &&& result->Ok_0.alpn_protocols@.len() == 1
                &&& result->Ok_0.alpn_protocols@[0]@ == "h3"@
            },
        },
{
    let mut alpn_protocols: Vec<&'static str> = Vec::new();
    alpn_protocols.push("h3");
    plan_listener(certificates, key, alpn_protocols, client_roots)
}

} // verus!
