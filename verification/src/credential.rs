//! CredentialProvisioner: a fresh self-signed transport credential, bound to
//! a placeholder identity, for the engine to terminate handshakes with while
//! observing. Nothing is read from or written to persistent storage.
//!
//! Policy: a credential is minted once at startup for the endpoint, and a
//! fresh one is minted for each admitted connection; every mint is an
//! independent, fast, in-memory key generation.

use vstd::prelude::*;

verus! {

/// An ephemeral key/certificate pair: the certificate and its private key,
/// both as DER bytes. Never persisted.
pub struct ServerCredential {
    pub cert_der: Vec<u8>,
    pub key_der: Vec<u8>,
}

impl ServerCredential {
    /// A usable credential has a certificate and a key; DER encodings are
    /// never empty.
    pub open spec fn wf(&self) -> bool {
        self.cert_der@.len() > 0 && self.key_der@.len() > 0
    }
}

#[verifier::external_type_specification]
#[verifier::external_body]
pub struct ExServerConfig(quinn_proto::ServerConfig);

/// Relies on rcgen::generate_simple_self_signed, rcgen::Certificate::der and
/// rcgen::KeyPair::serialize_der: a fresh self-signed certificate valid for
/// the given subject name, as DER bytes, paired with its PKCS#8 private key,
/// also as DER bytes. The key is freshly random, so nothing is stated of the
/// bytes beyond their shape: a DER encoding always has at least one byte.
#[verifier::external_body]
fn generate_self_signed_der(subject: &str) -> (r: Option<(Vec<u8>, Vec<u8>)>)
    ensures
        r matches Some(c) ==> c.0@.len() > 0 && c.1@.len() > 0,
{
    match rcgen::generate_simple_self_signed(vec![subject.to_string()]) {
        Ok(ck) => Some((ck.cert.der().to_vec(), ck.signing_key.serialize_der())),
        Err(_) => None,
    }
}

/// Relies on quinn_proto::ServerConfig::with_single_cert: a server
/// configuration that presents the given DER certificate chain and PKCS#8
/// DER private key, with a randomized handshake token key. Returns `None`
/// only where the crypto backend rejects the key material.
#[verifier::external_body]
fn server_config_from_der(cert_der: &Vec<u8>, key_der: &Vec<u8>) -> (r: Option<
    quinn_proto::ServerConfig,
>) {
    let cert = rustls::pki_types::CertificateDer::from(cert_der.clone());
    let key = rustls::pki_types::PrivateKeyDer::from(rustls::pki_types::PrivatePkcs8KeyDer::from(
        key_der.clone(),
    ));
    quinn_proto::ServerConfig::with_single_cert(vec![cert], key).ok()
}

/// Mint a fresh self-signed credential bound to the placeholder identity
/// `monitor.local`. A returned credential is well-formed: it holds a
/// non-empty certificate and a non-empty key.
pub fn mint_credential() -> (r: Option<ServerCredential>)
    ensures
        r matches Some(c) ==> c.wf(),
{
    match generate_self_signed_der("monitor.local") {
        Some(pair) => Some(ServerCredential { cert_der: pair.0, key_der: pair.1 }),
        None => None,
    }
}

/// Build the engine's server configuration from a credential. The
/// configuration is opaque to the library; the caller hands it to the
/// protocol engine.
pub fn server_config_for(cred: &ServerCredential) -> (r: Option<quinn_proto::ServerConfig>) {
    server_config_from_der(&cred.cert_der, &cred.key_der)
}

/// Mint a fresh credential and build the engine's server configuration from
/// it. Failure is not fatal to a running loop: the caller treats it as a
/// refusal.
pub fn provision_server_config() -> (r: Option<quinn_proto::ServerConfig>) {
    match mint_credential() {
        Some(cred) => server_config_for(&cred),
        None => None,
    }
}

} // verus!
