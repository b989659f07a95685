//! The TLS session template: which single protocol version the client offers
//! and whether 0-RTT early data is enabled. The template is decided here as
//! plain values; building the actual TLS client configuration from it (root
//! store, the verifier that accepts any server certificate) happens outside
//! this crate's library.

use vstd::prelude::*;

verus! {

/// The single TLS protocol version a run restricts its client to.
#[derive(Clone, Copy, Debug, PartialEq, Eq, Structural)]
pub enum TlsVersion {
    Tls12,
    Tls13,
}

/// The application protocol spoken before the handshake: plain TCP, or SMTP
/// with a STARTTLS preamble.
#[derive(Clone, Copy, Debug, PartialEq, Eq, Structural)]
pub enum Protocol {
    Tcp,
    Smtp,
}

/// A TLS client session template: exactly one protocol version, and the 0-RTT
/// early-data flag. The certificate verifier the template implies accepts any
/// server certificate; it is part of the configuration built outside this
/// library.
#[derive(Clone, Copy, Debug, PartialEq, Eq, Structural)]
pub struct SessionTemplate {
    pub version: TlsVersion,
    pub zero_rtt: bool,
}

/// Decide the session template: 0-RTT defaults to off and the protocol
/// version defaults to TLS 1.2 when left unspecified.
pub fn tls_config(zero_rtt: Option<bool>, version: Option<TlsVersion>) -> (r: SessionTemplate)
    ensures
        r.zero_rtt == match zero_rtt {
            Option::Some(b) => b,
            Option::None => false,
        },
        r.version == match version {
            Option::Some(v) => v,
            Option::None => TlsVersion::Tls12,
        },
{
    let z = match zero_rtt {
        Option::Some(b) => b,
        Option::None => false,
    };
    let v = match version {
        Option::Some(v) => v,
        Option::None => TlsVersion::Tls12,
    };
    SessionTemplate { version: v, zero_rtt: z }
}

} // verus!
