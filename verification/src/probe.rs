//! Data and wire logic of a single handshake probe: the timing record a
//! successful probe yields, the error kinds a failed one yields, and the byte
//! logic of the SMTP STARTTLS preamble (the `EHLO` line that is written and
//! the `220` acceptance check on what the server answered). The sockets and
//! the TLS negotiation themselves run outside this crate's library and hand
//! their bytes and timings in as plain values.

use vstd::prelude::*;

verus! {

/// Timings of one successful probe, in milliseconds: how long the TCP layer
/// (including any SMTP preamble) took to become ready, and how long the TLS
/// handshake itself took. A failed probe yields no timing at all.
#[derive(Clone, Copy, Debug, PartialEq, Eq, Structural)]
pub struct TlsDuration {
    pub tcp_connect: u64,
    pub handshake: u64,
}

/// What went wrong, for every failure the run can observe.
#[derive(Clone, Copy, Debug, PartialEq, Eq, Structural)]
pub enum ErrorKind {
    /// Name resolution yielded no address; fatal at startup.
    Resolve,
    /// A violated precondition, such as asking for a percentile of no samples.
    Precondition,
    /// TCP connection refused.
    ConnectRefused,
    /// TCP connection reset.
    ConnectReset,
    /// Any other TCP connection failure.
    ConnectOther,
    /// The probe exceeded its deadline.
    Timeout,
    /// The SMTP server did not accept STARTTLS.
    Unsupported,
    /// The TLS negotiation failed.
    TlsHandshake,
    /// The TLS stream could not be shut down cleanly.
    Shutdown,
}

/// What one probe produced: a timing record, or the kind of its failure.
#[derive(Clone, Copy, Debug, PartialEq, Eq, Structural)]
pub enum Outcome {
    Success(TlsDuration),
    Failure(ErrorKind),
}

/// The bytes `"220"` appear somewhere in the buffer.
pub open spec fn contains_220(s: Seq<u8>) -> bool {
    exists|i: int|
        0 <= i && i + 3 <= s.len() && #[trigger] s[i] == 50 && s[i + 1] == 50 && s[i + 2] == 48
}

/// Whether the server's accumulated STARTTLS dialogue accepts the upgrade:
/// acceptance is the substring `"220"` anywhere in the buffer. A probe whose
/// buffer lacks it fails with `ErrorKind::Unsupported`.
pub fn starttls_accepted(buf: &[u8]) -> (r: bool)
    ensures
        r == contains_220(buf@),
{
    let n = buf.len();
    if n < 3 {
        return false;
    }
    let mut i: usize = 0;
    while i <= n - 3
        invariant
            3 <= n == buf@.len(),
            i <= n - 2,
            forall|j: int|
                0 <= j < i ==> !(#[trigger] buf@[j] == 50 && buf@[j + 1] == 50 && buf@[j + 2]
                    == 48),
        decreases n - i,
    {
        if buf[i] == 50 && buf[i + 1] == 50 && buf[i + 2] == 48 {
            return true;
        }
        i += 1;
    }
    false
}

/// The bytes of `"EHLO "`.
pub open spec fn ehlo_prefix() -> Seq<u8> {
    seq![69u8, 72u8, 76u8, 79u8, 32u8]
}

/// The bytes of `"\r\n"`.
pub open spec fn crlf() -> Seq<u8> {
    seq![13u8, 10u8]
}

/// The `EHLO` line of the STARTTLS preamble: `"EHLO "`, the host's textual
/// form, `"\r\n"`.
pub fn ehlo_line(host: &[u8]) -> (r: Vec<u8>)
    ensures
        r@ == ehlo_prefix() + host@ + crlf(),
{
    let mut out: Vec<u8> = Vec::new();
    out.push(69);
    out.push(72);
    out.push(76);
    out.push(79);
    out.push(32);
    proof {
        assert(out@ =~= ehlo_prefix() + host@.subrange(0, 0));
    }
    let mut i: usize = 0;
    while i < host.len()
        invariant
            i <= host@.len(),
            out@ == ehlo_prefix() + host@.subrange(0, i as int),
        decreases host@.len() - i,
    {
        out.push(host[i]);
        proof {
            assert(ehlo_prefix() + host@.subrange(0, i + 1) =~= (ehlo_prefix() + host@.subrange(
                0,
                i as int,
            )).push(host@[i as int]));
        }
        i += 1;
    }
    proof {
        assert(host@.subrange(0, host@.len() as int) =~= host@);
    }
    out.push(13);
    out.push(10);
    proof {
        assert(out@ =~= ehlo_prefix() + host@ + crlf());
    }
    out
}

/// The bytes of the `"STARTTLS\r\n"` command line.
pub open spec fn starttls_command() -> Seq<u8> {
    seq![83u8, 84u8, 65u8, 82u8, 84u8, 84u8, 76u8, 83u8, 13u8, 10u8]
}

/// The `STARTTLS` command line that the preamble writes after the `EHLO`
/// response.
pub fn starttls_line() -> (r: Vec<u8>)
    ensures
        r@ == starttls_command(),
{
    let mut out: Vec<u8> = Vec::new();
    out.push(83);
    out.push(84);
    out.push(65);
    out.push(82);
    out.push(84);
    out.push(84);
    out.push(76);
    out.push(83);
    out.push(13);
    out.push(10);
    proof {
        assert(out@ =~= starttls_command());
    }
    out
}

} // verus!
