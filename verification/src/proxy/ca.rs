//! Local certificate authority: where its files live, reading the
//! certificate out of PEM text, and the key under which minted leaf
//! configurations are cached. Key generation and signing happen around
//! these functions.

use vstd::prelude::*;
use vstd::utf8::encode_utf8;
use crate::codec::{base64_decode, base64_standard_decode};
use crate::paths::{cloak_dir, cloak_dir_of, join, path_join};
use crate::text::{
    chars_eq_str, chars_of, extend_chars, lowercase_chars, split_chars, split_on,
    string_from_chars, trim, trim_chars, unicode_lowercase, views,
};
use super::rules::{clean_host, clean_host_chars, opt_view};

verus! {

/// `~/.cloak`, the directory of the local certificate authority.
pub fn ca_dir(home: Option<String>) -> (r: String)
    ensures
        r@ == cloak_dir_of(opt_view(home)),
{
    cloak_dir(home)
}

/// `~/.cloak/ca.pem`, the root certificate of the local authority.
pub fn ca_cert_path(home: Option<String>) -> (r: String)
    ensures
        r@ == join(cloak_dir_of(opt_view(home)), "ca.pem"@),
{
    let d = ca_dir(home);
    path_join(d.as_str(), "ca.pem")
}

/// `~/.cloak/ca.key`, the private key of the local authority.
pub fn ca_key_path(home: Option<String>) -> (r: String)
    ensures
        r@ == join(cloak_dir_of(opt_view(home)), "ca.key"@),
{
    let d = ca_dir(home);
    path_join(d.as_str(), "ca.key")
}


/// The key under which the leaf configuration for `host` is cached: the
/// host part (before any `:port`), trimmed and lower-cased.
pub fn cert_cache_key(host: &str) -> (r: String)
    ensures
        r@ == unicode_lowercase(clean_host(host@)),
{
    let c = clean_host_chars(host);
    let l = lowercase_chars(&c);
    string_from_chars(&l)
}

/// Why no certificate could be read from PEM text.
#[derive(Clone, Copy, Debug, PartialEq, Eq, Structural)]
pub enum PemError {
    /// No `BEGIN CERTIFICATE` block holds any text.
    NoCertificateBlock,
    /// The block's text is not Base64.
    InvalidBase64,
}

impl PemError {
    /// The message reported for the failure.
    pub fn message(&self) -> (r: String)
        ensures
            r@ == match self {
                PemError::NoCertificateBlock => "No certificate block found in PEM"@,
                PemError::InvalidBase64 => "Failed to base64 decode PEM certificate body"@,
            },
    {
        match self {
            PemError::NoCertificateBlock => String::from_str("No certificate block found in PEM"),
            PemError::InvalidBase64 => String::from_str(
                "Failed to base64 decode PEM certificate body",
            ),
        }
    }
}

/// The Base64 text of the first certificate block: the trimmed lines after a
/// `-----BEGIN CERTIFICATE-----` line, up to the first
/// `-----END CERTIFICATE-----` line, concatenated. Lines before the first
/// BEGIN line are skipped, further BEGIN lines are ignored, and an END line
/// ends the scan wherever it stands.
pub open spec fn pem_body(lines: Seq<Seq<char>>, in_cert: bool) -> Seq<char>
    decreases lines.len(),
{
    if lines.len() == 0 {
        Seq::empty()
    } else {
        let t = trim(lines[0]);
        if t == "-----BEGIN CERTIFICATE-----"@ {
            pem_body(lines.drop_first(), true)
        } else if t == "-----END CERTIFICATE-----"@ {
            Seq::empty()
        } else if in_cert {
            t + pem_body(lines.drop_first(), true)
        } else {
            pem_body(lines.drop_first(), false)
        }
    }
}

/// The DER bytes of the first certificate in PEM text (lines are separated
/// by `\n`; a `\r` before it is white space and trimmed away).
pub open spec fn pem_der(pem: Seq<char>) -> Result<Seq<u8>, PemError> {
    let body = pem_body(split_on(pem, '\n'), false);
    if body.len() == 0 {
        Err(PemError::NoCertificateBlock)
    } else {
        match base64_standard_decode(encode_utf8(body)) {
            Some(der) => Ok(der),
            None => Err(PemError::InvalidBase64),
        }
    }
}

/// Parses the first DER certificate out of PEM text.
pub fn pem_to_der(pem_str: &str) -> (r: Result<Vec<u8>, PemError>)
    ensures
        match r {
            Ok(v) => pem_der(pem_str@) == Ok::<Seq<u8>, PemError>(v@),
            Err(e) => pem_der(pem_str@) == Err::<Seq<u8>, PemError>(e),
        },
{
    let pc = chars_of(pem_str);
    let lines = split_chars(&pc, '\n');
    let ghost ls = split_on(pem_str@, '\n');
    let mut in_cert = false;
    let mut b64: Vec<char> = Vec::new();
    let mut i: usize = 0;
    assert(ls.skip(0) =~= ls);
    while i < lines.len()
        invariant
            i <= lines@.len() == ls.len(),
            views(lines@) == ls,
            b64@ + pem_body(ls.skip(i as int), in_cert) == pem_body(ls, false),
        ensures
            b64@ == pem_body(ls, false),
        decreases lines@.len() - i,
    {
        assert(views(lines@)[i as int] == lines@[i as int]@);
        let ghost rest = ls.skip(i as int);
        assert(rest[0] == lines@[i as int]@);
        assert(rest.drop_first() =~= ls.skip(i + 1));
        let t = trim_chars(&lines[i]);
        if chars_eq_str(&t, "-----BEGIN CERTIFICATE-----") {
            in_cert = true;
        } else if chars_eq_str(&t, "-----END CERTIFICATE-----") {
            assert(b64@ + Seq::<char>::empty() =~= b64@);
            break;
        } else if in_cert {
            let ghost before = b64@;
            extend_chars(&mut b64, &t);
            assert(before + (t@ + pem_body(ls.skip(i + 1), true)) =~= b64@ + pem_body(
                ls.skip(i + 1),
                true,
            ));
        }
        i += 1;
        if i == lines.len() {
            assert(b64@ + Seq::<char>::empty() =~= b64@);
        }
    }
    if b64.len() == 0 {
        return Err(PemError::NoCertificateBlock);
    }
    let s = string_from_chars(&b64);
    match base64_decode(s.as_str().as_bytes()) {
        Some(der) => Ok(der),
        None => Err(PemError::InvalidBase64),
    }
}

} // verus!
