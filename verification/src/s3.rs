//! S3 connection settings: an endpoint and a bucket read from a profile.

use vstd::prelude::*;

use crate::config::opt_view;
use crate::http::{HttpVersionPolicy, TlsMinimumVersion, TlsPolicy};
use crate::protocol::{s3_capabilities, ProtocolCapabilities};
use crate::session::{clone_opt_string, SessionProfile, SessionProtocol};
use crate::text::{
    chars_of, last_index_in, last_index_of, lemma_last_index_of, push_range, push_str, string_from_chars,
    trim, trim_chars, trim_end_char, trim_end_len,
};

verus! {

/// S3 connection settings.
#[derive(Debug, PartialEq, Eq)]
pub struct S3ConnectionConfig {
    pub endpoint_url: String,
    pub region: Option<String>,
    pub bucket: String,
    pub prefix: Option<String>,
    pub credential_ref: Option<String>,
    pub path_style: bool,
    pub tls_policy: TlsPolicy,
    pub http_version_policy: HttpVersionPolicy,
}

/// The endpoint and bucket that an `endpoint/bucket` text names: the text is
/// trimmed and its trailing slashes dropped, then split at its last slash;
/// both parts must be non-empty.
pub open spec fn endpoint_and_bucket(value: Seq<char>) -> Option<(Seq<char>, Seq<char>)> {
    let t = trim_end_char(trim(value), '/');
    let i = last_index_of(t, '/');
    if i < 0 || i == 0 || i + 1 == t.len() {
        None
    } else {
        Some((t.take(i), t.skip(i + 1)))
    }
}

/// Splits `endpoint/bucket` into its endpoint and bucket.
pub fn split_endpoint_bucket(value: &str) -> (r: Result<(String, String), S3Error>)
    ensures
        match r {
            Ok((e, b)) => endpoint_and_bucket(value@) == Some((e@, b@)),
            Err(err) => endpoint_and_bucket(value@) is None && err == S3Error::MissingBucket,
        },
{
    let vc = chars_of(value);
    let tv = trim_chars(vc.as_slice());
    let n = trim_end_len(tv.as_slice(), tv.len(), '/');
    assert(tv@.take(tv.len() as int) =~= tv@);
    let ghost t = tv@.take(n as int);
    proof {
        lemma_last_index_of(t, '/');
    }
    let i = match last_index_in(tv.as_slice(), n, '/') {
        Some(i) => i,
        None => return Err(S3Error::MissingBucket),
    };
    if i == 0 || i + 1 == n {
        return Err(S3Error::MissingBucket);
    }
    let mut e: Vec<char> = Vec::new();
    push_range(&mut e, tv.as_slice(), 0, i);
    let mut b: Vec<char> = Vec::new();
    push_range(&mut b, tv.as_slice(), i + 1, n);
    assert(e@ =~= t.take(i as int));
    assert(b@ =~= t.skip(i + 1));
    Ok((string_from_chars(e.as_slice()), string_from_chars(b.as_slice())))
}

impl S3ConnectionConfig {
    /// Settings for an S3 profile, whose host holds `endpoint/bucket` and
    /// whose initial path is the object prefix; TLS certificates must be
    /// valid and the HTTP version is negotiated.
    pub fn from_profile(profile: &SessionProfile) -> (r: Result<Self, S3Error>)
        ensures
            profile.protocol != SessionProtocol::S3 ==> r == Err::<Self, S3Error>(
                S3Error::InvalidProtocol(profile.protocol),
            ),
            profile.protocol == SessionProtocol::S3 && endpoint_and_bucket(profile.host@) is None ==> r == Err::<
                Self,
                S3Error,
            >(S3Error::MissingBucket),
            r is Ok <==> profile.protocol == SessionProtocol::S3 && endpoint_and_bucket(profile.host@) is Some,
            r matches Ok(c) ==> {
                &&& endpoint_and_bucket(profile.host@) == Some((c.endpoint_url@, c.bucket@))
                &&& c.region is None
                &&& opt_view(c.prefix) == opt_view(profile.initial_remote_path)
                &&& opt_view(c.credential_ref) == opt_view(profile.credential_ref)
                &&& !c.path_style
                &&& c.tls_policy == (TlsPolicy {
                    minimum_version: TlsMinimumVersion::Default,
                    require_valid_certificate: true,
                })
                &&& c.http_version_policy == HttpVersionPolicy::Auto
            },
    {
        if profile.protocol != SessionProtocol::S3 {
            return Err(S3Error::InvalidProtocol(profile.protocol));
        }
        let (endpoint_url, bucket) = split_endpoint_bucket(profile.host.as_str())?;
        Ok(S3ConnectionConfig {
            endpoint_url,
            region: None,
            bucket,
            prefix: clone_opt_string(&profile.initial_remote_path),
            credential_ref: clone_opt_string(&profile.credential_ref),
            path_style: false,
            tls_policy: TlsPolicy::default(),
            http_version_policy: HttpVersionPolicy::default(),
        })
    }
}

/// What an S3 session can do: objects under prefixes, no real directories.
pub fn capabilities() -> (r: ProtocolCapabilities)
    ensures
        r == s3_capabilities(),
{
    ProtocolCapabilities::s3()
}

/// S3 errors.
#[derive(Clone, Copy, Debug, PartialEq, Eq)]
pub enum S3Error {
    InvalidProtocol(SessionProtocol),
    MissingBucket,
    UnsupportedOperation(&'static str),
}

impl S3Error {
    /// The message of the error, as its `Display` writes it.
    pub open spec fn text(&self) -> Seq<char> {
        match self {
            S3Error::InvalidProtocol(p) => "S3 adapter cannot use "@ + p.identifier(),
            S3Error::MissingBucket => "S3 profile requires endpoint/bucket in host field until rich profiles land"@,
            S3Error::UnsupportedOperation(o) => "S3 operation is not implemented yet: "@ + o@,
        }
    }

    /// The error message.
    pub fn message(&self) -> (r: String)
        ensures
            r@ == self.text(),
    {
        let (head, tail): (&str, &str) = match self {
            S3Error::InvalidProtocol(p) => ("S3 adapter cannot use ", p.as_str()),
            S3Error::MissingBucket => ("S3 profile requires endpoint/bucket in host field until rich profiles land", ""),
            S3Error::UnsupportedOperation(o) => ("S3 operation is not implemented yet: ", *o),
        };
        let mut r = String::from_str(head);
        push_str(&mut r, tail);
        proof {
            reveal_strlit("");
            assert(r@ =~= self.text());
        }
        r
    }
}

} // verus!
