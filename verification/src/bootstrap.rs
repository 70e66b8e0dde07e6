//! Where the release bootstrap is published, and which bootstrap record the
//! client ends up using: the downloaded one, or the seed shipped with it.
use vstd::prelude::*;
use crate::address::{self, JoinedUrl, ParsedUrl};
use crate::manifest::{self, Bootstrap};

verus! {

/// The single project prefix under which releases are published.
pub const DEFAULT_ORIGIN: &'static str = "https://shared-public-assets.oss-cn-beijing.aliyuncs.com/atlas-dsh-desktop/";

/// The bootstrap's key below the release origin.
pub const REMOTE_BOOTSTRAP_KEY: &'static str = "bootstrap/windows-x64.json";

/// The largest bootstrap this client reads, in bytes.
pub const MAX_BOOTSTRAP_BYTES: u64 = 1048576;

/// The message of a bootstrap over `MAX_BOOTSTRAP_BYTES`.
pub open spec fn oversize_text() -> Seq<char> {
    "bootstrap exceeds the client maximum size"@
}

/// The release origin, parsed.
pub fn release_origin() -> (res: Result<ParsedUrl, String>)
    ensures
        match address::url_parse(DEFAULT_ORIGIN@) {
            Err(_) => res matches Err(e) && e@ == "release origin is not a URL"@,
            Ok((s, h)) => res matches Ok(u) && u.text@ == s && match h {
                None => u.host is None,
                Some(hv) => u.host matches Some(x) && x@ == hv,
            },
        },
{
    match address::parse_url(DEFAULT_ORIGIN) {
        Ok(u) => Ok(u),
        Err(_) => Err(String::from_str("release origin is not a URL")),
    }
}

/// The bootstrap's address below an origin.
pub fn bootstrap_address(origin: &str) -> (res: Result<JoinedUrl, String>)
    ensures
        match address::url_join(origin@, REMOTE_BOOTSTRAP_KEY@) {
            None => res matches Err(e) && e@ == "cannot resolve bootstrap URL"@,
            Some((s, p)) => res matches Ok(u) && u.text@ == s && u.path@ == p,
        },
{
    match address::join_url(origin, REMOTE_BOOTSTRAP_KEY) {
        Some(u) => Ok(u),
        None => Err(String::from_str("cannot resolve bootstrap URL")),
    }
}

/// Refuses a response whose declared length is over the limit.
pub fn check_declared_size(content_length: Option<u64>) -> (res: Result<(), String>)
    ensures
        match content_length {
            Some(n) if n > MAX_BOOTSTRAP_BYTES => res matches Err(e) && e@ == oversize_text(),
            _ => res is Ok,
        },
{
    match content_length {
        Some(n) => if n > MAX_BOOTSTRAP_BYTES {
            Err(String::from_str("bootstrap exceeds the client maximum size"))
        } else {
            Ok(())
        },
        None => Ok(()),
    }
}

/// Refuses a body over the limit.
pub fn check_body_size(len: usize) -> (res: Result<(), String>)
    ensures
        len <= MAX_BOOTSTRAP_BYTES ==> res is Ok,
        len > MAX_BOOTSTRAP_BYTES ==> (res matches Err(e) && e@ == oversize_text()),
{
    if len as u64 > MAX_BOOTSTRAP_BYTES {
        Err(String::from_str("bootstrap exceeds the client maximum size"))
    } else {
        Ok(())
    }
}

/// A downloaded bootstrap is used only if it is valid.
pub fn accept_remote(bootstrap: Bootstrap) -> (res: Result<Bootstrap, String>)
    ensures
        manifest::bootstrap_fault(bootstrap) is None ==> res == Ok::<Bootstrap, String>(bootstrap),
        manifest::bootstrap_fault(bootstrap) is Some ==> (res matches Err(e) && e@ == "bootstrap is invalid"@),
{
    match bootstrap.validate() {
        Ok(()) => Ok(bootstrap),
        Err(_) => Err(String::from_str("bootstrap is invalid")),
    }
}

/// The seed shipped with the client: a placeholder is kept as it is, any
/// other seed only if it is valid.
pub fn accept_seed(seed: Bootstrap) -> (res: Result<Bootstrap, String>)
    ensures
        manifest::placeholder(seed) || manifest::bootstrap_fault(seed) is None
            ==> res == Ok::<Bootstrap, String>(seed),
        !manifest::placeholder(seed) && manifest::bootstrap_fault(seed) is Some
            ==> (res matches Err(e) && e@ == "embedded bootstrap is invalid"@),
{
    if !seed.is_placeholder() {
        if seed.validate().is_err() {
            return Err(String::from_str("embedded bootstrap is invalid"));
        }
    }
    Ok(seed)
}

/// When the download failed: the seed, if it is a real release record;
/// otherwise the download's error.
pub fn fallback_to_seed(remote_error: &str, seed: Result<Bootstrap, String>) -> (res: Result<Bootstrap, String>)
    ensures
        match seed {
            Err(e) => res == Err::<Bootstrap, String>(e),
            Ok(s) => if manifest::placeholder(s) {
                res matches Err(e) && e@ == "runtime bootstrap is unavailable: "@ + remote_error@
            } else if manifest::bootstrap_fault(s) is Some {
                res matches Err(e) && e@ == "embedded seed is invalid"@
            } else {
                res == Ok::<Bootstrap, String>(s)
            },
        },
{
    match seed {
        Err(e) => Err(e),
        Ok(s) => {
            if s.is_placeholder() {
                let mut message = String::from_str("runtime bootstrap is unavailable: ");
                message.append(remote_error);
                return Err(message);
            }
            if s.validate().is_err() {
                return Err(String::from_str("embedded seed is invalid"));
            }
            Ok(s)
        },
    }
}

} // verus!
