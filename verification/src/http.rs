//! What the requests to the remote services have in common.

use crate::text;
use vstd::prelude::*;
use vstd::string::*;

verus! {

broadcast use vstd::string::group_string_axioms;

/// The status of a reply: its code, and the way it is shown.
#[derive(Debug)]
pub struct HttpStatus {
    pub code: u16,
    pub shown: String,
}

impl HttpStatus {
    /// The request succeeded.
    pub open spec fn success(self) -> bool {
        200 <= self.code < 300
    }

    /// True when the request succeeded.
    pub fn is_success(&self) -> (success: bool)
        ensures
            success == self.success(),
            success == (200 <= self.code <= 299),
    {
        200 <= self.code && self.code < 300
    }
}

/// The address of `path` below `base`, whose trailing slashes do not count.
pub open spec fn address(base: Seq<char>, path: Seq<char>) -> Seq<char> {
    text::without_trailing(base, '/') + path
}

/// The address of `path` below `base`, whose trailing slashes do not count.
pub fn url(base: &str, path: &str) -> (url: String)
    ensures
        url@ == address(base@, path@),
{
    text::trim_end_of(base, '/').to_owned().concat(path)
}

/// The value of the header that authorizes a request.
pub fn bearer(api_key: &str) -> (value: String)
    ensures
        value@ == "Bearer "@ + api_key@,
{
    "Bearer ".to_owned().concat(api_key)
}

/// The message for a reply that is no success.
pub open spec fn refusal(what: Seq<char>, status: HttpStatus, detail: Seq<char>) -> Seq<char> {
    what + " failed ("@ + status.shown@ + "): "@ + detail
}

/// The message for a reply that is no success.
pub fn refused(what: &str, status: &HttpStatus, detail: &str) -> (message: String)
    ensures
        message@ == refusal(what@, *status, detail@),
        message@ == what@ + " failed ("@ + status.shown@ + "): "@ + detail@,
{
    what.to_owned().concat(" failed (").concat(&status.shown).concat("): ").concat(detail)
}

/// A base with trailing slashes and one without them give the same address.
pub proof fn trailing_slash_does_not_count(base: Seq<char>, path: Seq<char>)
    ensures
        address(base.push('/'), path) == address(base, path),
{
    assert(base.push('/').drop_last() =~= base);
}

/// The address is the whole base, less the slashes at its end, and the whole path.
pub proof fn address_joins_base_and_path(base: Seq<char>, slashes: nat, path: Seq<char>)
    requires
        base.len() == 0 || base.last() != '/',
    ensures
        address(base + Seq::new(slashes, |i: int| '/'), path) == base + path,
    decreases slashes,
{
    let all = Seq::new(slashes, |i: int| '/');
    if slashes == 0 {
        assert(base + all =~= base);
    } else {
        let fewer = Seq::new((slashes - 1) as nat, |i: int| '/');
        assert(base + all =~= (base + fewer).push('/'));
        trailing_slash_does_not_count(base + fewer, path);
        address_joins_base_and_path(base, (slashes - 1) as nat, path);
    }
}

}
