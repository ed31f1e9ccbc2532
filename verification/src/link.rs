//! Addresses, as the `url` library reads them.

use vstd::prelude::*;
use vstd::string::*;

verus! {

/// The scheme of `address` if `address` is a URL, in lower case.
pub uninterp spec fn url_scheme(address: Seq<char>) -> Option<Seq<char>>;

/// Reads an address and returns its scheme.
///
/// Trusted: `url::Url::parse` followed by `Url::scheme`. The outcome depends
/// on the address alone and is named `url_scheme`.
#[verifier::external_body]
pub(crate) fn scheme_of(address: &str) -> (r: Option<String>)
    ensures
        match url_scheme(address@) {
            Some(scheme) => r matches Some(s) && s@ == scheme,
            None => r is None,
        },
{
    url::Url::parse(address).ok().map(|u| u.scheme().to_owned())
}

/// The scheme of an address. The empty address has none; every other
/// address is left to the `url` library.
pub open spec fn scheme(address: Seq<char>) -> Option<Seq<char>> {
    if address.len() == 0 {
        None
    } else {
        url_scheme(address)
    }
}

/// Reads an address and returns its scheme, if it is a URL.
pub fn read_scheme(address: &str) -> (r: Option<String>)
    ensures
        match scheme(address@) {
            Some(scheme) => r matches Some(s) && s@ == scheme,
            None => r is None,
        },
{
    if address.is_empty() {
        None
    } else {
        scheme_of(address)
    }
}

} // verus!
