//! Locations: URLs of the `url` crate.
//!
//! A URL is more than its text: two URLs with one text can have different hosts and paths, and
//! a reference can stand for different things under them. Contracts speak of a URL by all that
//! is read of it.

use url::Url;
use vstd::prelude::*;

verus! {

/// The URL type of the `url` crate.
#[verifier::external_type_specification]
#[verifier::external_body]
pub struct ExUrl(Url);

/// What is read of a URL.
#[verifier::ext_equal]
pub ghost struct LocationModel {
    /// The serialization, by which URLs compare.
    pub text: Seq<char>,
    pub host: Option<Seq<char>>,
    pub path: Seq<char>,
    /// The URL taken apart, for messages.
    pub debug: Seq<char>,
    /// The texts of the URLs that references stand for under the URL, or why they cannot be
    /// joined to it.
    pub joined: spec_fn(Seq<char>) -> Result<Seq<char>, Seq<char>>,
}

impl LocationModel {
    /// The text of the URL that a reference stands for under the URL, or why it cannot be joined
    /// to it.
    pub open spec fn join(self, reference: Seq<char>) -> Result<Seq<char>, Seq<char>> {
        (self.joined)(reference)
    }
}

/// The serialization of a URL.
pub uninterp spec fn url_text(url: Url) -> Seq<char>;

/// The host of a URL, where it has one.
pub uninterp spec fn url_host(url: Url) -> Option<Seq<char>>;

/// The path of a URL.
pub uninterp spec fn url_path(url: Url) -> Seq<char>;

/// A URL taken apart, for messages.
pub uninterp spec fn url_debug(url: Url) -> Seq<char>;

/// The URL that a reference stands for under a base URL, or why it cannot be joined to it.
pub uninterp spec fn joined_url(base: Url, reference: Seq<char>) -> Result<
    LocationModel,
    Seq<char>,
>;

/// The URL that a text is parsed to, or why it is no absolute URL.
pub uninterp spec fn parsed_url(text: Seq<char>) -> Result<LocationModel, Seq<char>>;

/// The index at or after `from` of the first colon of a text, its length where there is none.
pub open spec fn colon_index(text: Seq<char>, from: int) -> int
    decreases text.len() - from,
{
    if from >= text.len() {
        text.len() as int
    } else if text[from] == ':' {
        from
    } else {
        colon_index(text, from + 1)
    }
}

/// The scheme of a URL: its serialization up to the first colon.
pub open spec fn scheme_in(text: Seq<char>) -> Seq<char> {
    text.take(colon_index(text, 0))
}

/// The text of a URL that was made, or why none was.
pub open spec fn made_text(made: Result<LocationModel, Seq<char>>) -> Result<
    Seq<char>,
    Seq<char>,
> {
    match made {
        Ok(location) => Ok(location.text),
        Err(cause) => Err(cause),
    }
}

/// All that is read of a URL.
pub open spec fn location(url: Url) -> LocationModel {
    LocationModel {
        text: url_text(url),
        host: url_host(url),
        path: url_path(url),
        debug: url_debug(url),
        joined: |reference: Seq<char>| made_text(joined_url(url, reference)),
    }
}

/// Calls `Url::as_str`: the serialization of the URL.
#[verifier::external_body]
pub(crate) fn url_str(url: &Url) -> (text: &str)
    ensures
        text@ == url_text(*url),
{
    url.as_str()
}

/// Calls the `Clone` impl of `Url`: it copies every field, so that all that is read of the copy
/// is what is read of the URL.
#[verifier::external_body]
pub(crate) fn clone_url(url: &Url) -> (copy: Url)
    ensures
        location(copy) == location(*url),
{
    url.clone()
}

/// Calls `Url::parse`: whether the text is an absolute URL, and which, or the text of the
/// error, depends on the text alone.
#[verifier::external_body]
pub(crate) fn parse_url(text: &str) -> (url: Result<Url, String>)
    ensures
        match url {
            Ok(u) => parsed_url(text@) == Ok::<LocationModel, Seq<char>>(location(u)),
            Err(e) => parsed_url(text@) == Err::<LocationModel, Seq<char>>(e@),
        },
{
    Url::parse(text).map_err(|error| error.to_string())
}

/// Calls `Url::join`: what a reference stands for under a base URL, or the text of the error,
/// depends on the base URL and the reference alone.
#[verifier::external_body]
pub(crate) fn join_url(base: &Url, reference: &str) -> (url: Result<Url, String>)
    ensures
        match url {
            Ok(u) => joined_url(*base, reference@) == Ok::<LocationModel, Seq<char>>(location(u)),
            Err(e) => joined_url(*base, reference@) == Err::<LocationModel, Seq<char>>(e@),
        },
{
    base.join(reference).map_err(|error| error.to_string())
}

/// Calls `Url::scheme`: the serialization up to its first colon, since no scheme holds one and
/// one comes behind it.
#[verifier::external_body]
pub(crate) fn scheme_of(url: &Url) -> (scheme: String)
    ensures
        scheme@ == scheme_in(url_text(*url)),
{
    url.scheme().to_owned()
}

/// Calls `Url::host_str`: the host that the URL keeps beside its serialization.
#[verifier::external_body]
pub(crate) fn host_of(url: &Url) -> (host: Option<String>)
    ensures
        match host {
            Some(h) => url_host(*url) == Some(h@),
            None => url_host(*url) is None,
        },
{
    url.host_str().map(|host| host.to_owned())
}

/// Calls `Url::path`: the part of the serialization that the URL keeps as its path.
#[verifier::external_body]
pub(crate) fn path_of(url: &Url) -> (path: String)
    ensures
        path@ == url_path(*url),
{
    url.path().to_owned()
}

/// Calls the `Debug` impl of `Url`: the parts that the URL keeps.
#[verifier::external_body]
pub(crate) fn debug_url(url: &Url) -> (text: String)
    ensures
        text@ == url_debug(*url),
{
    format!("{url:?}")
}

} // verus!
