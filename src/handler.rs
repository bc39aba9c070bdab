//! Alternate handlers: a path prefix (the "protocol") bound to a backend, with a
//! flag that says whether a failed load falls back to the rest of the resolution.

use vstd::prelude::*;
use smol_str::SmolStr;
use crate::path::{has_prefix, starts_with, strip_prefix, without_prefix};

verus! {

#[verifier::external_type_specification]
#[verifier::external_body]
pub struct ExSmolStr(SmolStr);

/// The characters that a `SmolStr` holds.
pub uninterp spec fn smol_text(s: SmolStr) -> Seq<char>;

/// Relies on `SmolStr::new`: the new string holds the characters of `text`.
#[verifier::external_body]
fn smol_new(text: &str) -> (r: SmolStr)
    ensures
        smol_text(r) == text@,
{
    SmolStr::new(text)
}

/// Relies on `SmolStr::as_str`: it lends out the characters that the string holds.
#[verifier::external_body]
fn smol_as_str(s: &SmolStr) -> (r: &str)
    ensures
        r@ == smol_text(*s),
{
    s.as_str()
}

/// A backend that serves every path that starts with `path_start`.
pub struct AssetIoAlternative<B> {
    path_start: SmolStr,
    fallback_on_err: bool,
    asset_io: B,
}

impl<B> AssetIoAlternative<B> {
    /// The prefix that routes a path to this handler.
    pub closed spec fn prefix(&self) -> Seq<char> {
        smol_text(self.path_start)
    }

    /// Whether a failed load through this handler goes on with the rest of the
    /// resolution.
    pub closed spec fn falls_back(&self) -> bool {
        self.fallback_on_err
    }

    /// The backend that this handler delegates to.
    pub closed spec fn backend(&self) -> B {
        self.asset_io
    }

    /// The prefix is not empty.
    pub open spec fn wf(&self) -> bool {
        self.prefix().len() > 0
    }

    /// Whether this handler serves `path`.
    pub open spec fn serves(&self, path: Seq<char>) -> bool {
        has_prefix(path, self.prefix())
    }

    /// Creates a handler for the paths that start with `path_start`.
    pub fn new(path_start: &str, asset_io: B, fallback_on_err: bool) -> (r: Self)
        requires
            path_start@.len() > 0,
        ensures
            r.wf(),
            r.prefix() == path_start@,
            r.falls_back() == fallback_on_err,
            r.backend() == asset_io,
    {
        AssetIoAlternative { path_start: smol_new(path_start), fallback_on_err, asset_io }
    }

    /// The prefix, as a string.
    pub fn path_start(&self) -> (r: &str)
        ensures
            r@ == self.prefix(),
    {
        smol_as_str(&self.path_start)
    }

    /// Whether a failed load through this handler falls back.
    pub fn fallback_on_err(&self) -> (r: bool)
        ensures
            r == self.falls_back(),
    {
        self.fallback_on_err
    }

    /// The backend.
    pub fn asset_io(&self) -> (r: &B)
        ensures
            *r == self.backend(),
    {
        &self.asset_io
    }

    /// Whether this handler serves `path`.
    pub fn applies_to(&self, path: &str) -> (r: bool)
        ensures
            r == self.serves(path@),
    {
        starts_with(path, smol_as_str(&self.path_start))
    }

    /// The part of `path` that the backend is handed: the prefix is removed.
    pub fn relative_path<'a>(&self, path: &'a str) -> (r: &'a str)
        requires
            self.serves(path@),
        ensures
            r@ == without_prefix(path@, self.prefix()),
    {
        strip_prefix(path, smol_as_str(&self.path_start))
    }
}

} // verus!
