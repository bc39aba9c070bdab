//! The resolver core: it routes a request to the first handler whose prefix the
//! path starts with, else to the default backend, else to the embedded store,
//! and decides how a failed load falls back.
//!
//! Backends are outside services. The core never calls one: each operation
//! returns a `Step` that says which backend to ask and with which path, and a
//! load goes on from what the backend answered (`load_after_handler`,
//! `load_after_default`).

use vstd::prelude::*;
use crate::handler::AssetIoAlternative;
use crate::path::{has_prefix, without_prefix};
use crate::store::{lies_under, EmbeddedStore};

verus! {

/// No asset or directory is known at this path.
#[derive(Debug, PartialEq, Eq)]
pub struct NotFound {
    pub path: String,
}

/// Why a load failed: nothing is known at the path, or a backend's own error,
/// handed on unchanged.
#[derive(Debug, PartialEq, Eq)]
pub enum LoadError<E> {
    NotFound(NotFound),
    Backend(E),
}

/// What a request needs next.
#[derive(Debug, PartialEq, Eq)]
pub enum Step<T> {
    /// The request is answered.
    Done(T),
    /// Ask the handler at `index`, with `path`: the request without the
    /// handler's prefix.
    AskHandler { index: usize, path: String },
    /// Ask the default backend, with `path`: the request as it came.
    AskDefault { path: String },
}

/// A directory listing, from the default backend or from the embedded store.
#[derive(Debug)]
pub enum Listing<L> {
    Delegated(L),
    Embedded(Vec<&'static str>),
}

/// Serves assets embedded in memory, or through handlers selected by path prefix
/// and an optional default backend.
pub struct EmbassetIo<B> {
    default_io: Option<B>,
    handlers: Vec<AssetIoAlternative<B>>,
    embedded_resources: EmbeddedStore,
}

impl<B> EmbassetIo<B> {
    /// The handlers, in the order in which they were added.
    pub closed spec fn handlers(&self) -> Seq<AssetIoAlternative<B>> {
        self.handlers@
    }

    /// The default backend, if there is one.
    pub closed spec fn default_backend(&self) -> Option<B> {
        self.default_io
    }

    /// The embedded assets, by path.
    pub closed spec fn embedded(&self) -> Map<Seq<char>, Seq<u8>> {
        self.embedded_resources.view()
    }

    /// The embedded paths, in the order in which they were first registered.
    pub closed spec fn embedded_keys(&self) -> Seq<Seq<char>> {
        self.embedded_resources.keys()
    }

    /// Every handler has a non-empty prefix, and each embedded path is
    /// registered once.
    pub closed spec fn wf(&self) -> bool {
        &&& self.embedded_resources.wf()
        &&& forall|i: int| 0 <= i < self.handlers@.len() ==> (#[trigger] self.handlers@[i]).wf()
    }

    /// Handler `i` serves `path` and no handler added before it does.
    pub open spec fn is_first_handler(&self, i: int, path: Seq<char>) -> bool {
        &&& 0 <= i < self.handlers().len()
        &&& self.handlers()[i].serves(path)
        &&& forall|j: int| 0 <= j < i ==> !(#[trigger] self.handlers()[j]).serves(path)
    }

    /// The handler that a request for `path` goes to: the first one added whose
    /// prefix the path starts with.
    pub open spec fn first_handler(&self, path: Seq<char>) -> Option<int> {
        if exists|i: int| self.is_first_handler(i, path) {
            Some(choose|i: int| self.is_first_handler(i, path))
        } else {
            None
        }
    }

    /// `r` hands a request for `path` to its first handler, with the prefix
    /// removed; else to the default backend; and is `Done` only where there is
    /// neither.
    pub open spec fn routes<T>(&self, path: Seq<char>, r: Step<T>) -> bool {
        match self.first_handler(path) {
            Some(i) => match r {
                Step::AskHandler { index, path: p } => index == i && p@ == without_prefix(
                    path,
                    self.handlers()[i].prefix(),
                ),
                _ => false,
            },
            None => match self.default_backend() {
                Some(_) => match r {
                    Step::AskDefault { path: p } => p@ == path,
                    _ => false,
                },
                None => r is Done,
            },
        }
    }

    /// Some embedded path lies strictly inside the directory `path`.
    pub open spec fn embedded_is_directory(&self, path: Seq<char>) -> bool {
        exists|k: Seq<char>| self.embedded().contains_key(k) && #[trigger] lies_under(k, path)
    }

    /// `r` is what the embedded store holds at exactly `path`, or `NotFound`.
    pub open spec fn embedded_load<E>(&self, path: Seq<char>, r: Result<Vec<u8>, LoadError<E>>) -> bool {
        if self.embedded().contains_key(path) {
            r is Ok && r->Ok_0@ == self.embedded()[path]
        } else {
            match r {
                Err(LoadError::NotFound(e)) => e.path@ == path,
                _ => false,
            }
        }
    }

    /// `r` is the first step of a load of `path`.
    pub open spec fn loads<E>(&self, path: Seq<char>, r: Step<Result<Vec<u8>, LoadError<E>>>) -> bool {
        &&& self.routes(path, r)
        &&& r is Done ==> self.embedded_load(path, r->Done_0)
    }

    /// `r` goes on with `path` below the handlers: it asks the default backend
    /// with `path`, or, where there is none, answers from the embedded store.
    pub open spec fn falls_through<E>(&self, path: Seq<char>, r: Step<Result<Vec<u8>, LoadError<E>>>) -> bool {
        match self.default_backend() {
            Some(_) => match r {
                Step::AskDefault { path: p } => p@ == path,
                _ => false,
            },
            None => r is Done && self.embedded_load(path, r->Done_0),
        }
    }

    /// `r` is the next step of a load, after handler `index` was asked with
    /// `path` and answered `outcome`: its bytes; else, where the handler falls
    /// back, `path` goes on to the default backend or the embedded store,
    /// without a second choice of handler; else the handler's error.
    pub open spec fn continues_after_handler<E>(
        &self,
        index: int,
        path: Seq<char>,
        outcome: Result<Vec<u8>, E>,
        r: Step<Result<Vec<u8>, LoadError<E>>>,
    ) -> bool {
        match outcome {
            Ok(v) => r == Step::<Result<Vec<u8>, LoadError<E>>>::Done(Ok(v)),
            Err(e) => if self.handlers()[index].falls_back() {
                self.falls_through(path, r)
            } else {
                r == Step::<Result<Vec<u8>, LoadError<E>>>::Done(Err(LoadError::Backend(e)))
            },
        }
    }

    /// `r` is the embedded listing of `path`: the embedded paths that start
    /// with it, where it is a directory of the store; else `NotFound`.
    pub open spec fn embedded_listing(&self, path: Seq<char>, r: Result<Vec<&'static str>, NotFound>) -> bool {
        if self.embedded_is_directory(path) {
            r is Ok && r->Ok_0@.map_values(|s: &'static str| s@) == self.embedded_keys().filter(
                |k: Seq<char>| has_prefix(k, path),
            )
        } else {
            r is Err && r->Err_0.path@ == path
        }
    }

    proof fn lemma_first_handler_is(&self, i: int, path: Seq<char>)
        requires
            self.is_first_handler(i, path),
        ensures
            self.first_handler(path) == Some(i),
    {
        let c = choose|c: int| self.is_first_handler(c, path);
        if c < i {
            assert(!self.handlers()[c].serves(path));
        } else if c > i {
            assert(!self.handlers()[i].serves(path));
        }
    }

    /// The index of the handler that a request for `path` goes to.
    fn find_handler(&self, path: &str) -> (r: Option<usize>)
        ensures
            match r {
                Some(i) => self.first_handler(path@) == Some(i as int),
                None => self.first_handler(path@) is None,
            },
    {
        let n = self.handlers.len();
        let mut i: usize = 0;
        while i < n
            invariant
                n == self.handlers@.len(),
                i <= n,
                forall|j: int| 0 <= j < i ==> !(#[trigger] self.handlers@[j]).serves(path@),
            decreases n - i,
        {
            if self.handlers[i].applies_to(path) {
                proof {
                    self.lemma_first_handler_is(i as int, path@);
                }
                return Some(i);
            }
            i = i + 1;
        }
        proof {
            assert forall|k: int| !self.is_first_handler(k, path@) by {
                if 0 <= k < n {
                    assert(!self.handlers@[k].serves(path@));
                }
            }
        }
        None
    }

    /// The step that hands a request for `path` to a backend: its first
    /// handler, else the default backend; `None` where there is neither.
    fn delegate<T>(&self, path: &str) -> (r: Option<Step<T>>)
        ensures
            match r {
                Some(step) => self.routes(path@, step) && !(step is Done),
                None => self.first_handler(path@) is None && self.default_backend() is None,
            },
    {
        match self.find_handler(path) {
            Some(i) => {
                let rest = self.handlers[i].relative_path(path);
                Some(Step::AskHandler { index: i, path: rest.to_owned() })
            },
            None => match &self.default_io {
                Some(_) => Some(Step::AskDefault { path: path.to_owned() }),
                None => None,
            },
        }
    }

    /// The bytes embedded at exactly `path`.
    pub fn load_embedded_path_sync(&self, path: &str) -> (r: Result<Vec<u8>, NotFound>)
        requires
            self.wf(),
        ensures
            self.embedded().contains_key(path@) ==> r is Ok && r->Ok_0@ == self.embedded()[path@],
            !self.embedded().contains_key(path@) ==> r is Err && r->Err_0.path@ == path@,
    {
        match self.embedded_resources.get(path) {
            Some(b) => Ok(vstd::slice::slice_to_vec(b)),
            None => Err(NotFound { path: path.to_owned() }),
        }
    }

    fn load_embedded<E>(&self, path: &str) -> (r: Result<Vec<u8>, LoadError<E>>)
        requires
            self.wf(),
        ensures
            self.embedded_load(path@, r),
    {
        match self.load_embedded_path_sync(path) {
            Ok(v) => Ok(v),
            Err(e) => Err(LoadError::NotFound(e)),
        }
    }

    /// The first step of a load of `path`: ask the first handler that serves
    /// it, else the default backend, else answer from the embedded store.
    pub fn load_path<E>(&self, path: &str) -> (r: Step<Result<Vec<u8>, LoadError<E>>>)
        requires
            self.wf(),
        ensures
            self.loads(path@, r),
    {
        match self.delegate(path) {
            Some(step) => step,
            None => Step::Done(self.load_embedded(path)),
        }
    }

    /// The next step of a load, once handler `index` has answered `outcome`
    /// for `path` (the request without the handler's prefix).
    pub fn load_after_handler<E>(&self, index: usize, path: &str, outcome: Result<Vec<u8>, E>) -> (r: Step<
        Result<Vec<u8>, LoadError<E>>,
    >)
        requires
            self.wf(),
            index < self.handlers().len(),
        ensures
            self.continues_after_handler(index as int, path@, outcome, r),
    {
        match outcome {
            Ok(v) => Step::Done(Ok(v)),
            Err(e) => {
                if self.handlers[index].fallback_on_err() {
                    match &self.default_io {
                        Some(_) => Step::AskDefault { path: path.to_owned() },
                        None => Step::Done(self.load_embedded(path)),
                    }
                } else {
                    Step::Done(Err(LoadError::Backend(e)))
                }
            },
        }
    }

    /// The end of a load, once the default backend has answered `outcome` for
    /// `path`: its bytes, else what the embedded store holds at `path`.
    pub fn load_after_default<E>(&self, path: &str, outcome: Result<Vec<u8>, E>) -> (r: Result<
        Vec<u8>,
        LoadError<E>,
    >)
        requires
            self.wf(),
        ensures
            outcome is Ok ==> r == Ok::<Vec<u8>, LoadError<E>>(outcome->Ok_0),
            outcome is Err ==> self.embedded_load(path@, r),
    {
        match outcome {
            Ok(v) => Ok(v),
            Err(_) => self.load_embedded(path),
        }
    }

    /// Whether `path` is a directory of the embedded store.
    pub fn is_embedded_directory(&self, path: &str) -> (r: bool)
        requires
            self.wf(),
        ensures
            r == self.embedded_is_directory(path@),
    {
        self.embedded_resources.has_entry_under(path)
    }

    /// Whether `path` is a directory: the answer of the first handler that
    /// serves it, else that of the default backend, taken as it is; where
    /// there is neither, the embedded store answers.
    pub fn is_directory(&self, path: &str) -> (r: Step<bool>)
        requires
            self.wf(),
        ensures
            self.routes(path@, r),
            r is Done ==> r->Done_0 == self.embedded_is_directory(path@),
    {
        match self.delegate(path) {
            Some(step) => step,
            None => Step::Done(self.is_embedded_directory(path)),
        }
    }

    /// The embedded paths that start with `path`, where `path` is a directory
    /// of the embedded store; else `NotFound`.
    pub fn read_embedded_directory(&self, path: &str) -> (r: Result<Vec<&'static str>, NotFound>)
        requires
            self.wf(),
        ensures
            self.embedded_listing(path@, r),
    {
        if self.is_embedded_directory(path) {
            Ok(self.embedded_resources.keys_with_prefix(path))
        } else {
            Err(NotFound { path: path.to_owned() })
        }
    }

    /// The listing of `path`: the first handler that serves it answers, as it
    /// is; else the default backend (see `read_directory_after_default`);
    /// where there is neither, the embedded store.
    pub fn read_directory(&self, path: &str) -> (r: Step<Result<Vec<&'static str>, NotFound>>)
        requires
            self.wf(),
        ensures
            self.routes(path@, r),
            r is Done ==> self.embedded_listing(path@, r->Done_0),
    {
        match self.delegate(path) {
            Some(step) => step,
            None => Step::Done(self.read_embedded_directory(path)),
        }
    }

    /// The listing of `path`, once the default backend has answered `outcome`:
    /// its listing, else the embedded one.
    pub fn read_directory_after_default<L, E>(&self, path: &str, outcome: Result<L, E>) -> (r: Result<
        Listing<L>,
        NotFound,
    >)
        requires
            self.wf(),
        ensures
            outcome is Ok ==> r == Ok::<Listing<L>, NotFound>(Listing::Delegated(outcome->Ok_0)),
            outcome is Err ==> match r {
                Ok(Listing::Embedded(v)) => self.embedded_listing(path@, Ok(v)),
                Ok(Listing::Delegated(_)) => false,
                Err(e) => self.embedded_listing(path@, Err(e)),
            },
    {
        match outcome {
            Ok(l) => Ok(Listing::Delegated(l)),
            Err(_) => match self.read_embedded_directory(path) {
                Ok(v) => Ok(Listing::Embedded(v)),
                Err(e) => Err(e),
            },
        }
    }

    /// Which backend to ask to watch `path`: its first handler, else the
    /// default backend; `Done` where the path is embedded only, which needs no
    /// watching. What the backend answers is advisory: the watch succeeds
    /// whatever it says.
    pub fn watch_path_for_changes(&self, path: &str) -> (r: Step<()>)
        ensures
            self.routes(path@, r),
    {
        match self.delegate(path) {
            Some(step) => step,
            None => Step::Done(()),
        }
    }

    /// The end of a watch, once a backend has answered `outcome`: watching is
    /// advisory, so it succeeds whatever the backend said.
    pub fn watch_after_backend<E>(&self, outcome: Result<(), E>) -> (r: Result<(), E>)
        ensures
            r == Ok::<(), E>(()),
    {
        match outcome {
            Ok(()) => Ok(()),
            Err(_) => Ok(()),
        }
    }

    /// Whether the default backend is to be asked to watch for changes. As for
    /// a path, what it answers is advisory.
    pub fn watch_for_changes(&self) -> (r: bool)
        ensures
            r == self.default_backend() is Some,
    {
        self.default_io.is_some()
    }

    /// A resolver that serves embedded assets and those of the handlers added
    /// to it.
    pub fn new() -> (r: Self)
        ensures
            r.wf(),
            r.default_backend() is None,
            r.handlers() == Seq::<AssetIoAlternative<B>>::empty(),
            r.embedded() == Map::<Seq<char>, Seq<u8>>::empty(),
    {
        EmbassetIo { default_io: None, handlers: Vec::new(), embedded_resources: EmbeddedStore::new() }
    }

    /// A resolver that asks `default_io` for every path that no handler serves.
    pub fn with_default_assetio(default_io: B) -> (r: Self)
        ensures
            r.wf(),
            r.default_backend() == Some(default_io),
            r.handlers() == Seq::<AssetIoAlternative<B>>::empty(),
            r.embedded() == Map::<Seq<char>, Seq<u8>>::empty(),
    {
        EmbassetIo {
            default_io: Some(default_io),
            handlers: Vec::new(),
            embedded_resources: EmbeddedStore::new(),
        }
    }

    /// Adds a handler after those already added.
    /// It returns the resolver, for chaining.
    pub fn add_handler(&mut self, handler: AssetIoAlternative<B>) -> (r: &mut Self)
        requires
            old(self).wf(),
            handler.wf(),
        ensures
            (*r).wf(),
            (*r).handlers() == old(self).handlers().push(handler),
            (*r).default_backend() == old(self).default_backend(),
            (*r).embedded() == old(self).embedded(),
            (*r).embedded_keys() == old(self).embedded_keys(),
            *final(self) == *final(r),
    {
        self.handlers.push(handler);
        proof {
            assert forall|i: int| 0 <= i < self.handlers@.len() implies (#[trigger] self.handlers@[i]).wf() by {
                if i < old(self).handlers@.len() {
                    assert(self.handlers@[i] == old(self).handlers@[i]);
                }
            }
        }
        self
    }

    /// Embeds `data` at `path`, replacing what was embedded there before. It
    /// returns the resolver, for chaining.
    pub fn add_embedded_asset(&mut self, path: &'static str, data: &'static [u8]) -> (r: &mut Self)
        requires
            old(self).wf(),
        ensures
            (*r).wf(),
            (*r).embedded() == old(self).embedded().insert(path@, data@),
            old(self).embedded().contains_key(path@) ==> (*r).embedded_keys() == old(self).embedded_keys(),
            !old(self).embedded().contains_key(path@) ==> (*r).embedded_keys() == old(self).embedded_keys().push(path@),
            (*r).handlers() == old(self).handlers(),
            (*r).default_backend() == old(self).default_backend(),
            *final(self) == *final(r),
    {
        self.embedded_resources.insert(path, data);
        self
    }

    /// The number of handlers.
    pub fn handler_count(&self) -> (r: usize)
        ensures
            r == self.handlers().len(),
    {
        self.handlers.len()
    }

    /// The handler at `index`.
    pub fn handler(&self, index: usize) -> (r: &AssetIoAlternative<B>)
        requires
            index < self.handlers().len(),
        ensures
            *r == self.handlers()[index as int],
    {
        &self.handlers[index]
    }

    /// The default backend, if there is one.
    pub fn default_io(&self) -> (r: Option<&B>)
        ensures
            match r {
                Some(b) => self.default_backend() == Some(*b),
                None => self.default_backend() is None,
            },
    {
        match &self.default_io {
            Some(b) => Some(b),
            None => None,
        }
    }

    /// The embedded paths are the keys of the embedded map, each once.
    pub proof fn lemma_embedded_keys(&self)
        requires
            self.wf(),
        ensures
            self.embedded_keys().no_duplicates(),
            self.embedded_keys().to_set() == self.embedded().dom(),
    {
        self.embedded_resources.lemma_keys_domain();
    }
}

impl<B> Default for EmbassetIo<B> {
    /// The same as `EmbassetIo::new`.
    fn default() -> (r: Self)
        ensures
            r.wf(),
            r.default_backend() is None,
            r.handlers() == Seq::<AssetIoAlternative<B>>::empty(),
            r.embedded() == Map::<Seq<char>, Seq<u8>>::empty(),
    {
        Self::new()
    }
}

} // verus!
