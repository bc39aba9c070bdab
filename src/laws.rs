//! Properties of resolution that relate several operations.

use vstd::prelude::*;
use crate::path::{as_folder, has_prefix, without_prefix};
use crate::resolver::{EmbassetIo, LoadError, NotFound, Step};
use crate::store::lies_under;

verus! {

proof fn lemma_filter_no_duplicates<A>(s: Seq<A>, p: spec_fn(A) -> bool)
    requires
        s.no_duplicates(),
    ensures
        s.filter(p).no_duplicates(),
    decreases s.len(),
{
    reveal(Seq::filter);
    if s.len() > 0 {
        let rest = s.drop_last();
        assert(rest.no_duplicates()) by {
            assert forall|i: int, j: int| 0 <= i < rest.len() && 0 <= j < rest.len() && i != j
                implies rest[i] != rest[j] by {
                assert(rest[i] == s[i] && rest[j] == s[j]);
            }
        }
        lemma_filter_no_duplicates(rest, p);
        if p(s.last()) {
            let f = rest.filter(p);
            if f.contains(s.last()) {
                rest.lemma_filter_contains_rev(p, s.last());
                let k = choose|k: int| 0 <= k < rest.len() && rest[k] == s.last();
                assert(s[k] == s[s.len() - 1]);
            }
            assert forall|i: int, j: int| 0 <= i < f.push(s.last()).len() && 0 <= j < f.push(s.last()).len() && i != j
                implies f.push(s.last())[i] != f.push(s.last())[j] by {
                if i < f.len() && j < f.len() {
                } else if i < f.len() {
                    assert(f.contains(f[i]));
                } else {
                    assert(f.contains(f[j]));
                }
            }
        }
    }
}

/// With no handler and no default backend, a load of an embedded path answers
/// its bytes at once, and a load of any other path answers `NotFound` with that
/// path.
pub proof fn lemma_embedded_only_load<B, E>(
    io: EmbassetIo<B>,
    path: Seq<char>,
    r: Step<Result<Vec<u8>, LoadError<E>>>,
)
    requires
        io.wf(),
        io.handlers().len() == 0,
        io.default_backend() is None,
        io.loads(path, r),
    ensures
        io.embedded().contains_key(path) ==> r is Done && r->Done_0 is Ok
            && r->Done_0->Ok_0@ == io.embedded()[path],
        !io.embedded().contains_key(path) ==> r is Done && r->Done_0 is Err
            && r->Done_0->Err_0 is NotFound && r->Done_0->Err_0->NotFound_0.path@ == path,
{
    assert(!exists|i: int| io.is_first_handler(i, path));
}

/// A registered path with nothing registered under it is no directory.
pub proof fn lemma_leaf_is_not_directory<B>(io: EmbassetIo<B>, path: Seq<char>)
    requires
        io.wf(),
        io.embedded().contains_key(path),
        forall|k: Seq<char>| io.embedded().contains_key(k) ==> !#[trigger] lies_under(k, path),
    ensures
        !io.embedded_is_directory(path),
{
}

/// Every proper ancestor of a registered path is a directory.
pub proof fn lemma_ancestor_is_directory<B>(io: EmbassetIo<B>, k: Seq<char>, path: Seq<char>)
    requires
        io.wf(),
        io.embedded().contains_key(k),
        has_prefix(k, as_folder(path)),
        k != path,
    ensures
        io.embedded_is_directory(path),
{
    assert(lies_under(k, path));
}

/// A path that registered paths only start with as a string, not as a folder,
/// is no directory: `asset` against a registered `asset.png`.
pub proof fn lemma_string_prefix_is_not_directory<B>(io: EmbassetIo<B>, path: Seq<char>)
    requires
        io.wf(),
        forall|k: Seq<char>| io.embedded().contains_key(k) ==> !has_prefix(k, #[trigger] as_folder(path)),
    ensures
        !io.embedded_is_directory(path),
{
}

/// An embedded listing fails with `NotFound` exactly where the path is no
/// directory; else it holds each registered path that starts with it, once,
/// in any order.
pub proof fn lemma_listing_is_prefix_set<B>(
    io: EmbassetIo<B>,
    path: Seq<char>,
    r: Result<Vec<&'static str>, NotFound>,
)
    requires
        io.wf(),
        io.embedded_listing(path, r),
    ensures
        r is Err <==> !io.embedded_is_directory(path),
        r is Err ==> r->Err_0.path@ == path,
        r is Ok ==> r->Ok_0@.map_values(|s: &'static str| s@).no_duplicates(),
        r is Ok ==> r->Ok_0@.map_values(|s: &'static str| s@).to_set() == io.embedded().dom().filter(
            |k: Seq<char>| has_prefix(k, path),
        ),
{
    if r is Ok {
        io.lemma_embedded_keys();
        let pred = |k: Seq<char>| has_prefix(k, path);
        let keys = io.embedded_keys();
        let listed = r->Ok_0@.map_values(|s: &'static str| s@);
        assert(listed == keys.filter(pred));
        lemma_filter_no_duplicates(keys, pred);
        assert forall|k: Seq<char>| listed.to_set().contains(k) <==> io.embedded().dom().filter(pred).contains(k) by {
            if listed.contains(k) {
                keys.lemma_filter_contains_rev(pred, k);
                let i = choose|i: int| 0 <= i < listed.len() && listed[i] == k;
                keys.lemma_filter_pred(pred, i);
                assert(keys.to_set().contains(k));
            }
            if io.embedded().dom().contains(k) && pred(k) {
                assert(keys.to_set().contains(k));
                let i = choose|i: int| 0 <= i < keys.len() && keys[i] == k;
                keys.lemma_filter_contains(pred, i);
            }
        }
        assert(listed.to_set() =~= io.embedded().dom().filter(pred));
    }
}

/// Where two handlers both serve a path, the one added later is not asked
/// before the one added earlier: the first one added that serves it is.
pub proof fn lemma_first_registered_wins<B>(io: EmbassetIo<B>, path: Seq<char>, i: int, j: int)
    requires
        io.wf(),
        0 <= i < j < io.handlers().len(),
        io.handlers()[i].serves(path),
        io.handlers()[j].serves(path),
    ensures
        io.first_handler(path) is Some,
        io.first_handler(path)->Some_0 <= i,
        io.first_handler(path) != Some(j),
{
    lemma_some_first_handler(io, path, i);
    let c = io.first_handler(path)->Some_0;
    assert(io.is_first_handler(c, path));
    if c > i {
        assert(!io.handlers()[i].serves(path));
    }
}

proof fn lemma_some_first_handler<B>(io: EmbassetIo<B>, path: Seq<char>, k: int)
    requires
        0 <= k < io.handlers().len(),
        io.handlers()[k].serves(path),
    ensures
        exists|i: int| io.is_first_handler(i, path),
    decreases k,
{
    if !io.is_first_handler(k, path) {
        let m = choose|m: int| 0 <= m < k && io.handlers()[m].serves(path);
        lemma_some_first_handler(io, path, m);
    }
}

/// A load through a handler that falls back, whose backend fails, goes on with
/// the path without the handler's prefix, not the request itself, and below the
/// handlers: to the default backend, or, where there is none, to the embedded
/// store.
pub proof fn lemma_fallback_loads_stripped_path<B, E>(
    io: EmbassetIo<B>,
    path: Seq<char>,
    first: Step<Result<Vec<u8>, LoadError<E>>>,
    e: E,
    next: Step<Result<Vec<u8>, LoadError<E>>>,
)
    requires
        io.wf(),
        io.loads(path, first),
        first is AskHandler,
        io.handlers()[first->AskHandler_index as int].falls_back(),
        io.continues_after_handler(first->AskHandler_index as int, first->AskHandler_path@, Err(e), next),
    ensures
        first->AskHandler_path@ == without_prefix(
            path,
            io.handlers()[first->AskHandler_index as int].prefix(),
        ),
        (io.default_backend() is Some) ==> (next is AskDefault)
            && next->AskDefault_path@ == first->AskHandler_path@,
        (io.default_backend() is None) ==> (next is Done)
            && io.embedded_load(first->AskHandler_path@, next->Done_0),
{
}

/// Registering a path twice keeps the later bytes alone, and the path once:
/// `io1` is `io0` after `path` was embedded with `a`, and `io2` is `io1` after
/// it was embedded with `b`.
pub proof fn lemma_latest_registration_wins<B>(
    io0: EmbassetIo<B>,
    io1: EmbassetIo<B>,
    io2: EmbassetIo<B>,
    path: Seq<char>,
    a: Seq<u8>,
    b: Seq<u8>,
)
    requires
        io0.wf(),
        io1.wf(),
        io1.embedded() == io0.embedded().insert(path, a),
        io0.embedded().contains_key(path) ==> io1.embedded_keys() == io0.embedded_keys(),
        !io0.embedded().contains_key(path) ==> io1.embedded_keys() == io0.embedded_keys().push(path),
        io2.wf(),
        io2.embedded() == io1.embedded().insert(path, b),
        io1.embedded().contains_key(path) ==> io2.embedded_keys() == io1.embedded_keys(),
        !io1.embedded().contains_key(path) ==> io2.embedded_keys() == io1.embedded_keys().push(path),
    ensures
        io2.embedded() == io0.embedded().insert(path, b),
        io2.embedded()[path] == b,
        io2.embedded_keys() == io1.embedded_keys(),
        (io2.embedded_keys().filter(|k: Seq<char>| k == path)).len() == 1,
{
    assert(io2.embedded() =~= io0.embedded().insert(path, b));
    io2.lemma_embedded_keys();
    let keys = io2.embedded_keys();
    let pred = |k: Seq<char>| k == path;
    assert(keys.to_set().contains(path));
    let i = choose|i: int| 0 <= i < keys.len() && keys[i] == path;
    keys.lemma_filter_contains(pred, i);
    lemma_filter_no_duplicates(keys, pred);
    let f = keys.filter(pred);
    let j = choose|j: int| 0 <= j < f.len() && f[j] == path;
    if f.len() > 1 {
        let other = if j == 0 { 1int } else { 0int };
        keys.lemma_filter_pred(pred, other);
    }
}

} // verus!
