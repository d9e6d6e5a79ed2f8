use vstd::prelude::*;
use crate::actor::{
    decrement_path, durable_counter, fetch_post, increment_path, is_fresh, read_counter,
    recognized, root_path, step_counter, Counter, Response,
};
use crate::registry::{dispatch_post, identity_of, Registry};
use crate::store::{Store, StoreError, StoreKey, StoreValue};

verus! {

/// The counter value after a sequence of requests has been applied,
/// one at a time, to an instance whose durable counter read `c`.
pub open spec fn run_counter(c: int, paths: Seq<Seq<char>>) -> int
    decreases paths.len(),
{
    if paths.len() == 0 {
        c
    } else {
        run_counter(step_counter(c, paths[0]), paths.drop_first())
    }
}

/// How many of the requests in `paths` are the path `p`.
pub open spec fn count_matching(paths: Seq<Seq<char>>, p: Seq<char>) -> int
    decreases paths.len(),
{
    if paths.len() == 0 {
        0int
    } else {
        (if paths[0] == p {
            1int
        } else {
            0int
        }) + count_matching(paths.drop_first(), p)
    }
}

/// The three recognized paths are pairwise distinct, so each request
/// selects exactly one transition.
pub proof fn lemma_paths_distinct()
    ensures
        increment_path() != decrement_path(),
        increment_path() != root_path(),
        decrement_path() != root_path(),
{
    reveal_strlit("/x/increment");
    reveal_strlit("/x/decrement");
    reveal_strlit("/x/");
    assert(increment_path()[3] == 'i');
    assert(decrement_path()[3] == 'd');
    assert(increment_path().len() == 12);
    assert(root_path().len() == 3);
}

proof fn lemma_count_matching_bounds(paths: Seq<Seq<char>>, p: Seq<char>)
    ensures
        0 <= count_matching(paths, p) <= paths.len(),
    decreases paths.len(),
{
    if paths.len() > 0 {
        lemma_count_matching_bounds(paths.drop_first(), p);
    }
}

/// For every interleaving of increment and decrement requests, the
/// counter moves by exactly the number of increments minus the number
/// of decrements, provided the totals keep it inside the fixed-width
/// range; no intermediate transition is ever lost.
pub proof fn lemma_counter_balance(c: int, paths: Seq<Seq<char>>)
    requires
        forall|i: int|
            0 <= i < paths.len() ==> (#[trigger] paths[i]) == increment_path() || paths[i]
                == decrement_path(),
        i16::MIN <= c <= i16::MAX,
        c + count_matching(paths, increment_path()) <= i16::MAX,
        c - count_matching(paths, decrement_path()) >= i16::MIN,
    ensures
        run_counter(c, paths) == c + count_matching(paths, increment_path()) - count_matching(
            paths,
            decrement_path(),
        ),
    decreases paths.len(),
{
    lemma_paths_distinct();
    if paths.len() > 0 {
        let rest = paths.drop_first();
        assert(forall|i: int|
            0 <= i < rest.len() ==> (#[trigger] rest[i]) == paths[i + 1]);
        lemma_count_matching_bounds(rest, increment_path());
        lemma_count_matching_bounds(rest, decrement_path());
        if paths[0] == increment_path() {
            assert(count_matching(paths, increment_path()) == 1 + count_matching(
                rest,
                increment_path(),
            ));
            assert(step_counter(c, paths[0]) == c + 1);
            lemma_counter_balance(c + 1, rest);
        } else {
            assert(count_matching(paths, decrement_path()) == 1 + count_matching(
                rest,
                decrement_path(),
            ));
            assert(step_counter(c, paths[0]) == c - 1);
            lemma_counter_balance(c - 1, rest);
        }
    }
}

proof fn lemma_count_all_increments(paths: Seq<Seq<char>>)
    requires
        forall|i: int| 0 <= i < paths.len() ==> (#[trigger] paths[i]) == increment_path(),
    ensures
        count_matching(paths, increment_path()) == paths.len(),
        count_matching(paths, decrement_path()) == 0,
    decreases paths.len(),
{
    lemma_paths_distinct();
    if paths.len() > 0 {
        let rest = paths.drop_first();
        assert(forall|i: int|
            0 <= i < rest.len() ==> (#[trigger] rest[i]) == paths[i + 1]);
        lemma_count_all_increments(rest);
    }
}

/// A sequence of `N` increment requests applied serially to a fresh
/// instance, whose durable counter reads zero, leaves the counter at
/// exactly `N`.
pub proof fn lemma_serial_increments(paths: Seq<Seq<char>>)
    requires
        forall|i: int| 0 <= i < paths.len() ==> (#[trigger] paths[i]) == increment_path(),
        paths.len() <= i16::MAX,
    ensures
        run_counter(0, paths) == paths.len(),
{
    lemma_count_all_increments(paths);
    lemma_counter_balance(0, paths);
}

/// The no-op route is idempotent: any number of root-path requests
/// leaves the counter exactly where it was.
pub proof fn lemma_root_idempotent(c: int, paths: Seq<Seq<char>>)
    requires
        forall|i: int| 0 <= i < paths.len() ==> (#[trigger] paths[i]) == root_path(),
    ensures
        run_counter(c, paths) == c,
    decreases paths.len(),
{
    lemma_paths_distinct();
    if paths.len() > 0 {
        let rest = paths.drop_first();
        assert(forall|i: int|
            0 <= i < rest.len() ==> (#[trigger] rest[i]) == paths[i + 1]);
        assert(step_counter(c, paths[0]) == c);
        lemma_root_idempotent(c, rest);
    }
}

/// Each handled request advances the durable counter by exactly the
/// step its path selects: chaining this fact over a request sequence is
/// what `run_counter` folds up.
pub proof fn lemma_fetch_advances_counter(
    pre: Counter,
    post: Counter,
    path: Seq<char>,
    r: Result<Response, StoreError>,
)
    requires
        fetch_post(pre, post, path, r),
        recognized(path),
        pre.store().is_available(),
    ensures
        post.store().is_available(),
        read_counter(post.store()) == step_counter(read_counter(pre.store()), path),
{
    let c1 = step_counter(read_counter(pre.store()), path);
    assert(i16::MIN <= c1 <= i16::MAX);
    assert(post.store().contents()[StoreKey::Counter] == StoreValue::Number(c1 as i16));
}

/// An unrecognized path is rejected without any effect on the store:
/// no record changes and no write is counted; only the ephemeral call
/// counter moves.
pub proof fn lemma_unrecognized_untouched(
    pre: Counter,
    post: Counter,
    path: Seq<char>,
    r: Result<Response, StoreError>,
)
    requires
        fetch_post(pre, post, path, r),
        !recognized(path),
    ensures
        post.store() == pre.store(),
        post.store().write_count() == pre.store().write_count(),
        r == Ok::<Response, StoreError>(Response::RouteNotFound),
        post.call_count() == pre.call_count() + 1,
{
}

/// Round trip through the store: after a successful `put` of `value`
/// under `key`, the store holds exactly `value` under `key`, whatever
/// value it held before.
pub proof fn lemma_put_get_round_trip(pre: Store, post: Store, key: StoreKey, value: StoreValue)
    requires
        post.contents() == pre.contents().insert(key, value),
    ensures
        post.contents().contains_key(key),
        post.contents()[key] == value,
{
}

/// Two distinct logical names always resolve to two distinct
/// identities.
pub proof fn lemma_distinct_identities(a: Seq<char>, b: Seq<char>)
    requires
        a != b,
    ensures
        identity_of(a) != identity_of(b),
{
}

/// Dispatching a request to one name leaves the state of every other
/// identity exactly as it was: the durable records of distinct
/// identities are fully independent.
pub proof fn lemma_independent_state(
    pre: Registry,
    post: Registry,
    name: Seq<char>,
    other: Seq<char>,
    path: Seq<char>,
    r: Result<Response, StoreError>,
)
    requires
        dispatch_post(pre, post, name, path, r),
        identity_of(other) != identity_of(name),
    ensures
        post.lookup(identity_of(other)) == pre.lookup(identity_of(other)),
{
}

/// A fresh identity reads a durable counter of zero.
pub proof fn lemma_fresh_reads_zero(c: Counter)
    requires
        is_fresh(c),
    ensures
        read_counter(c.store()) == 0,
        durable_counter(c.store()) == 0,
{
}

/// A chain of handled requests: the instance went from `pre` to `post`
/// by answering the requests in `paths`, one at a time, each one seeing
/// the state exactly as its predecessor left it.
pub open spec fn fetch_chain(pre: Counter, post: Counter, paths: Seq<Seq<char>>) -> bool
    decreases paths.len(),
{
    if paths.len() == 0 {
        post == pre
    } else {
        exists|mid: Counter, r: Result<Response, StoreError>|
            #[trigger] fetch_post(pre, mid, paths[0], r) && fetch_chain(
                mid,
                post,
                paths.drop_first(),
            )
    }
}

/// The empty chain: no requests handled, nothing changed.
pub proof fn lemma_chain_empty(c: Counter)
    ensures
        fetch_chain(c, c, Seq::<Seq<char>>::empty()),
{
}

/// A chain grows one handled request at a time: whatever chain led to
/// the current state, handling one more request extends it.
pub proof fn lemma_chain_snoc(
    pre: Counter,
    mid: Counter,
    post: Counter,
    paths: Seq<Seq<char>>,
    path: Seq<char>,
    r: Result<Response, StoreError>,
)
    requires
        fetch_chain(pre, mid, paths),
        fetch_post(mid, post, path, r),
    ensures
        fetch_chain(pre, post, paths.push(path)),
    decreases paths.len(),
{
    let grown = paths.push(path);
    assert(grown[0] == if paths.len() == 0 {
        path
    } else {
        paths[0]
    });
    if paths.len() == 0 {
        assert(grown.drop_first() =~= Seq::<Seq<char>>::empty());
        assert(fetch_chain(post, post, grown.drop_first()));
        assert(fetch_post(pre, post, grown[0], r));
    } else {
        let (m1, r1) = choose|m1: Counter, r1: Result<Response, StoreError>|
            #[trigger] fetch_post(pre, m1, paths[0], r1) && fetch_chain(
                m1,
                mid,
                paths.drop_first(),
            );
        lemma_chain_snoc(m1, mid, post, paths.drop_first(), path, r);
        assert(grown.drop_first() =~= paths.drop_first().push(path));
        assert(fetch_post(pre, m1, grown[0], r1));
        assert(fetch_chain(m1, post, grown.drop_first()));
    }
}

/// Serialized requests fold up: a chain of recognized requests against
/// an available store moves the durable counter by exactly the fold of
/// the steps its paths select — no transition is lost or reordered.
pub proof fn lemma_chain_runs_counter(pre: Counter, post: Counter, paths: Seq<Seq<char>>)
    requires
        fetch_chain(pre, post, paths),
        pre.store().is_available(),
        forall|i: int| 0 <= i < paths.len() ==> recognized(#[trigger] paths[i]),
    ensures
        post.store().is_available(),
        read_counter(post.store()) == run_counter(read_counter(pre.store()), paths),
    decreases paths.len(),
{
    if paths.len() > 0 {
        let (mid, r) = choose|mid: Counter, r: Result<Response, StoreError>|
            #[trigger] fetch_post(pre, mid, paths[0], r) && fetch_chain(
                mid,
                post,
                paths.drop_first(),
            );
        lemma_fetch_advances_counter(pre, mid, paths[0], r);
        let rest = paths.drop_first();
        assert(forall|i: int|
            0 <= i < rest.len() ==> (#[trigger] rest[i]) == paths[i + 1]);
        lemma_chain_runs_counter(mid, post, rest);
    }
}

/// A sequence of `N` serialized increment requests against a fresh,
/// never-seen identity leaves its persisted counter at exactly `N`.
pub proof fn lemma_fresh_serial_increments(pre: Counter, post: Counter, paths: Seq<Seq<char>>)
    requires
        is_fresh(pre),
        fetch_chain(pre, post, paths),
        forall|i: int| 0 <= i < paths.len() ==> (#[trigger] paths[i]) == increment_path(),
        paths.len() <= i16::MAX,
    ensures
        durable_counter(post.store()) == paths.len(),
{
    assert(forall|i: int|
        0 <= i < paths.len() ==> recognized(#[trigger] paths[i]));
    lemma_chain_runs_counter(pre, post, paths);
    lemma_serial_increments(paths);
}

/// Over any interleaving of serialized increment and decrement
/// requests, the persisted counter moves by exactly the number of
/// increments minus the number of decrements, provided the totals keep
/// it inside the fixed-width range.
pub proof fn lemma_chain_balance(pre: Counter, post: Counter, paths: Seq<Seq<char>>)
    requires
        fetch_chain(pre, post, paths),
        pre.store().is_available(),
        forall|i: int|
            0 <= i < paths.len() ==> (#[trigger] paths[i]) == increment_path() || paths[i]
                == decrement_path(),
        read_counter(pre.store()) + count_matching(paths, increment_path()) <= i16::MAX,
        read_counter(pre.store()) - count_matching(paths, decrement_path()) >= i16::MIN,
    ensures
        read_counter(post.store()) == read_counter(pre.store()) + count_matching(
            paths,
            increment_path(),
        ) - count_matching(paths, decrement_path()),
{
    assert(forall|i: int|
        0 <= i < paths.len() ==> recognized(#[trigger] paths[i]));
    lemma_chain_runs_counter(pre, post, paths);
    lemma_counter_balance(read_counter(pre.store()), paths);
}

/// Any number of serialized no-op requests leaves the persisted
/// counter exactly where it was.
pub proof fn lemma_chain_root_idempotent(pre: Counter, post: Counter, paths: Seq<Seq<char>>)
    requires
        fetch_chain(pre, post, paths),
        pre.store().is_available(),
        forall|i: int| 0 <= i < paths.len() ==> (#[trigger] paths[i]) == root_path(),
    ensures
        read_counter(post.store()) == read_counter(pre.store()),
{
    assert(forall|i: int|
        0 <= i < paths.len() ==> recognized(#[trigger] paths[i]));
    lemma_chain_runs_counter(pre, post, paths);
    lemma_root_idempotent(read_counter(pre.store()), paths);
}

} // verus!
