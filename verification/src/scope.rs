//! Scope-qualified element names.
//!
//! A control loaded from its own XAML has a private namescope: names declared
//! inside it are invisible from the outer root. A name qualified with `/`
//! reaches into it: each segment but the last names a host to step into, the
//! last names the target.

use vstd::prelude::*;
use vstd::string::*;

use crate::strings::chars_of;

verus! {

/// Index of the first `/` in `path`, or its length when there is none.
pub open spec fn first_slash(path: Seq<char>) -> nat
    decreases path.len(),
{
    if path.len() == 0 || path[0] == '/' {
        0
    } else {
        1 + first_slash(path.skip(1))
    }
}

/// Whether walking `path` from `node` can give `r`, where each step is one that
/// `find` can answer: the walk stops with nothing at the first segment that is
/// not found, and otherwise ends with what the last segment names.
pub open spec fn walks<T, F: Fn(&T, &str) -> Option<T>>(
    find: F,
    node: T,
    path: Seq<char>,
    r: Option<T>,
) -> bool
    decreases path.len(),
{
    let k = first_slash(path);
    if k >= path.len() {
        exists|name: &str| name@ == path && #[trigger] find.ensures((&node, name), r)
    } else {
        exists|host: &str, step: Option<T>|
            {
                &&& host@ == path.take(k as int)
                &&& #[trigger] find.ensures((&node, host), step)
                &&& match step {
                    None => r is None,
                    Some(next) => walks(find, next, path.skip(k as int + 1), r),
                }
            }
    }
}

fn find_slash(path: &str) -> (k: usize)
    ensures
        k == first_slash(path@),
        k <= path@.len(),
{
    let chars = chars_of(path);
    let n: usize = chars.len();
    let mut k: usize = 0;
    assert(chars@.skip(0) == chars@);
    while k < n && chars[k] != '/'
        invariant
            k <= n,
            n == chars@.len(),
            first_slash(chars@) == k + first_slash(chars@.skip(k as int)),
        decreases n - k,
    {
        assert(chars@.skip(k as int).skip(1) == chars@.skip(k + 1));
        k = k + 1;
    }
    k
}

/// Walks a `/`-separated path from `root`, one namescope per segment, each step
/// answered by `find`.
pub fn resolve_scope_path<T, F: Fn(&T, &str) -> Option<T>>(root: &T, path: &str, find: F) -> (r:
    Option<T>)
    requires
        forall|node: &T, name: &str| #[trigger] find.requires((node, name)),
    ensures
        walks(find, *root, path@, r),
{
    resolve_from(root, path, &find)
}

fn resolve_from<T, F: Fn(&T, &str) -> Option<T>>(root: &T, path: &str, find: &F) -> (r: Option<T>)
    requires
        forall|node: &T, name: &str| #[trigger] find.requires((node, name)),
    ensures
        walks(*find, *root, path@, r),
    decreases path@.len(),
{
    let k: usize = find_slash(path);
    let n: usize = path.unicode_len();
    if k >= n {
        let r = find(root, path);
        assert(find.ensures((root, path), r));
        r
    } else {
        let host = path.substring_char(0, k);
        let rest = path.substring_char(k + 1, n);
        assert(host@ == path@.take(k as int));
        assert(rest@ == path@.skip(k as int + 1));
        let step = find(root, host);
        assert(find.ensures((root, host), step));
        match step {
            None => None,
            Some(next) => resolve_from(&next, rest, find),
        }
    }
}

/// A plain name, one without `/`, is a single lookup in the root's scope.
pub proof fn law_plain_name_is_one_lookup<T, F: Fn(&T, &str) -> Option<T>>(
    find: F,
    root: T,
    name: Seq<char>,
    r: Option<T>,
)
    requires
        forall|i: int| 0 <= i < name.len() ==> name[i] != '/',
    ensures
        walks(find, root, name, r) <==> exists|n: &str|
            n@ == name && #[trigger] find.ensures((&root, n), r),
{
    lemma_no_slash(name);
}

proof fn lemma_no_slash(name: Seq<char>)
    requires
        forall|i: int| 0 <= i < name.len() ==> name[i] != '/',
    ensures
        first_slash(name) == name.len(),
    decreases name.len(),
{
    if name.len() > 0 {
        assert(name[0] != '/');
        assert forall|i: int| 0 <= i < name.skip(1).len() implies name.skip(1)[i] != '/' by {
            assert(name.skip(1)[i] == name[i + 1]);
        }
        lemma_no_slash(name.skip(1));
    }
}

/// If the host that the first segment names is not found, nothing else decides:
/// the whole path resolves to nothing.
pub proof fn law_unresolved_host_fails<T, F: Fn(&T, &str) -> Option<T>>(
    find: F,
    root: T,
    path: Seq<char>,
    r: Option<T>,
)
    requires
        first_slash(path) < path.len(),
        walks(find, root, path, r),
        forall|host: &str, step: Option<T>|
            host@ == path.take(first_slash(path) as int) && #[trigger] find.ensures(
                (&root, host),
                step,
            ) ==> step is None,
    ensures
        r is None,
{
}

/// Whether walking `a` and then `b` from where that led can give `r`: a first
/// walk that finds nothing ends there.
pub open spec fn walks_on<T, F: Fn(&T, &str) -> Option<T>>(
    find: F,
    root: T,
    a: Seq<char>,
    b: Seq<char>,
    r: Option<T>,
) -> bool {
    exists|mid: Option<T>| #[trigger]
        walks(find, root, a, mid) && match mid {
            None => r is None,
            Some(node) => walks(find, node, b, r),
        }
}

/// Two paths joined by `/`.
pub open spec fn joined(a: Seq<char>, b: Seq<char>) -> Seq<char> {
    a.push('/') + b
}

proof fn lemma_first_slash(path: Seq<char>)
    ensures
        first_slash(path) <= path.len(),
        first_slash(path) < path.len() ==> path[first_slash(path) as int] == '/',
        forall|i: int| 0 <= i < first_slash(path) ==> path[i] != '/',
    decreases path.len(),
{
    if path.len() > 0 && path[0] != '/' {
        let rest = path.skip(1);
        lemma_first_slash(rest);
        assert forall|i: int| 0 <= i < first_slash(path) implies path[i] != '/' by {
            if i > 0 {
                assert(rest[i - 1] == path[i]);
            }
        }
    }
}

/// A joined path is cut where its first part is cut, or else where it is joined.
proof fn lemma_joined(a: Seq<char>, b: Seq<char>)
    ensures
        ({
            let path = joined(a, b);
            let k = first_slash(a) as int;
            &&& first_slash(path) == k < path.len()
            &&& path.take(k) == a.take(k)
            &&& path.skip(k + 1) == if k < a.len() {
                joined(a.skip(k + 1), b)
            } else {
                b
            }
        }),
{
    let path = joined(a, b);
    lemma_first_slash(a);
    lemma_first_slash(path);
    let k = first_slash(a) as int;
    let n = first_slash(path) as int;
    assert forall|i: int| 0 <= i < k implies path[i] != '/' by {
        assert(path[i] == a[i]);
    }
    assert(path[k] == '/');
    if n < k {
        assert(path[n] != '/');
    }
    assert(path.take(k) =~= a.take(k));
    if k < a.len() {
        assert(path.skip(k + 1) =~= joined(a.skip(k + 1), b));
    } else {
        assert(path.skip(k + 1) =~= b);
    }
}

proof fn lemma_split<T, F: Fn(&T, &str) -> Option<T>>(
    find: F,
    root: T,
    a: Seq<char>,
    b: Seq<char>,
    r: Option<T>,
)
    requires
        walks(find, root, joined(a, b), r),
    ensures
        walks_on(find, root, a, b, r),
    decreases a.len(),
{
    let path = joined(a, b);
    let k = first_slash(a) as int;
    lemma_joined(a, b);
    lemma_first_slash(a);
    let (host, step) = choose|host: &str, step: Option<T>|
        {
            &&& host@ == path.take(k)
            &&& #[trigger] find.ensures((&root, host), step)
            &&& match step {
                None => r is None,
                Some(next) => walks(find, next, path.skip(k + 1), r),
            }
        };
    assert(find.ensures((&root, host), step));
    if k == a.len() {
        assert(a.take(k) == a);
        assert(walks(find, root, a, step));
    } else {
        match step {
            None => {
                assert(walks(find, root, a, None::<T>));
            },
            Some(next) => {
                let rest = a.skip(k + 1);
                lemma_split(find, next, rest, b, r);
                let mid = choose|mid: Option<T>| #[trigger]
                    walks(find, next, rest, mid) && match mid {
                        None => r is None,
                        Some(node) => walks(find, node, b, r),
                    };
                assert(walks(find, root, a, mid));
            },
        }
    }
}

proof fn lemma_join<T, F: Fn(&T, &str) -> Option<T>>(
    find: F,
    root: T,
    a: Seq<char>,
    b: Seq<char>,
    r: Option<T>,
)
    requires
        walks_on(find, root, a, b, r),
    ensures
        walks(find, root, joined(a, b), r),
    decreases a.len(),
{
    let path = joined(a, b);
    let k = first_slash(a) as int;
    lemma_joined(a, b);
    lemma_first_slash(a);
    let mid = choose|mid: Option<T>| #[trigger]
        walks(find, root, a, mid) && match mid {
            None => r is None,
            Some(node) => walks(find, node, b, r),
        };
    if k == a.len() {
        let name = choose|name: &str| name@ == a && #[trigger] find.ensures((&root, name), mid);
        assert(a.take(k) == a);
        assert(find.ensures((&root, name), mid));
        assert(walks(find, root, path, r));
    } else {
        let (host, step) = choose|host: &str, step: Option<T>|
            {
                &&& host@ == a.take(k)
                &&& #[trigger] find.ensures((&root, host), step)
                &&& match step {
                    None => mid is None,
                    Some(next) => walks(find, next, a.skip(k + 1), mid),
                }
            };
        assert(find.ensures((&root, host), step));
        if let Some(next) = step {
            assert(walks(find, next, a.skip(k + 1), mid));
            lemma_join(find, next, a.skip(k + 1), b, r);
        }
        assert(walks(find, root, path, r));
    }
}

/// A path can be walked in two goes, split at any `/`: what the first part leads
/// to is where the second starts.
pub proof fn law_paths_compose<T, F: Fn(&T, &str) -> Option<T>>(
    find: F,
    root: T,
    a: Seq<char>,
    b: Seq<char>,
    r: Option<T>,
)
    ensures
        walks(find, root, joined(a, b), r) <==> walks_on(find, root, a, b, r),
{
    if walks(find, root, joined(a, b), r) {
        lemma_split(find, root, a, b, r);
    }
    if walks_on(find, root, a, b, r) {
        lemma_join(find, root, a, b, r);
    }
}

} // verus!
