//! The process-wide application resources: one dictionary that is fed by the
//! resources declared in code and by the dictionary chains of all views.
//!
//! It is installed again only when what feeds it has changed, and not before
//! every dictionary of the chain has loaded. A chain alone is installed in
//! dependency order; as soon as something is declared in code, the chain, the
//! merged dictionaries and the declared entries go into one dictionary, each
//! taking precedence over the one before.

use std::sync::Arc;

use vstd::prelude::*;
use vstd::utf8::{decode_utf8, valid_utf8};

use crate::keyed::{has_key, key_index, map_of, values_view, KeyedMap, KeyedSet};
use crate::order::{ascending, insert_in_order};
use crate::resources::{NoesisResourcesInstalled, ResourceEntry, ResourceValue};
use crate::scalar::{copy_list, SameValue};
use crate::strings::{decode_lossy, lists_string, lossy_text, texts};
use crate::values::{
    are_alike, copy_settings, law_brushes_are_compared_in_full, maps_alike, same_brush, Setting,
};
use crate::xaml::SharedXamlMap;

verus! {

/// What feeds the application resources, as a value.
#[verifier::ext_equal]
pub struct AppResources {
    pub entries: Map<Seq<char>, ResourceValue>,
    pub merged: Seq<Seq<char>>,
    pub chain: Seq<Seq<char>>,
}

/// What the application resources were installed from.
pub struct AppResourcesSnapshot {
    pub entries: KeyedMap<String, ResourceEntry>,
    pub merged_xaml: Vec<String>,
    pub chain_uris: Vec<String>,
}

/// What feeds the application resources.
pub open spec fn feeds(
    entries: Map<Seq<char>, ResourceEntry>,
    merged: Seq<String>,
    chain: Seq<String>,
) -> AppResources {
    AppResources { entries: values_view(entries), merged: texts(merged), chain: texts(chain) }
}

impl View for AppResourcesSnapshot {
    type V = AppResources;

    open spec fn view(&self) -> AppResources {
        feeds(self.entries@, self.merged_xaml@, self.chain_uris@)
    }
}

/// The installed application resources.
pub struct AppResourcesState {
    pub installed: Option<AppResourcesSnapshot>,
}

/// How to install.
pub enum InstallPlan {
    /// The chain alone, in order.
    Chain,
    /// One dictionary: the chain's markup in order, then the merged
    /// dictionaries, then the entries.
    Merge { chain: Vec<String> },
}

impl AppResources {
    /// Whether nothing feeds the resources.
    pub open spec fn is_nothing(self) -> bool {
        self.entries == Map::<Seq<char>, ResourceValue>::empty() && self.merged.len() == 0
            && self.chain.len() == 0
    }

    /// Whether the same feeds the resources.
    pub open spec fn is_like(self, other: AppResources) -> bool {
        &&& maps_alike::<Seq<char>, ResourceEntry>(self.entries, other.entries)
        &&& self.merged == other.merged
        &&& self.chain == other.chain
    }

    /// Whether every dictionary of the chain has loaded.
    pub open spec fn chain_loaded(self, xaml: Map<Seq<char>, Arc<Vec<u8>>>) -> bool {
        forall|i: int| 0 <= i < self.chain.len() ==> xaml.contains_key(#[trigger] self.chain[i])
    }
}

/// What was installed, as a value.
pub open spec fn installed_value(s: Option<AppResourcesSnapshot>) -> Option<AppResources> {
    match s {
        Some(s) => Some(s@),
        None => None,
    }
}

/// Whether the resources are to be installed now.
pub open spec fn to_install(
    installed: Option<AppResources>,
    now: AppResources,
    xaml: Map<Seq<char>, Arc<Vec<u8>>>,
) -> bool {
    &&& !now.is_nothing()
    &&& !(installed matches Some(s) && s.is_like(now))
    &&& now.chain_loaded(xaml)
}

/// Whether a text is the markup of these bytes: what they encode, where they are
/// valid UTF-8.
pub open spec fn markup_of(text: Seq<char>, bytes: Seq<u8>) -> bool {
    &&& text == lossy_text(bytes)
    &&& valid_utf8(bytes) ==> text == decode_utf8(bytes)
}

/// Whether a plan is the one for what feeds the resources.
pub open spec fn plans(
    plan: InstallPlan,
    now: AppResources,
    xaml: Map<Seq<char>, Arc<Vec<u8>>>,
) -> bool {
    if now.entries == Map::<Seq<char>, ResourceValue>::empty() && now.merged.len() == 0 {
        plan is Chain
    } else {
        plan matches InstallPlan::Merge { chain } && {
            &&& chain@.len() == now.chain.len()
            &&& forall|i: int|
                0 <= i < chain@.len() ==> markup_of(#[trigger] chain@[i]@, xaml[now.chain[i]]@)
        }
    }
}

fn same_texts(a: &Vec<String>, b: &Vec<String>) -> (r: bool)
    ensures
        r == (texts(a@) == texts(b@)),
{
    if a.len() != b.len() {
        assert(texts(a@).len() != texts(b@).len());
        return false;
    }
    let n: usize = a.len();
    let mut i: usize = 0;
    while i < n
        invariant
            i <= n,
            n == a@.len(),
            n == b@.len(),
            forall|j: int| 0 <= j < i ==> texts(a@)[j] == texts(b@)[j],
        decreases n - i,
    {
        if a[i] != b[i] {
            assert(texts(a@)[i as int] != texts(b@)[i as int]);
            return false;
        }
        i = i + 1;
    }
    assert(texts(a@) =~= texts(b@));
    true
}

fn load_chain(uris: &Vec<String>, xaml: &SharedXamlMap) -> (r: Option<Vec<String>>)
    ensures
        match r {
            Some(list) => {
                &&& list@.len() == uris@.len()
                &&& forall|i: int|
                    0 <= i < uris@.len() ==> xaml@.contains_key(#[trigger] texts(uris@)[i])
                &&& forall|i: int|
                    0 <= i < list@.len() ==> markup_of(
                        #[trigger] list@[i]@,
                        xaml@[texts(uris@)[i]]@,
                    )
            },
            None => exists|i: int|
                0 <= i < uris@.len() && !xaml@.contains_key(#[trigger] texts(uris@)[i]),
        },
{
    let mut list: Vec<String> = Vec::new();
    let n: usize = uris.len();
    let mut i: usize = 0;
    while i < n
        invariant
            i <= n,
            n == uris@.len(),
            list@.len() == i,
            forall|j: int| 0 <= j < i ==> xaml@.contains_key(#[trigger] texts(uris@)[j]),
            forall|j: int|
                0 <= j < i ==> markup_of(#[trigger] list@[j]@, xaml@[texts(uris@)[j]]@),
        decreases n - i,
    {
        assert(texts(uris@)[i as int] == uris@[i as int]@);
        match xaml.get(uris[i].as_str()) {
            Some(bytes) => list.push(decode_lossy(&**bytes)),
            None => {
                return None;
            },
        }
        i = i + 1;
    }
    Some(list)
}

impl AppResourcesState {
    /// Nothing installed.
    pub fn new() -> (s: AppResourcesState)
        ensures
            s.installed is None,
    {
        AppResourcesState { installed: None }
    }

    /// Whether the application resources are to be installed now, and how; then
    /// they count as installed from this. `None` where nothing feeds them, where
    /// they were installed from the same, or where a dictionary of the chain has
    /// not loaded yet.
    pub fn reconcile_app_resources(
        &mut self,
        entries: &KeyedMap<String, ResourceEntry>,
        merged_xaml: &Vec<String>,
        chain_uris: &Vec<String>,
        xaml: &SharedXamlMap,
    ) -> (r: Option<InstallPlan>)
        ensures
            ({
                let now = feeds(entries@, merged_xaml@, chain_uris@);
                let go = to_install(installed_value(old(self).installed), now, xaml@);
                &&& r is Some == go
                &&& r matches Some(plan) ==> plans(plan, now, xaml@)
                &&& go ==> installed_value(final(self).installed) == Some(now)
                &&& !go ==> final(self).installed == old(self).installed
            }),
    {
        let ghost now = feeds(entries@, merged_xaml@, chain_uris@);
        let no_entries = entries.is_empty();
        proof {
            lemma_values_empty(entries@);
        }
        if no_entries && merged_xaml.len() == 0 && chain_uris.len() == 0 {
            return None;
        }
        let same = match &self.installed {
            Some(s) => are_alike(&s.entries, entries) && same_texts(&s.merged_xaml, merged_xaml)
                && same_texts(&s.chain_uris, chain_uris),
            None => false,
        };
        if same {
            return None;
        }
        let chain = match load_chain(chain_uris, xaml) {
            Some(chain) => chain,
            None => {
                proof {
                    let i = choose|i: int|
                        0 <= i < chain_uris@.len() && !xaml@.contains_key(
                            #[trigger] texts(chain_uris@)[i],
                        );
                    assert(!xaml@.contains_key(now.chain[i]));
                }
                return None;
            },
        };
        self.installed = Some(
            AppResourcesSnapshot {
                entries: copy_settings(entries),
                merged_xaml: copy_list(merged_xaml),
                chain_uris: copy_list(chain_uris),
            },
        );
        assert(installed_value(self.installed)->0 =~= now);
        if no_entries && merged_xaml.len() == 0 {
            Some(InstallPlan::Chain)
        } else {
            Some(InstallPlan::Merge { chain })
        }
    }
}

proof fn lemma_values_empty(m: Map<Seq<char>, ResourceEntry>)
    ensures
        (m == Map::<Seq<char>, ResourceEntry>::empty()) == (values_view(m) == Map::<
            Seq<char>,
            ResourceValue,
        >::empty()),
{
    if m == Map::<Seq<char>, ResourceEntry>::empty() {
        assert(values_view(m) =~= Map::<Seq<char>, ResourceValue>::empty());
    }
    if values_view(m) == Map::<Seq<char>, ResourceValue>::empty() {
        assert forall|k: Seq<char>| !m.contains_key(k) by {
            assert(!values_view(m).contains_key(k));
        }
        assert(m =~= Map::<Seq<char>, ResourceEntry>::empty());
    }
}

/// The declared keys that can be looked up, in order. `found` holds what the
/// engine finds in the installed resources.
pub fn present_keys(entries: &KeyedMap<String, ResourceEntry>, found: &KeyedSet<String>) -> (r: Vec<
    String,
>)
    ensures
        ascending(r@),
        forall|k: Seq<char>| #[trigger]
            lists_string(r@, k) <==> entries@.contains_key(k) && found@.contains(k),
{
    let mut r: Vec<String> = Vec::new();
    let n: usize = entries.len();
    let ghost all = entries.listed();
    let mut i: usize = 0;
    while i < n
        invariant
            i <= n,
            n == all.len(),
            all == entries.listed(),
            entries@ == map_of(all),
            ascending(r@),
            forall|k: Seq<char>| #[trigger]
                lists_string(r@, k) <==> has_key(all.take(i as int), k) && found@.contains(k),
        decreases n - i,
    {
        let entry = entries.at(i);
        let ghost before = r@;
        if found.contains(&entry.0) {
            insert_in_order(&mut r, entry.0.clone());
        }
        proof {
            let part = all.take(i as int);
            let next = all.take(i + 1);
            assert(next == part.push(all[i as int]));
            assert forall|k: Seq<char>| #[trigger] lists_string(r@, k) <==> has_key(next, k)
                && found@.contains(k) by {
                assert(lists_string(before, k) <==> has_key(part, k) && found@.contains(k));
                if has_key(part, k) {
                    let j = key_index(part, k);
                    assert(next[j].0@ == k);
                }
                if k == entry.0@ {
                    assert(next[i as int].0@ == k);
                }
                if has_key(next, k) {
                    let j = key_index(next, k);
                    if j < i {
                        assert(part[j].0@ == k);
                    }
                }
            }
        }
        i = i + 1;
    }
    assert(all.take(n as int) == all);
    r
}

/// What is announced after an install: the keys that can be looked up, where
/// the application declared any.
pub fn announce(entries: &KeyedMap<String, ResourceEntry>, present: Vec<String>) -> (r: Option<
    NoesisResourcesInstalled,
>)
    ensures
        match r {
            Some(m) => entries@ != Map::<Seq<char>, ResourceEntry>::empty() && m.present
                == present,
            None => entries@ == Map::<Seq<char>, ResourceEntry>::empty(),
        },
{
    if entries.is_empty() {
        None
    } else {
        Some(NoesisResourcesInstalled { present })
    }
}

/// A list with further URIs at its end, each one only once.
pub open spec fn with_uris(list: Seq<Seq<char>>, more: Seq<Seq<char>>) -> Seq<Seq<char>>
    decreases more.len(),
{
    if more.len() == 0 {
        list
    } else {
        let rest = with_uris(list, more.drop_last());
        if rest.contains(more.last()) {
            rest
        } else {
            rest.push(more.last())
        }
    }
}

/// The chains of all views as one, each URI at its first place.
pub open spec fn united(chains: Seq<Vec<String>>) -> Seq<Seq<char>>
    decreases chains.len(),
{
    if chains.len() == 0 {
        Seq::empty()
    } else {
        with_uris(united(chains.drop_last()), texts(chains.last()@))
    }
}

/// Whether two views declare different chains.
pub open spec fn chains_differ(chains: Seq<Vec<String>>) -> bool {
    exists|i: int, j: int|
        0 <= i < j < chains.len() && #[trigger] differ(chains[i]@, chains[j]@)
}

/// Whether both chains hold something and are not the same.
pub open spec fn differ(a: Seq<String>, b: Seq<String>) -> bool {
    a.len() > 0 && b.len() > 0 && texts(a) != texts(b)
}

fn add_uri(list: &mut Vec<String>, uri: &String)
    ensures
        texts(final(list)@) == if texts(old(list)@).contains(uri@) {
            texts(old(list)@)
        } else {
            texts(old(list)@).push(uri@)
        },
{
    let n: usize = list.len();
    let mut i: usize = 0;
    while i < n
        invariant
            i <= n,
            n == list@.len(),
            list@ == old(list)@,
            forall|j: int| 0 <= j < i ==> (#[trigger] texts(list@)[j]) != uri@,
        decreases n - i,
    {
        if list[i] == *uri {
            assert(texts(list@)[i as int] == uri@);
            return;
        }
        i = i + 1;
    }
    assert(!texts(list@).contains(uri@));
    list.push(uri.clone());
    assert(texts(list@) =~= texts(old(list)@).push(uri@));
}

fn add_chain(list: &mut Vec<String>, chain: &Vec<String>)
    ensures
        texts(final(list)@) == with_uris(texts(old(list)@), texts(chain@)),
{
    let n: usize = chain.len();
    let mut i: usize = 0;
    assert(texts(chain@).take(0) =~= Seq::<Seq<char>>::empty());
    while i < n
        invariant
            i <= n,
            n == chain@.len(),
            texts(list@) == with_uris(texts(old(list)@), texts(chain@).take(i as int)),
        decreases n - i,
    {
        proof {
            let part = texts(chain@).take(i + 1);
            assert(part.drop_last() == texts(chain@).take(i as int));
            assert(part.last() == chain@[i as int]@);
        }
        add_uri(list, &chain[i]);
        i = i + 1;
    }
    assert(texts(chain@).take(n as int) == texts(chain@));
}

/// The chains of all views as one, and whether two of them differ.
pub fn unite_chains(chains: &Vec<Vec<String>>) -> (r: (Vec<String>, bool))
    ensures
        texts(r.0@) == united(chains@),
        r.1 == chains_differ(chains@),
{
    let mut list: Vec<String> = Vec::new();
    let mut conflict: bool = false;
    let mut first: Option<usize> = None;
    let n: usize = chains.len();
    let mut i: usize = 0;
    assert(texts(list@) =~= Seq::<Seq<char>>::empty());
    assert(chains@.take(0) =~= Seq::<Vec<String>>::empty());
    while i < n
        invariant
            i <= n,
            n == chains@.len(),
            texts(list@) == united(chains@.take(i as int)),
            match first {
                Some(f) => f < i && chains@[f as int]@.len() > 0,
                None => forall|a: int| 0 <= a < i ==> (#[trigger] chains@[a])@.len() == 0,
            },
            conflict ==> chains_differ(chains@),
            !conflict ==> forall|a: int|
                0 <= a < i && (#[trigger] chains@[a])@.len() > 0 ==> first is Some && texts(
                    chains@[a]@,
                ) == texts(chains@[first->0 as int]@),
        decreases n - i,
    {
        proof {
            assert(chains@.take(i + 1).drop_last() == chains@.take(i as int));
            assert(chains@.take(i + 1).last() == chains@[i as int]);
        }
        add_chain(&mut list, &chains[i]);
        if chains[i].len() > 0 {
            match first {
                Some(f) => {
                    if !same_texts(&chains[f], &chains[i]) {
                        assert(differ(chains@[f as int]@, chains@[i as int]@));
                        conflict = true;
                    }
                },
                None => {
                    first = Some(i);
                },
            }
        }
        i = i + 1;
    }
    assert(chains@.take(n as int) == chains@);
    proof {
        if chains_differ(chains@) && !conflict {
            let (a, b) = choose|a: int, b: int|
                0 <= a < b < chains@.len() && #[trigger] differ(chains@[a]@, chains@[b]@);
            assert(texts(chains@[a]@) == texts(chains@[first->0 as int]@));
            assert(texts(chains@[b]@) == texts(chains@[first->0 as int]@));
        }
    }
    (list, conflict)
}

/// Once installed, the same declarations install nothing again. Declarations
/// that do not compare equal to themselves (a colour that is not a number) are
/// left out.
pub proof fn law_install_settles(now: AppResources, xaml: Map<Seq<char>, Arc<Vec<u8>>>)
    requires
        now.is_like(now),
    ensures
        !to_install(Some(now), now, xaml),
{
}

/// A chain with a dictionary that has not loaded installs nothing at all, so no
/// part of a theme is ever installed alone.
pub proof fn law_no_partial_chain(
    installed: Option<AppResources>,
    now: AppResources,
    xaml: Map<Seq<char>, Arc<Vec<u8>>>,
    i: int,
)
    requires
        0 <= i < now.chain.len(),
        !xaml.contains_key(now.chain[i]),
    ensures
        !to_install(installed, now, xaml),
{
}

proof fn lemma_with_uris(list: Seq<Seq<char>>, more: Seq<Seq<char>>)
    requires
        list.no_duplicates(),
    ensures
        with_uris(list, more).no_duplicates(),
        forall|u: Seq<char>| #[trigger]
            with_uris(list, more).contains(u) <==> list.contains(u) || more.contains(u),
        list.len() <= with_uris(list, more).len(),
        with_uris(list, more).take(list.len() as int) == list,
    decreases more.len(),
{
    if more.len() == 0 {
        assert(list.take(list.len() as int) =~= list);
    } else {
        let front = more.drop_last();
        lemma_with_uris(list, front);
        let rest = with_uris(list, front);
        let all = with_uris(list, more);
        assert forall|u: Seq<char>| more.contains(u) <==> front.contains(u) || u == more.last() by {
            if front.contains(u) {
                let i = front.index_of(u);
                assert(more[i] == u);
            }
            if more.contains(u) {
                let i = more.index_of(u);
                if i < front.len() {
                    assert(front[i] == u);
                }
            }
        }
        if !rest.contains(more.last()) {
            assert forall|u: Seq<char>| all.contains(u) <==> rest.contains(u) || u
                == more.last() by {
                if rest.contains(u) {
                    let i = rest.index_of(u);
                    assert(all[i] == u);
                }
                if u == more.last() {
                    assert(all[rest.len() as int] == u);
                }
                if all.contains(u) {
                    let i = all.index_of(u);
                    if i < rest.len() {
                        assert(rest[i] == u);
                    }
                }
            }
            assert(all.take(list.len() as int) =~= rest.take(list.len() as int));
        }
    }
}

/// The united chain holds exactly the URIs of all chains, each one once, and a
/// further view only appends to it.
pub proof fn law_united_chain(chains: Seq<Vec<String>>, more: Vec<String>)
    ensures
        united(chains).no_duplicates(),
        forall|u: Seq<char>| #[trigger]
            united(chains).contains(u) <==> in_some_chain(chains, u),
        united(chains.push(more)).take(united(chains).len() as int) == united(chains),
        united(chains).len() <= united(chains.push(more)).len(),
    decreases chains.len(),
{
    if chains.len() > 0 {
        let front = chains.drop_last();
        law_united_chain(front, more);
        lemma_with_uris(united(front), texts(chains.last()@));
        assert forall|u: Seq<char>| #[trigger] united(chains).contains(u) <==> in_some_chain(
            chains,
            u,
        ) by {
            if in_some_chain(front, u) {
                let i = choose|i: int| 0 <= i < front.len() && texts((#[trigger] front[i])@).contains(u);
                assert(texts(chains[i]@).contains(u));
            }
            if texts(chains.last()@).contains(u) {
                assert(texts(chains[chains.len() - 1]@).contains(u));
            }
            if in_some_chain(chains, u) {
                let i = choose|i: int|
                    0 <= i < chains.len() && texts((#[trigger] chains[i])@).contains(u);
                if i < front.len() {
                    assert(texts(front[i]@).contains(u));
                }
            }
        }
    }
    assert(chains.push(more).drop_last() =~= chains);
    lemma_with_uris(united(chains), texts(more@));
}

/// Whether some chain holds a URI.
pub open spec fn in_some_chain(chains: Seq<Vec<String>>, u: Seq<char>) -> bool {
    exists|i: int| 0 <= i < chains.len() && texts((#[trigger] chains[i])@).contains(u)
}

/// Whether two lists hold the same texts, one by one.
pub open spec fn same_text_lists(a: Seq<String>, b: Seq<String>) -> bool {
    a.len() == b.len() && forall|i: int| 0 <= i < a.len() ==> (#[trigger] a[i])@ == b[i]@
}

proof fn lemma_same_text_lists(a: Seq<String>, b: Seq<String>)
    ensures
        same_text_lists(a, b) <==> texts(a) == texts(b),
{
    if same_text_lists(a, b) {
        assert(texts(a) =~= texts(b));
    }
    if texts(a) == texts(b) {
        assert(texts(a).len() == a.len() && texts(b).len() == b.len());
        assert forall|i: int| 0 <= i < a.len() implies (#[trigger] a[i])@ == b[i]@ by {
            assert(texts(a)[i] == a[i]@ && texts(b)[i] == b[i]@);
        }
    }
}

/// Whether two tables of resources declare the same: the same keys, and under
/// each key values of one kind that compare equal, or brushes of one kind with
/// the same colours, ends and stops.
pub open spec fn same_declarations(
    a: Map<Seq<char>, ResourceEntry>,
    b: Map<Seq<char>, ResourceEntry>,
) -> bool {
    &&& forall|k: Seq<char>| #[trigger] a.contains_key(k) <==> b.contains_key(k)
    &&& forall|k: Seq<char>| #[trigger]
        a.contains_key(k) ==> match (a[k], b[k]) {
            (ResourceEntry::Value(x), ResourceEntry::Value(y)) => x.same(&y),
            (ResourceEntry::Brush(x), ResourceEntry::Brush(y)) => same_brush(x, y),
            _ => false,
        }
}

/// Nothing is left out of date. The resources are installed now exactly when
/// something feeds them, every dictionary of the chain has loaded, and what is
/// installed, if anything, differs in its chain, in its merged dictionaries or
/// in its declarations.
pub proof fn law_nothing_is_left_out_of_date(
    installed: Option<AppResourcesSnapshot>,
    entries: Map<Seq<char>, ResourceEntry>,
    merged: Seq<String>,
    chain: Seq<String>,
    xaml: Map<Seq<char>, Arc<Vec<u8>>>,
)
    ensures
        to_install(installed_value(installed), feeds(entries, merged, chain), xaml) <==> {
            &&& chain.len() > 0 || merged.len() > 0 || exists|k: Seq<char>| entries.contains_key(k)
            &&& forall|i: int| 0 <= i < chain.len() ==> xaml.contains_key((#[trigger] chain[i])@)
            &&& installed is Some ==> !(same_text_lists(installed->0.chain_uris@, chain)
                && same_text_lists(installed->0.merged_xaml@, merged) && same_declarations(
                installed->0.entries@,
                entries,
            ))
        },
{
    let now = feeds(entries, merged, chain);
    let none = Map::<Seq<char>, ResourceEntry>::empty();
    lemma_values_empty(entries);
    assert(texts(chain).len() == chain.len() && texts(merged).len() == merged.len());
    assert(entries == none <==> !exists|k: Seq<char>| entries.contains_key(k)) by {
        if !exists|k: Seq<char>| entries.contains_key(k) {
            assert(entries =~= none);
        }
    }
    assert(now.chain_loaded(xaml) <==> forall|i: int|
        0 <= i < chain.len() ==> xaml.contains_key((#[trigger] chain[i])@)) by {
        if now.chain_loaded(xaml) {
            assert forall|i: int| 0 <= i < chain.len() implies xaml.contains_key(
                (#[trigger] chain[i])@,
            ) by {
                assert(xaml.contains_key(now.chain[i]));
            }
        }
        if forall|i: int| 0 <= i < chain.len() ==> xaml.contains_key((#[trigger] chain[i])@) {
            assert forall|i: int| 0 <= i < now.chain.len() implies xaml.contains_key(
                #[trigger] now.chain[i],
            ) by {
                assert(now.chain[i] == chain[i]@);
            }
        }
    }
    if installed is Some {
        let was = installed->0;
        lemma_same_text_lists(was.chain_uris@, chain);
        lemma_same_text_lists(was.merged_xaml@, merged);
        lemma_same_declarations(was.entries@, entries);
    }
}

proof fn lemma_same_declarations(
    a: Map<Seq<char>, ResourceEntry>,
    b: Map<Seq<char>, ResourceEntry>,
)
    ensures
        same_declarations(a, b) <==> maps_alike::<Seq<char>, ResourceEntry>(
            values_view(a),
            values_view(b),
        ),
{
    let x = values_view(a);
    let y = values_view(b);
    assert forall|k: Seq<char>| x.contains_key(k) == a.contains_key(k) && y.contains_key(k)
        == b.contains_key(k) by {}
    assert forall|k: Seq<char>| a.contains_key(k) && b.contains_key(k) implies ResourceEntry::alike(
        x[k],
        y[k],
    ) == match (a[k], b[k]) {
        (ResourceEntry::Value(p), ResourceEntry::Value(q)) => p.same(&q),
        (ResourceEntry::Brush(p), ResourceEntry::Brush(q)) => same_brush(p, q),
        _ => false,
    } by {
        if a[k] is Brush && b[k] is Brush {
            law_brushes_are_compared_in_full(a[k]->Brush_0, b[k]->Brush_0);
        }
    }
    if same_declarations(a, b) {
        assert(x.dom() =~= y.dom());
        assert forall|k: Seq<char>| #[trigger] x.contains_key(k) implies ResourceEntry::alike(
            x[k],
            y[k],
        ) by {
            assert(a.contains_key(k));
        }
    }
    if maps_alike::<Seq<char>, ResourceEntry>(x, y) {
        assert forall|k: Seq<char>| #[trigger] a.contains_key(k) <==> b.contains_key(k) by {
            assert(x.dom().contains(k) == y.dom().contains(k));
        }
        assert forall|k: Seq<char>| #[trigger] a.contains_key(k) implies match (a[k], b[k]) {
            (ResourceEntry::Value(p), ResourceEntry::Value(q)) => p.same(&q),
            (ResourceEntry::Brush(p), ResourceEntry::Brush(q)) => same_brush(p, q),
            _ => false,
        } by {
            assert(x.contains_key(k));
        }
    }
}

/// How resources are installed: a chain alone as it is; as soon as anything is
/// declared or merged in, with the markup of every dictionary of the chain, each
/// at its place.
pub proof fn law_plans_carry_the_chain(
    plan: InstallPlan,
    entries: Map<Seq<char>, ResourceEntry>,
    merged: Seq<String>,
    chain: Seq<String>,
    xaml: Map<Seq<char>, Arc<Vec<u8>>>,
)
    requires
        plans(plan, feeds(entries, merged, chain), xaml),
    ensures
        plan is Chain <==> merged.len() == 0 && !exists|k: Seq<char>| entries.contains_key(k),
        plan matches InstallPlan::Merge { chain: markup } ==> {
            &&& markup@.len() == chain.len()
            &&& forall|i: int|
                0 <= i < chain.len() ==> (#[trigger] markup@[i])@ == lossy_text(
                    xaml[chain[i]@]@,
                )
            &&& forall|i: int|
                0 <= i < chain.len() && valid_utf8(xaml[chain[i]@]@) ==> (#[trigger] markup@[i])@
                    == decode_utf8(xaml[chain[i]@]@)
        },
{
    let now = feeds(entries, merged, chain);
    let none = Map::<Seq<char>, ResourceEntry>::empty();
    lemma_values_empty(entries);
    assert(texts(merged).len() == merged.len() && texts(chain).len() == chain.len());
    assert(entries == none <==> !exists|k: Seq<char>| entries.contains_key(k)) by {
        if !exists|k: Seq<char>| entries.contains_key(k) {
            assert(entries =~= none);
        }
    }
    if let InstallPlan::Merge { chain: markup } = plan {
        assert forall|i: int| 0 <= i < chain.len() implies markup_of(
            (#[trigger] markup@[i])@,
            xaml[chain[i]@]@,
        ) by {
            assert(now.chain[i] == chain[i]@);
        }
    }
}

/// A chain in which nothing is repeated, and that nothing was declared before,
/// follows as it is, in its order.
pub proof fn law_chains_keep_their_order(list: Seq<Seq<char>>, more: Seq<Seq<char>>)
    requires
        more.no_duplicates(),
        forall|i: int| 0 <= i < more.len() ==> !list.contains(#[trigger] more[i]),
    ensures
        with_uris(list, more) == list + more,
    decreases more.len(),
{
    if more.len() == 0 {
        assert(list + more =~= list);
    } else {
        let front = more.drop_last();
        assert forall|i: int| 0 <= i < front.len() implies !list.contains(#[trigger] front[i]) by {
            assert(front[i] == more[i]);
        }
        law_chains_keep_their_order(list, front);
        let last = more.last();
        assert(!(list + front).contains(last)) by {
            if (list + front).contains(last) {
                let i = choose|i: int| 0 <= i < (list + front).len() && (list + front)[i] == last;
                if i < list.len() {
                    assert(list[i] == last);
                    assert(list.contains(more[more.len() - 1]));
                } else {
                    assert(front[i - list.len()] == last);
                    assert(more[i - list.len()] == more[more.len() - 1]);
                }
            }
        }
        assert((list + front).push(last) =~= list + more);
    }
}

/// Views differ in their chains exactly where two of them both declare one and
/// the declarations differ in length or at some place; a view without a chain
/// differs from none.
pub proof fn law_differing_chains_are_told(chains: Seq<Vec<String>>, i: int, j: int)
    requires
        0 <= i < j < chains.len(),
    ensures
        chains[i]@.len() > 0 && chains[j]@.len() > 0 && chains[i]@.len() != chains[j]@.len()
            ==> chains_differ(chains),
        forall|k: int|
            0 <= k < chains[i]@.len() && k < chains[j]@.len() && (#[trigger] chains[i]@[k])@
                != chains[j]@[k]@ ==> chains_differ(chains),
{
    let a = chains[i]@;
    let b = chains[j]@;
    if a.len() > 0 && b.len() > 0 && a.len() != b.len() {
        assert(texts(a).len() != texts(b).len());
        assert(differ(a, b));
    }
    assert forall|k: int| 0 <= k < a.len() && k < b.len() && (#[trigger] a[k])@ != b[k]@ implies
        chains_differ(chains) by {
        assert(texts(a)[k] != texts(b)[k]);
        assert(differ(a, b));
    }
}

/// Views whose chains are the same text for text, or empty, do not differ.
pub proof fn law_equal_chains_agree(chains: Seq<Vec<String>>, chain: Seq<Seq<char>>)
    requires
        forall|i: int|
            0 <= i < chains.len() ==> (#[trigger] chains[i])@.len() == 0 || texts(chains[i]@)
                == chain,
    ensures
        !chains_differ(chains),
{
    assert forall|i: int, j: int| 0 <= i < j < chains.len() implies !(#[trigger] differ(
        chains[i]@,
        chains[j]@,
    )) by {
        assert(chains[i]@.len() == 0 || texts(chains[i]@) == chain);
        assert(chains[j]@.len() == 0 || texts(chains[j]@) == chain);
    }
}

/// Markup that is valid UTF-8 is installed as it is encoded.
pub proof fn law_markup_is_what_is_encoded(text: Seq<char>, bytes: Seq<u8>)
    requires
        markup_of(text, bytes),
    ensures
        valid_utf8(bytes) ==> text == decode_utf8(bytes),
{
}

} // verus!
