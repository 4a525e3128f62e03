//! The registry of components: for each object, one entry for each of its
//! components.

use vstd::prelude::*;
use crate::component::{component_code, component_name_to_id, target_table};
use crate::dict::{lookup, Dict};
use crate::error::{ModError, ModErrorView};
use crate::lu_mod::{Mod, ModView};
use crate::mod_context::ModContext;
use crate::text::same_text;
use crate::value::views;

verus! {

/// One entry of the registry: the key of an object, the code of the type of
/// one of its components, and the key of that component.
#[derive(Clone, Copy, Debug, PartialEq, Eq, Structural)]
pub struct ComponentLink {
    pub object: i32,
    pub component_type: i32,
    pub component: i32,
}

/// The mod at `at` has the symbol `id`, and none before it has.
pub open spec fn is_first_with_id(mods: Seq<ModView>, id: Seq<char>, at: int) -> bool {
    &&& 0 <= at < mods.len()
    &&& mods[at].id == id
    &&& forall|j: int| 0 <= j < at ==> (#[trigger] mods[j]).id != id
}

/// The first mod with the symbol `id`, if there is one.
pub open spec fn mod_with_id(mods: Seq<ModView>, id: Seq<char>) -> Option<ModView> {
    if exists|at: int| is_first_with_id(mods, id, at) {
        Some(mods[choose|at: int| is_first_with_id(mods, id, at)])
    } else {
        None
    }
}

/// The mod is an object: its row goes to the table `Objects`.
pub open spec fn is_object(m: ModView) -> bool {
    target_table(m.mod_type) == "Objects"@
}

/// The entry for the component at `at` of the object `object`. The
/// component must be a mod of the buffer, of a kind that is a component
/// type, and both it and the object must be bound to a number.
pub open spec fn link(
    symbols: Seq<(Seq<char>, i32)>,
    mods: Seq<ModView>,
    object: ModView,
    at: int,
) -> Result<ComponentLink, ModErrorView> {
    let name = object.components[at];
    match mod_with_id(mods, name) {
        None => Err(ModErrorView::UnresolvedSymbol(name)),
        Some(child) => match component_code(child.mod_type) {
            None => Err(ModErrorView::UnknownComponent(child.mod_type)),
            Some(code) => match lookup(symbols, name) {
                None => Err(ModErrorView::UnresolvedSymbol(name)),
                Some(component) => match lookup(symbols, object.id) {
                    None => Err(ModErrorView::UnresolvedSymbol(object.id)),
                    Some(key) => Ok(
                        ComponentLink { object: key, component_type: code, component },
                    ),
                },
            },
        },
    }
}

/// `entries` followed by the entries for the first `n` components of
/// `object`.
pub open spec fn with_links(
    symbols: Seq<(Seq<char>, i32)>,
    mods: Seq<ModView>,
    entries: Seq<ComponentLink>,
    object: ModView,
    n: int,
) -> Result<Seq<ComponentLink>, ModErrorView>
    decreases n,
{
    if n <= 0 {
        Ok(entries)
    } else {
        match with_links(symbols, mods, entries, object, n - 1) {
            Err(e) => Err(e),
            Ok(before) => match link(symbols, mods, object, n - 1) {
                Err(e) => Err(e),
                Ok(entry) => Ok(before.push(entry)),
            },
        }
    }
}

/// The registry of the objects among the first `n` mods: the entries of each
/// object in the order of its components, the objects in the order of the
/// buffer.
pub open spec fn registry_of(symbols: Seq<(Seq<char>, i32)>, mods: Seq<ModView>, n: int) -> Result<
    Seq<ComponentLink>,
    ModErrorView,
>
    decreases n,
{
    if n <= 0 {
        Ok(Seq::empty())
    } else {
        match registry_of(symbols, mods, n - 1) {
            Err(e) => Err(e),
            Ok(before) => if is_object(mods[n - 1]) {
                with_links(symbols, mods, before, mods[n - 1], mods[n - 1].components.len() as int)
            } else {
                Ok(before)
            },
        }
    }
}

/// The number of entries that the objects among the first `n` mods have.
pub open spec fn entries_before(mods: Seq<ModView>, n: int) -> int
    decreases n,
{
    if n <= 0 {
        0
    } else if is_object(mods[n - 1]) {
        entries_before(mods, n - 1) + mods[n - 1].components.len()
    } else {
        entries_before(mods, n - 1)
    }
}

/// The entries of an object follow those that were there, one for each
/// component.
pub proof fn lemma_links(
    symbols: Seq<(Seq<char>, i32)>,
    mods: Seq<ModView>,
    entries: Seq<ComponentLink>,
    object: ModView,
    n: int,
)
    requires
        0 <= n,
        with_links(symbols, mods, entries, object, n) is Ok,
    ensures
        ({
            let all = with_links(symbols, mods, entries, object, n)->Ok_0;
            &&& all.len() == entries.len() + n
            &&& forall|k: int| 0 <= k < entries.len() ==> all[k] == entries[k]
            &&& forall|j: int|
                0 <= j < n ==> link(symbols, mods, object, j) == Ok::<ComponentLink, ModErrorView>(
                    #[trigger] all[entries.len() + j],
                )
        }),
    decreases n,
{
    if n > 0 {
        lemma_links(symbols, mods, entries, object, n - 1);
    }
}

/// The registry holds one entry for each component of each object, and no
/// other: the entries of the object at `at` stand one after the other from
/// the place that the objects before it have filled, each the entry of the
/// object's component at that place.
pub proof fn lemma_registry_consistent(
    symbols: Seq<(Seq<char>, i32)>,
    mods: Seq<ModView>,
    n: int,
)
    requires
        0 <= n <= mods.len(),
        registry_of(symbols, mods, n) is Ok,
    ensures
        ({
            let registry = registry_of(symbols, mods, n)->Ok_0;
            &&& registry.len() == entries_before(mods, n)
            &&& forall|at: int, j: int|
                #![trigger link(symbols, mods, mods[at], j)]
                0 <= at < n && is_object(mods[at]) && 0 <= j < mods[at].components.len() ==> {
                    &&& 0 <= entries_before(mods, at) + j < registry.len()
                    &&& link(symbols, mods, mods[at], j) == Ok::<ComponentLink, ModErrorView>(
                        registry[entries_before(mods, at) + j],
                    )
                }
        }),
    decreases n,
{
    if n > 0 {
        lemma_registry_consistent(symbols, mods, n - 1);
        let before = registry_of(symbols, mods, n - 1)->Ok_0;
        lemma_entries_grow(mods, n - 1);
        if is_object(mods[n - 1]) {
            lemma_links(symbols, mods, before, mods[n - 1], mods[n - 1].components.len() as int);
        }
        let registry = registry_of(symbols, mods, n)->Ok_0;
        assert forall|at: int, j: int|
            #![trigger link(symbols, mods, mods[at], j)]
            0 <= at < n && is_object(mods[at]) && 0 <= j < mods[at].components.len() implies {
            &&& 0 <= entries_before(mods, at) + j < registry.len()
            &&& link(symbols, mods, mods[at], j) == Ok::<ComponentLink, ModErrorView>(
                registry[entries_before(mods, at) + j],
            )
        } by {
            lemma_entries_grow(mods, at);
            if at < n - 1 {
                lemma_entries_monotonic(mods, at + 1, n - 1);
                assert(link(symbols, mods, mods[at], j) == Ok::<ComponentLink, ModErrorView>(
                    before[entries_before(mods, at) + j],
                ));
            }
        }
    }
}

/// The count of entries is never negative.
pub proof fn lemma_entries_grow(mods: Seq<ModView>, n: int)
    ensures
        entries_before(mods, n) >= 0,
    decreases n,
{
    if n > 0 {
        lemma_entries_grow(mods, n - 1);
    }
}

/// The count of entries does not fall as more mods are counted.
pub proof fn lemma_entries_monotonic(mods: Seq<ModView>, a: int, b: int)
    requires
        a <= b,
    ensures
        entries_before(mods, a) <= entries_before(mods, b),
    decreases b - a,
{
    if a < b {
        lemma_entries_monotonic(mods, a, b - 1);
        lemma_entries_grow(mods, b - 1);
        if b <= 0 {
            lemma_entries_grow(mods, a);
        }
    }
}

/// A refusal among the first components is the refusal of them all.
pub proof fn lemma_links_refused(
    symbols: Seq<(Seq<char>, i32)>,
    mods: Seq<ModView>,
    entries: Seq<ComponentLink>,
    object: ModView,
    n: int,
    len: int,
)
    requires
        0 <= n <= len,
        with_links(symbols, mods, entries, object, n) is Err,
    ensures
        with_links(symbols, mods, entries, object, len) == with_links(
            symbols,
            mods,
            entries,
            object,
            n,
        ),
    decreases len,
{
    if n < len {
        lemma_links_refused(symbols, mods, entries, object, n, len - 1);
    }
}

/// A refusal among the first mods is the refusal of them all.
pub proof fn lemma_registry_refused(
    symbols: Seq<(Seq<char>, i32)>,
    mods: Seq<ModView>,
    n: int,
    len: int,
)
    requires
        0 <= n <= len,
        registry_of(symbols, mods, n) is Err,
    ensures
        registry_of(symbols, mods, len) == registry_of(symbols, mods, n),
    decreases len,
{
    if n < len {
        lemma_registry_refused(symbols, mods, n, len - 1);
    }
}

/// The first mod with the symbol `id`.
pub fn find_mod<'a>(mods: &'a Vec<Mod>, id: &str) -> (found: Option<&'a Mod>)
    ensures
        match mod_with_id(views(mods@), id@) {
            Some(m) => found matches Some(f) && f@ == m,
            None => found.is_none(),
        },
{
    let mut i: usize = 0;
    while i < mods.len()
        invariant
            i <= mods@.len(),
            forall|j: int| 0 <= j < i ==> (#[trigger] views(mods@)[j]).id != id@,
        decreases mods.len() - i,
    {
        assert(views(mods@)[i as int] == mods@[i as int]@);
        if same_text(mods[i].id.as_str(), id) {
            proof {
                assert(is_first_with_id(views(mods@), id@, i as int));
                let p = choose|p: int| is_first_with_id(views(mods@), id@, p);
                if p < i {
                    assert(views(mods@)[p].id != id@);
                } else if i < p {
                    assert(views(mods@)[i as int].id != id@);
                }
            }
            return Some(&mods[i]);
        }
        i += 1;
    }
    proof {
        assert forall|p: int| !is_first_with_id(views(mods@), id@, p) by {
            if is_first_with_id(views(mods@), id@, p) {
                assert(views(mods@)[p].id != id@);
            }
        }
    }
    None
}

/// The entry for the component at `at` of `object`.
fn make_link(symbols: &Dict<i32>, mods: &Vec<Mod>, object: &Mod, at: usize) -> (entry: Result<
    ComponentLink,
    ModError,
>)
    requires
        at < object@.components.len(),
    ensures
        match link(symbols@, views(mods@), object@, at as int) {
            Ok(l) => entry == Ok::<ComponentLink, ModError>(l),
            Err(e) => entry matches Err(x) && x@ == e,
        },
{
    let name = &object.components[at];
    assert(object@.components[at as int] == name@);
    let child = match find_mod(mods, name.as_str()) {
        Some(child) => child,
        None => {
            return Err(ModError::UnresolvedSymbol(name.clone()));
        },
    };
    let code = match component_name_to_id(child.mod_type.as_str()) {
        Ok(code) => code,
        Err(e) => {
            return Err(e);
        },
    };
    let component = match symbols.get(name.as_str()) {
        Some(id) => *id,
        None => {
            return Err(ModError::UnresolvedSymbol(name.clone()));
        },
    };
    match symbols.get(object.id.as_str()) {
        Some(key) => Ok(ComponentLink { object: *key, component_type: code, component }),
        None => Err(ModError::UnresolvedSymbol(object.id.clone())),
    }
}

/// Builds the registry of components of the objects of the buffer.
pub fn build_registry(mod_context: &ModContext) -> (registry: Result<Vec<ComponentLink>, ModError>)
    ensures
        match registry_of(mod_context@.lookup, mod_context@.mods, mod_context@.mods.len() as int) {
            Ok(entries) => registry matches Ok(v) && v@ == entries,
            Err(e) => registry matches Err(x) && x@ == e,
        },
{
    let ghost symbols = mod_context@.lookup;
    let ghost mods = mod_context@.mods;
    let mut registry: Vec<ComponentLink> = Vec::new();
    let mut i: usize = 0;
    while i < mod_context.mods.len()
        invariant
            i <= mod_context.mods@.len(),
            symbols == mod_context@.lookup,
            mods == mod_context@.mods,
            registry_of(symbols, mods, i as int) == Ok::<Seq<ComponentLink>, ModErrorView>(
                registry@,
            ),
        decreases mod_context.mods.len() - i,
    {
        let object = &mod_context.mods[i];
        assert(mods[i as int] == object@);
        let target = object.get_target_table_name();
        if same_text(target.as_str(), "Objects") {
            let ghost before = registry@;
            let mut j: usize = 0;
            while j < object.components.len()
                invariant
                    j <= object.components@.len(),
                    i < mod_context.mods@.len(),
                    symbols == mod_context@.lookup,
                    mods == mod_context@.mods,
                    mods[i as int] == object@,
                    is_object(object@),
                    registry_of(symbols, mods, i as int) == Ok::<
                        Seq<ComponentLink>,
                        ModErrorView,
                    >(before),
                    with_links(symbols, mods, before, object@, j as int) == Ok::<
                        Seq<ComponentLink>,
                        ModErrorView,
                    >(registry@),
                decreases object.components.len() - j,
            {
                match make_link(&mod_context.lookup, &mod_context.mods, object, j) {
                    Ok(entry) => {
                        registry.push(entry);
                    },
                    Err(e) => {
                        proof {
                            lemma_links_refused(
                                symbols,
                                mods,
                                before,
                                object@,
                                j + 1,
                                object@.components.len() as int,
                            );
                            lemma_registry_refused(symbols, mods, i + 1, mods.len() as int);
                        }
                        return Err(e);
                    },
                }
                j += 1;
            }
        }
        i += 1;
    }
    Ok(registry)
}

} // verus!
