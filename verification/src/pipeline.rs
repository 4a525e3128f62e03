//! The steps between the expansion of the mods and the writing of the
//! outputs, in their order: the symbols are checked, identifiers are bound,
//! the cells are resolved, the registry is built, and the phrases join the
//! catalogue.

use vstd::prelude::*;
use crate::error::{ModError, ModErrorView};
use crate::lu_mod::ModView;
use crate::mod_context::{ModContext, ModContextView};
use crate::phrases::{catalogue_with, fix_locale, with_phrases};
use crate::references::{
    check_unique_ids,
    is_first_repeat,
    resolve_references,
    resolved_mods,
};
use crate::registry::{build_registry, registry_of, ComponentLink};
use crate::resolve::{allocate_ids, allocated, has_fresh_key, needs_id};

verus! {

/// There are few enough mods and rows for every mod to be given a key.
pub open spec fn within_limits(context: ModContextView) -> bool {
    forall|i: int|
        0 <= i < context.database.len() ==> context.mods.len() + (
        #[trigger] context.database[i]).primary_keys.len() < i32::MAX
}

/// The symbol that a mod has in common with a mod before it, for the first
/// mod of which that is so.
pub open spec fn repeated_id(mods: Seq<ModView>) -> Option<Seq<char>> {
    if exists|at: int| is_first_repeat(mods, at) {
        Some(mods[choose|at: int| is_first_repeat(mods, at)].id)
    } else {
        None
    }
}

/// The first mod that repeats a symbol is the only one that is the first.
pub proof fn lemma_first_repeat_unique(mods: Seq<ModView>, a: int, b: int)
    requires
        is_first_repeat(mods, a),
        is_first_repeat(mods, b),
    ensures
        a == b,
{
}

/// What the mods of the buffer compile to: the context with every mod that
/// asks for a key bound, every cell resolved and the phrases of the mods in
/// the catalogue, and the registry of components.
pub open spec fn compiled(context: ModContextView) -> Result<
    (ModContextView, Seq<ComponentLink>),
    ModErrorView,
> {
    match repeated_id(context.mods) {
        Some(id) => Err(ModErrorView::DuplicateModId(id)),
        None => match allocated(context.database, context.mods, context.lookup) {
            Err(e) => Err(e),
            Ok(symbols) => match resolved_mods(
                context.database,
                symbols,
                context.mods,
                context.mods.len() as int,
            ) {
                Err(e) => Err(e),
                Ok(mods) => match registry_of(symbols, mods, mods.len() as int) {
                    Err(e) => Err(e),
                    Ok(registry) => match with_phrases(
                        symbols,
                        context.localization.phrases,
                        mods,
                        mods.len() as int,
                    ) {
                        Err(e) => Err(e),
                        Ok(phrases) => Ok(
                            (
                                ModContextView {
                                    lookup: symbols,
                                    mods,
                                    localization: catalogue_with(context.localization, phrases),
                                    ..context
                                },
                                registry,
                            ),
                        ),
                    },
                },
            },
        },
    }
}

/// The same database, mods, symbols and catalogue compile to the same
/// symbols, rows, catalogue and registry, or are refused alike.
pub proof fn lemma_compilation_determined(a: ModContextView, b: ModContextView)
    requires
        a.database == b.database,
        a.mods == b.mods,
        a.lookup == b.lookup,
        a.localization == b.localization,
    ensures
        match compiled(a) {
            Ok((after, registry)) => {
                &&& compiled(b) matches Ok((other, entries))
                &&& entries == registry
                &&& other.lookup == after.lookup
                &&& other.mods == after.mods
                &&& other.localization == after.localization
            },
            Err(e) => compiled(b) == Err::<(ModContextView, Seq<ComponentLink>), ModErrorView>(e),
        },
{
}

/// Whether there are few enough mods and rows for every mod to be given a
/// key.
pub fn check_limits(mod_context: &ModContext) -> (fits: bool)
    ensures
        fits == within_limits(mod_context@),
{
    let mut i: usize = 0;
    while i < mod_context.database.tables.len()
        invariant
            i <= mod_context.database.tables@.len(),
            forall|j: int|
                0 <= j < i ==> mod_context@.mods.len() + (
                #[trigger] mod_context@.database[j]).primary_keys.len() < i32::MAX,
        decreases mod_context.database.tables.len() - i,
    {
        assert(mod_context@.database[i as int] == mod_context.database.tables@[i as int]@);
        let rows = mod_context.database.tables[i].primary_keys.len();
        let mods = mod_context.mods.len();
        if mods >= 2147483647 || rows >= 2147483647 - mods {
            return false;
        }
        i += 1;
    }
    true
}

/// Compiles the mods of the buffer, and hands back the registry of
/// components.
pub fn compile_mods(mod_context: &mut ModContext) -> (done: Result<Vec<ComponentLink>, ModError>)
    requires
        within_limits(old(mod_context)@),
    ensures
        match compiled(old(mod_context)@) {
            Ok((context, registry)) => {
                &&& done matches Ok(entries)
                &&& entries@ == registry
                &&& final(mod_context)@ == context
            },
            Err(e) => done matches Err(x) && x@ == e,
        },
        done is Ok ==> forall|j: int|
            0 <= j < old(mod_context)@.mods.len() && needs_id(#[trigger] old(mod_context)@.mods[j])
                ==> has_fresh_key(
                old(mod_context)@.database,
                old(mod_context)@.mods,
                final(mod_context)@.lookup,
                j,
            ),
{
    match check_unique_ids(&mod_context.mods) {
        Ok(()) => {
            proof {
                assert forall|at: int| !is_first_repeat(mod_context@.mods, at) by {
                    if is_first_repeat(mod_context@.mods, at) {
                        let j = choose|j: int|
                            0 <= j < at && (#[trigger] mod_context@.mods[j]).id
                                == mod_context@.mods[at].id;
                        assert(mod_context@.mods[j].id != mod_context@.mods[at].id);
                    }
                }
            }
        },
        Err(e) => {
            proof {
                let at = choose|at: int|
                    is_first_repeat(mod_context@.mods, at) && e@ == ModErrorView::DuplicateModId(
                        (#[trigger] mod_context@.mods[at]).id,
                    );
                let chosen = choose|at: int| is_first_repeat(mod_context@.mods, at);
                lemma_first_repeat_unique(mod_context@.mods, at, chosen);
            }
            return Err(e);
        },
    }
    match allocate_ids(mod_context) {
        Ok(()) => {},
        Err(e) => {
            return Err(e);
        },
    }
    match resolve_references(mod_context) {
        Ok(()) => {},
        Err(e) => {
            return Err(e);
        },
    }
    let registry = match build_registry(mod_context) {
        Ok(registry) => registry,
        Err(e) => {
            return Err(e);
        },
    };
    match fix_locale(mod_context) {
        Ok(_) => {},
        Err(e) => {
            return Err(e);
        },
    }
    Ok(registry)
}

} // verus!
