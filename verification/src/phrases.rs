//! The phrases of the mods: once identifiers are bound, each phrase takes
//! the number of its mod into its identifier and joins the catalogue.

use vstd::prelude::*;
use crate::dict::{lookup, Dict, Duplicate};
use crate::error::{ModError, ModErrorView};
use crate::locale::{counted, countable, numbered, LocalizationView, Phrase, PhraseView};
use crate::lu_mod::{Mod, ModView};
use crate::mod_context::{ModContext, ModContextView};
use crate::text::{contains_text, occurs_at};
use crate::value::{lemma_views_push, views};

verus! {

/// The identifier holds a place for a number.
pub open spec fn holds_placeholder(id: Seq<char>) -> bool {
    exists|at: int| occurs_at(id, "{}"@, at)
}

/// A phrase of `m` as it joins the catalogue: with the number bound to `m`
/// in its identifier. Where nothing is bound to `m`, a phrase without a
/// place for the number stays as it is, and one with such a place is
/// refused.
pub open spec fn fixed_phrase(symbols: Seq<(Seq<char>, i32)>, m: ModView, phrase: PhraseView) -> Result<
    PhraseView,
    ModErrorView,
> {
    match lookup(symbols, m.id) {
        Some(id) => Ok(numbered(phrase, id as int)),
        None => if holds_placeholder(phrase.id) {
            Err(ModErrorView::UnresolvedSymbol(m.id))
        } else {
            Ok(phrase)
        },
    }
}

/// `phrases` followed by the first `n` phrases of `m`, fixed.
pub open spec fn with_phrases_of(
    symbols: Seq<(Seq<char>, i32)>,
    phrases: Seq<PhraseView>,
    m: ModView,
    n: int,
) -> Result<Seq<PhraseView>, ModErrorView>
    decreases n,
{
    if n <= 0 {
        Ok(phrases)
    } else {
        match with_phrases_of(symbols, phrases, m, n - 1) {
            Err(e) => Err(e),
            Ok(before) => match fixed_phrase(symbols, m, m.new_locale_entries[n - 1]) {
                Err(e) => Err(e),
                Ok(phrase) => Ok(before.push(phrase)),
            },
        }
    }
}

/// `phrases` followed by the phrases of the first `n` mods, fixed, in the
/// order of the buffer.
pub open spec fn with_phrases(
    symbols: Seq<(Seq<char>, i32)>,
    phrases: Seq<PhraseView>,
    mods: Seq<ModView>,
    n: int,
) -> Result<Seq<PhraseView>, ModErrorView>
    decreases n,
{
    if n <= 0 {
        Ok(phrases)
    } else {
        match with_phrases(symbols, phrases, mods, n - 1) {
            Err(e) => Err(e),
            Ok(before) => with_phrases_of(
                symbols,
                before,
                mods[n - 1],
                mods[n - 1].new_locale_entries.len() as int,
            ),
        }
    }
}

/// A refusal among the first phrases of a mod is the refusal of them all.
pub proof fn lemma_phrases_of_refused(
    symbols: Seq<(Seq<char>, i32)>,
    phrases: Seq<PhraseView>,
    m: ModView,
    n: int,
    len: int,
)
    requires
        0 <= n <= len,
        with_phrases_of(symbols, phrases, m, n) is Err,
    ensures
        with_phrases_of(symbols, phrases, m, len) == with_phrases_of(symbols, phrases, m, n),
    decreases len,
{
    if n < len {
        lemma_phrases_of_refused(symbols, phrases, m, n, len - 1);
    }
}

/// A refusal among the first mods is the refusal of them all.
pub proof fn lemma_phrases_refused(
    symbols: Seq<(Seq<char>, i32)>,
    phrases: Seq<PhraseView>,
    mods: Seq<ModView>,
    n: int,
    len: int,
)
    requires
        0 <= n <= len,
        with_phrases(symbols, phrases, mods, n) is Err,
    ensures
        with_phrases(symbols, phrases, mods, len) == with_phrases(symbols, phrases, mods, n),
    decreases len,
{
    if n < len {
        lemma_phrases_refused(symbols, phrases, mods, n, len - 1);
    }
}

/// A phrase of `lu_mod` as it joins the catalogue.
pub fn fix_phrase(symbols: &Dict<i32>, lu_mod: &Mod, phrase: &Phrase) -> (fixed: Result<
    Phrase,
    ModError,
>)
    ensures
        match fixed_phrase(symbols@, lu_mod@, phrase@) {
            Ok(p) => fixed matches Ok(f) && f@ == p,
            Err(e) => fixed matches Err(x) && x@ == e,
        },
{
    match symbols.get(lu_mod.id.as_str()) {
        Some(id) => Ok(phrase.with_id(*id)),
        None => if contains_text(phrase.id.as_str(), "{}") {
            Err(ModError::UnresolvedSymbol(lu_mod.id.clone()))
        } else {
            Ok(phrase.duplicate())
        },
    }
}

/// The catalogue with `phrases` for its phrases, and its counts set where
/// they can be written.
pub open spec fn catalogue_with(catalogue: LocalizationView, phrases: Seq<PhraseView>) -> LocalizationView {
    let filled = LocalizationView { phrases, ..catalogue };
    if countable(filled) {
        counted(filled)
    } else {
        filled
    }
}

/// Adds the phrases of the mods to the catalogue, each with the number of
/// its mod in its identifier, and sets the counts of the catalogue to the
/// lengths of its lists. The answer says whether the counts could be
/// written.
pub fn fix_locale(mod_context: &mut ModContext) -> (done: Result<bool, ModError>)
    ensures
        match with_phrases(
            old(mod_context)@.lookup,
            old(mod_context)@.localization.phrases,
            old(mod_context)@.mods,
            old(mod_context)@.mods.len() as int,
        ) {
            Ok(phrases) => {
                &&& done matches Ok(written)
                &&& written == countable(
                    LocalizationView { phrases, ..old(mod_context)@.localization },
                )
                &&& final(mod_context)@ == (ModContextView {
                    localization: catalogue_with(old(mod_context)@.localization, phrases),
                    ..old(mod_context)@
                })
            },
            Err(e) => done matches Err(x) && x@ == e,
        },
{
    let ghost symbols = mod_context@.lookup;
    let ghost mods = mod_context@.mods;
    let ghost stock = mod_context@.localization.phrases;
    let mut added: Vec<Phrase> = Vec::new();
    let ghost mut all: Seq<PhraseView> = stock;
    assert(views(added@) =~= Seq::<PhraseView>::empty());
    assert(stock + views(added@) == stock);
    let mut i: usize = 0;
    while i < mod_context.mods.len()
        invariant
            i <= mod_context.mods@.len(),
            *mod_context == *old(mod_context),
            symbols == mod_context@.lookup,
            mods == mod_context@.mods,
            stock == mod_context@.localization.phrases,
            all == stock + views(added@),
            with_phrases(symbols, stock, mods, i as int) == Ok::<Seq<PhraseView>, ModErrorView>(all),
        decreases mod_context.mods.len() - i,
    {
        let lu_mod = &mod_context.mods[i];
        assert(mods[i as int] == lu_mod@);
        let ghost before = all;
        let mut j: usize = 0;
        while j < lu_mod.new_locale_entries.len()
            invariant
                j <= lu_mod.new_locale_entries@.len(),
                i < mod_context.mods@.len(),
                *mod_context == *old(mod_context),
                symbols == mod_context@.lookup,
                mods == mod_context@.mods,
                mods[i as int] == lu_mod@,
                stock == mod_context@.localization.phrases,
                all == stock + views(added@),
                with_phrases(symbols, stock, mods, i as int) == Ok::<
                    Seq<PhraseView>,
                    ModErrorView,
                >(before),
                with_phrases_of(symbols, before, lu_mod@, j as int) == Ok::<
                    Seq<PhraseView>,
                    ModErrorView,
                >(all),
            decreases lu_mod.new_locale_entries.len() - j,
        {
            assert(lu_mod@.new_locale_entries[j as int] == lu_mod.new_locale_entries@[j as int]@);
            match fix_phrase(&mod_context.lookup, lu_mod, &lu_mod.new_locale_entries[j]) {
                Ok(phrase) => {
                    proof {
                        lemma_views_push(added@, phrase);
                        assert((stock + views(added@)).push(phrase@) == stock + views(added@).push(
                            phrase@,
                        ));
                        all = all.push(phrase@);
                    }
                    added.push(phrase);
                },
                Err(e) => {
                    proof {
                        lemma_phrases_of_refused(
                            symbols,
                            before,
                            lu_mod@,
                            j + 1,
                            lu_mod@.new_locale_entries.len() as int,
                        );
                        lemma_phrases_refused(symbols, stock, mods, i + 1, mods.len() as int);
                    }
                    return Err(e);
                },
            }
            j += 1;
        }
        i += 1;
    }
    proof {
        crate::value::lemma_views_add(mod_context.localization.phrases.phrase@, added@);
    }
    mod_context.localization.phrases.phrase.append(&mut added);
    let written = mod_context.localization.update_counts();
    Ok(written)
}

} // verus!
