//! The catalogue of localized phrases.

use vstd::prelude::*;
use crate::dict::{duplicate_all, Duplicate};
use crate::text::{decimal, decimal_of_id, replace_all, replaced};
use crate::value::views;

verus! {

/// One translation of a phrase.
#[derive(Debug, PartialEq, Eq)]
pub struct Translation {
    pub locale: String,
    pub value: String,
}

pub struct TranslationView {
    pub locale: Seq<char>,
    pub value: Seq<char>,
}

impl View for Translation {
    type V = TranslationView;

    open spec fn view(&self) -> TranslationView {
        TranslationView { locale: self.locale@, value: self.value@ }
    }
}

impl Duplicate for Translation {
    fn duplicate(&self) -> (out: Self) {
        Translation { locale: self.locale.clone(), value: self.value.clone() }
    }
}

/// A phrase with its translations. Until identifiers are known the phrase's
/// identifier holds `{}` where the number of its mod will stand.
#[derive(Debug, PartialEq, Eq)]
pub struct Phrase {
    pub id: String,
    pub translations: Vec<Translation>,
}

pub struct PhraseView {
    pub id: Seq<char>,
    pub translations: Seq<TranslationView>,
}

impl View for Phrase {
    type V = PhraseView;

    open spec fn view(&self) -> PhraseView {
        PhraseView { id: self.id@, translations: views(self.translations@) }
    }
}

impl Duplicate for Phrase {
    fn duplicate(&self) -> (out: Self) {
        Phrase { id: self.id.clone(), translations: duplicate_all(&self.translations) }
    }
}

/// The phrase with `id` written in place of each `{}` of its identifier.
pub open spec fn numbered(phrase: PhraseView, id: int) -> PhraseView {
    PhraseView { id: replaced(phrase.id, "{}"@, decimal(id)), translations: phrase.translations }
}

impl Phrase {
    /// The phrase under the identifier that it has once its mod is numbered
    /// `id`.
    pub fn with_id(&self, id: i32) -> (out: Phrase)
        ensures
            out@ == numbered(self@, id as int),
    {
        let number = decimal_of_id(id);
        Phrase {
            id: replace_all(self.id.as_str(), "{}", number.as_str()),
            translations: duplicate_all(&self.translations),
        }
    }
}

/// The code of one language.
#[derive(Debug, PartialEq, Eq)]
pub struct Locale {
    pub value: String,
}

impl View for Locale {
    type V = Seq<char>;

    open spec fn view(&self) -> Seq<char> {
        self.value@
    }
}

/// The languages of the catalogue, with their count as it is written out.
#[derive(Debug, PartialEq, Eq)]
pub struct Locales {
    pub count: i32,
    pub locale: Vec<Locale>,
}

/// The phrases of the catalogue, with their count as it is written out.
#[derive(Debug, PartialEq, Eq)]
pub struct Phrases {
    pub count: i32,
    pub phrase: Vec<Phrase>,
}

/// The whole catalogue. The version is carried as the bit pattern of a
/// single-precision number.
#[derive(Debug, PartialEq, Eq)]
pub struct Localization {
    pub version: u32,
    pub locales: Locales,
    pub phrases: Phrases,
}

pub struct LocalizationView {
    pub version: u32,
    pub locale_count: i32,
    pub locales: Seq<Seq<char>>,
    pub phrase_count: i32,
    pub phrases: Seq<PhraseView>,
}

impl View for Localization {
    type V = LocalizationView;

    open spec fn view(&self) -> LocalizationView {
        LocalizationView {
            version: self.version,
            locale_count: self.locales.count,
            locales: views(self.locales.locale@),
            phrase_count: self.phrases.count,
            phrases: views(self.phrases.phrase@),
        }
    }
}

/// The catalogue with both counts set to the lengths of their lists.
pub open spec fn counted(catalogue: LocalizationView) -> LocalizationView {
    LocalizationView {
        locale_count: catalogue.locales.len() as i32,
        phrase_count: catalogue.phrases.len() as i32,
        ..catalogue
    }
}

/// Both lists are short enough for their counts to be written.
pub open spec fn countable(catalogue: LocalizationView) -> bool {
    catalogue.locales.len() <= i32::MAX && catalogue.phrases.len() <= i32::MAX
}

impl Localization {
    /// Sets both counts to the lengths of their lists. Where a list is too
    /// long for its count to be written nothing is changed, and the answer
    /// is `false`.
    pub fn update_counts(&mut self) -> (done: bool)
        ensures
            done == countable(old(self)@),
            done ==> final(self)@ == counted(old(self)@),
            done ==> final(self)@.locale_count == final(self)@.locales.len(),
            done ==> final(self)@.phrase_count == final(self)@.phrases.len(),
            !done ==> final(self)@ == old(self)@,
    {
        if self.locales.locale.len() > 2147483647 || self.phrases.phrase.len() > 2147483647 {
            return false;
        }
        self.locales.count = self.locales.locale.len() as i32;
        self.phrases.count = self.phrases.phrase.len() as i32;
        true
    }
}

} // verus!
