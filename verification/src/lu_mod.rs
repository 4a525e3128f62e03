//! A mod: first what its author wrote, then, as it is expanded, the image of
//! the row that it adds to its table.

use vstd::prelude::*;
use crate::component::{mod_type_to_table_name, target_table};
use crate::dict::{duplicate_all, duplicate_text, lookup, stored, text_view, Dict, Duplicate};
use crate::locale::{Phrase, PhraseView, Translation, TranslationView};
use crate::mission::{MissionOffer, MissionOfferView, MissionTask, MissionTaskView};
use crate::value::{
    lemma_views_push,
    views,
    JsonMember,
    JsonMemberView,
    JsonValue,
    JsonView,
    OutputValue,
    OutputView,
};

verus! {

pub struct Mod {
    /// The symbol that the author chose; other mods refer to this one by it.
    pub id: String,
    /// The kind of the mod, which decides how it is expanded and which table
    /// it targets.
    pub mod_type: String,
    pub action: String,
    pub show_defaults: Option<bool>,
    /// The symbols of the mods that were made for this one's components.
    pub components: Vec<String>,
    pub table: Option<String>,
    pub skills: Vec<JsonValue>,
    pub tasks: Vec<MissionTask>,
    pub missions: Vec<MissionOffer>,
    pub items: Vec<JsonValue>,
    /// The name of the mod in each language.
    pub locale: Dict<String>,
    /// The values that the author gave.
    pub values: Dict<JsonValue>,
    /// The values that are written out, by column.
    pub output_values: Dict<OutputValue>,
    /// The row of the target table, cell by cell.
    pub fields: Vec<OutputValue>,
    /// The directory of the package that the mod came in.
    pub dir: String,
    /// The phrases to add to the catalogue once identifiers are known.
    pub new_locale_entries: Vec<Phrase>,
}

pub struct ModView {
    pub id: Seq<char>,
    pub mod_type: Seq<char>,
    pub action: Seq<char>,
    pub show_defaults: Option<bool>,
    pub components: Seq<Seq<char>>,
    pub table: Option<Seq<char>>,
    pub skills: Seq<JsonView>,
    pub tasks: Seq<MissionTaskView>,
    pub missions: Seq<MissionOfferView>,
    pub items: Seq<JsonView>,
    pub locale: Seq<(Seq<char>, Seq<char>)>,
    pub values: Seq<(Seq<char>, JsonView)>,
    pub output_values: Seq<(Seq<char>, OutputView)>,
    pub fields: Seq<OutputView>,
    pub dir: Seq<char>,
    pub new_locale_entries: Seq<PhraseView>,
}

impl View for Mod {
    type V = ModView;

    open spec fn view(&self) -> ModView {
        ModView {
            id: self.id@,
            mod_type: self.mod_type@,
            action: self.action@,
            show_defaults: self.show_defaults,
            components: views(self.components@),
            table: text_view(self.table),
            skills: views(self.skills@),
            tasks: views(self.tasks@),
            missions: views(self.missions@),
            items: views(self.items@),
            locale: self.locale@,
            values: self.values@,
            output_values: self.output_values@,
            fields: views(self.fields@),
            dir: self.dir@,
            new_locale_entries: views(self.new_locale_entries@),
        }
    }
}

/// A mod that adds nothing yet: every text and list empty, the action `add`.
pub open spec fn blank_mod() -> ModView {
    ModView {
        id: Seq::empty(),
        mod_type: Seq::empty(),
        action: "add"@,
        show_defaults: None,
        components: Seq::empty(),
        table: None,
        skills: Seq::empty(),
        tasks: Seq::empty(),
        missions: Seq::empty(),
        items: Seq::empty(),
        locale: Seq::empty(),
        values: Seq::empty(),
        output_values: Seq::empty(),
        fields: Seq::empty(),
        dir: Seq::empty(),
        new_locale_entries: Seq::empty(),
    }
}

impl Default for Mod {
    fn default() -> (out: Mod)
        ensures
            out@ == blank_mod(),
    {
        let out = Mod {
            id: String::new(),
            mod_type: String::new(),
            action: String::from_str("add"),
            show_defaults: None,
            components: Vec::new(),
            table: None,
            skills: Vec::new(),
            tasks: Vec::new(),
            missions: Vec::new(),
            items: Vec::new(),
            locale: Dict::new(),
            values: Dict::new(),
            output_values: Dict::new(),
            fields: Vec::new(),
            dir: String::new(),
            new_locale_entries: Vec::new(),
        };
        proof {
            assert(views(out.components@) =~= Seq::empty());
            assert(views(out.skills@) =~= Seq::empty());
            assert(views(out.tasks@) =~= Seq::empty());
            assert(views(out.missions@) =~= Seq::empty());
            assert(views(out.items@) =~= Seq::empty());
            assert(views(out.fields@) =~= Seq::empty());
            assert(views(out.new_locale_entries@) =~= Seq::empty());
        }
        out
    }
}

impl Duplicate for Mod {
    fn duplicate(&self) -> (out: Self) {
        Mod {
            id: self.id.clone(),
            mod_type: self.mod_type.clone(),
            action: self.action.clone(),
            show_defaults: self.show_defaults,
            components: duplicate_all(&self.components),
            table: duplicate_text(&self.table),
            skills: duplicate_all(&self.skills),
            tasks: duplicate_all(&self.tasks),
            missions: duplicate_all(&self.missions),
            items: duplicate_all(&self.items),
            locale: self.locale.duplicate(),
            values: self.values.duplicate(),
            output_values: self.output_values.duplicate(),
            fields: duplicate_all(&self.fields),
            dir: self.dir.clone(),
            new_locale_entries: duplicate_all(&self.new_locale_entries),
        }
    }
}

/// The mod with `value` written under the column `key`.
pub open spec fn with_output(m: ModView, key: Seq<char>, value: OutputView) -> ModView {
    ModView { output_values: stored(m.output_values, key, value), ..m }
}

/// The mod with `value` written under `key`, unless the author gave a value
/// for `key`.
pub open spec fn with_default(m: ModView, key: Seq<char>, value: JsonView) -> ModView {
    if lookup(m.values, key).is_none() {
        with_output(m, key, OutputView::FromJson(value))
    } else {
        m
    }
}

/// `outputs` after each of `values` is written to it, in order, as a value
/// that is still to be coerced.
pub open spec fn absorbed(
    outputs: Seq<(Seq<char>, OutputView)>,
    values: Seq<(Seq<char>, JsonView)>,
) -> Seq<(Seq<char>, OutputView)>
    decreases values.len(),
{
    if values.len() == 0 {
        outputs
    } else {
        stored(
            absorbed(outputs, values.drop_last()),
            values.last().0,
            OutputView::FromJson(values.last().1),
        )
    }
}

/// The translations that a dictionary of languages holds, in its order.
pub open spec fn translations_of(locale: Seq<(Seq<char>, Seq<char>)>) -> Seq<TranslationView> {
    Seq::new(locale.len(), |i: int| TranslationView { locale: locale[i].0, value: locale[i].1 })
}

/// The mod with a phrase under `phrase_id` that holds its names, if it has
/// any.
pub open spec fn with_locale(m: ModView, phrase_id: Seq<char>) -> ModView {
    if m.locale.len() == 0 {
        m
    } else {
        ModView {
            new_locale_entries: m.new_locale_entries.push(
                PhraseView { id: phrase_id, translations: translations_of(m.locale) },
            ),
            ..m
        }
    }
}

/// Every member is a string.
pub open spec fn all_texts(members: Seq<JsonMemberView>) -> bool {
    forall|i: int| 0 <= i < members.len() ==> (#[trigger] members[i]).text.is_some()
}

/// The translations that the members of an object stand for.
pub open spec fn member_translations(members: Seq<JsonMemberView>) -> Seq<TranslationView> {
    Seq::new(
        members.len(),
        |i: int| TranslationView { locale: members[i].name, value: members[i].text->0 },
    )
}

/// The mod with a phrase under `phrase_id` made of the value that the author
/// gave under `key`, where that value is an object of strings.
pub open spec fn with_locale_from_value(m: ModView, phrase_id: Seq<char>, key: Seq<char>) -> ModView {
    match lookup(m.values, key) {
        Some(JsonView::Object(members)) => if all_texts(members) {
            ModView {
                new_locale_entries: m.new_locale_entries.push(
                    PhraseView { id: phrase_id, translations: member_translations(members) },
                ),
                ..m
            }
        } else {
            m
        },
        _ => m,
    }
}

impl Mod {
    /// Writes `value` under `key` unless the author gave a value for `key`.
    pub fn set_default(&mut self, key: &str, value: JsonValue)
        ensures
            final(self)@ == with_default(old(self)@, key@, value@),
    {
        if self.values.get(key).is_none() {
            self.output_values.insert(String::from_str(key), OutputValue::FromJson(value));
        }
    }

    /// Writes `value` under `key`.
    pub fn set_value(&mut self, key: &str, value: JsonValue)
        ensures
            final(self)@ == with_output(old(self)@, key@, OutputView::FromJson(value@)),
    {
        self.output_values.insert(String::from_str(key), OutputValue::FromJson(value));
    }

    /// Asks for a new identifier under `key`.
    pub fn set_to_be_generated(&mut self, key: &str)
        ensures
            final(self)@ == with_output(old(self)@, key@, OutputView::GenerateId),
    {
        self.output_values.insert(String::from_str(key), OutputValue::GenerateId);
    }

    /// Writes under `key` the identifier that the mod `id_string` will have.
    pub fn set_awaiting_id(&mut self, key: &str, id_string: &str)
        ensures
            final(self)@ == with_output(old(self)@, key@, OutputView::AwaitingId(id_string@)),
    {
        self.output_values.insert(
            String::from_str(key),
            OutputValue::AwaitingId(String::from_str(id_string)),
        );
    }

    /// Writes each value that the author gave to the output values.
    pub fn init_output_values(&mut self)
        ensures
            final(self)@ == (ModView {
                output_values: absorbed(old(self)@.output_values, old(self)@.values),
                ..old(self)@
            }),
    {
        let mut i: usize = 0;
        while i < self.values.len()
            invariant
                i <= self.values@.len(),
                self@ == (ModView {
                    output_values: absorbed(old(self)@.output_values, old(self)@.values.take(i as int)),
                    ..old(self)@
                }),
            decreases self.values@.len() - i,
        {
            let key = self.values.key_at(i).clone();
            let value = self.values.value_at(i).clone();
            proof {
                let next = old(self)@.values.take(i + 1);
                assert(next.drop_last() == old(self)@.values.take(i as int));
                assert(next.last() == old(self)@.values[i as int]);
            }
            self.output_values.insert(key, OutputValue::FromJson(value));
            i += 1;
        }
        proof {
            assert(old(self)@.values.take(old(self)@.values.len() as int) == old(self)@.values);
        }
    }

    /// The table that the mod targets.
    pub fn get_target_table_name(&self) -> (table: String)
        ensures
            table@ == target_table(self@.mod_type),
    {
        mod_type_to_table_name(self.mod_type.as_str())
    }

    /// Notes a phrase under `phrase_id` with the mod's names, if it has any.
    pub fn add_locale(&mut self, phrase_id: &str)
        ensures
            final(self)@ == with_locale(old(self)@, phrase_id@),
    {
        if self.locale.len() > 0 {
            let mut translations: Vec<Translation> = Vec::new();
            let mut i: usize = 0;
            while i < self.locale.len()
                invariant
                    i <= self.locale@.len(),
                    self@ == old(self)@,
                    views(translations@) == translations_of(self.locale@).take(i as int),
                decreases self.locale@.len() - i,
            {
                let translation = Translation {
                    locale: self.locale.key_at(i).clone(),
                    value: self.locale.value_at(i).clone(),
                };
                proof {
                    lemma_views_push(translations@, translation);
                    assert(translations_of(self.locale@).take(i + 1) == translations_of(
                        self.locale@,
                    ).take(i as int).push(translation@));
                }
                translations.push(translation);
                i += 1;
            }
            proof {
                assert(translations_of(self.locale@).take(self.locale@.len() as int)
                    == translations_of(self.locale@));
            }
            let phrase = Phrase { id: String::from_str(phrase_id), translations };
            proof {
                lemma_views_push(self.new_locale_entries@, phrase);
            }
            self.new_locale_entries.push(phrase);
        }
    }

    /// Notes a phrase under `phrase_id` made of the value that the author
    /// gave under `key`, where that value is an object of strings.
    pub fn add_locale_from_value(&mut self, phrase_id: &str, key: &str)
        ensures
            final(self)@ == with_locale_from_value(old(self)@, phrase_id@, key@),
    {
        let translations = match self.values.get(key) {
            Some(JsonValue::Object(members)) => texts_of(members),
            _ => None,
        };
        match translations {
            Some(translations) => {
                let phrase = Phrase { id: String::from_str(phrase_id), translations };
                proof {
                    lemma_views_push(self.new_locale_entries@, phrase);
                }
                self.new_locale_entries.push(phrase);
            },
            None => {},
        }
    }
}

/// The translations that the members stand for, where each is a string.
fn texts_of(members: &Vec<JsonMember>) -> (out: Option<Vec<Translation>>)
    ensures
        match out {
            Some(t) => all_texts(views(members@)) && views(t@) == member_translations(
                views(members@),
            ),
            None => !all_texts(views(members@)),
        },
{
    let mut translations: Vec<Translation> = Vec::new();
    let mut i: usize = 0;
    while i < members.len()
        invariant
            i <= members@.len(),
            forall|j: int| 0 <= j < i ==> (#[trigger] views(members@)[j]).text.is_some(),
            views(translations@) == member_translations(views(members@)).take(i as int),
        decreases members.len() - i,
    {
        match &members[i].text {
            Some(text) => {
                let translation = Translation {
                    locale: members[i].name.clone(),
                    value: text.clone(),
                };
                proof {
                    lemma_views_push(translations@, translation);
                    assert(views(members@)[i as int] == members@[i as int]@);
                    assert(member_translations(views(members@)).take(i + 1)
                        == member_translations(views(members@)).take(i as int).push(translation@));
                }
                translations.push(translation);
            },
            None => {
                assert(views(members@)[i as int].text.is_none());
                return None;
            },
        }
        i += 1;
    }
    proof {
        assert(member_translations(views(members@)).take(members@.len() as int)
            == member_translations(views(members@)));
    }
    Some(translations)
}

} // verus!
