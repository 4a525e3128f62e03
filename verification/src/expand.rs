//! The expansion of a mod into its row and the rows that go with it.

use vstd::prelude::*;
use crate::component::target_table;
use crate::defaults::{
    defaults_view,
    environmental_default_table,
    environmental_defaults,
    item_default_table,
    item_defaults,
};
use crate::dict::{lookup, Duplicate};
use crate::error::{ModError, ModErrorView};
use crate::lu_mod::{blank_mod, with_default, with_locale, with_output, Mod, ModView};
use crate::mod_context::{ModContext, ModContextView};
use crate::path::{as_icon_path, convert_path_specifier, icon_path, rewritten};
use crate::row::{make_row_fields, row_for};
use crate::schema::{find_table, table_named, TableView};
use crate::text::{decimal, decimal_of_index, joined, same_text};
use crate::value::{
    lemma_views_push,
    views,
    Field,
    FieldView,
    JsonNumber,
    JsonValue,
    JsonView,
    OutputValue,
    OutputView,
};

verus! {

/// A cell once rewritten: a text cell holds its rewritten text, any other
/// cell stays.
pub open spec fn rewritten_cell(dir: Seq<char>, cell: OutputView) -> OutputView {
    match cell {
        OutputView::Known(FieldView::Text(s)) => OutputView::Known(
            FieldView::Text(rewritten(dir, s)),
        ),
        other => other,
    }
}

/// A row with each of its cells rewritten.
pub open spec fn rewritten_row(dir: Seq<char>, row: Seq<OutputView>) -> Seq<OutputView> {
    Seq::new(row.len(), |i: int| rewritten_cell(dir, row[i]))
}

/// The mod with the row of its target table, made of its output values and
/// rewritten. A mod whose target the database does not hold stays as it is.
pub open spec fn finalized(database: Seq<TableView>, m: ModView) -> Result<ModView, ModErrorView> {
    match table_named(database, target_table(m.mod_type)) {
        None => Ok(m),
        Some(table) => match row_for(table.columns, m.output_values) {
            Err(e) => Err(e),
            Ok(row) => Ok(ModView { fields: rewritten_row(m.dir, row), ..m }),
        },
    }
}

/// A new mod of kind `mod_type` under the symbol `id`, of the same package
/// as `parent`, with `output_values` to start from.
pub open spec fn child_of(
    parent: ModView,
    id: Seq<char>,
    mod_type: Seq<char>,
    output_values: Seq<(Seq<char>, OutputView)>,
) -> ModView {
    ModView { id, mod_type, dir: parent.dir, output_values, ..blank_mod() }
}

/// The mod that stands for a component of `m`, before its row is made.
pub open spec fn component_child(m: ModView, component_type: Seq<char>) -> ModView {
    with_output(
        child_of(m, m.id + ":"@ + component_type, component_type, m.output_values),
        "id"@,
        OutputView::GenerateId,
    )
}

/// The buffer and the mod after a component of type `component_type` is
/// attached to `m`: the component's mod is appended to the buffer, and its
/// symbol to the components of `m`.
pub open spec fn with_component(
    database: Seq<TableView>,
    state: (Seq<ModView>, ModView),
    component_type: Seq<char>,
) -> Result<(Seq<ModView>, ModView), ModErrorView> {
    let (buffer, m) = state;
    match finalized(database, component_child(m, component_type)) {
        Err(e) => Err(e),
        Ok(child) => Ok(
            (buffer.push(child), ModView { components: m.components.push(child.id), ..m }),
        ),
    }
}

/// The mod that holds an icon of `parent`, before its row is made.
pub open spec fn icon_child(parent: ModView, path: Seq<char>, suffix: Seq<char>) -> ModView {
    with_output(
        with_output(
            child_of(parent, parent.id + ":"@ + suffix, "Icons"@, Seq::empty()),
            "IconID"@,
            OutputView::GenerateId,
        ),
        "IconPath"@,
        OutputView::FromJson(JsonView::String(icon_path(path))),
    )
}

/// A mod that is expanded as an object targets the table `Objects`: where
/// its kind does not say so, the mod becomes of the kind `object`.
pub open spec fn as_object(m: ModView) -> ModView {
    if target_table(m.mod_type) == "Objects"@ {
        m
    } else {
        ModView { mod_type: "object"@, ..m }
    }
}

/// The object that `m` describes: its name is noted for the catalogue, it
/// asks for a new identifier, and its row of the table `Objects` is made.
pub open spec fn object_expansion(database: Seq<TableView>, m: ModView) -> Result<
    ModView,
    ModErrorView,
> {
    finalized(
        database,
        with_output(with_locale(as_object(m), "Objects_{}_name"@), "id"@, OutputView::GenerateId),
    )
}

/// An object that is expanded targets the table `Objects`.
pub proof fn lemma_object_targets_objects(database: Seq<TableView>, m: ModView)
    requires
        object_expansion(database, m) is Ok,
    ensures
        target_table(object_expansion(database, m)->Ok_0.mod_type) == "Objects"@,
{
}

/// A new mod under `id`, of kind `mod_type`, in the package of `parent`.
pub fn new_child(parent: &Mod, id: String, mod_type: &str) -> (out: Mod)
    ensures
        out@ == child_of(parent@, id@, mod_type@, Seq::empty()),
{
    let mut out = Mod::default();
    out.id = id;
    out.mod_type = String::from_str(mod_type);
    out.dir = parent.dir.clone();
    out
}

/// A new mod under `id`, of kind `mod_type`, in the package of `parent`,
/// that starts from the output values of `parent`.
pub fn new_heir(parent: &Mod, id: String, mod_type: &str) -> (out: Mod)
    ensures
        out@ == child_of(parent@, id@, mod_type@, parent@.output_values),
{
    let mut out = Mod::default();
    out.id = id;
    out.mod_type = String::from_str(mod_type);
    out.dir = parent.dir.clone();
    out.output_values = parent.output_values.duplicate();
    out
}

impl Mod {
    /// Makes the row of the mod's target table.
    pub fn set_fields(&mut self, mod_context: &ModContext) -> (done: Result<(), ModError>)
        ensures
            match finalized(mod_context@.database, old(self)@) {
                Ok(m) => done is Ok && final(self)@ == m,
                Err(e) => done matches Err(x) && x@ == e,
            },
    {
        let table_name = self.get_target_table_name();
        match find_table(&mod_context.database, table_name.as_str()) {
            None => Ok(()),
            Some(at) => {
                let table = &mod_context.database.tables[at];
                assert(table@ == mod_context@.database[at as int]);
                let row = match make_row_fields(table, &self.output_values) {
                    Ok(row) => row,
                    Err(e) => {
                        return Err(e);
                    },
                };
                let mut fields: Vec<OutputValue> = Vec::new();
                let mut i: usize = 0;
                while i < row.len()
                    invariant
                        i <= row@.len(),
                        self@ == old(self)@,
                        fields@.len() == i,
                        forall|j: int|
                            0 <= j < i ==> (#[trigger] fields@[j])@ == rewritten_cell(
                                self@.dir,
                                row@[j]@,
                            ),
                    decreases row.len() - i,
                {
                    let cell = match &row[i] {
                        OutputValue::Known(Field::Text(text)) => OutputValue::Known(
                            Field::Text(convert_path_specifier(self, text.as_str())),
                        ),
                        other => other.clone(),
                    };
                    fields.push(cell);
                    i += 1;
                }
                assert(views(fields@) =~= rewritten_row(self@.dir, views(row@)));
                self.fields = fields;
                Ok(())
            },
        }
    }

    /// Makes the mod of a component of this one, appends it to the buffer,
    /// and notes its symbol among the components. The component's mod is
    /// handed back.
    pub fn add_component(&mut self, mod_context: &mut ModContext, component_type: &str) -> (made:
        Result<Mod, ModError>)
        ensures
            match with_component(
                old(mod_context)@.database,
                (old(mod_context)@.mods, old(self)@),
                component_type@,
            ) {
                Ok((buffer, m)) => {
                    &&& made matches Ok(child)
                    &&& child@ == buffer.last()
                    &&& final(self)@ == m
                    &&& final(mod_context)@ == (ModContextView { mods: buffer, ..old(mod_context)@ })
                },
                Err(e) => made matches Err(x) && x@ == e,
            },
    {
        let id_str = joined(joined(self.id.as_str(), ":").as_str(), component_type);
        let mut output = new_heir(self, id_str.clone(), component_type);
        match apply_component_mod(mod_context, &mut output) {
            Ok(()) => {},
            Err(e) => {
                return Err(e);
            },
        }
        proof {
            lemma_views_push(self.components@, id_str);
            lemma_views_push(mod_context.mods@, output);
        }
        self.components.push(id_str);
        let copy = output.duplicate();
        mod_context.mods.push(output);
        Ok(copy)
    }
}

/// Expands a mod that stands for a component: it asks for a new identifier
/// and its row is made.
pub fn apply_component_mod(mod_context: &ModContext, lu_mod: &mut Mod) -> (done: Result<
    (),
    ModError,
>)
    ensures
        match finalized(
            mod_context@.database,
            with_output(old(lu_mod)@, "id"@, OutputView::GenerateId),
        ) {
            Ok(m) => done is Ok && final(lu_mod)@ == m,
            Err(e) => done matches Err(x) && x@ == e,
        },
{
    lu_mod.set_to_be_generated("id");
    lu_mod.set_fields(mod_context)
}

/// Expands an object.
pub fn apply_object_mod(mod_context: &mut ModContext, lu_mod: &mut Mod) -> (done: Result<
    (),
    ModError,
>)
    ensures
        final(mod_context)@ == old(mod_context)@,
        match object_expansion(old(mod_context)@.database, old(lu_mod)@) {
            Ok(m) => done is Ok && final(lu_mod)@ == m,
            Err(e) => done matches Err(x) && x@ == e,
        },
{
    let target = lu_mod.get_target_table_name();
    if !same_text(target.as_str(), "Objects") {
        lu_mod.mod_type = String::from_str("object");
    }
    lu_mod.add_locale("Objects_{}_name");
    lu_mod.set_to_be_generated("id");
    lu_mod.set_fields(mod_context)
}

/// The mod of an icon of `parent`, before its row is made.
pub fn new_icon(parent: &Mod, path: &str, suffix: &str) -> (icon: Mod)
    ensures
        icon@ == icon_child(parent@, path@, suffix@),
{
    let id = joined(joined(parent.id.as_str(), ":").as_str(), suffix);
    let mut icon = new_child(parent, id, "Icons");
    icon.set_to_be_generated("IconID");
    icon.set_value("IconPath", JsonValue::String(as_icon_path(path)));
    icon
}

/// Makes the mod of an icon of `parent` and appends it to the buffer. The
/// symbol of the icon's mod is handed back.
pub fn add_icon(mod_context: &mut ModContext, parent: &Mod, path: &str, suffix: &str) -> (made:
    Result<String, ModError>)
    ensures
        match finalized(old(mod_context)@.database, icon_child(parent@, path@, suffix@)) {
            Ok(child) => {
                &&& made matches Ok(id)
                &&& id@ == child.id
                &&& final(mod_context)@ == (ModContextView {
                    mods: old(mod_context)@.mods.push(child),
                    ..old(mod_context)@
                })
            },
            Err(e) => made matches Err(x) && x@ == e,
        },
{
    let mut icon = new_icon(parent, path, suffix);
    let id = icon.id.clone();
    match icon.set_fields(mod_context) {
        Ok(()) => {},
        Err(e) => {
            return Err(e);
        },
    }
    proof {
        lemma_views_push(mod_context.mods@, icon);
    }
    mod_context.mods.push(icon);
    Ok(id)
}

/// The mod after each default of `defaults` is applied, in order.
pub open spec fn with_defaults(m: ModView, defaults: Seq<(Seq<char>, JsonView)>) -> ModView
    decreases defaults.len(),
{
    if defaults.len() == 0 {
        m
    } else {
        with_default(
            with_defaults(m, defaults.drop_last()),
            defaults.last().0,
            defaults.last().1,
        )
    }
}

/// Defaults touch nothing but the output values.
pub proof fn lemma_defaults_keep(m: ModView, defaults: Seq<(Seq<char>, JsonView)>)
    ensures
        with_defaults(m, defaults) == (ModView {
            output_values: with_defaults(m, defaults).output_values,
            ..m
        }),
    decreases defaults.len(),
{
    if defaults.len() > 0 {
        lemma_defaults_keep(m, defaults.drop_last());
    }
}

/// The buffer and the mod after a component of each of `types` is attached,
/// in order.
pub open spec fn with_components(
    database: Seq<TableView>,
    state: (Seq<ModView>, ModView),
    types: Seq<Seq<char>>,
) -> Result<(Seq<ModView>, ModView), ModErrorView>
    decreases types.len(),
{
    if types.len() == 0 {
        Ok(state)
    } else {
        match with_components(database, state, types.drop_last()) {
            Err(e) => Err(e),
            Ok(before) => with_component(database, before, types.last()),
        }
    }
}

/// A refusal among the first components is the refusal of them all.
pub proof fn lemma_components_refused(
    database: Seq<TableView>,
    state: (Seq<ModView>, ModView),
    types: Seq<Seq<char>>,
    n: int,
)
    requires
        0 <= n <= types.len(),
        with_components(database, state, types.take(n)) is Err,
    ensures
        with_components(database, state, types) == with_components(database, state, types.take(n)),
    decreases types.len(),
{
    if n == types.len() {
        assert(types.take(n) == types);
    } else {
        assert(types.drop_last().take(n) == types.take(n));
        lemma_components_refused(database, state, types.drop_last(), n);
    }
}

/// The buffer after the row of each of `children` is made and the child
/// appended, in order.
pub open spec fn with_children(
    database: Seq<TableView>,
    buffer: Seq<ModView>,
    children: Seq<ModView>,
) -> Result<Seq<ModView>, ModErrorView>
    decreases children.len(),
{
    if children.len() == 0 {
        Ok(buffer)
    } else {
        match with_children(database, buffer, children.drop_last()) {
            Err(e) => Err(e),
            Ok(before) => match finalized(database, children.last()) {
                Err(e) => Err(e),
                Ok(child) => Ok(before.push(child)),
            },
        }
    }
}

/// A refusal among the first children is the refusal of them all.
pub proof fn lemma_children_refused(
    database: Seq<TableView>,
    buffer: Seq<ModView>,
    children: Seq<ModView>,
    n: int,
)
    requires
        0 <= n <= children.len(),
        with_children(database, buffer, children.take(n)) is Err,
    ensures
        with_children(database, buffer, children) == with_children(
            database,
            buffer,
            children.take(n),
        ),
    decreases children.len(),
{
    if n == children.len() {
        assert(children.take(n) == children);
    } else {
        assert(children.drop_last().take(n) == children.take(n));
        lemma_children_refused(database, buffer, children.drop_last(), n);
    }
}

/// The cell that refers to what `value` names: the identifier of the mod of
/// that name where it is a string, else the value itself.
pub open spec fn reference(value: JsonView) -> OutputView {
    match value {
        JsonView::String(s) => OutputView::AwaitingId(s),
        _ => OutputView::FromJson(value),
    }
}

/// The untyped integer `n`.
pub open spec fn whole(n: int) -> JsonView {
    JsonView::Number(JsonNumber::Integer(n as i64))
}

/// The mod that links `m` to its skill at `index`, before its row is made.
pub open spec fn skill_child(m: ModView, index: int) -> ModView {
    let start = child_of(m, m.id + ":skills:"@ + decimal(index), "ObjectSkills"@, Seq::empty());
    let cast = match lookup(m.values, "castOnType"@) {
        Some(v) => v,
        None => whole(0),
    };
    with_output(
        with_output(
            with_output(
                with_output(start, "castOnType"@, OutputView::FromJson(cast)),
                "AICombatWeight"@,
                OutputView::FromJson(whole(0)),
            ),
            "objectTemplate"@,
            OutputView::AwaitingId(m.id),
        ),
        "skillID"@,
        reference(m.skills[index]),
    )
}

/// The mods that link `m` to its skills.
pub open spec fn skill_children(m: ModView) -> Seq<ModView> {
    Seq::new(m.skills.len(), |i: int| skill_child(m, i))
}

/// An object of one of the kinds that are expanded alike: the defaults of
/// the kind are applied, its type is set, its components are attached, its
/// skills are linked where `skill_links` is set, and it is expanded as an
/// object. Where `skill_component` is set, a mod with skills gets a skill
/// component too.
pub open spec fn kind_expansion(
    database: Seq<TableView>,
    buffer: Seq<ModView>,
    m: ModView,
    defaults: Seq<(Seq<char>, JsonView)>,
    object_type: Seq<char>,
    types: Seq<Seq<char>>,
    skill_component: bool,
    skill_links: bool,
) -> Result<(Seq<ModView>, ModView), ModErrorView> {
    let start = with_output(
        with_defaults(m, defaults),
        "type"@,
        OutputView::FromJson(JsonView::String(object_type)),
    );
    let all_types = if skill_component && m.skills.len() > 0 {
        types.push("SkillComponent"@)
    } else {
        types
    };
    match with_components(database, (buffer, start), all_types) {
        Err(e) => Err(e),
        Ok((attached, owner)) => match with_children(
            database,
            attached,
            if skill_links {
                skill_children(owner)
            } else {
                Seq::empty()
            },
        ) {
            Err(e) => Err(e),
            Ok(linked) => match object_expansion(database, owner) {
                Err(e) => Err(e),
                Ok(object) => Ok((linked, object)),
            },
        },
    }
}

/// The names of a list of component types.
pub open spec fn names(types: Seq<&'static str>) -> Seq<Seq<char>> {
    Seq::new(types.len(), |i: int| types[i]@)
}

/// An item: its defaults, the type `Loot`, an item component and a render
/// component, and a skill component with the links to its skills where it
/// has any.
pub open spec fn item_expansion(database: Seq<TableView>, buffer: Seq<ModView>, m: ModView) -> Result<
    (Seq<ModView>, ModView),
    ModErrorView,
> {
    kind_expansion(
        database,
        buffer,
        m,
        item_defaults(),
        "Loot"@,
        seq!["ItemComponent"@, "RenderComponent"@],
        true,
        true,
    )
}

/// A part of the scenery: its defaults, the type `Environmental`, a render
/// component and a simple physics component.
pub open spec fn environmental_expansion(
    database: Seq<TableView>,
    buffer: Seq<ModView>,
    m: ModView,
) -> Result<(Seq<ModView>, ModView), ModErrorView> {
    kind_expansion(
        database,
        buffer,
        m,
        environmental_defaults(),
        "Environmental"@,
        seq!["RenderComponent"@, "SimplePhysicsComponent"@],
        false,
        false,
    )
}

/// An enemy: the type `Enemies`, its six components, and the links to its
/// skills.
pub open spec fn enemy_expansion(database: Seq<TableView>, buffer: Seq<ModView>, m: ModView) -> Result<
    (Seq<ModView>, ModView),
    ModErrorView,
> {
    kind_expansion(
        database,
        buffer,
        m,
        Seq::empty(),
        "Enemies"@,
        seq![
            "ControllablePhysicsComponent"@,
            "RenderComponent"@,
            "DestructibleComponent"@,
            "SkillComponent"@,
            "MovementAIComponent"@,
            "BaseCombatAIComponent"@,
        ],
        false,
        true,
    )
}

impl Mod {
    /// Applies each default of `defaults`, in order.
    pub fn set_defaults(&mut self, defaults: &Vec<(&'static str, JsonValue)>)
        ensures
            final(self)@ == with_defaults(old(self)@, defaults_view(defaults@)),
    {
        let mut i: usize = 0;
        assert(defaults_view(defaults@).take(0) == Seq::<(Seq<char>, JsonView)>::empty());
        while i < defaults.len()
            invariant
                i <= defaults@.len(),
                self@ == with_defaults(old(self)@, defaults_view(defaults@).take(i as int)),
            decreases defaults.len() - i,
        {
            proof {
                let next = defaults_view(defaults@).take(i + 1);
                assert(next.drop_last() == defaults_view(defaults@).take(i as int));
                assert(next.last() == (defaults@[i as int].0@, defaults@[i as int].1@));
            }
            self.set_default(defaults[i].0, defaults[i].1.clone());
            i += 1;
        }
        assert(defaults_view(defaults@).take(defaults@.len() as int) == defaults_view(defaults@));
    }

    /// Attaches a component of each of `types`, in order.
    pub fn add_components(&mut self, mod_context: &mut ModContext, types: &Vec<&'static str>) -> (done:
        Result<(), ModError>)
        ensures
            match with_components(
                old(mod_context)@.database,
                (old(mod_context)@.mods, old(self)@),
                names(types@),
            ) {
                Ok((buffer, m)) => {
                    &&& done is Ok
                    &&& final(self)@ == m
                    &&& final(mod_context)@ == (ModContextView { mods: buffer, ..old(mod_context)@ })
                },
                Err(e) => done matches Err(x) && x@ == e,
            },
    {
        let ghost database = mod_context@.database;
        let ghost start = (mod_context@.mods, self@);
        let mut i: usize = 0;
        assert(names(types@).take(0) == Seq::<Seq<char>>::empty());
        while i < types.len()
            invariant
                i <= types@.len(),
                database == old(mod_context)@.database,
                start == (old(mod_context)@.mods, old(self)@),
                mod_context@ == (ModContextView { mods: mod_context@.mods, ..old(mod_context)@ }),
                with_components(database, start, names(types@).take(i as int)) == Ok::<
                    (Seq<ModView>, ModView),
                    ModErrorView,
                >((mod_context@.mods, self@)),
            decreases types.len() - i,
        {
            proof {
                let next = names(types@).take(i + 1);
                assert(next.drop_last() == names(types@).take(i as int));
                assert(next.last() == types@[i as int]@);
            }
            match self.add_component(mod_context, types[i]) {
                Ok(_) => {},
                Err(e) => {
                    proof {
                        lemma_components_refused(database, start, names(types@), i + 1);
                    }
                    return Err(e);
                },
            }
            i += 1;
        }
        assert(names(types@).take(types@.len() as int) == names(types@));
        Ok(())
    }
}

/// Makes the row of `child` and appends it to the buffer.
pub fn push_child(mod_context: &mut ModContext, child: Mod) -> (done: Result<(), ModError>)
    ensures
        match finalized(old(mod_context)@.database, child@) {
            Ok(made) => done is Ok && final(mod_context)@ == (ModContextView {
                mods: old(mod_context)@.mods.push(made),
                ..old(mod_context)@
            }),
            Err(e) => done matches Err(x) && x@ == e,
        },
{
    let mut child = child;
    match child.set_fields(mod_context) {
        Ok(()) => {},
        Err(e) => {
            return Err(e);
        },
    }
    proof {
        lemma_views_push(mod_context.mods@, child);
    }
    mod_context.mods.push(child);
    Ok(())
}

/// Makes the row of each of `children` and appends them to the buffer, in
/// order.
pub fn push_children(mod_context: &mut ModContext, children: &Vec<Mod>) -> (done: Result<
    (),
    ModError,
>)
    ensures
        match with_children(old(mod_context)@.database, old(mod_context)@.mods, views(children@)) {
            Ok(buffer) => done is Ok && final(mod_context)@ == (ModContextView {
                mods: buffer,
                ..old(mod_context)@
            }),
            Err(e) => done matches Err(x) && x@ == e,
        },
{
    let ghost database = mod_context@.database;
    let ghost start = mod_context@.mods;
    let ghost all = views(children@);
    let mut i: usize = 0;
    assert(all.take(0) == Seq::<ModView>::empty());
    while i < children.len()
        invariant
            i <= children@.len(),
            database == old(mod_context)@.database,
            start == old(mod_context)@.mods,
            all == views(children@),
            mod_context@ == (ModContextView { mods: mod_context@.mods, ..old(mod_context)@ }),
            with_children(database, start, all.take(i as int)) == Ok::<Seq<ModView>, ModErrorView>(
                mod_context@.mods,
            ),
        decreases children.len() - i,
    {
        proof {
            let next = all.take(i + 1);
            assert(next.drop_last() == all.take(i as int));
            assert(next.last() == children@[i as int]@);
        }
        match push_child(mod_context, children[i].duplicate()) {
            Ok(()) => {},
            Err(e) => {
                proof {
                    lemma_children_refused(database, start, all, i + 1);
                }
                return Err(e);
            },
        }
        i += 1;
    }
    assert(all.take(all.len() as int) == all);
    Ok(())
}

/// The cell that refers to what `value` names.
pub fn reference_to(value: &JsonValue) -> (cell: OutputValue)
    ensures
        cell@ == reference(value@),
{
    match value {
        JsonValue::String(s) => OutputValue::AwaitingId(s.clone()),
        _ => OutputValue::FromJson(value.clone()),
    }
}

/// Appends the mods that link `lu_mod` to its skills.
pub fn link_skills(mod_context: &mut ModContext, lu_mod: &Mod) -> (done: Result<(), ModError>)
    ensures
        match with_children(
            old(mod_context)@.database,
            old(mod_context)@.mods,
            skill_children(lu_mod@),
        ) {
            Ok(buffer) => done is Ok && final(mod_context)@ == (ModContextView {
                mods: buffer,
                ..old(mod_context)@
            }),
            Err(e) => done matches Err(x) && x@ == e,
        },
{
    let ghost database = mod_context@.database;
    let ghost start = mod_context@.mods;
    let ghost children = skill_children(lu_mod@);
    let mut index: usize = 0;
    assert(children.take(0) == Seq::<ModView>::empty());
    while index < lu_mod.skills.len()
        invariant
            index <= lu_mod.skills@.len(),
            database == old(mod_context)@.database,
            start == old(mod_context)@.mods,
            children == skill_children(lu_mod@),
            mod_context@ == (ModContextView { mods: mod_context@.mods, ..old(mod_context)@ }),
            with_children(database, start, children.take(index as int)) == Ok::<
                Seq<ModView>,
                ModErrorView,
            >(mod_context@.mods),
        decreases lu_mod.skills.len() - index,
    {
        let number = decimal_of_index(index);
        let id = joined(joined(lu_mod.id.as_str(), ":skills:").as_str(), number.as_str());
        let mut child = new_child(lu_mod, id, "ObjectSkills");
        let cast = match lu_mod.values.get("castOnType") {
            Some(v) => v.clone(),
            None => JsonValue::Number(JsonNumber::Integer(0)),
        };
        child.set_value("castOnType", cast);
        child.set_value("AICombatWeight", JsonValue::Number(JsonNumber::Integer(0)));
        child.set_awaiting_id("objectTemplate", lu_mod.id.as_str());
        let skill = reference_to(&lu_mod.skills[index]);
        child.output_values.insert(String::from_str("skillID"), skill);
        proof {
            assert(lu_mod@.skills[index as int] == lu_mod.skills@[index as int]@);
            assert(child@ == skill_child(lu_mod@, index as int));
            let next = children.take(index + 1);
            assert(next.drop_last() == children.take(index as int));
            assert(next.last() == skill_child(lu_mod@, index as int));
        }
        match push_child(mod_context, child) {
            Ok(()) => {},
            Err(e) => {
                proof {
                    lemma_children_refused(database, start, children, index + 1);
                }
                return Err(e);
            },
        }
        index += 1;
    }
    assert(children.take(children.len() as int) == children);
    Ok(())
}

/// Expands an object of one of the kinds that are expanded alike.
fn apply_kind(
    mod_context: &mut ModContext,
    lu_mod: &mut Mod,
    defaults: &Vec<(&'static str, JsonValue)>,
    object_type: &str,
    types: Vec<&'static str>,
    skill_component: bool,
    skill_links: bool,
) -> (done: Result<(), ModError>)
    ensures
        match kind_expansion(
            old(mod_context)@.database,
            old(mod_context)@.mods,
            old(lu_mod)@,
            defaults_view(defaults@),
            object_type@,
            names(types@),
            skill_component,
            skill_links,
        ) {
            Ok((buffer, m)) => {
                &&& done is Ok
                &&& final(lu_mod)@ == m
                &&& final(mod_context)@ == (ModContextView { mods: buffer, ..old(mod_context)@ })
            },
            Err(e) => done matches Err(x) && x@ == e,
        },
{
    proof {
        lemma_defaults_keep(lu_mod@, defaults_view(defaults@));
    }
    lu_mod.set_defaults(defaults);
    lu_mod.set_value("type", JsonValue::String(String::from_str(object_type)));
    let mut types = types;
    if skill_component && lu_mod.skills.len() > 0 {
        proof {
            assert(names(types@.push("SkillComponent")) =~= names(types@).push("SkillComponent"@));
        }
        types.push("SkillComponent");
    }
    match lu_mod.add_components(mod_context, &types) {
        Ok(()) => {},
        Err(e) => {
            return Err(e);
        },
    }
    if skill_links {
        match link_skills(mod_context, lu_mod) {
            Ok(()) => {},
            Err(e) => {
                return Err(e);
            },
        }
    }
    apply_object_mod(mod_context, lu_mod)
}

/// Expands an item.
pub fn apply_item_mod(mod_context: &mut ModContext, lu_mod: &mut Mod) -> (done: Result<
    (),
    ModError,
>)
    ensures
        match item_expansion(old(mod_context)@.database, old(mod_context)@.mods, old(lu_mod)@) {
            Ok((buffer, m)) => {
                &&& done is Ok
                &&& final(lu_mod)@ == m
                &&& final(mod_context)@ == (ModContextView { mods: buffer, ..old(mod_context)@ })
            },
            Err(e) => done matches Err(x) && x@ == e,
        },
{
    let defaults = item_default_table();
    let mut types: Vec<&'static str> = Vec::new();
    types.push("ItemComponent");
    types.push("RenderComponent");
    assert(names(types@) =~= seq!["ItemComponent"@, "RenderComponent"@]);
    apply_kind(mod_context, lu_mod, &defaults, "Loot", types, true, true)
}

/// Expands a part of the scenery.
pub fn apply_environmental_mod(mod_context: &mut ModContext, lu_mod: &mut Mod) -> (done: Result<
    (),
    ModError,
>)
    ensures
        match environmental_expansion(
            old(mod_context)@.database,
            old(mod_context)@.mods,
            old(lu_mod)@,
        ) {
            Ok((buffer, m)) => {
                &&& done is Ok
                &&& final(lu_mod)@ == m
                &&& final(mod_context)@ == (ModContextView { mods: buffer, ..old(mod_context)@ })
            },
            Err(e) => done matches Err(x) && x@ == e,
        },
{
    let defaults = environmental_default_table();
    let mut types: Vec<&'static str> = Vec::new();
    types.push("RenderComponent");
    types.push("SimplePhysicsComponent");
    assert(names(types@) =~= seq!["RenderComponent"@, "SimplePhysicsComponent"@]);
    apply_kind(mod_context, lu_mod, &defaults, "Environmental", types, false, false)
}

/// Expands an enemy.
pub fn apply_enemy_mod(mod_context: &mut ModContext, lu_mod: &mut Mod) -> (done: Result<
    (),
    ModError,
>)
    ensures
        match enemy_expansion(old(mod_context)@.database, old(mod_context)@.mods, old(lu_mod)@) {
            Ok((buffer, m)) => {
                &&& done is Ok
                &&& final(lu_mod)@ == m
                &&& final(mod_context)@ == (ModContextView { mods: buffer, ..old(mod_context)@ })
            },
            Err(e) => done matches Err(x) && x@ == e,
        },
{
    let defaults: Vec<(&'static str, JsonValue)> = Vec::new();
    assert(defaults_view(defaults@) =~= Seq::<(Seq<char>, JsonView)>::empty());
    let mut types: Vec<&'static str> = Vec::new();
    types.push("ControllablePhysicsComponent");
    types.push("RenderComponent");
    types.push("DestructibleComponent");
    types.push("SkillComponent");
    types.push("MovementAIComponent");
    types.push("BaseCombatAIComponent");
    assert(names(types@) =~= seq![
        "ControllablePhysicsComponent"@,
        "RenderComponent"@,
        "DestructibleComponent"@,
        "SkillComponent"@,
        "MovementAIComponent"@,
        "BaseCombatAIComponent"@,
    ]);
    apply_kind(mod_context, lu_mod, &defaults, "Enemies", types, false, true)
}

} // verus!
