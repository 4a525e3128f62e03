//! The expansion of a mission: its row, its texts, its icons and its tasks.

use vstd::prelude::*;
use crate::defaults::{mission_default_table, mission_defaults};
use crate::dict::{lookup, text_view, Duplicate};
use crate::error::{ModError, ModErrorView};
use crate::expand::{
    child_of,
    finalized,
    icon_child,
    new_child,
    new_heir,
    new_icon,
    push_children,
    whole,
    with_children,
    with_defaults,
};
use crate::lu_mod::{with_locale, with_locale_from_value, with_output, Mod, ModView};
use crate::mission::{parse_mission_task_type, task_type_code, MissionTask, MissionTaskView};
use crate::mod_context::{ModContext, ModContextView};
use crate::schema::TableView;
use crate::text::{decimal, decimal_of_index, join_with, joined, joined_with};
use crate::value::{
    lemma_views_push,
    views,
    JsonNumber,
    JsonValue,
    JsonView,
    OutputView,
};

verus! {

/// The phrases of a mission's texts: the identifier of each phrase with the
/// name of the value that holds its translations.
pub open spec fn mission_phrases() -> Seq<(Seq<char>, Seq<char>)> {
    seq![
        ("MissionText_{}_accept_chat_bubble"@, "accept_chat_bubble"@),
        ("MissionText_{}_accept_chat_bubble"@, "chat_accept"@),
        ("MissionText_{}_chat_state_1"@, "chat_state_1"@),
        ("MissionText_{}_chat_state_2"@, "chat_state_2"@),
        ("MissionText_{}_chat_state_3"@, "chat_state_3"@),
        ("MissionText_{}_chat_state_4"@, "chat_state_4"@),
        ("MissionText_{}_chat_state_1"@, "chat_available"@),
        ("MissionText_{}_chat_state_2"@, "chat_active"@),
        ("MissionText_{}_chat_state_3"@, "chat_ready_to_complete"@),
        ("MissionText_{}_chat_state_4"@, "chat_complete"@),
        ("MissionText_{}_completion_succeed_tip"@, "completion_succeed_tip"@),
        ("MissionText_{}_in_progress"@, "in_progress"@),
        ("MissionText_{}_offer"@, "offer"@),
        ("MissionText_{}_ready_to_complete"@, "ready_to_complete"@),
    ]
}

/// A table of phrases by the characters of its entries.
pub open spec fn phrases_view(table: Seq<(&'static str, &'static str)>) -> Seq<
    (Seq<char>, Seq<char>),
> {
    Seq::new(table.len(), |i: int| (table[i].0@, table[i].1@))
}

fn mission_phrase_table() -> (table: Vec<(&'static str, &'static str)>)
    ensures
        phrases_view(table@) == mission_phrases(),
{
    let mut table: Vec<(&'static str, &'static str)> = Vec::new();
    table.push(("MissionText_{}_accept_chat_bubble", "accept_chat_bubble"));
    table.push(("MissionText_{}_accept_chat_bubble", "chat_accept"));
    table.push(("MissionText_{}_chat_state_1", "chat_state_1"));
    table.push(("MissionText_{}_chat_state_2", "chat_state_2"));
    table.push(("MissionText_{}_chat_state_3", "chat_state_3"));
    table.push(("MissionText_{}_chat_state_4", "chat_state_4"));
    table.push(("MissionText_{}_chat_state_1", "chat_available"));
    table.push(("MissionText_{}_chat_state_2", "chat_active"));
    table.push(("MissionText_{}_chat_state_3", "chat_ready_to_complete"));
    table.push(("MissionText_{}_chat_state_4", "chat_complete"));
    table.push(("MissionText_{}_completion_succeed_tip", "completion_succeed_tip"));
    table.push(("MissionText_{}_in_progress", "in_progress"));
    table.push(("MissionText_{}_offer", "offer"));
    table.push(("MissionText_{}_ready_to_complete", "ready_to_complete"));
    assert(phrases_view(table@) =~= mission_phrases());
    table
}

/// The mod after a phrase is noted for each entry of `phrases`, in order.
pub open spec fn with_value_locales(m: ModView, phrases: Seq<(Seq<char>, Seq<char>)>) -> ModView
    decreases phrases.len(),
{
    if phrases.len() == 0 {
        m
    } else {
        with_locale_from_value(
            with_value_locales(m, phrases.drop_last()),
            phrases.last().0,
            phrases.last().1,
        )
    }
}

/// The text that stands under `key`, if a text does.
pub open spec fn text_under(values: Seq<(Seq<char>, JsonView)>, key: Seq<char>) -> Option<
    Seq<char>,
> {
    match lookup(values, key) {
        Some(JsonView::String(s)) => Some(s),
        _ => None,
    }
}

/// The path of an icon, if one is given.
pub open spec fn given_path(path: Seq<char>) -> Option<Seq<char>> {
    if path.len() == 0 {
        None
    } else {
        Some(path)
    }
}

/// The code of the kind of each task, or the refusal of the first kind that
/// is not known.
pub open spec fn task_codes(tasks: Seq<MissionTaskView>) -> Result<Seq<i32>, ModErrorView>
    decreases tasks.len(),
{
    if tasks.len() == 0 {
        Ok(Seq::empty())
    } else {
        match task_codes(tasks.drop_last()) {
            Err(e) => Err(e),
            Ok(codes) => match task_type_code(tasks.last().task_type) {
                None => Err(ModErrorView::UnknownMissionTaskType(tasks.last().task_type)),
                Some(code) => Ok(codes.push(code)),
            },
        }
    }
}

/// A refusal among the first tasks is the refusal of them all.
pub proof fn lemma_codes_refused(tasks: Seq<MissionTaskView>, n: int)
    requires
        0 <= n <= tasks.len(),
        task_codes(tasks.take(n)) is Err,
    ensures
        task_codes(tasks) == task_codes(tasks.take(n)),
    decreases tasks.len(),
{
    if n == tasks.len() {
        assert(tasks.take(n) == tasks);
    } else {
        assert(tasks.drop_last().take(n) == tasks.take(n));
        lemma_codes_refused(tasks.drop_last(), n);
    }
}

/// `target` with the column `column` pointing at the icon `suffix` of the
/// mod `owner`, where a path is given for that icon.
pub open spec fn pointed(
    target: ModView,
    column: Seq<char>,
    owner: Seq<char>,
    path: Option<Seq<char>>,
    suffix: Seq<char>,
) -> ModView {
    match path {
        Some(_) => with_output(target, column, OutputView::AwaitingId(owner + ":"@ + suffix)),
        None => target,
    }
}

/// The mod of the icon `suffix` of `owner`, where a path is given for it.
pub open spec fn icon_rows(owner: ModView, path: Option<Seq<char>>, suffix: Seq<char>) -> Seq<
    ModView,
> {
    match path {
        Some(p) => seq![icon_child(owner, p, suffix)],
        None => Seq::empty(),
    }
}

/// The mission with its defaults, asking for a new identifier, and pointing
/// at its icon where it has one.
pub open spec fn mission_start(m: ModView) -> ModView {
    pointed(
        with_output(with_defaults(m, mission_defaults()), "id"@, OutputView::GenerateId),
        "missionIconID"@,
        m.id,
        text_under(m.values, "icon"@),
        "icon"@,
    )
}

/// The mod that holds the texts of the mission `m`, before its row is made.
pub open spec fn text_child(m: ModView) -> ModView {
    pointed(
        with_output(
            with_output(
                with_output(
                    child_of(m, m.id + ":MissionText"@, "MissionText"@, Seq::empty()),
                    "localize"@,
                    OutputView::FromJson(JsonView::Bool(true)),
                ),
                "locStatus"@,
                OutputView::FromJson(whole(2)),
            ),
            "id"@,
            OutputView::AwaitingId(m.id),
        ),
        "turnInIconID"@,
        m.id,
        text_under(m.values, "icon-turn-in"@),
        "icon-turn-in"@,
    )
}

/// The group of targets of a task: the location where one is given, else
/// the items of the group with commas between them.
pub open spec fn target_group(task: MissionTaskView) -> Seq<char> {
    match task.target_group_string {
        Some(location) => location,
        None => joined_with(task.group, ","@),
    }
}

/// The symbol of the mod of the task at `index` of the mission `m`.
pub open spec fn task_id(m: ModView, index: int) -> Seq<char> {
    m.id + ":tasks:"@ + decimal(index)
}

/// The mod of the task at `index` of the mission `m`, whose kind has the
/// code `code`, before its row is made.
pub open spec fn task_child(m: ModView, index: int, code: i32) -> ModView {
    let task = m.tasks[index];
    let start = ModView {
        locale: task.locale,
        ..child_of(m, task_id(m, index), "MissionTasks"@, m.output_values)
    };
    let kind = with_output(start, "taskType"@, OutputView::FromJson(whole(code as int)));
    let target = with_output(kind, "target"@, OutputView::FromJson(task.target));
    let count = with_output(target, "targetValue"@, OutputView::FromJson(whole(task.count as int)));
    let localize = with_output(count, "localize"@, OutputView::FromJson(JsonView::Bool(true)));
    let id = with_output(localize, "id"@, OutputView::AwaitingId(m.id));
    let uid = with_output(id, "uid"@, OutputView::GenerateId);
    let group = with_output(
        uid,
        "targetGroup"@,
        OutputView::FromJson(JsonView::String(target_group(task))),
    );
    let large = pointed(
        group,
        "largeTaskIconID"@,
        task_id(m, index),
        given_path(task.icon),
        "icon"@,
    );
    let small = pointed(
        large,
        "IconID"@,
        task_id(m, index),
        given_path(task.small_icon),
        "small-icon"@,
    );
    with_locale(small, "MissionTasks_{}_description"@)
}

/// The mods that the task at `index` adds: its icons, where it has any, and
/// the task itself.
pub open spec fn task_rows(m: ModView, index: int, code: i32) -> Seq<ModView> {
    let task = task_child(m, index, code);
    icon_rows(task, given_path(m.tasks[index].icon), "icon"@) + icon_rows(
        task,
        given_path(m.tasks[index].small_icon),
        "small-icon"@,
    ) + seq![task]
}

/// The mods that the first `n` tasks add.
pub open spec fn all_task_rows(m: ModView, codes: Seq<i32>, n: int) -> Seq<ModView>
    decreases n,
{
    if n <= 0 {
        Seq::empty()
    } else {
        all_task_rows(m, codes, n - 1) + task_rows(m, n - 1, codes[n - 1])
    }
}

/// The mods that go with the mission `m`: its icons, the mod of its texts,
/// and what its tasks add.
pub open spec fn mission_children(m: ModView, codes: Seq<i32>) -> Seq<ModView> {
    icon_rows(m, text_under(m.values, "icon"@), "icon"@) + icon_rows(
        m,
        text_under(m.values, "icon-turn-in"@),
        "icon-turn-in"@,
    ) + seq![text_child(m)] + all_task_rows(m, codes, m.tasks.len() as int)
}

/// A mission: the kinds of its tasks are looked up, its defaults are
/// applied and its row is made, the mods that go with it are appended, and
/// its phrases are noted.
pub open spec fn mission_expansion(
    database: Seq<TableView>,
    buffer: Seq<ModView>,
    m: ModView,
) -> Result<(Seq<ModView>, ModView), ModErrorView> {
    match task_codes(m.tasks) {
        Err(e) => Err(e),
        Ok(codes) => match finalized(database, mission_start(m)) {
            Err(e) => Err(e),
            Ok(made) => match with_children(
                database,
                buffer,
                mission_children(mission_start(m), codes),
            ) {
                Err(e) => Err(e),
                Ok(appended) => Ok(
                    (
                        appended,
                        with_value_locales(
                            with_locale(made, "Missions_{}_name"@),
                            mission_phrases(),
                        ),
                    ),
                ),
            },
        },
    }
}

/// The text that the author gave under `key`, if a text stands there.
fn text_of(lu_mod: &Mod, key: &str) -> (text: Option<String>)
    ensures
        text_view(text) == text_under(lu_mod@.values, key@),
{
    match lu_mod.values.get(key) {
        Some(JsonValue::String(s)) => Some(s.clone()),
        _ => None,
    }
}

/// The path of an icon, if one is given.
fn path_of(path: &String) -> (given: Option<String>)
    ensures
        text_view(given) == given_path(path@),
{
    if path.as_str().unicode_len() == 0 {
        None
    } else {
        Some(path.clone())
    }
}

/// Points the column `column` of `target` at the icon `suffix` of the mod
/// `owner`, where a path is given for that icon.
fn point(target: &mut Mod, column: &str, owner: &str, path: &Option<String>, suffix: &str)
    ensures
        final(target)@ == pointed(old(target)@, column@, owner@, text_view(*path), suffix@),
{
    if path.is_some() {
        let icon = joined(joined(owner, ":").as_str(), suffix);
        target.set_awaiting_id(column, icon.as_str());
    }
}

/// Appends the mod of the icon `suffix` of `owner`, where a path is given.
fn push_icon(children: &mut Vec<Mod>, owner: &Mod, path: &Option<String>, suffix: &str)
    ensures
        views(final(children)@) == views(old(children)@) + icon_rows(
            owner@,
            text_view(*path),
            suffix@,
        ),
{
    match path {
        Some(p) => {
            let icon = new_icon(owner, p.as_str(), suffix);
            proof {
                lemma_views_push(children@, icon);
                assert(views(children@).push(icon@) == views(children@) + seq![icon@]);
            }
            children.push(icon);
        },
        None => {
            assert(views(children@) + Seq::<ModView>::empty() == views(children@));
        },
    }
}

/// The codes of the kinds of the tasks.
fn parse_task_types(tasks: &Vec<MissionTask>) -> (codes: Result<Vec<i32>, ModError>)
    ensures
        match task_codes(views(tasks@)) {
            Ok(c) => codes matches Ok(v) && v@ == c,
            Err(e) => codes matches Err(x) && x@ == e,
        },
{
    let ghost all = views(tasks@);
    let mut codes: Vec<i32> = Vec::new();
    let mut i: usize = 0;
    assert(all.take(0) == Seq::<MissionTaskView>::empty());
    while i < tasks.len()
        invariant
            i <= tasks@.len(),
            all == views(tasks@),
            task_codes(all.take(i as int)) == Ok::<Seq<i32>, ModErrorView>(codes@),
        decreases tasks.len() - i,
    {
        proof {
            let next = all.take(i + 1);
            assert(next.drop_last() == all.take(i as int));
            assert(next.last() == tasks@[i as int]@);
        }
        match parse_mission_task_type(tasks[i].task_type.as_str()) {
            Ok(code) => {
                codes.push(code);
            },
            Err(e) => {
                proof {
                    lemma_codes_refused(all, i + 1);
                }
                return Err(e);
            },
        }
        i += 1;
    }
    assert(all.take(all.len() as int) == all);
    Ok(codes)
}

/// The mod of the task at `index` of the mission `lu_mod`.
fn new_task(lu_mod: &Mod, index: usize, code: i32) -> (out: Mod)
    requires
        index < lu_mod@.tasks.len(),
    ensures
        out@ == task_child(lu_mod@, index as int, code),
{
    let task = &lu_mod.tasks[index];
    assert(lu_mod@.tasks[index as int] == task@);
    let id = joined(
        joined(lu_mod.id.as_str(), ":tasks:").as_str(),
        decimal_of_index(index).as_str(),
    );
    let mut out = new_heir(lu_mod, id.clone(), "MissionTasks");
    out.locale = task.locale.duplicate();
    out.set_value("taskType", JsonValue::Number(JsonNumber::Integer(code as i64)));
    out.set_value("target", task.target.clone());
    out.set_value("targetValue", JsonValue::Number(JsonNumber::Integer(task.count as i64)));
    out.set_value("localize", JsonValue::Bool(true));
    out.set_awaiting_id("id", lu_mod.id.as_str());
    out.set_to_be_generated("uid");
    let group = match &task.target_group_string {
        Some(location) => location.clone(),
        None => {
            assert(Seq::new(task.group@.len(), |i: int| task.group@[i]@) =~= views(task.group@));
            join_with(&task.group, ",")
        },
    };
    out.set_value("targetGroup", JsonValue::String(group));
    let icon = path_of(&task.icon);
    let small = path_of(&task.small_icon);
    point(&mut out, "largeTaskIconID", id.as_str(), &icon, "icon");
    point(&mut out, "IconID", id.as_str(), &small, "small-icon");
    out.add_locale("MissionTasks_{}_description");
    out
}

/// The mods that go with the mission `lu_mod`.
fn make_mission_children(lu_mod: &Mod, codes: &Vec<i32>) -> (children: Vec<Mod>)
    requires
        codes@.len() == lu_mod@.tasks.len(),
    ensures
        views(children@) == mission_children(lu_mod@, codes@),
{
    let mut children: Vec<Mod> = Vec::new();
    assert(views(children@) =~= Seq::<ModView>::empty());
    let icon = text_of(lu_mod, "icon");
    let turn_in = text_of(lu_mod, "icon-turn-in");
    push_icon(&mut children, lu_mod, &icon, "icon");
    push_icon(&mut children, lu_mod, &turn_in, "icon-turn-in");
    let mut texts = new_child(lu_mod, joined(lu_mod.id.as_str(), ":MissionText"), "MissionText");
    texts.set_value("localize", JsonValue::Bool(true));
    texts.set_value("locStatus", JsonValue::Number(JsonNumber::Integer(2)));
    texts.set_awaiting_id("id", lu_mod.id.as_str());
    point(&mut texts, "turnInIconID", lu_mod.id.as_str(), &turn_in, "icon-turn-in");
    proof {
        lemma_views_push(children@, texts);
        assert(views(children@).push(texts@) == views(children@) + seq![texts@]);
    }
    children.push(texts);
    let ghost head = views(children@);
    assert(head == icon_rows(lu_mod@, text_under(lu_mod@.values, "icon"@), "icon"@) + icon_rows(
        lu_mod@,
        text_under(lu_mod@.values, "icon-turn-in"@),
        "icon-turn-in"@,
    ) + seq![text_child(lu_mod@)]) by {
        assert(Seq::<ModView>::empty() + icon_rows(
            lu_mod@,
            text_under(lu_mod@.values, "icon"@),
            "icon"@,
        ) == icon_rows(lu_mod@, text_under(lu_mod@.values, "icon"@), "icon"@));
    }
    let mut index: usize = 0;
    assert(head + all_task_rows(lu_mod@, codes@, 0) == head);
    while index < lu_mod.tasks.len()
        invariant
            index <= lu_mod.tasks@.len(),
            codes@.len() == lu_mod@.tasks.len(),
            views(children@) == head + all_task_rows(lu_mod@, codes@, index as int),
        decreases lu_mod.tasks.len() - index,
    {
        let ghost before = views(children@);
        let task = new_task(lu_mod, index, codes[index]);
        let icon = path_of(&lu_mod.tasks[index].icon);
        let small = path_of(&lu_mod.tasks[index].small_icon);
        assert(lu_mod@.tasks[index as int] == lu_mod.tasks@[index as int]@);
        push_icon(&mut children, &task, &icon, "icon");
        push_icon(&mut children, &task, &small, "small-icon");
        proof {
            lemma_views_push(children@, task);
            assert(views(children@).push(task@) == before + task_rows(
                lu_mod@,
                index as int,
                codes@[index as int],
            ));
            assert(before + task_rows(lu_mod@, index as int, codes@[index as int]) == head
                + all_task_rows(lu_mod@, codes@, index + 1));
        }
        children.push(task);
        index += 1;
    }
    children
}

impl Mod {
    /// Notes a phrase for each entry of `phrases`, in order.
    pub fn add_value_locales(&mut self, phrases: &Vec<(&'static str, &'static str)>)
        ensures
            final(self)@ == with_value_locales(old(self)@, phrases_view(phrases@)),
    {
        let mut i: usize = 0;
        assert(phrases_view(phrases@).take(0) == Seq::<(Seq<char>, Seq<char>)>::empty());
        while i < phrases.len()
            invariant
                i <= phrases@.len(),
                self@ == with_value_locales(old(self)@, phrases_view(phrases@).take(i as int)),
            decreases phrases.len() - i,
        {
            proof {
                let next = phrases_view(phrases@).take(i + 1);
                assert(next.drop_last() == phrases_view(phrases@).take(i as int));
                assert(next.last() == (phrases@[i as int].0@, phrases@[i as int].1@));
            }
            self.add_locale_from_value(phrases[i].0, phrases[i].1);
            i += 1;
        }
        assert(phrases_view(phrases@).take(phrases@.len() as int) == phrases_view(phrases@));
    }
}

/// Expands a mission.
pub fn apply_mission_mod(mod_context: &mut ModContext, lu_mod: &mut Mod) -> (done: Result<
    (),
    ModError,
>)
    ensures
        match mission_expansion(old(mod_context)@.database, old(mod_context)@.mods, old(lu_mod)@) {
            Ok((buffer, m)) => {
                &&& done is Ok
                &&& final(lu_mod)@ == m
                &&& final(mod_context)@ == (ModContextView { mods: buffer, ..old(mod_context)@ })
            },
            Err(e) => done matches Err(x) && x@ == e,
        },
{
    let codes = match parse_task_types(&lu_mod.tasks) {
        Ok(codes) => codes,
        Err(e) => {
            return Err(e);
        },
    };
    proof {
        crate::expand::lemma_defaults_keep(lu_mod@, mission_defaults());
        lemma_codes_len(lu_mod@.tasks);
    }
    let icon = text_of(lu_mod, "icon");
    let owner = lu_mod.id.clone();
    let defaults = mission_default_table();
    lu_mod.set_defaults(&defaults);
    lu_mod.set_to_be_generated("id");
    point(lu_mod, "missionIconID", owner.as_str(), &icon, "icon");
    assert(lu_mod@ == mission_start(old(lu_mod)@));
    let children = make_mission_children(lu_mod, &codes);
    match lu_mod.set_fields(mod_context) {
        Ok(()) => {},
        Err(e) => {
            return Err(e);
        },
    }
    match push_children(mod_context, &children) {
        Ok(()) => {},
        Err(e) => {
            return Err(e);
        },
    }
    lu_mod.add_locale("Missions_{}_name");
    let phrases = mission_phrase_table();
    lu_mod.add_value_locales(&phrases);
    Ok(())
}

/// There is one code for each task.
pub proof fn lemma_codes_len(tasks: Seq<MissionTaskView>)
    requires
        task_codes(tasks) is Ok,
    ensures
        task_codes(tasks)->Ok_0.len() == tasks.len(),
    decreases tasks.len(),
{
    if tasks.len() > 0 {
        lemma_codes_len(tasks.drop_last());
    }
}

} // verus!
