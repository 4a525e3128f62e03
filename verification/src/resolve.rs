//! Identifiers: each mod that asks for one is bound to a free primary key of
//! its table. The tables are served in a fixed order, and within a table
//! the mods take the lowest free keys in the order of the buffer.

use vstd::prelude::*;
use crate::allocate::{all_integer, find_available_ids, lemma_lowest_free_unique, lowest_free};
use crate::component::target_table;
use crate::dict::{distinct_keys, lemma_lookup_stored, lemma_stored_distinct, lookup, stored};
use crate::references::unique_ids;
use crate::error::{ModError, ModErrorView};
use crate::lu_mod::{Mod, ModView};
use crate::mod_context::{ModContext, ModContextView};
use crate::schema::{get_table, table_named, TableView};
use crate::text::same_text;
use crate::value::{lemma_views_push, views, FieldView, OutputValue, OutputView};

verus! {

/// The mod asks for a new primary key: the first cell of its row says so.
pub open spec fn needs_id(m: ModView) -> bool {
    m.fields.len() > 0 && m.fields[0] == OutputView::GenerateId
}

/// The mod asks for a new primary key of `table`.
pub open spec fn is_member(m: ModView, table: Seq<char>) -> bool {
    needs_id(m) && target_table(m.mod_type) == table
}

/// The symbols of those among the first `n` mods that ask for a key of
/// `table`, in the order of the buffer.
pub open spec fn member_ids(mods: Seq<ModView>, table: Seq<char>, n: int) -> Seq<Seq<char>>
    decreases n,
{
    if n <= 0 {
        Seq::empty()
    } else if is_member(mods[n - 1], table) {
        member_ids(mods, table, n - 1).push(mods[n - 1].id)
    } else {
        member_ids(mods, table, n - 1)
    }
}

/// The tables other than `Objects` of which one of the first `n` mods asks
/// for a key, each once, in the order in which they are first met.
pub open spec fn tables_seen(mods: Seq<ModView>, n: int) -> Seq<Seq<char>>
    decreases n,
{
    if n <= 0 {
        Seq::empty()
    } else {
        let before = tables_seen(mods, n - 1);
        let table = target_table(mods[n - 1].mod_type);
        if needs_id(mods[n - 1]) && table != "Objects"@ && !before.contains(table) {
            before.push(table)
        } else {
            before
        }
    }
}

/// The tables of which keys are asked for, in the order in which they are
/// served: `Objects` first, then the others as they are first met.
pub open spec fn table_order(mods: Seq<ModView>) -> Seq<Seq<char>> {
    if member_ids(mods, "Objects"@, mods.len() as int).len() > 0 {
        seq!["Objects"@] + tables_seen(mods, mods.len() as int)
    } else {
        tables_seen(mods, mods.len() as int)
    }
}

/// The `count` lowest free keys among `keys`.
pub open spec fn free_ids(keys: Seq<FieldView>, count: nat) -> Seq<i32> {
    choose|ids: Seq<i32>| ids.len() == count && lowest_free(ids, keys)
}

/// The symbols after the first `n` of `names` are bound, each to the number
/// at its place in `ids`.
pub open spec fn bound(
    symbols: Seq<(Seq<char>, i32)>,
    names: Seq<Seq<char>>,
    ids: Seq<i32>,
    n: int,
) -> Seq<(Seq<char>, i32)>
    decreases n,
{
    if n <= 0 {
        symbols
    } else {
        stored(bound(symbols, names, ids, n - 1), names[n - 1], ids[n - 1])
    }
}

/// The symbols after the mods that ask for a key of `table` are bound to
/// its lowest free keys, in the order of the buffer. A table that the
/// database does not hold is refused, and so is one with a key that is no
/// integer.
pub open spec fn group_bound(
    database: Seq<TableView>,
    mods: Seq<ModView>,
    symbols: Seq<(Seq<char>, i32)>,
    table: Seq<char>,
) -> Result<Seq<(Seq<char>, i32)>, ModErrorView> {
    match table_named(database, table) {
        None => Err(ModErrorView::TableNotFound(table)),
        Some(t) => if !all_integer(t.primary_keys) {
            Err(ModErrorView::NonIntegerPrimaryKey(t.name))
        } else {
            let names = member_ids(mods, table, mods.len() as int);
            Ok(bound(symbols, names, free_ids(t.primary_keys, names.len()), names.len() as int))
        },
    }
}

/// The symbols after each of `tables` is served, in order.
pub open spec fn groups_bound(
    database: Seq<TableView>,
    mods: Seq<ModView>,
    symbols: Seq<(Seq<char>, i32)>,
    tables: Seq<Seq<char>>,
) -> Result<Seq<(Seq<char>, i32)>, ModErrorView>
    decreases tables.len(),
{
    if tables.len() == 0 {
        Ok(symbols)
    } else {
        match groups_bound(database, mods, symbols, tables.drop_last()) {
            Err(e) => Err(e),
            Ok(before) => group_bound(database, mods, before, tables.last()),
        }
    }
}

/// A refusal among the first tables is the refusal of them all.
pub proof fn lemma_groups_refused(
    database: Seq<TableView>,
    mods: Seq<ModView>,
    symbols: Seq<(Seq<char>, i32)>,
    tables: Seq<Seq<char>>,
    n: int,
)
    requires
        0 <= n <= tables.len(),
        groups_bound(database, mods, symbols, tables.take(n)) is Err,
    ensures
        groups_bound(database, mods, symbols, tables) == groups_bound(
            database,
            mods,
            symbols,
            tables.take(n),
        ),
    decreases tables.len(),
{
    if n == tables.len() {
        assert(tables.take(n) == tables);
    } else {
        assert(tables.drop_last().take(n) == tables.take(n));
        lemma_groups_refused(database, mods, symbols, tables.drop_last(), n);
    }
}

/// The symbols after every mod that asks for a key is bound.
pub open spec fn allocated(
    database: Seq<TableView>,
    mods: Seq<ModView>,
    symbols: Seq<(Seq<char>, i32)>,
) -> Result<Seq<(Seq<char>, i32)>, ModErrorView> {
    groups_bound(database, mods, symbols, table_order(mods))
}

/// No more mods ask for a key than there are mods.
pub proof fn lemma_members_bounded(mods: Seq<ModView>, table: Seq<char>, n: int)
    requires
        0 <= n <= mods.len(),
    ensures
        member_ids(mods, table, n).len() <= n,
    decreases n,
{
    if n > 0 {
        lemma_members_bounded(mods, table, n - 1);
    }
}

/// The mod at `at` is bound to a fresh key of its table: its table is in
/// the database, the keys given out for the table are its lowest free keys,
/// and the mod has the one among them that stands at its place among the
/// mods that ask for a key of the table.
pub open spec fn has_fresh_key(
    database: Seq<TableView>,
    mods: Seq<ModView>,
    symbols: Seq<(Seq<char>, i32)>,
    at: int,
) -> bool {
    let table = target_table(mods[at].mod_type);
    let names = member_ids(mods, table, mods.len() as int);
    &&& table_named(database, table) matches Some(stock)
    &&& lowest_free(free_ids(stock.primary_keys, names.len()), stock.primary_keys)
    &&& free_ids(stock.primary_keys, names.len()).len() == names.len()
    &&& exists|k: int|
        0 <= k < names.len() && #[trigger] names[k] == mods[at].id && lookup(symbols, mods[at].id)
            == Some(free_ids(stock.primary_keys, names.len())[k])
}

/// A mod that is bound to a fresh key has a positive number that is the key
/// of no row of its table.
pub proof fn lemma_fresh_key_is_free(
    database: Seq<TableView>,
    mods: Seq<ModView>,
    symbols: Seq<(Seq<char>, i32)>,
    at: int,
)
    requires
        has_fresh_key(database, mods, symbols, at),
    ensures
        lookup(symbols, mods[at].id) matches Some(id) && id >= 1 && !crate::allocate::is_used(
            table_named(database, target_table(mods[at].mod_type))->0.primary_keys,
            id as int,
        ),
{
    let table = target_table(mods[at].mod_type);
    let names = member_ids(mods, table, mods.len() as int);
    let stock = table_named(database, table)->0;
    let ids = free_ids(stock.primary_keys, names.len());
    let k = choose|k: int|
        0 <= k < names.len() && #[trigger] names[k] == mods[at].id && lookup(symbols, mods[at].id)
            == Some(ids[k]);
    assert(ids[k] >= 1 && !crate::allocate::is_used(stock.primary_keys, ids[k] as int));
}

/// Two mods of one table that are bound to fresh keys have different
/// numbers.
pub proof fn lemma_fresh_keys_differ(
    database: Seq<TableView>,
    mods: Seq<ModView>,
    symbols: Seq<(Seq<char>, i32)>,
    a: int,
    b: int,
)
    requires
        has_fresh_key(database, mods, symbols, a),
        has_fresh_key(database, mods, symbols, b),
        target_table(mods[a].mod_type) == target_table(mods[b].mod_type),
        mods[a].id != mods[b].id,
    ensures
        lookup(symbols, mods[a].id) != lookup(symbols, mods[b].id),
{
    let table = target_table(mods[a].mod_type);
    let names = member_ids(mods, table, mods.len() as int);
    let stock = table_named(database, table)->0;
    let ids = free_ids(stock.primary_keys, names.len());
    let j = choose|k: int|
        0 <= k < names.len() && #[trigger] names[k] == mods[a].id && lookup(symbols, mods[a].id)
            == Some(ids[k]);
    let k = choose|k: int|
        0 <= k < names.len() && #[trigger] names[k] == mods[b].id && lookup(symbols, mods[b].id)
            == Some(ids[k]);
    crate::allocate::lemma_no_collision(ids, stock.primary_keys);
    assert(j != k);
    assert(ids[j] != ids[k]);
}

/// The first mod that asks for a key of a table is given the least positive
/// integer that is the key of no row of the table.
pub proof fn lemma_first_key_is_least(
    database: Seq<TableView>,
    mods: Seq<ModView>,
    symbols: Seq<(Seq<char>, i32)>,
    at: int,
)
    requires
        unique_ids(mods),
        0 <= at < mods.len(),
        has_fresh_key(database, mods, symbols, at),
        forall|j: int| 0 <= j < at ==> !is_member(#[trigger] mods[j], target_table(mods[at].mod_type)),
    ensures
        lookup(symbols, mods[at].id) matches Some(id) && forall|v: int|
            1 <= v < id ==> crate::allocate::is_used(
                table_named(database, target_table(mods[at].mod_type))->0.primary_keys,
                v,
            ),
{
    let table = target_table(mods[at].mod_type);
    let names = member_ids(mods, table, mods.len() as int);
    let stock = table_named(database, table)->0;
    let ids = free_ids(stock.primary_keys, names.len());
    let k = choose|k: int|
        0 <= k < names.len() && #[trigger] names[k] == mods[at].id && lookup(symbols, mods[at].id)
            == Some(ids[k]);
    lemma_member_source(mods, table, mods.len() as int, k);
    let j = choose|j: int|
        0 <= j < mods.len() && is_member(#[trigger] mods[j], table) && mods[j].id == names[k]
            && member_ids(mods, table, j).len() == k;
    if j < at {
        assert(mods[j].id != mods[at].id);
    } else if at < j {
        assert(mods[at].id != mods[j].id);
    }
    lemma_no_members(mods, table, at);
    assert(k == 0);
    crate::allocate::lemma_first_is_least(ids, stock.primary_keys);
}

/// Each symbol among the members is that of a mod that asks for a key of
/// the table, and stands where the members before that mod end.
pub proof fn lemma_member_source(mods: Seq<ModView>, table: Seq<char>, n: int, k: int)
    requires
        0 <= n <= mods.len(),
        0 <= k < member_ids(mods, table, n).len(),
    ensures
        exists|j: int|
            0 <= j < n && is_member(#[trigger] mods[j], table) && mods[j].id == member_ids(
                mods,
                table,
                n,
            )[k] && member_ids(mods, table, j).len() == k,
    decreases n,
{
    if n > 0 {
        let before = member_ids(mods, table, n - 1);
        if k < before.len() {
            lemma_member_source(mods, table, n - 1, k);
            let j = choose|j: int|
                0 <= j < n - 1 && is_member(#[trigger] mods[j], table) && mods[j].id == before[k]
                    && member_ids(mods, table, j).len() == k;
            assert(is_member(mods[j], table));
        } else {
            assert(is_member(mods[n - 1], table));
        }
    }
}

/// Where none of the first mods asks for a key of the table, there are no
/// members among them.
pub proof fn lemma_no_members(mods: Seq<ModView>, table: Seq<char>, n: int)
    requires
        forall|j: int| 0 <= j < n ==> !is_member(#[trigger] mods[j], table),
    ensures
        member_ids(mods, table, n).len() == 0,
    decreases n,
{
    if n > 0 {
        lemma_no_members(mods, table, n - 1);
        assert(!is_member(mods[n - 1], table));
    }
}

/// The members among fewer mods are no more than among more.
pub proof fn lemma_member_prefix(mods: Seq<ModView>, table: Seq<char>, a: int, b: int)
    requires
        0 <= a <= b,
    ensures
        member_ids(mods, table, a).len() <= member_ids(mods, table, b).len(),
    decreases b - a,
{
    if a < b {
        lemma_member_prefix(mods, table, a, b - 1);
    }
}

/// A mod that asks for a key of the table has its symbol among the members.
pub proof fn lemma_member_listed(mods: Seq<ModView>, table: Seq<char>, n: int, j: int)
    requires
        0 <= j < n <= mods.len(),
        is_member(mods[j], table),
    ensures
        member_ids(mods, table, j).len() < member_ids(mods, table, n).len(),
        member_ids(mods, table, n)[member_ids(mods, table, j).len() as int] == mods[j].id,
    decreases n,
{
    if j < n - 1 {
        lemma_member_listed(mods, table, n - 1, j);
    }
}

/// With distinct symbols, no symbol stands twice among the members.
pub proof fn lemma_members_distinct(mods: Seq<ModView>, table: Seq<char>, n: int)
    requires
        0 <= n <= mods.len(),
        unique_ids(mods),
    ensures
        forall|a: int, b: int|
            0 <= a < b < member_ids(mods, table, n).len() ==> #[trigger] member_ids(
                mods,
                table,
                n,
            )[a] != #[trigger] member_ids(mods, table, n)[b],
    decreases n,
{
    if n > 0 {
        lemma_members_distinct(mods, table, n - 1);
        let before = member_ids(mods, table, n - 1);
        let names = member_ids(mods, table, n);
        assert forall|a: int, b: int| 0 <= a < b < names.len() implies #[trigger] names[a]
            != #[trigger] names[b] by {
            if b < before.len() {
                assert(before[a] != before[b]);
            } else {
                lemma_member_source(mods, table, n - 1, a);
                let j = choose|j: int|
                    0 <= j < n - 1 && is_member(#[trigger] mods[j], table) && mods[j].id
                        == before[a] && member_ids(mods, table, j).len() == a;
                assert(mods[j].id != mods[n - 1].id);
            }
        }
    }
}

/// Once names are bound, each of them has the number at its place.
pub proof fn lemma_bound_member(
    symbols: Seq<(Seq<char>, i32)>,
    names: Seq<Seq<char>>,
    ids: Seq<i32>,
    n: int,
    k: int,
)
    requires
        distinct_keys(symbols),
        0 <= k < n <= names.len(),
        n <= ids.len(),
        forall|a: int, b: int| 0 <= a < b < names.len() ==> #[trigger] names[a] != #[trigger] names[b],
    ensures
        lookup(bound(symbols, names, ids, n), names[k]) == Some(ids[k]),
    decreases n,
{
    lemma_bound_distinct(symbols, names, ids, n - 1);
    lemma_lookup_stored(bound(symbols, names, ids, n - 1), names[n - 1], ids[n - 1], names[k]);
    if k < n - 1 {
        lemma_bound_member(symbols, names, ids, n - 1, k);
        assert(names[k] != names[n - 1]);
    }
}

/// Binding names leaves every other name as it was.
pub proof fn lemma_bound_other(
    symbols: Seq<(Seq<char>, i32)>,
    names: Seq<Seq<char>>,
    ids: Seq<i32>,
    n: int,
    other: Seq<char>,
)
    requires
        distinct_keys(symbols),
        0 <= n <= names.len(),
        forall|k: int| 0 <= k < n ==> #[trigger] names[k] != other,
    ensures
        lookup(bound(symbols, names, ids, n), other) == lookup(symbols, other),
    decreases n,
{
    if n > 0 {
        lemma_bound_distinct(symbols, names, ids, n - 1);
        lemma_lookup_stored(bound(symbols, names, ids, n - 1), names[n - 1], ids[n - 1], other);
        lemma_bound_other(symbols, names, ids, n - 1, other);
        assert(names[n - 1] != other);
    }
}

/// Binding names keeps the keys of the symbols distinct.
pub proof fn lemma_bound_distinct(
    symbols: Seq<(Seq<char>, i32)>,
    names: Seq<Seq<char>>,
    ids: Seq<i32>,
    n: int,
)
    requires
        distinct_keys(symbols),
    ensures
        distinct_keys(bound(symbols, names, ids, n)),
    decreases n,
{
    if n > 0 {
        lemma_bound_distinct(symbols, names, ids, n - 1);
        lemma_stored_distinct(bound(symbols, names, ids, n - 1), names[n - 1], ids[n - 1]);
    }
}

/// No table stands twice among the tables seen, and `Objects` is not among
/// them.
pub proof fn lemma_seen_distinct(mods: Seq<ModView>, n: int)
    ensures
        tables_seen(mods, n).no_duplicates(),
        !tables_seen(mods, n).contains("Objects"@),
    decreases n,
{
    if n > 0 {
        lemma_seen_distinct(mods, n - 1);
        let before = tables_seen(mods, n - 1);
        let after = tables_seen(mods, n);
        if after != before {
            let table = target_table(mods[n - 1].mod_type);
            assert forall|i: int, j: int| 0 <= i < after.len() && 0 <= j < after.len() && i
                != j implies after[i] != after[j] by {
                if i < before.len() && j < before.len() {
                    assert(before[i] != before[j]);
                } else if i < before.len() {
                    assert(before.contains(before[i]));
                } else {
                    assert(before.contains(before[j]));
                }
            }
            assert forall|i: int| 0 <= i < after.len() implies after[i] != "Objects"@ by {
                if i < before.len() {
                    assert(before.contains(before[i]));
                }
            }
        }
    }
}

/// The table of every mod that asks for a key, but for `Objects`, is among
/// the tables seen.
pub proof fn lemma_seen_listed(mods: Seq<ModView>, n: int, j: int)
    requires
        0 <= j < n,
        needs_id(mods[j]),
        target_table(mods[j].mod_type) != "Objects"@,
    ensures
        tables_seen(mods, n).contains(target_table(mods[j].mod_type)),
    decreases n,
{
    let before = tables_seen(mods, n - 1);
    let after = tables_seen(mods, n);
    if j < n - 1 {
        lemma_seen_listed(mods, n - 1, j);
        let at = before.index_of(target_table(mods[j].mod_type));
        assert(after[at] == target_table(mods[j].mod_type));
    } else {
        let table = target_table(mods[j].mod_type);
        if before.contains(table) {
            let at = before.index_of(table);
            assert(after[at] == table);
        } else {
            assert(after[after.len() - 1] == table);
        }
    }
}

/// The tables are served once each, and the table of every mod that asks
/// for a key is served.
pub proof fn lemma_order(mods: Seq<ModView>)
    ensures
        table_order(mods).no_duplicates(),
        forall|j: int|
            0 <= j < mods.len() && needs_id(#[trigger] mods[j]) ==> table_order(mods).contains(
                target_table(mods[j].mod_type),
            ),
{
    let n = mods.len() as int;
    let seen = tables_seen(mods, n);
    let order = table_order(mods);
    lemma_seen_distinct(mods, n);
    if member_ids(mods, "Objects"@, n).len() > 0 {
        assert forall|i: int, j: int| 0 <= i < order.len() && 0 <= j < order.len() && i
            != j implies order[i] != order[j] by {
            if i > 0 && j > 0 {
                assert(seen[i - 1] != seen[j - 1]);
            } else if i > 0 {
                assert(seen.contains(seen[i - 1]));
            } else {
                assert(seen.contains(seen[j - 1]));
            }
        }
    }
    assert forall|j: int| 0 <= j < mods.len() && needs_id(#[trigger] mods[j]) implies order.contains(
        target_table(mods[j].mod_type),
    ) by {
        let table = target_table(mods[j].mod_type);
        if table == "Objects"@ {
            lemma_member_listed(mods, table, n, j);
            assert(order[0] == table);
        } else {
            lemma_seen_listed(mods, n, j);
            let at = seen.index_of(table);
            if member_ids(mods, "Objects"@, n).len() > 0 {
                assert(order[at + 1] == table);
            } else {
                assert(order[at] == table);
            }
        }
    }
}

/// Binding the mods of one table leaves the mods of every other table with
/// the keys that they have.
pub proof fn lemma_group_kept(
    database: Seq<TableView>,
    mods: Seq<ModView>,
    before: Seq<(Seq<char>, i32)>,
    after: Seq<(Seq<char>, i32)>,
    table: Seq<char>,
    at: int,
)
    requires
        unique_ids(mods),
        0 <= at < mods.len(),
        has_fresh_key(database, mods, before, at),
        !is_member(mods[at], table),
        forall|other: Seq<char>|
            !member_ids(mods, table, mods.len() as int).contains(other) ==> lookup(after, other)
                == lookup(before, other),
    ensures
        has_fresh_key(database, mods, after, at),
{
    let names = member_ids(mods, table, mods.len() as int);
    if names.contains(mods[at].id) {
        let k = names.index_of(mods[at].id);
        lemma_member_source(mods, table, mods.len() as int, k);
        let j = choose|j: int|
            0 <= j < mods.len() && is_member(#[trigger] mods[j], table) && mods[j].id == names[k]
                && member_ids(mods, table, j).len() == k;
        if j < at {
            assert(mods[j].id != mods[at].id);
        } else if at < j {
            assert(mods[at].id != mods[j].id);
        }
    }
    let own = target_table(mods[at].mod_type);
    let own_names = member_ids(mods, own, mods.len() as int);
    let stock = table_named(database, own)->0;
    let k = choose|k: int|
        0 <= k < own_names.len() && #[trigger] own_names[k] == mods[at].id && lookup(
            before,
            mods[at].id,
        ) == Some(free_ids(stock.primary_keys, own_names.len())[k]);
    assert(own_names[k] == mods[at].id);
}

/// Whether the mod asks for a new primary key.
pub fn asks_for_id(lu_mod: &Mod) -> (asks: bool)
    ensures
        asks == needs_id(lu_mod@),
{
    if lu_mod.fields.len() == 0 {
        return false;
    }
    assert(lu_mod@.fields[0] == lu_mod.fields@[0]@);
    match &lu_mod.fields[0] {
        OutputValue::GenerateId => true,
        _ => false,
    }
}

/// The symbols of the mods that ask for a key of `table`.
fn members_of(mods: &Vec<Mod>, table: &str) -> (names: Vec<String>)
    ensures
        views(names@) == member_ids(views(mods@), table@, mods@.len() as int),
{
    let mut names: Vec<String> = Vec::new();
    let mut i: usize = 0;
    assert(views(names@) =~= Seq::<Seq<char>>::empty());
    while i < mods.len()
        invariant
            i <= mods@.len(),
            views(names@) == member_ids(views(mods@), table@, i as int),
        decreases mods.len() - i,
    {
        assert(views(mods@)[i as int] == mods@[i as int]@);
        if asks_for_id(&mods[i]) {
            let target = mods[i].get_target_table_name();
            if same_text(target.as_str(), table) {
                let name = mods[i].id.clone();
                proof {
                    lemma_views_push(names@, name);
                }
                names.push(name);
            }
        }
        i += 1;
    }
    names
}

/// Whether `text` is among `list`.
fn holds_text(list: &Vec<String>, text: &str) -> (found: bool)
    ensures
        found == views(list@).contains(text@),
{
    let mut i: usize = 0;
    while i < list.len()
        invariant
            i <= list@.len(),
            forall|j: int| 0 <= j < i ==> views(list@)[j] != text@,
        decreases list.len() - i,
    {
        if same_text(list[i].as_str(), text) {
            assert(views(list@)[i as int] == text@);
            return true;
        }
        i += 1;
    }
    false
}

/// The tables of which keys are asked for, in the order in which they are
/// served.
fn order_of(mods: &Vec<Mod>) -> (tables: Vec<String>)
    ensures
        views(tables@) == table_order(views(mods@)),
{
    let objects = members_of(mods, "Objects");
    let mut tables: Vec<String> = Vec::new();
    let ghost mut head: Seq<Seq<char>> = Seq::empty();
    assert(views(tables@) =~= Seq::<Seq<char>>::empty());
    if objects.len() > 0 {
        let name = String::from_str("Objects");
        proof {
            lemma_views_push(tables@, name);
            head = seq!["Objects"@];
        }
        tables.push(name);
    }
    assert(views(tables@) =~= head + tables_seen(views(mods@), 0));
    let mut seen: Vec<String> = Vec::new();
    assert(views(seen@) =~= Seq::<Seq<char>>::empty());
    let mut i: usize = 0;
    while i < mods.len()
        invariant
            i <= mods@.len(),
            views(seen@) == tables_seen(views(mods@), i as int),
            views(tables@) == head + views(seen@),
        decreases mods.len() - i,
    {
        assert(views(mods@)[i as int] == mods@[i as int]@);
        if asks_for_id(&mods[i]) {
            let target = mods[i].get_target_table_name();
            if !same_text(target.as_str(), "Objects") && !holds_text(&seen, target.as_str()) {
                let copy = target.clone();
                proof {
                    lemma_views_push(seen@, copy);
                    lemma_views_push(tables@, target);
                    assert((head + views(seen@)).push(target@) == head + views(seen@).push(
                        target@,
                    ));
                }
                seen.push(copy);
                tables.push(target);
            }
        }
        i += 1;
    }
    tables
}

/// Binds each mod that asks for a key of `table`.
fn bind_group(mod_context: &mut ModContext, table: &str) -> (done: Result<(), ModError>)
    requires
        forall|i: int|
            0 <= i < old(mod_context)@.database.len() ==> old(mod_context)@.mods.len() + (
            #[trigger] old(mod_context)@.database[i]).primary_keys.len() < i32::MAX,
    ensures
        match group_bound(
            old(mod_context)@.database,
            old(mod_context)@.mods,
            old(mod_context)@.lookup,
            table@,
        ) {
            Ok(symbols) => done is Ok && final(mod_context)@ == (ModContextView {
                lookup: symbols,
                ..old(mod_context)@
            }),
            Err(e) => done matches Err(x) && x@ == e,
        },
        done is Ok && unique_ids(old(mod_context)@.mods) ==> {
            &&& distinct_keys(final(mod_context)@.lookup)
            &&& forall|j: int|
                0 <= j < old(mod_context)@.mods.len() && is_member(
                    #[trigger] old(mod_context)@.mods[j],
                    table@,
                ) ==> has_fresh_key(
                    old(mod_context)@.database,
                    old(mod_context)@.mods,
                    final(mod_context)@.lookup,
                    j,
                )
            &&& forall|other: Seq<char>|
                !member_ids(
                    old(mod_context)@.mods,
                    table@,
                    old(mod_context)@.mods.len() as int,
                ).contains(other) ==> lookup(final(mod_context)@.lookup, other) == lookup(
                    old(mod_context)@.lookup,
                    other,
                )
        },
{
    proof {
        use_type_invariant(&mod_context.lookup);
    }
    let ghost mods = mod_context@.mods;
    let ghost database = mod_context@.database;
    let ghost start = mod_context@.lookup;
    let names = members_of(&mod_context.mods, table);
    proof {
        lemma_members_bounded(mod_context@.mods, table@, mod_context@.mods.len() as int);
    }
    let ids = {
        let stock = match get_table(&mod_context.database, table) {
            Ok(stock) => stock,
            Err(e) => {
                return Err(e);
            },
        };
        proof {
            let at = crate::schema::table_position(mod_context@.database, table@)->0;
            assert(mod_context@.database[at] == stock@);
        }
        match find_available_ids(stock, names.len()) {
            Ok(ids) => {
                proof {
                    let chosen = free_ids(stock@.primary_keys, names@.len() as nat);
                    assert(chosen.len() == names@.len() && lowest_free(
                        chosen,
                        stock@.primary_keys,
                    ));
                    lemma_lowest_free_unique(ids@, chosen, stock@.primary_keys);
                    assert(table_named(database, table@) == Some(stock@));
                }
                ids
            },
            Err(e) => {
                return Err(e);
            },
        }
    };
    let mut k: usize = 0;
    while k < names.len()
        invariant
            k <= names@.len(),
            ids@.len() == names@.len(),
            mod_context@ == (ModContextView {
                lookup: bound(old(mod_context)@.lookup, views(names@), ids@, k as int),
                ..old(mod_context)@
            }),
        decreases names.len() - k,
    {
        assert(views(names@)[k as int] == names@[k as int]@);
        mod_context.lookup.insert(names[k].clone(), ids[k]);
        k += 1;
    }
    proof {
        if unique_ids(mods) {
            let all = views(names@);
            let n = mods.len() as int;
            let stock = table_named(database, table@)->0;
            lemma_members_distinct(mods, table@, n);
            lemma_bound_distinct(start, all, ids@, all.len() as int);
            assert forall|j: int| 0 <= j < mods.len() && is_member(
                #[trigger] mods[j],
                table@,
            ) implies has_fresh_key(database, mods, mod_context@.lookup, j) by {
                lemma_member_listed(mods, table@, n, j);
                let at = member_ids(mods, table@, j).len() as int;
                lemma_bound_member(start, all, ids@, all.len() as int, at);
                assert(all[at] == mods[j].id);
            }
            assert forall|other: Seq<char>| !all.contains(other) implies lookup(
                mod_context@.lookup,
                other,
            ) == lookup(start, other) by {
                assert forall|k: int| 0 <= k < all.len() implies #[trigger] all[k] != other by {
                    if all[k] == other {
                        assert(all.contains(other));
                    }
                }
                lemma_bound_other(start, all, ids@, all.len() as int, other);
            }
        }
    }
    Ok(())
}

/// Binds every mod that asks for a new primary key to a free key of its
/// table: the tables are served in order, `Objects` first, and within a
/// table the mods take the lowest free keys in the order of the buffer.
pub fn allocate_ids(mod_context: &mut ModContext) -> (done: Result<(), ModError>)
    requires
        forall|i: int|
            0 <= i < old(mod_context)@.database.len() ==> old(mod_context)@.mods.len() + (
            #[trigger] old(mod_context)@.database[i]).primary_keys.len() < i32::MAX,
    ensures
        match allocated(
            old(mod_context)@.database,
            old(mod_context)@.mods,
            old(mod_context)@.lookup,
        ) {
            Ok(symbols) => done is Ok && final(mod_context)@ == (ModContextView {
                lookup: symbols,
                ..old(mod_context)@
            }),
            Err(e) => done matches Err(x) && x@ == e,
        },
        done is Ok && unique_ids(old(mod_context)@.mods) ==> forall|j: int|
            0 <= j < old(mod_context)@.mods.len() && needs_id(#[trigger] old(mod_context)@.mods[j])
                ==> has_fresh_key(
                old(mod_context)@.database,
                old(mod_context)@.mods,
                final(mod_context)@.lookup,
                j,
            ),
{
    let tables = order_of(&mod_context.mods);
    let ghost database = mod_context@.database;
    let ghost mods = mod_context@.mods;
    let ghost start = mod_context@.lookup;
    let ghost order = views(tables@);
    let mut i: usize = 0;
    assert(order.take(0) == Seq::<Seq<char>>::empty());
    while i < tables.len()
        invariant
            i <= tables@.len(),
            order == views(tables@),
            order == table_order(mods),
            database == old(mod_context)@.database,
            mods == old(mod_context)@.mods,
            start == old(mod_context)@.lookup,
            forall|i: int|
                0 <= i < database.len() ==> mods.len() + (#[trigger] database[i]).primary_keys.len()
                    < i32::MAX,
            mod_context@ == (ModContextView { lookup: mod_context@.lookup, ..old(mod_context)@ }),
            groups_bound(database, mods, start, order.take(i as int)) == Ok::<
                Seq<(Seq<char>, i32)>,
                ModErrorView,
            >(mod_context@.lookup),
            unique_ids(mods) ==> forall|t: int, j: int|
                #![trigger order[t], mods[j]]
                0 <= t < i && 0 <= j < mods.len() && is_member(mods[j], order[t]) ==> has_fresh_key(
                    database,
                    mods,
                    mod_context@.lookup,
                    j,
                ),
        decreases tables.len() - i,
    {
        proof {
            let next = order.take(i + 1);
            assert(next.drop_last() == order.take(i as int));
            assert(next.last() == tables@[i as int]@);
            lemma_order(mods);
        }
        let ghost before = mod_context@.lookup;
        match bind_group(mod_context, tables[i].as_str()) {
            Ok(()) => {
                proof {
                    if unique_ids(mods) {
                        assert(order[i as int] == tables@[i as int]@);
                        assert forall|t: int, j: int|
                            #![trigger order[t], mods[j]]
                            0 <= t < i + 1 && 0 <= j < mods.len() && is_member(
                                mods[j],
                                order[t],
                            ) implies has_fresh_key(database, mods, mod_context@.lookup, j) by {
                            if t < i {
                                assert(order[t] != order[i as int]);
                                lemma_group_kept(
                                    database,
                                    mods,
                                    before,
                                    mod_context@.lookup,
                                    order[i as int],
                                    j,
                                );
                            }
                        }
                    }
                }
            },
            Err(e) => {
                proof {
                    lemma_groups_refused(database, mods, start, order, i + 1);
                }
                return Err(e);
            },
        }
        i += 1;
    }
    assert(order.take(order.len() as int) == order);
    proof {
        if unique_ids(mods) {
            lemma_order(mods);
            assert forall|j: int| 0 <= j < mods.len() && needs_id(#[trigger] mods[j]) implies has_fresh_key(
                database,
                mods,
                mod_context@.lookup,
                j,
            ) by {
                let t = order.index_of(target_table(mods[j].mod_type));
                assert(is_member(mods[j], order[t]));
            }
        }
    }
    Ok(())
}

} // verus!
