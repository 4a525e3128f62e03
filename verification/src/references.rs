//! The resolution of cells: once identifiers are bound, every cell of every
//! row becomes a typed value.

use vstd::prelude::*;
use crate::component::target_table;
use crate::dict::{lookup, Dict, Duplicate};
use crate::error::{ModError, ModErrorView};
use crate::expand::rewritten_cell;
use crate::lu_mod::{Mod, ModView};
use crate::mod_context::{ModContext, ModContextView};
use crate::path::{convert_path_specifier, rewritten};
use crate::row::{coerce, coerced};
use crate::schema::{find_table, table_named, Column, ColumnView, Database, TableView};
use crate::text::same_text;
use crate::value::{
    lemma_views_push,
    views,
    Field,
    FieldView,
    OutputValue,
    OutputView,
    ValueType,
};

verus! {

/// The mod at `at` has the symbol of a mod before it.
pub open spec fn is_repeat(mods: Seq<ModView>, at: int) -> bool {
    exists|j: int| 0 <= j < at && (#[trigger] mods[j]).id == mods[at].id
}

/// The mod at `at` is the first that has the symbol of a mod before it.
pub open spec fn is_first_repeat(mods: Seq<ModView>, at: int) -> bool {
    &&& 0 <= at < mods.len()
    &&& is_repeat(mods, at)
    &&& forall|k: int| 0 <= k < at ==> !is_repeat(mods, k)
}

/// No two mods have the same symbol.
pub open spec fn unique_ids(mods: Seq<ModView>) -> bool {
    forall|i: int, j: int| 0 <= i < j < mods.len() ==> (#[trigger] mods[i]).id != (#[trigger] mods[j]).id
}

/// Whether one of the first `n` mods has the symbol `id`.
fn seen_before(mods: &Vec<Mod>, n: usize, id: &str) -> (found: bool)
    requires
        n <= mods@.len(),
    ensures
        found == exists|j: int| 0 <= j < n && (#[trigger] views(mods@)[j]).id == id@,
{
    let mut j: usize = 0;
    while j < n
        invariant
            j <= n <= mods@.len(),
            forall|k: int| 0 <= k < j ==> (#[trigger] views(mods@)[k]).id != id@,
        decreases n - j,
    {
        assert(views(mods@)[j as int] == mods@[j as int]@);
        if same_text(mods[j].id.as_str(), id) {
            return true;
        }
        j += 1;
    }
    false
}

/// Checks that no two mods have the same symbol. The first mod that has the
/// symbol of a mod before it is refused.
pub fn check_unique_ids(mods: &Vec<Mod>) -> (done: Result<(), ModError>)
    ensures
        match done {
            Ok(()) => unique_ids(views(mods@)),
            Err(e) => exists|at: int|
                is_first_repeat(views(mods@), at) && e@ == ModErrorView::DuplicateModId(
                    (#[trigger] views(mods@)[at]).id,
                ),
        },
{
    let mut i: usize = 0;
    while i < mods.len()
        invariant
            i <= mods@.len(),
            forall|k: int| 0 <= k < i ==> !is_repeat(views(mods@), k),
        decreases mods.len() - i,
    {
        assert(views(mods@)[i as int] == mods@[i as int]@);
        if seen_before(mods, i, mods[i].id.as_str()) {
            assert(is_first_repeat(views(mods@), i as int));
            return Err(ModError::DuplicateModId(mods[i].id.clone()));
        }
        i += 1;
    }
    proof {
        assert forall|a: int, b: int| 0 <= a < b < mods@.len() implies (#[trigger] views(
            mods@,
        )[a]).id != (#[trigger] views(mods@)[b]).id by {
            assert(!is_repeat(views(mods@), b));
        }
    }
    Ok(())
}

/// The cell that holds the number bound to `name`; a name that nothing is
/// bound to is refused.
pub open spec fn number_of(symbols: Seq<(Seq<char>, i32)>, name: Seq<char>) -> Result<
    OutputView,
    ModErrorView,
> {
    match lookup(symbols, name) {
        Some(id) => Ok(OutputView::Known(FieldView::Integer(id))),
        None => Err(ModErrorView::UnresolvedSymbol(name)),
    }
}

/// The column of the cell at `at` in the row of `m`. A cell for which the
/// target table has no column counts as one of a column that holds nothing.
pub open spec fn column_at(database: Seq<TableView>, m: ModView, at: int) -> ColumnView {
    match table_named(database, target_table(m.mod_type)) {
        Some(table) => if 0 <= at < table.columns.len() {
            table.columns[at]
        } else {
            ColumnView { name: Seq::empty(), value_type: ValueType::Nothing }
        },
        None => ColumnView { name: Seq::empty(), value_type: ValueType::Nothing },
    }
}

/// What a cell of `m` in `column` resolves to. A request for a new
/// identifier takes the number bound to `m`, a reference the number bound
/// to the mod that it names; an untyped value is coerced by the column, and
/// resolved in turn where it then is a reference; a text is rewritten.
pub open spec fn resolved_cell(
    symbols: Seq<(Seq<char>, i32)>,
    m: ModView,
    column: ColumnView,
    cell: OutputView,
) -> Result<OutputView, ModErrorView> {
    match cell {
        OutputView::GenerateId => number_of(symbols, m.id),
        OutputView::AwaitingId(name) => number_of(symbols, name),
        OutputView::Known(_) => Ok(rewritten_cell(m.dir, cell)),
        OutputView::FromJson(value) => match coerced(column, value) {
            Err(e) => Err(e),
            Ok(OutputView::AwaitingId(name)) => number_of(symbols, name),
            Ok(other) => Ok(rewritten_cell(m.dir, other)),
        },
    }
}

/// The first `n` cells of the row of `m`, resolved; the first cell that
/// cannot be resolved is refused.
pub open spec fn resolved_row(
    database: Seq<TableView>,
    symbols: Seq<(Seq<char>, i32)>,
    m: ModView,
    n: int,
) -> Result<Seq<OutputView>, ModErrorView>
    decreases n,
{
    if n <= 0 {
        Ok(Seq::empty())
    } else {
        match resolved_row(database, symbols, m, n - 1) {
            Err(e) => Err(e),
            Ok(row) => match resolved_cell(
                symbols,
                m,
                column_at(database, m, n - 1),
                m.fields[n - 1],
            ) {
                Err(e) => Err(e),
                Ok(cell) => Ok(row.push(cell)),
            },
        }
    }
}

/// The mod with its row resolved.
pub open spec fn resolved_mod(
    database: Seq<TableView>,
    symbols: Seq<(Seq<char>, i32)>,
    m: ModView,
) -> Result<ModView, ModErrorView> {
    match resolved_row(database, symbols, m, m.fields.len() as int) {
        Err(e) => Err(e),
        Ok(row) => Ok(ModView { fields: row, ..m }),
    }
}

/// The first `n` mods with their rows resolved; the first mod with a cell
/// that cannot be resolved is refused.
pub open spec fn resolved_mods(
    database: Seq<TableView>,
    symbols: Seq<(Seq<char>, i32)>,
    mods: Seq<ModView>,
    n: int,
) -> Result<Seq<ModView>, ModErrorView>
    decreases n,
{
    if n <= 0 {
        Ok(Seq::empty())
    } else {
        match resolved_mods(database, symbols, mods, n - 1) {
            Err(e) => Err(e),
            Ok(before) => match resolved_mod(database, symbols, mods[n - 1]) {
                Err(e) => Err(e),
                Ok(m) => Ok(before.push(m)),
            },
        }
    }
}

/// A refusal among the first cells is the refusal of the row.
pub proof fn lemma_row_resolution_refused(
    database: Seq<TableView>,
    symbols: Seq<(Seq<char>, i32)>,
    m: ModView,
    n: int,
    len: int,
)
    requires
        0 <= n <= len,
        resolved_row(database, symbols, m, n) is Err,
    ensures
        resolved_row(database, symbols, m, len) == resolved_row(database, symbols, m, n),
    decreases len,
{
    if n < len {
        lemma_row_resolution_refused(database, symbols, m, n, len - 1);
    }
}

/// A refusal among the first mods is the refusal of them all.
pub proof fn lemma_mods_resolution_refused(
    database: Seq<TableView>,
    symbols: Seq<(Seq<char>, i32)>,
    mods: Seq<ModView>,
    n: int,
    len: int,
)
    requires
        0 <= n <= len,
        resolved_mods(database, symbols, mods, n) is Err,
    ensures
        resolved_mods(database, symbols, mods, len) == resolved_mods(database, symbols, mods, n),
    decreases len,
{
    if n < len {
        lemma_mods_resolution_refused(database, symbols, mods, n, len - 1);
    }
}

/// Once a row is resolved, each of its cells is a typed value, and a cell
/// that referred to a mod holds the number that is bound to that mod.
pub proof fn lemma_references_closed(
    database: Seq<TableView>,
    symbols: Seq<(Seq<char>, i32)>,
    m: ModView,
    n: int,
)
    requires
        0 <= n <= m.fields.len(),
        resolved_row(database, symbols, m, n) is Ok,
    ensures
        ({
            let row = resolved_row(database, symbols, m, n)->Ok_0;
            &&& row.len() == n
            &&& forall|i: int| 0 <= i < n ==> #[trigger] row[i] is Known
            &&& forall|i: int|
                0 <= i < n ==> (m.fields[i] matches OutputView::AwaitingId(name) ==> lookup(
                    symbols,
                    name,
                ).is_some() && #[trigger] row[i] == OutputView::Known(
                    FieldView::Integer(lookup(symbols, name)->0),
                ))
        }),
    decreases n,
{
    if n > 0 {
        lemma_references_closed(database, symbols, m, n - 1);
    }
}

/// Once the mods are resolved there is one for each mod of the buffer, in
/// the same order, each with its own row resolved.
pub proof fn lemma_resolved_mods(
    database: Seq<TableView>,
    symbols: Seq<(Seq<char>, i32)>,
    mods: Seq<ModView>,
    n: int,
)
    requires
        0 <= n <= mods.len(),
        resolved_mods(database, symbols, mods, n) is Ok,
    ensures
        resolved_mods(database, symbols, mods, n)->Ok_0.len() == n,
        forall|i: int|
            0 <= i < n ==> resolved_mod(database, symbols, #[trigger] mods[i]) == Ok::<
                ModView,
                ModErrorView,
            >(resolved_mods(database, symbols, mods, n)->Ok_0[i]),
    decreases n,
{
    if n > 0 {
        lemma_resolved_mods(database, symbols, mods, n - 1);
    }
}

/// The cell that holds the number bound to `name`.
fn number(symbols: &Dict<i32>, name: &str) -> (cell: Result<OutputValue, ModError>)
    ensures
        match number_of(symbols@, name@) {
            Ok(c) => cell matches Ok(v) && v@ == c,
            Err(e) => cell matches Err(x) && x@ == e,
        },
{
    match symbols.get(name) {
        Some(id) => Ok(OutputValue::Known(Field::Integer(*id))),
        None => Err(ModError::UnresolvedSymbol(String::from_str(name))),
    }
}

/// A cell of `lu_mod` once rewritten.
fn rewrite_cell(lu_mod: &Mod, cell: &OutputValue) -> (out: OutputValue)
    ensures
        out@ == rewritten_cell(lu_mod@.dir, cell@),
{
    match cell {
        OutputValue::Known(Field::Text(text)) => OutputValue::Known(
            Field::Text(convert_path_specifier(lu_mod, text.as_str())),
        ),
        other => other.clone(),
    }
}

/// Resolves one cell of `lu_mod`.
pub fn resolve_cell(symbols: &Dict<i32>, lu_mod: &Mod, column: &Column, cell: &OutputValue) -> (out:
    Result<OutputValue, ModError>)
    ensures
        match resolved_cell(symbols@, lu_mod@, column@, cell@) {
            Ok(c) => out matches Ok(v) && v@ == c,
            Err(e) => out matches Err(x) && x@ == e,
        },
{
    match cell {
        OutputValue::GenerateId => number(symbols, lu_mod.id.as_str()),
        OutputValue::AwaitingId(name) => number(symbols, name.as_str()),
        OutputValue::Known(_) => Ok(rewrite_cell(lu_mod, cell)),
        OutputValue::FromJson(value) => match coerce(column, value) {
            Err(e) => Err(e),
            Ok(OutputValue::AwaitingId(name)) => number(symbols, name.as_str()),
            Ok(other) => Ok(rewrite_cell(lu_mod, &other)),
        },
    }
}

/// The row of `lu_mod`, resolved.
fn resolve_row(database: &Database, symbols: &Dict<i32>, lu_mod: &Mod) -> (out: Result<
    Vec<OutputValue>,
    ModError,
>)
    ensures
        match resolved_row(database@, symbols@, lu_mod@, lu_mod@.fields.len() as int) {
            Ok(row) => out matches Ok(v) && views(v@) == row,
            Err(e) => out matches Err(x) && x@ == e,
        },
{
    let target = lu_mod.get_target_table_name();
    let table = find_table(database, target.as_str());
    let nameless = Column { name: String::new(), value_type: ValueType::Nothing };
    let mut row: Vec<OutputValue> = Vec::new();
    let mut i: usize = 0;
    assert(views(row@) =~= Seq::<OutputView>::empty());
    while i < lu_mod.fields.len()
        invariant
            i <= lu_mod.fields@.len(),
            nameless@ == (ColumnView { name: Seq::empty(), value_type: ValueType::Nothing }),
            match table {
                Some(at) => crate::schema::table_position(database@, target@) == Some(at as int)
                    && at < database.tables@.len(),
                None => crate::schema::table_position(database@, target@).is_none(),
            },
            target@ == target_table(lu_mod@.mod_type),
            resolved_row(database@, symbols@, lu_mod@, i as int) == Ok::<
                Seq<OutputView>,
                ModErrorView,
            >(views(row@)),
        decreases lu_mod.fields.len() - i,
    {
        let column = match table {
            Some(at) => {
                assert(database@[at as int] == database.tables@[at as int]@);
                if i < database.tables[at].columns.len() {
                    assert(database.tables@[at as int]@.columns[i as int]
                        == database.tables@[at as int].columns@[i as int]@);
                    &database.tables[at].columns[i]
                } else {
                    &nameless
                }
            },
            None => &nameless,
        };
        assert(column@ == column_at(database@, lu_mod@, i as int));
        assert(lu_mod@.fields[i as int] == lu_mod.fields@[i as int]@);
        match resolve_cell(symbols, lu_mod, column, &lu_mod.fields[i]) {
            Ok(cell) => {
                proof {
                    lemma_views_push(row@, cell);
                }
                row.push(cell);
            },
            Err(e) => {
                proof {
                    lemma_row_resolution_refused(
                        database@,
                        symbols@,
                        lu_mod@,
                        i + 1,
                        lu_mod@.fields.len() as int,
                    );
                }
                return Err(e);
            },
        }
        i += 1;
    }
    Ok(row)
}

/// Resolves every cell of every mod of the buffer.
pub fn resolve_references(mod_context: &mut ModContext) -> (done: Result<(), ModError>)
    ensures
        match resolved_mods(
            old(mod_context)@.database,
            old(mod_context)@.lookup,
            old(mod_context)@.mods,
            old(mod_context)@.mods.len() as int,
        ) {
            Ok(mods) => done is Ok && final(mod_context)@ == (ModContextView {
                mods,
                ..old(mod_context)@
            }),
            Err(e) => done matches Err(x) && x@ == e,
        },
{
    let mut resolved: Vec<Mod> = Vec::new();
    let mut i: usize = 0;
    assert(views(resolved@) =~= Seq::<ModView>::empty());
    while i < mod_context.mods.len()
        invariant
            i <= mod_context.mods@.len(),
            *mod_context == *old(mod_context),
            resolved_mods(
                mod_context@.database,
                mod_context@.lookup,
                mod_context@.mods,
                i as int,
            ) == Ok::<Seq<ModView>, ModErrorView>(views(resolved@)),
        decreases mod_context.mods.len() - i,
    {
        assert(mod_context@.mods[i as int] == mod_context.mods@[i as int]@);
        match resolve_row(&mod_context.database, &mod_context.lookup, &mod_context.mods[i]) {
            Ok(row) => {
                let mut copy = mod_context.mods[i].duplicate();
                copy.fields = row;
                proof {
                    lemma_views_push(resolved@, copy);
                }
                resolved.push(copy);
            },
            Err(e) => {
                proof {
                    lemma_mods_resolution_refused(
                        mod_context@.database,
                        mod_context@.lookup,
                        mod_context@.mods,
                        i + 1,
                        mod_context@.mods.len() as int,
                    );
                }
                return Err(e);
            },
        }
        i += 1;
    }
    mod_context.mods = resolved;
    Ok(())
}

} // verus!
