//! What is written out: the rows that the mods add to each table, the
//! number of buckets of each table, and the slot of each new row among
//! them.

use vstd::prelude::*;
use vstd::arithmetic::div_mod::lemma_fundamental_div_mod_converse;
use vstd::arithmetic::power2::{
    lemma2_to64,
    lemma_pow2_strictly_increases,
    lemma_pow2_unfold,
    pow2,
};
use vstd::utf8::encode_utf8;
use crate::component::target_table;
use crate::error::{ModError, ModErrorView};
use crate::lu_mod::{Mod, ModView};
use crate::mod_context::ModContext;
use crate::registry::ComponentLink;
use crate::text::same_text;
use crate::value::{lemma_views_push, views, Field, FieldView, OutputValue, OutputView};

verus! {

/// The row of typed values that the first `n` cells stand for, if each of
/// them is resolved.
pub open spec fn typed(cells: Seq<OutputView>, n: int) -> Option<Seq<FieldView>>
    decreases n,
{
    if n <= 0 {
        Some(Seq::empty())
    } else {
        match typed(cells, n - 1) {
            None => None,
            Some(row) => match cells[n - 1] {
                OutputView::Known(field) => Some(row.push(field)),
                _ => None,
            },
        }
    }
}

/// A gap among the first cells is a gap of the row.
pub proof fn lemma_typed_gap(cells: Seq<OutputView>, n: int, len: int)
    requires
        0 <= n <= len,
        typed(cells, n).is_none(),
    ensures
        typed(cells, len).is_none(),
    decreases len,
{
    if n < len {
        lemma_typed_gap(cells, n, len - 1);
    }
}

/// The row of an entry of the registry.
pub open spec fn link_row(entry: ComponentLink) -> Seq<FieldView> {
    seq![
        FieldView::Integer(entry.object),
        FieldView::Integer(entry.component_type),
        FieldView::Integer(entry.component),
    ]
}

/// The rows that the first `n` mods add to `table`: the row of each mod
/// that targets the table and has a row, in the order of the buffer. A mod
/// with a cell that is not resolved is refused under its symbol.
pub open spec fn mod_rows(mods: Seq<ModView>, table: Seq<char>, n: int) -> Result<
    Seq<Seq<FieldView>>,
    ModErrorView,
>
    decreases n,
{
    if n <= 0 {
        Ok(Seq::empty())
    } else {
        match mod_rows(mods, table, n - 1) {
            Err(e) => Err(e),
            Ok(rows) => {
                let m = mods[n - 1];
                if target_table(m.mod_type) == table && m.fields.len() > 0 {
                    match typed(m.fields, m.fields.len() as int) {
                        Some(row) => Ok(rows.push(row)),
                        None => Err(ModErrorView::UnresolvedSymbol(m.id)),
                    }
                } else {
                    Ok(rows)
                }
            },
        }
    }
}

/// A refusal among the first mods is the refusal of them all.
pub proof fn lemma_rows_refused(mods: Seq<ModView>, table: Seq<char>, n: int, len: int)
    requires
        0 <= n <= len,
        mod_rows(mods, table, n) is Err,
    ensures
        mod_rows(mods, table, len) == mod_rows(mods, table, n),
    decreases len,
{
    if n < len {
        lemma_rows_refused(mods, table, n, len - 1);
    }
}

/// The rows of the registry.
pub open spec fn registry_rows(registry: Seq<ComponentLink>) -> Seq<Seq<FieldView>> {
    Seq::new(registry.len(), |i: int| link_row(registry[i]))
}

/// The rows that are added to `table`: those of the mods that target it,
/// and for the table `ComponentsRegistry` the registry after them.
pub open spec fn added_rows(mods: Seq<ModView>, registry: Seq<ComponentLink>, table: Seq<char>) -> Result<
    Seq<Seq<FieldView>>,
    ModErrorView,
> {
    match mod_rows(mods, table, mods.len() as int) {
        Err(e) => Err(e),
        Ok(rows) => if table == "ComponentsRegistry"@ {
            Ok(rows + registry_rows(registry))
        } else {
            Ok(rows)
        },
    }
}

/// Those among the first `n` mods that target `table`, in the order of the
/// buffer.
pub open spec fn mods_for(mods: Seq<ModView>, table: Seq<char>, n: int) -> Seq<ModView>
    decreases n,
{
    if n <= 0 {
        Seq::empty()
    } else if target_table(mods[n - 1].mod_type) == table {
        mods_for(mods, table, n - 1).push(mods[n - 1])
    } else {
        mods_for(mods, table, n - 1)
    }
}

/// The mods by their views.
pub open spec fn borrowed_views(mods: Seq<&Mod>) -> Seq<ModView> {
    Seq::new(mods.len(), |i: int| mods[i]@)
}

/// The mods of the buffer that target the table called `target_table`.
pub fn get_mods_for_table<'a>(mod_context: &'a ModContext, target_table: &str) -> (found: Vec<
    &'a Mod,
>)
    ensures
        borrowed_views(found@) == mods_for(
            mod_context@.mods,
            target_table@,
            mod_context@.mods.len() as int,
        ),
{
    let mut found: Vec<&'a Mod> = Vec::new();
    let mut i: usize = 0;
    assert(borrowed_views(found@) =~= Seq::<ModView>::empty());
    while i < mod_context.mods.len()
        invariant
            i <= mod_context.mods@.len(),
            borrowed_views(found@) == mods_for(mod_context@.mods, target_table@, i as int),
        decreases mod_context.mods.len() - i,
    {
        let lu_mod = &mod_context.mods[i];
        assert(mod_context@.mods[i as int] == lu_mod@);
        let target = lu_mod.get_target_table_name();
        if same_text(target.as_str(), target_table) {
            assert(borrowed_views(found@.push(lu_mod)) =~= borrowed_views(found@).push(lu_mod@));
            found.push(lu_mod);
        }
        i += 1;
    }
    found
}

/// The rows by the views of their cells.
pub open spec fn rows_view(rows: Seq<Vec<Field>>) -> Seq<Seq<FieldView>> {
    Seq::new(rows.len(), |i: int| views(rows[i]@))
}

/// The row of typed values that the cells stand for.
pub fn typed_row(cells: &Vec<OutputValue>) -> (row: Option<Vec<Field>>)
    ensures
        match typed(views(cells@), cells@.len() as int) {
            Some(r) => row matches Some(v) && views(v@) == r,
            None => row.is_none(),
        },
{
    let mut row: Vec<Field> = Vec::new();
    let mut i: usize = 0;
    assert(views(row@) =~= Seq::<FieldView>::empty());
    while i < cells.len()
        invariant
            i <= cells@.len(),
            typed(views(cells@), i as int) == Some(views(row@)),
        decreases cells.len() - i,
    {
        assert(views(cells@)[i as int] == cells@[i as int]@);
        match &cells[i] {
            OutputValue::Known(field) => {
                let copy = field.clone();
                proof {
                    lemma_views_push(row@, copy);
                }
                row.push(copy);
            },
            _ => {
                proof {
                    lemma_typed_gap(views(cells@), i + 1, cells@.len() as int);
                }
                return None;
            },
        }
        i += 1;
    }
    Some(row)
}

/// The rows that are added to the table called `table`.
pub fn get_rows_for_insertion(
    mod_context: &ModContext,
    registry: &Vec<ComponentLink>,
    table: &str,
) -> (rows: Result<Vec<Vec<Field>>, ModError>)
    ensures
        match added_rows(mod_context@.mods, registry@, table@) {
            Ok(r) => rows matches Ok(v) && rows_view(v@) == r,
            Err(e) => rows matches Err(x) && x@ == e,
        },
{
    let ghost mods = mod_context@.mods;
    let mut rows: Vec<Vec<Field>> = Vec::new();
    let mut i: usize = 0;
    assert(rows_view(rows@) =~= Seq::<Seq<FieldView>>::empty());
    while i < mod_context.mods.len()
        invariant
            i <= mod_context.mods@.len(),
            mods == mod_context@.mods,
            mod_rows(mods, table@, i as int) == Ok::<Seq<Seq<FieldView>>, ModErrorView>(
                rows_view(rows@),
            ),
        decreases mod_context.mods.len() - i,
    {
        let lu_mod = &mod_context.mods[i];
        assert(mods[i as int] == lu_mod@);
        let target = lu_mod.get_target_table_name();
        if same_text(target.as_str(), table) && lu_mod.fields.len() > 0 {
            match typed_row(&lu_mod.fields) {
                Some(row) => {
                    assert(rows_view(rows@.push(row)) =~= rows_view(rows@).push(views(row@)));
                    rows.push(row);
                },
                None => {
                    proof {
                        lemma_rows_refused(mods, table@, i + 1, mods.len() as int);
                    }
                    return Err(ModError::UnresolvedSymbol(lu_mod.id.clone()));
                },
            }
        }
        i += 1;
    }
    if same_text(table, "ComponentsRegistry") {
        let ghost before = rows_view(rows@);
        let mut k: usize = 0;
        assert(before + registry_rows(registry@).take(0) == before);
        while k < registry.len()
            invariant
                k <= registry@.len(),
                rows_view(rows@) == before + registry_rows(registry@).take(k as int),
            decreases registry.len() - k,
        {
            let entry = registry[k];
            let mut row: Vec<Field> = Vec::new();
            row.push(Field::Integer(entry.object));
            row.push(Field::Integer(entry.component_type));
            row.push(Field::Integer(entry.component));
            proof {
                assert(views(row@) =~= link_row(entry));
                assert(rows_view(rows@.push(row)) =~= rows_view(rows@).push(views(row@)));
                assert(registry_rows(registry@).take(k + 1) == registry_rows(registry@).take(
                    k as int,
                ).push(link_row(entry)));
            }
            rows.push(row);
            k += 1;
        }
        assert(registry_rows(registry@).take(registry@.len() as int) == registry_rows(registry@));
    }
    Ok(rows)
}

/// `n` is a power of two.
pub open spec fn is_power_of_two(n: int) -> bool {
    exists|k: nat| n == pow2(k)
}

/// A power of two that is at least `n` and less than twice `n` is the least
/// power of two that is at least `n`.
pub proof fn lemma_power_is_least(n: int, p: int, q: int)
    requires
        is_power_of_two(p),
        is_power_of_two(q),
        n <= p < 2 * n,
        n <= q,
    ensures
        p <= q,
{
    let k = choose|k: nat| p == pow2(k);
    let j = choose|j: nat| q == pow2(j);
    if j < k {
        if j + 1 < k {
            lemma_pow2_strictly_increases(j + 1, k);
        }
        lemma_pow2_unfold(j + 1);
    } else if k < j {
        lemma_pow2_strictly_increases(k, j);
    }
}

/// The most rows and buckets for which a number of buckets can be given.
pub const MAX_BUCKETS: usize = 0x8000_0000;

/// The number of buckets of a table that has `stock` buckets and takes
/// `added` new rows: none for a table without either, and else the power
/// of two that is at least their sum and less than twice their sum. There
/// is none where the sum is beyond `MAX_BUCKETS`.
pub fn bucket_count(stock: usize, added: usize) -> (count: Option<usize>)
    ensures
        match count {
            Some(n) => {
                &&& stock + added <= MAX_BUCKETS
                &&& stock + added == 0 ==> n == 0
                &&& stock + added > 0 ==> is_power_of_two(n as int) && stock + added <= n < 2 * (
                stock + added)
            },
            None => stock + added > MAX_BUCKETS,
        },
{
    if stock > MAX_BUCKETS || added > MAX_BUCKETS - stock {
        return None;
    }
    let total = stock + added;
    if total == 0 {
        return Some(0);
    }
    let mut n: usize = 1;
    let ghost mut k: nat = 0;
    proof {
        lemma2_to64();
    }
    while n < total
        invariant
            0 < total <= MAX_BUCKETS,
            n == pow2(k),
            1 <= n < 2 * total,
        decreases 2 * total - n,
    {
        proof {
            lemma_pow2_unfold(k + 1);
        }
        n = n * 2;
        proof {
            k = k + 1;
        }
    }
    Some(n)
}

/// What the hash function of the table format makes of the bytes `data`.
pub uninterp spec fn sfhash_digest(data: Seq<u8>) -> u32;

/// `sfhash::digest`: the hash of a byte slice. The contract claims only that
/// the hash is a function of the bytes, and names it.
#[verifier::external_body]
fn digest(data: &[u8]) -> (hash: u32)
    ensures
        hash == sfhash_digest(data@),
{
    sfhash::digest(data)
}

/// The number by which a key is placed among the buckets, for the keys that
/// can be placed: an integer stands for itself, a text for the hash of its
/// bytes.
pub open spec fn key_number(key: FieldView) -> Option<int> {
    match key {
        FieldView::Integer(n) => Some(n as int),
        FieldView::BigInt(n) => Some(n as int),
        FieldView::Text(text) => Some(sfhash_digest(encode_utf8(text)) as int),
        _ => None,
    }
}

/// The slot of the number `n` among `buckets` buckets.
pub fn slot_of(n: i64, buckets: usize) -> (slot: usize)
    requires
        0 < buckets <= MAX_BUCKETS,
    ensures
        slot == (n as int) % (buckets as int),
{
    let b: i64 = buckets as i64;
    if n >= 0 {
        (n % b) as usize
    } else {
        let magnitude: u64 = if n == i64::MIN {
            0x8000_0000_0000_0000
        } else {
            (-n) as u64
        };
        let rest: u64 = magnitude % (buckets as u64);
        proof {
            let q = (magnitude as int) / (buckets as int);
            assert(magnitude as int == q * (buckets as int) + rest) by {
                vstd::arithmetic::div_mod::lemma_fundamental_div_mod(
                    magnitude as int,
                    buckets as int,
                );
            }
            if rest == 0 {
                assert(n as int == (-q) * (buckets as int) + 0) by (nonlinear_arith)
                    requires
                        n as int == -(magnitude as int),
                        magnitude as int == q * (buckets as int) + 0,
                ;
                lemma_fundamental_div_mod_converse(n as int, buckets as int, -q, 0);
            } else {
                assert(n as int == (-q - 1) * (buckets as int) + (buckets - rest)) by (nonlinear_arith)
                    requires
                        n as int == -(magnitude as int),
                        magnitude as int == q * (buckets as int) + rest,
                ;
                lemma_fundamental_div_mod_converse(
                    n as int,
                    buckets as int,
                    -q - 1,
                    buckets - rest,
                );
            }
        }
        if rest == 0 {
            0
        } else {
            buckets - (rest as usize)
        }
    }
}

/// The slot of a row with the primary key `key` among the `buckets` buckets
/// of the table called `table`. A key that is neither an integer nor a text
/// is refused.
pub fn primary_key_slot(table: &str, key: &Field, buckets: usize) -> (slot: Result<usize, ModError>)
    requires
        0 < buckets <= MAX_BUCKETS,
    ensures
        match key_number(key@) {
            Some(n) => slot == Ok::<usize, ModError>((n % (buckets as int)) as usize),
            None => slot matches Err(e) && e@ == ModErrorView::NonIntegerPrimaryKey(table@),
        },
{
    match key {
        Field::Integer(n) => Ok(slot_of(*n as i64, buckets)),
        Field::BigInt(n) => Ok(slot_of(*n, buckets)),
        Field::Text(text) => {
            let hash = digest(text.as_str().as_bytes());
            Ok(slot_of(hash as i64, buckets))
        },
        _ => Err(ModError::NonIntegerPrimaryKey(String::from_str(table))),
    }
}

} // verus!
