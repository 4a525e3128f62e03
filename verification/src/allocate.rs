//! Free primary keys: the lowest positive integers that no row of a table
//! has for its key.

use vstd::prelude::*;
use vstd::set_lib::{lemma_int_range, lemma_len_subset, set_int_range};
use crate::error::{ModError, ModErrorView};
use crate::schema::Table;
use crate::value::{Field, FieldView};

verus! {

/// Some row has the integer `v` for its key.
pub open spec fn is_used(keys: Seq<FieldView>, v: int) -> bool {
    exists|i: int| 0 <= i < keys.len() && #[trigger] keys[i] == FieldView::Integer(v as i32)
        && i32::MIN <= v <= i32::MAX
}

/// Every key is an integer.
pub open spec fn all_integer(keys: Seq<FieldView>) -> bool {
    forall|i: int| 0 <= i < keys.len() ==> #[trigger] keys[i] is Integer
}

/// `ids` are the lowest positive integers that are no key, in rising order:
/// each is positive and unused, each is greater than the one before, and no
/// unused positive integer below one of them is left out.
pub open spec fn lowest_free(ids: Seq<i32>, keys: Seq<FieldView>) -> bool {
    &&& forall|k: int| 0 <= k < ids.len() ==> #[trigger] ids[k] >= 1 && !is_used(keys, ids[k] as int)
    &&& forall|j: int, k: int| 0 <= j < k < ids.len() ==> #[trigger] ids[j] < #[trigger] ids[k]
    &&& forall|k: int, v: int|
        #![trigger ids[k], is_used(keys, v)]
        0 <= k < ids.len() && 1 <= v < ids[k] && !is_used(keys, v) ==> exists|j: int|
            0 <= j < k && #[trigger] ids[j] == v
}

/// The lowest free identifiers of a table are determined by its keys and
/// their number: the same keys give the same identifiers.
pub proof fn lemma_lowest_free_unique(a: Seq<i32>, b: Seq<i32>, keys: Seq<FieldView>)
    requires
        lowest_free(a, keys),
        lowest_free(b, keys),
        a.len() == b.len(),
    ensures
        a == b,
{
    assert forall|k: int| 0 <= k < a.len() implies a[k] == b[k] by {
        lemma_lowest_free_prefix(a, b, keys, k);
    }
    assert(a =~= b);
}

proof fn lemma_lowest_free_prefix(a: Seq<i32>, b: Seq<i32>, keys: Seq<FieldView>, k: int)
    requires
        lowest_free(a, keys),
        lowest_free(b, keys),
        a.len() == b.len(),
        0 <= k < a.len(),
    ensures
        a[k] == b[k],
    decreases k,
{
    if k > 0 {
        lemma_lowest_free_prefix(a, b, keys, k - 1);
    }
    lemma_not_below(a, b, keys, k);
    lemma_not_below(b, a, keys, k);
}

/// With equal items just below `k`, `a[k]` is not below `b[k]`.
proof fn lemma_not_below(a: Seq<i32>, b: Seq<i32>, keys: Seq<FieldView>, k: int)
    requires
        lowest_free(a, keys),
        lowest_free(b, keys),
        a.len() == b.len(),
        0 <= k < a.len(),
        k > 0 ==> a[k - 1] == b[k - 1],
    ensures
        b[k] <= a[k],
{
    if a[k] < b[k] {
        let v = a[k] as int;
        assert(a[k] >= 1 && !is_used(keys, v));
        let j = choose|j: int| 0 <= j < k && #[trigger] b[j] == v;
        assert(0 <= j < k && b[j] == v);
        if j == k - 1 {
            assert(a[k - 1] < a[k]);
        } else {
            assert(b[j] < b[k - 1]);
            assert(a[k - 1] < a[k]);
        }
    }
}

/// No new identifier is the key of a row, and no two of them are the same.
pub proof fn lemma_no_collision(ids: Seq<i32>, keys: Seq<FieldView>)
    requires
        lowest_free(ids, keys),
    ensures
        forall|k: int| 0 <= k < ids.len() ==> !is_used(keys, #[trigger] ids[k] as int),
        forall|k: int| 0 <= k < ids.len() ==> !keys.contains(FieldView::Integer(#[trigger] ids[k])),
        ids.no_duplicates(),
{
    assert forall|k: int| 0 <= k < ids.len() implies !keys.contains(
        FieldView::Integer(#[trigger] ids[k]),
    ) by {
        assert(ids[k] >= 1 && !is_used(keys, ids[k] as int));
        if keys.contains(FieldView::Integer(ids[k])) {
            let at = keys.index_of(FieldView::Integer(ids[k]));
            assert(keys[at] == FieldView::Integer(ids[k]));
        }
    }
    assert forall|j: int, k: int| 0 <= j < ids.len() && 0 <= k < ids.len() && j != k implies ids[j]
        != ids[k] by {
        if j < k {
            assert(ids[j] < ids[k]);
        } else {
            assert(ids[k] < ids[j]);
        }
    }
}

/// The first new identifier is the least positive integer that is the key
/// of no row.
pub proof fn lemma_first_is_least(ids: Seq<i32>, keys: Seq<FieldView>)
    requires
        lowest_free(ids, keys),
        ids.len() > 0,
    ensures
        ids[0] >= 1,
        !is_used(keys, ids[0] as int),
        forall|v: int| 1 <= v < ids[0] ==> is_used(keys, v),
{
    assert(ids[0] >= 1 && !is_used(keys, ids[0] as int));
    assert forall|v: int| 1 <= v < ids[0] implies is_used(keys, v) by {
        if !is_used(keys, v) {
            let j = choose|j: int| 0 <= j < 0 && #[trigger] ids[j] == v;
            assert(0 <= j < 0);
        }
    }
}

/// Whether `v` is among `used`.
fn holds(used: &Vec<i32>, v: i32) -> (found: bool)
    ensures
        found == used@.contains(v),
{
    let mut i: usize = 0;
    while i < used.len()
        invariant
            i <= used.len(),
            forall|j: int| 0 <= j < i ==> used@[j] != v,
        decreases used.len() - i,
    {
        if used[i] == v {
            return true;
        }
        i += 1;
    }
    false
}

/// The integer keys of the table, or the refusal of a key that is none.
fn integer_keys(table: &Table) -> (keys: Result<Vec<i32>, ModError>)
    ensures
        match keys {
            Ok(v) => v@.len() == table@.primary_keys.len() && forall|i: int|
                0 <= i < v@.len() ==> #[trigger] table@.primary_keys[i] == FieldView::Integer(
                    v@[i],
                ),
            Err(e) => !all_integer(table@.primary_keys) && e@
                == ModErrorView::NonIntegerPrimaryKey(table@.name),
        },
{
    let mut out: Vec<i32> = Vec::new();
    let mut i: usize = 0;
    while i < table.primary_keys.len()
        invariant
            i <= table.primary_keys@.len(),
            out@.len() == i,
            forall|j: int|
                0 <= j < i ==> #[trigger] table@.primary_keys[j] == FieldView::Integer(out@[j]),
        decreases table.primary_keys.len() - i,
    {
        match &table.primary_keys[i] {
            Field::Integer(id) => {
                out.push(*id);
            },
            _ => {
                assert(!(table@.primary_keys[i as int] is Integer));
                return Err(ModError::NonIntegerPrimaryKey(table.name.clone()));
            },
        }
        i += 1;
    }
    Ok(out)
}

/// The `count` lowest positive integers that no row of the table has for its
/// key, in rising order. A table with a key that is no integer is refused.
pub fn find_available_ids(table: &Table, count: usize) -> (ids: Result<Vec<i32>, ModError>)
    requires
        count + table@.primary_keys.len() < i32::MAX,
    ensures
        match ids {
            Ok(v) => all_integer(table@.primary_keys) && v@.len() == count && lowest_free(
                v@,
                table@.primary_keys,
            ),
            Err(e) => !all_integer(table@.primary_keys) && e@
                == ModErrorView::NonIntegerPrimaryKey(table@.name),
        },
{
    let used = match integer_keys(table) {
        Ok(used) => used,
        Err(e) => {
            return Err(e);
        },
    };
    let ghost keys = table@.primary_keys;
    let mut available: Vec<i32> = Vec::new();
    let mut potential_id: i32 = 1;
    let ghost mut seen: Set<int> = Set::empty();
    while available.len() < count
        invariant
            keys == table@.primary_keys,
            used@.len() == keys.len(),
            forall|i: int| 0 <= i < used@.len() ==> #[trigger] keys[i] == FieldView::Integer(used@[i]),
            count + keys.len() < i32::MAX,
            available@.len() <= count,
            1 <= potential_id,
            potential_id - 1 == available@.len() + seen.len(),
            seen.finite(),
            forall|i: int| seen.contains(i) ==> 0 <= i < used@.len() && used@[i] < potential_id,
            forall|k: int| 0 <= k < available@.len() ==> available@[k] < potential_id,
            lowest_free(available@, keys),
            forall|v: int|
                1 <= v < potential_id && !is_used(keys, v) ==> exists|j: int|
                    0 <= j < available@.len() && #[trigger] available@[j] == v,
        decreases count + keys.len() + 1 - potential_id,
    {
        proof {
            lemma_int_range(0, used@.len() as int);
            assert(seen.subset_of(set_int_range(0, used@.len() as int)));
            lemma_len_subset(seen, set_int_range(0, used@.len() as int));
        }
        let ghost before = available@;
        let taken = holds(&used, potential_id);
        proof {
            if taken {
                let at = used@.index_of(potential_id);
                assert(keys[at] == FieldView::Integer(potential_id));
                assert(is_used(keys, potential_id as int));
                assert(!seen.contains(at));
                seen = seen.insert(at);
            } else {
                if is_used(keys, potential_id as int) {
                    let at = choose|i: int|
                        0 <= i < keys.len() && #[trigger] keys[i] == FieldView::Integer(
                            potential_id,
                        );
                    assert(used@[at] == potential_id);
                }
            }
        }
        if !taken {
            available.push(potential_id);
            proof {
                assert forall|k: int, v: int|
                    #![trigger available@[k], is_used(keys, v)]
                    0 <= k < available@.len() && 1 <= v < available@[k] && !is_used(
                        keys,
                        v,
                    ) implies exists|j: int| 0 <= j < k && #[trigger] available@[j] == v by {
                    if k < before.len() {
                        assert(before[k] == available@[k]);
                        let j = choose|j: int| 0 <= j < k && #[trigger] before[j] == v;
                        assert(available@[j] == v);
                    } else {
                        let j = choose|j: int| 0 <= j < before.len() && #[trigger] before[j] == v;
                        assert(available@[j] == v);
                    }
                }
                assert forall|k: int| 0 <= k < available@.len() implies #[trigger] available@[k]
                    >= 1 && !is_used(keys, available@[k] as int) by {
                    if k < before.len() {
                        assert(before[k] == available@[k]);
                    }
                }
            }
        }
        proof {
            assert forall|v: int| 1 <= v < potential_id + 1 && !is_used(keys, v) implies exists|
                j: int,
            | 0 <= j < available@.len() && #[trigger] available@[j] == v by {
                if v < potential_id {
                    let j = choose|j: int| 0 <= j < before.len() && #[trigger] before[j] == v;
                    assert(available@[j] == v);
                } else {
                    assert(available@[available@.len() - 1] == v);
                }
            }
        }
        potential_id += 1;
    }
    Ok(available)
}

} // verus!
