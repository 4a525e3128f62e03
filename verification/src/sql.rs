//! Mods that patch the relational output with statements of their own.

use vstd::prelude::*;
use crate::dict::{lookup, stored};
use crate::error::{ModError, ModErrorView};
use crate::lu_mod::{Mod, ModView};
use crate::mod_context::ModContext;
use crate::path::{join_path, path_join};
use crate::text::{replace_all, replaced, strip_prefix};
use crate::value::{JsonValue, JsonView};

verus! {

/// What the `sql` value of a mod asks for: the path of the file that holds
/// the statements, where the value names one, and nothing where the value
/// holds the statements itself. A mod without the value, or with one that
/// is no string, is refused.
pub open spec fn sql_request(m: ModView) -> Result<Option<Seq<char>>, ModErrorView> {
    match lookup(m.values, "sql"@) {
        None => Err(ModErrorView::SqlValueMissing),
        Some(JsonView::String(s)) => if "INCLUDE:"@.is_prefix_of(s) {
            Ok(Some(path_join(m.dir, s.skip("INCLUDE:"@.len() as int))))
        } else {
            Ok(None)
        },
        Some(_) => Err(ModErrorView::SqlValueWrongType),
    }
}

/// The statements without the marks of a transaction: they are run inside
/// one, and transactions do not nest.
pub open spec fn without_transactions(sql: Seq<char>) -> Seq<char> {
    replaced(replaced(sql, "BEGIN TRANSACTION;"@, Seq::empty()), "COMMIT;"@, Seq::empty())
}

/// Statements that hold neither mark are run as they are.
pub proof fn lemma_without_marks_unchanged(sql: Seq<char>)
    requires
        forall|at: int| !crate::text::occurs_at(sql, "BEGIN TRANSACTION;"@, at),
        forall|at: int| !crate::text::occurs_at(sql, "COMMIT;"@, at),
    ensures
        without_transactions(sql) == sql,
{
    crate::text::lemma_replaced_without_occurrence(sql, "BEGIN TRANSACTION;"@, Seq::empty());
    crate::text::lemma_replaced_without_occurrence(sql, "COMMIT;"@, Seq::empty());
}

/// Looks at the `sql` value of an SQL mod. Where the value names a file, the
/// path of that file is handed back: its text is then to be stored with
/// `set_sql`.
pub fn apply_sql_mod(_mod_context: &ModContext, lu_mod: &mut Mod) -> (request: Result<
    Option<String>,
    ModError,
>)
    ensures
        final(lu_mod)@ == old(lu_mod)@,
        match sql_request(old(lu_mod)@) {
            Ok(Some(path)) => request matches Ok(Some(p)) && p@ == path,
            Ok(None) => request matches Ok(None),
            Err(e) => request matches Err(x) && x@ == e,
        },
{
    match lu_mod.values.get("sql") {
        None => Err(ModError::SqlValueMissing),
        Some(JsonValue::String(s)) => match strip_prefix(s.as_str(), "INCLUDE:") {
            Some(path) => Ok(Some(join_path(lu_mod.dir.as_str(), path.as_str()))),
            None => Ok(None),
        },
        Some(_) => Err(ModError::SqlValueWrongType),
    }
}

impl Mod {
    /// Stores `text` as the statements of the mod.
    pub fn set_sql(&mut self, text: String)
        ensures
            final(self)@ == (ModView {
                values: stored(old(self)@.values, "sql"@, JsonView::String(text@)),
                ..old(self)@
            }),
    {
        self.values.insert(String::from_str("sql"), JsonValue::String(text));
    }
}

/// Takes the marks of a transaction out of the statements.
pub fn strip_transactions(sql: &str) -> (out: String)
    ensures
        out@ == without_transactions(sql@),
{
    let opened = replace_all(sql, "BEGIN TRANSACTION;", "");
    proof {
        reveal_strlit("");
        assert(""@ =~= Seq::<char>::empty());
    }
    replace_all(opened.as_str(), "COMMIT;", "")
}

} // verus!
