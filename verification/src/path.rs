//! Asset paths: a text that names an asset of a mod is rewritten into the
//! path under which the game finds the file.

use vstd::prelude::*;
use crate::lu_mod::Mod;
use crate::text::{chars_of, joined, replace_all, replaced, strip_prefix};

verus! {

/// `base` followed by `part`, with one `/` between them where `base` does
/// not end in one. A `part` that begins with `/` stands alone.
pub open spec fn path_join(base: Seq<char>, part: Seq<char>) -> Seq<char> {
    if part.len() > 0 && part[0] == '/' {
        part
    } else if base.len() == 0 || base.last() == '/' {
        base + part
    } else {
        base + seq!['/'] + part
    }
}

/// The path from the place of the asset's kind to the mods. The path of an
/// icon runs through the folder of textures and back: the game takes it in
/// that form, so it is not shortened.
pub open spec fn asset_base(asset: Seq<char>) -> Seq<char> {
    if "PHYSICS:"@.is_prefix_of(asset) {
        "../../mods"@
    } else if "ICON:"@.is_prefix_of(asset) {
        "../../textures/../../mods"@
    } else {
        "../mods"@
    }
}

/// The path of the asset within its package.
pub open spec fn asset_rest(asset: Seq<char>) -> Seq<char> {
    if "PHYSICS:"@.is_prefix_of(asset) {
        asset.skip("PHYSICS:"@.len() as int)
    } else if "ICON:"@.is_prefix_of(asset) {
        asset.skip("ICON:"@.len() as int)
    } else {
        asset
    }
}

/// What a text cell reads once rewritten for a mod of the package `dir`: a
/// text that begins with `ASSET:` becomes the path to the asset, written
/// with backslashes; any other text stays as it is.
pub open spec fn rewritten(dir: Seq<char>, contents: Seq<char>) -> Seq<char> {
    if "ASSET:"@.is_prefix_of(contents) {
        let asset = contents.skip("ASSET:"@.len() as int);
        replaced(
            path_join(path_join(asset_base(asset), dir), asset_rest(asset)),
            "/"@,
            "\\"@,
        )
    } else {
        contents
    }
}

/// The asset as an icon: `ASSET:` becomes `ASSET:ICON:` unless it is that
/// already; a text that names no asset stays as it is.
pub open spec fn icon_path(path: Seq<char>) -> Seq<char> {
    if "ASSET:ICON:"@.is_prefix_of(path) {
        path
    } else if "ASSET:"@.is_prefix_of(path) {
        "ASSET:ICON:"@ + path.skip("ASSET:"@.len() as int)
    } else {
        path
    }
}

/// Rewriting a text that names no asset changes nothing, however often it
/// is done.
pub proof fn lemma_rewrite_idempotent(dir: Seq<char>, contents: Seq<char>)
    requires
        !"ASSET:"@.is_prefix_of(contents),
    ensures
        rewritten(dir, contents) == contents,
        rewritten(dir, rewritten(dir, contents)) == rewritten(dir, contents),
{
}

/// A path that is joined to a part that begins with a dot or a slash
/// begins with a dot or a slash.
proof fn lemma_join_start(base: Seq<char>, part: Seq<char>)
    requires
        base.len() > 0,
        base[0] == '.' || base[0] == '/',
    ensures
        path_join(base, part).len() > 0,
        path_join(base, part)[0] == '.' || path_join(base, part)[0] == '/',
{
}

/// The path of an asset begins with a dot or a backslash, so it names no
/// asset itself.
pub proof fn lemma_rewritten_is_plain(dir: Seq<char>, contents: Seq<char>)
    requires
        "ASSET:"@.is_prefix_of(contents),
    ensures
        !"ASSET:"@.is_prefix_of(rewritten(dir, contents)),
{
    reveal_strlit("ASSET:");
    reveal_strlit("../../mods");
    reveal_strlit("../../textures/../../mods");
    reveal_strlit("../mods");
    reveal_strlit("/");
    reveal_strlit("\\");
    let asset = contents.skip("ASSET:"@.len() as int);
    let base = asset_base(asset);
    assert(base.len() > 0 && base[0] == '.');
    lemma_join_start(base, dir);
    let inner = path_join(base, dir);
    lemma_join_start(inner, asset_rest(asset));
    let path = path_join(inner, asset_rest(asset));
    let out = replaced(path, "/"@, "\\"@);
    assert(out == rewritten(dir, contents));
    if path[0] == '/' {
        assert(path.subrange(0, 1) =~= "/"@);
        assert(out[0] == '\\');
    } else {
        if "/"@.is_prefix_of(path) {
            assert(path.subrange(0, 1)[0] == '/');
        }
        assert(out[0] == '.');
    }
    if "ASSET:"@.is_prefix_of(out) {
        assert(out.subrange(0, "ASSET:"@.len() as int)[0] == 'A');
    }
}

/// Rewriting a text a second time changes nothing: what is rewritten once
/// at the making of a row stays as it is when the row is resolved.
pub proof fn lemma_rewrite_settles(dir: Seq<char>, contents: Seq<char>)
    ensures
        rewritten(dir, rewritten(dir, contents)) == rewritten(dir, contents),
{
    if "ASSET:"@.is_prefix_of(contents) {
        lemma_rewritten_is_plain(dir, contents);
    }
}

/// Joins two parts of a path.
pub fn join_path(base: &str, part: &str) -> (out: String)
    ensures
        out@ == path_join(base@, part@),
{
    let b = chars_of(base);
    let p = chars_of(part);
    if p.len() > 0 && p[0] == '/' {
        String::from_str(part)
    } else if b.len() == 0 || b[b.len() - 1] == '/' {
        joined(base, part)
    } else {
        let mut out = String::from_str(base);
        out.push('/');
        out.append(part);
        assert(out@ == base@ + seq!['/'] + part@);
        out
    }
}

/// Rewrites a text cell of `lu_mod`.
pub fn convert_path_specifier(lu_mod: &Mod, contents: &str) -> (out: String)
    ensures
        out@ == rewritten(lu_mod@.dir, contents@),
{
    match strip_prefix(contents, "ASSET:") {
        Some(asset) => {
            let (base, rest) = match strip_prefix(asset.as_str(), "PHYSICS:") {
                Some(physics) => ("../../mods", physics),
                None => match strip_prefix(asset.as_str(), "ICON:") {
                    Some(icon) => ("../../textures/../../mods", icon),
                    None => ("../mods", asset),
                },
            };
            let to_package = join_path(base, lu_mod.dir.as_str());
            let path = join_path(to_package.as_str(), rest.as_str());
            replace_all(path.as_str(), "/", "\\")
        },
        None => String::from_str(contents),
    }
}

/// Marks an asset as an icon.
pub fn as_icon_path(path: &str) -> (out: String)
    ensures
        out@ == icon_path(path@),
{
    match strip_prefix(path, "ASSET:ICON:") {
        Some(_) => String::from_str(path),
        None => match strip_prefix(path, "ASSET:") {
            Some(rest) => joined("ASSET:ICON:", rest.as_str()),
            None => String::from_str(path),
        },
    }
}

} // verus!
