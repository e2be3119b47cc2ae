//! Turning a request path into a filesystem path under the root directory.

use vstd::prelude::*;
use crate::rewrite::{rewrite_all, RewriteTable};
use crate::text::{chars_of, is_blank, is_blank_str, push_range, string_of};

verus! {

/// `suffix` joined onto `root` with one separator between them; no separator is
/// added when `root` is empty or already ends in `/`. Nothing is normalised.
pub open spec fn join_path(root: Seq<char>, suffix: Seq<char>) -> Seq<char> {
    if root.len() == 0 || root.last() == '/' {
        root + suffix
    } else {
        root + seq!['/'] + suffix
    }
}

/// The rules in force: none when no table is given.
pub open spec fn rules_of(table: Option<Seq<(Seq<char>, Seq<char>)>>) -> Seq<(Seq<char>, Seq<char>)> {
    match table {
        Some(rules) => rules,
        None => Seq::empty(),
    }
}

/// The path that request path `p` resolves to under `root` with `rules`: absent when `p`
/// is blank; otherwise `p` without its first character (the leading `/`), rewritten by
/// `rules`, and joined onto `root`.
pub open spec fn resolve_spec(
    p: Seq<char>,
    root: Seq<char>,
    rules: Seq<(Seq<char>, Seq<char>)>,
) -> Option<Seq<char>> {
    if is_blank(p) {
        None
    } else {
        Some(join_path(root, rewrite_all(p.drop_first(), rules)))
    }
}

/// The characters of an optional string.
pub open spec fn opt_view(r: Option<String>) -> Option<Seq<char>> {
    match r {
        Some(s) => Some(s@),
        None => None,
    }
}

/// Resolves `req_path` under `data_dir`, applying the rules of `encoding_map` in order.
pub fn path_from_req(req_path: &str, data_dir: &str, encoding_map: &RewriteTable) -> (r: Option<
    String,
>)
    ensures
        opt_view(r) == resolve_spec(req_path@, data_dir@, encoding_map@),
{
    if is_blank_str(req_path) {
        return None;
    }
    let cs = chars_of(req_path);
    let mut suffix: Vec<char> = Vec::new();
    push_range(&mut suffix, &cs, 1, cs.len());
    assert(suffix@ =~= req_path@.drop_first());
    let rewritten = encoding_map.apply(&suffix);
    let mut out = chars_of(data_dir);
    let ghost root = out@;
    if !(out.len() == 0 || out[out.len() - 1] == '/') {
        out.push('/');
    }
    push_range(&mut out, &rewritten, 0, rewritten.len());
    assert(rewritten@.subrange(0, rewritten@.len() as int) =~= rewritten@);
    assert(out@ =~= join_path(root, rewritten@));
    Some(string_of(&out))
}

/// Resolves `req_path` under `root`, with the rules of `rewrites` when a table is given.
pub fn resolve(req_path: &str, root: &str, rewrites: Option<&RewriteTable>) -> (r: Option<String>)
    ensures
        opt_view(r) == resolve_spec(
            req_path@,
            root@,
            rules_of(
                match rewrites {
                    Some(t) => Some(t@),
                    None => None,
                },
            ),
        ),
{
    match rewrites {
        Some(t) => path_from_req(req_path, root, t),
        None => {
            let empty = RewriteTable::new();
            path_from_req(req_path, root, &empty)
        },
    }
}

/// With no rules, a request path that is not blank resolves to the root joined with
/// the path minus its leading character.
pub proof fn law_resolve_without_rules(p: Seq<char>, root: Seq<char>)
    requires
        !is_blank(p),
    ensures
        resolve_spec(p, root, Seq::empty()) == Some(join_path(root, p.drop_first())),
{
}

/// A blank request path (empty, or whitespace only) resolves to nothing, whatever the rules.
pub proof fn law_blank_path_absent(
    p: Seq<char>,
    root: Seq<char>,
    rules: Seq<(Seq<char>, Seq<char>)>,
)
    requires
        is_blank(p),
    ensures
        resolve_spec(p, root, rules) is None,
{
}

/// An empty rewrite table resolves every request path exactly as no table does.
pub proof fn law_empty_table_is_no_table(
    p: Seq<char>,
    root: Seq<char>,
    table: Seq<(Seq<char>, Seq<char>)>,
)
    requires
        table.len() == 0,
    ensures
        resolve_spec(p, root, rules_of(Some(table))) == resolve_spec(p, root, rules_of(None)),
{
    assert(table =~= Seq::<(Seq<char>, Seq<char>)>::empty());
}

} // verus!
