//! The textual side of the project-skeleton map: given the relative paths
//! that a directory walk collected, sorts them and renders the tree with
//! box-drawing connectors and sibling-continuation guides. The walk itself
//! is I/O and happens outside the library.
//!
//! The sibling-continuation computation mirrors a scheme whose "last
//! sibling" detection across mixed depths looks overcomplicated; it is kept
//! as it is rather than second-guessed.

use vstd::prelude::*;

use vstd::string::StringExecFns;

use crate::text::{
    chars_string, lemma_lex_le_total, lemma_lex_le_trans, lex_le, lex_le_exec, split_by,
    split_chars, str_chars, str_eq, vec_skip_chars, vec_take_chars,
};

verus! {

/// A character that separates path components.
pub open spec fn is_path_sep(c: char) -> bool {
    c == '/' || c == '\\'
}

/// How many separator characters a path holds: its depth in the tree.
pub open spec fn sep_count(s: Seq<char>) -> int
    decreases s.len(),
{
    if s.len() == 0 {
        0
    } else {
        sep_count(s.drop_last()) + if is_path_sep(s.last()) {
            1int
        } else {
            0int
        }
    }
}

/// The position of the last forward slash in `p`, or -1 if there is none.
pub open spec fn last_slash(p: Seq<char>) -> int
    decreases p.len(),
{
    if p.len() == 0 {
        -1
    } else if p.last() == '/' {
        p.len() - 1
    } else {
        last_slash(p.drop_last())
    }
}

pub proof fn lemma_last_slash_range(p: Seq<char>)
    ensures
        -1 <= last_slash(p) < p.len(),
    decreases p.len(),
{
    if p.len() > 0 && p.last() != '/' {
        lemma_last_slash_range(p.drop_last());
    }
}

/// The parent of a normalized relative path: everything before the last
/// slash, or nothing when the path has a single component.
pub open spec fn parent_spec(p: Seq<char>) -> Seq<char> {
    if last_slash(p) < 0 {
        Seq::empty()
    } else {
        p.take(last_slash(p))
    }
}

/// The last component of a normalized relative path: everything after the
/// last slash.
pub open spec fn file_name_spec(p: Seq<char>) -> Seq<char> {
    p.skip(last_slash(p) + 1)
}

/// Path components joined with forward slashes.
pub open spec fn join_slash(ps: Seq<Seq<char>>) -> Seq<char>
    decreases ps.len(),
{
    if ps.len() == 0 {
        Seq::empty()
    } else if ps.len() == 1 {
        ps.last()
    } else {
        join_slash(ps.drop_last()) + seq!['/'] + ps.last()
    }
}

/// The ancestor of `p` at the given depth: its first `depth + 1` components
/// joined with slashes, or `p` itself when it is not that deep.
pub open spec fn ancestor_spec(p: Seq<char>, depth: int) -> Seq<char> {
    let parts = split_by(p, '/', '\\');
    if depth < parts.len() {
        join_slash(parts.take(depth + 1))
    } else {
        p
    }
}

/// The views of the collected entries: each relative path with its
/// directory flag.
pub open spec fn entry_views(s: Seq<(String, bool)>) -> Seq<(Seq<char>, bool)> {
    Seq::new(s.len(), |i: int| (s[i].0@, s[i].1))
}

/// Counts the separator characters of a path.
pub fn count_seps(path: &str) -> (r: usize)
    ensures
        r == sep_count(path@),
{
    let cs = str_chars(path);
    let mut r: usize = 0;
    let mut i: usize = 0;
    proof {
        assert(cs@.take(0) =~= Seq::<char>::empty());
    }
    while i < cs.len()
        invariant
            i <= cs@.len(),
            cs@ == path@,
            r == sep_count(path@.take(i as int)),
            r <= i,
        decreases cs@.len() - i,
    {
        proof {
            assert(path@.take(i + 1).drop_last() =~= path@.take(i as int));
        }
        let c = cs[i];
        if c == '/' || c == '\\' {
            r = r + 1;
        }
        i += 1;
    }
    proof {
        assert(path@.take(path@.len() as int) =~= path@);
    }
    r
}

/// The position right after the last forward slash, or zero if none occurs.
#[verifier::loop_isolation(false)]
fn after_last_slash(cs: &Vec<char>) -> (r: usize)
    ensures
        r == last_slash(cs@) + 1,
{
    let mut k: usize = cs.len();
    proof {
        assert(cs@.take(cs@.len() as int) =~= cs@);
    }
    while k > 0
        invariant
            k <= cs@.len(),
            last_slash(cs@) == last_slash(cs@.take(k as int)),
        decreases k,
    {
        proof {
            assert(cs@.take(k as int).drop_last() =~= cs@.take(k - 1));
            assert(cs@.take(k as int).last() == cs@[k - 1]);
        }
        if cs[k - 1] == '/' {
            return k;
        }
        k -= 1;
    }
    proof {
        assert(cs@.take(0) =~= Seq::<char>::empty());
    }
    0
}

/// The parent of a relative path, as the tree bookkeeping uses it.
pub fn get_parent(path: &str) -> (r: String)
    ensures
        r@ == parent_spec(path@),
{
    let cs = str_chars(path);
    proof {
        lemma_last_slash_range(path@);
    }
    let k = after_last_slash(&cs);
    if k == 0 {
        proof {
            assert(Seq::<char>::empty() =~= parent_spec(path@));
        }
        String::new()
    } else {
        let taken = vec_take_chars(&cs, k - 1);
        chars_string(&taken)
    }
}

/// The ancestor of a relative path at the given depth.
#[verifier::loop_isolation(false)]
pub fn get_ancestor(path: &str, depth: usize) -> (r: String)
    ensures
        r@ == ancestor_spec(path@, depth as int),
{
    let cs = str_chars(path);
    let parts = split_chars(&cs, '/', '\\');
    let ghost pv = parts.deep_view();
    if depth >= parts.len() {
        return path.to_owned();
    }
    let mut acc = chars_string(&parts[0]);
    proof {
        assert(pv[0] =~= parts@[0]@);
        assert(pv.take(1).last() == pv[0]);
        assert(acc@ == join_slash(pv.take(1)));
    }
    let mut i: usize = 1;
    while i <= depth
        invariant
            1 <= i <= depth + 1,
            depth < pv.len(),
            acc@ == join_slash(pv.take(i as int)),
        decreases depth + 1 - i,
    {
        proof {
            assert(pv.take(i + 1).drop_last() =~= pv.take(i as int));
            assert(pv.take(i + 1).last() == pv[i as int]);
            assert(pv[i as int] =~= parts@[i as int]@);
        }
        acc.append("/");
        let piece = chars_string(&parts[i]);
        acc.append(piece.as_str());
        proof {
            reveal_strlit("/");
            assert("/"@ =~= seq!['/']);
            assert(acc@ =~= join_slash(pv.take(i + 1)));
        }
        i += 1;
    }
    acc
}

/// The last component of a relative path.
pub fn file_name(path: &str) -> (r: String)
    ensures
        r@ == file_name_spec(path@),
{
    let cs = str_chars(path);
    proof {
        lemma_last_slash_range(path@);
    }
    let k = after_last_slash(&cs);
    let rest = vec_skip_chars(&cs, k);
    chars_string(&rest)
}

/// Walks the entries after `j` as the "last sibling at this depth" test
/// reads them: an entry of the same depth under the same parent means there
/// is a later sibling; a shallower entry ends the search.
pub open spec fn is_last_from(
    es: Seq<(Seq<char>, bool)>,
    parent: Seq<char>,
    d: int,
    j: int,
) -> bool
    decreases es.len() - j,
{
    if j < 0 || j >= es.len() {
        true
    } else if sep_count(es[j].0) == d && parent_spec(es[j].0) == parent {
        false
    } else if sep_count(es[j].0) < d {
        true
    } else {
        is_last_from(es, parent, d, j + 1)
    }
}

/// Whether the entry at `i` is the last of its siblings at depth `d`, as
/// the tree connectors count siblings.
pub open spec fn is_last_spec(es: Seq<(Seq<char>, bool)>, i: int, d: int) -> bool {
    is_last_from(es, parent_spec(es[i].0), d, i + 1)
}

/// Whether the entry at `current_idx` is the last of its siblings at the
/// given depth.
#[verifier::loop_isolation(false)]
pub fn is_last_at_depth(entries: &Vec<(String, bool)>, current_idx: usize, depth: usize) -> (r:
    bool)
    requires
        current_idx < entries@.len(),
    ensures
        r == is_last_spec(entry_views(entries@), current_idx as int, depth as int),
{
    let ghost es = entry_views(entries@);
    let _n = entries.len();
    let current_parent = get_parent(entries[current_idx].0.as_str());
    let mut j: usize = current_idx + 1;
    while j < entries.len()
        invariant
            current_idx < j <= entries@.len(),
            current_parent@ == parent_spec(es[current_idx as int].0),
            is_last_spec(es, current_idx as int, depth as int) == is_last_from(
                es,
                current_parent@,
                depth as int,
                j as int,
            ),
        decreases entries@.len() - j,
    {
        let entry_depth = count_seps(entries[j].0.as_str());
        let entry_parent = get_parent(entries[j].0.as_str());
        if entry_depth == depth && str_eq(entry_parent.as_str(), current_parent.as_str()) {
            return false;
        }
        if entry_depth < depth {
            return true;
        }
        j += 1;
    }
    true
}

/// Whether later entries continue a sibling run at depth `d` below the
/// entry at `i`: some later entry at least that deep shares the ancestor,
/// and some later entry of exactly that depth shares the ancestor's parent.
pub open spec fn has_more_siblings(es: Seq<(Seq<char>, bool)>, i: int, d: int) -> bool {
    let anc = ancestor_spec(es[i].0, d);
    &&& (exists|j: int|
        i < j < es.len() && sep_count((#[trigger] es[j]).0) >= d && ancestor_spec(es[j].0, d)
            == anc)
    &&& (exists|j: int|
        i < j < es.len() && sep_count((#[trigger] es[j]).0) == d && parent_spec(es[j].0)
            == parent_spec(anc))
}

/// The guide prefix of the entry at `i`: one column per ancestor depth, a
/// vertical guide where siblings continue and blank space where they do not.
pub open spec fn prefix_spec(es: Seq<(Seq<char>, bool)>, i: int, d: int) -> Seq<char>
    decreases d,
{
    if d <= 0 {
        Seq::empty()
    } else {
        prefix_spec(es, i, d - 1) + if has_more_siblings(es, i, d - 1) {
            "\u{2502}   "@
        } else {
            "    "@
        }
    }
}

/// The guide prefix of the entry at `current_idx`, one column per depth.
#[verifier::loop_isolation(false)]
pub fn build_prefix(entries: &Vec<(String, bool)>, current_idx: usize, depth: usize) -> (r: String)
    requires
        current_idx < entries@.len(),
    ensures
        r@ == prefix_spec(entry_views(entries@), current_idx as int, depth as int),
{
    let ghost es = entry_views(entries@);
    let _n = entries.len();
    let mut prefix = String::new();
    let mut d: usize = 0;
    while d < depth
        invariant
            d <= depth,
            prefix@ == prefix_spec(es, current_idx as int, d as int),
        decreases depth - d,
    {
        let anc = get_ancestor(entries[current_idx].0.as_str(), d);
        let anc_parent = get_parent(anc.as_str());
        let mut f1 = false;
        let mut j: usize = current_idx + 1;
        while j < entries.len() && !f1
            invariant
                current_idx < j <= entries@.len(),
                anc@ == ancestor_spec(es[current_idx as int].0, d as int),
                f1 ==> (exists|k: int|
                    current_idx < k < j && sep_count((#[trigger] es[k]).0) >= d && ancestor_spec(
                        es[k].0,
                        d as int,
                    ) == anc@),
                !f1 ==> (forall|k: int|
                    current_idx < k < j ==> !(sep_count((#[trigger] es[k]).0) >= d
                        && ancestor_spec(es[k].0, d as int) == anc@)),
            decreases entries@.len() - j,
        {
            let jd = count_seps(entries[j].0.as_str());
            if jd >= d {
                let janc = get_ancestor(entries[j].0.as_str(), d);
                if str_eq(janc.as_str(), anc.as_str()) {
                    f1 = true;
                    proof {
                        assert(sep_count(es[j as int].0) >= d && ancestor_spec(
                            es[j as int].0,
                            d as int,
                        ) == anc@);
                    }
                }
            }
            j += 1;
        }
        let mut f2 = false;
        let mut j: usize = current_idx + 1;
        while j < entries.len() && !f2
            invariant
                current_idx < j <= entries@.len(),
                anc@ == ancestor_spec(es[current_idx as int].0, d as int),
                anc_parent@ == parent_spec(anc@),
                f2 ==> (exists|k: int|
                    current_idx < k < j && sep_count((#[trigger] es[k]).0) == d && parent_spec(
                        es[k].0,
                    ) == parent_spec(anc@)),
                !f2 ==> (forall|k: int|
                    current_idx < k < j ==> !(sep_count((#[trigger] es[k]).0) == d && parent_spec(
                        es[k].0,
                    ) == parent_spec(anc@))),
            decreases entries@.len() - j,
        {
            let jd = count_seps(entries[j].0.as_str());
            if jd == d {
                let jpar = get_parent(entries[j].0.as_str());
                if str_eq(jpar.as_str(), anc_parent.as_str()) {
                    f2 = true;
                    proof {
                        assert(sep_count(es[j as int].0) == d && parent_spec(es[j as int].0)
                            == parent_spec(anc@));
                    }
                }
            }
            j += 1;
        }
        if f1 && f2 {
            prefix.append("\u{2502}   ");
        } else {
            prefix.append("    ");
        }
        proof {
            assert(f1 == (exists|k: int|
                current_idx < k < es.len() && sep_count((#[trigger] es[k]).0) >= d
                    && ancestor_spec(es[k].0, d as int) == anc@));
            assert(f2 == (exists|k: int|
                current_idx < k < es.len() && sep_count((#[trigger] es[k]).0) == d && parent_spec(
                    es[k].0,
                ) == parent_spec(anc@)));
            assert((f1 && f2) == has_more_siblings(es, current_idx as int, d as int));
            assert(prefix@ =~= prefix_spec(es, current_idx as int, d + 1));
        }
        d += 1;
    }
    prefix
}

/// One rendered line of the tree: guides, a connector that tells a last
/// sibling from a continuing one, the entry's name, and a slash after a
/// directory.
pub open spec fn tree_line(es: Seq<(Seq<char>, bool)>, i: int) -> Seq<char> {
    let d = sep_count(es[i].0);
    prefix_spec(es, i, d) + (if is_last_spec(es, i, d) {
        "\u{2514}\u{2500}\u{2500} "@
    } else {
        "\u{251c}\u{2500}\u{2500} "@
    }) + file_name_spec(es[i].0) + (if es[i].1 {
        "/"@
    } else {
        Seq::<char>::empty()
    }) + "\n"@
}

/// The first `n` entries, rendered in order.
pub open spec fn tree_lines(es: Seq<(Seq<char>, bool)>, n: int) -> Seq<char>
    decreases n,
{
    if n <= 0 {
        Seq::empty()
    } else {
        tree_lines(es, n - 1) + tree_line(es, n - 1)
    }
}

/// Renders the whole skeleton: the root's name and one line per entry.
#[verifier::loop_isolation(false)]
pub fn render_tree(root_name: &str, entries: &Vec<(String, bool)>) -> (r: String)
    ensures
        r@ == root_name@ + "/\n"@ + tree_lines(entry_views(entries@), entries@.len() as int),
{
    let ghost es = entry_views(entries@);
    let mut out = root_name.to_owned();
    out.append("/\n");
    let mut i: usize = 0;
    while i < entries.len()
        invariant
            i <= entries@.len(),
            out@ == root_name@ + "/\n"@ + tree_lines(es, i as int),
        decreases entries@.len() - i,
    {
        let depth = count_seps(entries[i].0.as_str());
        let is_last = is_last_at_depth(entries, i, depth);
        let prefix = build_prefix(entries, i, depth);
        out.append(prefix.as_str());
        if is_last {
            out.append("\u{2514}\u{2500}\u{2500} ");
        } else {
            out.append("\u{251c}\u{2500}\u{2500} ");
        }
        let name = file_name(entries[i].0.as_str());
        out.append(name.as_str());
        if entries[i].1 {
            out.append("/");
        }
        out.append("\n");
        proof {
            assert(out@ =~= root_name@ + "/\n"@ + tree_lines(es, i + 1));
        }
        i += 1;
    }
    out
}

/// The entries stand in lexicographic order of their paths.
pub open spec fn entries_sorted(s: Seq<(Seq<char>, bool)>) -> bool {
    forall|a: int, b: int| 0 <= a < b < s.len() ==> #[trigger] lex_le(s[a].0, s[b].0)
}

/// Where in the sorted prefix the entry at `i` belongs: the first position
/// whose entry does not order at or before it.
fn find_insert_pos(entries: &Vec<(String, bool)>, i: usize) -> (p: usize)
    requires
        i < entries@.len(),
    ensures
        p <= i,
        forall|k: int|
            0 <= k < p ==> lex_le(
                (#[trigger] entry_views(entries@)[k]).0,
                entry_views(entries@)[i as int].0,
            ),
        p < i ==> !lex_le(entry_views(entries@)[p as int].0, entry_views(entries@)[i as int].0),
{
    let ka = str_chars(entries[i].0.as_str());
    let mut p: usize = 0;
    while p < i
        invariant
            p <= i < entries@.len(),
            ka@ == entry_views(entries@)[i as int].0,
            forall|k: int|
                0 <= k < p ==> lex_le(
                    (#[trigger] entry_views(entries@)[k]).0,
                    entry_views(entries@)[i as int].0,
                ),
        decreases i - p,
    {
        let kb = str_chars(entries[p].0.as_str());
        if !lex_le_exec(&kb, &ka) {
            return p;
        }
        p += 1;
    }
    p
}

/// Sorts the entries by path, keeping exactly the collected entries: the
/// consistent order the rendering relies on.
#[verifier::loop_isolation(false)]
pub fn sort_entries(entries: &mut Vec<(String, bool)>)
    ensures
        entries_sorted(entry_views(final(entries)@)),
        final(entries)@.to_multiset() == old(entries)@.to_multiset(),
{
    broadcast use vstd::seq_lib::group_to_multiset_ensures;
    broadcast use vstd::multiset::group_multiset_axioms;

    if entries.len() < 2 {
        return;
    }
    let mut i: usize = 1;
    while i < entries.len()
        invariant
            1 <= i <= entries@.len(),
            entries@.to_multiset() == old(entries)@.to_multiset(),
            entries_sorted(entry_views(entries@).take(i as int)),
        decreases entries@.len() - i,
    {
        let ghost pre = entries@;
        let ghost ev = entry_views(entries@);
        let p = find_insert_pos(entries, i);
        proof {
            assert forall|k1: int, k2: int| 0 <= k1 < k2 < i implies lex_le(
                ev[k1].0,
                ev[k2].0,
            ) by {
                assert(ev.take(i as int)[k1] == ev[k1]);
                assert(ev.take(i as int)[k2] == ev[k2]);
                assert(lex_le(ev.take(i as int)[k1].0, ev.take(i as int)[k2].0));
            }
        }
        if p < i {
            proof {
                assert(!lex_le(ev[p as int].0, ev[i as int].0));
                lemma_lex_le_total(ev[p as int].0, ev[i as int].0);
                assert(lex_le(ev[i as int].0, ev[p as int].0));
            }
            let e = entries.remove(i);
            entries.insert(p, e);
            proof {
                let pi = p as int;
                let ii = i as int;
                let post = entries@;
                assert(post =~= pre.remove(ii).insert(pi, pre[ii]));
                assert(pre.contains(pre[ii]));
                assert(pre.to_multiset().count(pre[ii]) > 0);
                assert(pre.remove(ii).to_multiset() == pre.to_multiset().remove(pre[ii]));
                assert(post.to_multiset() =~= pre.to_multiset());
                let nv = entry_views(post);
                assert forall|a: int, b: int|
                    0 <= a < b < ii + 1 implies #[trigger] lex_le(nv[a].0, nv[b].0) by {
                    assert(forall|k: int| 0 <= k < pi ==> nv[k] == ev[k]);
                    assert(nv[pi] == ev[ii]);
                    assert(forall|k: int| pi < k <= ii ==> nv[k] == ev[k - 1]);
                    if b < pi {
                        assert(lex_le(ev[a].0, ev[b].0));
                    } else if b == pi {
                        assert(lex_le(ev[a].0, ev[ii].0));
                    } else if a < pi {
                        assert(lex_le(ev[a].0, ev[b - 1].0));
                    } else if a == pi {
                        if b - 1 == pi {
                            assert(lex_le(ev[ii].0, ev[pi].0));
                        } else {
                            assert(lex_le(ev[pi].0, ev[b - 1].0));
                            lemma_lex_le_trans(ev[ii].0, ev[pi].0, ev[b - 1].0);
                        }
                    } else {
                        assert(lex_le(ev[a - 1].0, ev[b - 1].0));
                    }
                }
                let tv = nv.take(ii + 1);
                assert forall|a: int, b: int|
                    0 <= a < b < tv.len() implies #[trigger] lex_le(tv[a].0, tv[b].0) by {
                    assert(tv[a] == nv[a]);
                    assert(tv[b] == nv[b]);
                    assert(lex_le(nv[a].0, nv[b].0));
                }
                assert(entries_sorted(tv));
            }
        } else {
            proof {
                let tv = entry_views(entries@).take(i + 1);
                assert forall|a: int, b: int|
                    0 <= a < b < tv.len() implies #[trigger] lex_le(tv[a].0, tv[b].0) by {
                    assert(tv[a] == ev[a]);
                    assert(tv[b] == ev[b]);
                    if b < i {
                        assert(lex_le(ev[a].0, ev[b].0));
                    } else {
                        assert(lex_le(ev[a].0, ev[i as int].0));
                    }
                }
                assert(entries_sorted(tv));
            }
        }
        i += 1;
    }
    proof {
        if entries@.len() > 0 {
            assert(entry_views(entries@).take(entries@.len() as int) =~= entry_views(entries@));
        }
    }
}

} // verus!
