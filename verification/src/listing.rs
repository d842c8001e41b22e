//! The listing the `list_dir` tool returns: a directory tree as read from the
//! file system, walked three levels deep with the entries of each directory
//! sorted by name and hidden entries skipped.
use vstd::prelude::*;
use crate::order::{
    in_order, is_permutation, lemma_is_stable_order, lemma_stable_order_sorts, sorted_order,
    stable_order,
};
use crate::text::{append_str, decimal, from_chars, join, join_lines, push_decimal, to_chars};

verus! {

/// One entry of a directory as read from the file system.
#[derive(Debug)]
pub struct DirNode {
    pub name: String,
    pub is_dir: bool,
    /// The size of a file in bytes, when its metadata could be read.
    pub size: Option<u64>,
    /// The entries of a directory in the order they were read; empty when
    /// it could not be read or was not read.
    pub children: Vec<DirNode>,
}

/// The line that marks a listing cut short.
pub open spec fn truncation_marker() -> Seq<char> {
    "...(条目过多，已截断)"@
}

/// Names that start with a dot are hidden.
pub open spec fn hidden(name: Seq<char>) -> bool {
    name.len() > 0 && name[0] == '.'
}

/// The line of one entry: a folder mark or indentation, the name, and the
/// size of a file when it is known.
pub open spec fn entry_line(n: DirNode) -> Seq<char> {
    (if n.is_dir {
        "📁 "@
    } else {
        "   "@
    }) + n.name@ + (if !n.is_dir && n.size is Some {
        " ("@ + decimal(n.size->0 as nat) + ")"@
    } else {
        Seq::<char>::empty()
    })
}

/// The names of entries, the keys they are sorted by.
pub open spec fn names(nodes: Seq<DirNode>) -> Seq<Seq<char>> {
    nodes.map_values(|n: DirNode| n.name@)
}

/// The entries of a directory sorted by name (stably).
pub open spec fn sorted_nodes(nodes: Seq<DirNode>) -> Seq<DirNode> {
    stable_order(names(nodes), false).map_values(|i: usize| nodes[i as int])
}

/// The most entries a listing holds.
pub open spec fn entry_limit() -> nat {
    200
}

/// A walk's state: the lines written so far, and whether the listing was cut
/// short (its last line is then the truncation mark).
pub type WalkState = (Seq<Seq<char>>, bool);

/// The state a walk reaches through a directory with entries `nodes` and
/// `level` levels left: nothing happens when no level is left or the listing
/// was already cut; otherwise the sorted entries are taken in turn.
pub open spec fn listing(nodes: Seq<DirNode>, level: nat, st: WalkState) -> WalkState
    decreases level, 1nat, 0nat,
{
    if level == 0 || st.1 {
        st
    } else {
        listing_items(sorted_nodes(nodes), level, st)
    }
}

/// The state a walk reaches through the entries `items` in turn: a hidden
/// entry is skipped; an entry that would be past the limit cuts the listing
/// with the truncation mark; any other gets its line, and a directory is then
/// walked one level deeper.
pub open spec fn listing_items(items: Seq<DirNode>, level: nat, st: WalkState) -> WalkState
    decreases level, 0nat, items.len(),
{
    if items.len() == 0 {
        st
    } else {
        let before = listing_items(items.drop_last(), level, st);
        let it = items.last();
        if before.1 || hidden(it.name@) {
            before
        } else if before.0.len() >= entry_limit() {
            (before.0.push(truncation_marker()), true)
        } else if it.is_dir && level > 0 {
            listing(it.children@, (level - 1) as nat, (before.0.push(entry_line(it)), false))
        } else {
            (before.0.push(entry_line(it)), false)
        }
    }
}

/// The lines of a three-level walk of a directory with entries `nodes`.
pub open spec fn listing_lines(nodes: Seq<DirNode>) -> Seq<Seq<char>> {
    listing(nodes, 3, (seq![], false)).0
}

/// The text `list_dir` returns for a directory whose entries are `nodes`:
/// the lines of a three-level walk, one per line.
pub open spec fn listing_text(nodes: Seq<DirNode>) -> Seq<char> {
    join(listing_lines(nodes), "\n"@)
}

/// A walk state within the limit: at most 200 entry lines, or exactly 200
/// followed by the truncation mark once the listing is cut.
pub open spec fn within_limit(st: WalkState) -> bool {
    ||| (!st.1 && st.0.len() <= entry_limit() && marker_free(st.0))
    ||| (st.1 && st.0.len() == entry_limit() + 1 && st.0.last() == truncation_marker()
        && marker_free(st.0.drop_last()))
}

/// No line is the truncation mark.
pub open spec fn marker_free(lines: Seq<Seq<char>>) -> bool {
    forall|k: int| 0 <= k < lines.len() ==> #[trigger] lines[k] != truncation_marker()
}

/// An entry's line never reads as the truncation mark: it starts with a
/// folder mark or a space, the mark with a dot.
proof fn lemma_entry_line_not_marker(n: DirNode)
    ensures
        entry_line(n) != truncation_marker(),
{
    reveal_strlit("📁 ");
    reveal_strlit("   ");
    reveal_strlit("...(条目过多，已截断)");
    assert(truncation_marker()[0] == '.');
    if n.is_dir {
        assert(entry_line(n)[0] == "📁 "@[0]);
    } else {
        assert(entry_line(n)[0] == "   "@[0]);
    }
}

proof fn lemma_listing_within_limit(nodes: Seq<DirNode>, level: nat, st: WalkState)
    requires
        within_limit(st),
    ensures
        within_limit(listing(nodes, level, st)),
    decreases level, 1nat, 0nat,
{
    if !(level == 0 || st.1) {
        lemma_items_within_limit(sorted_nodes(nodes), level, st);
    }
}

proof fn lemma_items_within_limit(items: Seq<DirNode>, level: nat, st: WalkState)
    requires
        within_limit(st),
    ensures
        within_limit(listing_items(items, level, st)),
    decreases level, 0nat, items.len(),
{
    if items.len() > 0 {
        lemma_items_within_limit(items.drop_last(), level, st);
        let before = listing_items(items.drop_last(), level, st);
        let it = items.last();
        if !(before.1 || hidden(it.name@)) {
            if before.0.len() >= entry_limit() {
                assert(before.0.push(truncation_marker()).drop_last() =~= before.0);
            } else {
                let l = before.0.push(entry_line(it));
                lemma_entry_line_not_marker(it);
                assert forall|k: int| 0 <= k < l.len() implies #[trigger] l[k] != truncation_marker() by {
                    if k < before.0.len() {
                        assert(l[k] == before.0[k]);
                    }
                }
                if it.is_dir && level > 0 {
                    lemma_listing_within_limit(it.children@, (level - 1) as nat, (l, false));
                }
            }
        }
    }
}

/// A listing never holds more than 200 entries: at most 200 lines, or 200
/// lines and the truncation mark when entries were left out; the mark is
/// never anywhere else.
pub proof fn lemma_listing_bounded(nodes: Seq<DirNode>)
    ensures
        listing_lines(nodes).len() <= 201,
        forall|k: int|
            0 <= k < listing_lines(nodes).len() && #[trigger] listing_lines(nodes)[k] == truncation_marker()
                ==> k == 200,
        listing_lines(nodes).len() == 201 ==> listing_lines(nodes).last()
            == truncation_marker(),
{
    let r = listing(nodes, 3, (seq![], false));
    lemma_listing_within_limit(nodes, 3, (seq![], false));
    assert forall|k: int| 0 <= k < r.0.len() && #[trigger] r.0[k] == truncation_marker() implies k == 200 by {
        if r.1 && k < 200 {
            assert(r.0.drop_last()[k] == r.0[k]);
        }
    }
}

/// `n` is reachable from the entries `nodes` within `level` levels through
/// visible entries only: it is a visible entry of `nodes`, or is reachable
/// one level deeper from a visible directory among them.
pub open spec fn visible_within(n: DirNode, nodes: Seq<DirNode>, level: nat) -> bool
    decreases level,
{
    if level == 0 {
        false
    } else {
        exists|i: int|
            0 <= i < nodes.len() && !hidden(#[trigger] nodes[i].name@) && (nodes[i] == n || (
            nodes[i].is_dir && visible_within(n, nodes[i].children@, (level - 1) as nat)))
    }
}

/// Each directory within `level` levels holds no more entries than a
/// vector can.
pub open spec fn fits(nodes: Seq<DirNode>, level: nat) -> bool
    decreases level,
{
    if level == 0 {
        true
    } else {
        nodes.len() <= usize::MAX && forall|i: int|
            0 <= i < nodes.len() ==> fits(#[trigger] nodes[i].children@, (level - 1) as nat)
    }
}

proof fn lemma_visible_not_hidden(n: DirNode, nodes: Seq<DirNode>, level: nat)
    requires
        visible_within(n, nodes, level),
    ensures
        !hidden(n.name@),
    decreases level,
{
    let i = choose|i: int|
        0 <= i < nodes.len() && !hidden(#[trigger] nodes[i].name@) && (nodes[i] == n || (
        nodes[i].is_dir && visible_within(n, nodes[i].children@, (level - 1) as nat)));
    if nodes[i] != n {
        lemma_visible_not_hidden(n, nodes[i].children@, (level - 1) as nat);
    }
}

/// Every line is the truncation mark or the line of an entry that `good`
/// accepts.
spec fn lines_named(lines: Seq<Seq<char>>, good: spec_fn(DirNode) -> bool) -> bool {
    forall|k: int|
        0 <= k < lines.len() ==> #[trigger] lines[k] == truncation_marker() || exists|n: DirNode|
            good(n) && lines[k] == entry_line(n)
}

/// A visible entry is accepted, and so is what a walk below it may reach.
spec fn item_named(it: DirNode, level: nat, good: spec_fn(DirNode) -> bool) -> bool {
    !hidden(it.name@) ==> good(it) && (it.is_dir ==> fits(it.children@, (level - 1) as nat) && forall|
        n: DirNode,
    | #[trigger] visible_within(n, it.children@, (level - 1) as nat) ==> good(n))
}

proof fn lemma_walk_named(nodes: Seq<DirNode>, level: nat, st: WalkState, good: spec_fn(DirNode) -> bool)
    requires
        fits(nodes, level),
        lines_named(st.0, good),
        forall|n: DirNode| #[trigger] visible_within(n, nodes, level) ==> good(n),
    ensures
        lines_named(listing(nodes, level, st).0, good),
    decreases level, 1nat, 0nat,
{
    if !(level == 0 || st.1) {
        let items = sorted_nodes(nodes);
        let p = stable_order(names(nodes), false);
        lemma_stable_order_sorts(names(nodes), false);
        assert forall|j: int| 0 <= j < items.len() implies item_named(#[trigger] items[j], level, good) by {
            let i = p[j] as int;
            assert(items[j] == nodes[i]);
            if !hidden(items[j].name@) {
                assert(visible_within(items[j], nodes, level));
                if items[j].is_dir {
                    assert(fits(nodes[i].children@, (level - 1) as nat));
                    assert forall|n: DirNode| #[trigger] visible_within(n, items[j].children@, (level - 1) as nat) implies good(n) by {
                        assert(visible_within(n, nodes, level));
                    }
                }
            }
        }
        lemma_items_named(items, level, st, good);
    }
}

proof fn lemma_items_named(items: Seq<DirNode>, level: nat, st: WalkState, good: spec_fn(DirNode) -> bool)
    requires
        level > 0,
        lines_named(st.0, good),
        forall|j: int| 0 <= j < items.len() ==> item_named(#[trigger] items[j], level, good),
    ensures
        lines_named(listing_items(items, level, st).0, good),
    decreases level, 0nat, items.len(),
{
    if items.len() > 0 {
        let rest = items.drop_last();
        assert forall|j: int| 0 <= j < rest.len() implies item_named(#[trigger] rest[j], level, good) by {
            assert(rest[j] == items[j]);
        }
        lemma_items_named(rest, level, st, good);
        let before = listing_items(rest, level, st);
        let it = items.last();
        assert(item_named(items[items.len() - 1], level, good));
        if !(before.1 || hidden(it.name@)) {
            if before.0.len() >= entry_limit() {
                let l = before.0.push(truncation_marker());
                assert forall|k: int| 0 <= k < l.len() implies #[trigger] l[k] == truncation_marker() || exists|n: DirNode|
                    good(n) && l[k] == entry_line(n) by {
                    if k < before.0.len() {
                        assert(l[k] == before.0[k]);
                    }
                }
            } else {
                let l = before.0.push(entry_line(it));
                assert forall|k: int| 0 <= k < l.len() implies #[trigger] l[k] == truncation_marker() || exists|n: DirNode|
                    good(n) && l[k] == entry_line(n) by {
                    if k < before.0.len() {
                        assert(l[k] == before.0[k]);
                    } else {
                        assert(good(it) && l[k] == entry_line(it));
                    }
                }
                if it.is_dir {
                    lemma_walk_named(it.children@, (level - 1) as nat, (l, false), good);
                }
            }
        }
    }
}

/// Hidden entries are skipped at every depth: each line of a listing is the
/// truncation mark or the line of an entry that is not hidden and is
/// reached through directories that are not hidden either.
pub proof fn lemma_listing_shows_only_visible(nodes: Seq<DirNode>)
    requires
        fits(nodes, 3),
    ensures
        forall|k: int|
            0 <= k < listing_lines(nodes).len() ==> #[trigger] listing_lines(nodes)[k]
                == truncation_marker() || exists|n: DirNode|
                visible_within(n, nodes, 3) && !hidden(n.name@) && listing_lines(nodes)[k]
                    == entry_line(n),
{
    let good = |n: DirNode| visible_within(n, nodes, 3) && !hidden(n.name@);
    assert forall|n: DirNode| #[trigger] visible_within(n, nodes, 3) implies good(n) by {
        lemma_visible_not_hidden(n, nodes, 3);
    }
    assert(lines_named(Seq::<Seq<char>>::empty(), good));
    lemma_walk_named(nodes, 3, (seq![], false), good);
}

/// `b` starts with the lines of `a`.
spec fn extends(a: Seq<Seq<char>>, b: Seq<Seq<char>>) -> bool {
    a.len() <= b.len() && forall|k: int| 0 <= k < a.len() ==> #[trigger] b[k] == a[k]
}

proof fn lemma_walk_extends(nodes: Seq<DirNode>, level: nat, st: WalkState)
    ensures
        extends(st.0, listing(nodes, level, st).0),
        st.1 ==> listing(nodes, level, st) == st,
    decreases level, 1nat, 0nat,
{
    if !(level == 0 || st.1) {
        lemma_items_extends(sorted_nodes(nodes), level, st);
    }
}

proof fn lemma_items_extends(items: Seq<DirNode>, level: nat, st: WalkState)
    ensures
        extends(st.0, listing_items(items, level, st).0),
        st.1 ==> listing_items(items, level, st) == st,
    decreases level, 0nat, items.len(),
{
    if items.len() > 0 {
        lemma_items_extends(items.drop_last(), level, st);
        let before = listing_items(items.drop_last(), level, st);
        let it = items.last();
        if !(before.1 || hidden(it.name@)) && before.0.len() < entry_limit() && it.is_dir && level > 0 {
            lemma_walk_extends(it.children@, (level - 1) as nat, (before.0.push(entry_line(it)), false));
        }
    }
}

/// Every entry reachable from `nodes` through visible entries has its line
/// among `lines`.
spec fn all_listed(nodes: Seq<DirNode>, level: nat, lines: Seq<Seq<char>>) -> bool {
    forall|n: DirNode| #[trigger] visible_within(n, nodes, level) ==> lines.contains(entry_line(n))
}

/// A visible entry has its line among `lines`, and so has every entry that
/// a walk below it reaches.
spec fn item_listed(it: DirNode, level: nat, lines: Seq<Seq<char>>) -> bool {
    !hidden(it.name@) ==> lines.contains(entry_line(it)) && (it.is_dir ==> all_listed(
        it.children@,
        (level - 1) as nat,
        lines,
    ))
}

proof fn lemma_listed_kept(nodes: Seq<DirNode>, level: nat, a: Seq<Seq<char>>, b: Seq<Seq<char>>)
    requires
        all_listed(nodes, level, a),
        extends(a, b),
    ensures
        all_listed(nodes, level, b),
{
    assert forall|n: DirNode| #[trigger] visible_within(n, nodes, level) implies b.contains(entry_line(n)) by {
        let k = choose|k: int| 0 <= k < a.len() && a[k] == entry_line(n);
        assert(b[k] == a[k]);
    }
}

proof fn lemma_walk_complete(nodes: Seq<DirNode>, level: nat, st: WalkState)
    requires
        fits(nodes, level),
        !listing(nodes, level, st).1,
    ensures
        all_listed(nodes, level, listing(nodes, level, st).0),
    decreases level, 1nat, 0nat,
{
    if level > 0 {
        let items = sorted_nodes(nodes);
        let p = stable_order(names(nodes), false);
        let r = listing(nodes, level, st).0;
        lemma_stable_order_sorts(names(nodes), false);
        assert forall|j: int| 0 <= j < items.len() implies fits(#[trigger] items[j].children@, (level - 1) as nat) by {
            assert(items[j] == nodes[p[j] as int]);
        }
        lemma_items_complete(items, level, st);
        assert forall|n: DirNode| #[trigger] visible_within(n, nodes, level) implies r.contains(entry_line(n)) by {
            let i = choose|i: int|
                0 <= i < nodes.len() && !hidden(#[trigger] nodes[i].name@) && (nodes[i] == n || (
                nodes[i].is_dir && visible_within(n, nodes[i].children@, (level - 1) as nat)));
            crate::order::lemma_permutation_onto(p, nodes.len(), i as usize);
            let j = choose|j: int| 0 <= j < p.len() && p[j] == i as usize;
            assert(items[j] == nodes[i]);
            assert(item_listed(items[j], level, r));
        }
    }
}

proof fn lemma_items_complete(items: Seq<DirNode>, level: nat, st: WalkState)
    requires
        level > 0,
        forall|j: int| 0 <= j < items.len() ==> fits(#[trigger] items[j].children@, (level - 1) as nat),
        !listing_items(items, level, st).1,
    ensures
        forall|j: int|
            0 <= j < items.len() ==> item_listed(#[trigger] items[j], level, listing_items(items, level, st).0),
    decreases level, 0nat, items.len(),
{
    if items.len() > 0 {
        let rest = items.drop_last();
        let before = listing_items(rest, level, st);
        let it = items.last();
        let r = listing_items(items, level, st).0;
        lemma_items_extends(rest, level, st);
        assert(!before.1);
        assert forall|j: int| 0 <= j < rest.len() implies fits(#[trigger] rest[j].children@, (level - 1) as nat) by {
            assert(rest[j] == items[j]);
        }
        lemma_items_complete(rest, level, st);
        if !hidden(it.name@) {
            assert(before.0.len() < entry_limit());
            let l = before.0.push(entry_line(it));
            if it.is_dir {
                assert(fits(items[items.len() - 1].children@, (level - 1) as nat));
                lemma_walk_extends(it.children@, (level - 1) as nat, (l, false));
                lemma_walk_complete(it.children@, (level - 1) as nat, (l, false));
            }
            assert(extends(before.0, r));
            assert(r[before.0.len() as int] == entry_line(it));
        }
        assert(extends(before.0, r));
        assert forall|j: int| 0 <= j < items.len() implies item_listed(#[trigger] items[j], level, r) by {
            if j < rest.len() {
                assert(rest[j] == items[j]);
                assert(item_listed(rest[j], level, before.0));
                if !hidden(items[j].name@) {
                    let k = choose|k: int| 0 <= k < before.0.len() && before.0[k] == entry_line(items[j]);
                    assert(r[k] == before.0[k]);
                    if items[j].is_dir {
                        lemma_listed_kept(items[j].children@, (level - 1) as nat, before.0, r);
                    }
                }
            }
        }
    }
}

/// A listing that is not cut short is complete: every entry that is not
/// hidden and is reached through directories that are not hidden, within
/// three levels, has its line.
pub proof fn lemma_listing_complete(nodes: Seq<DirNode>)
    requires
        fits(nodes, 3),
        !listing_lines(nodes).contains(truncation_marker()),
    ensures
        forall|n: DirNode| #[trigger] visible_within(n, nodes, 3) ==> listing_lines(nodes).contains(entry_line(n)),
{
    let r = listing(nodes, 3, (seq![], false));
    lemma_listing_within_limit(nodes, 3, (seq![], false));
    if r.1 {
        assert(r.0[r.0.len() - 1] == truncation_marker());
    }
    lemma_walk_complete(nodes, 3, (seq![], false));
}

proof fn lemma_flat_items(items: Seq<DirNode>, level: nat, st: WalkState)
    requires
        !st.1,
        st.0.len() + items.len() <= entry_limit(),
        forall|j: int| 0 <= j < items.len() ==> !(#[trigger] items[j]).is_dir && !hidden(items[j].name@),
    ensures
        listing_items(items, level, st) == (st.0 + items.map_values(|n: DirNode| entry_line(n)), false),
    decreases items.len(),
{
    if items.len() == 0 {
        assert(st.0 + items.map_values(|n: DirNode| entry_line(n)) =~= st.0);
    } else {
        let rest = items.drop_last();
        assert forall|j: int| 0 <= j < rest.len() implies !(#[trigger] rest[j]).is_dir && !hidden(rest[j].name@) by {
            assert(rest[j] == items[j]);
        }
        lemma_flat_items(rest, level, st);
        assert(!items[items.len() - 1].is_dir);
        assert(st.0 + items.map_values(|n: DirNode| entry_line(n)) =~= (st.0 + rest.map_values(
            |n: DirNode| entry_line(n),
        )).push(entry_line(items.last())));
    }
}

/// A directory of at most 200 files, none hidden, is listed as one line per
/// file in name order, files of equal names in the order they were read:
/// the order `q` that sorts the names stably gives the lines.
pub proof fn lemma_flat_listing_in_name_order(nodes: Seq<DirNode>, q: Seq<usize>)
    requires
        nodes.len() <= 200,
        forall|i: int| 0 <= i < nodes.len() ==> !(#[trigger] nodes[i]).is_dir && !hidden(nodes[i].name@),
        is_permutation(q, nodes.len()),
        in_order(names(nodes), false, q),
    ensures
        listing_lines(nodes) == Seq::new(nodes.len(), |k: int| entry_line(nodes[q[k] as int])),
{
    lemma_is_stable_order(names(nodes), false, q);
    let items = sorted_nodes(nodes);
    assert forall|j: int| 0 <= j < items.len() implies !(#[trigger] items[j]).is_dir && !hidden(items[j].name@) by {
        assert(items[j] == nodes[q[j] as int]);
    }
    lemma_flat_items(items, 3, (seq![], false));
    assert(Seq::<Seq<char>>::empty() + items.map_values(|n: DirNode| entry_line(n)) =~= Seq::new(
        nodes.len(),
        |k: int| entry_line(nodes[q[k] as int]),
    ));
}

/// The character sequences of lines.
pub open spec fn lines_of(v: Seq<Vec<char>>) -> Seq<Seq<char>> {
    v.map_values(|l: Vec<char>| l@)
}

fn entry_line_chars(n: &DirNode) -> (r: Vec<char>)
    ensures
        r@ == entry_line(*n),
{
    let mut out = if n.is_dir {
        to_chars("📁 ")
    } else {
        to_chars("   ")
    };
    append_str(&mut out, n.name.as_str());
    if !n.is_dir {
        match n.size {
            Some(s) => {
                append_str(&mut out, " (");
                push_decimal(&mut out, s);
                append_str(&mut out, ")");
            },
            None => {},
        }
    }
    out
}

fn is_hidden(name: &str) -> (r: bool)
    ensures
        r == hidden(name@),
{
    let v = to_chars(name);
    v.len() > 0 && v[0] == '.'
}

fn push_line(out: &mut Vec<Vec<char>>, line: Vec<char>)
    ensures
        lines_of(final(out)@) == lines_of(old(out)@).push(line@),
{
    let ghost before = lines_of(out@);
    out.push(line);
    assert(lines_of(out@) =~= before.push(line@));
}

/// Walks the directory whose entries are `nodes` with `level` levels left,
/// appending its lines to `out`; `cut` tells whether the listing was cut
/// short.
fn walk_into(nodes: &Vec<DirNode>, level: usize, out: &mut Vec<Vec<char>>, cut: &mut bool)
    ensures
        (lines_of(final(out)@), *final(cut)) == listing(nodes@, level as nat, (lines_of(old(out)@), *old(cut))),
    decreases level, 1nat, 0nat,
{
    if level == 0 || *cut {
        return;
    }
    let ghost st0: WalkState = (lines_of(out@), *cut);
    let mut keys: Vec<Vec<char>> = Vec::new();
    let mut i: usize = 0;
    while i < nodes.len()
        invariant
            i <= nodes.len(),
            keys@.len() == i,
            forall|t: int| 0 <= t < i ==> #[trigger] keys@[t]@ == nodes@[t].name@,
        decreases nodes.len() - i,
    {
        keys.push(to_chars(nodes[i].name.as_str()));
        i += 1;
    }
    let ghost kv = keys@.map_values(|k: Vec<char>| k@);
    assert(kv =~= names(nodes@));
    let p = sorted_order(&keys, false);
    proof {
        lemma_is_stable_order(names(nodes@), false, p@);
    }
    let ghost sorted = sorted_nodes(nodes@);
    assert(sorted.len() == p@.len());
    let mut k: usize = 0;
    while k < p.len()
        invariant
            k <= p.len(),
            level > 0,
            is_permutation(p@, nodes@.len()),
            sorted == sorted_nodes(nodes@),
            sorted == p@.map_values(|i: usize| nodes@[i as int]),
            (lines_of(out@), *cut) == listing_items(sorted.subrange(0, k as int), level as nat, st0),
        decreases p.len() - k,
    {
        let idx = p[k];
        let node = &nodes[idx];
        proof {
            assert(sorted[k as int] == nodes@[idx as int]);
            assert(sorted.subrange(0, k + 1).drop_last() =~= sorted.subrange(0, k as int));
            assert(sorted.subrange(0, k + 1).last() == *node);
        }
        if !*cut && !is_hidden(node.name.as_str()) {
            if out.len() >= 200 {
                push_line(out, to_chars("...(条目过多，已截断)"));
                *cut = true;
            } else {
                push_line(out, entry_line_chars(node));
                if node.is_dir {
                    walk_into(&node.children, level - 1, out, cut);
                }
            }
        }
        k += 1;
    }
    assert(sorted.subrange(0, p.len() as int) =~= sorted);
}

/// The text `list_dir` returns for a directory whose entries, as read, are
/// `nodes`.
pub fn list_output(nodes: &Vec<DirNode>) -> (r: String)
    ensures
        r@ == listing_text(nodes@),
{
    let mut out: Vec<Vec<char>> = Vec::new();
    let mut cut = false;
    assert(lines_of(out@) =~= Seq::<Seq<char>>::empty());
    walk_into(nodes, 3, &mut out, &mut cut);
    let nl = to_chars("\n");
    let all = join_lines(&out, &nl);
    from_chars(&all)
}

} // verus!
