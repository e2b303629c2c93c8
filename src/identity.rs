//! What the canonical serialization guarantees about object identity.
use crate::digest::{is_digest, is_hex_digit};
use crate::name::is_entry_name;
use crate::object::{
    blob_id, blob_text, commit_id, commit_text, commit_wf, entry_line, entry_wf, parent_line,
    parent_prefix, tree_header, tree_id, tree_lines, tree_text, tree_wf, CommitView, EntryView,
};
use vstd::prelude::*;

verus! {

/// Equal objects serialize to the same text and so get the same identifier:
/// serialization and hashing depend on the object's value alone.
pub proof fn serialization_is_deterministic(
    b1: Seq<char>,
    b2: Seq<char>,
    t1: Seq<EntryView>,
    t2: Seq<EntryView>,
    c1: CommitView,
    c2: CommitView,
)
    ensures
        b1 == b2 ==> blob_text(b1) == blob_text(b2) && blob_id(b1) == blob_id(b2),
        t1 == t2 ==> tree_text(t1) == tree_text(t2) && tree_id(t1) == tree_id(t2),
        c1 == c2 ==> commit_text(c1) == commit_text(c2) && commit_id(c1) == commit_id(c2),
{
}

/// Blobs with equal contents have equal identifiers; blobs with different
/// contents have different serializations, hence different digests barring
/// a collision of the hash function.
pub proof fn content_addressing(b1: Seq<char>, b2: Seq<char>)
    ensures
        b1 == b2 ==> blob_id(b1) == blob_id(b2),
        b1 != b2 ==> blob_text(b1) != blob_text(b2),
{
    if b1 != b2 && blob_text(b1) == blob_text(b2) {
        assert(b1 =~= blob_text(b1).subrange(5, blob_text(b1).len() as int));
        assert(b2 =~= blob_text(b2).subrange(5, blob_text(b2).len() as int));
    }
}

/// The layout of one entry line of a well-formed entry.
pub proof fn lemma_entry_line_shape(e: EntryView)
    requires
        entry_wf(e),
    ensures
        entry_line(e).len() == 47 + e.2.len(),
        forall|j: int| 0 <= j < 40 ==> #[trigger] entry_line(e)[5 + j] == e.1[j],
        forall|j: int| 0 <= j < e.2.len() ==> #[trigger] entry_line(e)[46 + j] == e.2[j],
        entry_line(e)[46 + e.2.len() as int] == '\n',
{
    assert(e.0.len() == 4);
}

/// A single line.
pub proof fn lemma_one_line(x: EntryView)
    ensures
        tree_lines(seq![x]) == entry_line(x),
{
    let s = seq![x];
    assert(s.drop_last() =~= Seq::<EntryView>::empty());
    assert(s.last() == x);
    assert(tree_lines(s.drop_last()) == Seq::<char>::empty());
    assert(tree_lines(s) =~= entry_line(x));
}

/// Two lines in a row.
pub proof fn lemma_two_lines(x: EntryView, y: EntryView)
    ensures
        tree_lines(seq![x, y]) == entry_line(x) + entry_line(y),
{
    assert(seq![x, y].drop_last() =~= seq![x]);
    lemma_one_line(x);
}

/// The order of entries is part of a tree's identity: two entries with
/// different names give different serializations in the two orders.
pub proof fn entry_order_matters(x: EntryView, y: EntryView)
    requires
        entry_wf(x),
        entry_wf(y),
        x.2 != y.2,
    ensures
        tree_text(seq![x, y]) != tree_text(seq![y, x]),
{
    let lx = entry_line(x);
    let ly = entry_line(y);
    lemma_two_lines(x, y);
    lemma_two_lines(y, x);
    lemma_entry_line_shape(x);
    lemma_entry_line_shape(y);
    let txy = tree_text(seq![x, y]);
    let tyx = tree_text(seq![y, x]);
    if txy == tyx {
        let a = lx + ly;
        let b = ly + lx;
        assert(a =~= txy.subrange(5, txy.len() as int));
        assert(b =~= tyx.subrange(5, tyx.len() as int));
        if lx.len() == ly.len() {
            assert(lx =~= a.subrange(0, lx.len() as int));
            assert(ly =~= b.subrange(0, ly.len() as int));
            assert(x.2 =~= lx.subrange(46, lx.len() - 1));
            assert(y.2 =~= ly.subrange(46, ly.len() - 1));
        } else if lx.len() < ly.len() {
            let k = lx.len() - 1;
            assert(a[k] == '\n');
            assert(b[k] == y.2[k - 46]);
        } else {
            let k = ly.len() - 1;
            assert(b[k] == '\n');
            assert(a[k] == x.2[k - 46]);
        }
    }
}

/// Splitting the entries splits the lines.
pub proof fn lemma_tree_lines_append(a: Seq<EntryView>, b: Seq<EntryView>)
    ensures
        tree_lines(a + b) == tree_lines(a) + tree_lines(b),
    decreases b.len(),
{
    if b.len() == 0 {
        assert(a + b =~= a);
        assert(tree_lines(a) + tree_lines(b) =~= tree_lines(a));
    } else {
        lemma_tree_lines_append(a, b.drop_last());
        assert((a + b).drop_last() =~= a + b.drop_last());
        assert((a + b).last() == b.last());
        assert(tree_lines(a + b) =~= tree_lines(a) + tree_lines(b));
    }
}

/// A changed child digest changes the tree's serialization: when a blob or
/// subtree that an entry refers to changes, so does its digest (barring a
/// collision), and with it the text and identifier of every tree above it.
pub proof fn child_digest_change_changes_tree(es: Seq<EntryView>, i: int, d: Seq<char>)
    requires
        tree_wf(es),
        0 <= i < es.len(),
        is_digest(d),
        d != es[i].1,
    ensures
        tree_text(es) != tree_text(es.update(i, (es[i].0, d, es[i].2))),
{
    let e = es[i];
    let e2 = (e.0, d, e.2);
    let es2 = es.update(i, e2);
    assert(entry_wf(es[i]));
    assert(entry_wf(e2));
    let pre = es.take(i);
    let post = es.skip(i + 1);
    assert(es =~= pre + seq![e] + post);
    assert(es2 =~= pre + seq![e2] + post);
    lemma_tree_lines_append(pre + seq![e], post);
    lemma_tree_lines_append(pre, seq![e]);
    lemma_tree_lines_append(pre + seq![e2], post);
    lemma_tree_lines_append(pre, seq![e2]);
    lemma_one_line(e);
    lemma_one_line(e2);
    lemma_entry_line_shape(e);
    lemma_entry_line_shape(e2);
    assert(!(e.1 =~= d));
    let j = choose|j: int| 0 <= j < 40 && e.1[j] != d[j];
    let p = tree_header().len() + tree_lines(pre).len() + 5 + j;
    let t1 = tree_text(es);
    let t2 = tree_text(es2);
    assert(t1 =~= tree_header() + tree_lines(pre) + entry_line(e) + tree_lines(post));
    assert(t2 =~= tree_header() + tree_lines(pre) + entry_line(e2) + tree_lines(post));
    assert(t1[p] == entry_line(e)[5 + j]);
    assert(t2[p] == entry_line(e2)[5 + j]);
}

/// A changed tree digest changes the commit's serialization, so a change
/// anywhere below a commit's tree reaches the commit's identifier.
pub proof fn tree_digest_change_changes_commit(c: CommitView, d: Seq<char>)
    requires
        commit_wf(c),
        is_digest(d),
        d != c.0,
    ensures
        commit_text(c) != commit_text((d, c.1)),
{
    assert(!(c.0 =~= d));
    let j = choose|j: int| 0 <= j < 40 && c.0[j] != d[j];
    assert(commit_text(c)[12 + j] == c.0[j]);
    assert(commit_text((d, c.1))[12 + j] == d[j]);
}

/// Whether some line of `t` starts with `parent `.
pub open spec fn has_parent_line(t: Seq<char>) -> bool {
    exists|i: int|
        0 <= i && i + 7 <= t.len() && (i == 0 || t[i - 1] == '\n') && #[trigger] t.subrange(i, i + 7)
            == parent_prefix()
}

/// A commit with a parent serializes as the root form of its tree followed
/// by the line `parent <digest>` holding the parent's digest verbatim; the
/// root form has no line that starts with `parent `.
pub proof fn parent_line_holds_parent_digest(c: CommitView)
    requires
        commit_wf(c),
    ensures
        c.1 matches Some(p) ==> commit_text(c) == commit_text((c.0, None)) + parent_line(p),
        !has_parent_line(commit_text((c.0, None))),
{
    let r = commit_text((c.0, None));
    assert(r.len() == 53);
    if let Some(p) = c.1 {
        assert(commit_text(c) =~= r + parent_line(p));
    }
    if has_parent_line(r) {
        let i = choose|i: int|
            0 <= i && i + 7 <= r.len() && (i == 0 || r[i - 1] == '\n') && #[trigger] r.subrange(i, i + 7)
                == parent_prefix();
        assert(r.subrange(i, i + 7)[0] == r[i]);
        if i == 0 {
            assert(r[0] == 'c');
        } else if i == 7 {
            assert(r[7] == 't');
        } else if 12 < i && i <= 52 {
            assert(is_hex_digit(c.0[i - 13]));
            assert(r[i - 1] == c.0[i - 13]);
        } else {
            assert(1 <= i <= 12);
            assert(r[i - 1] != '\n');
        }
    }
}

/// The empty tree serializes to `tree\n` and the empty blob to `blob\n`.
pub proof fn empty_objects_serialize_to_headers()
    ensures
        tree_text(Seq::empty()) == seq!['t', 'r', 'e', 'e', '\n'],
        blob_text(Seq::empty()) == seq!['b', 'l', 'o', 'b', '\n'],
        tree_text(Seq::empty()).len() > 0,
        blob_text(Seq::empty()).len() > 0,
        tree_wf(Seq::empty()),
{
    assert(tree_text(Seq::empty()) =~= seq!['t', 'r', 'e', 'e', '\n']);
    assert(blob_text(Seq::empty()) =~= seq!['b', 'l', 'o', 'b', '\n']);
}

} // verus!
