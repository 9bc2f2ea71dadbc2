//! What holds of the display order whatever the listing: laws that
//! relate snapshots taken under different policies.

use vstd::prelude::*;
use crate::arrange::{
    arranged,
    directories_first,
    in_order,
    insert_point,
    insert_stable,
    is_directory,
    is_not_directory,
    is_shown,
    lemma_filter_one,
    lemma_insert_at,
    lemma_insert_point,
    lemma_lex_le_antisymmetric,
    lemma_lex_le_reflexive,
    lemma_lex_le_total,
    lemma_lex_le_transitive,
    lemma_sorted_permutes,
    lex_le,
    precedes,
    snapshot_of,
    sort_key,
    sorted_by,
};
use crate::file_item::{FileItem, FileType, SortBy, SortOrder};

verus! {

/// Of two entries at most one must stand before the other.
pub proof fn lemma_precedes_asymmetric(a: FileItem, b: FileItem, by: SortBy, order: SortOrder)
    requires
        precedes(a, b, by, order),
    ensures
        !precedes(b, a, by, order),
{
    lemma_lex_le_total(sort_key(a, by), sort_key(b, by));
}

/// Where `a` need not stand before `b`, nor `b` before `c`, `a` need
/// not stand before `c`.
pub proof fn lemma_not_precedes_transitive(
    a: FileItem,
    b: FileItem,
    c: FileItem,
    by: SortBy,
    order: SortOrder,
)
    requires
        !precedes(a, b, by, order),
        !precedes(b, c, by, order),
    ensures
        !precedes(a, c, by, order),
{
    match order {
        SortOrder::Ascending => {
            lemma_lex_le_transitive(sort_key(c, by), sort_key(b, by), sort_key(a, by));
        },
        SortOrder::Descending => {
            lemma_lex_le_transitive(sort_key(a, by), sort_key(b, by), sort_key(c, by));
        },
    }
}

/// In an ordered sequence nothing from the insertion point of `x`
/// on must stand before `x`.
proof fn lemma_beyond_insert_point(
    x: FileItem,
    t: Seq<FileItem>,
    j: int,
    by: SortBy,
    order: SortOrder,
)
    requires
        in_order(t, by, order),
        insert_point(x, t, by, order) <= j < t.len(),
    ensures
        !precedes(t[j], x, by, order),
{
    lemma_insert_point(x, t, by, order);
    let k = insert_point(x, t, by, order);
    if j > k {
        assert(!precedes(t[j], t[k], by, order));
        lemma_not_precedes_transitive(t[j], t[k], x, by, order);
    }
}

/// A stable insertion into an ordered sequence leaves it ordered.
pub proof fn lemma_insert_keeps_order(x: FileItem, t: Seq<FileItem>, by: SortBy, order: SortOrder)
    requires
        in_order(t, by, order),
    ensures
        in_order(insert_stable(x, t, by, order), by, order),
{
    lemma_insert_point(x, t, by, order);
    let k = insert_point(x, t, by, order);
    let r = t.insert(k, x);
    assert forall|i: int, j: int| 0 <= i < j < r.len() implies !precedes(
        #[trigger] r[j],
        #[trigger] r[i],
        by,
        order,
    ) by {
        if j == k {
            assert(r[i] == t[i]);
            lemma_precedes_asymmetric(t[i], x, by, order);
        } else if i == k {
            assert(r[j] == t[j - 1]);
            lemma_beyond_insert_point(x, t, j - 1, by, order);
        } else {
            let ti = if i < k { i } else { i - 1 };
            let tj = if j < k { j } else { j - 1 };
            assert(r[i] == t[ti] && r[j] == t[tj]);
            assert(!precedes(t[tj], t[ti], by, order));
        }
    }
}

/// A sorted sequence is ordered: no entry must stand before an
/// earlier one.
pub proof fn lemma_sorted_in_order(s: Seq<FileItem>, by: SortBy, order: SortOrder)
    ensures
        in_order(sorted_by(s, by, order), by, order),
    decreases s.len(),
{
    if s.len() > 0 {
        lemma_sorted_in_order(s.drop_first(), by, order);
        lemma_insert_keeps_order(s[0], sorted_by(s.drop_first(), by, order), by, order);
    }
}

/// Filtering after a stable insertion into an ordered sequence is
/// the stable insertion into the filtered sequence, if the new entry
/// passes the filter, and the filtered sequence if it does not.
proof fn lemma_insert_filter(
    x: FileItem,
    t: Seq<FileItem>,
    pred: spec_fn(FileItem) -> bool,
    by: SortBy,
    order: SortOrder,
)
    requires
        in_order(t, by, order),
    ensures
        insert_stable(x, t, by, order).filter(pred) == (if pred(x) {
            insert_stable(x, t.filter(pred), by, order)
        } else {
            t.filter(pred)
        }),
{
    lemma_insert_point(x, t, by, order);
    let k = insert_point(x, t, by, order);
    let head = t.subrange(0, k);
    let tail = t.subrange(k, t.len() as int);
    assert(t =~= head + tail);
    assert(t.insert(k, x) =~= (head + seq![x]) + tail);
    Seq::filter_distributes_over_add(head, tail, pred);
    Seq::filter_distributes_over_add(head + seq![x], tail, pred);
    Seq::filter_distributes_over_add(head, seq![x], pred);
    lemma_filter_one(x, pred);
    let fh = head.filter(pred);
    let ft = tail.filter(pred);
    let f = t.filter(pred);
    if pred(x) {
        assert forall|j: int| 0 <= j < fh.len() implies precedes(#[trigger] f[j], x, by, order) by {
            assert(f[j] == fh[j]);
            assert(fh.contains(fh[j]));
            head.lemma_filter_contains_rev(pred, fh[j]);
            let i = choose|i: int| 0 <= i < head.len() && head[i] == fh[j];
            assert(head[i] == t[i]);
        }
        if fh.len() < f.len() {
            assert(f[fh.len() as int] == ft[0]);
            assert(ft.contains(ft[0]));
            tail.lemma_filter_contains_rev(pred, ft[0]);
            let i = choose|i: int| 0 <= i < tail.len() && tail[i] == ft[0];
            assert(tail[i] == t[k + i]);
            lemma_beyond_insert_point(x, t, k + i, by, order);
        }
        lemma_insert_at(x, f, fh.len() as int, by, order);
        assert(f.insert(fh.len() as int, x) =~= (fh + seq![x]) + ft);
    } else {
        assert(fh + Seq::<FileItem>::empty() =~= fh);
    }
}

/// Sorting and filtering can be done in either order.
pub proof fn lemma_sorted_filter(
    s: Seq<FileItem>,
    pred: spec_fn(FileItem) -> bool,
    by: SortBy,
    order: SortOrder,
)
    ensures
        sorted_by(s, by, order).filter(pred) == sorted_by(s.filter(pred), by, order),
    decreases s.len(),
{
    if s.len() == 0 {
        assert(s.filter(pred) =~= s) by {
            reveal_with_fuel(Seq::filter, 1);
        }
        assert(sorted_by(s, by, order).filter(pred) =~= Seq::<FileItem>::empty()) by {
            reveal_with_fuel(Seq::filter, 1);
        }
    } else {
        let rest = s.drop_first();
        let sorted_rest = sorted_by(rest, by, order);
        lemma_sorted_filter(rest, pred, by, order);
        lemma_sorted_in_order(rest, by, order);
        lemma_insert_filter(s[0], sorted_rest, pred, by, order);
        assert(s =~= seq![s[0]] + rest);
        Seq::filter_distributes_over_add(seq![s[0]], rest, pred);
        lemma_filter_one(s[0], pred);
        if pred(s[0]) {
            let fs = s.filter(pred);
            assert(fs =~= seq![s[0]] + rest.filter(pred));
            assert(fs[0] == s[0]);
            assert(fs.drop_first() =~= rest.filter(pred));
        } else {
            assert(s.filter(pred) =~= rest.filter(pred));
        }
    }
}

/// Two filters can be applied in either order.
pub proof fn lemma_filter_commutes(
    t: Seq<FileItem>,
    p: spec_fn(FileItem) -> bool,
    q: spec_fn(FileItem) -> bool,
)
    ensures
        t.filter(p).filter(q) == t.filter(q).filter(p),
    decreases t.len(),
{
    reveal_with_fuel(Seq::filter, 2);
    if t.len() > 0 {
        let init = t.drop_last();
        let x = t.last();
        lemma_filter_commutes(init, p, q);
        if p(x) {
            assert(init.filter(p).push(x).drop_last() =~= init.filter(p));
        }
        if q(x) {
            assert(init.filter(q).push(x).drop_last() =~= init.filter(q));
        }
    }
}

/// Moving directories to the front and filtering can be done in
/// either order.
pub proof fn lemma_directories_first_filter(t: Seq<FileItem>, pred: spec_fn(FileItem) -> bool)
    ensures
        directories_first(t).filter(pred) == directories_first(t.filter(pred)),
{
    Seq::filter_distributes_over_add(t.filter(is_directory()), t.filter(is_not_directory()), pred);
    lemma_filter_commutes(t, is_directory(), pred);
    lemma_filter_commutes(t, is_not_directory(), pred);
}

/// Showing hidden entries never shortens the snapshot of a listing,
/// and hiding them again leaves exactly the entries of the fuller
/// snapshot that are not hidden, in the same order.
pub proof fn law_hidden_toggle(listing: Seq<FileItem>, by: SortBy, order: SortOrder)
    ensures
        snapshot_of(listing, false, by, order).len() <= snapshot_of(listing, true, by, order).len(),
        snapshot_of(listing, false, by, order) == snapshot_of(listing, true, by, order).filter(
            is_shown(),
        ),
{
    let full = sorted_by(listing, by, order);
    lemma_sorted_filter(listing, is_shown(), by, order);
    lemma_directories_first_filter(full, is_shown());
    snapshot_of(listing, true, by, order).lemma_filter_len(is_shown());
}

/// Among the directories, and among the other entries, no entry
/// must stand before an earlier one.
pub open spec fn ordered_within_groups(t: Seq<FileItem>, by: SortBy, order: SortOrder) -> bool {
    forall|i: int, j: int|
        0 <= i < j < t.len() && ((#[trigger] t[i]).file_type == FileType::Directory) == ((
        #[trigger] t[j]).file_type == FileType::Directory) ==> !precedes(t[j], t[i], by, order)
}

/// In display order the directories are ordered by the key and the
/// direction, and so are the other entries.
pub proof fn lemma_arranged_ordered_within_groups(s: Seq<FileItem>, by: SortBy, order: SortOrder)
    ensures
        ordered_within_groups(arranged(s, by, order), by, order),
{
    broadcast use Seq::lemma_filter_pred;

    let full = sorted_by(s, by, order);
    let d = full.filter(is_directory());
    let r = full.filter(is_not_directory());
    lemma_sorted_filter(s, is_directory(), by, order);
    lemma_sorted_filter(s, is_not_directory(), by, order);
    lemma_sorted_in_order(s.filter(is_directory()), by, order);
    lemma_sorted_in_order(s.filter(is_not_directory()), by, order);
    let t = arranged(s, by, order);
    assert(t == d + r);
    assert forall|i: int, j: int|
        0 <= i < j < t.len() && ((#[trigger] t[i]).file_type == FileType::Directory) == ((
        #[trigger] t[j]).file_type == FileType::Directory) implies !precedes(
        t[j],
        t[i],
        by,
        order,
    ) by {
        if j < d.len() {
            assert(t[i] == d[i] && t[j] == d[j]);
        } else if i >= d.len() {
            assert(t[i] == r[i - d.len()] && t[j] == r[j - d.len()]);
        } else {
            assert(t[i] == d[i] && t[j] == r[j - d.len()]);
            assert(is_directory()(d[i]));
            assert(is_not_directory()(r[j - d.len()]));
        }
    }
}

/// Whether no two entries of `s` have the same key.
pub open spec fn distinct_keys(s: Seq<FileItem>, by: SortBy) -> bool {
    forall|i: int, j: int|
        0 <= i < j < s.len() ==> sort_key(#[trigger] s[i], by) != sort_key(#[trigger] s[j], by)
}

/// Whether the entries of `s` are all directories, or none of them
/// is.
pub open spec fn one_group(s: Seq<FileItem>) -> bool {
    ||| forall|i: int| 0 <= i < s.len() ==> (#[trigger] s[i]).file_type == FileType::Directory
    ||| forall|i: int| 0 <= i < s.len() ==> (#[trigger] s[i]).file_type != FileType::Directory
}

/// Sequences with the same entries have the same members.
proof fn lemma_same_members(a: Seq<FileItem>, b: Seq<FileItem>, x: FileItem)
    requires
        a.to_multiset() == b.to_multiset(),
        a.contains(x),
    ensures
        b.contains(x),
{
    vstd::seq_lib::to_multiset_contains(a, x);
    vstd::seq_lib::to_multiset_contains(b, x);
}

proof fn lemma_sorted_reverses(s: Seq<FileItem>, by: SortBy)
    requires
        distinct_keys(s, by),
    ensures
        sorted_by(s, by, SortOrder::Ascending).reverse() == sorted_by(s, by, SortOrder::Descending),
    decreases s.len(),
{
    let up = SortOrder::Ascending;
    let down = SortOrder::Descending;
    if s.len() == 0 {
        assert(sorted_by(s, by, up).reverse() =~= sorted_by(s, by, down));
    } else {
        let x = s[0];
        let rest = s.drop_first();
        assert forall|i: int, j: int| 0 <= i < j < rest.len() implies sort_key(
            #[trigger] rest[i],
            by,
        ) != sort_key(#[trigger] rest[j], by) by {
            assert(rest[i] == s[i + 1] && rest[j] == s[j + 1]);
        }
        lemma_sorted_reverses(rest, by);
        let a = sorted_by(rest, by, up);
        let d = sorted_by(rest, by, down);
        let n = a.len() as int;
        lemma_sorted_in_order(rest, by, up);
        lemma_sorted_permutes(rest, by, up);
        lemma_insert_point(x, a, by, up);
        let k = insert_point(x, a, by, up);
        assert forall|i: int| 0 <= i < n implies sort_key(#[trigger] a[i], by) != sort_key(
            x,
            by,
        ) by {
            assert(a.contains(a[i]));
            lemma_same_members(a, rest, a[i]);
            let j = choose|j: int| 0 <= j < rest.len() && rest[j] == a[i];
            assert(rest[j] == s[j + 1]);
        }
        assert forall|j: int| 0 <= j < n - k implies precedes(#[trigger] d[j], x, by, down) by {
            assert(d[j] == a[n - 1 - j]);
            lemma_beyond_insert_point(x, a, n - 1 - j, by, up);
            if lex_le(sort_key(a[n - 1 - j], by), sort_key(x, by)) {
                lemma_lex_le_antisymmetric(sort_key(a[n - 1 - j], by), sort_key(x, by));
            }
        }
        if n - k < n {
            assert(d[n - k] == a[k - 1]);
            lemma_precedes_asymmetric(a[k - 1], x, by, up);
        }
        lemma_insert_at(x, d, n - k, by, down);
        assert(a.insert(k, x).reverse() =~= d.insert(n - k, x));
    }
}

/// A filter that every entry passes keeps the sequence; one that
/// no entry passes leaves nothing.
proof fn lemma_filter_all_or_none(t: Seq<FileItem>, pred: spec_fn(FileItem) -> bool)
    ensures
        (forall|i: int| 0 <= i < t.len() ==> pred(#[trigger] t[i])) ==> t.filter(pred) == t,
        (forall|i: int| 0 <= i < t.len() ==> !pred(#[trigger] t[i])) ==> t.filter(pred).len() == 0,
    decreases t.len(),
{
    reveal_with_fuel(Seq::filter, 1);
    if t.len() > 0 {
        let init = t.drop_last();
        lemma_filter_all_or_none(init, pred);
        if forall|i: int| 0 <= i < t.len() ==> pred(#[trigger] t[i]) {
            assert forall|i: int| 0 <= i < init.len() implies pred(#[trigger] init[i]) by {
                assert(init[i] == t[i]);
            }
            assert(pred(t[t.len() - 1]));
            assert(t.filter(pred) =~= t);
        }
        if forall|i: int| 0 <= i < t.len() ==> !pred(#[trigger] t[i]) {
            assert forall|i: int| 0 <= i < init.len() implies !pred(#[trigger] init[i]) by {
                assert(init[i] == t[i]);
            }
            assert(!pred(t[t.len() - 1]));
        }
    }
}

proof fn lemma_one_group_stays(t: Seq<FileItem>)
    requires
        one_group(t),
    ensures
        directories_first(t) == t,
{
    lemma_filter_all_or_none(t, is_directory());
    lemma_filter_all_or_none(t, is_not_directory());
    if forall|i: int| 0 <= i < t.len() ==> (#[trigger] t[i]).file_type == FileType::Directory {
        assert forall|i: int| 0 <= i < t.len() implies is_directory()(#[trigger] t[i]) by {}
        assert forall|i: int| 0 <= i < t.len() implies !is_not_directory()(#[trigger] t[i]) by {}
        assert(t.filter(is_directory()) + t.filter(is_not_directory()) =~= t);
    } else {
        assert forall|i: int| 0 <= i < t.len() implies !is_directory()(#[trigger] t[i]) by {}
        assert forall|i: int| 0 <= i < t.len() implies is_not_directory()(#[trigger] t[i]) by {}
        assert(t.filter(is_directory()) + t.filter(is_not_directory()) =~= t);
    }
}

/// A sequence with the same entries as one that is all directories,
/// or holds none, is so too.
proof fn lemma_one_group_permuted(s: Seq<FileItem>, t: Seq<FileItem>)
    requires
        one_group(s),
        t.to_multiset() == s.to_multiset(),
    ensures
        one_group(t),
{
    if forall|i: int| 0 <= i < s.len() ==> (#[trigger] s[i]).file_type == FileType::Directory {
        assert forall|i: int| 0 <= i < t.len() implies (#[trigger] t[i]).file_type
            == FileType::Directory by {
            assert(t.contains(t[i]));
            lemma_same_members(t, s, t[i]);
        }
    } else {
        assert forall|i: int| 0 <= i < t.len() implies (#[trigger] t[i]).file_type
            != FileType::Directory by {
            assert(t.contains(t[i]));
            lemma_same_members(t, s, t[i]);
        }
    }
}

/// For a listing whose entries all have different keys, and are all
/// directories or all something else, the descending display order
/// is the ascending one reversed, entry for entry.
pub proof fn law_descending_reverses_ascending(s: Seq<FileItem>, by: SortBy)
    requires
        distinct_keys(s, by),
        one_group(s),
    ensures
        arranged(s, by, SortOrder::Ascending).reverse() == arranged(s, by, SortOrder::Descending),
{
    let up = sorted_by(s, by, SortOrder::Ascending);
    let down = sorted_by(s, by, SortOrder::Descending);
    lemma_sorted_reverses(s, by);
    lemma_sorted_permutes(s, by, SortOrder::Ascending);
    lemma_sorted_permutes(s, by, SortOrder::Descending);
    lemma_one_group_permuted(s, up);
    lemma_one_group_permuted(s, down);
    lemma_one_group_stays(up);
    lemma_one_group_stays(down);
}

/// The order of keys is total: every key is below itself, any two
/// keys are comparable, the comparison is transitive, and keys that are below one another
/// are equal. Names enter their key in lowercase, so that the order
/// by name does not tell cases apart.
pub proof fn law_key_order_is_total(a: FileItem, b: FileItem, c: FileItem, by: SortBy)
    ensures
        lex_le(sort_key(a, by), sort_key(a, by)),
        lex_le(sort_key(a, by), sort_key(b, by)) || lex_le(sort_key(b, by), sort_key(a, by)),
        lex_le(sort_key(a, by), sort_key(b, by)) && lex_le(sort_key(b, by), sort_key(c, by))
            ==> lex_le(sort_key(a, by), sort_key(c, by)),
        lex_le(sort_key(a, by), sort_key(b, by)) && lex_le(sort_key(b, by), sort_key(a, by))
            ==> sort_key(a, by) == sort_key(b, by),
        crate::text::lowercase(a.name@) == crate::text::lowercase(b.name@) ==> sort_key(
            a,
            SortBy::Name,
        ) == sort_key(b, SortBy::Name),
{
    lemma_lex_le_reflexive(sort_key(a, by));
    lemma_lex_le_total(sort_key(a, by), sort_key(b, by));
    if lex_le(sort_key(a, by), sort_key(b, by)) && lex_le(sort_key(b, by), sort_key(c, by)) {
        lemma_lex_le_transitive(sort_key(a, by), sort_key(b, by), sort_key(c, by));
    }
    if lex_le(sort_key(a, by), sort_key(b, by)) && lex_le(sort_key(b, by), sort_key(a, by)) {
        lemma_lex_le_antisymmetric(sort_key(a, by), sort_key(b, by));
    }
}

} // verus!
