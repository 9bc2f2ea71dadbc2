//! The display order of a listing: a stable sort by the chosen key
//! and direction, followed by a stable pass that moves directories
//! to the front.

use vstd::prelude::*;
use crate::file_item::{FileItem, FileType, SortBy, SortOrder, Timestamp};
use crate::order_laws::{lemma_arranged_ordered_within_groups, ordered_within_groups};
use crate::text::{chars_of, lowercase, to_lower};

verus! {

/// Lexicographic "less than or equal" on integer sequences; a proper
/// prefix comes before what extends it.
pub open spec fn lex_le(a: Seq<int>, b: Seq<int>) -> bool
    decreases a.len(),
{
    if a.len() == 0 {
        true
    } else if b.len() == 0 {
        false
    } else if a[0] != b[0] {
        a[0] < b[0]
    } else {
        lex_le(a.drop_first(), b.drop_first())
    }
}

/// The code points of a text.
pub open spec fn code_points(s: Seq<char>) -> Seq<int> {
    Seq::new(s.len(), |i: int| (s[i] as u32) as int)
}

/// The key of an instant: seconds, then nanoseconds.
pub open spec fn instant_key(t: Timestamp) -> Seq<int> {
    seq![t.secs as int, t.nanos as int]
}

/// The value by which an entry is ordered under `by`, given its
/// name in lowercase. Every kind but the directory ranks alike; an
/// entry without a creation time comes before all that have one.
pub open spec fn sort_key_given(item: FileItem, by: SortBy, folded_name: Seq<char>) -> Seq<int> {
    match by {
        SortBy::Name => code_points(folded_name),
        SortBy::Size => seq![item.size as int],
        SortBy::Modified => instant_key(item.modified),
        SortBy::Type => seq![if item.file_type == FileType::Directory { 0int } else { 1int }],
        SortBy::Created => match item.created {
            None => seq![0int],
            Some(t) => seq![1int] + instant_key(t),
        },
    }
}

/// The value by which an entry is ordered under `by`. Names are
/// compared in lowercase.
pub open spec fn sort_key(item: FileItem, by: SortBy) -> Seq<int> {
    sort_key_given(item, by, lowercase(item.name@))
}

/// Whether the key of `a` is strictly smaller than that of `b`.
pub open spec fn key_lt(a: FileItem, b: FileItem, by: SortBy) -> bool {
    !lex_le(sort_key(b, by), sort_key(a, by))
}

/// Whether `a` must stand before `b` in the chosen direction. Entries
/// with equal keys do not precede one another.
pub open spec fn precedes(a: FileItem, b: FileItem, by: SortBy, order: SortOrder) -> bool {
    match order {
        SortOrder::Ascending => key_lt(a, b, by),
        SortOrder::Descending => key_lt(b, a, by),
    }
}

/// `x` placed into `t` behind every leading entry that precedes it.
pub open spec fn insert_stable(x: FileItem, t: Seq<FileItem>, by: SortBy, order: SortOrder) -> Seq<
    FileItem,
>
    decreases t.len(),
{
    if t.len() == 0 {
        seq![x]
    } else if precedes(t[0], x, by, order) {
        seq![t[0]] + insert_stable(x, t.drop_first(), by, order)
    } else {
        seq![x] + t
    }
}

/// The stable sort of `s`: entries in key order for the direction,
/// those with equal keys in the order in which `s` held them.
pub open spec fn sorted_by(s: Seq<FileItem>, by: SortBy, order: SortOrder) -> Seq<FileItem>
    decreases s.len(),
{
    if s.len() == 0 {
        Seq::empty()
    } else {
        insert_stable(s[0], sorted_by(s.drop_first(), by, order), by, order)
    }
}

pub open spec fn is_directory() -> spec_fn(FileItem) -> bool {
    |e: FileItem| e.file_type == FileType::Directory
}

pub open spec fn is_not_directory() -> spec_fn(FileItem) -> bool {
    |e: FileItem| e.file_type != FileType::Directory
}

/// The directories of `t` followed by the rest, each group in the
/// order in which `t` held it.
pub open spec fn directories_first(t: Seq<FileItem>) -> Seq<FileItem> {
    t.filter(is_directory()) + t.filter(is_not_directory())
}

pub open spec fn is_shown() -> spec_fn(FileItem) -> bool {
    |e: FileItem| !e.is_hidden
}

/// The entries of a listing that are on display: all of them when
/// hidden entries are shown, else those that are not hidden.
pub open spec fn visible(listing: Seq<FileItem>, show_hidden: bool) -> Seq<FileItem> {
    if show_hidden {
        listing
    } else {
        listing.filter(is_shown())
    }
}

/// The snapshot that a listing gives under a display policy.
pub open spec fn snapshot_of(
    listing: Seq<FileItem>,
    show_hidden: bool,
    by: SortBy,
    order: SortOrder,
) -> Seq<FileItem> {
    arranged(visible(listing, show_hidden), by, order)
}

/// The display order of a listing.
pub open spec fn arranged(s: Seq<FileItem>, by: SortBy, order: SortOrder) -> Seq<FileItem> {
    directories_first(sorted_by(s, by, order))
}

/// No entry of `t` must stand before an earlier one.
pub open spec fn in_order(t: Seq<FileItem>, by: SortBy, order: SortOrder) -> bool {
    forall|i: int, j: int| 0 <= i < j < t.len() ==> !precedes(#[trigger] t[j], #[trigger] t[i], by, order)
}

/// Every directory of `t` stands before every other entry.
pub open spec fn directories_lead(t: Seq<FileItem>) -> bool {
    forall|i: int, j: int|
        0 <= i < j < t.len() && (#[trigger] t[j]).file_type == FileType::Directory ==> (
        #[trigger] t[i]).file_type == FileType::Directory
}

pub proof fn lemma_lex_le_reflexive(a: Seq<int>)
    ensures
        lex_le(a, a),
    decreases a.len(),
{
    if a.len() > 0 {
        lemma_lex_le_reflexive(a.drop_first());
    }
}

/// Any two keys are comparable.
pub proof fn lemma_lex_le_total(a: Seq<int>, b: Seq<int>)
    ensures
        lex_le(a, b) || lex_le(b, a),
    decreases a.len(),
{
    if a.len() > 0 && b.len() > 0 && a[0] == b[0] {
        lemma_lex_le_total(a.drop_first(), b.drop_first());
    }
}

pub proof fn lemma_lex_le_transitive(a: Seq<int>, b: Seq<int>, c: Seq<int>)
    requires
        lex_le(a, b),
        lex_le(b, c),
    ensures
        lex_le(a, c),
    decreases a.len(),
{
    if a.len() > 0 && b.len() > 0 && c.len() > 0 && a[0] == b[0] && b[0] == c[0] {
        lemma_lex_le_transitive(a.drop_first(), b.drop_first(), c.drop_first());
    }
}

/// Keys that are below one another are the same key.
pub proof fn lemma_lex_le_antisymmetric(a: Seq<int>, b: Seq<int>)
    requires
        lex_le(a, b),
        lex_le(b, a),
    ensures
        a == b,
    decreases a.len(),
{
    if a.len() > 0 && b.len() > 0 {
        lemma_lex_le_antisymmetric(a.drop_first(), b.drop_first());
        assert(a =~= seq![a[0]] + a.drop_first());
        assert(b =~= seq![b[0]] + b.drop_first());
    } else {
        assert(a =~= b);
    }
}

proof fn lemma_lex_single(x: int, y: int)
    ensures
        lex_le(seq![x], seq![y]) == (x <= y),
{
    reveal_with_fuel(lex_le, 2);
    assert(seq![x].drop_first().len() == 0);
}

proof fn lemma_lex_instant(a: Timestamp, b: Timestamp)
    ensures
        lex_le(instant_key(a), instant_key(b)) == (a.secs < b.secs || (a.secs == b.secs && a.nanos
            <= b.nanos)),
{
    let ka = instant_key(a);
    let kb = instant_key(b);
    assert(ka.drop_first() =~= seq![a.nanos as int]);
    assert(kb.drop_first() =~= seq![b.nanos as int]);
    lemma_lex_single(a.nanos as int, b.nanos as int);
}

/// `x` goes to index `p` of `t` when all before `p` precede it and
/// the entry at `p`, if any, does not.
pub proof fn lemma_insert_at(x: FileItem, t: Seq<FileItem>, p: int, by: SortBy, order: SortOrder)
    requires
        0 <= p <= t.len(),
        forall|j: int| 0 <= j < p ==> precedes(#[trigger] t[j], x, by, order),
        p < t.len() ==> !precedes(t[p], x, by, order),
    ensures
        insert_stable(x, t, by, order) == t.insert(p, x),
    decreases t.len(),
{
    if t.len() == 0 {
        assert(t.insert(p, x) =~= seq![x]);
    } else if p == 0 {
        assert(t.insert(0, x) =~= seq![x] + t);
    } else {
        let rest = t.drop_first();
        assert(precedes(t[0], x, by, order));
        assert forall|j: int| 0 <= j < p - 1 implies precedes(#[trigger] rest[j], x, by, order) by {
            assert(rest[j] == t[j + 1]);
        }
        lemma_insert_at(x, rest, p - 1, by, order);
        assert(t.insert(p, x) =~= seq![t[0]] + rest.insert(p - 1, x));
    }
}

fn instant_le(a: &Timestamp, b: &Timestamp) -> (r: bool)
    ensures
        r == lex_le(instant_key(*a), instant_key(*b)),
{
    proof {
        lemma_lex_instant(*a, *b);
    }
    a.secs < b.secs || (a.secs == b.secs && a.nanos <= b.nanos)
}

/// Whether `a` comes before `b`, or equals it, in the order of the
/// code points.
pub fn text_le(a: &str, b: &str) -> (r: bool)
    ensures
        r == lex_le(code_points(a@), code_points(b@)),
{
    let va = chars_of(a);
    let vb = chars_of(b);
    let ghost ka = code_points(a@);
    let ghost kb = code_points(b@);
    let mut i: usize = 0;
    assert(ka.skip(0) =~= ka);
    assert(kb.skip(0) =~= kb);
    while i < va.len()
        invariant
            va@ == a@,
            vb@ == b@,
            ka == code_points(a@),
            kb == code_points(b@),
            i <= va.len(),
            i <= vb.len(),
            lex_le(ka, kb) == lex_le(ka.skip(i as int), kb.skip(i as int)),
        decreases va.len() - i,
    {
        if i == vb.len() {
            return false;
        }
        let ca: u32 = va[i] as u32;
        let cb: u32 = vb[i] as u32;
        assert(ka.skip(i as int)[0] == ca as int);
        assert(kb.skip(i as int)[0] == cb as int);
        if ca != cb {
            return ca < cb;
        }
        proof {
            assert(ka.skip(i as int).drop_first() =~= ka.skip(i + 1));
            assert(kb.skip(i as int).drop_first() =~= kb.skip(i + 1));
        }
        i += 1;
    }
    true
}

/// Whether the key of `a` is at most that of `b`, given the names
/// of both in lowercase.
pub fn key_le_given(a: &FileItem, a_folded: &str, b: &FileItem, b_folded: &str, by: SortBy) -> (r:
    bool)
    ensures
        r == lex_le(sort_key_given(*a, by, a_folded@), sort_key_given(*b, by, b_folded@)),
{
    match by {
        SortBy::Name => text_le(a_folded, b_folded),
        SortBy::Size => {
            proof {
                lemma_lex_single(a.size as int, b.size as int);
            }
            a.size <= b.size
        },
        SortBy::Modified => instant_le(&a.modified, &b.modified),
        SortBy::Type => {
            let ra: u8 = if a.file_type == FileType::Directory { 0 } else { 1 };
            let rb: u8 = if b.file_type == FileType::Directory { 0 } else { 1 };
            proof {
                lemma_lex_single(ra as int, rb as int);
            }
            ra <= rb
        },
        SortBy::Created => match (&a.created, &b.created) {
            (None, None) => {
                proof {
                    lemma_lex_single(0, 0);
                }
                true
            },
            (None, Some(_)) => true,
            (Some(_), None) => false,
            (Some(ta), Some(tb)) => {
                proof {
                    let ka = sort_key_given(*a, by, a_folded@);
                    let kb = sort_key_given(*b, by, b_folded@);
                    assert(ka.drop_first() =~= instant_key(*ta));
                    assert(kb.drop_first() =~= instant_key(*tb));
                }
                instant_le(ta, tb)
            },
        },
    }
}

/// Whether the key of `a` is at most that of `b`.
fn key_le(a: &FileItem, b: &FileItem, by: SortBy) -> (r: bool)
    ensures
        r == lex_le(sort_key(*a, by), sort_key(*b, by)),
{
    match by {
        SortBy::Name => {
            let la = to_lower(a.name.as_str());
            let lb = to_lower(b.name.as_str());
            key_le_given(a, la.as_str(), b, lb.as_str(), by)
        },
        _ => {
            let r = key_le_given(a, "", b, "", by);
            assert(sort_key_given(*a, by, ""@) == sort_key(*a, by));
            assert(sort_key_given(*b, by, ""@) == sort_key(*b, by));
            r
        },
    }
}

/// Whether `a` must stand before `b`.
fn goes_before(a: &FileItem, b: &FileItem, by: SortBy, order: SortOrder) -> (r: bool)
    ensures
        r == precedes(*a, *b, by, order),
{
    match order {
        SortOrder::Ascending => !key_le(b, a, by),
        SortOrder::Descending => !key_le(a, b, by),
    }
}

fn insert_entry(out: &mut Vec<FileItem>, x: FileItem, by: SortBy, order: SortOrder)
    ensures
        final(out)@ == insert_stable(x, old(out)@, by, order),
{
    let mut p: usize = 0;
    let mut searching = true;
    while searching && p < out.len()
        invariant
            out@ == old(out)@,
            p <= out.len(),
            forall|j: int| 0 <= j < p ==> precedes(#[trigger] out@[j], x, by, order),
            !searching ==> p < out.len() && !precedes(out@[p as int], x, by, order),
        decreases out.len() - p + (if searching { 1int } else { 0int }),
    {
        if goes_before(&out[p], &x, by, order) {
            p += 1;
        } else {
            searching = false;
        }
    }
    proof {
        lemma_insert_at(x, out@, p as int, by, order);
    }
    out.insert(p, x);
}

/// Sorts `items` stably by the key and direction.
fn stable_sort(items: &mut Vec<FileItem>, by: SortBy, order: SortOrder)
    ensures
        final(items)@ == sorted_by(old(items)@, by, order),
{
    let ghost orig = items@;
    let mut src: Vec<FileItem> = Vec::new();
    std::mem::swap(items, &mut src);
    assert(orig.subrange(orig.len() as int, orig.len() as int) =~= Seq::<FileItem>::empty());
    while src.len() > 0
        invariant
            src@ == orig.subrange(0, src@.len() as int),
            src@.len() <= orig.len(),
            items@ == sorted_by(orig.subrange(src@.len() as int, orig.len() as int), by, order),
        decreases src.len(),
    {
        let ghost k = src@.len() as int;
        let x = src.pop().unwrap();
        proof {
            let tail = orig.subrange(k - 1, orig.len() as int);
            assert(tail[0] == x);
            assert(tail.drop_first() =~= orig.subrange(k, orig.len() as int));
            assert(src@ =~= orig.subrange(0, k - 1));
        }
        insert_entry(items, x, by, order);
    }
    assert(orig.subrange(0, orig.len() as int) =~= orig);
}

/// Moves the directories of `items` to the front, keeping the order
/// within the directories and within the rest.
fn lead_with_directories(items: &mut Vec<FileItem>)
    ensures
        final(items)@ == directories_first(old(items)@),
{
    let ghost orig = items@;
    let mut src: Vec<FileItem> = Vec::new();
    std::mem::swap(items, &mut src);
    let mut rest: Vec<FileItem> = Vec::new();
    assert(orig.subrange(orig.len() as int, orig.len() as int) =~= Seq::<FileItem>::empty());
    while src.len() > 0
        invariant
            src@ == orig.subrange(0, src@.len() as int),
            src@.len() <= orig.len(),
            items@ == orig.subrange(src@.len() as int, orig.len() as int).filter(is_directory()),
            rest@ == orig.subrange(src@.len() as int, orig.len() as int).filter(
                is_not_directory(),
            ),
        decreases src.len(),
    {
        let ghost k = src@.len() as int;
        let x = src.pop().unwrap();
        proof {
            let tail = orig.subrange(k - 1, orig.len() as int);
            let after = orig.subrange(k, orig.len() as int);
            assert(tail =~= seq![x] + after);
            assert(src@ =~= orig.subrange(0, k - 1));
            Seq::filter_distributes_over_add(seq![x], after, is_directory());
            Seq::filter_distributes_over_add(seq![x], after, is_not_directory());
            lemma_filter_one(x, is_directory());
            lemma_filter_one(x, is_not_directory());
        }
        if x.file_type == FileType::Directory {
            items.insert(0, x);
            assert(items@ =~= seq![x] + orig.subrange(k, orig.len() as int).filter(is_directory()));
        } else {
            rest.insert(0, x);
            assert(rest@ =~= seq![x] + orig.subrange(k, orig.len() as int).filter(
                is_not_directory(),
            ));
        }
    }
    assert(orig.subrange(0, orig.len() as int) =~= orig);
    items.append(&mut rest);
}

pub proof fn lemma_filter_one(x: FileItem, pred: spec_fn(FileItem) -> bool)
    ensures
        seq![x].filter(pred) == (if pred(x) {
            seq![x]
        } else {
            Seq::<FileItem>::empty()
        }),
{
    reveal_with_fuel(Seq::filter, 2);
    assert(seq![x].drop_last() =~= Seq::<FileItem>::empty());
    assert(seq![x].filter(pred) =~= (if pred(x) {
        seq![x]
    } else {
        Seq::<FileItem>::empty()
    }));
}

/// The number of leading entries of `t` that precede `x`.
pub open spec fn insert_point(x: FileItem, t: Seq<FileItem>, by: SortBy, order: SortOrder) -> int
    decreases t.len(),
{
    if t.len() == 0 || !precedes(t[0], x, by, order) {
        0
    } else {
        1 + insert_point(x, t.drop_first(), by, order)
    }
}

/// A stable insertion puts `x` behind the leading run of entries
/// that precede it, and nowhere else.
pub proof fn lemma_insert_point(x: FileItem, t: Seq<FileItem>, by: SortBy, order: SortOrder)
    ensures
        0 <= insert_point(x, t, by, order) <= t.len(),
        forall|j: int|
            0 <= j < insert_point(x, t, by, order) ==> precedes(#[trigger] t[j], x, by, order),
        insert_point(x, t, by, order) < t.len() ==> !precedes(
            t[insert_point(x, t, by, order)],
            x,
            by,
            order,
        ),
        insert_stable(x, t, by, order) == t.insert(insert_point(x, t, by, order), x),
    decreases t.len(),
{
    if t.len() == 0 || !precedes(t[0], x, by, order) {
        lemma_insert_at(x, t, 0, by, order);
    } else {
        let rest = t.drop_first();
        lemma_insert_point(x, rest, by, order);
        let p = insert_point(x, t, by, order);
        assert forall|j: int| 0 <= j < p implies precedes(#[trigger] t[j], x, by, order) by {
            if j > 0 {
                assert(t[j] == rest[j - 1]);
            }
        }
        if p < t.len() {
            assert(t[p] == rest[p - 1]);
        }
        lemma_insert_at(x, t, p, by, order);
    }
}

/// Sorting neither adds nor loses an entry.
pub proof fn lemma_sorted_permutes(s: Seq<FileItem>, by: SortBy, order: SortOrder)
    ensures
        sorted_by(s, by, order).to_multiset() == s.to_multiset(),
        sorted_by(s, by, order).len() == s.len(),
    decreases s.len(),
{
    broadcast use vstd::seq_lib::to_multiset_insert;

    if s.len() == 0 {
        assert(sorted_by(s, by, order) =~= s);
    } else {
        let rest = s.drop_first();
        let t = sorted_by(rest, by, order);
        lemma_sorted_permutes(rest, by, order);
        lemma_insert_point(s[0], t, by, order);
        let p = insert_point(s[0], t, by, order);
        assert(t.insert(p, s[0]).to_multiset() == t.to_multiset().insert(s[0]));
        assert(s =~= rest.insert(0, s[0]));
        assert(rest.insert(0, s[0]).to_multiset() == rest.to_multiset().insert(s[0]));
    }
}

/// Splitting a sequence by a test and its negation loses nothing.
pub proof fn lemma_split_permutes(
    t: Seq<FileItem>,
    yes: spec_fn(FileItem) -> bool,
    no: spec_fn(FileItem) -> bool,
)
    requires
        forall|e: FileItem| #[trigger] no(e) == !yes(e),
    ensures
        (t.filter(yes) + t.filter(no)).to_multiset() == t.to_multiset(),
        t.filter(yes).len() + t.filter(no).len() == t.len(),
    decreases t.len(),
{
    broadcast use vstd::seq_lib::to_multiset_build;
    broadcast use vstd::seq_lib::lemma_multiset_commutative;

    reveal_with_fuel(Seq::filter, 2);
    if t.len() == 0 {
        assert(t.filter(yes) + t.filter(no) =~= t);
    } else {
        let init = t.drop_last();
        let x = t.last();
        lemma_split_permutes(init, yes, no);
        assert(t =~= init.push(x));
        assert((init.filter(yes) + init.filter(no)).to_multiset() == init.filter(
            yes,
        ).to_multiset().add(init.filter(no).to_multiset()));
        assert((t.filter(yes) + t.filter(no)).to_multiset() == t.filter(yes).to_multiset().add(
            t.filter(no).to_multiset(),
        ));
        if yes(x) {
            assert(t.filter(yes) == init.filter(yes).push(x));
            assert(t.filter(no) == init.filter(no));
        } else {
            assert(t.filter(yes) == init.filter(yes));
            assert(t.filter(no) == init.filter(no).push(x));
        }
        assert((t.filter(yes) + t.filter(no)).to_multiset() =~= init.to_multiset().insert(x));
    }
}

/// The display order holds exactly the entries of the listing.
pub proof fn lemma_arranged_permutes(s: Seq<FileItem>, by: SortBy, order: SortOrder)
    ensures
        arranged(s, by, order).to_multiset() == s.to_multiset(),
        arranged(s, by, order).len() == s.len(),
{
    lemma_sorted_permutes(s, by, order);
    lemma_split_permutes(sorted_by(s, by, order), is_directory(), is_not_directory());
}

/// Once directories are moved to the front, none stands behind an
/// entry of another kind.
pub proof fn lemma_directories_first_lead(t: Seq<FileItem>)
    ensures
        directories_lead(directories_first(t)),
{
    broadcast use Seq::lemma_filter_pred;

    let d = t.filter(is_directory());
    let r = t.filter(is_not_directory());
    let out = directories_first(t);
    assert forall|i: int, j: int|
        0 <= i < j < out.len() && (#[trigger] out[j]).file_type == FileType::Directory implies (
    #[trigger] out[i]).file_type == FileType::Directory by {
        if j >= d.len() {
            assert(out[j] == r[j - d.len()]);
            assert(is_not_directory()(r[j - d.len()]));
        }
        assert(out[i] == d[i]);
        assert(is_directory()(d[i]));
    }
}

/// In display order every directory stands before every entry of
/// another kind, whatever the key and the direction.
pub proof fn lemma_arranged_directories_lead(s: Seq<FileItem>, by: SortBy, order: SortOrder)
    ensures
        directories_lead(arranged(s, by, order)),
{
    lemma_directories_first_lead(sorted_by(s, by, order));
}

/// Removes the hidden entries of `items`, keeping the order of the
/// rest.
fn drop_hidden(items: &mut Vec<FileItem>)
    ensures
        final(items)@ == old(items)@.filter(is_shown()),
{
    let ghost orig = items@;
    let mut src: Vec<FileItem> = Vec::new();
    std::mem::swap(items, &mut src);
    assert(orig.subrange(orig.len() as int, orig.len() as int) =~= Seq::<FileItem>::empty());
    while src.len() > 0
        invariant
            src@ == orig.subrange(0, src@.len() as int),
            src@.len() <= orig.len(),
            items@ == orig.subrange(src@.len() as int, orig.len() as int).filter(is_shown()),
        decreases src.len(),
    {
        let ghost k = src@.len() as int;
        let x = src.pop().unwrap();
        proof {
            let tail = orig.subrange(k - 1, orig.len() as int);
            let after = orig.subrange(k, orig.len() as int);
            assert(tail =~= seq![x] + after);
            assert(src@ =~= orig.subrange(0, k - 1));
            Seq::filter_distributes_over_add(seq![x], after, is_shown());
            lemma_filter_one(x, is_shown());
        }
        if !x.is_hidden {
            items.insert(0, x);
            assert(items@ =~= seq![x] + orig.subrange(k, orig.len() as int).filter(is_shown()));
        }
    }
    assert(orig.subrange(0, orig.len() as int) =~= orig);
}

/// Builds the snapshot of a directory from its raw listing: hidden
/// entries are left out unless they are to be shown, and the rest is
/// put into display order.
pub fn build_snapshot(
    listing: Vec<FileItem>,
    show_hidden: bool,
    sort_by: SortBy,
    sort_order: SortOrder,
) -> (snapshot: Vec<FileItem>)
    ensures
        snapshot@ == snapshot_of(listing@, show_hidden, sort_by, sort_order),
        directories_lead(snapshot@),
        ordered_within_groups(snapshot@, sort_by, sort_order),
        snapshot@.to_multiset() == visible(listing@, show_hidden).to_multiset(),
{
    let mut items = listing;
    if !show_hidden {
        drop_hidden(&mut items);
    }
    FileItem::sort_items(&mut items, sort_by, sort_order);
    items
}

impl FileItem {
    /// Puts `items` into display order: sorted stably by the key in
    /// the given direction, then directories moved to the front.
    pub fn sort_items(items: &mut Vec<FileItem>, sort_by: SortBy, sort_order: SortOrder)
        ensures
            final(items)@ == arranged(old(items)@, sort_by, sort_order),
            directories_lead(final(items)@),
            ordered_within_groups(final(items)@, sort_by, sort_order),
            final(items)@.to_multiset() == old(items)@.to_multiset(),
            final(items)@.len() == old(items)@.len(),
    {
        proof {
            lemma_arranged_ordered_within_groups(items@, sort_by, sort_order);
            lemma_arranged_directories_lead(items@, sort_by, sort_order);
            lemma_arranged_permutes(items@, sort_by, sort_order);
        }
        stable_sort(items, sort_by, sort_order);
        lead_with_directories(items);
    }
}

} // verus!
