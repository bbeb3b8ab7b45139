//! Directory entries and the ordering rule of the browser: every regular
//! file sorts ahead of every subdirectory, and inside each group entries
//! ascend lexicographically by path (files break path ties by size).
use vstd::prelude::*;

use crate::text::chars_le;
use crate::text::lemma_chars_le_antisym;
use crate::text::lemma_chars_le_refl;
use crate::text::lemma_chars_le_total;
use crate::text::lemma_chars_le_trans;
use crate::text::str_le;

verus! {

broadcast use vstd::seq_lib::group_to_multiset_ensures;

/// One entry of a directory listing: a regular file with its path and its
/// size in whole kilobytes, or a subdirectory with its path.
#[derive(Debug)]
pub enum DirectoryItem {
    File((String, u64)),
    Directory(String),
}

impl PartialEq for DirectoryItem {
    fn eq(&self, other: &Self) -> (r: bool) {
        match (self, other) {
            (DirectoryItem::File((pa, sa)), DirectoryItem::File((pb, sb))) => pa.eq(pb) && *sa == *sb,
            (DirectoryItem::Directory(pa), DirectoryItem::Directory(pb)) => pa.eq(pb),
            _ => false,
        }
    }
}

impl vstd::std_specs::cmp::PartialEqSpecImpl for DirectoryItem {
    open spec fn obeys_eq_spec() -> bool {
        true
    }

    open spec fn eq_spec(&self, other: &Self) -> bool {
        match (self, other) {
            (DirectoryItem::File((pa, sa)), DirectoryItem::File((pb, sb))) => pa@ == pb@ && sa
                == sb,
            (DirectoryItem::Directory(pa), DirectoryItem::Directory(pb)) => pa@ == pb@,
            _ => false,
        }
    }
}

/// The path a listing entry names.
pub open spec fn item_path(i: DirectoryItem) -> Seq<char> {
    match i {
        DirectoryItem::File((p, _)) => p@,
        DirectoryItem::Directory(p) => p@,
    }
}

/// The listing order: files before directories; within files, by path and
/// then by size; within directories, by path.
pub open spec fn item_le(a: DirectoryItem, b: DirectoryItem) -> bool {
    match (a, b) {
        (DirectoryItem::File((pa, sa)), DirectoryItem::File((pb, sb))) => chars_le(pa@, pb@) && (
        pa@ == pb@ ==> sa <= sb),
        (DirectoryItem::File(_), DirectoryItem::Directory(_)) => true,
        (DirectoryItem::Directory(_), DirectoryItem::File(_)) => false,
        (DirectoryItem::Directory(pa), DirectoryItem::Directory(pb)) => chars_le(pa@, pb@),
    }
}

/// A sequence of entries in listing order.
pub open spec fn items_sorted(s: Seq<DirectoryItem>) -> bool {
    forall|p: int, q: int| 0 <= p < q < s.len() ==> item_le(#[trigger] s[p], #[trigger] s[q])
}

pub proof fn lemma_item_le_total(a: DirectoryItem, b: DirectoryItem)
    ensures
        item_le(a, b) || item_le(b, a),
{
    lemma_chars_le_total(item_path(a), item_path(b));
    lemma_chars_le_refl(item_path(a));
    lemma_chars_le_refl(item_path(b));
    if chars_le(item_path(a), item_path(b)) && chars_le(item_path(b), item_path(a)) {
        lemma_chars_le_antisym(item_path(a), item_path(b));
    }
}

pub proof fn lemma_item_le_trans(a: DirectoryItem, b: DirectoryItem, c: DirectoryItem)
    requires
        item_le(a, b),
        item_le(b, c),
    ensures
        item_le(a, c),
{
    if a is File && b is File && c is File {
        lemma_chars_le_trans(item_path(a), item_path(b), item_path(c));
        if item_path(a) == item_path(c) {
            lemma_chars_le_antisym(item_path(a), item_path(b));
        }
    } else if a is Directory && b is Directory && c is Directory {
        lemma_chars_le_trans(item_path(a), item_path(b), item_path(c));
    }
}

/// Compares two entries in listing order.
pub fn item_le_exec(a: &DirectoryItem, b: &DirectoryItem) -> (r: bool)
    ensures
        r == item_le(*a, *b),
{
    match (a, b) {
        (DirectoryItem::File((pa, sa)), DirectoryItem::File((pb, sb))) => {
            if pa.eq(pb) {
                proof {
                    lemma_chars_le_refl(pa@);
                }
                *sa <= *sb
            } else {
                str_le(pa.as_str(), pb.as_str())
            }
        },
        (DirectoryItem::File(_), DirectoryItem::Directory(_)) => true,
        (DirectoryItem::Directory(_), DirectoryItem::File(_)) => false,
        (DirectoryItem::Directory(pa), DirectoryItem::Directory(pb)) => str_le(
            pa.as_str(),
            pb.as_str(),
        ),
    }
}

proof fn lemma_to_multiset_insert(s: Seq<DirectoryItem>, j: int, x: DirectoryItem)
    requires
        0 <= j <= s.len(),
    ensures
        s.insert(j, x).to_multiset() == s.to_multiset().insert(x),
{
    let a = s.subrange(0, j);
    let b = s.subrange(j, s.len() as int);
    assert(s.insert(j, x) =~= a.push(x) + b);
    assert(s =~= a + b);
    vstd::seq_lib::lemma_multiset_commutative(a.push(x), b);
    vstd::seq_lib::lemma_multiset_commutative(a, b);
    assert(a.push(x).to_multiset() =~= a.to_multiset().insert(x));
    assert(a.to_multiset().insert(x).add(b.to_multiset()) =~= a.to_multiset().add(
        b.to_multiset(),
    ).insert(x));
}

/// Sorts a listing in the order of `item_le`, keeping exactly the same
/// entries.
pub fn sort_items(v: &mut Vec<DirectoryItem>)
    ensures
        items_sorted(final(v)@),
        final(v)@.to_multiset() == old(v)@.to_multiset(),
        final(v)@.len() == old(v)@.len(),
{
    let ghost orig = v@;
    if v.len() <= 1 {
        return ;
    }
    let mut i: usize = 1;
    while i < v.len()
        invariant
            1 <= i <= v@.len(),
            items_sorted(v@.subrange(0, i as int)),
            v@.to_multiset() == orig.to_multiset(),
            v@.len() == orig.len(),
        decreases v@.len() - i,
    {
        let mut j: usize = 0;
        loop
            invariant
                j <= i < v@.len(),
                forall|k: int| 0 <= k < j ==> item_le(#[trigger] v@[k], v@[i as int]),
            ensures
                j <= i,
                forall|k: int| 0 <= k < j ==> item_le(#[trigger] v@[k], v@[i as int]),
                j == i || !item_le(v@[j as int], v@[i as int]),
            decreases i - j,
        {
            if j == i {
                break ;
            }
            if !item_le_exec(&v[j], &v[i]) {
                break ;
            }
            j = j + 1;
        }
        let ghost s = v@;
        let x = v.remove(i);
        v.insert(j, x);
        proof {
            assert(v@ == s.remove(i as int).insert(j as int, x));
            lemma_to_multiset_insert(s.remove(i as int), j as int, x);
            assert(s.contains(s[i as int]));
            assert(s.remove(i as int).to_multiset() =~= s.to_multiset().remove(x));
            assert(s.to_multiset().remove(x).insert(x) =~= s.to_multiset());
            assert(v@.to_multiset() == orig.to_multiset());
            if j < i {
                lemma_item_le_total(s[j as int], x);
            }
            assert forall|p: int, q: int| 0 <= p < q < i + 1 implies item_le(
                #[trigger] v@[p],
                #[trigger] v@[q],
            ) by {
                let jj = j as int;
                let ii = i as int;
                let sub = s.subrange(0, ii);
                assert(forall|k: int| 0 <= k < ii ==> #[trigger] sub[k] == s[k]);
                if q < jj {
                    assert(item_le(sub[p], sub[q]));
                    assert(v@[p] == s[p] && v@[q] == s[q]);
                } else if q == jj {
                    assert(v@[q] == x);
                    assert(v@[p] == s[p]);
                } else if p < jj {
                    assert(item_le(sub[p], sub[q - 1]));
                    assert(v@[p] == s[p] && v@[q] == s[q - 1]);
                } else if p == jj {
                    assert(v@[p] == x && v@[q] == s[q - 1]);
                    assert(item_le(x, s[jj]));
                    if q - 1 > jj {
                        assert(item_le(sub[jj], sub[q - 1]));
                        lemma_item_le_trans(x, s[jj], s[q - 1]);
                    }
                } else {
                    assert(item_le(sub[p - 1], sub[q - 1]));
                    assert(v@[p] == s[p - 1] && v@[q] == s[q - 1]);
                }
            }
            assert(items_sorted(v@.subrange(0, i as int + 1))) by {
                assert(forall|k: int|
                    0 <= k < i + 1 ==> v@.subrange(0, i as int + 1)[k] == v@[k]);
            }
        }
        i = i + 1;
    }
    proof {
        if v@.len() > 0 {
            assert(v@.subrange(0, v@.len() as int) =~= v@);
        }
    }
}

/// The size of a file in kilobytes: its byte length divided by 1000 and
/// rounded up.
pub open spec fn size_kb_spec(bytes: u64) -> int {
    (bytes + 999) / 1000
}

/// The kilobyte figure shown for a file of the given byte length.
pub fn file_size_kb(bytes: u64) -> (r: u64)
    ensures
        r == size_kb_spec(bytes),
{
    if bytes % 1000 == 0 {
        bytes / 1000
    } else {
        bytes / 1000 + 1
    }
}

/// Law: in a sorted listing every file stands before every directory, and
/// within each of the two groups paths ascend lexicographically.
pub proof fn lemma_sorted_listing_shape(s: Seq<DirectoryItem>)
    requires
        items_sorted(s),
    ensures
        forall|i: int, j: int| 0 <= i < j < s.len() && #[trigger] s[j] is File ==> #[trigger] s[i]
            is File,
        forall|i: int, j: int|
            0 <= i < j < s.len() && ((#[trigger] s[i] is File) == (#[trigger] s[j] is File))
                ==> chars_le(item_path(s[i]), item_path(s[j])),
{
    assert forall|i: int, j: int| 0 <= i < j < s.len() && #[trigger] s[j] is File implies #[trigger] s[i]
        is File by {
        assert(item_le(s[i], s[j]));
    }
    assert forall|i: int, j: int|
        0 <= i < j < s.len() && ((#[trigger] s[i] is File) == (#[trigger] s[j]
            is File)) implies chars_le(item_path(s[i]), item_path(s[j])) by {
        assert(item_le(s[i], s[j]));
    }
}

} // verus!
