//! The order of file names, and directory entries sorted by it. Names are compared character
//! by character, by code point; UTF-8 keeps that order, so it is the order of `String` itself.
use vstd::prelude::*;
use crate::config::PluginFileEntry;

verus! {

/// `a` comes strictly before `b`: at the first character where they differ, `a`'s is smaller,
/// or `a` is a proper prefix of `b`.
pub open spec fn name_before(a: Seq<char>, b: Seq<char>) -> bool
    decreases a.len(),
{
    if b.len() == 0 {
        false
    } else if a.len() == 0 {
        true
    } else if a[0] != b[0] {
        (a[0] as u32) < (b[0] as u32)
    } else {
        name_before(a.drop_first(), b.drop_first())
    }
}

/// The order of names is transitive.
pub proof fn lemma_name_before_transitive(a: Seq<char>, b: Seq<char>, c: Seq<char>)
    requires
        name_before(a, b),
        name_before(b, c),
    ensures
        name_before(a, c),
    decreases a.len(),
{
    if a.len() > 0 && a[0] == b[0] && b[0] == c[0] {
        lemma_name_before_transitive(a.drop_first(), b.drop_first(), c.drop_first());
    }
}

/// No name comes strictly before itself.
pub proof fn lemma_name_before_irreflexive(a: Seq<char>)
    ensures
        !name_before(a, a),
    decreases a.len(),
{
    if a.len() > 0 {
        lemma_name_before_irreflexive(a.drop_first());
    }
}

/// Whether `a` comes strictly before `b`.
pub fn name_is_before(a: &str, b: &str) -> (before: bool)
    ensures
        before == name_before(a@, b@),
{
    let la = a.unicode_len();
    let lb = b.unicode_len();
    let mut i: usize = 0;
    assert(a@.skip(0) =~= a@ && b@.skip(0) =~= b@);
    while i < la && i < lb
        invariant
            la == a@.len(),
            lb == b@.len(),
            i <= la,
            i <= lb,
            name_before(a@, b@) == name_before(a@.skip(i as int), b@.skip(i as int)),
        decreases la - i,
    {
        let ca = a.get_char(i);
        let cb = b.get_char(i);
        assert(a@.skip(i as int)[0] == ca);
        assert(b@.skip(i as int)[0] == cb);
        if ca != cb {
            return (ca as u32) < (cb as u32);
        }
        assert(a@.skip(i as int).drop_first() =~= a@.skip(i + 1));
        assert(b@.skip(i as int).drop_first() =~= b@.skip(i + 1));
        i = i + 1;
    }
    i < lb
}

/// The entries are in ascending order of file name.
pub open spec fn sorted_by_file_name(s: Seq<PluginFileEntry>) -> bool {
    forall|i: int, j: int|
        0 <= i < j < s.len() ==> !name_before(#[trigger] s[j].file_name@, #[trigger] s[i].file_name@)
}

/// Where `e` goes among `sorted`: before the first entry whose file name comes after its own.
pub open spec fn insertion_point(sorted: Seq<PluginFileEntry>, e: PluginFileEntry) -> int
    decreases sorted.len(),
{
    if sorted.len() == 0 {
        0
    } else if name_before(e.file_name@, sorted[0].file_name@) {
        0
    } else {
        1 + insertion_point(sorted.drop_first(), e)
    }
}

/// The entries sorted by file name, each inserted in turn after the entries whose names do not
/// come after its own, so that entries with equal names keep their order.
pub open spec fn sort_entries(s: Seq<PluginFileEntry>) -> Seq<PluginFileEntry>
    decreases s.len(),
{
    if s.len() == 0 {
        Seq::empty()
    } else {
        let rest = sort_entries(s.drop_last());
        rest.insert(insertion_point(rest, s.last()), s.last())
    }
}

/// What `insertion_point` finds.
proof fn lemma_insertion_point(sorted: Seq<PluginFileEntry>, e: PluginFileEntry)
    ensures
        0 <= insertion_point(sorted, e) <= sorted.len(),
        forall|k: int|
            0 <= k < insertion_point(sorted, e) ==> !name_before(e.file_name@, #[trigger] sorted[k].file_name@),
        insertion_point(sorted, e) < sorted.len() ==> name_before(
            e.file_name@,
            sorted[insertion_point(sorted, e)].file_name@,
        ),
    decreases sorted.len(),
{
    if sorted.len() > 0 && !name_before(e.file_name@, sorted[0].file_name@) {
        let rest = sorted.drop_first();
        lemma_insertion_point(rest, e);
        assert forall|k: int| 0 <= k < insertion_point(sorted, e) implies !name_before(
            e.file_name@,
            #[trigger] sorted[k].file_name@,
        ) by {
            if k > 0 {
                assert(sorted[k] == rest[k - 1]);
            }
        }
    }
}

/// Sorting keeps every entry, as often as it occurs, and puts them in ascending order of file name.
pub proof fn law_sorted_entries(s: Seq<PluginFileEntry>)
    ensures
        sort_entries(s).to_multiset() == s.to_multiset(),
        sorted_by_file_name(sort_entries(s)),
    decreases s.len(),
{
    broadcast use vstd::seq_lib::group_to_multiset_ensures;
    if s.len() > 0 {
        let rest = sort_entries(s.drop_last());
        let e = s.last();
        law_sorted_entries(s.drop_last());
        lemma_insertion_point(rest, e);
        let p = insertion_point(rest, e);
        let r = rest.insert(p, e);
        assert(r.remove(p) =~= rest);
        assert(r[p] == e);
        assert(r.to_multiset() =~= rest.to_multiset().insert(e)) by {
            assert(r.remove(p).to_multiset() == r.to_multiset().remove(r[p]));
            assert(r.to_multiset().count(e) > 0) by {
                assert(r.contains(e));
            }
        }
        assert(s =~= s.drop_last().push(e));
        assert forall|i: int, j: int| 0 <= i < j < r.len() implies !name_before(
            #[trigger] r[j].file_name@,
            #[trigger] r[i].file_name@,
        ) by {
            if j < p {
                assert(r[i] == rest[i] && r[j] == rest[j]);
                assert(!name_before(rest[j].file_name@, rest[i].file_name@));
            } else if j == p {
                assert(r[i] == rest[i]);
                assert(!name_before(e.file_name@, rest[i].file_name@));
            } else if i < p {
                assert(r[i] == rest[i] && r[j] == rest[j - 1]);
                assert(!name_before(rest[j - 1].file_name@, rest[i].file_name@));
            } else if i == p {
                assert(r[j] == rest[j - 1]);
                if name_before(r[j].file_name@, e.file_name@) {
                    lemma_name_before_transitive(r[j].file_name@, e.file_name@, rest[p].file_name@);
                    if p < j - 1 {
                        assert(!name_before(rest[j - 1].file_name@, rest[p].file_name@));
                    } else {
                        lemma_name_before_irreflexive(rest[p].file_name@);
                    }
                }
            } else {
                assert(r[i] == rest[i - 1] && r[j] == rest[j - 1]);
                assert(!name_before(rest[j - 1].file_name@, rest[i - 1].file_name@));
            }
        }
    }
}

/// A copy of an entry.
fn copy_entry(e: &PluginFileEntry) -> (copy: PluginFileEntry)
    ensures
        copy == *e,
{
    PluginFileEntry { file_name: e.file_name.clone(), is_file: e.is_file }
}

/// The entries sorted by file name; entries with equal names keep their order.
pub fn sorted_entries(entries: &Vec<PluginFileEntry>) -> (sorted: Vec<PluginFileEntry>)
    ensures
        sorted@ == sort_entries(entries@),
{
    let mut sorted: Vec<PluginFileEntry> = Vec::new();
    let n = entries.len();
    let mut i: usize = 0;
    assert(entries@.take(0) =~= Seq::<PluginFileEntry>::empty());
    while i < n
        invariant
            n == entries@.len(),
            i <= n,
            sorted@ == sort_entries(entries@.take(i as int)),
        decreases n - i,
    {
        let e = copy_entry(&entries[i]);
        let m = sorted.len();
        let mut j: usize = 0;
        assert(sorted@.skip(0) =~= sorted@);
        while j < m && !name_is_before(e.file_name.as_str(), sorted[j].file_name.as_str())
            invariant
                m == sorted@.len(),
                j <= m,
                insertion_point(sorted@, e) == j + insertion_point(sorted@.skip(j as int), e),
            decreases m - j,
        {
            assert(sorted@.skip(j as int)[0] == sorted@[j as int]);
            assert(sorted@.skip(j as int).drop_first() =~= sorted@.skip(j + 1));
            j = j + 1;
        }
        proof {
            if j < m {
                assert(sorted@.skip(j as int)[0] == sorted@[j as int]);
            }
        }
        assert(insertion_point(sorted@, e) == j);
        assert(entries@.take(i + 1).drop_last() =~= entries@.take(i as int));
        assert(entries@.take(i + 1).last() == entries@[i as int]);
        sorted.insert(j, e);
        i = i + 1;
    }
    assert(entries@.take(n as int) =~= entries@);
    sorted
}

} // verus!
