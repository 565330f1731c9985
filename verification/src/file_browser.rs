use vstd::prelude::*;

use crate::text::{lemma_str_lt_asymmetric, lemma_str_lt_transitive, str_less, str_lt};

verus! {

/// An entry of a directory listing.
#[derive(Debug)]
pub struct FileEntry {
    pub name: String,
    pub is_dir: bool,
}

/// Whether `a` is listed before `b`: directories before files, and within each, names in
/// the order of `str`.
pub open spec fn listed_before(a: FileEntry, b: FileEntry) -> bool {
    (a.is_dir && !b.is_dir) || (a.is_dir == b.is_dir && str_lt(a.name@, b.name@))
}

/// Whether `s` is in listing order: no entry is listed before one that comes earlier.
pub open spec fn in_listing_order(s: Seq<FileEntry>) -> bool {
    forall|i: int, j: int| 0 <= i < j < s.len() ==> !listed_before(#[trigger] s[j], #[trigger] s[i])
}

/// No entry is listed before itself, and two entries are never listed before each other.
pub proof fn lemma_listed_before_asymmetric(a: FileEntry, b: FileEntry)
    ensures
        !(listed_before(a, b) && listed_before(b, a)),
        !listed_before(a, a),
{
    lemma_str_lt_asymmetric(a.name@, b.name@);
}

/// Being listed before is transitive.
pub proof fn lemma_listed_before_transitive(a: FileEntry, b: FileEntry, c: FileEntry)
    requires
        listed_before(a, b),
        listed_before(b, c),
    ensures
        listed_before(a, c),
{
    if a.is_dir == b.is_dir && b.is_dir == c.is_dir {
        lemma_str_lt_transitive(a.name@, b.name@, c.name@);
    }
}

fn is_listed_before(a: &FileEntry, b: &FileEntry) -> (r: bool)
    ensures
        r == listed_before(*a, *b),
{
    (a.is_dir && !b.is_dir) || (a.is_dir == b.is_dir && str_less(a.name.as_str(), b.name.as_str()))
}

/// The entries in listing order: directories first, then files, each sorted by name.
pub fn sort_entries(entries: Vec<FileEntry>) -> (r: Vec<FileEntry>)
    ensures
        in_listing_order(r@),
        r@.to_multiset() == entries@.to_multiset(),
{
    broadcast use vstd::seq_lib::group_to_multiset_ensures;

    let ghost all = entries@;
    let mut input = entries;
    let mut out: Vec<FileEntry> = Vec::new();
    while input.len() > 0
        invariant
            in_listing_order(out@),
            out@.to_multiset().add(input@.to_multiset()) == all.to_multiset(),
        decreases input.len(),
    {
        let ghost before_input = input@;
        let x = input.pop().unwrap();
        assert(before_input =~= input@.push(x));
        let mut k: usize = 0;
        while k < out.len() && !is_listed_before(&x, &out[k])
            invariant
                k <= out.len(),
                in_listing_order(out@),
                forall|i: int| 0 <= i < k ==> !listed_before(x, #[trigger] out@[i]),
            decreases out.len() - k,
        {
            k += 1;
        }
        let ghost old_out = out@;
        out.insert(k, x);
        proof {
            assert(out@ == old_out.insert(k as int, x));
            assert forall|i: int, j: int| 0 <= i < j < out@.len() implies !listed_before(
                #[trigger] out@[j],
                #[trigger] out@[i],
            ) by {
                if j < k {
                } else if j == k {
                    assert(out@[i] == old_out[i]);
                } else if i == k {
                    let m = j - 1;
                    assert(out@[j] == old_out[m]);
                    assert(listed_before(x, old_out[k as int]));
                    if m == k {
                        lemma_listed_before_asymmetric(x, old_out[m]);
                    } else {
                        assert(!listed_before(old_out[m], old_out[k as int]));
                        if listed_before(old_out[m], x) {
                            lemma_listed_before_transitive(old_out[m], x, old_out[k as int]);
                        }
                    }
                } else if i < k {
                    assert(out@[i] == old_out[i]);
                    assert(out@[j] == old_out[j - 1]);
                } else {
                    assert(out@[i] == old_out[i - 1]);
                    assert(out@[j] == old_out[j - 1]);
                }
            }
            vstd::seq_lib::to_multiset_insert(old_out, k as int, x);
            vstd::seq_lib::to_multiset_build(input@, x);
            assert(out@.to_multiset() == old_out.to_multiset().insert(x));
            assert(before_input.to_multiset() == input@.to_multiset().insert(x));
            assert(out@.to_multiset().add(input@.to_multiset()) =~= old_out.to_multiset().add(
                before_input.to_multiset(),
            ));
        }
    }
    assert(input@ =~= Seq::<FileEntry>::empty());
    assert(input@.to_multiset() =~= vstd::multiset::Multiset::<FileEntry>::empty());
    assert(out@.to_multiset() =~= out@.to_multiset().add(input@.to_multiset()));
    out
}

} // verus!
