//! The order in which the folder browser and the library list files:
//! folders before files, then by name without regard to case, as `str`
//! ordering compares the lowercased names.

use vstd::prelude::*;

use crate::media::library::{
    is_hidden, kind_for_path, plain_extension, spec_kind_for_extension, DirectoryEntry,
};
use crate::text::{lower_chars, lowercase, to_chars};

verus! {

/// Lexicographic order on character sequences: the order of `str`'s `Ord`,
/// which compares UTF-8 bytes and so agrees with comparing code points.
pub open spec fn lex_le(a: Seq<char>, b: Seq<char>) -> bool
    decreases a.len(),
{
    if a.len() == 0 {
        true
    } else if b.len() == 0 {
        false
    } else if a[0] != b[0] {
        (a[0] as int) < (b[0] as int)
    } else {
        lex_le(a.drop_first(), b.drop_first())
    }
}

/// Any two sequences are ordered one way or the other.
pub proof fn lemma_lex_total(a: Seq<char>, b: Seq<char>)
    ensures
        lex_le(a, b) || lex_le(b, a),
    decreases a.len(),
{
    if a.len() > 0 && b.len() > 0 && a[0] == b[0] {
        lemma_lex_total(a.drop_first(), b.drop_first());
    }
}

/// The order is transitive.
pub proof fn lemma_lex_trans(a: Seq<char>, b: Seq<char>, c: Seq<char>)
    requires
        lex_le(a, b),
        lex_le(b, c),
    ensures
        lex_le(a, c),
    decreases a.len(),
{
    if a.len() > 0 && b.len() > 0 && c.len() > 0 && a[0] == b[0] && b[0] == c[0] {
        lemma_lex_trans(a.drop_first(), b.drop_first(), c.drop_first());
    }
}

/// A listing key: whether the row is a folder, and its lowercased name.
pub open spec fn ranks_before(a: (bool, Seq<char>), b: (bool, Seq<char>)) -> bool {
    (a.0 && !b.0) || (a.0 == b.0 && lex_le(a.1, b.1))
}

proof fn lemma_ranks_total(a: (bool, Seq<char>), b: (bool, Seq<char>))
    ensures
        ranks_before(a, b) || ranks_before(b, a),
{
    lemma_lex_total(a.1, b.1);
}

proof fn lemma_ranks_trans(a: (bool, Seq<char>), b: (bool, Seq<char>), c: (bool, Seq<char>))
    requires
        ranks_before(a, b),
        ranks_before(b, c),
    ensures
        ranks_before(a, c),
{
    if a.0 == b.0 && b.0 == c.0 {
        lemma_lex_trans(a.1, b.1, c.1);
    }
}

/// The key by which a row is listed.
pub open spec fn entry_key(e: DirectoryEntry) -> (bool, Seq<char>) {
    (e.is_dir, lowercase(e.name@))
}

/// The key by which the `k`th of `keys` is listed.
pub open spec fn listing_key(keys: Seq<(bool, String)>, k: int) -> (bool, Seq<char>) {
    (keys[k].0, lowercase(keys[k].1@))
}

/// A permutation that only ever increases is the identity.
proof fn lemma_increasing_permutation(p: Seq<usize>, n: nat)
    requires
        is_permutation(p, n),
        forall|a: int, b: int| 0 <= a < b < p.len() ==> p[a] < p[b],
    ensures
        forall|k: int| 0 <= k < p.len() ==> p[k] == k,
{
    assert forall|k: int| 0 <= k < p.len() implies p[k] >= k by {
        lemma_increasing_lower(p, n, k);
    }
    assert forall|k: int| 0 <= k < p.len() implies p[k] <= k by {
        lemma_increasing_upper(p, n, k);
    }
}

proof fn lemma_increasing_lower(p: Seq<usize>, n: nat, k: int)
    requires
        is_permutation(p, n),
        forall|a: int, b: int| 0 <= a < b < p.len() ==> p[a] < p[b],
        0 <= k < p.len(),
    ensures
        p[k] >= k,
    decreases k,
{
    if k > 0 {
        lemma_increasing_lower(p, n, k - 1);
    }
}

proof fn lemma_increasing_upper(p: Seq<usize>, n: nat, k: int)
    requires
        is_permutation(p, n),
        forall|a: int, b: int| 0 <= a < b < p.len() ==> p[a] < p[b],
        0 <= k < p.len(),
    ensures
        p[k] <= k,
    decreases p.len() - k,
{
    if k < p.len() - 1 {
        lemma_increasing_upper(p, n, k + 1);
    }
}

/// `p` lists each of `0..n` exactly once.
pub open spec fn is_permutation(p: Seq<usize>, n: nat) -> bool {
    &&& p.len() == n
    &&& forall|k: int| 0 <= k < p.len() ==> p[k] < n
    &&& forall|a: int, b: int| 0 <= a < b < p.len() ==> p[a] != p[b]
}

/// Whether `a` comes no later than `b` in lexicographic order.
fn chars_le(a: &Vec<char>, b: &Vec<char>) -> (r: bool)
    ensures
        r == lex_le(a@, b@),
{
    let mut i: usize = 0;
    assert(a@.skip(0) =~= a@);
    assert(b@.skip(0) =~= b@);
    while i < a.len() && i < b.len() && a[i] == b[i]
        invariant
            i <= a@.len(),
            i <= b@.len(),
            a@.subrange(0, i as int) == b@.subrange(0, i as int),
            lex_le(a@, b@) == lex_le(a@.skip(i as int), b@.skip(i as int)),
        decreases a.len() - i,
    {
        proof {
            let sa = a@.skip(i as int);
            let sb = b@.skip(i as int);
            assert(sa.drop_first() =~= a@.skip(i + 1));
            assert(sb.drop_first() =~= b@.skip(i + 1));
            assert(a@.subrange(0, i + 1) =~= a@.subrange(0, i as int).push(a@[i as int]));
            assert(b@.subrange(0, i + 1) =~= b@.subrange(0, i as int).push(b@[i as int]));
        }
        i = i + 1;
    }
    if i == a.len() {
        assert(a@.skip(i as int).len() == 0);
        true
    } else if i == b.len() {
        assert(b@.skip(i as int).len() == 0);
        false
    } else {
        assert(a@.skip(i as int)[0] == a@[i as int]);
        assert(b@.skip(i as int)[0] == b@[i as int]);
        a[i] < b[i]
    }
}

/// The order in which rows with the given keys are listed: folders
/// (`true`) before files, then by name compared without regard to case.
/// The result lists each index once, and the rows it names come in that
/// order.
pub fn listing_order(keys: &Vec<(bool, String)>) -> (perm: Vec<usize>)
    ensures
        is_permutation(perm@, keys@.len()),
        forall|a: int, b: int|
            0 <= a < b < perm@.len() ==> ranks_before(
                listing_key(keys@, perm@[a] as int),
                listing_key(keys@, perm@[b] as int),
            ),
        forall|a: int, b: int|
            0 <= a < b < perm@.len() && ranks_before(
                listing_key(keys@, perm@[b] as int),
                listing_key(keys@, perm@[a] as int),
            ) ==> perm@[a] < perm@[b],
        (forall|a: int, b: int|
            0 <= a < b < keys@.len() ==> ranks_before(listing_key(keys@, a), listing_key(keys@, b)))
            ==> forall|k: int| 0 <= k < perm@.len() ==> perm@[k] == k,
{
    let mut lowered: Vec<Vec<char>> = Vec::new();
    let mut j: usize = 0;
    while j < keys.len()
        invariant
            j <= keys@.len(),
            lowered@.len() == j,
            forall|k: int| 0 <= k < j ==> lowered@[k]@ == lowercase(keys@[k].1@),
        decreases keys.len() - j,
    {
        let chars = to_chars(keys[j].1.as_str());
        lowered.push(lower_chars(&chars));
        j = j + 1;
    }
    let ghost key = |k: usize| (keys@[k as int].0, lowercase(keys@[k as int].1@));
    let mut perm: Vec<usize> = Vec::new();
    let mut i: usize = 0;
    while i < keys.len()
        invariant
            i <= keys@.len(),
            lowered@.len() == keys@.len(),
            forall|k: int| 0 <= k < keys@.len() ==> lowered@[k]@ == lowercase(keys@[k].1@),
            key == (|k: usize| (keys@[k as int].0, lowercase(keys@[k as int].1@))),
            is_permutation(perm@, i as nat),
            forall|a: int, b: int|
                0 <= a < b < perm@.len() ==> ranks_before(key(perm@[a]), key(perm@[b])),
            forall|a: int, b: int|
                0 <= a < b < perm@.len() && ranks_before(key(perm@[b]), key(perm@[a])) ==> perm@[a]
                    < perm@[b],
        decreases keys.len() - i,
    {
        let mut p: usize = perm.len();
        while p > 0 && !(keys[perm[p - 1]].0 == keys[i].0 && chars_le(&lowered[perm[p - 1]], &lowered[i])
            || keys[perm[p - 1]].0 && !keys[i].0)
            invariant
                p <= perm@.len(),
                i < keys@.len(),
                lowered@.len() == keys@.len(),
                forall|k: int| 0 <= k < keys@.len() ==> lowered@[k]@ == lowercase(keys@[k].1@),
                key == (|k: usize| (keys@[k as int].0, lowercase(keys@[k as int].1@))),
                is_permutation(perm@, i as nat),
                forall|q: int| p <= q < perm@.len() ==> !ranks_before(key(perm@[q]), key(i)),
            decreases p,
        {
            proof {
                assert(!ranks_before(key(perm@[p - 1]), key(i)));
            }
            p = p - 1;
        }
        proof {
            assert forall|q: int| p <= q < perm@.len() implies ranks_before(key(i), key(perm@[q])) by {
                lemma_ranks_total(key(i), key(perm@[q]));
            }
            if p > 0 {
                assert(ranks_before(key(perm@[p - 1]), key(i)));
                assert forall|q: int| 0 <= q < p implies ranks_before(key(perm@[q]), key(i)) by {
                    if q < p - 1 {
                        lemma_ranks_trans(key(perm@[q]), key(perm@[p - 1]), key(i));
                    }
                }
            }
        }
        let ghost old_perm = perm@;
        perm.insert(p, i);
        proof {
            assert(perm@ == old_perm.insert(p as int, i));
            assert forall|a: int, b: int| 0 <= a < b < perm@.len() implies ranks_before(
                key(perm@[a]),
                key(perm@[b]),
            ) by {
                if a < p && b == p {
                } else if a == p && b > p {
                    assert(perm@[b] == old_perm[b - 1]);
                } else if b < p {
                } else if a < p && b > p {
                    assert(perm@[b] == old_perm[b - 1]);
                    assert(ranks_before(key(old_perm[a]), key(old_perm[b - 1])));
                } else {
                    assert(perm@[a] == old_perm[a - 1]);
                    assert(perm@[b] == old_perm[b - 1]);
                }
            }
            assert forall|a: int, b: int|
                0 <= a < b < perm@.len() && ranks_before(key(perm@[b]), key(perm@[a])) implies perm@[a]
                < perm@[b] by {
                if a == p {
                    assert(perm@[b] == old_perm[b - 1]);
                } else if b == p {
                } else if a < p && b < p {
                } else if a < p {
                    assert(perm@[b] == old_perm[b - 1]);
                } else {
                    assert(perm@[a] == old_perm[a - 1]);
                    assert(perm@[b] == old_perm[b - 1]);
                }
            }
            assert forall|a: int, b: int| 0 <= a < b < perm@.len() implies perm@[a] != perm@[b] by {
                if a == p {
                    assert(perm@[b] == old_perm[b - 1]);
                } else if b == p {
                } else if a < p && b < p {
                } else if a < p {
                    assert(perm@[b] == old_perm[b - 1]);
                } else {
                    assert(perm@[a] == old_perm[a - 1]);
                    assert(perm@[b] == old_perm[b - 1]);
                }
            }
        }
        i = i + 1;
    }
    proof {
        assert forall|a: int, b: int|
            0 <= a < b < perm@.len() implies ranks_before(
            listing_key(keys@, perm@[a] as int),
            listing_key(keys@, perm@[b] as int),
        ) by {
            assert(key(perm@[a]) == listing_key(keys@, perm@[a] as int));
            assert(key(perm@[b]) == listing_key(keys@, perm@[b] as int));
        }
        if forall|a: int, b: int|
            0 <= a < b < keys@.len() ==> ranks_before(listing_key(keys@, a), listing_key(keys@, b)) {
            assert forall|a: int, b: int| 0 <= a < b < perm@.len() implies perm@[a] < perm@[b] by {
                assert(key(perm@[a]) == listing_key(keys@, perm@[a] as int));
                assert(key(perm@[b]) == listing_key(keys@, perm@[b] as int));
                if perm@[b] < perm@[a] {
                    assert(ranks_before(listing_key(keys@, perm@[b] as int), listing_key(keys@, perm@[a] as int)));
                }
            }
            lemma_increasing_permutation(perm@, keys@.len());
        }
    }
    perm
}

/// The browser's rows in listing order: folders first, then by name
/// without regard to case. The rows are those given, each once.
pub fn order_entries(entries: Vec<DirectoryEntry>) -> (r: Vec<DirectoryEntry>)
    ensures
        exists|p: Seq<usize>|
            #![trigger is_permutation(p, entries@.len())]
            is_permutation(p, entries@.len()) && r@.len() == entries@.len() && (forall|k: int|
                0 <= k < r@.len() ==> r@[k] == entries@[p[k] as int]) && forall|a: int, b: int|
                0 <= a < b < r@.len() && ranks_before(entry_key(r@[b]), entry_key(r@[a])) ==> p[a]
                    < p[b],
        forall|a: int, b: int|
            0 <= a < b < r@.len() ==> ranks_before(entry_key(r@[a]), entry_key(r@[b])),
        (forall|a: int, b: int|
            0 <= a < b < entries@.len() ==> ranks_before(entry_key(entries@[a]), entry_key(entries@[b])))
            ==> r@ == entries@,
{
    let mut keys: Vec<(bool, String)> = Vec::new();
    let mut j: usize = 0;
    while j < entries.len()
        invariant
            j <= entries@.len(),
            keys@.len() == j,
            forall|k: int| 0 <= k < j ==> keys@[k].0 == entries@[k].is_dir && keys@[k].1@ == entries@[k].name@,
        decreases entries.len() - j,
    {
        let name = entries[j].name.clone();
        keys.push((entries[j].is_dir, name));
        j = j + 1;
    }
    let perm = listing_order(&keys);
    let mut r: Vec<DirectoryEntry> = Vec::new();
    let mut k: usize = 0;
    while k < perm.len()
        invariant
            k <= perm@.len(),
            keys@.len() == entries@.len(),
            is_permutation(perm@, entries@.len()),
            r@.len() == k,
            forall|q: int| 0 <= q < k ==> r@[q] == entries@[perm@[q] as int],
        decreases perm.len() - k,
    {
        let e = &entries[perm[k]];
        let media_kind = match &e.media_kind {
            Some(m) => Some(m.clone()),
            None => None,
        };
        r.push(DirectoryEntry { name: e.name.clone(), path: e.path.clone(), is_dir: e.is_dir, media_kind });
        k = k + 1;
    }
    proof {
        assert forall|a: int, b: int| 0 <= a < b < r@.len() implies ranks_before(
            entry_key(r@[a]),
            entry_key(r@[b]),
        ) by {
            assert(listing_key(keys@, perm@[a] as int) == entry_key(r@[a]));
            assert(listing_key(keys@, perm@[b] as int) == entry_key(r@[b]));
            assert(keys@[perm@[a] as int].0 == entries@[perm@[a] as int].is_dir);
            assert(keys@[perm@[b] as int].1@ == entries@[perm@[b] as int].name@);
            assert(keys@[perm@[a] as int].1@ == entries@[perm@[a] as int].name@);
        }
        assert forall|a: int, b: int|
            0 <= a < b < r@.len() && ranks_before(entry_key(r@[b]), entry_key(r@[a])) implies perm@[a]
            < perm@[b] by {
            assert(listing_key(keys@, perm@[a] as int) == entry_key(r@[a]));
            assert(listing_key(keys@, perm@[b] as int) == entry_key(r@[b]));
        }
        assert(is_permutation(perm@, entries@.len()));
        if forall|a: int, b: int|
            0 <= a < b < entries@.len() ==> ranks_before(entry_key(entries@[a]), entry_key(entries@[b])) {
            assert forall|a: int, b: int| 0 <= a < b < keys@.len() implies ranks_before(
                listing_key(keys@, a),
                listing_key(keys@, b),
            ) by {
                assert(listing_key(keys@, a) == entry_key(entries@[a]));
                assert(listing_key(keys@, b) == entry_key(entries@[b]));
            }
            assert(r@ =~= entries@);
        }
    }
    r
}

/// The browser's rows `r` are `entries` in listing order: each row once,
/// folders first and then by name without regard to case, rows that rank
/// alike keeping their order, and an already ordered list left as it is.
pub open spec fn is_listing_of(entries: Seq<DirectoryEntry>, r: Seq<DirectoryEntry>) -> bool {
    &&& exists|p: Seq<usize>|
        #![trigger is_permutation(p, entries.len())]
        is_permutation(p, entries.len()) && r.len() == entries.len() && (forall|k: int|
            0 <= k < r.len() ==> r[k] == entries[p[k] as int]) && forall|a: int, b: int|
            0 <= a < b < r.len() && ranks_before(entry_key(r[b]), entry_key(r[a])) ==> p[a] < p[b]
    &&& forall|a: int, b: int| 0 <= a < b < r.len() ==> ranks_before(entry_key(r[a]), entry_key(r[b]))
    &&& (forall|a: int, b: int|
        0 <= a < b < entries.len() ==> ranks_before(entry_key(entries[a]), entry_key(entries[b])))
        ==> r == entries
}

/// One entry of a folder as it was read: its name, its full path and
/// whether it is a folder.
#[derive(Debug, Clone, PartialEq)]
pub struct FolderEntry {
    pub name: String,
    pub path: String,
    pub is_dir: bool,
}

/// The entries a browser shows: those whose name does not start with `.`,
/// in the order read.
pub open spec fn visible_entries(read: Seq<FolderEntry>) -> Seq<FolderEntry>
    decreases read.len(),
{
    if read.len() == 0 {
        seq![]
    } else {
        let front = visible_entries(read.drop_last());
        let e = read.last();
        if e.name@.len() > 0 && e.name@[0] == '.' {
            front
        } else {
            front.push(e)
        }
    }
}

/// `row` shows `e`: the same name, path and folder flag; no media kind for
/// a folder, and for a file the kind its path gives (as far as
/// [`kind_for_path`] states it).
pub open spec fn shows(row: DirectoryEntry, e: FolderEntry) -> bool {
    &&& row.name@ == e.name@
    &&& row.path@ == e.path@
    &&& row.is_dir == e.is_dir
    &&& e.is_dir ==> row.media_kind is None
    &&& !e.is_dir && !e.path@.contains('.') ==> row.media_kind is None
    &&& !e.is_dir ==> (plain_extension(e.path@) matches Some(x) ==> match row.media_kind {
        Some(k) => spec_kind_for_extension(lowercase(x)) == Some(k@),
        None => spec_kind_for_extension(lowercase(x)) is None,
    })
}

/// Turns what was read from a folder into the browser's rows: hidden
/// entries left out, each file marked with its media kind, folders first
/// and then by name.
pub fn browse_entries(read: Vec<FolderEntry>) -> (r: Vec<DirectoryEntry>)
    ensures
        exists|rows: Seq<DirectoryEntry>|
            {
                &&& rows.len() == visible_entries(read@).len()
                &&& forall|k: int| 0 <= k < rows.len() ==> shows(#[trigger] rows[k], visible_entries(read@)[k])
                &&& is_listing_of(rows, r@)
            },
{
    let mut rows: Vec<DirectoryEntry> = Vec::new();
    let mut i: usize = 0;
    while i < read.len()
        invariant
            i <= read@.len(),
            rows@.len() == visible_entries(read@.take(i as int)).len(),
            forall|k: int|
                0 <= k < rows@.len() ==> shows(#[trigger] rows@[k], visible_entries(read@.take(i as int))[k]),
        decreases read.len() - i,
    {
        let ghost before = visible_entries(read@.take(i as int));
        proof {
            assert(read@.take(i + 1).drop_last() =~= read@.take(i as int));
            assert(read@.take(i + 1).last() == read@[i as int]);
        }
        let e = &read[i];
        if !is_hidden(e.name.as_str()) {
            let media_kind = if e.is_dir {
                None
            } else {
                match kind_for_path(e.path.as_str()) {
                    Some(k) => Some(crate::text::from_chars(&crate::text::to_chars(k))),
                    None => None,
                }
            };
            let row = DirectoryEntry {
                name: e.name.clone(),
                path: e.path.clone(),
                is_dir: e.is_dir,
                media_kind,
            };
            rows.push(row);
            proof {
                assert(visible_entries(read@.take(i + 1)) == before.push(read@[i as int]));
            }
        } else {
            proof {
                assert(visible_entries(read@.take(i + 1)) == before);
            }
        }
        i = i + 1;
    }
    proof {
        assert(read@.take(read@.len() as int) =~= read@);
    }
    let ghost shown = rows@;
    let r = order_entries(rows);
    assert(is_listing_of(shown, r@));
    r
}

} // verus!
