//! The "Add a Translation" list: every published translation, marked with
//! what is installed, followed by the installed translations the published
//! list does not name.

use vstd::prelude::*;

use crate::bible::catalogue::{all, entry_matches, spec_published_at, CatalogueEntry};
use crate::bible::models::Translation;
use crate::text::chars_eq_str;

verus! {

/// An installed translation with what the list shows of it: whether it is
/// one of Selah's own, where it came from (`bundled`, `catalogue`,
/// `operator`), and how many verses it holds.
#[derive(Debug, Clone)]
pub struct InstalledTranslation {
    pub translation: Translation,
    pub builtin: bool,
    pub origin: String,
    pub verse_count: i64,
}

/// The index of the first installed translation with id `id`, or -1.
pub open spec fn index_of_id(inst: Seq<InstalledTranslation>, id: Seq<char>) -> int
    decreases inst.len(),
{
    if inst.len() == 0 {
        -1
    } else {
        let i = index_of_id(inst.drop_last(), id);
        if i >= 0 {
            i
        } else if inst.last().translation.id@ == id {
            inst.len() - 1
        } else {
            -1
        }
    }
}

/// A published entry as listed: unchanged when not installed; marked
/// installed, with the installed translation's bundled flag and verse count,
/// when it is.
pub open spec fn listed_published(e: CatalogueEntry, k: int, inst: Seq<InstalledTranslation>) -> bool {
    let p = spec_published_at(k);
    let i = index_of_id(inst, p.id);
    if i < 0 {
        entry_matches(e, p)
    } else {
        &&& e.id@ == p.id
        &&& e.name@ == p.name
        &&& e.abbreviation@ == p.abbreviation
        &&& e.language@ == p.language
        &&& e.group@ == p.group
        &&& e.public_domain == p.public_domain
        &&& e.installed
        &&& e.builtin == inst[i].builtin
        &&& e.verse_count == inst[i].verse_count
    }
}

/// An installed translation the published list does not name, as listed:
/// its abbreviation falling back to its name, grouped as Selah's own when
/// it came bundled and as the operator's otherwise.
pub open spec fn listed_installed(e: CatalogueEntry, t: InstalledTranslation) -> bool {
    &&& e.id@ == t.translation.id@
    &&& e.name@ == t.translation.name@
    &&& e.abbreviation@ == (match t.translation.abbreviation {
        Some(a) => a@,
        None => t.translation.name@,
    })
    &&& e.language@ == t.translation.language@
    &&& e.group@ == (if t.origin@ == "bundled"@ {
        "Selah's own"@
    } else {
        "Added by you"@
    })
    &&& e.builtin == t.builtin
    &&& e.installed
    &&& e.verse_count == t.verse_count
    &&& !e.public_domain
}

/// The ids of the published translations.
pub open spec fn published_ids() -> Seq<Seq<char>> {
    Seq::new(22, |k: int| spec_published_at(k).id)
}

/// The installed translations listed after the published ones, by index:
/// each whose id is neither published nor listed before it.
pub open spec fn extra_indices(inst: Seq<InstalledTranslation>) -> Seq<int>
    decreases inst.len(),
{
    if inst.len() == 0 {
        seq![]
    } else {
        let prev = extra_indices(inst.drop_last());
        let id = inst.last().translation.id@;
        if published_ids().contains(id) || exists|q: int|
            0 <= q < prev.len() && #[trigger] inst[prev[q]].translation.id@ == id {
            prev
        } else {
            prev.push(inst.len() - 1)
        }
    }
}

proof fn lemma_index_of_id_spec(inst: Seq<InstalledTranslation>, id: Seq<char>)
    ensures
        -1 <= index_of_id(inst, id) < inst.len(),
        index_of_id(inst, id) >= 0 ==> inst[index_of_id(inst, id)].translation.id@ == id,
        index_of_id(inst, id) >= 0 ==> forall|q: int|
            0 <= q < index_of_id(inst, id) ==> inst[q].translation.id@ != id,
        index_of_id(inst, id) < 0 ==> forall|q: int| 0 <= q < inst.len() ==> inst[q].translation.id@ != id,
    decreases inst.len(),
{
    if inst.len() > 0 {
        let d = inst.drop_last();
        lemma_index_of_id_spec(d, id);
        assert forall|q: int| 0 <= q < d.len() implies d[q] == inst[q] by {}
    }
}

proof fn lemma_extra_cover(inst: Seq<InstalledTranslation>)
    ensures
        forall|q: int|
            0 <= q < inst.len() ==> published_ids().contains(#[trigger] inst[q].translation.id@) || exists|j: int|
                0 <= j < extra_indices(inst).len() && inst[extra_indices(inst)[j]].translation.id@
                    == inst[q].translation.id@,
        forall|j: int|
            0 <= j < extra_indices(inst).len() ==> 0 <= #[trigger] extra_indices(inst)[j] < inst.len(),
    decreases inst.len(),
{
    if inst.len() > 0 {
        let d = inst.drop_last();
        lemma_extra_cover(d);
        let prev = extra_indices(d);
        assert forall|j: int| 0 <= j < prev.len() implies d[prev[j]] == inst[prev[j]] by {}
        assert forall|q: int| 0 <= q < d.len() implies d[q] == inst[q] by {}
        let e = extra_indices(inst);
        assert forall|q: int| 0 <= q < inst.len() implies published_ids().contains(
            #[trigger] inst[q].translation.id@,
        ) || exists|j: int|
            0 <= j < e.len() && inst[e[j]].translation.id@ == inst[q].translation.id@ by {
            if q < d.len() {
                if !published_ids().contains(inst[q].translation.id@) {
                    assert(published_ids().contains(d[q].translation.id@) || exists|j: int|
                        0 <= j < prev.len() && d[prev[j]].translation.id@ == d[q].translation.id@);
                    let j = choose|j: int|
                        0 <= j < prev.len() && d[prev[j]].translation.id@ == d[q].translation.id@;
                    assert(e[j] == prev[j]);
                }
            } else {
                if !published_ids().contains(inst[q].translation.id@) {
                    if exists|j: int| 0 <= j < prev.len() && #[trigger] inst[prev[j]].translation.id@
                        == inst.last().translation.id@ {
                        let j = choose|j: int|
                            0 <= j < prev.len() && #[trigger] inst[prev[j]].translation.id@
                                == inst.last().translation.id@;
                        assert(e[j] == prev[j]);
                    } else {
                        assert(e[prev.len() as int] == inst.len() - 1);
                    }
                }
            }
        }
    }
}

proof fn lemma_installed_are_listed(installed: Seq<InstalledTranslation>, r: Seq<CatalogueEntry>)
    requires
        r.len() == 22 + extra_indices(installed).len(),
        forall|k: int| 0 <= k < 22 ==> listed_published(#[trigger] r[k], k, installed),
        forall|j: int|
            0 <= j < extra_indices(installed).len() ==> listed_installed(
                #[trigger] r[22 + j],
                installed[extra_indices(installed)[j]],
            ),
    ensures
        forall|q: int|
            #![trigger installed[q]]
            0 <= q < installed.len() ==> exists|k: int|
                0 <= k < r.len() && (#[trigger] r[k]).id@ == installed[q].translation.id@ && r[k].installed,
{
    lemma_extra_cover(installed);
    assert forall|q: int| #![trigger installed[q]] 0 <= q < installed.len() implies exists|k: int|
        0 <= k < r.len() && (#[trigger] r[k]).id@ == installed[q].translation.id@ && r[k].installed by {
        let id = installed[q].translation.id@;
        if published_ids().contains(id) {
            let k = choose|k: int| 0 <= k < 22 && published_ids()[k] == id;
            assert(listed_published(r[k], k, installed));
            lemma_index_of_id_spec(installed, id);
            assert(installed[q].translation.id@ == id);
            assert(index_of_id(installed, id) >= 0);
            assert(r[k].id@ == id && r[k].installed);
        } else {
            let j = choose|j: int|
                0 <= j < extra_indices(installed).len() && installed[extra_indices(installed)[j]].translation.id@
                    == id;
            assert(listed_installed(r[22 + j], installed[extra_indices(installed)[j]]));
            assert(r[22 + j].id@ == id && r[22 + j].installed);
        }
    }
}

fn same_id(a: &String, b: &String) -> (r: bool)
    ensures
        r == (a@ == b@),
{
    *a == *b
}

/// Every published translation, marked with what is installed, then the
/// installed translations the published list does not name, in the order
/// given.
pub fn list_with_installed(installed: &Vec<InstalledTranslation>) -> (r: Vec<CatalogueEntry>)
    ensures
        r@.len() == 22 + extra_indices(installed@).len(),
        forall|k: int| 0 <= k < 22 ==> listed_published(#[trigger] r@[k], k, installed@),
        forall|j: int|
            0 <= j < extra_indices(installed@).len() ==> listed_installed(
                #[trigger] r@[22 + j],
                installed@[extra_indices(installed@)[j]],
            ),
        forall|q: int|
            #![trigger installed@[q]]
            0 <= q < installed@.len() ==> exists|k: int|
                0 <= k < r@.len() && (#[trigger] r@[k]).id@ == installed@[q].translation.id@ && r@[k].installed,
{
    let base = all();
    let ghost inst = installed@;
    let mut r: Vec<CatalogueEntry> = Vec::new();
    let mut k: usize = 0;
    while k < base.len()
        invariant
            base@.len() == 22,
            forall|m: int| 0 <= m < 22 ==> entry_matches(#[trigger] base@[m], spec_published_at(m)),
            inst == installed@,
            k <= 22,
            r@.len() == k,
            forall|m: int| 0 <= m < k ==> listed_published(#[trigger] r@[m], m, inst),
        decreases base.len() - k,
    {
        let e = &base[k];
        assert(entry_matches(base@[k as int], spec_published_at(k as int)));
        let mut found: Option<usize> = None;
        let mut j: usize = 0;
        while j < installed.len()
            invariant
                inst == installed@,
                j <= inst.len(),
                found is None ==> forall|q: int| 0 <= q < j ==> inst[q].translation.id@ != e.id@,
                found matches Some(f) ==> f < inst.len() && inst[f as int].translation.id@ == e.id@
                    && forall|q: int| 0 <= q < f ==> inst[q].translation.id@ != e.id@,
            decreases installed.len() - j,
        {
            if found.is_none() && same_id(&installed[j].translation.id, &e.id) {
                found = Some(j);
            }
            j = j + 1;
        }
        proof {
            lemma_index_of_id_spec(inst, e.id@);
            let i = index_of_id(inst, e.id@);
            match found {
                Some(f) => {
                    assert(i == f as int);
                },
                None => {
                    assert(i < 0);
                },
            }
        }
        let entry = match found {
            Some(f) => CatalogueEntry {
                id: e.id.clone(),
                name: e.name.clone(),
                abbreviation: e.abbreviation.clone(),
                language: e.language.clone(),
                group: e.group.clone(),
                builtin: installed[f].builtin,
                installed: true,
                verse_count: installed[f].verse_count,
                public_domain: e.public_domain,
            },
            None => CatalogueEntry {
                id: e.id.clone(),
                name: e.name.clone(),
                abbreviation: e.abbreviation.clone(),
                language: e.language.clone(),
                group: e.group.clone(),
                builtin: e.builtin,
                installed: e.installed,
                verse_count: e.verse_count,
                public_domain: e.public_domain,
            },
        };
        r.push(entry);
        k = k + 1;
    }
    assert forall|m: int| 0 <= m < 22 implies r@[m].id@ == published_ids()[m] by {
        assert(listed_published(r@[m], m, inst));
    }
    let mut i: usize = 0;
    while i < installed.len()
        invariant
            inst == installed@,
            i <= inst.len(),
            r@.len() == 22 + extra_indices(inst.take(i as int)).len(),
            forall|m: int| 0 <= m < 22 ==> listed_published(#[trigger] r@[m], m, inst),
            forall|m: int| 0 <= m < 22 ==> r@[m].id@ == published_ids()[m],
            forall|q: int|
                0 <= q < extra_indices(inst.take(i as int)).len() ==> 0 <= #[trigger] extra_indices(
                    inst.take(i as int),
                )[q] < i,
            forall|q: int|
                0 <= q < extra_indices(inst.take(i as int)).len() ==> listed_installed(
                    #[trigger] r@[22 + q],
                    inst[extra_indices(inst.take(i as int))[q]],
                ),
        decreases installed.len() - i,
    {
        let t = &installed[i];
        let ghost pre = inst.take(i as int);
        let ghost cur = inst.take(i + 1);
        let ghost prev = extra_indices(pre);
        proof {
            assert(cur.drop_last() =~= pre);
            assert(cur.last() == inst[i as int]);
            assert forall|q: int| 0 <= q < prev.len() implies cur[prev[q]] == inst[prev[q]] by {}
        }
        let mut listed = false;
        let mut m: usize = 0;
        while m < r.len()
            invariant
                m <= r@.len(),
                listed == exists|x: int| 0 <= x < m && (#[trigger] r@[x]).id@ == t.translation.id@,
            decreases r.len() - m,
        {
            if same_id(&r[m].id, &t.translation.id) {
                listed = true;
            }
            m = m + 1;
        }
        proof {
            let id = t.translation.id@;
            let in_pub = published_ids().contains(id);
            let in_prev = exists|q: int| 0 <= q < prev.len() && #[trigger] cur[prev[q]].translation.id@ == id;
            if listed {
                let x = choose|x: int| 0 <= x < r@.len() && (#[trigger] r@[x]).id@ == id;
                if x < 22 {
                    assert(published_ids()[x] == id);
                    assert(in_pub);
                } else {
                    let q = x - 22;
                    assert(listed_installed(r@[22 + q], inst[prev[q]]));
                    assert(cur[prev[q]].translation.id@ == id);
                    assert(in_prev);
                }
            } else {
                if in_pub {
                    let x = choose|x: int| 0 <= x < 22 && published_ids()[x] == id;
                    assert(r@[x].id@ == id);
                }
                if in_prev {
                    let q = choose|q: int| 0 <= q < prev.len() && #[trigger] cur[prev[q]].translation.id@ == id;
                    assert(listed_installed(r@[22 + q], inst[prev[q]]));
                    assert(r@[22 + q].id@ == id);
                }
            }
            assert(listed == (in_pub || in_prev));
        }
        if !listed {
            let abbreviation = match &t.translation.abbreviation {
                Some(a) => a.clone(),
                None => t.translation.name.clone(),
            };
            let group = if chars_eq_str(&crate::text::to_chars(t.origin.as_str()), "bundled") {
                "Selah's own".to_owned()
            } else {
                "Added by you".to_owned()
            };
            r.push(
                CatalogueEntry {
                    id: t.translation.id.clone(),
                    name: t.translation.name.clone(),
                    abbreviation,
                    language: t.translation.language.clone(),
                    group,
                    builtin: t.builtin,
                    installed: true,
                    verse_count: t.verse_count,
                    public_domain: false,
                },
            );
        }
        proof {
            assert(extra_indices(cur) == if listed {
                prev
            } else {
                prev.push(i as int)
            });
        }
        i = i + 1;
    }
    assert(inst.take(inst.len() as int) =~= inst);
    proof {
        lemma_installed_are_listed(inst, r@);
    }
    r
}

} // verus!
