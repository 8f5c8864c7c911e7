//! Looking verses up by surah name and verse number, and the pages they are
//! printed on.
use crate::corpus::{Ayat, AyatView, Quraan};
use crate::text::str_eq;
use vstd::prelude::*;

verus! {

/// Whether the verse belongs to the surah of the given name, in either of
/// its two forms. Names are compared as they stand.
pub open spec fn in_surah(ayat: AyatView, name: Seq<char>) -> bool {
    ayat.sura_name_ar == name || ayat.sura_name_en == name
}

/// The verses of the surah of the given name, in the order of the corpus.
pub open spec fn surah_ayat(ayat: Seq<AyatView>, name: Seq<char>) -> Seq<AyatView> {
    ayat.filter(|a: AyatView| in_surah(a, name))
}

/// Whether the verse is the one with the given number in the surah of the
/// given name.
pub open spec fn is_ayah(ayat: AyatView, name: Seq<char>, number: u32) -> bool {
    in_surah(ayat, name) && ayat.aya_no == number
}

/// Whether `i` is the first place at which the condition holds.
pub open spec fn is_first_place(ayat: Seq<AyatView>, wanted: spec_fn(AyatView) -> bool, i: int)
    -> bool {
    &&& 0 <= i < ayat.len()
    &&& wanted(ayat[i])
    &&& forall|j: int| 0 <= j < i ==> !wanted(#[trigger] ayat[j])
}

/// What a lookup gives: the first verse for which the condition holds, or
/// nothing where it holds for none.
pub open spec fn found_first(
    ayat: Seq<AyatView>,
    wanted: spec_fn(AyatView) -> bool,
    found: Option<AyatView>,
) -> bool {
    match found {
        Some(a) => exists|i: int| is_first_place(ayat, wanted, i) && ayat[i] == a,
        None => forall|i: int| 0 <= i < ayat.len() ==> !wanted(#[trigger] ayat[i]),
    }
}

/// The first verse for which the condition holds, if it holds for any.
pub open spec fn first_wanted(ayat: Seq<AyatView>, wanted: spec_fn(AyatView) -> bool) -> Option<
    AyatView,
> {
    if exists|i: int| is_first_place(ayat, wanted, i) {
        Some(ayat[choose|i: int| is_first_place(ayat, wanted, i)])
    } else {
        None
    }
}

/// What `found_first` accepts is what `first_wanted` names.
pub proof fn lemma_found_is_first_wanted(
    ayat: Seq<AyatView>,
    wanted: spec_fn(AyatView) -> bool,
    found: Option<AyatView>,
)
    requires
        found_first(ayat, wanted, found),
    ensures
        found == first_wanted(ayat, wanted),
{
    if let Some(a) = found {
        // Two first places cannot differ: the earlier one rules the later out.
        let i = choose|i: int| is_first_place(ayat, wanted, i) && ayat[i] == a;
        let k = choose|k: int| is_first_place(ayat, wanted, k);
        assert(i == k);
    }
}

/// The view of a verse that may have been found.
pub open spec fn found_view(found: Option<&Ayat>) -> Option<AyatView> {
    match found {
        Some(a) => Some(a@),
        None => None,
    }
}

/// The views of borrowed verses.
pub open spec fn views(ayat: Seq<&Ayat>) -> Seq<AyatView> {
    ayat.map_values(|a: &Ayat| a@)
}

impl Ayat {
    /// Whether the verse belongs to the surah of the given name, in either
    /// of its two forms.
    pub fn in_surah(&self, name: &str) -> (belongs: bool)
        ensures
            belongs == in_surah(self@, name@),
    {
        str_eq(self.sura_name_ar.as_str(), name) || str_eq(self.sura_name_en.as_str(), name)
    }
}

impl Quraan {
    /// The verses of the surah of the given name, in the order of the
    /// corpus. No verse is returned exactly if no surah has that name.
    pub fn surah_ayat(&self, name: &str) -> (ayat: Vec<&Ayat>)
        ensures
            views(ayat@) == surah_ayat(self@, name@),
    {
        let ghost wanted = |a: AyatView| in_surah(a, name@);
        let mut out: Vec<&Ayat> = Vec::new();
        let mut i: usize = 0;
        while i < self.ayat.len()
            invariant
                i <= self.ayat.len(),
                wanted == |a: AyatView| in_surah(a, name@),
                views(out@) == self@.take(i as int).filter(wanted),
            decreases self.ayat.len() - i,
        {
            let ayah = &self.ayat[i];
            proof {
                assert(self@.take(i + 1) == self@.take(i as int).push(ayah@));
                self@.take(i as int).lemma_filter_push(ayah@, wanted);
            }
            if ayah.in_surah(name) {
                out.push(ayah);
            }
            i = i + 1;
        }
        proof {
            assert(self@.take(self@.len() as int) == self@);
        }
        out
    }

    /// The surah of the given name, as the verses that belong to it, or
    /// nothing where no verse carries the name.
    pub fn find_surah(&self, name: &str) -> (found: Option<Vec<&Ayat>>)
        ensures
            match found {
                Some(ayat) => ayat@.len() > 0 && views(ayat@) == surah_ayat(self@, name@),
                None => surah_ayat(self@, name@).len() == 0,
            },
    {
        let ayat = self.surah_ayat(name);
        if ayat.len() < 1 {
            None
        } else {
            Some(ayat)
        }
    }

    /// The verse with the given number in the surah of the given name, in
    /// either of its two forms: the first such verse of the corpus.
    pub fn find_ayah(&self, surah_name: &str, ayah_number: u32) -> (found: Option<&Ayat>)
        ensures
            found_view(found) == first_wanted(
                self@,
                |a: AyatView| is_ayah(a, surah_name@, ayah_number),
            ),
    {
        let ghost wanted = |a: AyatView| is_ayah(a, surah_name@, ayah_number);
        let mut i: usize = 0;
        while i < self.ayat.len()
            invariant
                i <= self.ayat.len(),
                wanted == |a: AyatView| is_ayah(a, surah_name@, ayah_number),
                forall|j: int| 0 <= j < i ==> !wanted(#[trigger] self@[j]),
            decreases self.ayat.len() - i,
        {
            let ayah = &self.ayat[i];
            if ayah.in_surah(surah_name) && ayah.aya_no == ayah_number {
                proof {
                    assert(is_first_place(self@, wanted, i as int));
                    lemma_found_is_first_wanted(self@, wanted, Some(ayah@));
                }
                return Some(ayah);
            }
            i = i + 1;
        }
        proof {
            lemma_found_is_first_wanted(self@, wanted, None);
        }
        None
    }
}

/// A lookup by a name that no verse carries, in either form, finds nothing.
pub proof fn unknown_name_finds_nothing(ayat: Seq<AyatView>, name: Seq<char>)
    requires
        forall|i: int| 0 <= i < ayat.len() ==> !in_surah(#[trigger] ayat[i], name),
    ensures
        surah_ayat(ayat, name).len() == 0,
    decreases ayat.len(),
{
    reveal(Seq::filter);
    if ayat.len() > 0 {
        unknown_name_finds_nothing(ayat.drop_last(), name);
    }
}

/// A lookup by name finds the verses that carry the name, all of them, and
/// nothing else.
pub proof fn known_name_finds_its_surah(ayat: Seq<AyatView>, name: Seq<char>)
    ensures
        forall|i: int|
            0 <= i < surah_ayat(ayat, name).len() ==> in_surah(
                #[trigger] surah_ayat(ayat, name)[i],
                name,
            ),
        forall|i: int|
            0 <= i < ayat.len() && in_surah(#[trigger] ayat[i], name) ==> surah_ayat(
                ayat,
                name,
            ).contains(ayat[i]),
{
    let wanted = |a: AyatView| in_surah(a, name);
    assert forall|i: int| 0 <= i < surah_ayat(ayat, name).len() implies in_surah(
        #[trigger] surah_ayat(ayat, name)[i],
        name,
    ) by {
        ayat.lemma_filter_pred(wanted, i);
    }
    assert forall|i: int| 0 <= i < ayat.len() && in_surah(#[trigger] ayat[i], name) implies
        surah_ayat(ayat, name).contains(ayat[i]) by {
        ayat.lemma_filter_contains_rev(wanted, ayat[i]);
    }
}

/// The pages on which the verses are printed.
pub open spec fn page_set(ayat: Seq<AyatView>) -> Set<u32> {
    Set::new(|page: u32| exists|i: int| 0 <= i < ayat.len() && (#[trigger] ayat[i]).page == page)
}

/// Whether the numbers rise strictly from each to the next.
pub open spec fn strictly_ascending(pages: Seq<u32>) -> bool {
    forall|i: int, j: int| 0 <= i < j < pages.len() ==> pages[i] < pages[j]
}

/// The pages on which the verses are printed, each once, in ascending order.
pub open spec fn sorted_pages(ayat: Seq<AyatView>) -> Seq<u32> {
    choose|pages: Seq<u32>| strictly_ascending(pages) && pages.to_set() == page_set(ayat)
}

/// A set of numbers has one strictly ascending listing at most.
pub proof fn ascending_listing_is_unique(a: Seq<u32>, b: Seq<u32>)
    requires
        strictly_ascending(a),
        strictly_ascending(b),
        a.to_set() == b.to_set(),
    ensures
        a == b,
    decreases a.len(),
{
    if a.len() == 0 {
        if b.len() > 0 {
            assert(a.to_set().contains(b[0]));
        }
    } else if b.len() == 0 {
        assert(b.to_set().contains(a[0]));
    } else {
        // Both end with the largest number of the set.
        let x = a.last();
        let y = b.last();
        assert(b.to_set().contains(x));
        let kx = choose|k: int| 0 <= k < b.len() && b[k] == x;
        assert(b[kx] <= y);
        assert(a.to_set().contains(y));
        let ky = choose|k: int| 0 <= k < a.len() && a[k] == y;
        assert(a[ky] <= x);
        // Without it, both list the rest of the set.
        let a0 = a.drop_last();
        let b0 = b.drop_last();
        assert forall|p: u32| a0.to_set().contains(p) == b0.to_set().contains(p) by {
            if a0.contains(p) {
                let k = choose|k: int| 0 <= k < a0.len() && a0[k] == p;
                assert(b.to_set().contains(p));
                let m = choose|m: int| 0 <= m < b.len() && b[m] == p;
                assert(b0[m] == p);
            }
            if b0.contains(p) {
                let k = choose|k: int| 0 <= k < b0.len() && b0[k] == p;
                assert(a.to_set().contains(p));
                let m = choose|m: int| 0 <= m < a.len() && a[m] == p;
                assert(a0[m] == p);
            }
        }
        assert(a0.to_set() =~= b0.to_set());
        ascending_listing_is_unique(a0, b0);
        assert(b == b0.push(y));
    }
}

/// Puts a number at its place in a strictly ascending list, unless the list
/// holds it already.
fn insert_ascending(pages: &mut Vec<u32>, page: u32)
    requires
        strictly_ascending(old(pages)@),
    ensures
        strictly_ascending(final(pages)@),
        final(pages)@.to_set() == old(pages)@.to_set().insert(page),
        final(pages)@.len() == old(pages)@.len() + if old(pages)@.contains(page) {
            0int
        } else {
            1int
        },
{
    let mut at: usize = 0;
    while at < pages.len() && pages[at] < page
        invariant
            at <= pages.len(),
            pages@ == old(pages)@,
            strictly_ascending(pages@),
            forall|j: int| 0 <= j < at ==> (#[trigger] pages@[j]) < page,
        decreases pages.len() - at,
    {
        at = at + 1;
    }
    let ghost before = pages@;
    if at >= pages.len() || pages[at] != page {
        pages.insert(at, page);
        proof {
            let after = pages@;
            // Before `at` the numbers are smaller than `page`, from `at` on larger.
            assert forall|k: int| 0 <= k < before.len() implies before[k] != page by {
                if k >= at {
                    assert(before[at as int] <= before[k]);
                }
            }
            assert forall|p: u32| after.to_set().contains(p) == before.to_set().insert(
                page,
            ).contains(p) by {
                if after.contains(p) {
                    let k = choose|k: int| 0 <= k < after.len() && after[k] == p;
                    if k < at {
                        assert(before[k] == p);
                    } else if k > at {
                        assert(before[k - 1] == p);
                    }
                }
                if before.contains(p) {
                    let k = choose|k: int| 0 <= k < before.len() && before[k] == p;
                    if k < at {
                        assert(after[k] == p);
                    } else {
                        assert(after[k + 1] == p);
                    }
                }
                if p == page {
                    assert(after[at as int] == p);
                }
            }
            assert(after.to_set() =~= before.to_set().insert(page));
        }
    }
}

/// The pages on which the verses are printed: each page once, in ascending
/// order. No verses give no pages.
pub fn distinct_pages(ayat: &Vec<&Ayat>) -> (pages: Vec<u32>)
    ensures
        pages@ == sorted_pages(views(ayat@)),
        strictly_ascending(pages@),
        pages@.to_set() == page_set(views(ayat@)),
        pages@.len() <= ayat@.len(),
{
    let mut pages: Vec<u32> = Vec::new();
    let mut i: usize = 0;
    while i < ayat.len()
        invariant
            i <= ayat.len(),
            strictly_ascending(pages@),
            pages@.to_set() == page_set(views(ayat@).take(i as int)),
            pages@.len() <= i,
        decreases ayat.len() - i,
    {
        let page = ayat[i].page;
        proof {
            let seen = views(ayat@).take(i as int);
            let more = views(ayat@).take(i + 1);
            assert(more[i as int].page == page);
            assert forall|p: u32| page_set(more).contains(p) == page_set(seen).insert(
                page,
            ).contains(p) by {
                if page_set(more).contains(p) {
                    let k = choose|k: int| 0 <= k < more.len() && (#[trigger] more[k]).page == p;
                    assert(k == i || seen[k].page == p);
                }
                if page_set(seen).contains(p) {
                    let k = choose|k: int| 0 <= k < seen.len() && (#[trigger] seen[k]).page == p;
                    assert(more[k].page == p);
                }
            }
            assert(page_set(more) =~= page_set(seen).insert(page));
        }
        insert_ascending(&mut pages, page);
        i = i + 1;
    }
    proof {
        assert(views(ayat@).take(ayat@.len() as int) == views(ayat@));
        ascending_listing_is_unique(pages@, sorted_pages(views(ayat@)));
    }
    pages
}

} // verus!
