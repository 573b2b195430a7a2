//! The rules of the saved-haiku collection: saving never creates a
//! duplicate entry, and a random pick is one of the saved haikus.
//! (Reading and writing the collection on disk is done by the program.)

use vstd::prelude::*;

use crate::haiku::Haiku;

verus! {

/// The views of a list of haikus.
pub open spec fn haiku_views(v: Seq<Haiku>) -> Seq<Seq<Seq<char>>> {
    v.map_values(|h: Haiku| h@)
}

/// The collection after saving `h`: unchanged when it already holds `h`,
/// otherwise `h` appended at the end.
pub open spec fn saved(all: Seq<Seq<Seq<char>>>, h: Seq<Seq<char>>) -> Seq<Seq<Seq<char>>> {
    if all.contains(h) {
        all
    } else {
        all.push(h)
    }
}

/// The two haikus have the same lines.
pub fn same_haiku(a: &Haiku, b: &Haiku) -> (r: bool)
    ensures
        r == (a@ == b@),
{
    let r = a.lines[0] == b.lines[0] && a.lines[1] == b.lines[1] && a.lines[2] == b.lines[2];
    proof {
        if a.lines[0]@ == b.lines[0]@ && a.lines[1]@ == b.lines[1]@ && a.lines[2]@ == b.lines[2]@ {
            assert(a@ =~= b@);
        }
        if a@ == b@ {
            assert(a@[0] == b@[0] && a@[1] == b@[1] && a@[2] == b@[2]);
        }
    }
    r
}

/// Saves `haiku` into the collection `all`: appended at the end, unless
/// the collection already holds an equal haiku, in which case nothing
/// changes.
pub fn save_into(all: &mut Vec<Haiku>, haiku: Haiku)
    ensures
        haiku_views(final(all)@) == saved(haiku_views(old(all)@), haiku@),
{
    let n = all.len();
    let ghost before = haiku_views(all@);
    for i in 0..n
        invariant
            n == all@.len(),
            before == haiku_views(all@),
            forall|j: int| 0 <= j < i ==> before[j] != haiku@,
    {
        if same_haiku(&all[i], &haiku) {
            assert(before[i as int] == haiku@);
            return;
        }
    }
    assert(!before.contains(haiku@));
    all.push(haiku);
    assert(haiku_views(all@) =~= before.push(haiku@));
}

/// A haiku picked from the collection by `seed`: the one at position
/// `seed` modulo the collection's size, or `None` when it is empty.
pub fn pick(all: &Vec<Haiku>, seed: usize) -> (r: Option<Haiku>)
    ensures
        r is None <==> all@.len() == 0,
        r matches Some(h) ==> h@ == all@[seed as int % all@.len() as int]@,
{
    let n = all.len();
    if n == 0 {
        None
    } else {
        let i = seed % n;
        Some(all[i].duplicate())
    }
}

/// Saving the same haiku twice leaves the collection as saving it once.
pub proof fn lemma_save_idempotent(all: Seq<Seq<Seq<char>>>, h: Seq<Seq<char>>)
    ensures
        saved(saved(all, h), h) == saved(all, h),
{
    if !all.contains(h) {
        assert(all.push(h)[all.len() as int] == h);
    }
}

/// A collection without duplicates stays without duplicates after a save,
/// holds the saved haiku, and keeps every earlier entry in its place.
pub proof fn lemma_save_keeps_no_duplicates(all: Seq<Seq<Seq<char>>>, h: Seq<Seq<char>>)
    ensures
        all.no_duplicates() ==> saved(all, h).no_duplicates(),
        saved(all, h).contains(h),
        all.is_prefix_of(saved(all, h)),
{
    let s = saved(all, h);
    if !all.contains(h) {
        assert(s[all.len() as int] == h);
        assert(all.is_prefix_of(s)) by {
            assert(s.subrange(0, all.len() as int) =~= all);
        }
    } else {
        assert(all.is_prefix_of(s)) by {
            assert(s.subrange(0, all.len() as int) =~= all);
        }
    }
}

/// A picked haiku is one of the saved haikus.
pub proof fn lemma_pick_is_saved(all: Seq<Seq<Seq<char>>>, seed: usize)
    requires
        all.len() > 0,
    ensures
        all.contains(all[seed as int % all.len() as int]),
{
    let i = seed as int % all.len() as int;
    assert(0 <= i < all.len());
}

} // verus!
