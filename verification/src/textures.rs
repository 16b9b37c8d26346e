//! The texture names met so far, each reported once.

use vstd::prelude::*;

verus! {

/// The names among `names` that are new with respect to `seen`, in the
/// order in which they come: a name is new if it is not empty, does not
/// occur in `seen`, and has not come earlier in `names`.
pub open spec fn fresh_names(seen: Seq<Seq<char>>, names: Seq<Seq<char>>) -> Seq<Seq<char>>
    decreases names.len(),
{
    if names.len() == 0 {
        Seq::empty()
    } else {
        let earlier = fresh_names(seen, names.drop_last());
        let name = names.last();
        if name.len() > 0 && !seen.contains(name) && !earlier.contains(name) {
            earlier.push(name)
        } else {
            earlier
        }
    }
}

/// The texture names met so far, in the order of their first occurrence.
/// No name occurs twice and none is empty.
pub struct TextureLog {
    seen: Vec<String>,
}

impl View for TextureLog {
    type V = Seq<Seq<char>>;

    closed spec fn view(&self) -> Seq<Seq<char>> {
        self.seen.deep_view()
    }
}

impl TextureLog {
    #[verifier::type_invariant]
    spec fn distinct(self) -> bool {
        self.seen.deep_view().no_duplicates() && forall|i: int|
            0 <= i < self.seen.deep_view().len() ==> (#[trigger] self.seen.deep_view()[i]).len() > 0
    }

    /// A log in which nothing has been met yet.
    pub fn new() -> (log: TextureLog)
        ensures
            log@ == Seq::<Seq<char>>::empty(),
    {
        let log = TextureLog { seen: Vec::new() };
        assert(log.seen.deep_view() =~= Seq::<Seq<char>>::empty());
        log
    }

    /// Number of distinct names met so far.
    pub fn len(&self) -> (n: usize)
        ensures
            n == self@.len(),
    {
        self.seen.len()
    }

    /// Whether `name` has been met.
    pub fn contains(&self, name: &String) -> (found: bool)
        ensures
            found == self@.contains(name@),
    {
        holds(&self.seen, name)
    }

    /// Takes note of `names` and returns those that are new, each once, in
    /// the order in which they came. Empty names are passed over.
    pub fn record(&mut self, names: &Vec<String>) -> (fresh: Vec<String>)
        ensures
            fresh.deep_view() == fresh_names(old(self)@, names.deep_view()),
            final(self)@ == old(self)@ + fresh.deep_view(),
            final(self)@.no_duplicates(),
            forall|i: int| 0 <= i < final(self)@.len() ==> (#[trigger] final(self)@[i]).len() > 0,
    {
        proof {
            use_type_invariant(&*self);
        }
        let mut seen: Vec<String> = Vec::new();
        assert(seen.deep_view() =~= Seq::<Seq<char>>::empty());
        core::mem::swap(&mut self.seen, &mut seen);
        let mut fresh: Vec<String> = Vec::new();
        let mut i: usize = 0;
        proof {
            assert(names.deep_view().take(0) =~= Seq::<Seq<char>>::empty());
            assert(fresh.deep_view() =~= Seq::<Seq<char>>::empty());
            assert(seen.deep_view() =~= old(self)@ + fresh.deep_view());
        }
        while i < names.len()
            invariant
                i <= names.len(),
                seen.deep_view().no_duplicates(),
                forall|j: int|
                    0 <= j < seen.deep_view().len() ==> (#[trigger] seen.deep_view()[j]).len() > 0,
                fresh.deep_view() == fresh_names(old(self)@, names.deep_view().take(i as int)),
                seen.deep_view() == old(self)@ + fresh.deep_view(),
            decreases names.len() - i,
        {
            let name = &names[i];
            let ghost before = seen.deep_view();
            let ghost fresh_before = fresh.deep_view();
            let ghost prefix = names.deep_view().take(i as int + 1);
            proof {
                assert(prefix.drop_last() =~= names.deep_view().take(i as int));
                assert(prefix.last() == name@);
                lemma_contains_concat(old(self)@, fresh_before, name@);
            }
            if !name.as_str().is_empty() && !holds(&seen, name) {
                let kept = name.clone();
                let reported = name.clone();
                seen.push(kept);
                fresh.push(reported);
                proof {
                    assert(seen.deep_view() =~= before.push(name@));
                    assert(fresh.deep_view() =~= fresh_before.push(name@));
                    assert(seen.deep_view() =~= old(self)@ + fresh.deep_view());
                }
            }
            i += 1;
        }
        proof {
            assert(names.deep_view().take(i as int) =~= names.deep_view());
        }
        self.seen = seen;
        fresh
    }
}

/// Whether `name` is among `seen`.
fn holds(seen: &Vec<String>, name: &String) -> (found: bool)
    ensures
        found == seen.deep_view().contains(name@),
{
    let mut i: usize = 0;
    while i < seen.len()
        invariant
            i <= seen.len(),
            forall|j: int| 0 <= j < i ==> seen.deep_view()[j] != name@,
        decreases seen.len() - i,
    {
        if seen[i] == *name {
            assert(seen.deep_view()[i as int] == name@);
            return true;
        }
        i += 1;
    }
    false
}

/// A value occurs in a concatenation exactly if it occurs in one of the
/// two parts.
proof fn lemma_contains_concat(a: Seq<Seq<char>>, b: Seq<Seq<char>>, x: Seq<char>)
    ensures
        (a + b).contains(x) <==> a.contains(x) || b.contains(x),
{
    if (a + b).contains(x) {
        let k = choose|k: int| 0 <= k < (a + b).len() && (a + b)[k] == x;
        if k < a.len() {
            assert(a[k] == x);
        } else {
            assert(b[k - a.len()] == x);
        }
    }
    if a.contains(x) {
        let k = choose|k: int| 0 <= k < a.len() && a[k] == x;
        assert((a + b)[k] == x);
    }
    if b.contains(x) {
        let k = choose|k: int| 0 <= k < b.len() && b[k] == x;
        assert((a + b)[a.len() + k] == x);
    }
}

/// What is reported as new is distinct, not empty, and unknown before.
pub proof fn lemma_fresh_names_are_new(seen: Seq<Seq<char>>, names: Seq<Seq<char>>)
    ensures
        fresh_names(seen, names).no_duplicates(),
        forall|i: int|
            0 <= i < fresh_names(seen, names).len() ==> {
                let name = #[trigger] fresh_names(seen, names)[i];
                name.len() > 0 && !seen.contains(name) && names.contains(name)
            },
    decreases names.len(),
{
    if names.len() > 0 {
        let earlier = fresh_names(seen, names.drop_last());
        lemma_fresh_names_are_new(seen, names.drop_last());
        assert forall|i: int| 0 <= i < fresh_names(seen, names).len() implies {
            let name = #[trigger] fresh_names(seen, names)[i];
            name.len() > 0 && !seen.contains(name) && names.contains(name)
        } by {
            let name = fresh_names(seen, names)[i];
            if i < earlier.len() {
                assert(earlier[i] == name);
                let k = choose|k: int|
                    0 <= k < names.drop_last().len() && names.drop_last()[k] == name;
                assert(names[k] == name);
            } else {
                assert(names[names.len() - 1] == name);
            }
        }
    }
}

/// Every name of `names` that is not empty is known afterwards: it was
/// known before or is reported as new.
pub proof fn lemma_every_name_recorded(seen: Seq<Seq<char>>, names: Seq<Seq<char>>, i: int)
    requires
        0 <= i < names.len(),
        names[i].len() > 0,
    ensures
        seen.contains(names[i]) || fresh_names(seen, names).contains(names[i]),
    decreases names.len(),
{
    let earlier = fresh_names(seen, names.drop_last());
    let now = fresh_names(seen, names);
    if i < names.len() - 1 {
        lemma_every_name_recorded(seen, names.drop_last(), i);
        if earlier.contains(names[i]) {
            let k = choose|k: int| 0 <= k < earlier.len() && earlier[k] == names[i];
            assert(now[k] == names[i]);
        }
    } else {
        let name = names.last();
        if !seen.contains(name) {
            if earlier.contains(name) {
                let k = choose|k: int| 0 <= k < earlier.len() && earlier[k] == name;
                assert(now[k] == name);
            } else {
                assert(now[now.len() - 1] == name);
            }
        }
    }
}

/// A log without repetitions stays without repetitions when the new names
/// are appended to it: no name is ever reported twice.
pub proof fn lemma_log_stays_distinct(seen: Seq<Seq<char>>, names: Seq<Seq<char>>)
    requires
        seen.no_duplicates(),
    ensures
        (seen + fresh_names(seen, names)).no_duplicates(),
{
    let fresh = fresh_names(seen, names);
    let all = seen + fresh;
    lemma_fresh_names_are_new(seen, names);
    assert forall|i: int, j: int| 0 <= i < all.len() && 0 <= j < all.len() && i != j implies all[i]
        != all[j] by {
        if i < seen.len() && j >= seen.len() {
            assert(all[j] == fresh[j - seen.len()]);
            assert(seen[i] == all[i]);
        } else if j < seen.len() && i >= seen.len() {
            assert(all[i] == fresh[i - seen.len()]);
            assert(seen[j] == all[j]);
        } else if i >= seen.len() && j >= seen.len() {
            assert(all[i] == fresh[i - seen.len()]);
            assert(all[j] == fresh[j - seen.len()]);
        }
    }
}

} // verus!
