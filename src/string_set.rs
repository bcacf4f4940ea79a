//! Sets of strings, and the words of a list that a set does not know.
use vstd::prelude::*;

verus! {

/// A set of strings.
pub trait StringSet<'a>: Sized {
    /// The strings held.
    spec fn contents(&self) -> Set<Seq<char>>;

    /// An empty set.
    fn new() -> (r: Self)
        ensures
            r.contents() == Set::<Seq<char>>::empty(),
    ;

    /// Adds `name`.
    fn add(&mut self, name: &'a str)
        ensures
            final(self).contents() == old(self).contents().insert(name@),
    ;

    /// Whether `name` is held.
    fn contains(&self, name: &str) -> (r: bool)
        ensures
            r == self.contents().contains(name@),
    ;
}

/// A string set that keeps each string once, in a vector.
pub struct StringSetHash {
    names: Vec<String>,
}

impl StringSetHash {
    /// No string is held twice.
    pub closed spec fn wf(&self) -> bool {
        forall|i: int, j: int|
            0 <= i < j < self.names@.len() ==> self.names@[i]@ != self.names@[j]@
    }

    /// The index at which `name` is held, if it is.
    fn find(&self, name: &String) -> (r: Option<usize>)
        ensures
            r matches Some(i) ==> i < self.names@.len() && self.names@[i as int]@ == name@,
            r is None ==> forall|i: int| 0 <= i < self.names@.len() ==> self.names@[i]@ != name@,
    {
        let mut i: usize = 0;
        while i < self.names.len()
            invariant
                i <= self.names@.len(),
                forall|k: int| 0 <= k < i ==> self.names@[k]@ != name@,
            decreases self.names@.len() - i,
        {
            if self.names[i] == *name {
                return Some(i);
            }
            i = i + 1;
        }
        None
    }
}

impl<'a> StringSet<'a> for StringSetHash {
    closed spec fn contents(&self) -> Set<Seq<char>> {
        Set::new(|s: Seq<char>| exists|i: int| 0 <= i < self.names@.len() && self.names@[i]@ == s)
    }

    fn new() -> (r: Self) {
        let r = StringSetHash { names: Vec::new() };
        assert(r.contents() =~= Set::<Seq<char>>::empty());
        r
    }

    fn add(&mut self, name: &'a str) {
        let owned = name.to_owned();
        match self.find(&owned) {
            Some(i) => {
                assert(self.contents() =~= old(self).contents().insert(name@));
            },
            None => {
                let ghost before = self.names@;
                self.names.push(owned);
                assert forall|s: Seq<char>| #[trigger]
                    self.contents().contains(s) <==> old(self).contents().insert(name@).contains(
                        s,
                    ) by {
                    if old(self).contents().contains(s) {
                        let i = choose|i: int|
                            0 <= i < before.len() && before[i]@ == s;
                        assert(self.names@[i] == before[i]);
                    }
                    if s == name@ {
                        assert(self.names@[before.len() as int]@ == s);
                    }
                    if self.contents().contains(s) {
                        let i = choose|i: int|
                            0 <= i < self.names@.len() && self.names@[i]@ == s;
                        if i < before.len() {
                            assert(before[i] == self.names@[i]);
                        }
                    }
                }
                assert(self.contents() =~= old(self).contents().insert(name@));
            },
        }
    }

    fn contains(&self, name: &str) -> (r: bool) {
        let owned = name.to_owned();
        let r = self.find(&owned).is_some();
        proof {
            if self.contents().contains(name@) {
                let i = choose|i: int| 0 <= i < self.names@.len() && self.names@[i]@ == name@;
                assert(self.names@[i]@ == owned@);
            }
        }
        r
    }
}

/// The words of `words` that `set` does not hold.
pub fn find_unknown<'a, S: StringSet<'a>>(words: &[&'a str], set: &S) -> (r: S)
    ensures
        forall|s: Seq<char>|
            r.contents().contains(s) <==> (exists|i: int|
                0 <= i < words@.len() && #[trigger] words@[i]@ == s) && !set.contents().contains(
                s,
            ),
{
    let mut u = S::new();
    let mut k: usize = 0;
    while k < words.len()
        invariant
            k <= words@.len(),
            forall|s: Seq<char>|
                u.contents().contains(s) <==> (exists|i: int|
                    0 <= i < k && #[trigger] words@[i]@ == s) && !set.contents().contains(s),
        decreases words@.len() - k,
    {
        let w = words[k];
        if !set.contains(w) {
            u.add(w);
        }
        assert forall|s: Seq<char>|
            u.contents().contains(s) <==> (exists|i: int|
                0 <= i < k + 1 && #[trigger] words@[i]@ == s) && !set.contents().contains(s) by {
            if s == w@ && !set.contents().contains(s) {
                assert(words@[k as int]@ == s);
            }
        }
        k = k + 1;
    }
    u
}

} // verus!
