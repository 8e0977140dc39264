//! A set of player names kept in the order of `String`'s `Ord` (code point order).

use vstd::prelude::*;

use crate::text::chars_of;

verus! {

/// Lexicographic order by code point, which is the order of `String`'s `Ord`
/// (UTF-8 preserves the order of code points).
pub open spec fn lex_lt(a: Seq<char>, b: Seq<char>) -> bool
    decreases a.len(),
{
    if a.len() == 0 {
        b.len() > 0
    } else if b.len() == 0 {
        false
    } else if a[0] != b[0] {
        (a[0] as int) < (b[0] as int)
    } else {
        lex_lt(a.drop_first(), b.drop_first())
    }
}

/// Strictly increasing in `lex_lt`: sorted and without repeats.
pub open spec fn sorted_strict(s: Seq<Seq<char>>) -> bool {
    forall|i: int, j: int| 0 <= i < j < s.len() ==> lex_lt(#[trigger] s[i], #[trigger] s[j])
}

pub proof fn lemma_lex_irreflexive(a: Seq<char>)
    ensures
        !lex_lt(a, a),
    decreases a.len(),
{
    if a.len() > 0 {
        lemma_lex_irreflexive(a.drop_first());
    }
}

pub proof fn lemma_lex_transitive(a: Seq<char>, b: Seq<char>, c: Seq<char>)
    requires
        lex_lt(a, b),
        lex_lt(b, c),
    ensures
        lex_lt(a, c),
    decreases a.len(),
{
    if a.len() > 0 && b.len() > 0 && c.len() > 0 {
        if a[0] == b[0] && b[0] == c[0] {
            lemma_lex_transitive(a.drop_first(), b.drop_first(), c.drop_first());
        }
    }
}

pub proof fn lemma_lex_total(a: Seq<char>, b: Seq<char>)
    requires
        a != b,
    ensures
        lex_lt(a, b) || lex_lt(b, a),
    decreases a.len(),
{
    if a.len() > 0 && b.len() > 0 && a[0] == b[0] {
        if a.drop_first() == b.drop_first() {
            assert(a =~= seq![a[0]] + a.drop_first());
            assert(b =~= seq![b[0]] + b.drop_first());
        }
        lemma_lex_total(a.drop_first(), b.drop_first());
    } else if a.len() == 0 && b.len() == 0 {
        assert(a =~= b);
    }
}

/// Two strictly sorted sequences with the same elements are equal: the order of a
/// player set is determined by its members.
pub proof fn lemma_sorted_unique(a: Seq<Seq<char>>, b: Seq<Seq<char>>)
    requires
        sorted_strict(a),
        sorted_strict(b),
        a.to_set() == b.to_set(),
    ensures
        a == b,
    decreases a.len(),
{
    if a.len() == 0 {
        if b.len() > 0 {
            assert(b.to_set().contains(b[0]));
        }
        assert(a =~= b);
    } else if b.len() == 0 {
        assert(a.to_set().contains(a[0]));
    } else {
        let x = a[0];
        let y = b[0];
        assert(b.to_set().contains(x));
        assert(a.to_set().contains(y));
        let i = choose|i: int| 0 <= i < b.len() && b[i] == x;
        let j = choose|j: int| 0 <= j < a.len() && a[j] == y;
        if x != y {
            lemma_lex_total(x, y);
            if lex_lt(x, y) {
                assert(i > 0);
                assert(lex_lt(y, x));
                lemma_lex_irreflexive(x);
                lemma_lex_transitive(x, y, x);
            } else {
                assert(j > 0);
                assert(lex_lt(x, y));
                lemma_lex_irreflexive(x);
                lemma_lex_transitive(x, y, x);
            }
        }
        let a1 = a.drop_first();
        let b1 = b.drop_first();
        assert forall|z: Seq<char>| a1.to_set().contains(z) implies b1.to_set().contains(z) by {
            let k = choose|k: int| 0 <= k < a1.len() && a1[k] == z;
            assert(a.to_set().contains(z));
            let m = choose|m: int| 0 <= m < b.len() && b[m] == z;
            assert(lex_lt(a[0], a[k + 1]));
            if m == 0 {
                lemma_lex_irreflexive(z);
            }
            assert(b1[m - 1] == z);
        }
        assert forall|z: Seq<char>| b1.to_set().contains(z) implies a1.to_set().contains(z) by {
            let k = choose|k: int| 0 <= k < b1.len() && b1[k] == z;
            assert(b.to_set().contains(z));
            let m = choose|m: int| 0 <= m < a.len() && a[m] == z;
            assert(lex_lt(b[0], b[k + 1]));
            if m == 0 {
                lemma_lex_irreflexive(z);
            }
            assert(a1[m - 1] == z);
        }
        assert(a1.to_set() =~= b1.to_set());
        lemma_sorted_unique(a1, b1);
        assert(a =~= seq![x] + a1);
        assert(b =~= seq![y] + b1);
    }
}

/// Whether `a` comes before `b` in code point order.
pub fn lex_less(a: &Vec<char>, b: &Vec<char>) -> (r: bool)
    ensures
        r == lex_lt(a@, b@),
{
    let mut i: usize = 0;
    assert(a@.skip(0) =~= a@);
    assert(b@.skip(0) =~= b@);
    while i < a.len() && i < b.len() && a[i] == b[i]
        invariant
            i <= a@.len(),
            i <= b@.len(),
            lex_lt(a@, b@) == lex_lt(a@.skip(i as int), b@.skip(i as int)),
        decreases a@.len() - i,
    {
        assert(a@.skip(i as int).drop_first() =~= a@.skip(i + 1));
        assert(b@.skip(i as int).drop_first() =~= b@.skip(i + 1));
        i = i + 1;
    }
    if i == a.len() {
        i < b.len()
    } else if i == b.len() {
        false
    } else {
        a[i] < b[i]
    }
}

/// A set of player names, held in ascending code point order without repeats.
#[derive(Debug)]
pub struct PlayerSet {
    names: Vec<String>,
}

impl View for PlayerSet {
    type V = Seq<Seq<char>>;

    /// The names in ascending order.
    closed spec fn view(&self) -> Seq<Seq<char>> {
        self.names@.map_values(|n: String| n@)
    }
}

impl PlayerSet {
    #[verifier::type_invariant]
    closed spec fn sorted(self) -> bool {
        sorted_strict(self@)
    }

    /// The members as a set.
    pub open spec fn members(self) -> Set<Seq<char>> {
        self@.to_set()
    }

    pub fn new() -> (r: Self)
        ensures
            r@ == Seq::<Seq<char>>::empty(),
    {
        let r = PlayerSet { names: Vec::new() };
        assert(r@ =~= Seq::<Seq<char>>::empty());
        r
    }

    /// The names are in ascending order without repeats.
    pub fn len(&self) -> (r: usize)
        ensures
            r == self@.len(),
            sorted_strict(self@),
    {
        proof {
            use_type_invariant(self);
        }
        self.names.len()
    }

    pub fn is_empty(&self) -> (r: bool)
        ensures
            r == (self@.len() == 0),
    {
        self.names.len() == 0
    }

    /// The name at position `i` in ascending order.
    pub fn get(&self, i: usize) -> (r: &String)
        requires
            i < self@.len(),
        ensures
            r@ == self@[i as int],
    {
        &self.names[i]
    }

    /// The names in ascending order.
    pub fn to_vec(&self) -> (r: Vec<String>)
        ensures
            r@.map_values(|n: String| n@) == self@,
    {
        let mut r: Vec<String> = Vec::new();
        let mut i: usize = 0;
        while i < self.names.len()
            invariant
                i <= self@.len(),
                self@.len() == self.names@.len(),
                r@.len() == i,
                r@.map_values(|n: String| n@) =~= self@.take(i as int),
            decreases self@.len() - i,
        {
            let n = self.names[i].clone();
            r.push(n);
            assert(r@[i as int]@ == self@[i as int]);
            assert(r@.map_values(|n: String| n@) =~= self@.take(i + 1));
            i = i + 1;
        }
        assert(self@.take(i as int) =~= self@);
        r
    }

    pub fn contains(&self, name: &str) -> (r: bool)
        ensures
            r == self@.contains(name@),
    {
        let key = String::from_str(name);
        let mut i: usize = 0;
        while i < self.names.len()
            invariant
                i <= self@.len(),
                self@.len() == self.names@.len(),
                key@ == name@,
                forall|j: int| 0 <= j < i ==> self@[j] != name@,
            decreases self@.len() - i,
        {
            if self.names[i] == key {
                assert(self@[i as int] == name@);
                return true;
            }
            i = i + 1;
        }
        false
    }

    /// Adds `name`; true iff it was not a member. The order stays ascending.
    pub fn insert(&mut self, name: String) -> (r: bool)
        ensures
            r == !old(self)@.contains(name@),
            final(self).members() == old(self).members().insert(name@),
            sorted_strict(final(self)@),
            !r ==> final(self)@ == old(self)@,
    {
        proof {
            use_type_invariant(&*self);
        }
        let key = chars_of(name.as_str());
        let mut i: usize = 0;
        while i < self.names.len() && lex_less(&chars_of(self.names[i].as_str()), &key)
            invariant
                i <= self@.len(),
                self@.len() == self.names@.len(),
                key@ == name@,
                forall|j: int| 0 <= j < i ==> lex_lt(#[trigger] self@[j], name@),
            decreases self@.len() - i,
        {
            i = i + 1;
        }
        if i < self.names.len() && self.names[i] == name {
            proof {
                assert(self@[i as int] == name@);
                assert(self@.contains(name@));
            }
            return false;
        }
        let ghost old_view = self@;
        proof {
            assert forall|j: int| 0 <= j < old_view.len() implies old_view[j] != name@ by {
                if j < i {
                    lemma_lex_irreflexive(name@);
                } else {
                    if j == i {
                    } else {
                        if old_view[j] == name@ {
                            assert(lex_lt(old_view[i as int], old_view[j]));
                            lemma_lex_total(old_view[i as int], name@);
                        }
                    }
                }
            }
            if i < old_view.len() {
                lemma_lex_total(old_view[i as int], name@);
            }
        }
        let mut names: Vec<String> = Vec::new();
        std::mem::swap(&mut names, &mut self.names);
        names.insert(i, name);
        proof {
            let nv = names@.map_values(|n: String| n@);
            assert(nv =~= old_view.insert(i as int, name@));
            assert forall|a: int, b: int| 0 <= a < b < nv.len() implies lex_lt(#[trigger] nv[a], #[trigger] nv[b]) by {
                if b < i {
                } else if b == i {
                } else if a == i {
                    if b > i + 1 {
                        lemma_lex_transitive(name@, old_view[i as int], old_view[b - 1]);
                    }
                } else if a < i {
                    if b == i {
                    } else {
                        assert(lex_lt(old_view[a], name@));
                        if i < old_view.len() {
                            lemma_lex_transitive(old_view[a], name@, old_view[i as int]);
                            if b - 1 > i {
                                lemma_lex_transitive(old_view[a], old_view[i as int], old_view[b - 1]);
                            }
                        }
                    }
                } else {
                }
            }
            assert(nv.to_set() =~= old_view.to_set().insert(name@)) by {
                assert forall|z: Seq<char>| nv.to_set().contains(z) implies old_view.to_set().insert(name@).contains(z) by {
                    let k = choose|k: int| 0 <= k < nv.len() && nv[k] == z;
                    if k < i {
                        assert(old_view[k] == z);
                    } else if k > i {
                        assert(old_view[k - 1] == z);
                    }
                }
                assert forall|z: Seq<char>| old_view.to_set().insert(name@).contains(z) implies nv.to_set().contains(z) by {
                    if z == name@ {
                        assert(nv[i as int] == z);
                    } else {
                        let k = choose|k: int| 0 <= k < old_view.len() && old_view[k] == z;
                        if k < i {
                            assert(nv[k] == z);
                        } else {
                            assert(nv[k + 1] == z);
                        }
                    }
                }
            }
        }
        self.names = names;
        true
    }

    /// Removes `name`; true iff it was a member. The order stays ascending.
    pub fn remove(&mut self, name: &str) -> (r: bool)
        ensures
            r == old(self)@.contains(name@),
            final(self).members() == old(self).members().remove(name@),
            sorted_strict(final(self)@),
            !r ==> final(self)@ == old(self)@,
    {
        proof {
            use_type_invariant(&*self);
        }
        let key = String::from_str(name);
        let mut i: usize = 0;
        while i < self.names.len() && !(self.names[i] == key)
            invariant
                i <= self@.len(),
                self@.len() == self.names@.len(),
                key@ == name@,
                forall|j: int| 0 <= j < i ==> self@[j] != name@,
            decreases self@.len() - i,
        {
            i = i + 1;
        }
        if i == self.names.len() {
            return false;
        }
        let ghost old_view = self@;
        assert(old_view[i as int] == name@);
        let mut names: Vec<String> = Vec::new();
        std::mem::swap(&mut names, &mut self.names);
        names.remove(i);
        proof {
            let nv = names@.map_values(|n: String| n@);
            assert(nv =~= old_view.remove(i as int));
            assert forall|a: int, b: int| 0 <= a < b < nv.len() implies lex_lt(#[trigger] nv[a], #[trigger] nv[b]) by {
                if a >= i {
                    assert(nv[a] == old_view[a + 1]);
                } else if b >= i {
                    assert(nv[b] == old_view[b + 1]);
                }
            }
            assert forall|j: int| 0 <= j < old_view.len() && j != i implies old_view[j] != name@ by {
                if j < i {
                    assert(lex_lt(old_view[j], old_view[i as int]));
                } else {
                    assert(lex_lt(old_view[i as int], old_view[j]));
                }
                lemma_lex_irreflexive(name@);
            }
            assert(nv.to_set() =~= old_view.to_set().remove(name@)) by {
                assert forall|z: Seq<char>| nv.to_set().contains(z) implies old_view.to_set().remove(name@).contains(z) by {
                    let k = choose|k: int| 0 <= k < nv.len() && nv[k] == z;
                    if k < i {
                        assert(old_view[k] == z);
                    } else {
                        assert(old_view[k + 1] == z);
                    }
                }
                assert forall|z: Seq<char>| old_view.to_set().remove(name@).contains(z) implies nv.to_set().contains(z) by {
                    let k = choose|k: int| 0 <= k < old_view.len() && old_view[k] == z;
                    if k < i {
                        assert(nv[k] == z);
                    } else {
                        assert(nv[k - 1] == z);
                    }
                }
            }
        }
        self.names = names;
        true
    }

    /// Removes every member.
    pub fn clear(&mut self)
        ensures
            final(self)@ == Seq::<Seq<char>>::empty(),
    {
        let mut names: Vec<String> = Vec::new();
        std::mem::swap(&mut names, &mut self.names);
        assert(self@ =~= Seq::<Seq<char>>::empty());
    }
}

} // verus!