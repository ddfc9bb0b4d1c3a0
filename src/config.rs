//! The alias table: a mapping from alias names to shell commands, kept as a
//! vector of entries strictly sorted by name.
use vstd::prelude::*;

use vstd::pervasive::VecAdditionalExecFns;

use crate::order::{lemma_name_lt_irreflexive, lemma_name_lt_total, lemma_name_lt_transitive, name_less, name_lt};

verus! {

/// One alias: a name and the shell command that it stands for.
#[derive(Debug, Clone, PartialEq, Eq)]
pub struct Alias {
    pub name: String,
    pub command: String,
}

/// The mapping built from a sequence of (name, command) pairs, a later pair
/// winning over an earlier one with the same name.
pub open spec fn map_of(s: Seq<(Seq<char>, Seq<char>)>) -> Map<Seq<char>, Seq<char>>
    decreases s.len(),
{
    if s.len() == 0 {
        Map::empty()
    } else {
        map_of(s.drop_last()).insert(s.last().0, s.last().1)
    }
}

/// Names strictly increase along the sequence.
pub open spec fn strictly_sorted(s: Seq<(Seq<char>, Seq<char>)>) -> bool {
    forall|i: int, j: int| 0 <= i < j < s.len() ==> name_lt(#[trigger] s[i].0, #[trigger] s[j].0)
}

/// No name occurs twice in the sequence.
pub open spec fn names_distinct(s: Seq<(Seq<char>, Seq<char>)>) -> bool {
    forall|i: int, j: int| 0 <= i < s.len() && 0 <= j < s.len() && i != j ==> s[i].0 != s[j].0
}

/// In a strictly sorted sequence no name occurs twice.
pub proof fn lemma_sorted_distinct(s: Seq<(Seq<char>, Seq<char>)>)
    requires
        strictly_sorted(s),
    ensures
        names_distinct(s),
{
    assert forall|i: int, j: int| 0 <= i < s.len() && 0 <= j < s.len() && i != j implies s[i].0
        != s[j].0 by {
        lemma_name_lt_irreflexive(s[i].0);
        if i < j {
            assert(name_lt(s[i].0, s[j].0));
        } else {
            assert(name_lt(s[j].0, s[i].0));
        }
    }
}

/// What the mapping of a sequence of pairs with distinct names holds: exactly
/// its pairs, one entry for each.
pub proof fn lemma_map_of(s: Seq<(Seq<char>, Seq<char>)>)
    requires
        names_distinct(s),
    ensures
        forall|k: Seq<char>|
            #[trigger] map_of(s).contains_key(k) <==> exists|i: int| 0 <= i < s.len() && s[i].0 == k,
        forall|i: int| 0 <= i < s.len() ==> #[trigger] map_of(s)[s[i].0] == s[i].1,
        map_of(s).dom().finite(),
        map_of(s).len() == s.len(),
    decreases s.len(),
{
    if s.len() > 0 {
        let t = s.drop_last();
        assert(names_distinct(t));
        lemma_map_of(t);
        assert forall|k: Seq<char>| #[trigger] map_of(s).contains_key(k) <==> exists|i: int|
            0 <= i < s.len() && s[i].0 == k by {
            if map_of(t).contains_key(k) {
                let i = choose|i: int| 0 <= i < t.len() && t[i].0 == k;
                assert(s[i].0 == k);
            }
            if k == s.last().0 {
                assert(s[s.len() - 1].0 == k);
            }
            if exists|i: int| 0 <= i < s.len() && s[i].0 == k {
                let i = choose|i: int| 0 <= i < s.len() && s[i].0 == k;
                if i < s.len() - 1 {
                    assert(t[i].0 == k);
                }
            }
        }
        assert forall|i: int| 0 <= i < s.len() implies #[trigger] map_of(s)[s[i].0] == s[i].1 by {
            if i < s.len() - 1 {
                assert(t[i] == s[i]);
                assert(s[i].0 != s[s.len() - 1].0);
            }
        }
        assert(!map_of(t).contains_key(s.last().0)) by {
            if map_of(t).contains_key(s.last().0) {
                let i = choose|i: int| 0 <= i < t.len() && t[i].0 == s.last().0;
                assert(s[i].0 == s[s.len() - 1].0);
            }
        }
    }
}

/// Inserting a pair with a new name anywhere adds that entry to the mapping.
pub proof fn lemma_map_of_insert(s: Seq<(Seq<char>, Seq<char>)>, p: int, e: (Seq<char>, Seq<char>))
    requires
        0 <= p <= s.len(),
        names_distinct(s.insert(p, e)),
    ensures
        map_of(s.insert(p, e)) == map_of(s).insert(e.0, e.1),
{
    let n = s.insert(p, e);
    assert(names_distinct(s)) by {
        assert forall|i: int, j: int| 0 <= i < s.len() && 0 <= j < s.len() && i != j implies s[i].0
            != s[j].0 by {
            let i2 = if i < p { i } else { i + 1 };
            let j2 = if j < p { j } else { j + 1 };
            assert(n[i2] == s[i] && n[j2] == s[j]);
        }
    }
    lemma_map_of(s);
    lemma_map_of(n);
    assert forall|k: Seq<char>| #[trigger] map_of(n).contains_key(k) == map_of(s).insert(e.0, e.1).contains_key(k)
        by {
        if map_of(s).contains_key(k) {
            let i = choose|i: int| 0 <= i < s.len() && s[i].0 == k;
            let i2 = if i < p { i } else { i + 1 };
            assert(n[i2].0 == k);
        }
        if map_of(n).contains_key(k) && k != e.0 {
            let i = choose|i: int| 0 <= i < n.len() && n[i].0 == k;
            let i2 = if i < p { i } else { i - 1 };
            assert(s[i2].0 == k);
        }
        assert(n[p].0 == e.0);
    }
    assert forall|k: Seq<char>| #[trigger] map_of(n).contains_key(k) implies map_of(n)[k] == map_of(
        s,
    ).insert(e.0, e.1)[k] by {
        let i = choose|i: int| 0 <= i < n.len() && n[i].0 == k;
        assert(map_of(n)[n[i].0] == n[i].1);
        assert(n[p] == e);
        if i != p {
            assert(n[i].0 != n[p].0);
            let i2 = if i < p { i } else { i - 1 };
            assert(s[i2] == n[i]);
            assert(map_of(s)[s[i2].0] == s[i2].1);
        }
    }
    assert(map_of(n) =~= map_of(s).insert(e.0, e.1));
}

/// Removing the pair at `p` removes its name from the mapping.
pub proof fn lemma_map_of_remove(s: Seq<(Seq<char>, Seq<char>)>, p: int)
    requires
        0 <= p < s.len(),
        names_distinct(s),
    ensures
        names_distinct(s.remove(p)),
        map_of(s.remove(p)) == map_of(s).remove(s[p].0),
{
    let n = s.remove(p);
    assert(s =~= n.insert(p, s[p]));
    assert(names_distinct(n)) by {
        assert forall|i: int, j: int| 0 <= i < n.len() && 0 <= j < n.len() && i != j implies n[i].0
            != n[j].0 by {
            let i2 = if i < p { i } else { i + 1 };
            let j2 = if j < p { j } else { j + 1 };
            assert(n[i] == s[i2] && n[j] == s[j2]);
        }
    }
    lemma_map_of_insert(n, p, s[p]);
    lemma_map_of(n);
    assert(!map_of(n).contains_key(s[p].0)) by {
        if map_of(n).contains_key(s[p].0) {
            let i = choose|i: int| 0 <= i < n.len() && n[i].0 == s[p].0;
            let i2 = if i < p { i } else { i + 1 };
            assert(n[i] == s[i2]);
        }
    }
    assert(map_of(n) =~= map_of(n).insert(s[p].0, s[p].1).remove(s[p].0));
}

/// Replacing the command of the pair at `p` replaces it in the mapping.
pub proof fn lemma_map_of_update(s: Seq<(Seq<char>, Seq<char>)>, p: int, v: Seq<char>)
    requires
        0 <= p < s.len(),
        names_distinct(s),
    ensures
        names_distinct(s.update(p, (s[p].0, v))),
        map_of(s.update(p, (s[p].0, v))) == map_of(s).insert(s[p].0, v),
{
    let n = s.update(p, (s[p].0, v));
    lemma_map_of_remove(s, p);
    assert(n =~= s.remove(p).insert(p, (s[p].0, v)));
    assert(s.remove(p).insert(p, s[p]) =~= s);
    lemma_map_of_insert(s.remove(p), p, (s[p].0, v));
    lemma_map_of(s);
    assert(map_of(s).remove(s[p].0).insert(s[p].0, v) =~= map_of(s).insert(s[p].0, v));
}

/// The mapping of any sequence of pairs has a finite domain.
pub proof fn lemma_map_of_finite(s: Seq<(Seq<char>, Seq<char>)>)
    ensures
        map_of(s).dom().finite(),
    decreases s.len(),
{
    if s.len() > 0 {
        lemma_map_of_finite(s.drop_last());
    }
}

/// The (name, command) pairs of a sequence of aliases.
pub open spec fn pairs_of(v: Seq<Alias>) -> Seq<(Seq<char>, Seq<char>)> {
    v.map_values(|a: Alias| (a.name@, a.command@))
}

/// The alias table. Its entries are strictly sorted by name, so that each
/// name occurs once and the table lists in name order.
#[derive(Debug, PartialEq, Eq)]
pub struct Config {
    aliases: Vec<Alias>,
}

impl View for Config {
    type V = Map<Seq<char>, Seq<char>>;

    open spec fn view(&self) -> Map<Seq<char>, Seq<char>> {
        map_of(self.pairs())
    }
}

impl Config {
    /// The entries of the table, in the order in which they are kept.
    pub closed spec fn pairs(&self) -> Seq<(Seq<char>, Seq<char>)> {
        pairs_of(self.aliases@)
    }

    #[verifier::type_invariant]
    spec fn wf(&self) -> bool {
        strictly_sorted(self.pairs())
    }

    /// An empty table.
    pub fn new() -> (r: Config)
        ensures
            r@ == Map::<Seq<char>, Seq<char>>::empty(),
            r.pairs().len() == 0,
    {
        let r = Config { aliases: Vec::new() };
        assert(r.pairs() =~= Seq::<(Seq<char>, Seq<char>)>::empty());
        r
    }

    /// The entries, in name order.
    pub fn aliases(&self) -> (r: &Vec<Alias>)
        ensures
            strictly_sorted(self.pairs()),
            map_of(self.pairs()) == self@,
            r@.len() == self.pairs().len(),
            forall|i: int|
                0 <= i < r@.len() ==> (#[trigger] r@[i]).name@ == self.pairs()[i].0
                    && r@[i].command@ == self.pairs()[i].1,
    {
        proof {
            use_type_invariant(self);
        }
        &self.aliases
    }

    /// The number of aliases.
    pub fn len(&self) -> (r: usize)
        ensures
            r == self@.len(),
    {
        proof {
            use_type_invariant(self);
        }
        proof {
            lemma_sorted_distinct(self.pairs());
            lemma_map_of(self.pairs());
        }
        self.aliases.len()
    }

    pub fn is_empty(&self) -> (r: bool)
        ensures
            r == (self@.len() == 0),
            r == (self.pairs().len() == 0),
    {
        proof {
            use_type_invariant(self);
        }
        proof {
            lemma_sorted_distinct(self.pairs());
            lemma_map_of(self.pairs());
        }
        self.aliases.len() == 0
    }

    /// Where `name` stands: `Ok(i)` when entry `i` has that name, else
    /// `Err(i)` where the first entry with a greater name stands.
    fn find(&self, name: &str) -> (r: Result<usize, usize>)
        requires
            self.wf(),
        ensures
            match r {
                Ok(i) => i < self.pairs().len() && self.pairs()[i as int].0 == name@,
                Err(i) => i <= self.pairs().len() && (forall|j: int|
                    0 <= j < i ==> name_lt(#[trigger] self.pairs()[j].0, name@)) && (forall|j: int|
                    i <= j < self.pairs().len() ==> name_lt(name@, #[trigger] self.pairs()[j].0)),
            },
    {
        let mut i: usize = 0;
        while i < self.aliases.len()
            invariant
                self.wf(),
                i <= self.pairs().len(),
                self.pairs().len() == self.aliases@.len(),
                forall|j: int| 0 <= j < i ==> name_lt(#[trigger] self.pairs()[j].0, name@),
            decreases self.aliases@.len() - i,
        {
            let a = &self.aliases[i];
            assert(self.pairs()[i as int].0 == a.name@);
            if !name_less(a.name.as_str(), name) {
                if !name_less(name, a.name.as_str()) {
                    proof {
                        if a.name@ != name@ {
                            lemma_name_lt_total(a.name@, name@);
                        }
                    }
                    return Ok(i);
                }
                proof {
                    assert forall|j: int| i <= j < self.pairs().len() implies name_lt(
                        name@,
                        #[trigger] self.pairs()[j].0,
                    ) by {
                        if j > i {
                            lemma_name_lt_transitive(name@, a.name@, self.pairs()[j].0);
                        }
                    }
                }
                return Err(i);
            }
            i = i + 1;
        }
        Err(i)
    }

    /// The command of the alias `name`, if there is one.
    pub fn get(&self, name: &str) -> (r: Option<&String>)
        ensures
            r is Some == self@.contains_key(name@),
            r is Some ==> r->0@ == self@[name@],
    {
        proof {
            use_type_invariant(self);
        }
        proof {
            lemma_sorted_distinct(self.pairs());
            lemma_map_of(self.pairs());
        }
        match self.find(name) {
            Ok(i) => {
                assert(self.pairs()[i as int].1 == self.aliases@[i as int].command@);
                Some(&self.aliases[i].command)
            },
            Err(p) => {
                proof {
                    if self@.contains_key(name@) {
                        let j = choose|j: int| 0 <= j < self.pairs().len() && self.pairs()[j].0 == name@;
                        lemma_name_lt_irreflexive(name@);
                        if j < p {
                            assert(name_lt(self.pairs()[j].0, name@));
                        } else {
                            assert(name_lt(name@, self.pairs()[j].0));
                        }
                    }
                }
                None
            },
        }
    }

    /// Whether `name` is an alias.
    pub fn contains_key(&self, name: &str) -> (r: bool)
        ensures
            r == self@.contains_key(name@),
    {
        proof {
            use_type_invariant(self);
        }
        self.get(name).is_some()
    }

    /// Sets the command of `name`, adding the alias if it is new.
    pub fn insert(&mut self, name: String, command: String)
        ensures
            final(self)@ == old(self)@.insert(name@, command@),
    {
        proof {
            use_type_invariant(&*self);
            lemma_sorted_distinct(self.pairs());
        }
        let ghost e = (name@, command@);
        let ghost before = self.pairs();
        let found = self.find(name.as_str());
        let mut v = self.take_entries();
        match found {
            Ok(i) => {
                v.set(i, Alias { name, command });
                proof {
                    assert(pairs_of(v@) =~= before.update(i as int, (before[i as int].0, e.1)));
                    lemma_map_of_update(before, i as int, e.1);
                    assert(strictly_sorted(pairs_of(v@))) by {
                        assert forall|a: int, b: int| 0 <= a < b < pairs_of(v@).len() implies name_lt(
                            #[trigger] pairs_of(v@)[a].0,
                            #[trigger] pairs_of(v@)[b].0,
                        ) by {
                            assert(before[a].0 == pairs_of(v@)[a].0);
                            assert(before[b].0 == pairs_of(v@)[b].0);
                        }
                    }
                }
            },
            Err(p) => {
                v.insert(p, Alias { name, command });
                proof {
                    let n = before.insert(p as int, e);
                    assert(pairs_of(v@) =~= n);
                    assert forall|a: int, b: int| 0 <= a < b < n.len() implies name_lt(
                        #[trigger] n[a].0,
                        #[trigger] n[b].0,
                    ) by {
                        if b < p {
                            assert(n[a] == before[a] && n[b] == before[b]);
                        } else if b == p {
                            assert(n[a] == before[a]);
                        } else if a < p {
                            assert(n[a] == before[a] && n[b] == before[b - 1]);
                            lemma_name_lt_transitive(n[a].0, e.0, n[b].0);
                        } else if a == p {
                            assert(n[b] == before[b - 1]);
                        } else {
                            assert(n[a] == before[a - 1] && n[b] == before[b - 1]);
                        }
                    }
                    lemma_sorted_distinct(n);
                    lemma_map_of_insert(before, p as int, e);
                }
            },
        }
        *self = Config { aliases: v };
    }

    /// Removes the alias `name`, handing back its command if it was there.
    pub fn remove(&mut self, name: &str) -> (r: Option<String>)
        ensures
            r is Some == old(self)@.contains_key(name@),
            r is Some ==> r->0@ == old(self)@[name@],
            final(self)@ == old(self)@.remove(name@),
    {
        proof {
            use_type_invariant(&*self);
            lemma_sorted_distinct(self.pairs());
            lemma_map_of(self.pairs());
        }
        let ghost before = self.pairs();
        match self.find(name) {
            Ok(i) => {
                let mut v = self.take_entries();
                let a = v.remove(i);
                proof {
                    let n = before.remove(i as int);
                    assert(pairs_of(v@) =~= n);
                    assert forall|x: int, y: int| 0 <= x < y < n.len() implies name_lt(
                        #[trigger] n[x].0,
                        #[trigger] n[y].0,
                    ) by {
                        let x2 = if x < i { x } else { x + 1 };
                        let y2 = if y < i { y } else { y + 1 };
                        assert(n[x] == before[x2] && n[y] == before[y2]);
                    }
                    lemma_map_of_remove(before, i as int);
                    assert(before[i as int].1 == a.command@);
                }
                *self = Config { aliases: v };
                Some(a.command)
            },
            Err(p) => {
                proof {
                    if self@.contains_key(name@) {
                        let j = choose|j: int| 0 <= j < before.len() && before[j].0 == name@;
                        lemma_name_lt_irreflexive(name@);
                        if j < p {
                            assert(name_lt(before[j].0, name@));
                        } else {
                            assert(name_lt(name@, before[j].0));
                        }
                    }
                    assert(self@ =~= self@.remove(name@));
                }
                None
            },
        }
    }

    /// Hands out the entries, leaving the table empty.
    fn take_entries(&mut self) -> (r: Vec<Alias>)
        ensures
            pairs_of(r@) == old(self).pairs(),
            final(self)@ == Map::<Seq<char>, Seq<char>>::empty(),
    {
        let mut t = Config::new();
        std::mem::swap(self, &mut t);
        let Config { aliases } = t;
        aliases
    }
}

} // verus!
