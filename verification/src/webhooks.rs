use vstd::prelude::*;

verus! {

/// A list of (name, url) pairs in which no name occurs twice.
pub open spec fn names_unique(pairs: Seq<(Seq<char>, Seq<char>)>) -> bool {
    forall|i: int, j: int|
        0 <= i < pairs.len() && 0 <= j < pairs.len() && i != j ==> #[trigger] pairs[i].0
            != #[trigger] pairs[j].0
}

/// Some pair of the list carries `name`.
pub open spec fn has_name(pairs: Seq<(Seq<char>, Seq<char>)>, name: Seq<char>) -> bool {
    exists|i: int| 0 <= i < pairs.len() && #[trigger] pairs[i].0 == name
}

/// The url stored under `name` (meaningful when `has_name(pairs, name)`).
pub open spec fn url_of(pairs: Seq<(Seq<char>, Seq<char>)>, name: Seq<char>) -> Seq<char> {
    pairs[choose|i: int| 0 <= i < pairs.len() && #[trigger] pairs[i].0 == name].1
}

/// The map from names to urls that a list of pairs stands for.
pub open spec fn pairs_map(pairs: Seq<(Seq<char>, Seq<char>)>) -> Map<Seq<char>, Seq<char>> {
    Map::new(|name: Seq<char>| has_name(pairs, name), |name: Seq<char>| url_of(pairs, name))
}

pub open spec fn entry_view(e: (String, String)) -> (Seq<char>, Seq<char>) {
    (e.0@, e.1@)
}

/// In a list without repeated names, the map gives each pair's url under its name.
pub proof fn lemma_pairs_map_at(pairs: Seq<(Seq<char>, Seq<char>)>, i: int)
    requires
        names_unique(pairs),
        0 <= i < pairs.len(),
    ensures
        pairs_map(pairs).contains_key(pairs[i].0),
        pairs_map(pairs)[pairs[i].0] == pairs[i].1,
{
    assert(has_name(pairs, pairs[i].0));
    let j = choose|j: int| 0 <= j < pairs.len() && #[trigger] pairs[j].0 == pairs[i].0;
    assert(pairs[j].0 == pairs[i].0);
    assert(j == i);
}

proof fn lemma_push_new_name(
    pairs: Seq<(Seq<char>, Seq<char>)>,
    name: Seq<char>,
    url: Seq<char>,
)
    requires
        names_unique(pairs),
        !has_name(pairs, name),
    ensures
        names_unique(pairs.push((name, url))),
        pairs_map(pairs.push((name, url))) == pairs_map(pairs).insert(name, url),
{
    let q = pairs.push((name, url));
    assert forall|i: int, j: int|
        0 <= i < q.len() && 0 <= j < q.len() && i != j implies #[trigger] q[i].0
        != #[trigger] q[j].0 by {
        if i < pairs.len() && j < pairs.len() {
            assert(q[i] == pairs[i] && q[j] == pairs[j]);
        } else if i < pairs.len() {
            assert(q[i] == pairs[i]);
            assert(!(pairs[i].0 == name));
        } else if j < pairs.len() {
            assert(q[j] == pairs[j]);
            assert(!(pairs[j].0 == name));
        }
    }
    let m = pairs_map(pairs).insert(name, url);
    assert forall|k: Seq<char>| #[trigger] pairs_map(q).contains_key(k) == m.contains_key(k) by {
        if has_name(q, k) {
            let i = choose|i: int| 0 <= i < q.len() && #[trigger] q[i].0 == k;
            if i < pairs.len() {
                assert(q[i] == pairs[i]);
                assert(has_name(pairs, k));
            }
        }
        if has_name(pairs, k) {
            let i = choose|i: int| 0 <= i < pairs.len() && #[trigger] pairs[i].0 == k;
            assert(q[i] == pairs[i]);
            assert(has_name(q, k));
        }
        if k == name {
            assert(q[pairs.len() as int].0 == name);
            assert(has_name(q, k));
        }
    }
    assert forall|k: Seq<char>| #[trigger] pairs_map(q).contains_key(k) implies pairs_map(q)[k]
        == m[k] by {
        let i = choose|i: int| 0 <= i < q.len() && #[trigger] q[i].0 == k;
        lemma_pairs_map_at(q, i);
        if i < pairs.len() {
            assert(q[i] == pairs[i]);
            lemma_pairs_map_at(pairs, i);
        }
    }
    assert(pairs_map(q) =~= m);
}

proof fn lemma_update_at(
    pairs: Seq<(Seq<char>, Seq<char>)>,
    i: int,
    name: Seq<char>,
    url: Seq<char>,
)
    requires
        names_unique(pairs),
        0 <= i < pairs.len(),
        pairs[i].0 == name,
    ensures
        names_unique(pairs.update(i, (name, url))),
        pairs_map(pairs.update(i, (name, url))) == pairs_map(pairs).insert(name, url),
{
    let q = pairs.update(i, (name, url));
    assert forall|a: int, b: int|
        0 <= a < q.len() && 0 <= b < q.len() && a != b implies #[trigger] q[a].0
        != #[trigger] q[b].0 by {
        assert(q[a].0 == pairs[a].0);
        assert(q[b].0 == pairs[b].0);
    }
    let m = pairs_map(pairs).insert(name, url);
    assert forall|k: Seq<char>| #[trigger] pairs_map(q).contains_key(k) == m.contains_key(k) by {
        if has_name(q, k) {
            let a = choose|a: int| 0 <= a < q.len() && #[trigger] q[a].0 == k;
            assert(pairs[a].0 == k);
        }
        if has_name(pairs, k) {
            let a = choose|a: int| 0 <= a < pairs.len() && #[trigger] pairs[a].0 == k;
            assert(q[a].0 == k);
        }
        if k == name {
            assert(q[i].0 == k);
        }
    }
    assert forall|k: Seq<char>| #[trigger] pairs_map(q).contains_key(k) implies pairs_map(q)[k]
        == m[k] by {
        let a = choose|a: int| 0 <= a < q.len() && #[trigger] q[a].0 == k;
        lemma_pairs_map_at(q, a);
        if a != i {
            assert(q[a] == pairs[a]);
            lemma_pairs_map_at(pairs, a);
        }
    }
    assert(pairs_map(q) =~= m);
}

proof fn lemma_remove_at(pairs: Seq<(Seq<char>, Seq<char>)>, i: int, name: Seq<char>)
    requires
        names_unique(pairs),
        0 <= i < pairs.len(),
        pairs[i].0 == name,
    ensures
        names_unique(pairs.remove(i)),
        pairs_map(pairs.remove(i)) == pairs_map(pairs).remove(name),
{
    let q = pairs.remove(i);
    assert forall|a: int| 0 <= a < q.len() implies #[trigger] q[a] == pairs[if a < i {
        a
    } else {
        a + 1
    }] by {}
    assert forall|a: int, b: int|
        0 <= a < q.len() && 0 <= b < q.len() && a != b implies #[trigger] q[a].0
        != #[trigger] q[b].0 by {
        let a2 = if a < i {
            a
        } else {
            a + 1
        };
        let b2 = if b < i {
            b
        } else {
            b + 1
        };
        assert(q[a] == pairs[a2]);
        assert(q[b] == pairs[b2]);
        assert(pairs[a2].0 != pairs[b2].0);
    }
    let m = pairs_map(pairs).remove(name);
    assert forall|k: Seq<char>| #[trigger] pairs_map(q).contains_key(k) == m.contains_key(k) by {
        if has_name(q, k) {
            let a = choose|a: int| 0 <= a < q.len() && #[trigger] q[a].0 == k;
            let a2 = if a < i {
                a
            } else {
                a + 1
            };
            assert(q[a] == pairs[a2]);
            assert(pairs[a2].0 == k);
            assert(a2 != i);
            assert(pairs[a2].0 != pairs[i].0);
        }
        if has_name(pairs, k) && k != name {
            let a = choose|a: int| 0 <= a < pairs.len() && #[trigger] pairs[a].0 == k;
            assert(a != i);
            let a2 = if a < i {
                a
            } else {
                a - 1
            };
            assert(q[a2] == pairs[a]);
            assert(q[a2].0 == k);
        }
    }
    assert forall|k: Seq<char>| #[trigger] pairs_map(q).contains_key(k) implies pairs_map(q)[k]
        == m[k] by {
        let a = choose|a: int| 0 <= a < q.len() && #[trigger] q[a].0 == k;
        lemma_pairs_map_at(q, a);
        let a2 = if a < i {
            a
        } else {
            a + 1
        };
        assert(q[a] == pairs[a2]);
        lemma_pairs_map_at(pairs, a2);
    }
    assert(pairs_map(q) =~= m);
}

/// The webhooks of a configuration: urls stored under names, no name twice.
pub struct WebhookMap {
    entries: Vec<(String, String)>,
}

impl WebhookMap {
    /// The stored (name, url) pairs, in storage order.
    pub closed spec fn pairs(&self) -> Seq<(Seq<char>, Seq<char>)> {
        self.entries@.map_values(|e: (String, String)| entry_view(e))
    }

    #[verifier::type_invariant]
    closed spec fn no_name_twice(&self) -> bool {
        names_unique(self.pairs())
    }

    /// An empty set of webhooks.
    pub fn new() -> (res: Self)
        ensures
            res@ == Map::<Seq<char>, Seq<char>>::empty(),
    {
        let res = WebhookMap { entries: Vec::new() };
        assert(res.pairs() =~= Seq::<(Seq<char>, Seq<char>)>::empty());
        assert(res@ =~= Map::<Seq<char>, Seq<char>>::empty());
        res
    }

    fn position(&self, name: &String) -> (res: Option<usize>)
        ensures
            match res {
                Some(i) => i < self.pairs().len() && self.pairs()[i as int].0 == name@,
                None => !has_name(self.pairs(), name@),
            },
    {
        let mut i: usize = 0;
        while i < self.entries.len()
            invariant
                i <= self.entries@.len(),
                forall|j: int| 0 <= j < i ==> #[trigger] self.pairs()[j].0 != name@,
            decreases self.entries@.len() - i,
        {
            if self.entries[i].0 == *name {
                return Some(i);
            }
            i = i + 1;
        }
        None
    }

    fn copied(&self) -> (res: Vec<(String, String)>)
        ensures
            res@ == self.entries@,
    {
        let mut res: Vec<(String, String)> = Vec::new();
        let mut i: usize = 0;
        while i < self.entries.len()
            invariant
                i <= self.entries@.len(),
                res@ =~= self.entries@.subrange(0, i as int),
            decreases self.entries@.len() - i,
        {
            let name = self.entries[i].0.clone();
            let url = self.entries[i].1.clone();
            res.push((name, url));
            i = i + 1;
        }
        assert(res@ =~= self.entries@);
        res
    }

    /// The url stored under `name`, if any.
    pub fn get(&self, name: &str) -> (res: Option<&String>)
        ensures
            match res {
                Some(url) => self@.contains_key(name@) && url@ == self@[name@],
                None => !self@.contains_key(name@),
            },
    {
        proof {
            use_type_invariant(self);
        }
        let key = name.to_owned();
        match self.position(&key) {
            Some(i) => {
                proof {
                    lemma_pairs_map_at(self.pairs(), i as int);
                }
                Some(&self.entries[i].1)
            },
            None => None,
        }
    }

    /// Whether a url is stored under `name`.
    pub fn contains_key(&self, name: &str) -> (res: bool)
        ensures
            res == self@.contains_key(name@),
    {
        self.get(name).is_some()
    }

    /// Stores `url` under `name`, replacing what was stored there.
    pub fn insert(&mut self, name: String, url: String)
        ensures
            final(self)@ == old(self)@.insert(name@, url@),
    {
        proof {
            use_type_invariant(&*self);
        }
        let ghost old_pairs = self.pairs();
        let ghost n = name@;
        let ghost u = url@;
        let found = self.position(&name);
        let mut entries: Vec<(String, String)> = Vec::new();
        std::mem::swap(&mut entries, &mut self.entries);
        match found {
            Some(i) => {
                proof {
                    lemma_update_at(old_pairs, i as int, n, u);
                }
                entries.set(i, (name, url));
                assert(entries@.map_values(|e: (String, String)| entry_view(e)) =~= old_pairs.update(
                    i as int,
                    (n, u),
                ));
            },
            None => {
                proof {
                    lemma_push_new_name(old_pairs, n, u);
                }
                entries.push((name, url));
                assert(entries@.map_values(|e: (String, String)| entry_view(e)) =~= old_pairs.push(
                    (n, u),
                ));
            },
        }
        self.entries = entries;
    }

    /// Removes what is stored under `name`, handing it back; `None` when nothing was.
    pub fn remove(&mut self, name: &str) -> (res: Option<String>)
        ensures
            final(self)@ == old(self)@.remove(name@),
            match res {
                Some(url) => old(self)@.contains_key(name@) && url@ == old(self)@[name@],
                None => !old(self)@.contains_key(name@),
            },
    {
        proof {
            use_type_invariant(&*self);
        }
        let ghost old_pairs = self.pairs();
        let key = name.to_owned();
        match self.position(&key) {
            Some(i) => {
                proof {
                    lemma_remove_at(old_pairs, i as int, key@);
                    lemma_pairs_map_at(old_pairs, i as int);
                }
                let mut entries: Vec<(String, String)> = Vec::new();
                std::mem::swap(&mut entries, &mut self.entries);
                let removed = entries.remove(i);
                assert(entries@.map_values(|e: (String, String)| entry_view(e)) =~= old_pairs.remove(
                    i as int,
                ));
                self.entries = entries;
                Some(removed.1)
            },
            None => {
                assert(old_pairs.len() == 0 ==> old_pairs == Seq::<(Seq<char>, Seq<char>)>::empty());
                assert(self@ =~= self@.remove(name@));
                None
            },
        }
    }

    /// Copies of the stored (name, url) pairs, in storage order.
    pub fn entries(&self) -> (res: Vec<(String, String)>)
        ensures
            res@.map_values(|e: (String, String)| entry_view(e)) == self.pairs(),
            names_unique(self.pairs()),
            pairs_map(self.pairs()) == self@,
    {
        proof {
            use_type_invariant(self);
        }
        let res = self.copied();
        assert(res@.map_values(|e: (String, String)| entry_view(e)) =~= self.pairs());
        res
    }
}

impl View for WebhookMap {
    type V = Map<Seq<char>, Seq<char>>;

    closed spec fn view(&self) -> Map<Seq<char>, Seq<char>> {
        pairs_map(self.pairs())
    }
}

} // verus!
