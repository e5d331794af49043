use vstd::prelude::*;

verus! {

/// The stored login of one service.
pub struct Credential {
    pub username: String,
    pub password_plana: String,
}

impl View for Credential {
    /// The username and the password, in that order.
    type V = (Seq<char>, Seq<char>);

    open spec fn view(&self) -> (Seq<char>, Seq<char>) {
        (self.username@, self.password_plana@)
    }
}

/// The service names of a list of entries, in their order.
pub open spec fn keys_of(s: Seq<(String, Credential)>) -> Seq<Seq<char>> {
    s.map_values(|e: (String, Credential)| e.0@)
}

/// Some entry of `s` is named `k`.
pub open spec fn holds_key(s: Seq<(String, Credential)>, k: Seq<char>) -> bool {
    exists|i: int| 0 <= i < s.len() && #[trigger] s[i].0@ == k
}

/// The position of an entry named `k`, where there is one.
pub open spec fn index_of(s: Seq<(String, Credential)>, k: Seq<char>) -> int {
    choose|i: int| 0 <= i < s.len() && #[trigger] s[i].0@ == k
}

/// The map from service name to credential that a list of entries stands for.
pub open spec fn entries_map(s: Seq<(String, Credential)>) -> Map<Seq<char>, (Seq<char>, Seq<char>)> {
    Map::new(
        |k: Seq<char>| holds_key(s, k),
        |k: Seq<char>| s[index_of(s, k)].1@,
    )
}

proof fn lemma_entry_in_map(s: Seq<(String, Credential)>, i: int)
    requires
        keys_of(s).no_duplicates(),
        0 <= i < s.len(),
    ensures
        entries_map(s).contains_key(s[i].0@),
        entries_map(s)[s[i].0@] == s[i].1@,
{
    let k = s[i].0@;
    assert(holds_key(s, k));
    let j = index_of(s, k);
    assert(keys_of(s)[i] == k && keys_of(s)[j] == k);
    assert(j == i);
    assert(entries_map(s)[k] == s[j].1@);
}

proof fn lemma_remove_entry(s: Seq<(String, Credential)>, i: int)
    requires
        keys_of(s).no_duplicates(),
        0 <= i < s.len(),
    ensures
        keys_of(s.remove(i)).no_duplicates(),
        entries_map(s.remove(i)) =~= entries_map(s).remove(s[i].0@),
{
    let r = s.remove(i);
    let k0 = s[i].0@;
    assert forall|a: int, b: int| 0 <= a < r.len() && 0 <= b < r.len() && a != b implies keys_of(r)[a]
        != keys_of(r)[b] by {
        let a2 = if a < i { a } else { a + 1 };
        let b2 = if b < i { b } else { b + 1 };
        assert(keys_of(s)[a2] != keys_of(s)[b2]);
    }
    assert forall|k: Seq<char>| holds_key(r, k) <==> (holds_key(s, k) && k != k0) by {
        if holds_key(r, k) {
            let a = choose|a: int| 0 <= a < r.len() && #[trigger] r[a].0@ == k;
            let a2 = if a < i { a } else { a + 1 };
            assert(s[a2].0@ == k);
            assert(keys_of(s)[a2] != keys_of(s)[i]);
        }
        if holds_key(s, k) && k != k0 {
            let a = choose|a: int| 0 <= a < s.len() && #[trigger] s[a].0@ == k;
            if a < i {
                assert(r[a].0@ == k);
            } else {
                assert(r[a - 1].0@ == k);
            }
        }
    }
    assert forall|k: Seq<char>| #[trigger] entries_map(r).contains_key(k) implies entries_map(r)[k]
        == entries_map(s)[k] by {
        let a = choose|a: int| 0 <= a < r.len() && #[trigger] r[a].0@ == k;
        let a2 = if a < i { a } else { a + 1 };
        assert(r[a] == s[a2]);
        lemma_entry_in_map(s, a2);
        lemma_entry_in_map(r, a);
    }
}

proof fn lemma_push_entry(s: Seq<(String, Credential)>, e: (String, Credential))
    requires
        keys_of(s).no_duplicates(),
        !holds_key(s, e.0@),
    ensures
        keys_of(s.push(e)).no_duplicates(),
        entries_map(s.push(e)) =~= entries_map(s).insert(e.0@, e.1@),
{
    let p = s.push(e);
    let n = s.len() as int;
    assert forall|a: int, b: int| 0 <= a < p.len() && 0 <= b < p.len() && a != b implies keys_of(p)[a]
        != keys_of(p)[b] by {
        if a < n && b < n {
            assert(keys_of(s)[a] != keys_of(s)[b]);
        } else if a < n {
            assert(s[a].0@ != e.0@);
        } else {
            assert(s[b].0@ != e.0@);
        }
    }
    assert forall|k: Seq<char>| holds_key(p, k) <==> (holds_key(s, k) || k == e.0@) by {
        if holds_key(p, k) {
            let a = choose|a: int| 0 <= a < p.len() && #[trigger] p[a].0@ == k;
            if a < n {
                assert(s[a].0@ == k);
            }
        }
        if holds_key(s, k) {
            let a = choose|a: int| 0 <= a < s.len() && #[trigger] s[a].0@ == k;
            assert(p[a].0@ == k);
        }
        if k == e.0@ {
            assert(p[n].0@ == k);
        }
    }
    assert forall|k: Seq<char>| #[trigger] entries_map(p).contains_key(k) implies entries_map(p)[k]
        == entries_map(s).insert(e.0@, e.1@)[k] by {
        let a = choose|a: int| 0 <= a < p.len() && #[trigger] p[a].0@ == k;
        lemma_entry_in_map(p, a);
        if a < n {
            assert(p[a] == s[a]);
            lemma_entry_in_map(s, a);
        }
    }
}

proof fn lemma_update_entry(s: Seq<(String, Credential)>, i: int, e: (String, Credential))
    requires
        keys_of(s).no_duplicates(),
        0 <= i < s.len(),
        s[i].0@ == e.0@,
    ensures
        keys_of(s.update(i, e)).no_duplicates(),
        entries_map(s.update(i, e)) =~= entries_map(s).insert(e.0@, e.1@),
{
    let u = s.update(i, e);
    assert(keys_of(u) =~= keys_of(s));
    assert forall|k: Seq<char>| holds_key(u, k) <==> holds_key(s, k) by {
        if holds_key(u, k) {
            let a = choose|a: int| 0 <= a < u.len() && #[trigger] u[a].0@ == k;
            assert(s[a].0@ == k);
        }
        if holds_key(s, k) {
            let a = choose|a: int| 0 <= a < s.len() && #[trigger] s[a].0@ == k;
            assert(u[a].0@ == k);
        }
    }
    lemma_entry_in_map(s, i);
    assert forall|k: Seq<char>| #[trigger] entries_map(u).contains_key(k) implies entries_map(u)[k]
        == entries_map(s).insert(e.0@, e.1@)[k] by {
        let a = choose|a: int| 0 <= a < u.len() && #[trigger] u[a].0@ == k;
        lemma_entry_in_map(u, a);
        if a != i {
            assert(u[a] == s[a]);
            assert(keys_of(s)[a] != keys_of(s)[i]);
            lemma_entry_in_map(s, a);
        }
    }
}

proof fn lemma_map_domain_set(s: Seq<(String, Credential)>)
    ensures
        entries_map(s).dom() =~= keys_of(s).to_set(),
        entries_map(s).dom().finite(),
{
    assert forall|k: Seq<char>| holds_key(s, k) <==> keys_of(s).contains(k) by {
        if holds_key(s, k) {
            let a = choose|a: int| 0 <= a < s.len() && #[trigger] s[a].0@ == k;
            assert(keys_of(s)[a] == k);
        }
        if keys_of(s).contains(k) {
            let a = choose|a: int| 0 <= a < keys_of(s).len() && keys_of(s)[a] == k;
            assert(s[a].0@ == k);
        }
    }
    vstd::seq_lib::seq_to_set_is_finite(keys_of(s));
    assert(entries_map(s).dom() == keys_of(s).to_set());
}

proof fn lemma_map_domain(s: Seq<(String, Credential)>)
    requires
        keys_of(s).no_duplicates(),
    ensures
        entries_map(s).dom() =~= keys_of(s).to_set(),
        entries_map(s).dom().finite(),
        entries_map(s).dom().len() == s.len(),
{
    lemma_map_domain_set(s);
    keys_of(s).unique_seq_to_set();
}

/// The accounts of a vault: one credential per service name, kept in the
/// order in which the names were first stored.
pub struct Accounts {
    entries: Vec<(String, Credential)>,
}

impl View for Accounts {
    type V = Map<Seq<char>, (Seq<char>, Seq<char>)>;

    closed spec fn view(&self) -> Map<Seq<char>, (Seq<char>, Seq<char>)> {
        entries_map(self.entries@)
    }
}

impl Accounts {
    /// No service name occurs twice.
    #[verifier::type_invariant]
    spec fn names_unique(self) -> bool {
        keys_of(self.entries@).no_duplicates()
    }

    /// The stored service names, in their order.
    pub closed spec fn names(&self) -> Seq<Seq<char>> {
        keys_of(self.entries@)
    }

    /// What every value of the type keeps: each stored service is named
    /// exactly once, the names are the domain of the map, and there are
    /// finitely many of them.
    pub open spec fn is_consistent(&self) -> bool {
        &&& self.names().no_duplicates()
        &&& self@.dom() == self.names().to_set()
        &&& self@.dom().finite()
        &&& self@.dom().len() == self.names().len()
    }

    /// The stored names are the domain of the map, which is finite.
    pub proof fn lemma_names_are_domain(&self)
        ensures
            self@.dom() == self.names().to_set(),
            self@.dom().finite(),
    {
        lemma_map_domain_set(self.entries@);
    }

    /// An empty set of accounts.
    pub fn new() -> (res: Self)
        ensures
            res@ =~= Map::<Seq<char>, (Seq<char>, Seq<char>)>::empty(),
            res.names() =~= Seq::<Seq<char>>::empty(),
            res.is_consistent(),
    {
        let res = Accounts { entries: Vec::new() };
        assert(keys_of(res.entries@) =~= Seq::<Seq<char>>::empty());
        proof {
            use_type_invariant(&res);
            lemma_map_domain(res.entries@);
        }
        res
    }

    /// The number of stored services.
    pub fn len(&self) -> (n: usize)
        ensures
            n == self.names().len(),
            n == self@.dom().len(),
            self.is_consistent(),
    {
        proof {
            use_type_invariant(self);
            lemma_map_domain(self.entries@);
        }
        self.entries.len()
    }

    /// No service is stored.
    pub fn is_empty(&self) -> (b: bool)
        ensures
            b <==> self@.dom().len() == 0,
            b <==> self@ =~= Map::<Seq<char>, (Seq<char>, Seq<char>)>::empty(),
            self.is_consistent(),
    {
        proof {
            use_type_invariant(self);
            lemma_map_domain(self.entries@);
            if self@.dom().len() == 0 {
                assert(self@.dom() =~= Set::<Seq<char>>::empty());
            }
        }
        self.entries.len() == 0
    }

    fn find(&self, key: &String) -> (res: Option<usize>)
        ensures
            match res {
                Some(i) => i < self.entries@.len() && self.entries@[i as int].0@ == key@,
                None => !holds_key(self.entries@, key@),
            },
    {
        let mut i: usize = 0;
        while i < self.entries.len()
            invariant
                i <= self.entries@.len(),
                forall|j: int| 0 <= j < i ==> #[trigger] self.entries@[j].0@ != key@,
            decreases self.entries@.len() - i,
        {
            if self.entries[i].0 == *key {
                return Some(i);
            }
            i = i + 1;
        }
        None
    }

    /// Whether a credential is stored under `name`.
    pub fn contains_key(&self, name: &str) -> (b: bool)
        ensures
            b == self@.contains_key(name@),
            self.is_consistent(),
    {
        proof {
            use_type_invariant(self);
            lemma_map_domain(self.entries@);
        }
        let key = name.to_owned();
        match self.find(&key) {
            Some(_) => true,
            None => false,
        }
    }

    /// The credential stored under `name`, if any.
    pub fn get(&self, name: &str) -> (res: Option<&Credential>)
        ensures
            res is Some <==> self@.contains_key(name@),
            res matches Some(c) ==> c@ == self@[name@],
            self.is_consistent(),
    {
        proof {
            use_type_invariant(self);
            lemma_map_domain(self.entries@);
        }
        let key = name.to_owned();
        match self.find(&key) {
            Some(i) => {
                proof {
                    lemma_entry_in_map(self.entries@, i as int);
                }
                Some(&self.entries[i].1)
            },
            None => None,
        }
    }

    /// The `i`-th stored service name and its credential.
    pub fn entry(&self, i: usize) -> (res: (&String, &Credential))
        requires
            i < self.names().len(),
        ensures
            res.0@ == self.names()[i as int],
            self@.contains_key(res.0@),
            self@[res.0@] == res.1@,
            self.is_consistent(),
    {
        proof {
            use_type_invariant(self);
            lemma_map_domain(self.entries@);
            lemma_entry_in_map(self.entries@, i as int);
        }
        let e = &self.entries[i];
        (&e.0, &e.1)
    }

    /// Stores `cred` under `name`, replacing and handing back what was stored
    /// there before. A new name goes after all the others.
    pub fn insert(&mut self, name: String, cred: Credential) -> (res: Option<Credential>)
        ensures
            final(self)@ == old(self)@.insert(name@, cred@),
            res is Some <==> old(self)@.contains_key(name@),
            res matches Some(c) ==> c@ == old(self)@[name@],
            old(self)@.contains_key(name@) ==> final(self).names() == old(self).names(),
            !old(self)@.contains_key(name@) ==> final(self).names() == old(self).names().push(name@),
            old(self).is_consistent(),
            final(self).is_consistent(),
    {
        proof {
            use_type_invariant(&*self);
            lemma_map_domain(self.entries@);
        }
        let ghost old_entries = self.entries@;
        let found = self.find(&name);
        let mut entries: Vec<(String, Credential)> = Vec::new();
        std::mem::swap(&mut entries, &mut self.entries);
        match found {
            Some(i) => {
                let mut pair = (name, cred);
                let ghost new_pair = pair;
                entries.set_and_swap(i, &mut pair);
                proof {
                    lemma_update_entry(old_entries, i as int, new_pair);
                    lemma_entry_in_map(old_entries, i as int);
                    lemma_map_domain(entries@);
                }
                self.entries = entries;
                Some(pair.1)
            },
            None => {
                let ghost e = (name, cred);
                entries.push((name, cred));
                proof {
                    lemma_push_entry(old_entries, e);
                    assert(keys_of(entries@) =~= keys_of(old_entries).push(name@));
                    lemma_map_domain(entries@);
                }
                self.entries = entries;
                None
            },
        }
    }

    /// Takes out the credential stored under `name`, if any; the other
    /// services keep their order.
    pub fn remove(&mut self, name: &str) -> (res: Option<Credential>)
        ensures
            final(self)@ == old(self)@.remove(name@),
            res is Some <==> old(self)@.contains_key(name@),
            res matches Some(c) ==> c@ == old(self)@[name@],
            old(self)@.contains_key(name@) ==> exists|i: int|
                0 <= i < old(self).names().len() && old(self).names()[i] == name@
                    && final(self).names() == #[trigger] old(self).names().remove(i),
            !old(self)@.contains_key(name@) ==> final(self).names() == old(self).names(),
            old(self).is_consistent(),
            final(self).is_consistent(),
    {
        proof {
            use_type_invariant(&*self);
            lemma_map_domain(self.entries@);
        }
        let ghost old_entries = self.entries@;
        let key = name.to_owned();
        match self.find(&key) {
            Some(i) => {
                let mut entries: Vec<(String, Credential)> = Vec::new();
                std::mem::swap(&mut entries, &mut self.entries);
                let (_k, c) = entries.remove(i);
                proof {
                    lemma_remove_entry(old_entries, i as int);
                    lemma_entry_in_map(old_entries, i as int);
                    lemma_map_domain(entries@);
                    assert(keys_of(entries@) =~= keys_of(old_entries).remove(i as int));
                    assert(keys_of(old_entries)[i as int] == name@);
                }
                self.entries = entries;
                assert(self.names() == old(self).names().remove(i as int));
                Some(c)
            },
            None => {
                assert(old(self)@.remove(name@) =~= old(self)@);
                None
            },
        }
    }
}

/// A vault: the salt its key is derived with, and the stored accounts.
pub struct Vault {
    pub salt: String,
    pub accounts: Accounts,
}

impl Vault {
    /// An empty vault with the given salt.
    pub fn new(salt: String) -> (res: Self)
        ensures
            res.salt@ == salt@,
            res.accounts@ =~= Map::<Seq<char>, (Seq<char>, Seq<char>)>::empty(),
            res.accounts.names() =~= Seq::<Seq<char>>::empty(),
            res.accounts.is_consistent(),
    {
        Vault { salt, accounts: Accounts::new() }
    }
}

} // verus!
