//! A map keyed by name that keeps the order in which names first arrived.

use vstd::prelude::*;

verus! {

/// No two entries of `s` carry the same name.
pub open spec fn names_distinct<V>(s: Seq<(Seq<char>, V)>) -> bool {
    forall|i: int, j: int| 0 <= i < j < s.len() ==> s[i].0 != s[j].0
}

/// Some entry of `s` is called `name`.
pub open spec fn has_name<V>(s: Seq<(Seq<char>, V)>, name: Seq<char>) -> bool {
    exists|i: int| 0 <= i < s.len() && #[trigger] s[i].0 == name
}

/// The position of an entry called `name`; arbitrary when there is none.
pub open spec fn position<V>(s: Seq<(Seq<char>, V)>, name: Seq<char>) -> int {
    choose|i: int| 0 <= i < s.len() && #[trigger] s[i].0 == name
}

/// The mapping that a list of named entries stands for.
pub open spec fn mapping<V>(s: Seq<(Seq<char>, V)>) -> Map<Seq<char>, V> {
    Map::new(|name: Seq<char>| has_name(s, name), |name: Seq<char>| s[position(s, name)].1)
}

/// The names of `s`, in order.
pub open spec fn names_of<V>(s: Seq<(Seq<char>, V)>) -> Seq<Seq<char>> {
    Seq::new(s.len(), |i: int| s[i].0)
}

/// With distinct names, every entry is the value of its own name.
pub proof fn lemma_mapping_at<V>(s: Seq<(Seq<char>, V)>, i: int)
    requires
        names_distinct(s),
        0 <= i < s.len(),
    ensures
        mapping(s).dom().contains(s[i].0),
        mapping(s)[s[i].0] == s[i].1,
        position(s, s[i].0) == i,
{
    let name = s[i].0;
    assert(has_name(s, name));
    let p = position(s, name);
    assert(0 <= p < s.len() && s[p].0 == name);
    if p < i {
        assert(s[p].0 != s[i].0);
    } else if i < p {
        assert(s[i].0 != s[p].0);
    }
}

/// Appending an entry under a fresh name is `Map::insert`.
pub proof fn lemma_mapping_push<V>(s: Seq<(Seq<char>, V)>, name: Seq<char>, value: V)
    requires
        names_distinct(s),
        !has_name(s, name),
    ensures
        names_distinct(s.push((name, value))),
        mapping(s.push((name, value))) == mapping(s).insert(name, value),
{
    let t = s.push((name, value));
    assert(names_distinct(t)) by {
        assert forall|i: int, j: int| 0 <= i < j < t.len() implies t[i].0 != t[j].0 by {
            if j == s.len() {
                assert(s[i].0 != name);
            }
        }
    }
    assert forall|k: Seq<char>| has_name(t, k) <==> (k == name || has_name(s, k)) by {
        if has_name(t, k) {
            let i = position(t, k);
            if i < s.len() {
                assert(s[i].0 == k);
            }
        }
        if has_name(s, k) {
            let i = position(s, k);
            assert(t[i].0 == k);
        }
        if k == name {
            assert(t[s.len() as int].0 == k);
        }
    }
    assert forall|k: Seq<char>| has_name(t, k) implies #[trigger] mapping(t)[k] == mapping(
        s,
    ).insert(name, value)[k] by {
        let i = position(t, k);
        lemma_mapping_at(t, i);
        if i < s.len() {
            assert(s[i].0 == k);
            lemma_mapping_at(s, i);
        }
    }
    assert(mapping(t) =~= mapping(s).insert(name, value));
}

/// Replacing the value of an entry in place is `Map::insert` under its name.
pub proof fn lemma_mapping_update<V>(s: Seq<(Seq<char>, V)>, at: int, name: Seq<char>, value: V)
    requires
        names_distinct(s),
        0 <= at < s.len(),
        s[at].0 == name,
    ensures
        names_distinct(s.update(at, (name, value))),
        names_of(s.update(at, (name, value))) == names_of(s),
        mapping(s.update(at, (name, value))) == mapping(s).insert(name, value),
{
    let t = s.update(at, (name, value));
    assert(names_of(t) =~= names_of(s));
    assert(names_distinct(t)) by {
        assert forall|i: int, j: int| 0 <= i < j < t.len() implies t[i].0 != t[j].0 by {
            assert(t[i].0 == s[i].0);
            assert(t[j].0 == s[j].0);
        }
    }
    assert forall|k: Seq<char>| has_name(t, k) <==> (k == name || has_name(s, k)) by {
        if has_name(t, k) {
            let i = position(t, k);
            assert(s[i].0 == k);
        }
        if has_name(s, k) {
            let i = position(s, k);
            assert(t[i].0 == k);
        }
        if k == name {
            assert(t[at].0 == k);
            assert(s[at].0 == k);
        }
    }
    assert forall|k: Seq<char>| has_name(t, k) implies #[trigger] mapping(t)[k] == mapping(
        s,
    ).insert(name, value)[k] by {
        let i = position(t, k);
        lemma_mapping_at(t, i);
        assert(s[i].0 == k);
        lemma_mapping_at(s, i);
    }
    assert(mapping(t) =~= mapping(s).insert(name, value));
}

/// `s` with `value` stored under `name`: an entry of that name keeps its
/// place and is replaced, a new name goes to the end.
pub open spec fn put<V>(s: Seq<(Seq<char>, V)>, name: Seq<char>, value: V) -> Seq<(Seq<char>, V)> {
    if has_name(s, name) {
        s.update(position(s, name), (name, value))
    } else {
        s.push((name, value))
    }
}

/// `put` keeps names distinct and acts on the mapping as `Map::insert`.
pub proof fn lemma_put<V>(s: Seq<(Seq<char>, V)>, name: Seq<char>, value: V)
    requires
        names_distinct(s),
    ensures
        names_distinct(put(s, name, value)),
        mapping(put(s, name, value)) == mapping(s).insert(name, value),
        has_name(s, name) ==> names_of(put(s, name, value)) == names_of(s),
        !has_name(s, name) ==> names_of(put(s, name, value)) == names_of(s).push(name),
{
    if has_name(s, name) {
        lemma_mapping_update(s, position(s, name), name, value);
    } else {
        lemma_mapping_push(s, name, value);
        assert(names_of(s.push((name, value))) =~= names_of(s).push(name));
    }
}

/// `base` after the first `n` entries of `extra` have been stored in it, one
/// after the other: where both hold a name, the value of `extra` stays.
pub open spec fn put_all<V>(base: Seq<(Seq<char>, V)>, extra: Seq<(Seq<char>, V)>, n: int) -> Seq<
    (Seq<char>, V),
>
    decreases n,
{
    if n <= 0 || n > extra.len() {
        base
    } else {
        put(put_all(base, extra, n - 1), extra[n - 1].0, extra[n - 1].1)
    }
}

/// `put_all` keeps names distinct. On the mapping it is the union in which
/// `extra` wins.
pub proof fn lemma_put_all<V>(base: Seq<(Seq<char>, V)>, extra: Seq<(Seq<char>, V)>, n: int)
    requires
        names_distinct(base),
        names_distinct(extra),
        0 <= n <= extra.len(),
    ensures
        names_distinct(put_all(base, extra, n)),
        mapping(put_all(base, extra, n)) == mapping(base).union_prefer_right(
            mapping(extra.take(n)),
        ),
    decreases n,
{
    if n <= 0 {
        assert(mapping(extra.take(n)) =~= Map::<Seq<char>, V>::empty());
        assert(mapping(base) =~= mapping(base).union_prefer_right(mapping(extra.take(n))));
    } else {
        lemma_put_all(base, extra, n - 1);
        let before = put_all(base, extra, n - 1);
        lemma_put(before, extra[n - 1].0, extra[n - 1].1);
        assert(extra.take(n) =~= extra.take(n - 1).push(extra[n - 1]));
        assert(names_distinct(extra.take(n - 1)));
        if has_name(extra.take(n - 1), extra[n - 1].0) {
            let i = position(extra.take(n - 1), extra[n - 1].0);
            assert(extra[i].0 != extra[n - 1].0);
        }
        lemma_mapping_push(extra.take(n - 1), extra[n - 1].0, extra[n - 1].1);
        assert(mapping(put_all(base, extra, n)) =~= mapping(base).union_prefer_right(
            mapping(extra.take(n)),
        ));
    }
}

/// How many of the first `n` entries of `extra` carry a name that `base`
/// does not hold.
pub open spec fn fresh_count<V>(base: Seq<(Seq<char>, V)>, extra: Seq<(Seq<char>, V)>, n: int) -> nat
    decreases n,
{
    if n <= 0 || n > extra.len() {
        0
    } else {
        fresh_count(base, extra, n - 1) + if has_name(base, extra[n - 1].0) {
            0nat
        } else {
            1nat
        }
    }
}

/// Storing entries with distinct names adds one entry for every name that
/// was not held before, and holds a name exactly when one of the two did.
pub proof fn lemma_put_all_len<V>(base: Seq<(Seq<char>, V)>, extra: Seq<(Seq<char>, V)>, n: int)
    requires
        names_distinct(base),
        names_distinct(extra),
        0 <= n <= extra.len(),
    ensures
        put_all(base, extra, n).len() == base.len() + fresh_count(base, extra, n),
        forall|name: Seq<char>|
            has_name(put_all(base, extra, n), name) <==> has_name(base, name) || has_name(
                extra.take(n),
                name,
            ),
    decreases n,
{
    lemma_put_all(base, extra, n);
    assert forall|name: Seq<char>|
        has_name(put_all(base, extra, n), name) <==> has_name(base, name) || has_name(
            extra.take(n),
            name,
        ) by {
        assert(mapping(put_all(base, extra, n)).dom().contains(name) <==> has_name(
            put_all(base, extra, n),
            name,
        ));
        assert(mapping(base).dom().contains(name) <==> has_name(base, name));
        assert(mapping(extra.take(n)).dom().contains(name) <==> has_name(extra.take(n), name));
    }
    if n > 0 {
        lemma_put_all_len(base, extra, n - 1);
        let before = put_all(base, extra, n - 1);
        let name = extra[n - 1].0;
        if has_name(extra.take(n - 1), name) {
            let i = position(extra.take(n - 1), name);
            assert(extra[i].0 != extra[n - 1].0);
        }
        assert(has_name(before, name) <==> has_name(base, name));
    }
}

/// Where `base` holds none of the first `n` names of `extra`, all of them
/// are new.
pub proof fn lemma_fresh_all<V>(base: Seq<(Seq<char>, V)>, extra: Seq<(Seq<char>, V)>, n: int)
    requires
        0 <= n <= extra.len(),
        forall|k: int| 0 <= k < n ==> !has_name(base, (#[trigger] extra[k]).0),
    ensures
        fresh_count(base, extra, n) == n,
    decreases n,
{
    if n > 0 {
        lemma_fresh_all(base, extra, n - 1);
    }
}

/// Where `base` holds exactly one of the first `n` names of `extra`, all
/// but one of them are new.
pub proof fn lemma_fresh_but_one<V>(
    base: Seq<(Seq<char>, V)>,
    extra: Seq<(Seq<char>, V)>,
    n: int,
    shared: int,
)
    requires
        0 <= shared < n <= extra.len(),
        has_name(base, extra[shared].0),
        forall|k: int| 0 <= k < n && k != shared ==> !has_name(base, (#[trigger] extra[k]).0),
    ensures
        fresh_count(base, extra, n) == n - 1,
    decreases n,
{
    if n - 1 == shared {
        lemma_fresh_all(base, extra, n - 1);
    } else {
        lemma_fresh_but_one(base, extra, n - 1, shared);
    }
}

/// Two lists that share exactly one name merge into one entry less than
/// both hold together: where no list repeats a name and the entries at `i`
/// of the first and at `j` of the second are the only two of one name,
/// storing the first and then the second holds every name once.
pub proof fn lemma_one_shared<V>(
    first: Seq<(Seq<char>, V)>,
    second: Seq<(Seq<char>, V)>,
    i: int,
    j: int,
)
    requires
        names_distinct(first),
        names_distinct(second),
        0 <= i < first.len(),
        0 <= j < second.len(),
        first[i].0 == second[j].0,
        forall|k: int, l: int|
            0 <= k < first.len() && 0 <= l < second.len() && (#[trigger] first[k]).0 == (
            #[trigger] second[l]).0 ==> k == i && l == j,
    ensures
        names_distinct(
            put_all(
                put_all(Seq::empty(), first, first.len() as int),
                second,
                second.len() as int,
            ),
        ),
        put_all(
            put_all(Seq::empty(), first, first.len() as int),
            second,
            second.len() as int,
        ).len() == first.len() + second.len() - 1,
{
    let nothing = Seq::<(Seq<char>, V)>::empty();
    let one = put_all(nothing, first, first.len() as int);
    assert(names_distinct(nothing));
    lemma_put_all(nothing, first, first.len() as int);
    lemma_put_all_len(nothing, first, first.len() as int);
    assert(first.take(first.len() as int) =~= first);
    assert(one.len() == first.len()) by {
        assert forall|k: int| 0 <= k < first.len() implies !has_name(
            nothing,
            (#[trigger] first[k]).0,
        ) by {}
        lemma_fresh_all(nothing, first, first.len() as int);
    }
    assert forall|name: Seq<char>| has_name(one, name) <==> has_name(first, name) by {
        assert(!has_name(nothing, name));
        assert(has_name(one, name) <==> has_name(nothing, name) || has_name(
            first.take(first.len() as int),
            name,
        ));
    }
    lemma_put_all(one, second, second.len() as int);
    lemma_put_all_len(one, second, second.len() as int);
    assert(fresh_count(one, second, second.len() as int) == second.len() - 1) by {
        assert(has_name(first, first[i].0));
        assert(has_name(one, second[j].0));
        assert forall|l: int| 0 <= l < second.len() && l != j implies !has_name(
            one,
            (#[trigger] second[l]).0,
        ) by {
            if has_name(first, second[l].0) {
                let k = position(first, second[l].0);
                assert(first[k].0 == second[l].0);
            }
        }
        lemma_fresh_but_one(one, second, second.len() as int, j);
    }
}

/// The entries of `s` with every value replaced by its image under `f`.
pub open spec fn relabel<V, W>(s: Seq<(Seq<char>, V)>, f: spec_fn(V) -> W) -> Seq<(Seq<char>, W)> {
    s.map_values(|e: (Seq<char>, V)| (e.0, f(e.1)))
}

/// Replacing values leaves the names alone, so it commutes with looking a
/// name up.
pub proof fn lemma_relabel<V, W>(s: Seq<(Seq<char>, V)>, f: spec_fn(V) -> W)
    requires
        names_distinct(s),
    ensures
        names_distinct(relabel(s, f)),
        names_of(relabel(s, f)) == names_of(s),
        forall|name: Seq<char>| has_name(relabel(s, f), name) <==> has_name(s, name),
        forall|name: Seq<char>|
            has_name(s, name) ==> position(relabel(s, f), name) == position(s, name),
        mapping(relabel(s, f)).dom() == mapping(s).dom(),
        forall|name: Seq<char>|
            has_name(s, name) ==> #[trigger] mapping(relabel(s, f))[name] == f(mapping(s)[name]),
{
    let t = relabel(s, f);
    assert(names_of(t) =~= names_of(s));
    assert forall|name: Seq<char>| has_name(t, name) <==> has_name(s, name) by {
        if has_name(t, name) {
            let i = position(t, name);
            assert(s[i].0 == name);
        }
        if has_name(s, name) {
            let i = position(s, name);
            assert(t[i].0 == name);
        }
    }
    assert forall|name: Seq<char>| has_name(s, name) implies position(t, name) == position(
        s,
        name,
    ) && #[trigger] mapping(t)[name] == f(mapping(s)[name]) by {
        let i = position(s, name);
        assert(t[i].0 == name);
        lemma_mapping_at(t, i);
    }
    assert(mapping(t).dom() =~= mapping(s).dom());
}

/// Replacing values commutes with storing an entry.
pub proof fn lemma_relabel_put<V, W>(
    s: Seq<(Seq<char>, V)>,
    f: spec_fn(V) -> W,
    name: Seq<char>,
    value: V,
)
    requires
        names_distinct(s),
    ensures
        relabel(put(s, name, value), f) == put(relabel(s, f), name, f(value)),
{
    lemma_relabel(s, f);
    assert(relabel(put(s, name, value), f) =~= put(relabel(s, f), name, f(value)));
}

/// A map from names to values of type `V`. Each name occurs once; entries
/// stay in the order in which their names were first inserted.
#[derive(Debug)]
pub struct NameMap<V> {
    entries: Vec<(String, V)>,
}

/// One stored entry, its name taken as a sequence of characters.
pub open spec fn entry_view<V>(e: (String, V)) -> (Seq<char>, V) {
    (e.0@, e.1)
}

/// Stored entries, their names taken as sequences of characters.
pub open spec fn entries_view<V>(s: Seq<(String, V)>) -> Seq<(Seq<char>, V)> {
    s.map_values(|e: (String, V)| entry_view(e))
}

impl<V> NameMap<V> {
    /// The invariant of the type: no name occurs twice.
    #[verifier::type_invariant]
    pub closed spec fn wf(&self) -> bool {
        names_distinct(self.entries())
    }

    /// The entries in insertion order.
    pub closed spec fn entries(&self) -> Seq<(Seq<char>, V)> {
        entries_view(self.entries@)
    }

    /// The names in insertion order.
    pub open spec fn names(&self) -> Seq<Seq<char>> {
        names_of(self.entries())
    }

    /// The mapping from each name to its value.
    pub open spec fn view(&self) -> Map<Seq<char>, V> {
        mapping(self.entries())
    }

    /// The names of a well-formed map are pairwise distinct.
    pub proof fn lemma_distinct(&self)
        requires
            self.wf(),
        ensures
            names_distinct(self.entries()),
    {
    }

    /// An empty map.
    pub fn new() -> (m: Self)
        ensures
            m.entries() == Seq::<(Seq<char>, V)>::empty(),
            m@ == Map::<Seq<char>, V>::empty(),
    {
        let m = NameMap { entries: Vec::new() };
        assert(m.entries() =~= Seq::<(Seq<char>, V)>::empty());
        assert(m@ =~= Map::<Seq<char>, V>::empty());
        m
    }

    /// The number of names.
    pub fn len(&self) -> (n: usize)
        ensures
            n == self.entries().len(),
    {
        self.entries.len()
    }

    /// The position of `name`, if it is present.
    pub fn find(&self, name: &str) -> (r: Option<usize>)
        ensures
            r is Some <==> has_name(self.entries(), name@),
            r matches Some(i) ==> i < self.entries().len() && i == position(self.entries(), name@)
                && self.entries()[i as int].0 == name@,
    {
        proof {
            use_type_invariant(self);
        }
        let wanted = name.to_owned();
        let mut i: usize = 0;
        while i < self.entries.len()
            invariant
                i <= self.entries@.len(),
                self.entries@.len() == self.entries().len(),
                wanted@ == name@,
                names_distinct(self.entries()),
                forall|j: int| 0 <= j < i ==> self.entries()[j].0 != name@,
            decreases self.entries@.len() - i,
        {
            if self.entries[i].0 == wanted {
                proof {
                    assert(self.entries()[i as int].0 == name@);
                    lemma_mapping_at(self.entries(), i as int);
                }
                return Some(i);
            }
            i += 1;
        }
        None
    }

    /// Whether `name` is present.
    pub fn contains(&self, name: &str) -> (b: bool)
        ensures
            b == self@.dom().contains(name@),
    {
        self.find(name).is_some()
    }

    /// The value stored under `name`.
    pub fn get(&self, name: &str) -> (r: Option<&V>)
        ensures
            r is Some <==> self@.dom().contains(name@),
            r matches Some(v) ==> *v == self@[name@],
    {
        match self.find(name) {
            Some(i) => Some(&self.entries[i].1),
            None => None,
        }
    }

    /// The name at position `i` of the insertion order.
    pub fn name_at(&self, i: usize) -> (name: &String)
        requires
            i < self.entries().len(),
        ensures
            name@ == self.entries()[i as int].0,
    {
        &self.entries[i].0
    }

    /// The value at position `i` of the insertion order.
    pub fn value_at(&self, i: usize) -> (value: &V)
        requires
            i < self.entries().len(),
        ensures
            *value == self.entries()[i as int].1,
    {
        &self.entries[i].1
    }

    /// Gives the entries up, in insertion order.
    pub fn into_entries(self) -> (entries: Vec<(String, V)>)
        ensures
            entries_view(entries@) == self.entries(),
            names_distinct(self.entries()),
    {
        proof {
            use_type_invariant(&self);
        }
        self.entries
    }

    /// Stores `value` under `name`. A name that is already present keeps its
    /// place and takes the new value; a new name goes to the end.
    pub fn insert(&mut self, name: String, value: V)
        ensures
            final(self).entries() == put(old(self).entries(), name@, value),
            final(self)@ == old(self)@.insert(name@, value),
    {
        proof {
            use_type_invariant(&*self);
        }
        let found = self.find(name.as_str());
        let ghost before = self.entries();
        let mut entries: Vec<(String, V)> = Vec::new();
        core::mem::swap(&mut entries, &mut self.entries);
        proof {
            lemma_put(before, name@, value);
        }
        match found {
            Some(i) => {
                entries.set(i, (name, value));
                assert(entries_view(entries@) =~= before.update(
                    i as int,
                    (name@, value),
                ));
            },
            None => {
                entries.push((name, value));
                assert(entries_view(entries@) =~= before.push(
                    (name@, value),
                ));
            },
        }
        self.entries = entries;
    }
}

} // verus!
