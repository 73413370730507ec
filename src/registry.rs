use vstd::prelude::*;

use crate::server::ServerError;
use crate::user::User;

verus! {

pub open spec fn has_name<S>(v: Seq<(Seq<char>, S)>, n: Seq<char>) -> bool {
    exists|i: int| 0 <= i < v.len() && #[trigger] v[i].0 == n
}

pub open spec fn unique_names<S>(v: Seq<(Seq<char>, S)>) -> bool {
    forall|i: int, j: int| 0 <= i < j < v.len() ==> #[trigger] v[i].0 != #[trigger] v[j].0
}

/// The entries after an attempt to register `n`: a new entry at the end
/// unless the name is taken, in which case nothing changes.
pub open spec fn with_entry<S>(v: Seq<(Seq<char>, S)>, n: Seq<char>, sink: S) -> Seq<
    (Seq<char>, S),
> {
    if has_name(v, n) {
        v
    } else {
        v.push((n, sink))
    }
}

/// Holds of the entries not named `n`.
pub open spec fn named_other_than<S>(n: Seq<char>) -> spec_fn((Seq<char>, S)) -> bool {
    |e: (Seq<char>, S)| e.0 != n
}

/// The entries other than the one named `n`, in their order.
pub open spec fn without<S>(v: Seq<(Seq<char>, S)>, n: Seq<char>) -> Seq<(Seq<char>, S)> {
    v.filter(named_other_than(n))
}

/// The live sessions by name, each with the handle its outbound bytes go to.
/// No name has two entries; entries keep the order they were registered in.
pub struct Registry<S> {
    entries: Vec<(User, S)>,
}

impl<S> View for Registry<S> {
    type V = Seq<(Seq<char>, S)>;

    closed spec fn view(&self) -> Seq<(Seq<char>, S)> {
        self.entries@.map_values(|e: (User, S)| (e.0.name@, e.1))
    }
}

impl<S> Registry<S> {
    #[verifier::type_invariant]
    spec fn names_unique(&self) -> bool {
        unique_names(self@)
    }

    pub fn new() -> (r: Registry<S>)
        ensures
            r@ == Seq::<(Seq<char>, S)>::empty(),
    {
        let r = Registry { entries: Vec::new() };
        assert(r@ =~= Seq::<(Seq<char>, S)>::empty());
        r
    }

    pub fn len(&self) -> (n: usize)
        ensures
            n == self@.len(),
    {
        self.entries.len()
    }

    fn position(&self, name: &String) -> (r: Option<usize>)
        ensures
            match r {
                Some(i) => i < self@.len() && self@[i as int].0 == name@,
                None => !has_name(self@, name@),
            },
    {
        let mut i: usize = 0;
        while i < self.entries.len()
            invariant
                i <= self.entries.len(),
                forall|j: int| 0 <= j < i ==> self@[j].0 != name@,
            decreases self.entries.len() - i,
        {
            if self.entries[i].0.name == *name {
                return Some(i);
            }
            i = i + 1;
        }
        None
    }

    pub fn contains(&self, user: &User) -> (r: bool)
        ensures
            r == has_name(self@, user.name@),
    {
        self.position(&user.name).is_some()
    }

    /// The handle registered under `user`'s name, if any.
    pub fn get(&self, user: &User) -> (r: Option<&S>)
        ensures
            r is Some == has_name(self@, user.name@),
            r matches Some(s) ==> exists|i: int|
                0 <= i < self@.len() && self@[i] == (user.name@, *s),
    {
        match self.position(&user.name) {
            Some(i) => Some(&self.entries[i].1),
            None => None,
        }
    }

    /// Registers `user` unless its name is taken: the check and the insertion
    /// are one step, so two registrations of one name cannot both succeed.
    pub fn try_register(&mut self, user: User, sink: S) -> (r: Result<(), ServerError>)
        ensures
            r is Ok <==> !has_name(old(self)@, user.name@),
            final(self)@ == with_entry(old(self)@, user.name@, sink),
            has_name(final(self)@, user.name@),
            r matches Err(e) ==> e matches ServerError::AlreadyConnected(n) && n@ == user.name@,
    {
        proof {
            use_type_invariant(&*self);
        }
        match self.position(&user.name) {
            Some(_) => Err(ServerError::AlreadyConnected(user.name)),
            None => {
                let ghost n = user.name@;
                let mut entries: Vec<(User, S)> = Vec::new();
                std::mem::swap(&mut self.entries, &mut entries);
                entries.push((user, sink));
                let ghost grown = entries@.map_values(|e: (User, S)| (e.0.name@, e.1));
                assert(grown =~= old(self)@.push((n, sink)));
                assert(grown[grown.len() - 1].0 == n);
                assert(unique_names(grown)) by {
                    assert forall|i: int, j: int| 0 <= i < j < grown.len() implies grown[i].0
                        != grown[j].0 by {
                        if j == grown.len() - 1 {
                            assert(old(self)@[i].0 == grown[i].0);
                        }
                    }
                }
                std::mem::swap(&mut self.entries, &mut entries);
                Ok(())
            },
        }
    }

    /// Drops the entry under `user`'s name; does nothing if there is none.
    pub fn remove(&mut self, user: &User)
        ensures
            final(self)@ == without(old(self)@, user.name@),
    {
        proof {
            use_type_invariant(&*self);
        }
        match self.position(&user.name) {
            Some(i) => {
                let ghost v = self@;
                let mut entries: Vec<(User, S)> = Vec::new();
                std::mem::swap(&mut self.entries, &mut entries);
                entries.remove(i);
                let ghost shrunk = entries@.map_values(|e: (User, S)| (e.0.name@, e.1));
                assert(shrunk =~= v.remove(i as int));
                assert(unique_names(shrunk)) by {
                    assert forall|a: int, b: int| 0 <= a < b < shrunk.len() implies shrunk[a].0
                        != shrunk[b].0 by {
                        let a2 = if a < i { a } else { a + 1 };
                        let b2 = if b < i { b } else { b + 1 };
                        assert(shrunk[a] == v[a2]);
                        assert(shrunk[b] == v[b2]);
                    }
                }
                std::mem::swap(&mut self.entries, &mut entries);
                proof {
                    lemma_without_unique(v, user.name@, i as int);
                }
            },
            None => {
                proof {
                    lemma_without_absent(self@, user.name@);
                }
            },
        }
    }
}

impl<S: Clone> Registry<S> {
    /// Every entry but the one under `excluding`'s name, read in one go; each
    /// handle is a clone of the registered one.
    pub fn snapshot_others(&self, excluding: &User) -> (r: Vec<(User, S)>)
        ensures
            r@.len() == without(self@, excluding.name@).len(),
            forall|i: int|
                0 <= i < r@.len() ==> {
                    &&& (#[trigger] r@[i]).0.name@ == without(self@, excluding.name@)[i].0
                    &&& cloned(without(self@, excluding.name@)[i].1, r@[i].1)
                },
    {
        let ghost n = excluding.name@;
        let mut r: Vec<(User, S)> = Vec::new();
        let mut i: usize = 0;
        while i < self.entries.len()
            invariant
                i <= self.entries.len(),
                n == excluding.name@,
                r@.len() == without(self@.take(i as int), n).len(),
                forall|k: int|
                    0 <= k < r@.len() ==> {
                        &&& (#[trigger] r@[k]).0.name@ == without(self@.take(i as int), n)[k].0
                        &&& cloned(without(self@.take(i as int), n)[k].1, r@[k].1)
                    },
            decreases self.entries.len() - i,
        {
            proof {
                lemma_without_push(self@.take(i as int), self@[i as int], n);
                assert(self@.take(i as int + 1) =~= self@.take(i as int).push(self@[i as int]));
            }
            let entry = &self.entries[i];
            if !(entry.0.name == excluding.name) {
                let user = entry.0.clone();
                let sink = entry.1.clone();
                r.push((user, sink));
            }
            i = i + 1;
        }
        assert(self@.take(self@.len() as int) =~= self@);
        r
    }
}

proof fn lemma_without_push<S>(v: Seq<(Seq<char>, S)>, e: (Seq<char>, S), n: Seq<char>)
    ensures
        without(v.push(e), n) == if e.0 != n {
            without(v, n).push(e)
        } else {
            without(v, n)
        },
{
    reveal(Seq::filter);
    assert(v.push(e).drop_last() =~= v);
}

/// Removing a name that has no entry changes nothing.
pub proof fn lemma_without_absent<S>(v: Seq<(Seq<char>, S)>, n: Seq<char>)
    requires
        !has_name(v, n),
    ensures
        without(v, n) == v,
    decreases v.len(),
{
    reveal(Seq::filter);
    if v.len() > 0 {
        assert(!has_name(v.drop_last(), n)) by {
            if has_name(v.drop_last(), n) {
                let i = choose|i: int| 0 <= i < v.drop_last().len() && #[trigger] v.drop_last()[i].0 == n;
                assert(v[i].0 == n);
            }
        }
        lemma_without_absent(v.drop_last(), n);
        assert(v.last().0 != n) by {
            assert(v[v.len() - 1].0 != n);
        }
        assert(v.drop_last().push(v.last()) =~= v);
    }
}

proof fn lemma_without_unique<S>(v: Seq<(Seq<char>, S)>, n: Seq<char>, i: int)
    requires
        unique_names(v),
        0 <= i < v.len(),
        v[i].0 == n,
    ensures
        without(v, n) == v.remove(i),
{
    let pre = v.take(i);
    let post = v.skip(i + 1);
    assert(v =~= pre + seq![v[i]] + post);
    assert(v.remove(i) =~= pre + post);
    assert(!has_name(pre, n)) by {
        if has_name(pre, n) {
            let k = choose|k: int| 0 <= k < pre.len() && #[trigger] pre[k].0 == n;
            assert(v[k].0 == v[i].0);
        }
    }
    assert(!has_name(post, n)) by {
        if has_name(post, n) {
            let k = choose|k: int| 0 <= k < post.len() && #[trigger] post[k].0 == n;
            assert(v[i + 1 + k].0 == v[i].0);
        }
    }
    lemma_without_absent(pre, n);
    lemma_without_absent(post, n);
    let keep = named_other_than::<S>(n);
    Seq::filter_distributes_over_add(pre + seq![v[i]], post, keep);
    Seq::filter_distributes_over_add(pre, seq![v[i]], keep);
    reveal(Seq::filter);
    let single = seq![v[i]];
    assert(single.drop_last() =~= Seq::<(Seq<char>, S)>::empty());
    assert(Seq::<(Seq<char>, S)>::empty().filter(keep) =~= Seq::<(Seq<char>, S)>::empty());
    assert(!keep(single.last()));
    assert(single.filter(keep) =~= Seq::<(Seq<char>, S)>::empty());
}

} // verus!

verus! {

/// The entries after one registration attempt under `n` for each handle in
/// `sinks`, made one after another in that order: by `try_register`'s
/// contract, each attempt turns the entries `v` into `with_entry(v, n, sink)`
/// and succeeds exactly when `n` was not in `v`.
pub open spec fn register_each<S>(v: Seq<(Seq<char>, S)>, n: Seq<char>, sinks: Seq<S>) -> Seq<
    (Seq<char>, S),
>
    decreases sinks.len(),
{
    if sinks.len() == 0 {
        v
    } else {
        with_entry(register_each(v, n, sinks.drop_last()), n, sinks.last())
    }
}

/// However many sessions race to register one free name, the lock lets
/// their attempts through one at a time: the first finds the name free and
/// succeeds, every later one finds it taken and is refused, and in the end
/// the name has exactly one entry, the first comer's.
pub proof fn lemma_one_registration_wins<S>(v: Seq<(Seq<char>, S)>, n: Seq<char>, sinks: Seq<S>)
    requires
        unique_names(v),
        !has_name(v, n),
        sinks.len() > 0,
    ensures
        forall|k: int|
            0 <= k < sinks.len() ==> (!has_name(#[trigger] register_each(v, n, sinks.take(k)), n)
                <==> k == 0),
        register_each(v, n, sinks) == v.push((n, sinks[0])),
        unique_names(register_each(v, n, sinks)),
        has_name(register_each(v, n, sinks), n),
    decreases sinks.len(),
{
    let last = (sinks.len() - 1) as int;
    assert(sinks.take(0) =~= Seq::<S>::empty());
    let w = v.push((n, sinks[0]));
    assert(w[v.len() as int].0 == n);
    if sinks.len() == 1 {
        assert(sinks.drop_last() =~= Seq::<S>::empty());
        assert(register_each(v, n, sinks.drop_last()) == v);
        assert(register_each(v, n, sinks) == with_entry(v, n, sinks.last()));
    } else {
        lemma_one_registration_wins(v, n, sinks.drop_last());
        assert forall|k: int| 0 <= k < sinks.len() implies (!has_name(
            #[trigger] register_each(v, n, sinks.take(k)),
            n,
        ) <==> k == 0) by {
            if k < last {
                assert(sinks.take(k) =~= sinks.drop_last().take(k));
            } else {
                assert(sinks.take(k) =~= sinks.drop_last());
            }
        }
        assert(sinks.drop_last()[0] == sinks[0]);
        assert(register_each(v, n, sinks.drop_last()) == w);
        assert(has_name(w, n));
        assert(register_each(v, n, sinks) == with_entry(w, n, sinks.last()));
    }
    assert(unique_names(w)) by {
        assert forall|i: int, j: int| 0 <= i < j < w.len() implies w[i].0 != w[j].0 by {
            if j == v.len() {
                assert(w[i] == v[i]);
            }
        }
    }
}

/// Once a session's name is removed the registry holds no entry under it,
/// whatever else registered or left in the meantime; and if nothing else
/// changed, the registry is back to what it was before the name arrived.
pub proof fn lemma_no_leak<S>(v: Seq<(Seq<char>, S)>, n: Seq<char>, sink: S, w: Seq<
    (Seq<char>, S),
>)
    requires
        unique_names(v),
        !has_name(v, n),
    ensures
        !has_name(without(w, n), n),
        without(with_entry(v, n, sink), n) == v,
{
    let keep = named_other_than::<S>(n);
    assert(!has_name(without(w, n), n)) by {
        if has_name(without(w, n), n) {
            let i = choose|i: int| 0 <= i < without(w, n).len() && #[trigger] without(w, n)[i].0 == n;
            w.lemma_filter_pred(keep, i);
        }
    }
    let u = v.push((n, sink));
    assert(u[v.len() as int].0 == n);
    assert(unique_names(u)) by {
        assert forall|i: int, j: int| 0 <= i < j < u.len() implies u[i].0 != u[j].0 by {
            if j == v.len() {
                assert(u[i] == v[i]);
            }
        }
    }
    lemma_without_unique(u, n, v.len() as int);
    assert(u.remove(v.len() as int) =~= v);
}

/// Removing a name that is not registered leaves the registry as it was.
pub proof fn lemma_remove_absent_is_noop<S>(v: Seq<(Seq<char>, S)>, n: Seq<char>)
    requires
        !has_name(v, n),
    ensures
        without(v, n) == v,
        without(without(v, n), n) == without(v, n),
{
    lemma_without_absent(v, n);
}

} // verus!
