use crate::workspace::{index_in, Listing};
use vstd::prelude::*;
use vstd::string::StringExecFns;

verus! {

/// The files of a workspace held in memory: contents by file name.
pub struct Store {
    files: Vec<(String, Vec<u8>)>,
    model: Ghost<Map<Seq<char>, Seq<u8>>>,
}

impl View for Store {
    type V = Map<Seq<char>, Seq<u8>>;

    closed spec fn view(&self) -> Map<Seq<char>, Seq<u8>> {
        self.model@
    }
}

/// The name of the `i`-th file of `files`.
spec fn name_at(files: Seq<(String, Vec<u8>)>, i: int) -> Seq<char> {
    files[i].0@
}

/// Whether `files` holds each name once and holds what `model` maps it to.
spec fn holds(files: Seq<(String, Vec<u8>)>, model: Map<Seq<char>, Seq<u8>>) -> bool {
    &&& forall|i: int, j: int|
        0 <= i < j < files.len() ==> name_at(files, i) != name_at(files, j)
    &&& forall|i: int|
        0 <= i < files.len() ==> model.contains_key(#[trigger] name_at(files, i)) && model[name_at(
            files,
            i,
        )] == files[i].1@
    &&& forall|k: Seq<char>|
        model.contains_key(k) ==> exists|i: int| 0 <= i < files.len() && #[trigger] name_at(files, i) == k
}

/// `files` without the files of kind `kind`.
pub open spec fn without(files: Map<Seq<char>, Seq<u8>>, kind: Listing) -> Map<Seq<char>, Seq<u8>> {
    files.restrict(files.dom().filter(|k: Seq<char>| index_in(kind, k) is None))
}

impl Store {
    #[verifier::type_invariant]
    spec fn inv(&self) -> bool {
        holds(self.files@, self.model@)
    }

    /// An empty workspace.
    pub fn new() -> (r: Store)
        ensures
            r@ == Map::<Seq<char>, Seq<u8>>::empty(),
    {
        Store { files: Vec::new(), model: Ghost(Map::empty()) }
    }

    fn find(&self, name: &str) -> (r: Option<usize>)
        ensures
            r is None <==> !self@.contains_key(name@),
            r matches Some(i) ==> i < self.files@.len() && name_at(self.files@, i as int) == name@,
    {
        proof {
            use_type_invariant(self);
        }
        let target = String::from_str(name);
        let mut i: usize = 0;
        while i < self.files.len()
            invariant
                i <= self.files@.len(),
                holds(self.files@, self.model@),
                target@ == name@,
                forall|j: int| 0 <= j < i ==> name_at(self.files@, j) != name@,
            decreases self.files.len() - i,
        {
            if self.files[i].0 == target {
                assert(self.model@.contains_key(name_at(self.files@, i as int)));
                return Some(i);
            }
            i = i + 1;
        }
        assert forall|k: Seq<char>| self.model@.contains_key(k) implies k != name@ by {
            let j = choose|j: int| 0 <= j < self.files@.len() && #[trigger] name_at(self.files@, j) == k;
        }
        None
    }

    /// Whether the workspace holds a file `name`.
    pub fn contains(&self, name: &str) -> (r: bool)
        ensures
            r == self@.contains_key(name@),
    {
        self.find(name).is_some()
    }

    /// The contents of the file `name`, if there is one.
    pub fn get(&self, name: &str) -> (r: Option<&Vec<u8>>)
        ensures
            r is Some <==> self@.contains_key(name@),
            r matches Some(v) ==> v@ == self@[name@],
    {
        proof {
            use_type_invariant(self);
        }
        match self.find(name) {
            Some(i) => Some(&self.files[i].1),
            None => None,
        }
    }

    /// Writes `bytes` to the file `name`, replacing what it held.
    pub fn put(&mut self, name: String, bytes: Vec<u8>)
        ensures
            final(self)@ == old(self)@.insert(name@, bytes@),
    {
        proof {
            use_type_invariant(&*self);
        }
        let found = self.find(name.as_str());
        let mut taken = Store::new();
        std::mem::swap(self, &mut taken);
        let Store { mut files, model } = taken;
        let ghost m = model@.insert(name@, bytes@);
        let ghost before = files@;
        match found {
            Some(i) => {
                files.set(i, (name, bytes));
                assert(forall|j: int| 0 <= j < files@.len() && j != i ==> files@[j] == before[j]);
                assert(forall|j: int| 0 <= j < files@.len() ==> #[trigger] name_at(files@, j) == name_at(before, j));
            },
            None => {
                files.push((name, bytes));
                assert(forall|j: int| 0 <= j < before.len() ==> files@[j] == before[j]);
                assert(name_at(files@, before.len() as int) == name@);
                assert(forall|j: int| 0 <= j < before.len() ==> #[trigger] name_at(files@, j) == name_at(before, j));
                assert(forall|j: int| 0 <= j < before.len() ==> model@.contains_key(#[trigger] name_at(before, j)));
            },
        }
        assert forall|k: Seq<char>| m.contains_key(k) implies exists|i: int|
            0 <= i < files@.len() && #[trigger] name_at(files@, i) == k by {
            if k != name@ {
                let i = choose|i: int| 0 <= i < before.len() && #[trigger] name_at(before, i) == k;
                assert(name_at(files@, i) == k);
            } else {
                match found {
                    Some(i) => assert(name_at(files@, i as int) == k),
                    None => assert(name_at(files@, before.len() as int) == k),
                }
            }
        }
        *self = Store { files, model: Ghost(m) };
    }

    /// Deletes the file `name`, if there is one.
    pub fn remove(&mut self, name: &str)
        ensures
            final(self)@ == old(self)@.remove(name@),
    {
        proof {
            use_type_invariant(&*self);
        }
        let found = self.find(name);
        if let Some(i) = found {
            let mut taken = Store::new();
            std::mem::swap(self, &mut taken);
            let Store { mut files, model } = taken;
            let ghost m = model@.remove(name@);
            let ghost before = files@;
            files.remove(i);
            assert forall|j: int| 0 <= j < files@.len() implies #[trigger] name_at(files@, j) == (
            if j < i {
                name_at(before, j)
            } else {
                name_at(before, j + 1)
            }) by {}
            assert forall|k: Seq<char>| m.contains_key(k) implies exists|j: int|
                0 <= j < files@.len() && #[trigger] name_at(files@, j) == k by {
                let j = choose|j: int| 0 <= j < before.len() && #[trigger] name_at(before, j) == k;
                if j < i {
                    assert(name_at(files@, j) == k);
                } else {
                    assert(j != i);
                    assert(name_at(files@, j - 1) == k);
                }
            }
            *self = Store { files, model: Ghost(m) };
        } else {
            assert(old(self)@.remove(name@) =~= old(self)@);
        }
    }

    /// The names of the files in the workspace, each once.
    pub fn names(&self) -> (r: Vec<String>)
        ensures
            forall|i: int, j: int| 0 <= i < j < r@.len() ==> r@[i]@ != r@[j]@,
            forall|i: int| 0 <= i < r@.len() ==> self@.contains_key(#[trigger] r@[i]@),
            forall|k: Seq<char>|
                self@.contains_key(k) ==> exists|i: int| 0 <= i < r@.len() && #[trigger] r@[i]@ == k,
    {
        proof {
            use_type_invariant(self);
        }
        let mut r: Vec<String> = Vec::new();
        let mut i: usize = 0;
        while i < self.files.len()
            invariant
                i <= self.files@.len(),
                holds(self.files@, self.model@),
                r@.len() == i,
                forall|j: int| 0 <= j < i ==> #[trigger] r@[j]@ == name_at(self.files@, j),
            decreases self.files.len() - i,
        {
            r.push(self.files[i].0.clone());
            i = i + 1;
        }
        assert forall|k: Seq<char>| self@.contains_key(k) implies exists|j: int|
            0 <= j < r@.len() && #[trigger] r@[j]@ == k by {
            let j = choose|j: int| 0 <= j < self.files@.len() && #[trigger] name_at(self.files@, j) == k;
            assert(r@[j]@ == k);
        }
        r
    }

    /// Deletes every file of kind `kind`.
    pub fn remove_all(&mut self, kind: Listing)
        ensures
            final(self)@ == without(old(self)@, kind),
    {
        let names = self.names();
        let ghost start = self@;
        let mut i: usize = 0;
        while i < names.len()
            invariant
                i <= names@.len(),
                forall|a: int, b: int| 0 <= a < b < names@.len() ==> names@[a]@ != names@[b]@,
                forall|a: int| 0 <= a < names@.len() ==> start.contains_key(#[trigger] names@[a]@),
                forall|k: Seq<char>|
                    start.contains_key(k) ==> exists|a: int| 0 <= a < names@.len() && #[trigger] names@[a]@ == k,
                forall|k: Seq<char>|
                    #![trigger self@.contains_key(k)]
                    self@.contains_key(k) <==> start.contains_key(k) && !(index_in(kind, k) is Some
                        && exists|a: int| 0 <= a < i && #[trigger] names@[a]@ == k),
                forall|k: Seq<char>| self@.contains_key(k) ==> self@[k] == start[k],
            decreases names.len() - i,
        {
            if crate::workspace::index_of(kind, names[i].as_str()).is_some() {
                self.remove(names[i].as_str());
            }
            proof {
                assert forall|k: Seq<char>| #![trigger self@.contains_key(k)]
                    self@.contains_key(k) <==> start.contains_key(k) && !(index_in(kind, k) is Some
                        && exists|a: int| 0 <= a < i + 1 && #[trigger] names@[a]@ == k) by {
                    if index_in(kind, k) is Some && names@[i as int]@ == k {
                        assert(exists|a: int| 0 <= a < i + 1 && #[trigger] names@[a]@ == k);
                    }
                    if (exists|a: int| 0 <= a < i + 1 && #[trigger] names@[a]@ == k) && !(exists|
                        a: int,
                    | 0 <= a < i && #[trigger] names@[a]@ == k) {
                        assert(names@[i as int]@ == k);
                    }
                }
            }
            i = i + 1;
        }
        assert(self@ =~= without(start, kind));
    }
}

} // verus!
