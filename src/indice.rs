use vstd::prelude::*;

verus! {

/// An append-only multimap from a string key to the identifiers filed under
/// it, in the order in which they were appended.
pub struct Indice {
    claves: Vec<String>,
    listas: Vec<Vec<u128>>,
}

/// The identifiers filed under `k`: empty for a key that was never indexed.
pub open spec fn lista_de(m: Map<Seq<char>, Seq<u128>>, k: Seq<char>) -> Seq<u128> {
    if m.contains_key(k) {
        m[k]
    } else {
        Seq::empty()
    }
}

impl Indice {
    /// Keys are unique, and each has its list.
    pub closed spec fn wf(&self) -> bool {
        &&& self.claves.len() == self.listas.len()
        &&& forall|i: int, j: int|
            0 <= i < j < self.claves.len() ==> self.claves[i]@ != self.claves[j]@
    }

    spec fn tiene(&self, k: Seq<char>, i: int) -> bool {
        0 <= i < self.claves.len() && self.claves[i]@ == k
    }

    proof fn lemma_posicion(&self, k: Seq<char>, i: int)
        requires
            self.wf(),
            self.tiene(k, i),
        ensures
            self@.contains_key(k),
            self@[k] == self.listas[i]@,
    {
        let j = choose|j: int| self.tiene(k, j);
        assert(self.tiene(k, j));
        assert(i == j);
    }

    pub fn new() -> (r: Indice)
        ensures
            r.wf(),
            r@ == Map::<Seq<char>, Seq<u128>>::empty(),
    {
        let r = Indice { claves: Vec::new(), listas: Vec::new() };
        assert(r@ =~= Map::<Seq<char>, Seq<u128>>::empty());
        r
    }

    fn buscar_posicion(&self, clave: &String) -> (r: Option<usize>)
        requires
            self.wf(),
        ensures
            match r {
                Some(i) => self.tiene(clave@, i as int),
                None => forall|i: int| 0 <= i < self.claves.len() ==> self.claves[i]@ != clave@,
            },
    {
        let mut i: usize = 0;
        while i < self.claves.len()
            invariant
                i <= self.claves.len(),
                forall|j: int| 0 <= j < i ==> self.claves[j]@ != clave@,
            decreases self.claves.len() - i,
        {
            if self.claves[i] == *clave {
                return Some(i);
            }
            i = i + 1;
        }
        None
    }

    /// The identifiers filed under `clave`, in the order they were appended.
    pub fn buscar(&self, clave: &String) -> (r: Vec<u128>)
        requires
            self.wf(),
        ensures
            r@ == lista_de(self@, clave@),
    {
        match self.buscar_posicion(clave) {
            Some(i) => {
                proof {
                    self.lemma_posicion(clave@, i as int);
                }
                self.listas[i].clone()
            },
            None => {
                assert(!self@.contains_key(clave@));
                Vec::new()
            },
        }
    }

    /// Appends `id` at the end of the list filed under `clave`.
    pub fn agregar(&mut self, clave: &String, id: u128)
        requires
            old(self).wf(),
        ensures
            final(self).wf(),
            final(self)@ == old(self)@.insert(clave@, lista_de(old(self)@, clave@).push(id)),
    {
        let ghost anterior = lista_de(self@, clave@);
        match self.buscar_posicion(clave) {
            Some(i) => {
                proof {
                    self.lemma_posicion(clave@, i as int);
                }
                self.listas[i].push(id);
                proof {
                    self.lemma_posicion(clave@, i as int);
                    assert forall|k: Seq<char>| #[trigger] self@.contains_key(k) == old(self)@.insert(clave@, anterior.push(id)).contains_key(k) by {
                        if old(self)@.contains_key(k) {
                            let j = choose|j: int| old(self).tiene(k, j);
                            assert(self.tiene(k, j));
                        }
                        if self@.contains_key(k) {
                            let j = choose|j: int| self.tiene(k, j);
                            assert(old(self).tiene(k, j));
                        }
                    }
                    assert forall|k: Seq<char>| #[trigger] self@.contains_key(k) && k != clave@ implies self@[k] == old(self)@[k] by {
                        let j = choose|j: int| self.tiene(k, j);
                        assert(old(self).tiene(k, j));
                        old(self).lemma_posicion(k, j);
                        self.lemma_posicion(k, j);
                    }
                    assert(self@ =~= old(self)@.insert(clave@, anterior.push(id)));
                }
            },
            None => {
                assert(!self@.contains_key(clave@));
                self.claves.push(clave.clone());
                let mut nueva: Vec<u128> = Vec::new();
                nueva.push(id);
                self.listas.push(nueva);
                proof {
                    let n = self.claves.len() - 1;
                    self.lemma_posicion(clave@, n);
                    assert(nueva@ =~= anterior.push(id));
                    assert forall|k: Seq<char>| #[trigger] self@.contains_key(k) == old(self)@.insert(clave@, anterior.push(id)).contains_key(k) by {
                        if old(self)@.contains_key(k) {
                            let j = choose|j: int| old(self).tiene(k, j);
                            assert(self.tiene(k, j));
                        }
                        if self@.contains_key(k) && k != clave@ {
                            let j = choose|j: int| self.tiene(k, j);
                            assert(old(self).tiene(k, j));
                        }
                    }
                    assert forall|k: Seq<char>| #[trigger] self@.contains_key(k) && k != clave@ implies self@[k] == old(self)@[k] by {
                        let j = choose|j: int| self.tiene(k, j);
                        assert(old(self).tiene(k, j));
                        old(self).lemma_posicion(k, j);
                        self.lemma_posicion(k, j);
                    }
                    assert(self@ =~= old(self)@.insert(clave@, anterior.push(id)));
                }
            },
        }
    }
}

impl View for Indice {
    type V = Map<Seq<char>, Seq<u128>>;

    closed spec fn view(&self) -> Map<Seq<char>, Seq<u128>> {
        Map::new(
            |k: Seq<char>| exists|i: int| self.tiene(k, i),
            |k: Seq<char>| self.listas[choose|i: int| self.tiene(k, i)]@,
        )
    }
}

} // verus!
