use crate::indice::{lista_de, Indice};
use crate::registro::Registro;
use vstd::prelude::*;

verus! {

broadcast use vstd::seq_lib::group_seq_properties;

/// The registry as its callers see it: whether the counter was initialised,
/// and every record created so far, in creation order.
pub struct EstadoRegistro {
    pub inicializado: bool,
    pub registros: Seq<Registro>,
}

/// Whether a record's payer is `p`.
pub open spec fn es_de_persona(p: Seq<char>) -> spec_fn(Registro) -> bool {
    |r: Registro| r.persona@ == p
}

/// Whether a record's timestamp is `f`.
pub open spec fn es_de_fecha(f: Seq<char>) -> spec_fn(Registro) -> bool {
    |r: Registro| r.fecha_hora@ == f
}

/// The records of `regs` whose payer is `p`, in creation order.
pub open spec fn de_persona(regs: Seq<Registro>, p: Seq<char>) -> Seq<Registro> {
    regs.filter(es_de_persona(p))
}

/// The records of `regs` whose timestamp is `f`, in creation order.
pub open spec fn de_fecha(regs: Seq<Registro>, f: Seq<char>) -> Seq<Registro> {
    regs.filter(es_de_fecha(f))
}

/// The identifiers of `regs`, in order.
pub open spec fn ids_de(regs: Seq<Registro>) -> Seq<u128> {
    regs.map_values(|r: Registro| r.id)
}

/// The record stored under `id`: ids run from 1 to the number of records.
pub open spec fn por_id(regs: Seq<Registro>, id: u128) -> Option<Registro> {
    if 1 <= id <= regs.len() {
        Some(regs[id - 1])
    } else {
        None
    }
}

/// The records that `ids` name, in the order of `ids`.
pub open spec fn hidratados(regs: Seq<Registro>, ids: Seq<u128>) -> Seq<Registro> {
    ids.map_values(|id: u128| por_id(regs, id)->Some_0)
}

/// Every record carries its position plus one as its id.
pub open spec fn ids_consecutivos(regs: Seq<Registro>) -> bool {
    forall|k: int| 0 <= k < regs.len() ==> (#[trigger] regs[k]).id == k + 1
}

/// A state that the registry can reach.
pub open spec fn valido(e: EstadoRegistro) -> bool {
    &&& ids_consecutivos(e.registros)
    &&& !e.inicializado ==> e.registros.len() == 0
}

/// The record that the next create makes.
pub open spec fn nuevo_registro(
    e: EstadoRegistro,
    persona: String,
    monto: u32,
    fecha_hora: String,
) -> Registro {
    Registro { id: (e.registros.len() + 1) as u128, persona, monto, fecha_hora }
}

/// The state after one create.
pub open spec fn tras_crear(
    e: EstadoRegistro,
    persona: String,
    monto: u32,
    fecha_hora: String,
) -> EstadoRegistro {
    EstadoRegistro {
        inicializado: true,
        registros: e.registros.push(nuevo_registro(e, persona, monto, fecha_hora)),
    }
}

/// The state after initialisation: the counter exists, nothing else changes.
pub open spec fn tras_inicializar(e: EstadoRegistro) -> EstadoRegistro {
    EstadoRegistro { inicializado: true, registros: e.registros }
}

/// A record picked out of a store with consecutive ids is found under its own id.
proof fn lemma_hidratar_filtrados(regs: Seq<Registro>, pred: spec_fn(Registro) -> bool)
    requires
        ids_consecutivos(regs),
    ensures
        hidratados(regs, ids_de(regs.filter(pred))) == regs.filter(pred),
        forall|i: int|
            0 <= i < regs.filter(pred).len() ==> (por_id(regs, #[trigger] regs.filter(pred)[i].id)
                is Some),
{
    let filt = regs.filter(pred);
    assert forall|i: int| 0 <= i < filt.len() implies por_id(regs, #[trigger] filt[i].id) == Some(
        filt[i],
    ) by {
        assert(filt.contains(filt[i]));
        regs.lemma_filter_contains_rev(pred, filt[i]);
        let k = choose|k: int| 0 <= k < regs.len() && regs[k] == filt[i];
        assert(regs[k].id == k + 1);
    }
    assert(hidratados(regs, ids_de(filt)) =~= filt);
}

/// The registry: a counter that mints identifiers, the primary store of
/// records by identifier, and an index by payer and one by timestamp.
pub struct BaseDatosContract {
    contador: Option<u128>,
    registros: Vec<Registro>,
    por_persona: Indice,
    por_fecha: Indice,
}

impl View for BaseDatosContract {
    type V = EstadoRegistro;

    closed spec fn view(&self) -> EstadoRegistro {
        EstadoRegistro { inicializado: self.contador is Some, registros: self.registros@ }
    }
}

impl BaseDatosContract {
    /// The counter matches the records, the records carry consecutive ids, and
    /// each index holds exactly the ids of the records with that key.
    pub closed spec fn wf(&self) -> bool {
        &&& valido(self@)
        &&& match self.contador {
            Some(c) => c == self.registros.len(),
            None => self.registros.len() == 0,
        }
        &&& self.por_persona.wf()
        &&& self.por_fecha.wf()
        &&& forall|p: Seq<char>|
            #[trigger] lista_de(self.por_persona@, p) == ids_de(de_persona(self.registros@, p))
        &&& forall|f: Seq<char>|
            #[trigger] lista_de(self.por_fecha@, f) == ids_de(de_fecha(self.registros@, f))
    }

    /// An empty registry whose counter has not been initialised.
    pub fn new() -> (r: BaseDatosContract)
        ensures
            r.wf(),
            r@ == (EstadoRegistro { inicializado: false, registros: Seq::empty() }),
    {
        let r = BaseDatosContract {
            contador: None,
            registros: Vec::new(),
            por_persona: Indice::new(),
            por_fecha: Indice::new(),
        };
        assert(r@.registros =~= Seq::<Registro>::empty());
        assert forall|p: Seq<char>|
            #[trigger] lista_de(r.por_persona@, p) == ids_de(de_persona(r.registros@, p)) by {
            r.registros@.lemma_filter_len(es_de_persona(p));
            assert(ids_de(de_persona(r.registros@, p)) =~= Seq::empty());
        }
        assert forall|f: Seq<char>|
            #[trigger] lista_de(r.por_fecha@, f) == ids_de(de_fecha(r.registros@, f)) by {
            r.registros@.lemma_filter_len(es_de_fecha(f));
            assert(ids_de(de_fecha(r.registros@, f)) =~= Seq::empty());
        }
        r
    }

    /// Sets the counter to 0 unless it exists already.
    pub fn inicializar(&mut self)
        requires
            old(self).wf(),
        ensures
            final(self).wf(),
            final(self)@ == tras_inicializar(old(self)@),
    {
        if self.contador.is_none() {
            self.contador = Some(0);
        }
    }

    /// Mints the next id, stores the record under it, and files the id in
    /// both indexes. Returns the new id.
    pub fn crear_registro(&mut self, persona: String, monto: u32, fecha_hora: String) -> (r: u128)
        requires
            old(self).wf(),
        ensures
            final(self).wf(),
            r == old(self)@.registros.len() + 1,
            final(self)@ == tras_crear(old(self)@, persona, monto, fecha_hora),
    {
        let anterior: u128 = match self.contador {
            Some(c) => c,
            None => 0,
        };
        let id: u128 = anterior + 1;
        self.contador = Some(id);
        let ghost regs0 = self.registros@;
        let ghost pp0 = self.por_persona@;
        let ghost pf0 = self.por_fecha@;
        let registro = Registro {
            id,
            persona: persona.clone(),
            monto,
            fecha_hora: fecha_hora.clone(),
        };
        self.registros.push(registro);
        self.por_persona.agregar(&persona, id);
        self.por_fecha.agregar(&fecha_hora, id);
        proof {
            let nuevo = Registro { id, persona, monto, fecha_hora };
            assert(self.registros@ == regs0.push(nuevo));
            assert forall|p: Seq<char>|
                #[trigger] lista_de(self.por_persona@, p) == ids_de(
                    de_persona(self.registros@, p),
                ) by {
                assert(lista_de(pp0, p) == ids_de(de_persona(regs0, p)));
                regs0.lemma_filter_push(nuevo, es_de_persona(p));
                de_persona(regs0, p).lemma_push_map_commute(|r: Registro| r.id, nuevo);
            }
            assert forall|f: Seq<char>|
                #[trigger] lista_de(self.por_fecha@, f) == ids_de(de_fecha(self.registros@, f)) by {
                assert(lista_de(pf0, f) == ids_de(de_fecha(regs0, f)));
                regs0.lemma_filter_push(nuevo, es_de_fecha(f));
                de_fecha(regs0, f).lemma_push_map_commute(|r: Registro| r.id, nuevo);
            }
        }
        id
    }

    /// The record stored under `id`, if there is one.
    pub fn obtener_por_id(&self, id: u128) -> (r: Option<Registro>)
        requires
            self.wf(),
        ensures
            r == por_id(self@.registros, id),
    {
        if id >= 1 && id <= self.registros.len() as u128 {
            Some(self.registros[(id - 1) as usize].copia())
        } else {
            None
        }
    }

    /// The number of records created so far, which is also the largest id.
    pub fn obtener_contador(&self) -> (r: u128)
        requires
            self.wf(),
        ensures
            r == self@.registros.len(),
    {
        match self.contador {
            Some(c) => c,
            None => 0,
        }
    }

    /// The records that `ids` name, in the order of `ids`; an id with no
    /// record is passed over.
    fn hidratar(&self, ids: &Vec<u128>) -> (r: Vec<Registro>)
        requires
            self.wf(),
            forall|i: int| 0 <= i < ids.len() ==> (por_id(self@.registros, #[trigger] ids[i]) is Some),
        ensures
            r@ == hidratados(self@.registros, ids@),
    {
        let mut out: Vec<Registro> = Vec::new();
        let mut i: usize = 0;
        while i < ids.len()
            invariant
                self.wf(),
                i <= ids.len(),
                forall|j: int| 0 <= j < ids.len() ==> (por_id(self@.registros, #[trigger] ids[j]) is Some),
                out@ == hidratados(self@.registros, ids@.subrange(0, i as int)),
            decreases ids.len() - i,
        {
            if let Some(registro) = self.obtener_por_id(ids[i]) {
                out.push(registro);
            }
            proof {
                assert(ids@.subrange(0, i + 1) =~= ids@.subrange(0, i as int).push(ids[i as int]));
            }
            i = i + 1;
        }
        assert(ids@.subrange(0, i as int) =~= ids@);
        out
    }

    /// The records created with payer `persona`, in creation order.
    pub fn listar_por_persona(&self, persona: String) -> (r: Vec<Registro>)
        requires
            self.wf(),
        ensures
            r@ == de_persona(self@.registros, persona@),
    {
        let ids = self.por_persona.buscar(&persona);
        proof {
            assert(lista_de(self.por_persona@, persona@) == ids_de(de_persona(self.registros@, persona@)));
            lemma_hidratar_filtrados(self.registros@, es_de_persona(persona@));
        }
        self.hidratar(&ids)
    }

    /// The records created with timestamp `fecha_hora`, in creation order.
    pub fn listar_por_fecha(&self, fecha_hora: String) -> (r: Vec<Registro>)
        requires
            self.wf(),
        ensures
            r@ == de_fecha(self@.registros, fecha_hora@),
    {
        let ids = self.por_fecha.buscar(&fecha_hora);
        proof {
            assert(lista_de(self.por_fecha@, fecha_hora@) == ids_de(de_fecha(self.registros@, fecha_hora@)));
            lemma_hidratar_filtrados(self.registros@, es_de_fecha(fecha_hora@));
        }
        self.hidratar(&ids)
    }

    /// Every record, by a scan of the ids from 1 to the counter.
    pub fn listar_todos(&self) -> (r: Vec<Registro>)
        requires
            self.wf(),
        ensures
            r@ == self@.registros,
    {
        let max_id = self.obtener_contador();
        let mut out: Vec<Registro> = Vec::new();
        let mut id: u128 = 1;
        while id <= max_id
            invariant
                self.wf(),
                max_id == self@.registros.len(),
                1 <= id <= max_id + 1,
                out@ == self@.registros.subrange(0, id - 1),
            decreases max_id + 1 - id,
        {
            if let Some(registro) = self.obtener_por_id(id) {
                out.push(registro);
            }
            proof {
                assert(self@.registros.subrange(0, id as int) =~= self@.registros.subrange(0, id - 1).push(self@.registros[id - 1]));
            }
            id = id + 1;
        }
        assert(self@.registros.subrange(0, max_id as int) =~= self@.registros);
        out
    }
}

} // verus!
