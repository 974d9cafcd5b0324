use crate::base_datos::{
    de_persona, es_de_persona, nuevo_registro, por_id, tras_crear, tras_inicializar, valido, EstadoRegistro,
};
use crate::registro::Registro;
use vstd::prelude::*;

verus! {

broadcast use vstd::seq_lib::group_seq_properties;

/// The state after one create for each entry `(payer, amount, timestamp)`,
/// taken in order.
pub open spec fn tras_crear_todos(e: EstadoRegistro, entradas: Seq<(String, u32, String)>) -> EstadoRegistro
    decreases entradas.len(),
{
    if entradas.len() == 0 {
        e
    } else {
        let u = entradas.last();
        tras_crear(tras_crear_todos(e, entradas.drop_last()), u.0, u.1, u.2)
    }
}

/// Starting from an empty registry, initialised or not, any sequence of
/// creates yields records numbered 1, 2, 3, ... in call order, each holding
/// what was submitted: before the k-th create (counting from 0) there are k
/// records, so that create returns k + 1, and after n creates the counter is n.
pub proof fn ley_ids_secuenciales(inicializado: bool, entradas: Seq<(String, u32, String)>)
    requires
        entradas.len() <= u128::MAX,
    ensures
        ({
            let e = tras_crear_todos(
                EstadoRegistro { inicializado, registros: Seq::empty() },
                entradas,
            );
            &&& valido(e)
            &&& e.registros.len() == entradas.len()
            &&& forall|k: int|
                0 <= k < entradas.len() ==> (#[trigger] e.registros[k]) == (Registro {
                    id: (k + 1) as u128,
                    persona: entradas[k].0,
                    monto: entradas[k].1,
                    fecha_hora: entradas[k].2,
                })
        }),
        forall|k: int|
            0 <= k <= entradas.len() ==> (#[trigger] tras_crear_todos(
                EstadoRegistro { inicializado, registros: Seq::empty() },
                entradas.take(k),
            )).registros.len() == k,
    decreases entradas.len(),
{
    let e0 = EstadoRegistro { inicializado, registros: Seq::<Registro>::empty() };
    if entradas.len() > 0 {
        let previas = entradas.drop_last();
        ley_ids_secuenciales(inicializado, previas);
        assert forall|k: int| 0 <= k <= entradas.len() implies (#[trigger] tras_crear_todos(
            e0,
            entradas.take(k),
        )).registros.len() == k by {
            if k < entradas.len() {
                assert(entradas.take(k) =~= previas.take(k));
            } else {
                assert(entradas.take(k) =~= entradas);
                assert(previas.take(k - 1) =~= previas);
            }
        }
    } else {
        assert forall|k: int| 0 <= k <= entradas.len() implies (#[trigger] tras_crear_todos(
            e0,
            entradas.take(k),
        )).registros.len() == k by {
            assert(entradas.take(k) =~= entradas);
        }
    }
}

/// After a create, the new id names exactly the record that was submitted,
/// and every other id names what it named before.
pub proof fn ley_obtener_tras_crear(
    e: EstadoRegistro,
    persona: String,
    monto: u32,
    fecha_hora: String,
)
    requires
        valido(e),
        e.registros.len() < u128::MAX,
    ensures
        ({
            let id = (e.registros.len() + 1) as u128;
            let d = tras_crear(e, persona, monto, fecha_hora);
            &&& valido(d)
            &&& por_id(d.registros, id) == Some(Registro { id, persona, monto, fecha_hora })
            &&& forall|otro: u128| otro != id ==> #[trigger] por_id(d.registros, otro) == por_id(e.registros, otro)
        }),
{
}

/// Whether a create entry names payer `p`.
pub open spec fn entrada_de_persona(p: Seq<char>) -> spec_fn((String, u32, String)) -> bool {
    |x: (String, u32, String)| x.0@ == p
}

/// Starting from an empty registry, listing by a payer gives as many records
/// as there were creates with that payer.
pub proof fn ley_cuenta_por_persona(
    inicializado: bool,
    entradas: Seq<(String, u32, String)>,
    p: Seq<char>,
)
    ensures
        de_persona(
            tras_crear_todos(EstadoRegistro { inicializado, registros: Seq::empty() }, entradas).registros,
            p,
        ).len() == entradas.filter(entrada_de_persona(p)).len(),
    decreases entradas.len(),
{
    let e0 = EstadoRegistro { inicializado, registros: Seq::<Registro>::empty() };
    if entradas.len() > 0 {
        let previas = entradas.drop_last();
        let u = entradas.last();
        ley_cuenta_por_persona(inicializado, previas, p);
        let e1 = tras_crear_todos(e0, previas);
        e1.registros.lemma_filter_push(nuevo_registro(e1, u.0, u.1, u.2), es_de_persona(p));
        assert(entradas =~= previas.push(u));
        previas.lemma_filter_push(u, entrada_de_persona(p));
    } else {
        Seq::<Registro>::empty().lemma_filter_len(es_de_persona(p));
        entradas.lemma_filter_len(entrada_de_persona(p));
    }
}

/// Records whose ids are their positions plus one, filtered, come out with
/// strictly increasing ids.
proof fn lemma_filtro_creciente(regs: Seq<Registro>, pred: spec_fn(Registro) -> bool)
    requires
        forall|k: int| 0 <= k < regs.len() ==> (#[trigger] regs[k]).id == k + 1,
    ensures
        forall|i: int, j: int|
            0 <= i < j < regs.filter(pred).len() ==> (#[trigger] regs.filter(pred)[i]).id < (#[trigger] regs.filter(pred)[j]).id,
        forall|i: int| 0 <= i < regs.filter(pred).len() ==> (#[trigger] regs.filter(pred)[i]).id <= regs.len(),
    decreases regs.len(),
{
    if regs.len() > 0 {
        let previos = regs.drop_last();
        let u = regs.last();
        lemma_filtro_creciente(previos, pred);
        assert(regs =~= previos.push(u));
        previos.lemma_filter_push(u, pred);
    }
}

/// Listing by payer gives exactly the records created with that payer, each
/// once, in creation order.
pub proof fn ley_listar_por_persona(e: EstadoRegistro, p: Seq<char>)
    requires
        valido(e),
    ensures
        forall|r: Registro|
            #[trigger] de_persona(e.registros, p).contains(r) <==> (e.registros.contains(r)
                && r.persona@ == p),
        forall|i: int, j: int|
            0 <= i < j < de_persona(e.registros, p).len() ==> (#[trigger] de_persona(e.registros, p)[i]).id
                < (#[trigger] de_persona(e.registros, p)[j]).id,
{
    let pred = es_de_persona(p);
    lemma_filtro_creciente(e.registros, pred);
    assert forall|r: Registro|
        #[trigger] de_persona(e.registros, p).contains(r) <==> (e.registros.contains(r) && r.persona@ == p) by {
        if de_persona(e.registros, p).contains(r) {
            e.registros.lemma_filter_contains_rev(pred, r);
            let i = choose|i: int| 0 <= i < e.registros.filter(pred).len() && e.registros.filter(pred)[i] == r;
            e.registros.lemma_filter_pred(pred, i);
        }
        if e.registros.contains(r) && r.persona@ == p {
            let k = choose|k: int| 0 <= k < e.registros.len() && e.registros[k] == r;
            e.registros.lemma_filter_contains(pred, k);
        }
    }
}

/// The full listing holds every record, ordered by id ascending, and each id
/// from 1 to the counter names its record.
pub proof fn ley_listar_todos(e: EstadoRegistro)
    requires
        valido(e),
    ensures
        forall|i: int, j: int|
            0 <= i < j < e.registros.len() ==> (#[trigger] e.registros[i]).id < (#[trigger] e.registros[j]).id,
        forall|id: u128| 1 <= id <= e.registros.len() ==> #[trigger] por_id(e.registros, id) == Some(e.registros[id - 1]),
{
}

/// Initialising twice leaves the state as one initialisation left it, and
/// initialising never touches the records or the counter's value.
pub proof fn ley_inicializar_idempotente(e: EstadoRegistro)
    ensures
        tras_inicializar(tras_inicializar(e)) == tras_inicializar(e),
        tras_inicializar(e).registros == e.registros,
{
}

} // verus!
