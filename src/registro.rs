use vstd::prelude::*;

verus! {

/// A payment entry. Immutable once created; `id` is assigned by the registry.
#[derive(Debug, Clone)]
pub struct Registro {
    pub id: u128,
    pub persona: String,
    pub monto: u32,
    pub fecha_hora: String,
}

impl Registro {
    /// A field-by-field copy that keeps every field as it is.
    pub fn copia(&self) -> (r: Registro)
        ensures
            r == *self,
    {
        Registro {
            id: self.id,
            persona: self.persona.clone(),
            monto: self.monto,
            fecha_hora: self.fecha_hora.clone(),
        }
    }
}

impl PartialEq for Registro {
    fn eq(&self, o: &Registro) -> (r: bool) {
        self.id == o.id && self.persona == o.persona && self.monto == o.monto
            && self.fecha_hora == o.fecha_hora
    }
}

impl vstd::std_specs::cmp::PartialEqSpecImpl for Registro {
    open spec fn obeys_eq_spec() -> bool {
        true
    }

    open spec fn eq_spec(&self, o: &Registro) -> bool {
        self.id == o.id && self.persona@ == o.persona@ && self.monto == o.monto
            && self.fecha_hora@ == o.fecha_hora@
    }
}

} // verus!
