use registro_pagos::base_datos::BaseDatosContract;
use registro_pagos::registro::Registro;

fn s(t: &str) -> String {
    String::from(t)
}

fn registro(id: u128, persona: &str, monto: u32, fecha_hora: &str) -> Registro {
    Registro { id, persona: s(persona), monto, fecha_hora: s(fecha_hora) }
}

#[test]
fn test_crear_y_consultar() {
    let mut db = BaseDatosContract::new();

    db.inicializar();

    let id1 = db.crear_registro(s("Juan Perez"), 1000, s("2024-01-15 10:30:00"));
    let id2 = db.crear_registro(s("Maria Lopez"), 2500, s("2024-01-15 11:45:00"));

    assert_eq!(id1, 1);
    assert_eq!(id2, 2);

    let registro = db.obtener_por_id(1).unwrap();
    assert_eq!(registro.persona, s("Juan Perez"));
    assert_eq!(registro.monto, 1000);
}

#[test]
fn escenario_completo() {
    let mut db = BaseDatosContract::new();
    db.inicializar();
    assert_eq!(db.crear_registro(s("Juan Perez"), 1000, s("2024-01-15 10:30:00")), 1);
    assert_eq!(db.crear_registro(s("Maria Lopez"), 2500, s("2024-01-15 11:45:00")), 2);
    assert_eq!(db.obtener_por_id(1), Some(registro(1, "Juan Perez", 1000, "2024-01-15 10:30:00")));
    assert_eq!(
        db.listar_por_persona(s("Juan Perez")),
        vec![registro(1, "Juan Perez", 1000, "2024-01-15 10:30:00")]
    );
    assert_eq!(db.listar_por_persona(s("Unknown")), Vec::<Registro>::new());
    assert_eq!(db.obtener_contador(), 2);
}

#[test]
fn ids_secuenciales_y_contador() {
    let mut db = BaseDatosContract::new();
    db.inicializar();
    for n in 1..=20u128 {
        assert_eq!(db.crear_registro(s("p"), n as u32, s("f")), n);
        assert_eq!(db.obtener_contador(), n);
    }
}

#[test]
fn obtener_devuelve_lo_enviado() {
    let mut db = BaseDatosContract::new();
    let id = db.crear_registro(s("Ana"), 7, s("2024-02-01 00:00:00"));
    let otro = db.crear_registro(s("Luis"), 0, s(""));
    assert_eq!(db.obtener_por_id(id), Some(registro(1, "Ana", 7, "2024-02-01 00:00:00")));
    assert_eq!(db.obtener_por_id(otro), Some(registro(2, "Luis", 0, "")));
}

#[test]
fn obtener_id_ausente() {
    let mut db = BaseDatosContract::new();
    assert_eq!(db.obtener_por_id(0), None);
    assert_eq!(db.obtener_por_id(1), None);
    db.crear_registro(s("Ana"), 7, s("x"));
    assert_eq!(db.obtener_por_id(0), None);
    assert_eq!(db.obtener_por_id(2), None);
    assert_eq!(db.obtener_por_id(u128::MAX), None);
}

#[test]
fn listar_por_persona_en_orden_de_creacion() {
    let mut db = BaseDatosContract::new();
    db.inicializar();
    db.crear_registro(s("Ana"), 10, s("t1"));
    db.crear_registro(s("Luis"), 20, s("t1"));
    db.crear_registro(s("Ana"), 30, s("t2"));
    db.crear_registro(s("Ana"), 40, s("t3"));
    let de_ana = db.listar_por_persona(s("Ana"));
    assert_eq!(
        de_ana,
        vec![registro(1, "Ana", 10, "t1"), registro(3, "Ana", 30, "t2"), registro(4, "Ana", 40, "t3")]
    );
    assert_eq!(db.listar_por_persona(s("Luis")), vec![registro(2, "Luis", 20, "t1")]);
    assert_eq!(db.listar_por_persona(s("ana")), Vec::<Registro>::new());
}

#[test]
fn listar_por_fecha_en_orden_de_creacion() {
    let mut db = BaseDatosContract::new();
    db.crear_registro(s("Ana"), 10, s("2024-01-15 10:30:00"));
    db.crear_registro(s("Luis"), 20, s("2024-01-15 11:45:00"));
    db.crear_registro(s("Eva"), 30, s("2024-01-15 10:30:00"));
    assert_eq!(
        db.listar_por_fecha(s("2024-01-15 10:30:00")),
        vec![registro(1, "Ana", 10, "2024-01-15 10:30:00"), registro(3, "Eva", 30, "2024-01-15 10:30:00")]
    );
    assert_eq!(db.listar_por_fecha(s("2024-01-16")), Vec::<Registro>::new());
}

#[test]
fn persona_y_fecha_no_se_confunden() {
    let mut db = BaseDatosContract::new();
    db.crear_registro(s("igual"), 1, s("otra"));
    db.crear_registro(s("otra"), 2, s("igual"));
    assert_eq!(db.listar_por_persona(s("igual")), vec![registro(1, "igual", 1, "otra")]);
    assert_eq!(db.listar_por_fecha(s("igual")), vec![registro(2, "otra", 2, "igual")]);
}

#[test]
fn listar_todos_por_id_ascendente() {
    let mut db = BaseDatosContract::new();
    assert_eq!(db.listar_todos(), Vec::<Registro>::new());
    db.inicializar();
    db.crear_registro(s("B"), 2, s("f2"));
    db.crear_registro(s("A"), 1, s("f1"));
    db.crear_registro(s("B"), 3, s("f1"));
    let todos = db.listar_todos();
    assert_eq!(
        todos,
        vec![registro(1, "B", 2, "f2"), registro(2, "A", 1, "f1"), registro(3, "B", 3, "f1")]
    );
    assert_eq!(todos.len() as u128, db.obtener_contador());
}

#[test]
fn inicializar_es_idempotente() {
    let mut db = BaseDatosContract::new();
    assert_eq!(db.obtener_contador(), 0);
    db.inicializar();
    assert_eq!(db.obtener_contador(), 0);
    db.inicializar();
    assert_eq!(db.obtener_contador(), 0);
    db.crear_registro(s("Ana"), 5, s("f"));
    db.crear_registro(s("Ana"), 6, s("f"));
    db.inicializar();
    assert_eq!(db.obtener_contador(), 2);
    assert_eq!(db.crear_registro(s("Ana"), 7, s("f")), 3);
}

#[test]
fn crear_sin_inicializar() {
    let mut db = BaseDatosContract::new();
    assert_eq!(db.crear_registro(s(""), 0, s("")), 1);
    assert_eq!(db.obtener_contador(), 1);
    assert_eq!(db.listar_por_persona(s("")), vec![registro(1, "", 0, "")]);
    assert_eq!(db.listar_por_fecha(s("")), vec![registro(1, "", 0, "")]);
}

#[test]
fn monto_maximo_se_conserva() {
    let mut db = BaseDatosContract::new();
    let id = db.crear_registro(s("Ana"), u32::MAX, s("f"));
    assert_eq!(db.obtener_por_id(id).unwrap().monto, u32::MAX);
}

#[test]
fn copia_conserva_los_campos() {
    let r = registro(4, "Ana", 9, "f");
    assert_eq!(r.copia(), r);
    assert_ne!(r.copia(), registro(4, "Ana", 9, "g"));
}
