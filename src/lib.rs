//! An append-only registry of payment records with sequential identifiers and
//! two secondary indexes: one by payer, one by timestamp.

pub mod base_datos;
pub mod indice;
pub mod leyes;
pub mod registro;
