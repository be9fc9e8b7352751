//! Rúbrica: electronic signatures for the portals of the Spanish public
//! administration (the @firma platform).

pub mod asn1;
pub mod cades;
pub mod certificados;
pub mod firma_cms;
pub mod keystore;
pub mod codificacion;
pub mod error;
pub mod larioja;
pub mod numeros;
pub mod pades;
pub mod pades_b;
pub mod pkcs12;
pub mod protocol;
pub mod proveedores;
pub mod puente;
pub mod relectura;
pub mod texto;
pub mod trifasica;
pub mod tsa;
pub mod validate;
pub mod web;
pub mod xades;
