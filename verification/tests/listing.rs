use std::collections::BTreeSet;

use ncd_registry::rules::default_authority_account;
use ncd_registry::{one_near, NcdContract, Participante};

fn accounts(all: &[Participante]) -> Vec<&str> {
    all.iter().map(|p| p.cuenta.as_str()).collect()
}

#[test]
fn a_new_registry_lists_nothing() {
    let contrato = NcdContract::default();
    assert!(contrato.get_participantes().is_empty());
}

#[test]
fn two_registrations_are_both_listed() {
    let mut contrato = NcdContract::default();
    contrato
        .set_participante(String::from("Ana María"), 25, String::from("a.testnet"), one_near())
        .unwrap();
    contrato
        .set_participante(String::from("Benito"), 40, String::from("b.testnet"), one_near())
        .unwrap();

    let todos = contrato.get_participantes();
    assert_eq!(todos.len(), 2);

    let listed: BTreeSet<&str> = accounts(&todos).into_iter().collect();
    let registered: BTreeSet<&str> = ["a.testnet", "b.testnet"].into_iter().collect();
    assert_eq!(listed, registered);

    let a = todos.iter().find(|p| p.cuenta == "a.testnet").unwrap();
    assert_eq!(a.nombre, "Ana María");
    assert_eq!(a.edad, 25);
    assert!(!a.certificado);
    let b = todos.iter().find(|p| p.cuenta == "b.testnet").unwrap();
    assert_eq!(b.nombre, "Benito");
    assert_eq!(b.edad, 40);
    assert!(!b.certificado);
}

#[test]
fn the_listing_follows_the_order_of_first_registration() {
    let mut contrato = NcdContract::default();
    for cuenta in ["c.testnet", "a.testnet", "b.testnet"] {
        contrato
            .set_participante(String::from("Nombre"), 30, String::from(cuenta), one_near())
            .unwrap();
    }
    assert_eq!(accounts(&contrato.get_participantes()), ["c.testnet", "a.testnet", "b.testnet"]);

    // Registering again and certifying keep each record in its place.
    contrato
        .set_participante(String::from("Otro nombre"), 31, String::from("c.testnet"), one_near())
        .unwrap();
    contrato.set_certificado(String::from("a.testnet"), default_authority_account()).unwrap();

    let todos = contrato.get_participantes();
    assert_eq!(accounts(&todos), ["c.testnet", "a.testnet", "b.testnet"]);
    assert_eq!(todos[0].nombre, "Otro nombre");
    assert_eq!(todos[0].edad, 31);
    assert!(!todos[0].certificado);
    assert!(todos[1].certificado);
    assert!(!todos[2].certificado);
}

#[test]
fn the_listing_is_the_same_when_asked_twice() {
    let mut contrato = NcdContract::default();
    for cuenta in ["uno.testnet", "dos.testnet", "tres.testnet", "cuatro.testnet"] {
        contrato
            .set_participante(String::from("Nombre"), 30, String::from(cuenta), one_near())
            .unwrap();
    }
    let first = contrato.get_participantes();
    let second = contrato.get_participantes();
    assert_eq!(accounts(&first), accounts(&second));
    assert_eq!(first.len(), 4);
}

#[test]
fn what_is_listed_is_what_a_lookup_returns() {
    let mut contrato = NcdContract::default();
    for (i, cuenta) in ["uno.testnet", "dos.testnet", "tres.testnet"].into_iter().enumerate() {
        let nombre = format!("Nombre {}", i);
        contrato
            .set_participante(nombre, 30 + i as u64, String::from(cuenta), one_near())
            .unwrap();
    }
    contrato.set_certificado(String::from("dos.testnet"), default_authority_account()).unwrap();

    for p in contrato.get_participantes() {
        let found = contrato.get_participante(p.cuenta.clone()).unwrap();
        assert_eq!(found.cuenta, p.cuenta);
        assert_eq!(found.nombre, p.nombre);
        assert_eq!(found.edad, p.edad);
        assert_eq!(found.certificado, p.certificado);
    }
}

#[test]
fn a_copy_handed_out_is_not_the_stored_record() {
    let mut contrato = NcdContract::default();
    contrato
        .set_participante(String::from("Nombre"), 30, String::from("uno.testnet"), one_near())
        .unwrap();

    let mut copia = contrato.get_participante(String::from("uno.testnet")).unwrap();
    copia.certificado = true;
    copia.nombre.push_str(" cambiado");

    let guardado = contrato.get_participante(String::from("uno.testnet")).unwrap();
    assert_eq!(guardado.nombre, "Nombre");
    assert!(!guardado.certificado);
}
