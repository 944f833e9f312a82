use ncd_registry::rules::{default_authority_account, REWARD};
use ncd_registry::{one_near, NcdContract, Notice, Participante, RegistryError};

const AUTHORITY: &str = "aklassen.testnet";

fn registry_with(cuentas: &[&str]) -> NcdContract {
    let mut contrato = NcdContract::default();
    for cuenta in cuentas {
        contrato
            .set_participante(String::from("Alice"), 18, String::from(*cuenta), one_near())
            .unwrap();
    }
    contrato
}

#[test]
fn the_default_authority_is_the_fixed_account() {
    assert_eq!(default_authority_account(), AUTHORITY);
}

#[test]
fn the_reward_is_five_near() {
    assert_eq!(REWARD, 5_000_000_000_000_000_000_000_000u128);
    assert_eq!(REWARD, 5 * one_near());
}

#[test]
fn register_lookup_and_certify_twice() {
    let mut contrato = NcdContract::default();
    contrato
        .set_participante(String::from("Alice"), 18, String::from("caller"), one_near())
        .unwrap();

    let p = contrato.get_participante(String::from("caller")).unwrap();
    assert_eq!(p.nombre, "Alice");
    assert_eq!(p.edad, 18);
    assert_eq!(p.certificado, false);

    let first = contrato.set_certificado(String::from("caller"), String::from(AUTHORITY)).unwrap();
    assert_eq!(first.certified, true);
    assert!(contrato.get_participante(String::from("caller")).unwrap().certificado);

    let second = contrato.set_certificado(String::from("caller"), String::from(AUTHORITY)).unwrap();
    assert_eq!(second.certified, true);
    let p = contrato.get_participante(String::from("caller")).unwrap();
    assert_eq!(p.nombre, "Alice");
    assert_eq!(p.edad, 18);
    assert_eq!(p.certificado, true);
}

#[test]
fn certifying_a_registered_account_asks_for_one_reward() {
    let mut contrato = registry_with(&["uno.testnet", "dos.testnet"]);

    let outcome =
        contrato.set_certificado(String::from("dos.testnet"), String::from(AUTHORITY)).unwrap();
    assert!(outcome.certified);
    assert_eq!(outcome.notice, Notice::Certified);
    let reward = outcome.reward.unwrap();
    assert_eq!(reward.to, "dos.testnet");
    assert_eq!(reward.amount, 5_000_000_000_000_000_000_000_000u128);

    let dos = contrato.get_participante(String::from("dos.testnet")).unwrap();
    assert_eq!(dos.cuenta, "dos.testnet");
    assert_eq!(dos.nombre, "Alice");
    assert_eq!(dos.edad, 18);
    assert!(dos.certificado);
    assert!(!contrato.get_participante(String::from("uno.testnet")).unwrap().certificado);
    assert_eq!(contrato.get_participantes().len(), 2);
}

#[test]
fn certifying_an_unknown_account_answers_false() {
    let mut contrato = registry_with(&["uno.testnet"]);

    let outcome =
        contrato.set_certificado(String::from("nadie.testnet"), String::from(AUTHORITY)).unwrap();
    assert!(!outcome.certified);
    assert!(outcome.reward.is_none());
    assert_eq!(outcome.notice, Notice::NotFound);

    assert!(contrato.get_participante(String::from("nadie.testnet")).is_none());
    assert_eq!(contrato.get_participantes().len(), 1);
    assert!(!contrato.get_participante(String::from("uno.testnet")).unwrap().certificado);
}

#[test]
fn certifying_in_an_empty_registry_answers_false() {
    let mut contrato = NcdContract::default();
    let outcome =
        contrato.set_certificado(String::from("uno.testnet"), String::from(AUTHORITY)).unwrap();
    assert!(!outcome.certified);
    assert!(outcome.reward.is_none());
    assert!(contrato.get_participantes().is_empty());
}

#[test]
fn only_the_authority_may_certify() {
    let mut contrato = registry_with(&["uno.testnet"]);

    for caller in ["uno.testnet", "", "aklassen.testne", "aklassen.testnet.", "Aklassen.testnet"] {
        for cuenta in ["uno.testnet", "nadie.testnet"] {
            let result = contrato.set_certificado(String::from(cuenta), String::from(caller));
            assert_eq!(result.unwrap_err(), RegistryError::Unauthorized);
        }
    }

    let uno = contrato.get_participante(String::from("uno.testnet")).unwrap();
    assert_eq!(uno.nombre, "Alice");
    assert_eq!(uno.edad, 18);
    assert!(!uno.certificado);
    assert_eq!(contrato.get_participantes().len(), 1);
}

#[test]
fn a_participant_cannot_certify_itself() {
    let mut contrato = registry_with(&["uno.testnet"]);
    let result = contrato.set_certificado(String::from("uno.testnet"), String::from("uno.testnet"));
    assert_eq!(result.unwrap_err(), RegistryError::Unauthorized);
    assert!(!contrato.get_participante(String::from("uno.testnet")).unwrap().certificado);
}

#[test]
fn a_registry_can_be_set_up_with_another_authority() {
    let mut contrato = NcdContract::with_authority(String::from("jefa.testnet"));
    contrato
        .set_participante(String::from("Alice"), 18, String::from("uno.testnet"), one_near())
        .unwrap();

    let result = contrato.set_certificado(String::from("uno.testnet"), String::from(AUTHORITY));
    assert_eq!(result.unwrap_err(), RegistryError::Unauthorized);

    let outcome = contrato
        .set_certificado(String::from("uno.testnet"), String::from("jefa.testnet"))
        .unwrap();
    assert!(outcome.certified);
    assert!(contrato.get_participante(String::from("uno.testnet")).unwrap().certificado);
}

#[test]
fn a_certificate_outlives_later_certifications() {
    let mut contrato = registry_with(&["uno.testnet", "dos.testnet"]);
    contrato.set_certificado(String::from("uno.testnet"), String::from(AUTHORITY)).unwrap();

    contrato.set_certificado(String::from("dos.testnet"), String::from(AUTHORITY)).unwrap();
    contrato.set_certificado(String::from("nadie.testnet"), String::from(AUTHORITY)).unwrap();
    assert!(contrato.set_certificado(String::from("uno.testnet"), String::from("otro")).is_err());

    assert!(contrato.get_participante(String::from("uno.testnet")).unwrap().certificado);
    assert!(contrato.get_participante(String::from("dos.testnet")).unwrap().certificado);
}

#[test]
fn a_record_certifies_itself_and_names_its_reward() {
    let mut p = Participante::new(String::from("uno.testnet"), String::from("Alice"), 18);
    let reward = p.certify();
    assert!(p.certificado);
    assert_eq!(p.cuenta, "uno.testnet");
    assert_eq!(p.nombre, "Alice");
    assert_eq!(p.edad, 18);
    assert_eq!(reward.to, "uno.testnet");
    assert_eq!(reward.amount, REWARD);
}
