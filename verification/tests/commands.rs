use iron_vault::commands::{
    add_service, apply_edit, clean_input, delete_service, edit_target, find_credential, generate_password,
    list_services, mask_password, master_passwords_match, parse_edit_command,
    password_or_generated, rename_service, update_password, update_username, EditCommand,
    ServiceRefusal,
};
use iron_vault::models::Vault;

fn vault_with(entries: &[(&str, &str, &str)]) -> Vault {
    let mut vault = Vault::new("salt".to_string());
    for (s, u, p) in entries {
        assert!(add_service(&mut vault, s.to_string(), u.to_string(), p.to_string()));
    }
    vault
}

fn is_lower_hex(s: &str) -> bool {
    s.chars().all(|c| c.is_ascii_digit() || ('a'..='f').contains(&c))
}

#[test]
fn clean_input_trims_and_refuses_blank() {
    assert_eq!(clean_input("  github \n"), Some("github".to_string()));
    assert_eq!(clean_input("\tmy service\t"), Some("my service".to_string()));
    assert_eq!(clean_input(""), None);
    assert_eq!(clean_input("   \n\t"), None);
}

#[test]
fn master_passwords_must_match_exactly() {
    assert!(master_passwords_match(&"hunter2".to_string(), &"hunter2".to_string()));
    assert!(!master_passwords_match(&"hunter2".to_string(), &"hunter3".to_string()));
    assert!(!master_passwords_match(&"a".to_string(), &"a ".to_string()));
}

#[test]
fn add_refuses_existing_service() {
    let mut vault = vault_with(&[("mail", "ana", "pw1")]);
    assert!(!add_service(&mut vault, "mail".to_string(), "bob".to_string(), "pw2".to_string()));
    let c = vault.accounts.get("mail").unwrap();
    assert_eq!(c.username, "ana");
    assert_eq!(c.password_plana, "pw1");
    assert_eq!(vault.accounts.len(), 1);
}

#[test]
fn added_service_is_found() {
    let vault = vault_with(&[("mail", "ana", "pw1"), ("bank", "bob", "pw2")]);
    let c = find_credential(Some("bank"), &vault).unwrap();
    assert_eq!(c.username, "bob");
    assert_eq!(c.password_plana, "pw2");
}

#[test]
fn find_needs_a_stored_name() {
    let vault = vault_with(&[("mail", "ana", "pw1")]);
    assert_eq!(find_credential(None, &vault).err(), Some(ServiceRefusal::MissingName));
    assert_eq!(find_credential(Some("bank"), &vault).err(), Some(ServiceRefusal::NotFound));
}

#[test]
fn delete_outcomes() {
    let mut vault = vault_with(&[("mail", "ana", "pw1"), ("bank", "bob", "pw2")]);
    assert_eq!(delete_service(None, &mut vault), Err(ServiceRefusal::MissingName));
    assert_eq!(delete_service(Some("shop"), &mut vault), Err(ServiceRefusal::NotFound));
    assert_eq!(vault.accounts.len(), 2);
    assert_eq!(delete_service(Some("mail"), &mut vault), Ok(()));
    assert!(!vault.accounts.contains_key("mail"));
    assert!(vault.accounts.contains_key("bank"));
    assert_eq!(delete_service(Some("mail"), &mut vault), Err(ServiceRefusal::NotFound));
    assert_eq!(vault.salt, "salt");
}

#[test]
fn edit_words() {
    assert_eq!(parse_edit_command("service_name"), EditCommand::ServiceName);
    assert_eq!(parse_edit_command("username"), EditCommand::Username);
    assert_eq!(parse_edit_command("password"), EditCommand::Password);
    assert_eq!(parse_edit_command("help"), EditCommand::Help);
    assert_eq!(parse_edit_command("q"), EditCommand::Quit);
    assert_eq!(parse_edit_command("quit"), EditCommand::Quit);
    assert_eq!(parse_edit_command("Quit"), EditCommand::Invalid);
    assert_eq!(parse_edit_command("Password"), EditCommand::Invalid);
    assert_eq!(parse_edit_command(""), EditCommand::Invalid);
}

#[test]
fn edit_target_needs_a_stored_name() {
    let vault = vault_with(&[("mail", "ana", "pw1")]);
    assert_eq!(edit_target(None, &vault), Err(ServiceRefusal::MissingName));
    assert_eq!(edit_target(Some("bank"), &vault), Err(ServiceRefusal::NotFound));
    assert_eq!(edit_target(Some("mail"), &vault), Ok("mail"));
}

#[test]
fn rename_moves_the_credential() {
    let mut vault = vault_with(&[("mail", "ana", "pw1"), ("bank", "bob", "pw2")]);
    assert!(rename_service(&mut vault, "mail", "email".to_string()));
    assert!(!vault.accounts.contains_key("mail"));
    let c = vault.accounts.get("email").unwrap();
    assert_eq!(c.username, "ana");
    assert_eq!(c.password_plana, "pw1");
    assert_eq!(vault.accounts.len(), 2);
    assert!(!rename_service(&mut vault, "mail", "x".to_string()));
    assert_eq!(vault.accounts.len(), 2);
}

#[test]
fn rename_onto_existing_name_replaces_it() {
    let mut vault = vault_with(&[("mail", "ana", "pw1"), ("bank", "bob", "pw2")]);
    assert!(rename_service(&mut vault, "mail", "bank".to_string()));
    assert_eq!(vault.accounts.len(), 1);
    assert_eq!(vault.accounts.get("bank").unwrap().username, "ana");
}

#[test]
fn rename_to_itself_changes_nothing_visible() {
    let mut vault = vault_with(&[("mail", "ana", "pw1")]);
    assert!(rename_service(&mut vault, "mail", "mail".to_string()));
    assert_eq!(vault.accounts.get("mail").unwrap().password_plana, "pw1");
    assert_eq!(vault.accounts.len(), 1);
}

#[test]
fn updates_keep_the_other_field() {
    let mut vault = vault_with(&[("mail", "ana", "pw1")]);
    assert!(update_username(&mut vault, "mail", "anna".to_string()));
    let c = vault.accounts.get("mail").unwrap();
    assert_eq!((c.username.as_str(), c.password_plana.as_str()), ("anna", "pw1"));
    assert!(update_password(&mut vault, "mail", "s3cret".to_string()));
    let c = vault.accounts.get("mail").unwrap();
    assert_eq!((c.username.as_str(), c.password_plana.as_str()), ("anna", "s3cret"));
    assert!(!update_username(&mut vault, "bank", "x".to_string()));
    assert!(!update_password(&mut vault, "bank", "x".to_string()));
    assert_eq!(vault.accounts.len(), 1);
}

#[test]
fn masked_password_is_eight_stars() {
    assert_eq!(mask_password("secret"), "********");
    assert_eq!(mask_password(""), "********");
    assert_eq!(mask_password("a very long password indeed"), "********");
}

#[test]
fn listing_follows_storage_order() {
    let vault = vault_with(&[("mail", "ana", "pw1"), ("bank", "bob", "pw2")]);
    let lines = list_services(&vault);
    assert_eq!(lines.len(), 2);
    assert_eq!(lines[0].service, "mail");
    assert_eq!(lines[0].username, "ana");
    assert_eq!(lines[0].masked_password, "********");
    assert_eq!(lines[1].service, "bank");
    assert_eq!(lines[1].username, "bob");
    assert!(list_services(&Vault::new(String::new())).is_empty());
}

#[test]
fn generated_password_is_hex_of_sixteen_bytes() {
    let p = generate_password();
    assert_eq!(p.len(), 32);
    assert!(is_lower_hex(&p));
    assert_ne!(generate_password(), p);
}

#[test]
fn typed_password_wins_over_generated() {
    assert_eq!(password_or_generated(Some("mine".to_string())), "mine");
    let g = password_or_generated(None);
    assert_eq!(g.len(), 32);
    assert!(is_lower_hex(&g));
}

#[test]
fn clean_input_trims_unicode_white_space_and_is_stable() {
    assert_eq!(clean_input("\u{3000}\u{a0}name\u{2009}"), Some("name".to_string()));
    assert_eq!(clean_input("\u{85}\u{2028}"), None);
    let once = clean_input("  a b  ").unwrap();
    assert_eq!(clean_input(&once), Some(once.clone()));
    assert_eq!(once, "a b");
}

#[test]
fn apply_edit_changes_only_with_field_commands() {
    let mut vault = vault_with(&[("mail", "ana", "pw1")]);
    assert!(!apply_edit(&mut vault, "mail", EditCommand::Help, "x".to_string()));
    assert!(!apply_edit(&mut vault, "mail", EditCommand::Quit, "x".to_string()));
    assert!(!apply_edit(&mut vault, "mail", EditCommand::Invalid, "x".to_string()));
    assert_eq!(vault.accounts.get("mail").unwrap().username, "ana");
    assert!(apply_edit(&mut vault, "mail", EditCommand::Username, "anna".to_string()));
    assert!(apply_edit(&mut vault, "mail", EditCommand::Password, "pw9".to_string()));
    assert!(apply_edit(&mut vault, "mail", EditCommand::ServiceName, "email".to_string()));
    let c = vault.accounts.get("email").unwrap();
    assert_eq!((c.username.as_str(), c.password_plana.as_str()), ("anna", "pw9"));
    assert!(!apply_edit(&mut vault, "mail", EditCommand::Username, "x".to_string()));
    assert_eq!(vault.accounts.len(), 1);
}

#[test]
fn add_grows_the_vault_by_one() {
    let mut vault = vault_with(&[("mail", "ana", "pw1")]);
    assert!(add_service(&mut vault, "bank".to_string(), "bob".to_string(), "pw2".to_string()));
    assert_eq!(vault.accounts.len(), 2);
    assert!(!add_service(&mut vault, "bank".to_string(), "x".to_string(), "y".to_string()));
    assert_eq!(vault.accounts.len(), 2);
}

#[test]
fn listing_shows_each_service_once_and_no_password() {
    let vault = vault_with(&[("a", "u1", "secret1"), ("b", "u2", ""), ("c", "u3", "x")]);
    let lines = list_services(&vault);
    let mut services: Vec<&str> = lines.iter().map(|l| l.service.as_str()).collect();
    services.sort();
    assert_eq!(services, vec!["a", "b", "c"]);
    assert!(lines.iter().all(|l| l.masked_password == "********"));
}
