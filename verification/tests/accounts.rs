use iron_vault::models::{Accounts, Credential, Vault};

fn cred(user: &str, pass: &str) -> Credential {
    Credential { username: user.to_string(), password_plana: pass.to_string() }
}

#[test]
fn new_vault_keeps_salt_and_is_empty() {
    let vault = Vault::new("0123456789abcdef0123456789abcdef".to_string());
    assert_eq!(vault.salt, "0123456789abcdef0123456789abcdef");
    assert!(vault.accounts.is_empty());
    assert_eq!(vault.accounts.len(), 0);
}

#[test]
fn insert_then_get_gives_the_credential() {
    let mut accounts = Accounts::new();
    assert!(accounts.insert("mail".to_string(), cred("ana", "pw1")).is_none());
    let c = accounts.get("mail").unwrap();
    assert_eq!(c.username, "ana");
    assert_eq!(c.password_plana, "pw1");
    assert!(accounts.contains_key("mail"));
    assert!(!accounts.contains_key("bank"));
    assert!(accounts.get("bank").is_none());
}

#[test]
fn insert_on_existing_name_replaces_and_returns_old() {
    let mut accounts = Accounts::new();
    accounts.insert("mail".to_string(), cred("ana", "pw1"));
    let old = accounts.insert("mail".to_string(), cred("bob", "pw2")).unwrap();
    assert_eq!(old.username, "ana");
    assert_eq!(old.password_plana, "pw1");
    assert_eq!(accounts.len(), 1);
    assert_eq!(accounts.get("mail").unwrap().username, "bob");
}

#[test]
fn remove_takes_out_only_that_name() {
    let mut accounts = Accounts::new();
    accounts.insert("a".to_string(), cred("u1", "p1"));
    accounts.insert("b".to_string(), cred("u2", "p2"));
    accounts.insert("c".to_string(), cred("u3", "p3"));
    let removed = accounts.remove("b").unwrap();
    assert_eq!(removed.username, "u2");
    assert!(accounts.remove("b").is_none());
    assert_eq!(accounts.len(), 2);
    assert_eq!(accounts.get("a").unwrap().password_plana, "p1");
    assert_eq!(accounts.get("c").unwrap().password_plana, "p3");
}

#[test]
fn entries_keep_insertion_order() {
    let mut accounts = Accounts::new();
    accounts.insert("zeta".to_string(), cred("z", "1"));
    accounts.insert("alpha".to_string(), cred("a", "2"));
    accounts.insert("mid".to_string(), cred("m", "3"));
    accounts.remove("alpha");
    let names: Vec<String> = (0..accounts.len()).map(|i| accounts.entry(i).0.clone()).collect();
    assert_eq!(names, vec!["zeta".to_string(), "mid".to_string()]);
    let (name, c) = accounts.entry(1);
    assert_eq!(name, "mid");
    assert_eq!(c.username, "m");
}

#[test]
fn empty_name_is_a_name_like_any_other() {
    let mut accounts = Accounts::new();
    accounts.insert(String::new(), cred("u", "p"));
    assert!(accounts.contains_key(""));
    assert_eq!(accounts.len(), 1);
}

#[test]
fn remove_keeps_the_order_of_the_others() {
    let mut accounts = Accounts::new();
    for n in ["a", "b", "c", "d"] {
        accounts.insert(n.to_string(), cred("u", "p"));
    }
    accounts.remove("b");
    let names: Vec<String> = (0..accounts.len()).map(|i| accounts.entry(i).0.clone()).collect();
    assert_eq!(names, vec!["a".to_string(), "c".to_string(), "d".to_string()]);
}
