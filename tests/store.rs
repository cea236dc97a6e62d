use password_manager::{
    IPasswordRepository, PasswordEntity, PasswordRepository, PasswordUseCase, RepositoryError,
};

fn entity(id: &str, site: &str, user: &str, secret: &str) -> PasswordEntity {
    PasswordEntity::new(
        id.to_string(),
        site.to_string(),
        site.to_string(),
        user.to_string(),
        String::new(),
        secret.to_string(),
    )
}

fn same(a: &PasswordEntity, b: &PasswordEntity) -> bool {
    a.id == b.id
        && a.page_url == b.page_url
        && a.page_name == b.page_name
        && a.username == b.username
        && a.email == b.email
        && a.password == b.password
}

fn ids(repo: &PasswordRepository) -> Vec<String> {
    repo.get_all().unwrap().into_iter().map(|p| p.id).collect()
}

#[test]
fn new_entity_keeps_fields() {
    let p = PasswordEntity::new(
        "id1".to_string(),
        "https://example.com".to_string(),
        "example".to_string(),
        "me".to_string(),
        "me@example.com".to_string(),
        "pw".to_string(),
    );
    assert_eq!(p.id, "id1");
    assert_eq!(p.page_url, "https://example.com");
    assert_eq!(p.page_name, "example");
    assert_eq!(p.username, "me");
    assert_eq!(p.email, "me@example.com");
    assert_eq!(p.password, "pw");
    assert!(same(&p.duplicate(), &p));
}

#[test]
fn save_then_get_by_id_round_trips() {
    let mut repo = PasswordRepository::new("passwords.json");
    let p = PasswordEntity::new(
        "X".to_string(),
        "https://site".to_string(),
        "site".to_string(),
        "user".to_string(),
        "u@site".to_string(),
        "secret".to_string(),
    );
    let back = repo.save(&p).unwrap();
    assert!(same(&back, &p));
    let got = repo.get_by_id("X").unwrap().unwrap();
    assert!(same(&got, &p));
}

#[test]
fn get_by_id_absent_is_none() {
    let mut repo = PasswordRepository::new("passwords.json");
    repo.save(&entity("A", "github", "alice", "s")).unwrap();
    assert!(repo.get_by_id("Z").unwrap().is_none());
}

#[test]
fn save_existing_id_replaces_in_place() {
    let mut repo = PasswordRepository::new("passwords.json");
    repo.save(&entity("A", "a", "u", "1")).unwrap();
    repo.save(&entity("B", "b", "u", "2")).unwrap();
    repo.save(&entity("C", "c", "u", "3")).unwrap();
    repo.save(&entity("B", "b2", "v", "new")).unwrap();
    let all = repo.get_all().unwrap();
    assert_eq!(all.len(), 3);
    assert_eq!(ids(&repo), vec!["A", "B", "C"]);
    assert!(same(&all[0], &entity("A", "a", "u", "1")));
    assert!(same(&all[1], &entity("B", "b2", "v", "new")));
    assert!(same(&all[2], &entity("C", "c", "u", "3")));
}

#[test]
fn save_new_id_appends() {
    let mut repo = PasswordRepository::new("passwords.json");
    repo.save(&entity("A", "a", "u", "1")).unwrap();
    repo.save(&entity("B", "b", "u", "2")).unwrap();
    assert_eq!(ids(&repo), vec!["A", "B"]);
}

#[test]
fn delete_existing_id_removes_exactly_one() {
    let mut repo = PasswordRepository::new("passwords.json");
    repo.save(&entity("A", "a", "u", "1")).unwrap();
    repo.save(&entity("B", "b", "u", "2")).unwrap();
    repo.save(&entity("C", "c", "u", "3")).unwrap();
    assert!(repo.delete_by_id("B").is_ok());
    assert_eq!(ids(&repo), vec!["A", "C"]);
}

#[test]
fn delete_absent_id_is_not_found_and_changes_nothing() {
    let mut repo = PasswordRepository::new("passwords.json");
    repo.save(&entity("A", "a", "u", "1")).unwrap();
    let r = repo.delete_by_id("Q");
    assert!(matches!(r, Err(RepositoryError::NotFound)));
    assert_eq!(ids(&repo), vec!["A"]);
}

#[test]
fn delete_on_empty_store_is_not_found() {
    let mut repo = PasswordRepository::new("passwords.json");
    assert!(matches!(repo.delete_by_id("A"), Err(RepositoryError::NotFound)));
    assert!(repo.get_all().unwrap().is_empty());
}

#[test]
fn lookup_resolves_by_site_and_username() {
    let mut repo = PasswordRepository::new("passwords.json");
    repo.save(&entity("A", "github", "alice", "pa")).unwrap();
    repo.save(&entity("B", "github", "bob", "pb")).unwrap();
    let uc = PasswordUseCase::new(repo);
    let got = uc.get_password("github", "bob").unwrap().unwrap();
    assert_eq!(got.id, "B");
    assert_eq!(got.password, "pb");
    assert!(matches!(uc.get_password("github", "carol"), Err(RepositoryError::NotFound)));
}

#[test]
fn lookup_is_exact_and_picks_first_duplicate() {
    let mut repo = PasswordRepository::new("passwords.json");
    repo.save(&entity("A", "github", "alice", "first")).unwrap();
    repo.save(&entity("B", "github", "alice", "second")).unwrap();
    let mut uc = PasswordUseCase::new(repo);
    assert_eq!(uc.get_password("github", "alice").unwrap().unwrap().id, "A");
    assert!(matches!(uc.get_password("GitHub", "alice"), Err(RepositoryError::NotFound)));
    assert!(matches!(uc.get_password("github", " alice"), Err(RepositoryError::NotFound)));
    assert!(uc.delete_password("github", "alice").is_ok());
    assert_eq!(uc.get_password("github", "alice").unwrap().unwrap().id, "B");
}

#[test]
fn fresh_store_lists_empty() {
    let repo = PasswordRepository::load("missing.json", None).unwrap();
    assert_eq!(repo.file_path(), "missing.json");
    let uc = PasswordUseCase::new(repo);
    assert!(uc.get_all_passwords().unwrap().is_empty());
}

#[test]
fn loaded_store_keeps_records_in_order() {
    let stored = vec![entity("A", "a", "u", "1"), entity("B", "b", "u", "2")];
    let repo = PasswordRepository::load("passwords.json", Some(Ok(stored))).unwrap();
    assert_eq!(ids(&repo), vec!["A", "B"]);
}

#[test]
fn malformed_store_is_serialization_error() {
    let message = serde_json::from_str::<serde_json::Value>("{not json")
        .unwrap_err()
        .to_string();
    let r = PasswordRepository::load("passwords.json", Some(Err(message.clone())));
    match r {
        Err(RepositoryError::Serialization(m)) => assert_eq!(m, message),
        _ => panic!("expected a serialization error"),
    }
}

#[test]
fn add_list_delete_end_to_end() {
    let repo = PasswordRepository::load("passwords.json", None).unwrap();
    let mut uc = PasswordUseCase::new(repo);
    let p = PasswordEntity::new(
        "id-1".to_string(),
        "example.com".to_string(),
        "example.com".to_string(),
        "u1".to_string(),
        String::new(),
        "secret1".to_string(),
    );
    assert!(same(&uc.add_password(&p).unwrap(), &p));
    let all = uc.get_all_passwords().unwrap();
    assert_eq!(all.len(), 1);
    assert_eq!(all[0].page_name, "example.com");
    assert_eq!(all[0].username, "u1");
    assert!(uc.delete_password("example.com", "u1").is_ok());
    assert!(uc.get_all_passwords().unwrap().is_empty());
    assert!(uc.repository().get_all().unwrap().is_empty());
}

#[test]
fn delete_unknown_key_is_not_found() {
    let mut repo = PasswordRepository::new("passwords.json");
    repo.save(&entity("A", "github", "alice", "pa")).unwrap();
    let mut uc = PasswordUseCase::new(repo);
    assert!(matches!(uc.delete_password("github", "bob"), Err(RepositoryError::NotFound)));
    assert_eq!(uc.get_all_passwords().unwrap().len(), 1);
}
