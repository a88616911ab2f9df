use pty_session::profiles::find_profile;
use pty_session::profiles::split_csv_fields;
use pty_session::profiles::trim_blanks;
use pty_session::profiles::profile_from_fields;
use pty_session::profiles::touch_profile;
use pty_session::profiles::upsert_profile;
use pty_session::profiles::ProfileRecord;

fn record(id: &str, name: &str) -> ProfileRecord {
    ProfileRecord {
        id: id.to_string(),
        name: name.to_string(),
        host: "example.com".to_string(),
        user: None,
        port: Some(22),
        password: None,
        tags: Vec::new(),
        favorite: false,
        last_used_at: None,
    }
}

#[test]
fn upsert_appends_a_new_profile() {
    let mut profiles = vec![record("a", "first")];
    upsert_profile(&mut profiles, record("b", "second"));
    assert_eq!(profiles.len(), 2);
    assert_eq!(profiles[0].id, "a");
    assert_eq!(profiles[1].id, "b");
    assert_eq!(profiles[1].name, "second");
}

#[test]
fn upsert_replaces_in_place_keeping_order() {
    let mut profiles = vec![record("a", "first"), record("b", "second"), record("c", "third")];
    upsert_profile(&mut profiles, record("b", "renamed"));
    assert_eq!(profiles.len(), 3);
    assert_eq!(profiles[0].name, "first");
    assert_eq!(profiles[1].name, "renamed");
    assert_eq!(profiles[2].name, "third");
}

#[test]
fn find_returns_the_first_match() {
    let profiles = vec![record("a", "first"), record("b", "second")];
    assert_eq!(find_profile(&profiles, &"b".to_string()), Some(1));
    assert_eq!(find_profile(&profiles, &"missing".to_string()), None);
}

#[test]
fn touch_sets_only_the_last_use_time() {
    let mut profiles = vec![record("a", "first"), record("b", "second")];
    assert!(touch_profile(&mut profiles, &"b".to_string(), 1700000000));
    assert_eq!(profiles[1].last_used_at, Some(1700000000));
    assert_eq!(profiles[1].name, "second");
    assert_eq!(profiles[0].last_used_at, None);
    assert!(!touch_profile(&mut profiles, &"missing".to_string(), 1700000000));
}

#[test]
fn csv_fields_build_a_profile_with_defaults() {
    let fields = vec!["web".to_string(), "web.example.com".to_string()];
    let p = profile_from_fields("id-1".to_string(), &fields).unwrap();
    assert_eq!(p.id, "id-1");
    assert_eq!(p.name, "web");
    assert_eq!(p.host, "web.example.com");
    assert_eq!(p.user, None);
    assert_eq!(p.password, None);
    assert_eq!(p.port, Some(22));
    assert!(p.tags.is_empty());
    assert!(!p.favorite);
    assert_eq!(p.last_used_at, None);
}

#[test]
fn csv_fields_keep_nonempty_user_and_password() {
    let fields = vec![
        "web".to_string(),
        "web.example.com".to_string(),
        "alice".to_string(),
        "pw".to_string(),
    ];
    let p = profile_from_fields("id-2".to_string(), &fields).unwrap();
    assert_eq!(p.user.as_deref(), Some("alice"));
    assert_eq!(p.password.as_deref(), Some("pw"));
}

#[test]
fn csv_fields_treat_empty_optionals_as_absent() {
    let fields = vec![
        "web".to_string(),
        "web.example.com".to_string(),
        "".to_string(),
        "".to_string(),
    ];
    let p = profile_from_fields("id-3".to_string(), &fields).unwrap();
    assert_eq!(p.user, None);
    assert_eq!(p.password, None);
}

#[test]
fn csv_with_too_few_fields_is_rejected() {
    let fields = vec!["only-name".to_string()];
    assert_eq!(
        profile_from_fields("id-4".to_string(), &fields),
        Err("Expected format: name,host,user,password(optional)")
    );
}

#[test]
fn csv_line_splits_on_commas_and_trims_blanks() {
    assert_eq!(
        split_csv_fields(" web , web.example.com ,alice,\tpw "),
        vec!["web", "web.example.com", "alice", "pw"]
    );
    assert_eq!(split_csv_fields(""), vec![""]);
    assert_eq!(split_csv_fields("a,,b,"), vec!["a", "", "b", ""]);
    let line = "  name\t,host ,  ,x";
    let expected: Vec<String> = line.split(',').map(|f| f.trim().to_owned()).collect();
    assert_eq!(split_csv_fields(line), expected);
}

#[test]
fn trim_blanks_strips_both_ends_only() {
    assert_eq!(trim_blanks("  a b \t"), "a b");
    assert_eq!(trim_blanks("\r\n"), "");
    assert_eq!(trim_blanks("plain"), "plain");
}

#[test]
fn trim_blanks_covers_unicode_whitespace() {
    let padded = "\u{00A0}\u{2003}name\u{3000}\u{202F}";
    assert_eq!(trim_blanks(padded), padded.trim());
    assert_eq!(trim_blanks(padded), "name");
}
