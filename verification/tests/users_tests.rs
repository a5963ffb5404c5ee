use verdaccio_control::{
    add_user_content, add_user_with_hash, change_user_password_content, delete_user_content,
    generate_htpasswd, parse_htpasswd, split_lines, users_from_htpasswd, UsersError,
};

#[test]
fn split_keeps_every_piece() {
    let lines = split_lines("a\nb\n\nc");
    assert_eq!(lines, vec!["a", "b", "", "c"]);
    let lines = split_lines("");
    assert_eq!(lines, vec![""]);
}

#[test]
fn parse_reads_colon_joined_lines() {
    let users = parse_htpasswd("alice:h1\nbob:h2");
    assert_eq!(
        users,
        vec![
            ("alice".to_string(), "h1".to_string()),
            ("bob".to_string(), "h2".to_string())
        ]
    );
}

#[test]
fn parse_skips_blanks_and_comments() {
    let users = parse_htpasswd("\n# a comment\n   \nalice:h1\n");
    assert_eq!(users, vec![("alice".to_string(), "h1".to_string())]);
}

#[test]
fn parse_trims_each_line() {
    let users = parse_htpasswd("  alice:h1  \r\n");
    assert_eq!(users, vec![("alice".to_string(), "h1".to_string())]);
}

#[test]
fn parse_keeps_the_last_hash_of_a_repeated_name() {
    let users = parse_htpasswd("alice:old\nbob:h2\nalice:new");
    assert_eq!(
        users,
        vec![
            ("alice".to_string(), "new".to_string()),
            ("bob".to_string(), "h2".to_string())
        ]
    );
}

#[test]
fn parse_splits_at_the_first_colon_only() {
    let users = parse_htpasswd("alice:$2b$12$abc:def");
    assert_eq!(
        users,
        vec![("alice".to_string(), "$2b$12$abc:def".to_string())]
    );
}

#[test]
fn parse_skips_lines_without_a_colon() {
    let users = parse_htpasswd("not-an-entry\nalice:h1");
    assert_eq!(users, vec![("alice".to_string(), "h1".to_string())]);
}

#[test]
fn generate_writes_one_line_per_account() {
    let users = vec![
        ("alice".to_string(), "h1".to_string()),
        ("bob".to_string(), "h2".to_string()),
    ];
    assert_eq!(generate_htpasswd(&users), "alice:h1\nbob:h2");
    assert_eq!(generate_htpasswd(&Vec::new()), "");
}

#[test]
fn parse_and_generate_round_trip() {
    let text = "alice:h1\nbob:h2\ncarol:h3";
    assert_eq!(generate_htpasswd(&parse_htpasswd(text)), text);
}

#[test]
fn listing_names_every_account() {
    let users = users_from_htpasswd("alice:h1\nbob:h2");
    assert_eq!(users.len(), 2);
    assert_eq!(users[0].username, "alice");
    assert!(users[0].created.is_none());
    assert_eq!(users[1].username, "bob");
}

#[test]
fn adding_a_user_stores_a_working_hash() {
    let out = add_user_content("alice:h1", "bob", "secret99").unwrap();
    let users = parse_htpasswd(&out);
    assert_eq!(users.len(), 2);
    assert_eq!(users[0].0, "alice");
    assert_eq!(users[1].0, "bob");
    assert!(bcrypt::verify("secret99", &users[1].1).unwrap());
    assert!(!bcrypt::verify("wrong", &users[1].1).unwrap());
}

#[test]
fn adding_with_a_given_hash_appends_the_pair() {
    let out = add_user_with_hash("", "alice", "h1").unwrap();
    assert_eq!(out, "alice:h1");
}

#[test]
fn adding_a_duplicate_user_is_rejected() {
    match add_user_content("alice:h1", "alice", "secret99") {
        Err(UsersError::UserExists(u)) => assert_eq!(u, "alice"),
        _ => panic!("a duplicate user must be rejected"),
    }
}

#[test]
fn user_name_validation() {
    assert!(matches!(
        add_user_content("", "", "secret99"),
        Err(UsersError::EmptyUsername)
    ));
    assert!(matches!(
        add_user_content("", "a:b", "secret99"),
        Err(UsersError::InvalidUsername)
    ));
    assert!(matches!(
        add_user_content("", "a\nb", "secret99"),
        Err(UsersError::InvalidUsername)
    ));
}

#[test]
fn password_validation() {
    assert!(matches!(
        add_user_content("", "alice", ""),
        Err(UsersError::EmptyPassword)
    ));
    assert!(matches!(
        add_user_content("", "alice", "abc"),
        Err(UsersError::PasswordTooShort)
    ));
}

#[test]
fn deleting_a_user_removes_its_line() {
    let out = delete_user_content("alice:h1\nbob:h2", "alice").unwrap();
    assert_eq!(out, "bob:h2");
}

#[test]
fn deleting_a_missing_user_is_rejected() {
    match delete_user_content("alice:h1", "bob") {
        Err(UsersError::UserNotFound(u)) => assert_eq!(u, "bob"),
        _ => panic!("deleting a missing user must be rejected"),
    }
}

#[test]
fn changing_a_password_replaces_the_hash_in_place() {
    let out = change_user_password_content("alice:h1\nbob:h2", "alice", "newpass").unwrap();
    let users = parse_htpasswd(&out);
    assert_eq!(users.len(), 2);
    assert_eq!(users[0].0, "alice");
    assert_eq!(users[1], ("bob".to_string(), "h2".to_string()));
    assert!(bcrypt::verify("newpass", &users[0].1).unwrap());
}

#[test]
fn changing_a_missing_users_password_is_rejected() {
    assert!(matches!(
        change_user_password_content("alice:h1", "bob", "newpass"),
        Err(UsersError::UserNotFound(_))
    ));
    assert!(matches!(
        change_user_password_content("alice:h1", "alice", "abc"),
        Err(UsersError::PasswordTooShort)
    ));
}

#[test]
fn users_error_messages_are_descriptive() {
    assert_eq!(
        UsersError::EmptyUsername.message(),
        "The user name must not be empty"
    );
    assert_eq!(
        UsersError::UserExists("alice".to_string()).message(),
        "User already exists: alice"
    );
    assert_eq!(
        UsersError::UserNotFound("bob".to_string()).message(),
        "User does not exist: bob"
    );
    assert_eq!(
        UsersError::HashFailed("cost".to_string()).message(),
        "Password hashing failed: cost"
    );
}
