use roadiebag::accounts::{get_user, load_user, login, login_outcome, signup, signup_problem, SQLUser, UserDirectory};
use roadiebag::auth::User;
use roadiebag::errors::RoadieAppError;

fn field(e: RoadieAppError) -> String {
    match e {
        RoadieAppError::ValidationFailedForField(f) => f,
        other => panic!("unexpected {:?}", other),
    }
}

#[test]
fn signup_refusals() {
    let mut dir = UserDirectory::new();
    assert_eq!(field(signup(&mut dir, "  ", "pw", "pw").unwrap_err()), "username");
    assert_eq!(field(signup(&mut dir, "scott", " ", " ").unwrap_err()), "password");
    assert_eq!(field(signup(&mut dir, "scott", "pw", "px").unwrap_err()), "password");
    assert!(load_user(&dir, 1).anonymous);
    assert!(signup_problem("scott", "pw", "pw", "pw", false).is_none());
    assert_eq!(field(signup_problem("scott", "pw", "pw", "pw", true).unwrap()), "username");
}

#[test]
fn signup_then_duplicate_and_login() {
    let mut dir = UserDirectory::new();
    assert_eq!(signup(&mut dir, "Scott", "secret", "secret"), Ok(()));
    assert_eq!(field(signup(&mut dir, " scott ", "other", "other").unwrap_err()), "username");
    let u = load_user(&dir, 1);
    assert_eq!(u.username, "scott");
    assert!(!u.anonymous);
    let guest = User::default();
    assert_eq!(login(&dir, &guest, "SCOTT", "wrong"), Err(RoadieAppError::BadUserPassword));
    assert_eq!(login(&dir, &guest, "nobody", "secret"), Err(RoadieAppError::BadUserPassword));
    assert_eq!(login(&dir, &u, "nobody", "x"), Ok(u.clone()));
    assert_eq!(login(&dir, &guest, " Scott", "secret"), Ok(u.clone()));
}

#[test]
fn login_answers() {
    let row = SQLUser { id: 5, username: "ann".to_string(), password: "not a hash".to_string() };
    let me = login_outcome(&row, Some(true)).unwrap();
    assert_eq!(me, User { id: 5, username: "ann".to_string(), anonymous: false });
    assert_eq!(login_outcome(&row, Some(false)), Err(RoadieAppError::BadUserPassword));
    assert!(matches!(login_outcome(&row, None), Err(RoadieAppError::ServerError(_))));
    assert_eq!(get_user(None), User::default());
    assert_eq!(get_user(Some(me.clone())), me);
    assert_eq!(User::from(row), me);
}
