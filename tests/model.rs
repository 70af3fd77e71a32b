use roadiebag::auth::User;
use roadiebag::errors::{flatten_pending, flatten_result, IntoRoadie, IntoRoadieOption, RoadieAppError, RoadieResult};
use roadiebag::model::ItemSize;
use roadiebag::query::{contains_text, page_window};

#[test]
fn size_codes() {
    assert_eq!(ItemSize::from(0u8), ItemSize::Small);
    assert_eq!(ItemSize::from(1u8), ItemSize::Medium);
    assert_eq!(ItemSize::from(2u8), ItemSize::Large);
    assert_eq!(ItemSize::from(3u8), ItemSize::Unknown);
    assert_eq!(ItemSize::from(99u8), ItemSize::Unknown);
    let codes: Vec<u8> = vec![ItemSize::Small.into(), ItemSize::Medium.into(), ItemSize::Large.into(), ItemSize::Unknown.into()];
    assert_eq!(codes, vec![0, 1, 2, 99]);
    assert_eq!(ItemSize::default(), ItemSize::Unknown);
    assert_eq!(ItemSize::Large.name(), "Large");
}

#[test]
fn error_status_and_text() {
    assert_eq!(RoadieAppError::NotFound.status_code(), 404);
    assert_eq!(RoadieAppError::Unauthorized.status_code(), 401);
    assert_eq!(RoadieAppError::BadUserPassword.status_code(), 401);
    assert_eq!(RoadieAppError::ItemQntGtZero.status_code(), 417);
    assert_eq!(RoadieAppError::ServerError("x".to_string()).status_code(), 500);
    assert_eq!(RoadieAppError::SignupsNotEnabled.status_code(), 400);
    assert_eq!(RoadieAppError::NotFound.message(), "Not Found");
    assert_eq!(
        RoadieAppError::ValidationFailedForField("name".to_string()).message(),
        "Validation failed for field name"
    );
    assert_eq!(RoadieAppError::ServerError("down".to_string()).message(), "Server error down");
}

#[test]
fn transport_results_flatten() {
    let ok: Result<RoadieResult<i32>, String> = Ok(Ok(3));
    assert_eq!(ok.into_rr(), Ok(3));
    let inner: Result<RoadieResult<i32>, String> = Ok(Err(RoadieAppError::NotFound));
    assert_eq!(flatten_result(inner), Err(RoadieAppError::NotFound));
    let outer: Result<RoadieResult<i32>, String> = Err("lost".to_string());
    assert_eq!(outer.into_rr(), Err(RoadieAppError::ServerError("lost".to_string())));
}

#[test]
fn substring_matching() {
    assert!(contains_text("Blue tent", "tent"));
    assert!(contains_text("Blue tent", ""));
    assert!(contains_text("tent", "tent"));
    assert!(!contains_text("Blue tent", "Tent"));
    assert!(!contains_text("te", "tent"));
    assert!(contains_text("caffè latte", "è l"));
}

#[test]
fn pager_window() {
    assert_eq!(page_window(1, 10), (1, 3));
    assert_eq!(page_window(5, 10), (3, 7));
    assert_eq!(page_window(9, 10), (7, 10));
    assert_eq!(page_window(2, 1), (0, 1));
}

#[test]
fn guest_and_letters() {
    let g = User::default();
    assert_eq!(g.id, -1);
    assert_eq!(g.username, "Guest");
    assert!(g.is_anonymous());
    assert!(!g.is_authenticated());
    let u = User { id: 3, username: "scott".to_string(), anonymous: false };
    assert_eq!(u.user_first_letter(), 'S');
    let e = User { id: 4, username: String::new(), anonymous: false };
    assert_eq!(e.user_first_letter(), 'A');
}

#[test]
fn pending_results_flatten() {
    let none: Option<Result<RoadieResult<i32>, String>> = None;
    assert_eq!(IntoRoadieOption::into_rr(none), None);
    let lost: Option<Result<RoadieResult<i32>, String>> = Some(Err("lost".to_string()));
    assert_eq!(flatten_pending(lost), Some(Err(RoadieAppError::ServerError("lost".to_string()))));
    let ok: Option<Result<RoadieResult<i32>, String>> = Some(Ok(Ok(1)));
    assert_eq!(IntoRoadieOption::into_rr(ok), Some(Ok(1)));
}
