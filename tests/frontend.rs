use pronote_client::homework::{month_label, parse_homework_date, DateError, DayDate, Page};
use pronote_client::query::{parse_target, route_api, ApiError, ApiRequest, HttpArgs};

#[test]
fn args_insert_and_get() {
    let mut args = HttpArgs::new();
    assert_eq!(args.get("name"), None);
    args.insert("name".to_string(), "maths".to_string());
    args.insert("level".to_string(), "3".to_string());
    assert_eq!(args.get("name"), Some("maths".to_string()));
    assert_eq!(args.get("level"), Some("3".to_string()));
    args.insert("name".to_string(), "physics".to_string());
    assert_eq!(args.get("name"), Some("physics".to_string()));
    assert_eq!(args.get("other"), None);
}

#[test]
fn root_target_is_index() {
    let (path, args) = parse_target("/");
    assert_eq!(path, "/index.html");
    assert_eq!(args.get(""), None);
}

#[test]
fn target_with_query() {
    let (path, args) = parse_target("/api/create_user?name=Jean%20Dupont&password=a%26b&flag&x=1=2");
    assert_eq!(path, "/api/create_user");
    assert_eq!(args.get("name"), Some("Jean Dupont".to_string()));
    assert_eq!(args.get("password"), Some("a&b".to_string()));
    assert_eq!(args.get("flag"), None);
    assert_eq!(args.get("x"), Some("1=2".to_string()));
}

#[test]
fn later_argument_wins() {
    let (path, args) = parse_target("/page?a=1&a=2");
    assert_eq!(path, "/page");
    assert_eq!(args.get("a"), Some("2".to_string()));
}

#[test]
fn target_without_query() {
    let (path, args) = parse_target("/classes.html");
    assert_eq!(path, "/classes.html");
    assert_eq!(args.get("a"), None);
}

#[test]
fn homework_date_label() {
    assert_eq!(
        parse_homework_date("lun.\u{a0}15\u{a0}mars"),
        Ok(DayDate { weekday: 1, day: 15, month: 2 })
    );
    assert_eq!(
        parse_homework_date("dim.\u{a0}+01\u{a0}déc.\u{a0}2024"),
        Ok(DayDate { weekday: 0, day: 1, month: 11 })
    );
}

#[test]
fn homework_date_errors() {
    assert_eq!(parse_homework_date("lundi\u{a0}15\u{a0}mars"), Err(DateError::InvalidWeekday("lundi".to_string())));
    assert_eq!(parse_homework_date("lun."), Err(DateError::MissingDay));
    assert_eq!(parse_homework_date("lun.\u{a0}x\u{a0}mars"), Err(DateError::InvalidDay));
    assert_eq!(parse_homework_date("lun.\u{a0}99999999999\u{a0}mars"), Err(DateError::InvalidDay));
    assert_eq!(parse_homework_date("lun.\u{a0}32\u{a0}mars"), Err(DateError::DayOutOfRange));
    assert_eq!(parse_homework_date("lun.\u{a0}0\u{a0}mars"), Err(DateError::DayOutOfRange));
    assert_eq!(parse_homework_date("lun.\u{a0}3"), Err(DateError::MissingMonth));
    assert_eq!(parse_homework_date("lun.\u{a0}3\u{a0}march"), Err(DateError::InvalidMonth("march".to_string())));
    assert_eq!(parse_homework_date("lun. 15 mars"), Err(DateError::InvalidWeekday("lun. 15 mars".to_string())));
}

#[test]
fn month_labels() {
    assert_eq!(month_label(2, 2024), Some("Mars 2024".to_string()));
    assert_eq!(month_label(1, 1999), Some("Février 1999".to_string()));
    assert_eq!(month_label(11, 2000), Some("Décembre 2000".to_string()));
    assert_eq!(month_label(12, 2024), None);
}

#[test]
fn pages_compare() {
    let d = DayDate { weekday: 2, day: 3, month: 4 };
    assert_eq!(Page::Homework(Some(d)), Page::Homework(Some(d)));
    assert_ne!(Page::Login, Page::Home);
}

#[test]
fn api_routes() {
    let (path, args) = parse_target("/api/create_class?name=6B");
    assert_eq!(route_api(&path, true, &args), Ok(ApiRequest::CreateClass { name: "6B".to_string() }));
    assert_eq!(route_api(&path, false, &args), Err(ApiError::BadRequest));
    let (path, args) = parse_target("/api/create_user/extra?name=ana&password=p%21");
    assert_eq!(
        route_api(&path, true, &args),
        Ok(ApiRequest::CreateUser { name: "ana".to_string(), password: "p!".to_string() })
    );
    let (path, args) = parse_target("/api/create_user?name=ana");
    assert_eq!(route_api(&path, true, &args), Err(ApiError::BadRequest));
    let (path, args) = parse_target("/api/delete?name=x");
    assert_eq!(route_api(&path, true, &args), Err(ApiError::BadRequest));
    let (path, args) = parse_target("/api/");
    assert_eq!(route_api(&path, true, &args), Err(ApiError::BadRequest));
}
