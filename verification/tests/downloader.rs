use udemy_dl::parser::Parser;
use udemy_dl::command::CommandContext;
use udemy_dl::downloader::{UdemyDownloader, LOGIN_URL};
use udemy_dl::error::UdemyError;
use udemy_dl::mocks::MockParser;
use udemy_dl::json::JsonValue;
use udemy_dl::model::{Auth, Course};
use udemy_dl::test_data::make_test_course_content;

#[test]
fn parse_url() {
    let auth = Auth::with_token("blah");

    let context = CommandContext::new(
        "https://www.udemy.com/css-the-complete-guide-incl-flexbox-grid-sass",
        auth,
    )
    .unwrap();
    assert_eq!(
        context.course_name,
        "css-the-complete-guide-incl-flexbox-grid-sass"
    );
    assert_eq!(context.portal_name, "www");
}

#[test]
fn parse_url_of_other_portal_and_bad_urls() {
    let context =
        CommandContext::new("HTTPS://acme.UDEMY.com/Some_Course-1/learn", Auth::with_token("t"))
            .unwrap();
    assert_eq!(context.course_name, "Some_Course-1");
    assert_eq!(context.portal_name, "acme");
    assert!(matches!(
        CommandContext::new("https://example.com/course", Auth::with_token("t")),
        Err(UdemyError::InvalidUrl(u)) if u == "https://example.com/course"
    ));
    assert!(matches!(
        CommandContext::from_captures("u", Some(None), Some(Some("p".into())), Auth::with_token("t")),
        Err(UdemyError::NoCourseName(_))
    ));
    assert!(matches!(
        CommandContext::from_captures("u", Some(Some("c".into())), Some(None), Auth::with_token("t")),
        Err(UdemyError::NoPortalName(_))
    ));
}

fn downloader(token: Option<&str>) -> UdemyDownloader {
    let auth = match token {
        Some(t) => Auth::with_token(t),
        None => Auth::with_username_password("me@example.com", "secret"),
    };
    let context =
        CommandContext::new("https://www.udemy.com/css-the-complete-guide-incl-flexbox-grid-sass", auth)
            .unwrap();
    UdemyDownloader::new(context)
}

#[test]
fn subscribed_course_lookup() {
    let d = downloader(Some("t"));
    assert_eq!(
        d.get_subscribed_course_url(),
        "https://www.udemy.com/api-2.0/users/me/subscribed-courses?fields[course]=id,url,published_title&page=1&page_size=1000&ordering=-access_time&search=css-the-complete-guide-incl-flexbox-grid-sass"
    );
    let courses = MockParser::new().parse_subscribed_courses(&JsonValue::Null).unwrap();
    let course = d.get_subscribed_course(courses).unwrap();
    assert_eq!(course.id, 54321);
    let other = vec![
        Course { id: 1, url: "u".into(), published_title: "other".into() },
        Course { id: 2, url: "u".into(), published_title: "css-the-complete-guide-incl-flexbox-grid-sass".into() },
        Course { id: 3, url: "u".into(), published_title: "css-the-complete-guide-incl-flexbox-grid-sass".into() },
    ];
    assert_eq!(d.get_subscribed_course(other).unwrap().id, 2);
    assert!(matches!(
        d.get_subscribed_course(vec![]),
        Err(UdemyError::CourseNotFound(n)) if n == "css-the-complete-guide-incl-flexbox-grid-sass"
    ));
    assert!(d.get_info_url(&course).starts_with(
        "https://www.udemy.com/api-2.0/courses/54321/subscriber-curriculum-items/?page_size=1400"
    ));
}

#[test]
fn authenticate_keeps_first_token() {
    let mut d = downloader(None);
    assert!(d.needs_login());
    assert!(LOGIN_URL.starts_with("https://www.udemy.com/api-2.0/auth/udemy-auth/login/"));
    d.authenticate("first".into());
    assert!(!d.needs_login());
    d.authenticate("second".into());
    assert_eq!(d.command_context.auth.access_token.as_deref(), Some("first"));

    let mut t = downloader(Some("given"));
    assert!(!t.needs_login());
    t.authenticate("ignored".into());
    assert_eq!(t.command_context.auth.access_token.as_deref(), Some("given"));
}

#[test]
fn prepare_course_info_keeps_course() {
    let mut d = downloader(Some("t"));
    let course = Course { id: 7, url: "u".into(), published_title: "p".into() };
    d.prepare_course_info(course, make_test_course_content());
    assert_eq!(d.command_context.course.as_ref().unwrap().id, 7);
    assert_eq!(d.command_context.course_content.as_ref().unwrap().chapters.len(), 1);
}

#[test]
fn parse_info_reads_curriculum_text() {
    let d = downloader(Some("t"));
    let parser = udemy_dl::parser::UdemyParser::new();
    let text = r#"{"results": [
        {"_class": "chapter", "object_index": 1, "title": "Getting Started"},
        {"_class": "lecture", "id": 7, "object_index": 1, "title": "Intro",
         "asset": {"title": "intro.mp4", "asset_type": "Video"}},
        {"_class": "quiz", "title": "Q"}
    ]}"#;
    let content = d.parse_info(&parser, text).unwrap();
    assert_eq!(content.chapters.len(), 1);
    assert_eq!(content.chapters[0].title, "Getting Started");
    assert_eq!(content.chapters[0].lectures[0].id, 7);
    assert!(content.chapters[0].lectures[0].has_video);
    assert!(matches!(d.parse_info(&parser, "not json"), Err(UdemyError::InvalidJson)));
    assert!(matches!(d.parse_info(&parser, "{}"), Err(UdemyError::JsonFormat)));
    let unclassified = r#"{"results": [{"title": "no class"}]}"#;
    assert!(d.parse_info_checked(&parser, unclassified).is_none());
    assert!(d.parse_info_checked(&parser, text).unwrap().is_ok());
}

#[test]
fn json_text_is_read_node_for_node() {
    let v = udemy_dl::json::parse_json_text(r#"{"b": [1, -2, 2.5, null, true], "a": "x"}"#).unwrap();
    assert_eq!(v.get("a").unwrap().as_str(), Some("x"));
    let items = v.get("b").unwrap().as_array().unwrap();
    assert_eq!(items[0].as_u64(), Some(1));
    assert!(matches!(items[1], JsonValue::Number(udemy_dl::json::JsonNumber::NegInt(-2))));
    assert!(matches!(items[2], JsonValue::Number(udemy_dl::json::JsonNumber::NonInteger)));
    assert!(items[3].is_null());
    assert!(matches!(items[4], JsonValue::Bool(true)));
    assert!(udemy_dl::json::parse_json_text("{").is_none());
}
