use udemy_dl::parser::Parser;
use udemy_dl::error::UdemyError;
use udemy_dl::json::{JsonNumber, JsonValue};
use udemy_dl::parser::{decode_course, decode_download_url, UdemyParser};

fn obj(entries: Vec<(&str, JsonValue)>) -> JsonValue {
    JsonValue::Object(entries.into_iter().map(|(k, v)| (k.to_string(), v)).collect())
}

fn s(t: &str) -> JsonValue {
    JsonValue::String(t.to_string())
}

fn n(v: u64) -> JsonValue {
    JsonValue::Number(JsonNumber::PosInt(v))
}

fn dl(label: &str) -> JsonValue {
    obj(vec![
        ("type", s("video/mp4")),
        ("file", s(&format!("https://host/{}.mp4", label))),
        ("label", s(label)),
    ])
}

fn asset(download_urls: JsonValue) -> JsonValue {
    obj(vec![
        ("title", s("getting-started-01-welcome.mp4")),
        ("asset_type", s("Video")),
        ("time_estimation", n(753)),
        ("download_urls", download_urls),
    ])
}

#[test]
fn asset_with_videos() {
    let a = asset(obj(vec![(
        "Video",
        JsonValue::Array(vec![dl("720"), dl("480"), dl("360"), dl("144")]),
    )]));
    let parser = UdemyParser::new();
    assert!(!parser.rejects_asset(&a));
    let actual = parser.parse_asset(&a).unwrap();
    assert_eq!(actual.asset_type, "Video");
    assert_eq!(actual.time_estimation, 753);
    let urls = actual.download_urls.as_ref().unwrap();
    assert_eq!(urls.len(), 4);
    assert_eq!(urls[0].media_type.as_deref(), Some("video/mp4"));
    assert_eq!(urls[0].file, "https://host/720.mp4");
    let labels: Vec<&str> = urls.iter().map(|u| u.label.as_str()).collect();
    assert_eq!(labels, vec!["720", "480", "360", "144"]);
}

#[test]
fn asset_download_url_variants() {
    let parser = UdemyParser::new();
    let file = asset(obj(vec![("File", JsonValue::Array(vec![obj(vec![
        ("file", s("f.pdf")),
        ("label", s("download")),
    ])]))]));
    let parsed = parser.parse_asset(&file).unwrap();
    let urls = parsed.download_urls.unwrap();
    assert_eq!(urls[0].media_type, None);
    assert_eq!(urls[0].label, "download");
    assert!(parser.parse_asset(&asset(JsonValue::Null)).unwrap().download_urls.is_none());
    assert!(parser.parse_asset(&asset(obj(vec![]))).unwrap().download_urls.is_none());
    let no_urls = obj(vec![
        ("title", s("t")),
        ("asset_type", s("Article")),
        ("time_estimation", n(0)),
    ]);
    assert!(matches!(parser.parse_asset(&no_urls), Err(UdemyError::JsonFormat)));
    let no_title = obj(vec![("asset_type", s("Video"))]);
    assert!(matches!(parser.parse_asset(&no_title), Err(UdemyError::Json(k)) if k == "title"));
    let bad = asset(obj(vec![("Video", s("not a list"))]));
    assert!(parser.rejects_asset(&bad));
    let detail = obj(vec![("asset", bad)]);
    assert!(parser.rejects_lecture_detail(&detail));
}

#[test]
fn decoding_follows_field_rules() {
    let array_form = JsonValue::Array(vec![JsonValue::Null, s("f"), s("720")]);
    let u = decode_download_url(&array_form).unwrap();
    assert_eq!(u.media_type, None);
    assert_eq!(u.label, "720");
    assert!(decode_download_url(&JsonValue::Array(vec![s("t"), s("f")])).is_none());
    assert!(decode_download_url(&obj(vec![("type", n(1)), ("file", s("f")), ("label", s("l"))])).is_none());
    assert!(decode_download_url(&obj(vec![("type", JsonValue::Null), ("file", s("f")), ("label", s("l")), ("extra", n(3))])).is_some());
    assert!(decode_course(&JsonValue::Array(vec![n(1), s("u"), s("t")])).is_some());
    assert!(decode_course(&obj(vec![("id", JsonValue::Number(JsonNumber::NegInt(-1))), ("url", s("u")), ("published_title", s("t"))])).is_none());
    assert!(decode_course(&s("course")).is_none());
}

fn course(id: u64, title: &str) -> JsonValue {
    obj(vec![
        ("_class", s("course")),
        ("id", n(id)),
        ("url", s("/x/")),
        ("published_title", s(title)),
    ])
}

#[test]
fn subscribed_courses_skip_undecodable() {
    let v = obj(vec![(
        "results",
        JsonValue::Array(vec![
            course(1561458, "a"),
            obj(vec![("id", n(5))]),
            course(995016, "b"),
            course(1362070, "c"),
        ]),
    )]);
    let parser = UdemyParser::new();
    let ids: Vec<u64> =
        parser.parse_subscribed_courses(&v).unwrap().into_iter().map(|c| c.id).collect();
    assert_eq!(ids, vec![1561458, 995016, 1362070]);
    assert!(matches!(parser.parse_subscribed_courses(&obj(vec![])), Err(UdemyError::JsonFormat)));
    assert!(matches!(
        parser.parse_subscribed_courses(&obj(vec![("results", n(1))])),
        Err(UdemyError::JsonFormat)
    ));
}

fn chapter(index: u64, title: &str) -> JsonValue {
    obj(vec![("_class", s("chapter")), ("object_index", n(index)), ("title", s(title))])
}

fn lecture(id: u64, index: u64, title: &str, asset_type: &str) -> JsonValue {
    obj(vec![
        ("_class", s("lecture")),
        ("id", n(id)),
        ("object_index", n(index)),
        ("title", s(title)),
        ("asset", obj(vec![("title", s("file.mp4")), ("asset_type", s(asset_type))])),
    ])
}

#[test]
fn course_content_groups_lectures_under_chapters() {
    let v = obj(vec![(
        "results",
        JsonValue::Array(vec![
            lecture(1, 1, "Before", "Video"),
            chapter(1, "Getting Started"),
            lecture(2, 1, "Course Introduction", "Video"),
            obj(vec![("_class", s("quiz")), ("title", s("Q"))]),
            lecture(3, 2, "What Is Ionic?", "Article"),
            chapter(2, "Angular Refresher"),
            chapter(3, "Empty"),
            lecture(4, 3, "Last", "Video"),
        ]),
    )]);
    let parser = UdemyParser::new();
    let content = parser.parse_course_content(&v).unwrap();
    assert_eq!(content.chapters.len(), 3);
    assert_eq!(content.chapters[0].object_index, 1);
    assert_eq!(content.chapters[0].title, "Getting Started");
    assert_eq!(content.chapters[0].lectures.len(), 2);
    assert_eq!(content.chapters[0].lectures[0].title, "Course Introduction");
    assert_eq!(content.chapters[0].lectures[0].filename, "file.mp4");
    assert!(content.chapters[0].lectures[0].has_video);
    assert!(!content.chapters[0].lectures[1].has_video);
    assert_eq!(content.chapters[1].title, "Angular Refresher");
    assert!(content.chapters[1].lectures.is_empty());
    assert_eq!(content.chapters[2].lectures[0].id, 4);
}

#[test]
fn course_content_reports_first_error() {
    let parser = UdemyParser::new();
    let v = obj(vec![(
        "results",
        JsonValue::Array(vec![
            chapter(1, "ok"),
            obj(vec![("_class", s("lecture")), ("id", n(1))]),
            obj(vec![("_class", s("chapter")), ("title", s("no index"))]),
        ]),
    )]);
    assert!(matches!(parser.parse_course_content(&v), Err(UdemyError::Json(k)) if k == "asset"));
    let v = obj(vec![(
        "results",
        JsonValue::Array(vec![obj(vec![("_class", s("chapter")), ("title", s("no index"))])]),
    )]);
    assert!(matches!(parser.parse_course_content(&v), Err(UdemyError::Json(k)) if k == "object_index"));
    assert!(matches!(parser.parse_course_content(&obj(vec![])), Err(UdemyError::JsonFormat)));
    let empty = obj(vec![("results", JsonValue::Array(vec![]))]);
    assert!(parser.parse_course_content(&empty).unwrap().chapters.is_empty());
}

#[test]
fn lecture_detail_reads_asset_then_fields() {
    let parser = UdemyParser::new();
    let item = obj(vec![
        ("id", n(42)),
        ("title", s("Welcome")),
        ("asset", asset(obj(vec![("Video", JsonValue::Array(vec![dl("720")]))]))),
    ]);
    assert!(!parser.rejects_lecture_detail(&item));
    let detail = parser.parse_lecture_detail(&item).unwrap();
    assert_eq!(detail.id, 42);
    assert_eq!(detail.title, "Welcome");
    assert_eq!(detail.asset.download_urls.unwrap().len(), 1);
    let no_asset = obj(vec![("id", n(42))]);
    assert!(matches!(parser.parse_lecture_detail(&no_asset), Err(UdemyError::Json(k)) if k == "assets"));
    let no_id = obj(vec![("asset", asset(JsonValue::Null))]);
    assert!(matches!(parser.parse_lecture_detail(&no_id), Err(UdemyError::Json(k)) if k == "id"));
}
