use udemy_dl::parser::Parser;
use udemy_dl::command::CommandContext;
use udemy_dl::download::{Download, DownloadParams};
use udemy_dl::error::UdemyError;
use udemy_dl::mocks::{MockFsHelper, MockParser};
use udemy_dl::json::JsonValue;
use udemy_dl::model::{Asset, Auth, Chapter, CourseContent, DownloadUrl, Lecture, LectureDetail};
use udemy_dl::test_data::{make_course, make_test_course_content};
use udemy_dl::udemy_helper::UdemyHelper;

fn url(label: &str, file: &str, media_type: &str) -> DownloadUrl {
    DownloadUrl { label: label.into(), file: file.into(), media_type: Some(media_type.into()) }
}

fn params(quality: Option<u64>) -> DownloadParams {
    DownloadParams {
        wanted_chapter: Some(1),
        wanted_lecture: Some(1),
        wanted_quality: quality,
        output: "~/Downloads".into(),
        dry_run: false,
        verbose: false,
    }
}

#[test]
fn download() {
    let fs_helper = MockFsHelper {};
    let mock_parser = MockParser::new();
    let udemy_helper = UdemyHelper::new(&fs_helper);
    let auth = Auth::with_token("blah");

    let mut context = CommandContext::new(
        "https://www.udemy.com/course/css-the-complete-guide-incl-flexbox-grid-sass",
        auth,
    )
    .unwrap();

    context.course = Some(make_course());
    context.course_content = Some(make_test_course_content());

    let mut download = Download::new();
    download.set_params(&params(None));

    let result = download.execute(&context, &udemy_helper);

    assert!(result.is_ok());
    let jobs = result.unwrap();
    assert_eq!(jobs.len(), 1);
    assert_eq!(jobs[0].chapter, 0);
    assert_eq!(jobs[0].target_dir, "~/Downloads/course/001 The Chapter");
    assert_eq!(jobs[0].lectures, vec![0]);

    let content = context.course_content.as_ref().unwrap();
    let lecture = &content.chapters[0].lectures[0];
    let job = download.download_lecture(&context, &udemy_helper, lecture, &jobs[0].target_dir);
    assert_eq!(job.target_filename, "~/Downloads/course/001 The Chapter/001 The Lecture.mp4");
    assert!(job.detail_url.starts_with(
        "https://www.udemy.com/api-2.0/users/me/subscribed-courses/54321/lectures/4321?fields[asset]=@min,download_urls"
    ));

    let detail = mock_parser.parse_lecture_detail(&JsonValue::Null).unwrap();
    let files = download.lecture_files(&detail, None).unwrap();
    assert_eq!(files.len(), 1);
    assert_eq!(files[0], "http://host-name/the-filename.mp4");
}

#[test]
fn execute_without_params_fails() {
    let fs_helper = MockFsHelper {};
    let udemy_helper = UdemyHelper::new(&fs_helper);
    let context = CommandContext::new("https://www.udemy.com/x", Auth::with_token("t")).unwrap();
    let download = Download::new();
    assert!(matches!(download.execute(&context, &udemy_helper), Err(UdemyError::MissingParams)));
}

#[test]
fn download_selects_wanted_chapters_and_video_lectures() {
    let lecture = |i: u64, video: bool| Lecture {
        id: 100 + i,
        object_index: i,
        title: format!("L{}", i),
        filename: "f.mp4".into(),
        has_video: video,
    };
    let content = CourseContent {
        chapters: vec![
            Chapter { object_index: 1, title: "One".into(), lectures: vec![lecture(1, true), lecture(2, false)] },
            Chapter { object_index: 2, title: "Two".into(), lectures: vec![lecture(3, true), lecture(4, true)] },
        ],
    };
    let fs_helper = MockFsHelper {};
    let helper = UdemyHelper::new(&fs_helper);
    let mut context = CommandContext::new("https://www.udemy.com/my-course", Auth::with_token("t")).unwrap();
    context.course_content = Some(content);
    let download = Download::new();
    let all = download.download(&context, &helper, None, None, "out");
    assert_eq!(all.len(), 2);
    assert_eq!(all[0].lectures, vec![0]);
    assert_eq!(all[1].lectures, vec![0, 1]);
    assert_eq!(all[1].target_dir, "out/my-course/002 Two");
    let second = download.download(&context, &helper, Some(2), Some(4), "out");
    assert_eq!(second.len(), 1);
    assert_eq!(second[0].chapter, 1);
    assert_eq!(second[0].lectures, vec![1]);
    let none = download.download(&context, &helper, Some(3), None, "out");
    assert!(none.is_empty());
}

#[test]
fn determine_quality_for_best() {
    let download_urls = vec![
        url("480", "the-file-video-480", "video/mp4"),
        url("720", "the-file-video-720", "video/mp4"),
        url("1720", "the-file-720", "other/mp4"),
    ];
    let wanted_quality = None;

    let mut download = Download::new();
    download.set_params(&params(None));

    let actual = download.determine_quality(&download_urls, wanted_quality);

    assert_eq!(actual.is_ok(), true);
    assert_eq!(actual.unwrap(), "720");
}

#[test]
fn determine_quality_for_wanted_480() {
    let download_urls = vec![
        url("480", "the-file-video-480", "video/mp4"),
        url("360", "the-file-video-360", "video/mp4"),
        url("720", "the-file-video-720", "video/mp4"),
        url("1720", "the-file-720", "other/mp4"),
    ];
    let wanted_quality = Some(480u64);
    let mut download = Download::new();
    download.set_params(&params(None));

    let actual = download.determine_quality(&download_urls, wanted_quality);

    assert_eq!(actual.is_ok(), true);
    assert_eq!(actual.unwrap(), "480");
}

#[test]
fn determine_quality_for_wanted_470() {
    let download_urls = vec![
        url("480", "the-file-video-480", "video/mp4"),
        url("360", "the-file-video-360", "video/mp4"),
        url("720", "the-file-video-720", "video/mp4"),
        url("1720", "the-file-720", "other/mp4"),
    ];
    let wanted_quality = Some(470u64);
    let mut download = Download::new();
    download.set_params(&params(None));

    let actual = download.determine_quality(&download_urls, wanted_quality);

    assert_eq!(actual.is_ok(), true);
    assert_eq!(actual.unwrap(), "480");
}

#[test]
fn determine_quality_without_candidates() {
    let download = Download::new();
    let urls = vec![url("720", "f", "other/mp4"), url("hd", "g", "video/mp4")];
    assert!(matches!(download.determine_quality(&urls, None), Err(UdemyError::NoQuality)));
    let urls = vec![url("480", "f", "video/mp4")];
    assert!(matches!(download.determine_quality(&urls, Some(720)), Err(UdemyError::NoQuality)));
    let no_type = vec![DownloadUrl { label: "720".into(), file: "f".into(), media_type: None }];
    assert!(matches!(download.determine_quality(&no_type, None), Err(UdemyError::NoQuality)));
}

#[test]
fn lecture_files_picks_exact_label() {
    let download = Download::new();
    let detail = LectureDetail {
        id: 1,
        title: "t".into(),
        asset: Asset {
            title: "a.mp4".into(),
            asset_type: "Video".into(),
            time_estimation: 1,
            download_urls: Some(vec![
                url("+720", "plus", "video/mp4"),
                url("720", "a", "video/mp4"),
                url("720", "b", "other"),
                url("720", "c", "video/mp4"),
                url("360", "d", "video/mp4"),
            ]),
        },
    };
    let files = download.lecture_files(&detail, None).unwrap();
    assert_eq!(files, vec!["a".to_string(), "c".to_string()]);
    let none = LectureDetail {
        id: 1,
        title: "t".into(),
        asset: Asset { title: "a".into(), asset_type: "Article".into(), time_estimation: 0, download_urls: None },
    };
    assert!(download.lecture_files(&none, Some(720)).unwrap().is_empty());
}
