use udemy_dl::parser::Parser;
use udemy_dl::command::CommandContext;
use udemy_dl::complete::{Complete, CompleteParams};
use udemy_dl::download::Download;
use udemy_dl::downloader::{Command, CommandPlan, UdemyDownloader};
use udemy_dl::error::UdemyError;
use udemy_dl::json::JsonValue;
use udemy_dl::mocks::{MockFsHelper, MockParser};
use udemy_dl::udemy_helper::UdemyHelper;
use udemy_dl::info::{Info, InfoParams};
use udemy_dl::model::Auth;
use udemy_dl::test_data::{make_course, make_test_course_content};

#[test]
fn info() {
    let auth = Auth::with_token("blah");

    let mut context = CommandContext::new(
        "https://www.udemy.com/css-the-complete-guide-incl-flexbox-grid-sass",
        auth,
    )
    .unwrap();

    context.course = Some(make_course());
    context.course_content = Some(make_test_course_content());
    let downloader = UdemyDownloader::new(context);

    let mut info = Info::new();
    info.set_params(&InfoParams { verbose: true });

    let result = info.execute(&downloader.command_context, &vec![]);

    assert!(result.is_ok());
    assert_eq!(
        result.unwrap(),
        vec!["001 Chapter The Chapter".to_string(), "\t001 Lecture The Lecture".to_string()]
    );
}

#[test]
fn info_shows_resolutions() {
    let mut context = CommandContext::new("https://www.udemy.com/c", Auth::with_token("t")).unwrap();
    context.course = Some(make_course());
    context.course_content = Some(make_test_course_content());
    let downloader = UdemyDownloader::new(context);
    let info = Info::new();
    let mock = MockParser::new();
    let detail = mock.parse_lecture_detail(&JsonValue::Null).unwrap();
    let qualities = info.lecture_resolutions(&detail);
    assert_eq!(qualities, vec![720]);
    let lines = info.execute(&downloader.command_context, &vec![vec![qualities]]).unwrap();
    assert_eq!(lines, vec!["001 Chapter The Chapter".to_string(), "\t001 Lecture The Lecture (720p)".to_string()]);
    let lines = info.execute(&downloader.command_context, &vec![vec![vec![1080, 720, 360]]]).unwrap();
    assert_eq!(lines[1], "\t001 Lecture The Lecture (1080p, 720p, 360p)");
    let plan = downloader
        .execute(&Command::Info(Info::new()), &UdemyHelper::new(&MockFsHelper {}), &vec![vec![vec![480]]])
        .unwrap();
    match plan {
        CommandPlan::Info(lines) => assert_eq!(lines[1], "\t001 Lecture The Lecture (480p)"),
        _ => panic!("not an info plan"),
    }
    assert!(downloader.get_lecture_detail_url(&make_test_course_content().chapters[0].lectures[0])
        .starts_with("https://www.udemy.com/api-2.0/users/me/subscribed-courses/54321/lectures/4321?"));
}

#[test]
fn dispatch_download_and_complete() {
    let mut context = CommandContext::new("https://www.udemy.com/c", Auth::with_token("t")).unwrap();
    context.course = Some(make_course());
    context.course_content = Some(make_test_course_content());
    let downloader = UdemyDownloader::new(context);
    let helper = UdemyHelper::new(&MockFsHelper {});
    assert!(matches!(
        downloader.execute(&Command::Download(Download::new()), &helper, &vec![]),
        Err(UdemyError::MissingParams)
    ));
    let mut complete = Complete::new();
    complete.set_params(&CompleteParams { wanted_chapter: 1, wanted_lecture: None, verbose: false });
    match downloader.execute(&Command::Complete(complete), &helper, &vec![]).unwrap() {
        CommandPlan::Complete(jobs) => assert_eq!(jobs[0].lectures, vec![0]),
        _ => panic!("not a complete plan"),
    }
    assert!(helper.create_target_dir("x").is_ok());
}
