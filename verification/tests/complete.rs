use udemy_dl::command::CommandContext;
use udemy_dl::complete::{Complete, CompleteParams};
use udemy_dl::error::UdemyError;
use udemy_dl::model::{Auth, CompleteRequest};
use udemy_dl::test_data::{make_course, make_test_course_content};

#[test]
fn complete() {
    let auth = Auth::with_token("blah");

    let mut context = CommandContext::new(
        "https://www.udemy.com/course/css-the-complete-guide-incl-flexbox-grid-sass",
        auth,
    )
    .unwrap();

    context.course = Some(make_course());
    context.course_content = Some(make_test_course_content());

    let mut complete = Complete::new();
    complete.set_params(&CompleteParams {
        wanted_chapter: 1,
        wanted_lecture: Some(1),
        verbose: false,
    });

    let result = complete.execute(&context);

    assert!(result.is_ok());
    let jobs = result.unwrap();
    assert_eq!(jobs.len(), 1);
    assert_eq!(jobs[0].lectures.len(), 1);
    let content = context.course_content.as_ref().unwrap();
    let lecture = &content.chapters[jobs[0].chapter].lectures[jobs[0].lectures[0]];
    let request = complete.complete_lecture(&context, lecture);
    assert_eq!(
        request.url,
        "https://www.udemy.com/api-2.0/users/me/subscribed-courses/54321/completed-lectures/"
    );
    assert_eq!(request.body, "{\"downloaded\":false,\"lecture_id\":4321}");
}

#[test]
fn complte() {}

#[test]
fn complete_without_params_fails() {
    let context = CommandContext::new("https://www.udemy.com/x", Auth::with_token("t")).unwrap();
    assert!(matches!(Complete::new().execute(&context), Err(UdemyError::MissingParams)));
}

#[test]
fn complete_other_chapter_marks_nothing() {
    let mut context = CommandContext::new("https://www.udemy.com/x", Auth::with_token("t")).unwrap();
    context.course_content = Some(make_test_course_content());
    let complete = Complete::new();
    assert!(complete.complete(&context, 2, None).is_empty());
    let all = complete.complete(&context, 1, None);
    assert_eq!(all[0].lectures, vec![0]);
    assert!(complete.complete(&context, 1, Some(9))[0].lectures.is_empty());
}

#[test]
fn complete_request_json_body() {
    let r = CompleteRequest { lecture_id: 0, downloaded: true };
    assert_eq!(r.to_json(), "{\"downloaded\":true,\"lecture_id\":0}");
}
