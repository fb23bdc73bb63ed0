//! A small course to try commands on.

use vstd::prelude::*;

use crate::model::{Chapter, ChapterView, Course, CourseContent, CourseView, Lecture, LectureView};

verus! {

/// The course of the sample data.
pub open spec fn sample_course() -> CourseView {
    CourseView {
        id: 54321,
        url: "the-url"@,
        published_title: "css-the-complete-guide-incl-flexbox-grid-sass"@,
    }
}

/// The only lecture of the sample course.
pub open spec fn sample_lecture() -> LectureView {
    LectureView {
        id: 4321,
        object_index: 1,
        title: "The Lecture"@,
        filename: "blah-blah.mp4"@,
        has_video: true,
    }
}

/// The content of the sample course: one chapter with one lecture.
pub open spec fn sample_course_content() -> Seq<ChapterView> {
    seq![ChapterView { object_index: 1, title: "The Chapter"@, lectures: seq![sample_lecture()] }]
}

pub fn make_course() -> (res: Course)
    ensures
        res@ == sample_course(),
{
    Course {
        id: 54321,
        url: "the-url".to_owned(),
        published_title: "css-the-complete-guide-incl-flexbox-grid-sass".to_owned(),
    }
}

pub fn make_test_course_content() -> (res: CourseContent)
    ensures
        res@ == sample_course_content(),
{
    let lecture = Lecture {
        has_video: true,
        filename: "blah-blah.mp4".to_owned(),
        id: 4321,
        object_index: 1,
        title: "The Lecture".to_owned(),
    };
    let mut lectures: Vec<Lecture> = Vec::new();
    lectures.push(lecture);
    let chapter = Chapter { object_index: 1, title: "The Chapter".to_owned(), lectures };
    let mut chapters: Vec<Chapter> = Vec::new();
    chapters.push(chapter);
    let res = CourseContent { chapters };
    assert(res@ =~= sample_course_content()) by {
        assert(res.chapters@[0].lectures@.map_values(|l: Lecture| l@) =~= seq![sample_lecture()]);
    }
    res
}

} // verus!
