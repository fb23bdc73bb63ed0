//! Stand-ins for the parser and the file system, answering with the sample
//! data.

use vstd::prelude::*;

use crate::error::{ErrorView, UdemyError};
use crate::json::JsonValue;
use crate::model::{
    Asset, CourseContent, Course, DownloadUrl, DownloadUrlView, LectureDetail, LectureDetailView,
    AssetView, download_urls_view,
};
use crate::test_data::{make_course, make_test_course_content, sample_course, sample_course_content};
use crate::parser::Parser;
use crate::udemy_helper::FsHelper;

verus! {

/// The lecture detail that the stand-in parser gives: one MP4 video in
/// quality 720.
pub open spec fn sample_lecture_detail() -> LectureDetailView {
    LectureDetailView {
        id: 4321,
        title: "The Lecture"@,
        asset: AssetView {
            title: "the-filename.mp4"@,
            asset_type: "Video"@,
            time_estimation: 321,
            download_urls: Some(
                seq![
                    DownloadUrlView {
                        media_type: Some("video/mp4"@),
                        file: "http://host-name/the-filename.mp4"@,
                        label: "720"@,
                    },
                ],
            ),
        },
    }
}

/// A parser that ignores its input and answers with the sample data.
pub struct MockParser {}

impl MockParser {
    pub fn new() -> (res: MockParser) {
        MockParser {  }
    }
}

impl Parser for MockParser {
    fn parse_subscribed_courses(&self, _subscribed_courses: &JsonValue) -> (res: Result<
        Vec<Course>,
        UdemyError,
    >)
        ensures
            res matches Ok(cs) && cs@.len() == 1 && cs@[0]@ == sample_course(),
    {
        let mut courses: Vec<Course> = Vec::new();
        courses.push(make_course());
        Ok(courses)
    }

    fn parse_course_content(&self, _full_course: &JsonValue) -> (res: Result<
        CourseContent,
        UdemyError,
    >)
        ensures
            res matches Ok(c) && c@ == sample_course_content(),
    {
        Ok(make_test_course_content())
    }

    fn parse_lecture_detail(&self, _item: &JsonValue) -> (res: Result<
        LectureDetail,
        UdemyError,
    >)
        ensures
            res matches Ok(d) && d@ == sample_lecture_detail(),
    {
        let url = DownloadUrl {
            media_type: Some("video/mp4".to_owned()),
            file: "http://host-name/the-filename.mp4".to_owned(),
            label: "720".to_owned(),
        };
        let mut urls: Vec<DownloadUrl> = Vec::new();
        urls.push(url);
        let detail = LectureDetail {
            id: 4321,
            title: "The Lecture".to_owned(),
            asset: Asset {
                title: "the-filename.mp4".to_owned(),
                asset_type: "Video".to_owned(),
                time_estimation: 321,
                download_urls: Some(urls),
            },
        };
        assert(detail@ =~= sample_lecture_detail()) by {
            assert(download_urls_view(detail.asset.download_urls->0@) =~= seq![
                DownloadUrlView {
                    media_type: Some("video/mp4"@),
                    file: "http://host-name/the-filename.mp4"@,
                    label: "720"@,
                },
            ]);
        }
        Ok(detail)
    }
}

/// A file system on which creating a directory always succeeds.
pub struct MockFsHelper {}

impl FsHelper for MockFsHelper {
    open spec fn dir_outcome(&self, path: Seq<char>, err: Option<ErrorView>) -> bool {
        err is None
    }

    fn create_dir_recursive(&self, _path: &str) -> (res: Result<(), UdemyError>)
        ensures
            res is Ok,
    {
        Ok(())
    }
}

} // verus!
