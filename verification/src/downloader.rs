//! The steps that come before a command runs: authenticating, finding the
//! course among the subscribed ones, and fetching its content.

use vstd::prelude::*;

use crate::command::CommandContext;
use crate::complete::{is_complete_plan, Complete, CompleteChapterJob};
use crate::download::{is_download_plan, lecture_detail_url, lecture_detail_url_of, ChapterJob, Download};
use crate::info::{content_lines, lines_view, resolutions_view, Info};
use crate::json::{json_of_text, parse_json_text};
use crate::model::ChapterView;
use crate::parser::{course_content_parse, items_classified, Parser, UdemyParser};
use crate::udemy_helper::UdemyHelper;
use crate::error::{ErrorView, UdemyError};
use crate::model::{opt_str_view, Course, CourseContent, CourseView, Lecture};
use crate::text::{append_decimal, decimal, str_eq};

verus! {

/// Where a user name and password are posted to log in.
pub const LOGIN_URL: &'static str = "https://www.udemy.com/api-2.0/auth/udemy-auth/login/?fields[user]=access_token";

/// Prepares and runs commands on a course.
#[derive(Debug)]
pub struct UdemyDownloader {
    pub command_context: CommandContext,
}

/// A command to run on a course.
#[derive(Debug)]
pub enum Command {
    Info(Info),
    Download(Download),
    Complete(Complete),
}

/// What a command plans to do.
#[derive(Debug)]
pub enum CommandPlan {
    /// The lines to show.
    Info(Vec<String>),
    /// The chapters and lectures to download.
    Download(Vec<ChapterJob>),
    /// The chapters and lectures to mark as completed.
    Complete(Vec<CompleteChapterJob>),
}

/// Whether a command can run on a context: showing the course needs its
/// content; downloading and marking need it once their parameters are set.
pub open spec fn command_ready(command: Command, context: CommandContext) -> bool {
    match command {
        Command::Info(_) => context.course_content is Some,
        Command::Download(d) => d.params is Some ==> context.course_content is Some,
        Command::Complete(c) => c.params is Some ==> context.course_content is Some,
    }
}

/// Whether `res` is what reading the curriculum text `info` gives: an
/// error when the text is not JSON, otherwise what the curriculum parser
/// gives for the document.
pub open spec fn info_read_as(info: Seq<char>, res: Result<CourseContent, UdemyError>) -> bool {
    match json_of_text(info) {
        None => res matches Err(e) && e@ == ErrorView::InvalidJson,
        Some(v) => match res {
            Ok(c) => course_content_parse(v) == Ok::<Seq<ChapterView>, ErrorView>(c@),
            Err(e) => course_content_parse(v) == Err::<Seq<ChapterView>, ErrorView>(e@),
        },
    }
}

/// The URL that lists the subscribed courses matching a course name.
pub open spec fn subscribed_courses_url(portal_name: Seq<char>, course_name: Seq<char>) -> Seq<char> {
    "https://"@ + portal_name
        + ".udemy.com/api-2.0/users/me/subscribed-courses?fields[course]=id,url,published_title&page=1&page_size=1000&ordering=-access_time&search="@
        + course_name
}

/// The URL of the curriculum of a course.
pub open spec fn curriculum_url(portal_name: Seq<char>, course_id: u64) -> Seq<char> {
    "https://"@ + portal_name + ".udemy.com/api-2.0/courses/"@ + decimal(course_id as nat)
        + "/subscriber-curriculum-items/?page_size=1400&fields[lecture]=@min,object_index,asset,supplementary_assets,sort_order,is_published,is_free&fields[quiz]=@min,object_index,title,sort_order,is_published&fields[practice]=@min,object_index,title,sort_order,is_published&fields[chapter]=@min,description,object_index,title,sort_order,is_published&fields[asset]=@min,title,filename,asset_type,external_url,length,status"@
}

/// The position of the first course of `courses[k..]` whose published
/// title is `title`.
pub open spec fn first_with_title(courses: Seq<CourseView>, title: Seq<char>, k: int) -> Option<int>
    decreases courses.len() - k,
{
    if k < 0 || k >= courses.len() {
        None
    } else if courses[k].published_title == title {
        Some(k)
    } else {
        first_with_title(courses, title, k + 1)
    }
}

impl UdemyDownloader {
    pub fn new(context: CommandContext) -> (res: UdemyDownloader)
        ensures
            res.command_context == context,
    {
        UdemyDownloader { command_context: context }
    }

    /// Runs a command on the course: what each command plans, as its own
    /// `execute` gives it (`resolutions` holds the resolutions of each
    /// lecture, chapter by chapter, for the course listing).
    pub fn execute(
        &self,
        command: &Command,
        helper: &UdemyHelper,
        resolutions: &Vec<Vec<Vec<u64>>>,
    ) -> (res: Result<CommandPlan, UdemyError>)
        requires
            command_ready(*command, self.command_context),
        ensures
            match *command {
                Command::Info(_) => res matches Ok(CommandPlan::Info(lines)) && lines_view(lines@)
                    == content_lines(
                    self.command_context.course_content->0@,
                    resolutions_view(resolutions@),
                    0,
                ),
                Command::Download(d) => match d.params {
                    None => res matches Err(e) && e@ == ErrorView::MissingParams,
                    Some(p) => res matches Ok(CommandPlan::Download(jobs)) && is_download_plan(
                        jobs@,
                        self.command_context,
                        p.wanted_chapter,
                        p.wanted_lecture,
                        p.output@,
                    ),
                },
                Command::Complete(c) => match c.params {
                    None => res matches Err(e) && e@ == ErrorView::MissingParams,
                    Some(p) => res matches Ok(CommandPlan::Complete(jobs)) && is_complete_plan(
                        jobs@,
                        self.command_context,
                        p.wanted_chapter,
                        p.wanted_lecture,
                    ),
                },
            },
    {
        match command {
            Command::Info(info) => match info.execute(&self.command_context, resolutions) {
                Ok(lines) => Ok(CommandPlan::Info(lines)),
                Err(e) => Err(e),
            },
            Command::Download(download) => match download.execute(&self.command_context, helper) {
                Ok(jobs) => Ok(CommandPlan::Download(jobs)),
                Err(e) => Err(e),
            },
            Command::Complete(complete) => match complete.execute(&self.command_context) {
                Ok(jobs) => Ok(CommandPlan::Complete(jobs)),
                Err(e) => Err(e),
            },
        }
    }

    /// The URL of the detail of a lecture of the course.
    pub fn get_lecture_detail_url(&self, lecture: &Lecture) -> (res: String)
        requires
            self.command_context.course is Some,
        ensures
            res@ == lecture_detail_url(
                self.command_context.portal_name@,
                self.command_context.course->0.id,
                lecture.id,
            ),
    {
        let course_id = match &self.command_context.course {
            Some(c) => c.id,
            None => 0,
        };
        lecture_detail_url_of(self.command_context.portal_name.as_str(), course_id, lecture.id)
    }

    /// The URL that lists the subscribed courses matching the course name.
    pub fn get_subscribed_course_url(&self) -> (res: String)
        ensures
            res@ == subscribed_courses_url(
                self.command_context.portal_name@,
                self.command_context.course_name@,
            ),
    {
        let mut url = String::new();
        url.append("https://");
        url.append(self.command_context.portal_name.as_str());
        url.append(
            ".udemy.com/api-2.0/users/me/subscribed-courses?fields[course]=id,url,published_title&page=1&page_size=1000&ordering=-access_time&search=",
        );
        url.append(self.command_context.course_name.as_str());
        url
    }

    /// The subscribed course whose published title is the course name: the
    /// first such course in `courses`.
    pub fn get_subscribed_course(&self, courses: Vec<Course>) -> (res: Result<Course, UdemyError>)
        ensures
            match first_with_title(
                courses@.map_values(|c: Course| c@),
                self.command_context.course_name@,
                0,
            ) {
                Some(i) => res matches Ok(c) && c@ == courses@[i]@,
                None => res matches Err(e) && e@ == ErrorView::CourseNotFound(
                    self.command_context.course_name@,
                ),
            },
    {
        let ghost views = courses@.map_values(|c: Course| c@);
        let name = &self.command_context.course_name;
        let mut list = courses;
        let mut i: usize = 0;
        while i < list.len()
            invariant
                i <= list.len(),
                list@ == courses@,
                views == courses@.map_values(|c: Course| c@),
                name@ == self.command_context.course_name@,
                first_with_title(views, name@, 0) == first_with_title(views, name@, i as int),
            decreases list.len() - i,
        {
            assert(views[i as int] == list@[i as int]@);
            if str_eq(list[i].published_title.as_str(), name.as_str()) {
                assert(first_with_title(views, name@, i as int) == Some(i as int));
                let found = list.remove(i);
                return Ok(found);
            }
            i = i + 1;
        }
        Err(UdemyError::CourseNotFound(name.clone()))
    }

    /// Reads the content of the course from the text of its curriculum.
    pub fn parse_info(&self, parser: &UdemyParser, info: &str) -> (res: Result<
        CourseContent,
        UdemyError,
    >)
        requires
            json_of_text(info@) matches Some(v) ==> items_classified(v),
        ensures
            info_read_as(info@, res),
    {
        let value = match parse_json_text(info) {
            Some(v) => v,
            None => return Err(UdemyError::InvalidJson),
        };
        parser.parse_course_content(&value)
    }

    /// Reads the content of the course from the text of its curriculum, as
    /// [`UdemyDownloader::parse_info`] does, first checking what it
    /// requires: `None` when the text is a JSON document with a curriculum
    /// item that has no class.
    pub fn parse_info_checked(&self, parser: &UdemyParser, info: &str) -> (res: Option<
        Result<CourseContent, UdemyError>,
    >)
        ensures
            res is None <==> (json_of_text(info@) matches Some(v) && !items_classified(v)),
            res matches Some(r) ==> info_read_as(info@, r),
    {
        match parse_json_text(info) {
            Some(v) => {
                if !parser.items_have_class(&v) {
                    return None;
                }
            },
            None => {},
        }
        Some(self.parse_info(parser, info))
    }

    /// The URL of the curriculum of `course`.
    pub fn get_info_url(&self, course: &Course) -> (res: String)
        ensures
            res@ == curriculum_url(self.command_context.portal_name@, course.id),
    {
        let mut url = String::new();
        url.append("https://");
        url.append(self.command_context.portal_name.as_str());
        url.append(".udemy.com/api-2.0/courses/");
        append_decimal(&mut url, course.id);
        url.append(
            "/subscriber-curriculum-items/?page_size=1400&fields[lecture]=@min,object_index,asset,supplementary_assets,sort_order,is_published,is_free&fields[quiz]=@min,object_index,title,sort_order,is_published&fields[practice]=@min,object_index,title,sort_order,is_published&fields[chapter]=@min,description,object_index,title,sort_order,is_published&fields[asset]=@min,title,filename,asset_type,external_url,length,status",
        );
        url
    }

    /// Whether a login is needed: there is no access token yet.
    pub fn needs_login(&self) -> (res: bool)
        ensures
            res == self.command_context.auth.access_token is None,
    {
        self.command_context.auth.access_token.is_none()
    }

    /// Takes the access token that a login gave, unless one is already
    /// there.
    pub fn authenticate(&mut self, access_token: String)
        ensures
            old(self).command_context.auth.access_token is None ==> opt_str_view(
                final(self).command_context.auth.access_token,
            ) == Some(access_token@),
            old(self).command_context.auth.access_token is Some ==> final(self).command_context.auth.access_token == old(self).command_context.auth.access_token,
            final(self).command_context.auth.username_password == old(self).command_context.auth.username_password,
            final(self).command_context.course_name == old(self).command_context.course_name,
            final(self).command_context.portal_name == old(self).command_context.portal_name,
            final(self).command_context.course == old(self).command_context.course,
            final(self).command_context.course_content == old(self).command_context.course_content,
    {
        if self.command_context.auth.access_token.is_none() {
            self.command_context.auth.access_token = Some(access_token);
        }
    }

    /// Keeps the course that was found and the content that was read.
    pub fn prepare_course_info(&mut self, course: Course, course_content: CourseContent)
        ensures
            final(self).command_context.course == Some(course),
            final(self).command_context.course_content == Some(course_content),
            final(self).command_context.course_name == old(self).command_context.course_name,
            final(self).command_context.portal_name == old(self).command_context.portal_name,
            final(self).command_context.auth == old(self).command_context.auth,
    {
        self.command_context.course_content = Some(course_content);
        self.command_context.course = Some(course);
    }
}

} // verus!
