//! The course a command works on, read from the course URL.

use vstd::prelude::*;

use crate::error::{ErrorView, UdemyError};
use crate::model::{opt_str_view, Auth, Course, CourseContent};

verus! {

/// The outcome of matching `pattern` against `text` with the `regex`
/// crate and reading the capture group named `group`: `None` when the
/// pattern does not compile or does not match; `Some(None)` when it matches
/// but the group takes no part in the match; otherwise the group's text.
pub uninterp spec fn regex_named_capture(pattern: Seq<char>, text: Seq<char>, group: Seq<char>) -> Option<
    Option<Seq<char>>,
>;

/// Matches `pattern` against `text` with `regex::Regex` (`Regex::new`,
/// `Regex::captures`, `Captures::name`) and returns the text of the group
/// named `group`.
///
/// The contract only names the result: what the regular expression engine
/// computes is not restated here.
#[verifier::external_body]
fn regex_capture(pattern: &str, text: &str, group: &str) -> (res: Option<Option<String>>)
    ensures
        match res {
            None => regex_named_capture(pattern@, text@, group@) is None,
            Some(g) => regex_named_capture(pattern@, text@, group@) == Some(opt_str_view(g)),
        },
{
    let re = match regex::Regex::new(pattern) {
        Ok(re) => re,
        Err(_) => return None,
    };
    let captures = match re.captures(text) {
        Some(c) => c,
        None => return None,
    };
    match captures.name(group) {
        Some(m) => Some(Some(m.as_str().to_string())),
        None => Some(None),
    }
}

/// The pattern of a course URL: the portal name is what stands between
/// "//" and ".udemy.com/", the course name the path segment that follows.
pub open spec fn course_url_pattern() -> Seq<char> {
    "(?i)(?://(?P<portal_name>.+?).udemy.com/(?P<course_name>[a-zA-Z0-9_-]+))"@
}

/// The outcome of reading a course URL, given what its two capture groups
/// gave.
pub open spec fn context_from_captures(
    url: Seq<char>,
    course_name: Option<Option<Seq<char>>>,
    portal_name: Option<Option<Seq<char>>>,
) -> Result<(Seq<char>, Seq<char>), ErrorView> {
    match course_name {
        None => Err(ErrorView::InvalidUrl(url)),
        Some(None) => Err(ErrorView::NoCourseName(url)),
        Some(Some(course)) => match portal_name {
            None => Err(ErrorView::InvalidUrl(url)),
            Some(None) => Err(ErrorView::NoPortalName(url)),
            Some(Some(portal)) => Ok((course, portal)),
        },
    }
}

/// What a command works on: the course and portal named by the course URL,
/// the credentials, and, once fetched, the course and its content.
#[derive(Debug)]
pub struct CommandContext {
    pub course_name: String,
    pub portal_name: String,
    pub course: Option<Course>,
    pub course_content: Option<CourseContent>,
    pub auth: Auth,
}

/// The view of an optional captured group.
pub open spec fn capture_view(c: Option<Option<String>>) -> Option<Option<Seq<char>>> {
    match c {
        None => None,
        Some(g) => Some(opt_str_view(g)),
    }
}

impl CommandContext {
    /// Builds the context from what the capture groups of the course URL
    /// pattern gave.
    pub fn from_captures(
        url: &str,
        course_name: Option<Option<String>>,
        portal_name: Option<Option<String>>,
        auth: Auth,
    ) -> (res: Result<CommandContext, UdemyError>)
        ensures
            match res {
                Ok(c) => {
                    &&& context_from_captures(url@, capture_view(course_name), capture_view(portal_name))
                        == Ok::<(Seq<char>, Seq<char>), ErrorView>((c.course_name@, c.portal_name@))
                    &&& c.course is None
                    &&& c.course_content is None
                    &&& c.auth == auth
                },
                Err(e) => context_from_captures(
                    url@,
                    capture_view(course_name),
                    capture_view(portal_name),
                ) == Err::<(Seq<char>, Seq<char>), ErrorView>(e@),
            },
    {
        let course_name = match course_name {
            None => return Err(UdemyError::InvalidUrl(url.to_owned())),
            Some(None) => return Err(UdemyError::NoCourseName(url.to_owned())),
            Some(Some(c)) => c,
        };
        let portal_name = match portal_name {
            None => return Err(UdemyError::InvalidUrl(url.to_owned())),
            Some(None) => return Err(UdemyError::NoPortalName(url.to_owned())),
            Some(Some(p)) => p,
        };
        Ok(CommandContext { course: None, course_content: None, course_name, portal_name, auth })
    }

    /// Reads the course and portal names out of a course URL such as
    /// `https://www.udemy.com/some-course`.
    pub fn new(url: &str, auth: Auth) -> (res: Result<CommandContext, UdemyError>)
        ensures
            match res {
                Ok(c) => {
                    &&& context_from_captures(
                        url@,
                        regex_named_capture(course_url_pattern(), url@, "course_name"@),
                        regex_named_capture(course_url_pattern(), url@, "portal_name"@),
                    ) == Ok::<(Seq<char>, Seq<char>), ErrorView>((c.course_name@, c.portal_name@))
                    &&& c.course is None
                    &&& c.course_content is None
                    &&& c.auth == auth
                },
                Err(e) => context_from_captures(
                    url@,
                    regex_named_capture(course_url_pattern(), url@, "course_name"@),
                    regex_named_capture(course_url_pattern(), url@, "portal_name"@),
                ) == Err::<(Seq<char>, Seq<char>), ErrorView>(e@),
            },
    {
        let pattern = "(?i)(?://(?P<portal_name>.+?).udemy.com/(?P<course_name>[a-zA-Z0-9_-]+))";
        let course_name = regex_capture(pattern, url, "course_name");
        let portal_name = regex_capture(pattern, url, "portal_name");
        CommandContext::from_captures(url, course_name, portal_name, auth)
    }
}

} // verus!
