//! Where downloaded course material goes on disk.

use vstd::prelude::*;

use crate::error::{ErrorView, UdemyError};
use crate::model::{Chapter, Lecture};
use crate::path::{
    file_extension, file_name, lemma_extension_after_dot, lemma_path_extension_chars,
    path_extension, path_push, path_push_extends, path_push_names_file, push_path,
};
use crate::text::{append_zero_padded, decimal, is_digit, lemma_decimal_digits, push_char, zero_padded};
use crate::utils::{sanitize, sanitized, sanitized_has_no_separator};

verus! {

/// Creating directories.
pub trait FsHelper {
    /// Whether creating the directory `path` may end with `err` (`None` for
    /// success). A file system that says no more allows every outcome.
    open spec fn dir_outcome(&self, path: Seq<char>, err: Option<ErrorView>) -> bool {
        true
    }

    /// Creates the directory `path` and any missing parent.
    fn create_dir_recursive(&self, path: &str) -> (res: Result<(), UdemyError>)
        ensures
            self.dir_outcome(
                path@,
                match res {
                    Ok(_) => None,
                    Err(e) => Some(e@),
                },
            ),
    ;
}

/// The outcome of a directory creation, as the error it ended with.
pub open spec fn outcome_of(res: Result<(), UdemyError>) -> Option<ErrorView> {
    match res {
        Ok(_) => None,
        Err(e) => Some(e@),
    }
}

/// The name of a chapter's directory: its index on three digits, a space,
/// and its sanitised title.
pub open spec fn chapter_dir_name(object_index: u64, title: Seq<char>) -> Seq<char> {
    zero_padded(object_index as nat, 3) + seq![' '] + sanitized(title)
}

/// The directory of a chapter: the chapter's directory name inside the
/// course's directory inside `target_dir`.
pub open spec fn chapter_dir(
    target_dir: Seq<char>,
    course_name: Seq<char>,
    object_index: u64,
    title: Seq<char>,
) -> Seq<char> {
    path_push(path_push(target_dir, course_name), chapter_dir_name(object_index, title))
}

/// The name of a lecture's file: its index on three digits, a space, its
/// sanitised title, a '.' and the extension `ext`.
pub open spec fn lecture_file_name(object_index: u64, title: Seq<char>, ext: Seq<char>) -> Seq<
    char,
> {
    zero_padded(object_index as nat, 3) + seq![' '] + sanitized(title) + seq!['.'] + ext
}

/// The file of a lecture inside `target_dir`, keeping the extension of
/// the lecture's own file name.
pub open spec fn lecture_file(
    target_dir: Seq<char>,
    object_index: u64,
    title: Seq<char>,
    filename: Seq<char>,
) -> Seq<char> {
    path_push(target_dir, lecture_file_name(object_index, title, path_extension(filename)->0))
}

/// A character found in neither of two sequences is not in their
/// concatenation.
proof fn lemma_concat_lacks(a: Seq<char>, b: Seq<char>, c: char)
    requires
        !a.contains(c),
        !b.contains(c),
    ensures
        !(a + b).contains(c),
{
    if (a + b).contains(c) {
        let i = choose|i: int| 0 <= i < (a + b).len() && (a + b)[i] == c;
        if i < a.len() {
            assert(a[i] == c);
        } else {
            assert(b[i - a.len()] == c);
        }
    }
}

/// A zero-padded number is made of digits only, and is not empty.
proof fn lemma_zero_padded_digits(n: nat, width: nat)
    ensures
        zero_padded(n, width).len() > 0,
        forall|i: int| 0 <= i < zero_padded(n, width).len() ==> is_digit(#[trigger] zero_padded(n, width)[i]),
        !zero_padded(n, width).contains('/'),
        !zero_padded(n, width).contains('.'),
{
    lemma_decimal_digits(n);
    let d = decimal(n);
    let z = zero_padded(n, width);
    if d.len() < width {
        let pad = Seq::new((width - d.len()) as nat, |i: int| '0');
        assert forall|i: int| 0 <= i < z.len() implies is_digit(#[trigger] z[i]) by {
            if i < pad.len() {
                assert(z[i] == '0');
            } else {
                assert(z[i] == d[i - pad.len()]);
            }
        }
    }
    if z.contains('/') {
        let i = choose|i: int| 0 <= i < z.len() && z[i] == '/';
        assert(is_digit(z[i]));
    }
    if z.contains('.') {
        let i = choose|i: int| 0 <= i < z.len() && z[i] == '.';
        assert(is_digit(z[i]));
    }
}

/// A chapter's directory lies inside the output directory, one level below
/// the course's directory, and is named by the chapter's directory name.
pub proof fn chapter_dir_inside_output(
    target_dir: Seq<char>,
    course_name: Seq<char>,
    object_index: u64,
    title: Seq<char>,
)
    requires
        course_name.len() == 0 || course_name[0] != '/',
    ensures
        chapter_dir(target_dir, course_name, object_index, title).subrange(
            0,
            target_dir.len() as int,
        ) == target_dir,
        file_name(chapter_dir(target_dir, course_name, object_index, title)) == Some(
            chapter_dir_name(object_index, title),
        ),
{
    let course_path = path_push(target_dir, course_name);
    let name = chapter_dir_name(object_index, title);
    lemma_zero_padded_digits(object_index as nat, 3);
    sanitized_has_no_separator(title);
    let z = zero_padded(object_index as nat, 3);
    assert(name[0] == z[0]);
    assert(is_digit(z[0]));
    assert(!seq![' '].contains('/'));
    lemma_concat_lacks(z, seq![' '], '/');
    lemma_concat_lacks(z + seq![' '], sanitized(title), '/');
    path_push_extends(target_dir, course_name);
    path_push_extends(course_path, name);
    let full = path_push(course_path, name);
    assert(full.subrange(0, target_dir.len() as int) =~= course_path.subrange(
        0,
        target_dir.len() as int,
    ));
    path_push_names_file(course_path, name);
}

/// The file a lecture is saved to lies inside the target directory, is
/// named by the lecture's file name, and keeps the extension of the
/// lecture's own file name.
pub proof fn lecture_file_keeps_extension(
    target_dir: Seq<char>,
    object_index: u64,
    title: Seq<char>,
    filename: Seq<char>,
)
    requires
        path_extension(filename) is Some,
    ensures
        path_extension(lecture_file(target_dir, object_index, title, filename)) == path_extension(
            filename,
        ),
        file_name(lecture_file(target_dir, object_index, title, filename)) == Some(
            lecture_file_name(object_index, title, path_extension(filename)->0),
        ),
        lecture_file(target_dir, object_index, title, filename).subrange(
            0,
            target_dir.len() as int,
        ) == target_dir,
{
    let ext = path_extension(filename)->0;
    lemma_path_extension_chars(filename);
    lemma_zero_padded_digits(object_index as nat, 3);
    sanitized_has_no_separator(title);
    let z = zero_padded(object_index as nat, 3);
    let stem = z + seq![' '] + sanitized(title);
    let name = lecture_file_name(object_index, title, ext);
    assert(name == stem + seq!['.'] + ext);
    assert(name[0] == z[0]);
    assert(is_digit(z[0]));
    assert(!seq![' '].contains('/'));
    assert(!seq!['.'].contains('/'));
    lemma_concat_lacks(z, seq![' '], '/');
    lemma_concat_lacks(z + seq![' '], sanitized(title), '/');
    lemma_concat_lacks(stem, seq!['.'], '/');
    lemma_concat_lacks(stem + seq!['.'], ext, '/');
    path_push_names_file(target_dir, name);
    lemma_extension_after_dot(stem, ext);
    path_push_extends(target_dir, name);
}

/// Places course material on disk.
pub struct UdemyHelper<'a> {
    pub fs_helper: &'a dyn FsHelper,
}

impl<'a> UdemyHelper<'a> {
    /// A helper that creates directories through `fs_helper`.
    pub fn new(fs_helper: &'a dyn FsHelper) -> (res: UdemyHelper<'a>)
        ensures
            res == (UdemyHelper { fs_helper }),
    {
        UdemyHelper { fs_helper }
    }

    /// The directory that a chapter's lectures are saved to.
    pub fn calculate_target_dir(&self, target_dir: &str, chapter: &Chapter, course_name: &str) -> (res:
        Result<String, UdemyError>)
        ensures
            res matches Ok(p) && p@ == chapter_dir(
                target_dir@,
                course_name@,
                chapter.object_index,
                chapter.title@,
            ),
    {
        let course_path = push_path(target_dir, course_name);
        let mut name = String::new();
        append_zero_padded(&mut name, chapter.object_index, 3);
        push_char(&mut name, ' ');
        let title = sanitize(chapter.title.as_str());
        name.append(title.as_str());
        Ok(push_path(course_path.as_str(), name.as_str()))
    }

    /// The file that a lecture is saved to.
    pub fn calculate_target_filename(&self, target_dir: &str, lecture: &Lecture) -> (res: Result<
        String,
        UdemyError,
    >)
        requires
            path_extension(lecture.filename@) is Some,
        ensures
            res matches Ok(p) && p@ == lecture_file(
                target_dir@,
                lecture.object_index,
                lecture.title@,
                lecture.filename@,
            ),
    {
        let extension = file_extension(lecture.filename.as_str());
        let extension = extension.unwrap();
        let mut name = String::new();
        append_zero_padded(&mut name, lecture.object_index, 3);
        push_char(&mut name, ' ');
        let title = sanitize(lecture.title.as_str());
        name.append(title.as_str());
        push_char(&mut name, '.');
        name.append(extension.as_str());
        Ok(push_path(target_dir, name.as_str()))
    }

    /// Creates a directory and its missing parents, through the file-system
    /// helper: the path is handed on unchanged and the helper's outcome is
    /// given back.
    pub fn create_target_dir(&self, path: &str) -> (res: Result<(), UdemyError>)
        ensures
            self.fs_helper.dir_outcome(path@, outcome_of(res)),
    {
        match self.fs_helper.create_dir_recursive(path) {
            Ok(()) => Ok(()),
            Err(e) => Err(e),
        }
    }
}

} // verus!

