//! Listing the chapters and lectures of a course, with the video
//! resolutions each lecture is offered in.

use vstd::prelude::*;

use crate::command::CommandContext;
use crate::download::is_mp4;
use crate::error::UdemyError;
use crate::model::{download_urls_view, ChapterView, CourseContent, DownloadUrlView, LectureDetail, LectureView};
use crate::text::{append_decimal, append_zero_padded, decimal, parse_u64, parsed_u64, push_char, str_eq, zero_padded};

verus! {

#[derive(Debug)]
pub struct InfoParams {
    pub verbose: bool,
}

/// Shows what a course is made of.
#[derive(Debug)]
pub struct Info {
    pub params: Option<InfoParams>,
}

/// The qualities of the MP4 videos in `urls[k..]` whose label reads as a
/// number, in the order they are listed.
pub open spec fn offered_qualities(urls: Seq<DownloadUrlView>, k: int) -> Seq<u64>
    decreases urls.len() - k,
{
    if k < 0 || k >= urls.len() {
        seq![]
    } else if is_mp4(urls[k]) && parsed_u64(urls[k].label) is Some {
        seq![parsed_u64(urls[k].label)->0] + offered_qualities(urls, k + 1)
    } else {
        offered_qualities(urls, k + 1)
    }
}

/// A list of qualities as "720p, 480p".
pub open spec fn qualities_text(qs: Seq<u64>) -> Seq<char>
    decreases qs.len(),
{
    if qs.len() == 0 {
        seq![]
    } else if qs.len() == 1 {
        decimal(qs[0] as nat) + seq!['p']
    } else {
        qualities_text(qs.drop_last()) + ", "@ + decimal(qs.last() as nat) + seq!['p']
    }
}

/// What a lecture line shows after the title: nothing when no resolution is
/// known, otherwise " (" and the resolutions and ")".
pub open spec fn resolution_suffix(qs: Seq<u64>) -> Seq<char> {
    if qs.len() == 0 {
        seq![]
    } else {
        " ("@ + qualities_text(qs) + ")"@
    }
}

/// The line that shows a chapter.
pub open spec fn chapter_line(c: ChapterView) -> Seq<char> {
    zero_padded(c.object_index as nat, 3) + " Chapter "@ + c.title
}

/// The line that shows a lecture and the resolutions it is offered in.
pub open spec fn lecture_line(l: LectureView, qs: Seq<u64>) -> Seq<char> {
    "\t"@ + zero_padded(l.object_index as nat, 3) + " Lecture "@ + l.title + resolution_suffix(qs)
}

/// The resolutions known for lecture `j` of chapter `c` (none when
/// `resolutions` has no entry for it).
pub open spec fn qualities_at(resolutions: Seq<Seq<Seq<u64>>>, c: int, j: int) -> Seq<u64> {
    if 0 <= c < resolutions.len() && 0 <= j < resolutions[c].len() {
        resolutions[c][j]
    } else {
        seq![]
    }
}

/// The lines that show chapter `k`: its own line, then one per lecture.
pub open spec fn chapter_lines(c: ChapterView, k: int, resolutions: Seq<Seq<Seq<u64>>>) -> Seq<
    Seq<char>,
> {
    seq![chapter_line(c)] + Seq::new(
        c.lectures.len(),
        |j: int| lecture_line(c.lectures[j], qualities_at(resolutions, k, j)),
    )
}

/// The lines that show the chapters `chapters[k..]`, in order.
pub open spec fn content_lines(
    chapters: Seq<ChapterView>,
    resolutions: Seq<Seq<Seq<u64>>>,
    k: int,
) -> Seq<Seq<char>>
    decreases chapters.len() - k,
{
    if k < 0 || k >= chapters.len() {
        seq![]
    } else {
        chapter_lines(chapters[k], k, resolutions) + content_lines(chapters, resolutions, k + 1)
    }
}

/// The lines for `chapters[k..]` show each of those chapters and each of
/// their lectures.
proof fn content_lines_contain(chapters: Seq<ChapterView>, resolutions: Seq<Seq<Seq<u64>>>, k: int)
    requires
        0 <= k <= chapters.len(),
    ensures
        forall|c: int|
            k <= c < chapters.len() ==> content_lines(chapters, resolutions, k).contains(
                chapter_line(#[trigger] chapters[c]),
            ),
        forall|c: int, j: int|
            k <= c < chapters.len() && 0 <= j < chapters[c].lectures.len() ==> content_lines(
                chapters,
                resolutions,
                k,
            ).contains(lecture_line(chapters[c].lectures[j], #[trigger] qualities_at(resolutions, c, j))),
    decreases chapters.len() - k,
{
    if k < chapters.len() {
        content_lines_contain(chapters, resolutions, k + 1);
        let head = chapter_lines(chapters[k], k, resolutions);
        let rest = content_lines(chapters, resolutions, k + 1);
        let all = content_lines(chapters, resolutions, k);
        assert(all == head + rest);
        assert forall|c: int| k <= c < chapters.len() implies all.contains(
            chapter_line(#[trigger] chapters[c]),
        ) by {
            if c == k {
                assert(all[0] == chapter_line(chapters[k]));
            } else {
                let m = choose|m: int| 0 <= m < rest.len() && rest[m] == chapter_line(chapters[c]);
                assert(all[head.len() + m] == rest[m]);
            }
        }
        assert forall|c: int, j: int|
            k <= c < chapters.len() && 0 <= j < chapters[c].lectures.len() implies all.contains(
            lecture_line(chapters[c].lectures[j], #[trigger] qualities_at(resolutions, c, j)),
        ) by {
            let line = lecture_line(chapters[c].lectures[j], qualities_at(resolutions, c, j));
            if c == k {
                assert(head[1 + j] == line);
                assert(all[1 + j] == line);
            } else {
                let m = choose|m: int| 0 <= m < rest.len() && rest[m] == line;
                assert(all[head.len() + m] == rest[m]);
            }
        }
    }
}

/// Listing a course content shows every chapter on a line of its own that
/// starts with the chapter's own index, padded to three digits, followed by
/// " Chapter " and its title; and every lecture on a line that starts with a
/// tab and the lecture's own index, padded to three digits, followed by
/// " Lecture ", its title and the resolutions known for it.
pub proof fn content_lines_show_own_indices(
    chapters: Seq<ChapterView>,
    resolutions: Seq<Seq<Seq<u64>>>,
)
    ensures
        forall|c: int|
            0 <= c < chapters.len() ==> content_lines(chapters, resolutions, 0).contains(
                zero_padded((#[trigger] chapters[c]).object_index as nat, 3) + " Chapter "@
                    + chapters[c].title,
            ),
        forall|c: int, j: int|
            0 <= c < chapters.len() && 0 <= j < chapters[c].lectures.len() ==> content_lines(
                chapters,
                resolutions,
                0,
            ).contains(
                "\t"@ + zero_padded(chapters[c].lectures[j].object_index as nat, 3)
                    + " Lecture "@ + chapters[c].lectures[j].title + resolution_suffix(
                    #[trigger] qualities_at(resolutions, c, j),
                ),
            ),
{
    content_lines_contain(chapters, resolutions, 0);
}

/// The views of a list of lines.
pub open spec fn lines_view(lines: Seq<String>) -> Seq<Seq<char>> {
    lines.map_values(|s: String| s@)
}

/// The view of the resolutions of every lecture, chapter by chapter.
pub open spec fn resolutions_view(resolutions: Seq<Vec<Vec<u64>>>) -> Seq<Seq<Seq<u64>>> {
    resolutions.map_values(|c: Vec<Vec<u64>>| c@.map_values(|l: Vec<u64>| l@))
}

/// Appends the text of `qs` (see [`qualities_text`]).
fn append_qualities(s: &mut String, qs: &Vec<u64>)
    ensures
        final(s)@ == old(s)@ + qualities_text(qs@),
{
    let ghost start = s@;
    let mut i: usize = 0;
    assert(qs@.take(0) =~= Seq::<u64>::empty());
    while i < qs.len()
        invariant
            i <= qs.len(),
            s@ == start + qualities_text(qs@.take(i as int)),
        decreases qs.len() - i,
    {
        let ghost before = s@;
        if i > 0 {
            s.append(", ");
        }
        append_decimal(s, qs[i]);
        push_char(s, 'p');
        let ghost t = qs@.take(i + 1);
        assert(t.drop_last() =~= qs@.take(i as int));
        assert(t.last() == qs@[i as int]);
        if i == 0 {
            assert(t =~= seq![qs@[0]]);
        }
        i = i + 1;
    }
    assert(qs@.take(qs.len() as int) =~= qs@);
}

impl Info {
    pub fn new() -> (res: Info)
        ensures
            res.params is None,
    {
        Info { params: None }
    }

    /// Sets the parameters of the command.
    pub fn set_params(&mut self, params: &InfoParams)
        ensures
            final(self).params matches Some(p) && p.verbose == params.verbose,
    {
        self.params = Some(InfoParams { verbose: params.verbose });
    }

    /// The resolutions a lecture is offered in, read from its detail: the
    /// qualities of its MP4 videos, in the order the detail lists them.
    pub fn lecture_resolutions(&self, detail: &LectureDetail) -> (res: Vec<u64>)
        ensures
            res@ == match detail.asset.download_urls {
                Some(urls) => offered_qualities(download_urls_view(urls@), 0),
                None => Seq::<u64>::empty(),
            },
    {
        let urls = match &detail.asset.download_urls {
            Some(urls) => urls,
            None => return Vec::new(),
        };
        let ghost uv = download_urls_view(urls@);
        let mut qs: Vec<u64> = Vec::new();
        let mut i: usize = 0;
        while i < urls.len()
            invariant
                i <= urls.len(),
                uv == download_urls_view(urls@),
                qs@ + offered_qualities(uv, i as int) == offered_qualities(uv, 0),
            decreases urls.len() - i,
        {
            let u = &urls[i];
            assert(uv[i as int] == u@);
            let mp4 = match &u.media_type {
                Some(t) => str_eq(t.as_str(), "video/mp4"),
                None => false,
            };
            if mp4 {
                match parse_u64(u.label.as_str()) {
                    Some(q) => {
                        let ghost before = qs@;
                        qs.push(q);
                        assert(before.push(q) + offered_qualities(uv, i + 1) == before + (seq![q]
                            + offered_qualities(uv, i + 1)));
                    },
                    None => {},
                }
            }
            i = i + 1;
        }
        assert(qs@ + offered_qualities(uv, i as int) == qs@);
        qs
    }

    /// The lines that show the course content, with the resolutions of each
    /// lecture taken from `resolutions` (chapter by chapter, lecture by
    /// lecture).
    pub fn execute(&self, context: &CommandContext, resolutions: &Vec<Vec<Vec<u64>>>) -> (res:
        Result<Vec<String>, UdemyError>)
        requires
            context.course_content is Some,
        ensures
            res matches Ok(lines) && lines_view(lines@) == content_lines(
                context.course_content->0@,
                resolutions_view(resolutions@),
                0,
            ),
    {
        match &context.course_content {
            Some(content) => Ok(self.print_course_content(content, resolutions)),
            None => Ok(Vec::new()),
        }
    }

    /// The lines that show a course content: for each chapter, its index
    /// and title, then, indented, the index and title of each lecture and
    /// the resolutions it is offered in.
    pub fn print_course_content(
        &self,
        course_content: &CourseContent,
        resolutions: &Vec<Vec<Vec<u64>>>,
    ) -> (res: Vec<String>)
        ensures
            lines_view(res@) == content_lines(course_content@, resolutions_view(resolutions@), 0),
    {
        let ghost chs = course_content@;
        let ghost rs = resolutions_view(resolutions@);
        let mut lines: Vec<String> = Vec::new();
        let mut i: usize = 0;
        while i < course_content.chapters.len()
            invariant
                i <= course_content.chapters.len(),
                chs == course_content@,
                rs == resolutions_view(resolutions@),
                chs.len() == course_content.chapters.len(),
                lines_view(lines@) + content_lines(chs, rs, i as int) == content_lines(chs, rs, 0),
            decreases course_content.chapters.len() - i,
        {
            let chapter = &course_content.chapters[i];
            let ghost cv = chs[i as int];
            assert(cv == chapter@);
            let ghost before = lines_view(lines@);
            let mut line = String::new();
            append_zero_padded(&mut line, chapter.object_index, 3);
            line.append(" Chapter ");
            line.append(chapter.title.as_str());
            lines.push(line);
            let ghost lecture_lines = Seq::new(
                cv.lectures.len(),
                |j: int| lecture_line(cv.lectures[j], qualities_at(rs, i as int, j)),
            );
            assert(lines_view(lines@) == before + seq![chapter_line(cv)] + lecture_lines.take(0));
            let mut j: usize = 0;
            while j < chapter.lectures.len()
                invariant
                    j <= chapter.lectures.len(),
                    i < resolutions@.len() ==> rs[i as int] == resolutions@[i as int]@.map_values(
                        |l: Vec<u64>| l@,
                    ),
                    rs.len() == resolutions@.len(),
                    cv == chapter@,
                    lecture_lines == Seq::new(
                        cv.lectures.len(),
                        |j: int| lecture_line(cv.lectures[j], qualities_at(rs, i as int, j)),
                    ),
                    lecture_lines.len() == chapter.lectures.len(),
                    lines_view(lines@) == before + seq![chapter_line(cv)] + lecture_lines.take(
                        j as int,
                    ),
                decreases chapter.lectures.len() - j,
            {
                let lecture = &chapter.lectures[j];
                assert(cv.lectures[j as int] == lecture@);
                let ghost prev = lines_view(lines@);
                let mut line = String::new();
                line.append("\t");
                append_zero_padded(&mut line, lecture.object_index, 3);
                line.append(" Lecture ");
                line.append(lecture.title.as_str());
                let ghost base = line@;
                let ghost qv = qualities_at(rs, i as int, j as int);
                let known = i < resolutions.len() && j < resolutions[i].len();
                if known {
                    let qs = &resolutions[i][j];
                    assert(qv == qs@);
                    if qs.len() > 0 {
                        line.append(" (");
                        append_qualities(&mut line, qs);
                        line.append(")");
                        assert(base + resolution_suffix(qv) == base + " ("@ + qualities_text(qv)
                            + ")"@);
                    } else {
                        assert(base + resolution_suffix(qv) == base);
                    }
                } else {
                    assert(qv =~= Seq::<u64>::empty());
                    assert(base + resolution_suffix(qv) == base);
                }
                assert(line@ == lecture_line(lecture@, qv));
                lines.push(line);
                assert(lines_view(lines@) == prev.push(
                    lecture_line(lecture@, qualities_at(rs, i as int, j as int)),
                ));
                assert(lecture_lines.take(j + 1) == lecture_lines.take(j as int).push(
                    lecture_line(lecture@, qualities_at(rs, i as int, j as int)),
                ));
                j = j + 1;
            }
            assert(lecture_lines.take(j as int) == lecture_lines);
            assert(before + seq![chapter_line(cv)] + lecture_lines == before + chapter_lines(
                cv,
                i as int,
                rs,
            ));
            assert(before + chapter_lines(cv, i as int, rs) + content_lines(chs, rs, i + 1)
                == before + (chapter_lines(cv, i as int, rs) + content_lines(chs, rs, i + 1)));
            i = i + 1;
        }
        assert(lines_view(lines@) + content_lines(chs, rs, i as int) == lines_view(lines@));
        lines
    }
}

} // verus!
