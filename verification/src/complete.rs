//! Marking lectures as completed: which ones, and the request for each.

use vstd::prelude::*;

use crate::command::CommandContext;
use crate::error::{ErrorView, UdemyError};
use crate::model::{
    complete_request_json, is_wanted, positions, Chapter, CompleteRequest, Lecture, LectureId,
    ObjectIndex,
};
use crate::text::{append_decimal, decimal};

verus! {

/// Which chapter, and optionally which lecture, to mark as completed.
#[derive(Debug)]
pub struct CompleteParams {
    pub wanted_chapter: ObjectIndex,
    pub wanted_lecture: Option<LectureId>,
    pub verbose: bool,
}

/// Complete files to a specified location. It is possible to specify
/// which chapter / lecture to download.
#[derive(Debug)]
pub struct Complete {
    pub params: Option<CompleteParams>,
}

/// A chapter to mark: its position in the course content and the
/// positions of its lectures to mark.
#[derive(Debug)]
pub struct CompleteChapterJob {
    pub chapter: usize,
    pub lectures: Vec<usize>,
}

/// The request that marks one lecture as completed: where it is posted,
/// and its JSON body.
#[derive(Debug)]
pub struct CompleteJob {
    pub url: String,
    pub body: String,
}

/// The URL that completed lectures of a course are posted to.
pub open spec fn completed_lectures_url(portal_name: Seq<char>, course_id: u64) -> Seq<char> {
    "https://"@ + portal_name + ".udemy.com/api-2.0/users/me/subscribed-courses/"@ + decimal(
        course_id as nat,
    ) + "/completed-lectures/"@
}

/// Which chapters are marked: those whose index is the wanted one.
pub open spec fn chapters_marked(chapters: Seq<Chapter>, wanted: u64) -> Seq<bool> {
    Seq::new(chapters.len(), |i: int| chapters[i].object_index == wanted)
}

/// Which lectures of a chapter are marked: the wanted ones.
pub open spec fn lectures_marked(lectures: Seq<Lecture>, wanted: Option<u64>) -> Seq<bool> {
    Seq::new(lectures.len(), |i: int| is_wanted(wanted, lectures[i].object_index))
}

/// With every position kept, `positions` gives each position from `k` on,
/// in order.
proof fn positions_all(keep: Seq<bool>, k: int)
    requires
        0 <= k <= keep.len(),
        keep.len() <= usize::MAX,
        forall|i: int| 0 <= i < keep.len() ==> keep[i],
    ensures
        positions(keep, k) == Seq::new((keep.len() - k) as nat, |t: int| (k + t) as usize),
    decreases keep.len() - k,
{
    if k < keep.len() {
        positions_all(keep, k + 1);
        assert(positions(keep, k) =~= Seq::new((keep.len() - k) as nat, |t: int| (k + t) as usize));
    } else {
        assert(positions(keep, k) =~= Seq::new((keep.len() - k) as nat, |t: int| (k + t) as usize));
    }
}

/// The lectures of a chapter that are marked are exactly those whose index
/// is the wanted lecture, whatever their kind; when no lecture is wanted,
/// every lecture of the chapter is marked, each once and in order.
pub proof fn marked_lectures_are_the_wanted_ones(lectures: Seq<Lecture>, wanted: Option<u64>)
    requires
        lectures.len() <= usize::MAX,
    ensures
        forall|j: int|
            0 <= j < positions(lectures_marked(lectures, wanted), 0).len() ==> #[trigger] positions(
                lectures_marked(lectures, wanted),
                0,
            )[j] < lectures.len(),
        forall|i: usize|
            i < lectures.len() ==> (#[trigger] positions(lectures_marked(lectures, wanted), 0).contains(i)
                <==> (wanted is None || wanted == Some(lectures[i as int].object_index))),
        wanted is None ==> positions(lectures_marked(lectures, wanted), 0) == Seq::new(
            lectures.len(),
            |i: int| i as usize,
        ),
{
    let keep = lectures_marked(lectures, wanted);
    let ps = positions(keep, 0);
    crate::model::positions_exact(keep, 0);
    assert forall|i: usize| i < lectures.len() implies (#[trigger] ps.contains(i) <==> (wanted is None
        || wanted == Some(lectures[i as int].object_index))) by {
        assert(keep[i as int] == (wanted is None || wanted == Some(lectures[i as int].object_index)));
        if ps.contains(i) {
            let j = choose|j: int| 0 <= j < ps.len() && ps[j] == i;
            assert(keep[ps[j] as int]);
        }
        if keep[i as int] {
            assert(ps.contains(i as int as usize));
        }
    }
    if wanted is None {
        positions_all(keep, 0);
        assert(ps =~= Seq::new(lectures.len(), |i: int| i as usize));
    }
}

/// Whether `job` is the job for chapter `chapter` of `chapters`.
pub open spec fn is_complete_job(
    job: CompleteChapterJob,
    chapters: Seq<Chapter>,
    chapter: usize,
    wanted_lecture: Option<u64>,
) -> bool {
    &&& job.chapter == chapter
    &&& chapter < chapters.len()
    &&& job.lectures@ == positions(lectures_marked(chapters[chapter as int].lectures@, wanted_lecture), 0)
}

/// Whether `jobs` is the plan for marking lectures of the course of
/// `context`: one job per chapter whose index is `wanted_chapter`, in order,
/// each as [`is_complete_job`] says.
pub open spec fn is_complete_plan(
    jobs: Seq<CompleteChapterJob>,
    context: CommandContext,
    wanted_chapter: u64,
    wanted_lecture: Option<u64>,
) -> bool {
    let chapters = context.course_content->0.chapters@;
    let chosen = positions(chapters_marked(chapters, wanted_chapter), 0);
    &&& jobs.len() == chosen.len()
    &&& forall|j: int|
        0 <= j < jobs.len() ==> is_complete_job(#[trigger] jobs[j], chapters, chosen[j], wanted_lecture)
}

impl Complete {
    pub fn new() -> (res: Complete)
        ensures
            res.params is None,
    {
        Complete { params: None }
    }

    /// Sets the parameters of the command.
    pub fn set_params(&mut self, params: &CompleteParams)
        ensures
            final(self).params matches Some(p) && p.wanted_chapter == params.wanted_chapter
                && p.wanted_lecture == params.wanted_lecture && p.verbose == params.verbose,
    {
        self.params = Some(
            CompleteParams {
                wanted_chapter: params.wanted_chapter,
                wanted_lecture: params.wanted_lecture,
                verbose: params.verbose,
            },
        );
    }

    /// Plans the marking with the parameters that were set.
    pub fn execute(&self, context: &CommandContext) -> (res: Result<
        Vec<CompleteChapterJob>,
        UdemyError,
    >)
        requires
            self.params is Some ==> context.course_content is Some,
        ensures
            match self.params {
                None => res matches Err(e) && e@ == ErrorView::MissingParams,
                Some(p) => res matches Ok(jobs) && is_complete_plan(
                    jobs@,
                    *context,
                    p.wanted_chapter,
                    p.wanted_lecture,
                ),
            },
    {
        match &self.params {
            Some(params) => Ok(self.complete(context, params.wanted_chapter, params.wanted_lecture)),
            None => Err(UdemyError::MissingParams),
        }
    }

    /// Plans the marking of one chapter: which of its lectures to mark.
    pub fn complete_chapter(
        &self,
        chapter: &Chapter,
        chapter_index: usize,
        wanted_lecture: Option<ObjectIndex>,
    ) -> (res: CompleteChapterJob)
        ensures
            res.chapter == chapter_index,
            res.lectures@ == positions(lectures_marked(chapter.lectures@, wanted_lecture), 0),
    {
        let ghost keep = lectures_marked(chapter.lectures@, wanted_lecture);
        let mut lectures: Vec<usize> = Vec::new();
        let mut i: usize = 0;
        while i < chapter.lectures.len()
            invariant
                i <= chapter.lectures.len(),
                keep == lectures_marked(chapter.lectures@, wanted_lecture),
                lectures@ + positions(keep, i as int) == positions(keep, 0),
            decreases chapter.lectures.len() - i,
        {
            let wanted = match wanted_lecture {
                None => true,
                Some(w) => w == chapter.lectures[i].object_index,
            };
            if wanted {
                let ghost before = lectures@;
                lectures.push(i);
                assert(before.push(i) + positions(keep, i + 1) == before + (seq![i] + positions(
                    keep,
                    i + 1,
                )));
            }
            i = i + 1;
        }
        assert(lectures@ + positions(keep, i as int) == lectures@);
        CompleteChapterJob { chapter: chapter_index, lectures }
    }

    /// The request that marks one lecture as completed.
    pub fn complete_lecture(&self, context: &CommandContext, lecture: &Lecture) -> (res: CompleteJob)
        requires
            context.course is Some,
        ensures
            res.url@ == completed_lectures_url(context.portal_name@, context.course->0.id),
            res.body@ == complete_request_json(lecture.id, false),
    {
        let course_id = match &context.course {
            Some(c) => c.id,
            None => 0,
        };
        let mut url = String::new();
        url.append("https://");
        url.append(context.portal_name.as_str());
        url.append(".udemy.com/api-2.0/users/me/subscribed-courses/");
        append_decimal(&mut url, course_id);
        url.append("/completed-lectures/");
        let complete_request = CompleteRequest { lecture_id: lecture.id, downloaded: false };
        CompleteJob { url, body: complete_request.to_json() }
    }

    /// Complete chapters and lectures: plans the marking of the chapters
    /// whose index is `wanted_chapter`, in order.
    pub fn complete(
        &self,
        context: &CommandContext,
        wanted_chapter: ObjectIndex,
        wanted_lecture: Option<LectureId>,
    ) -> (res: Vec<CompleteChapterJob>)
        requires
            context.course_content is Some,
        ensures
            is_complete_plan(res@, *context, wanted_chapter, wanted_lecture),
    {
        let content = match &context.course_content {
            Some(c) => c,
            None => return Vec::new(),
        };
        let ghost chapters = content.chapters@;
        let ghost keep = chapters_marked(chapters, wanted_chapter);
        let ghost chosen = positions(keep, 0);
        let mut jobs: Vec<CompleteChapterJob> = Vec::new();
        let mut i: usize = 0;
        while i < content.chapters.len()
            invariant
                i <= content.chapters.len(),
                chapters == content.chapters@,
                keep == chapters_marked(chapters, wanted_chapter),
                chosen == positions(keep, 0),
                jobs.len() + positions(keep, i as int).len() == chosen.len(),
                forall|j: int| jobs.len() <= j < chosen.len() ==> chosen[j] == positions(keep, i as int)[j - jobs.len()],
                forall|j: int|
                    0 <= j < jobs.len() ==> is_complete_job(
                        #[trigger] jobs@[j],
                        chapters,
                        chosen[j],
                        wanted_lecture,
                    ),
            decreases content.chapters.len() - i,
        {
            let chapter = &content.chapters[i];
            if wanted_chapter == chapter.object_index {
                let job = self.complete_chapter(chapter, i, wanted_lecture);
                let ghost n = jobs.len();
                assert(chosen[n as int] == i);
                jobs.push(job);
            }
            i = i + 1;
        }
        jobs
    }
}

} // verus!
