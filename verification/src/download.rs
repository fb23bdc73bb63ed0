//! Downloading course videos: which chapters and lectures, where to, from
//! which URL, and in which quality.

use vstd::prelude::*;

use crate::command::CommandContext;
use crate::error::{ErrorView, UdemyError};
use crate::model::{
    is_wanted, positions, Chapter, DownloadUrl, DownloadUrlView, Lecture, LectureDetail,
    LectureId, ObjectIndex, VideoQuality, download_urls_view,
};
use crate::path::path_extension;
use crate::text::{decimal, parse_u64, parsed_u64, str_eq, u64_to_decimal, append_decimal};
use crate::udemy_helper::{chapter_dir, lecture_file, UdemyHelper};

verus! {

/// What a download is restricted to, and how it is carried out.
#[derive(Debug)]
pub struct DownloadParams {
    pub wanted_chapter: Option<ObjectIndex>,
    pub wanted_lecture: Option<LectureId>,
    pub wanted_quality: Option<VideoQuality>,
    pub output: String,
    pub dry_run: bool,
    pub verbose: bool,
}

/// Download files to a specified location. It is possible to specify
/// which chapter / lecture to download.
#[derive(Debug)]
pub struct Download {
    pub params: Option<DownloadParams>,
}

/// A chapter to download: its position in the course content, the
/// directory its lectures go to, and the positions of those lectures.
#[derive(Debug)]
pub struct ChapterJob {
    pub chapter: usize,
    pub target_dir: String,
    pub lectures: Vec<usize>,
}

/// A lecture to download: the file it is saved to, and the URL of its
/// detail, which lists the media to fetch.
#[derive(Debug)]
pub struct LectureJob {
    pub target_filename: String,
    pub detail_url: String,
}

/// Whether a download URL is an MP4 video.
pub open spec fn is_mp4(u: DownloadUrlView) -> bool {
    u.media_type == Some("video/mp4"@)
}

/// Whether one of the MP4 videos is offered in quality `q`.
pub open spec fn offers_quality(urls: Seq<DownloadUrlView>, q: u64) -> bool {
    exists|i: int| 0 <= i < urls.len() && is_mp4(#[trigger] urls[i]) && parsed_u64(urls[i].label) == Some(q)
}

/// Whether quality `q` may be chosen: it is offered, and it is at least
/// the wanted quality if one is given.
pub open spec fn acceptable_quality(urls: Seq<DownloadUrlView>, wanted: Option<u64>, q: u64) -> bool {
    &&& offers_quality(urls, q)
    &&& wanted matches Some(w) ==> q >= w
}

/// The quality to download: with a wanted quality, the lowest acceptable
/// one; without, the highest offered one.
pub open spec fn is_best_quality(urls: Seq<DownloadUrlView>, wanted: Option<u64>, q: u64) -> bool {
    &&& acceptable_quality(urls, wanted, q)
    &&& forall|r: u64| #[trigger]
        acceptable_quality(urls, wanted, r) ==> if wanted is Some {
            q <= r
        } else {
            r <= q
        }
}

/// The files of the MP4 videos in `urls[k..]` whose label is `label`.
pub open spec fn files_with_label(urls: Seq<DownloadUrlView>, label: Seq<char>, k: int) -> Seq<
    Seq<char>,
>
    decreases urls.len() - k,
{
    if k < 0 || k >= urls.len() {
        seq![]
    } else if is_mp4(urls[k]) && urls[k].label == label {
        seq![urls[k].file] + files_with_label(urls, label, k + 1)
    } else {
        files_with_label(urls, label, k + 1)
    }
}

/// Which chapters of a course a download covers.
pub open spec fn chapters_kept(chapters: Seq<Chapter>, wanted: Option<u64>) -> Seq<bool> {
    Seq::new(chapters.len(), |i: int| is_wanted(wanted, chapters[i].object_index))
}

/// Which lectures of a chapter a download covers: the wanted ones that
/// have a video.
pub open spec fn lectures_kept(lectures: Seq<Lecture>, wanted: Option<u64>) -> Seq<bool> {
    Seq::new(
        lectures.len(),
        |i: int| is_wanted(wanted, lectures[i].object_index) && lectures[i].has_video,
    )
}

/// The URL of the detail of a lecture of a course.
pub open spec fn lecture_detail_url(portal_name: Seq<char>, course_id: u64, lecture_id: u64) -> Seq<
    char,
> {
    "https://"@ + portal_name + ".udemy.com/api-2.0/users/me/subscribed-courses/"@ + decimal(
        course_id as nat,
    ) + "/lectures/"@ + decimal(lecture_id as nat)
        + "?fields[asset]=@min,download_urls,external_url,slide_urls,status,captions,thumbnail_url,time_estimation,stream_urls&fields[caption]=@default,is_translation&fields[course]=id,url,locale&fields[lecture]=@default,course,can_give_cc_feedback,download_url"@
}

/// Whether `job` is the job for chapter `chapter` of `chapters`.
pub open spec fn is_chapter_job(
    job: ChapterJob,
    chapters: Seq<Chapter>,
    chapter: usize,
    course_name: Seq<char>,
    wanted_lecture: Option<u64>,
    output: Seq<char>,
) -> bool {
    &&& job.chapter == chapter
    &&& chapter < chapters.len()
    &&& job.target_dir@ == chapter_dir(
        output,
        course_name,
        chapters[chapter as int].object_index,
        chapters[chapter as int].title@,
    )
    &&& job.lectures@ == positions(lectures_kept(chapters[chapter as int].lectures@, wanted_lecture), 0)
}

/// Whether `jobs` is the plan for downloading the course of `context`: one
/// job per wanted chapter, in order, each as [`is_chapter_job`] says.
pub open spec fn is_download_plan(
    jobs: Seq<ChapterJob>,
    context: CommandContext,
    wanted_chapter: Option<u64>,
    wanted_lecture: Option<u64>,
    output: Seq<char>,
) -> bool {
    let chapters = context.course_content->0.chapters@;
    let chosen = positions(chapters_kept(chapters, wanted_chapter), 0);
    &&& jobs.len() == chosen.len()
    &&& forall|j: int|
        0 <= j < jobs.len() ==> is_chapter_job(
            #[trigger] jobs[j],
            chapters,
            chosen[j],
            context.course_name@,
            wanted_lecture,
            output,
        )
}

/// The URL of the detail of a lecture of a course (see
/// [`lecture_detail_url`]).
pub fn lecture_detail_url_of(portal_name: &str, course_id: u64, lecture_id: u64) -> (res: String)
    ensures
        res@ == lecture_detail_url(portal_name@, course_id, lecture_id),
{
    let mut url = String::new();
    url.append("https://");
    url.append(portal_name);
    url.append(".udemy.com/api-2.0/users/me/subscribed-courses/");
    append_decimal(&mut url, course_id);
    url.append("/lectures/");
    append_decimal(&mut url, lecture_id);
    url.append(
        "?fields[asset]=@min,download_urls,external_url,slide_urls,status,captions,thumbnail_url,time_estimation,stream_urls&fields[caption]=@default,is_translation&fields[course]=id,url,locale&fields[lecture]=@default,course,can_give_cc_feedback,download_url",
    );
    url
}

impl Download {
    pub fn new() -> (res: Download)
        ensures
            res.params is None,
    {
        Download { params: None }
    }

    /// Sets the parameters of the download.
    pub fn set_params(&mut self, params: &DownloadParams)
        ensures
            final(self).params matches Some(p) && p.wanted_chapter == params.wanted_chapter
                && p.wanted_lecture == params.wanted_lecture && p.wanted_quality
                == params.wanted_quality && p.output@ == params.output@ && p.dry_run
                == params.dry_run && p.verbose == params.verbose,
    {
        self.params = Some(
            DownloadParams {
                wanted_chapter: params.wanted_chapter,
                wanted_lecture: params.wanted_lecture,
                wanted_quality: params.wanted_quality,
                output: params.output.clone(),
                dry_run: params.dry_run,
                verbose: params.verbose,
            },
        );
    }

    /// Plans the download with the parameters that were set.
    pub fn execute(&self, context: &CommandContext, helper: &UdemyHelper) -> (res: Result<
        Vec<ChapterJob>,
        UdemyError,
    >)
        requires
            self.params is Some ==> context.course_content is Some,
        ensures
            match self.params {
                None => res matches Err(e) && e@ == ErrorView::MissingParams,
                Some(p) => res matches Ok(jobs) && is_download_plan(
                    jobs@,
                    *context,
                    p.wanted_chapter,
                    p.wanted_lecture,
                    p.output@,
                ),
            },
    {
        match &self.params {
            Some(params) => Ok(
                self.download(
                    context,
                    helper,
                    params.wanted_chapter,
                    params.wanted_lecture,
                    params.output.as_str(),
                ),
            ),
            None => Err(UdemyError::MissingParams),
        }
    }

    /// The quality to download among the offered download URLs (see
    /// [`is_best_quality`]), written in decimal.
    pub fn determine_quality(&self, download_urls: &[DownloadUrl], wanted_quality: Option<
        VideoQuality,
    >) -> (res: Result<String, UdemyError>)
        ensures
            match res {
                Ok(q) => exists|b: u64|
                    is_best_quality(download_urls_view(download_urls@), wanted_quality, b) && q@
                        == decimal(b as nat),
                Err(e) => e@ == ErrorView::NoQuality && forall|b: u64|
                    !acceptable_quality(download_urls_view(download_urls@), wanted_quality, b),
            },
    {
        let ghost urls = download_urls_view(download_urls@);
        let mut best: Option<u64> = None;
        let mut i: usize = 0;
        while i < download_urls.len()
            invariant
                i <= download_urls.len(),
                urls == download_urls_view(download_urls@),
                match best {
                    Some(b) => is_best_quality(urls.take(i as int), wanted_quality, b),
                    None => forall|r: u64| !acceptable_quality(urls.take(i as int), wanted_quality, r),
                },
            decreases download_urls.len() - i,
        {
            let u = &download_urls[i];
            let ghost prev = urls.take(i as int);
            let ghost next = urls.take(i + 1);
            assert(next[i as int] == u@);
            assert forall|k: int| 0 <= k < i implies next[k] == prev[k] by {}
            let mp4 = match &u.media_type {
                Some(t) => str_eq(t.as_str(), "video/mp4"),
                None => false,
            };
            let q = if mp4 {
                parse_u64(u.label.as_str())
            } else {
                None
            };
            // Qualities offered by the first i + 1 URLs are those offered by
            // the first i, and q.
            assert forall|r: u64| #[trigger] offers_quality(next, r) <==> (offers_quality(prev, r) || q
                == Some(r)) by {
                if offers_quality(next, r) {
                    let k = choose|k: int|
                        0 <= k < next.len() && is_mp4(#[trigger] next[k]) && parsed_u64(next[k].label)
                            == Some(r);
                    if k < i {
                        assert(prev[k] == next[k]);
                    }
                }
                if offers_quality(prev, r) {
                    let k = choose|k: int|
                        0 <= k < prev.len() && is_mp4(#[trigger] prev[k]) && parsed_u64(prev[k].label)
                            == Some(r);
                    assert(next[k] == prev[k]);
                }
                if q == Some(r) {
                    assert(is_mp4(next[i as int]));
                }
            }
            assert forall|r: u64| #[trigger] acceptable_quality(next, wanted_quality, r) <==> (acceptable_quality(
                prev,
                wanted_quality,
                r,
            ) || (q == Some(r) && (wanted_quality matches Some(w) ==> r >= w))) by {
                assert(offers_quality(next, r) <==> (offers_quality(prev, r) || q == Some(r)));
            }
            let ghost old_best = best;
            match q {
                Some(q) => {
                    let ok = match wanted_quality {
                        Some(w) => q >= w,
                        None => true,
                    };
                    if ok {
                        let better = match best {
                            None => true,
                            Some(b) => match wanted_quality {
                                Some(_) => q < b,
                                None => q > b,
                            },
                        };
                        if better {
                            best = Some(q);
                        }
                    }
                },
                None => {},
            }
            assert(match best {
                Some(b) => is_best_quality(next, wanted_quality, b),
                None => forall|r: u64| !acceptable_quality(next, wanted_quality, r),
            }) by {
                match best {
                    Some(b) => {
                        assert(acceptable_quality(next, wanted_quality, b));
                        assert forall|r: u64| #[trigger]
                            acceptable_quality(next, wanted_quality, r) implies if wanted_quality is Some {
                            b <= r
                        } else {
                            r <= b
                        } by {
                            if acceptable_quality(prev, wanted_quality, r) {
                                match old_best {
                                    Some(ob) => {
                                        assert(acceptable_quality(prev, wanted_quality, r));
                                    },
                                    None => {},
                                }
                            }
                        }
                    },
                    None => {},
                }
            }
            i = i + 1;
        }
        assert(urls.take(download_urls.len() as int) == urls);
        match best {
            Some(b) => Ok(u64_to_decimal(b)),
            None => Err(UdemyError::NoQuality),
        }
    }

    /// The files to fetch for a lecture, read from its detail: none when the
    /// asset has no download URLs; otherwise the MP4 videos in the best
    /// quality, in the order the detail lists them.
    pub fn lecture_files(&self, detail: &LectureDetail, wanted_quality: Option<VideoQuality>) -> (res:
        Result<Vec<String>, UdemyError>)
        ensures
            match detail.asset.download_urls {
                None => res matches Ok(files) && files@.len() == 0,
                Some(urls) => match res {
                    Ok(files) => exists|b: u64|
                        is_best_quality(download_urls_view(urls@), wanted_quality, b)
                            && files@.map_values(|f: String| f@) == files_with_label(
                            download_urls_view(urls@),
                            decimal(b as nat),
                            0,
                        ),
                    Err(e) => e@ == ErrorView::NoQuality && forall|b: u64|
                        !acceptable_quality(download_urls_view(urls@), wanted_quality, b),
                },
            },
    {
        let download_urls = match &detail.asset.download_urls {
            Some(urls) => urls,
            None => return Ok(Vec::new()),
        };
        let best_quality = match self.determine_quality(download_urls.as_slice(), wanted_quality) {
            Ok(q) => q,
            Err(e) => return Err(e),
        };
        let ghost urls = download_urls_view(download_urls@);
        let mut files: Vec<String> = Vec::new();
        let mut i: usize = 0;
        while i < download_urls.len()
            invariant
                i <= download_urls.len(),
                urls == download_urls_view(download_urls@),
                files@.map_values(|f: String| f@) + files_with_label(urls, best_quality@, i as int)
                    == files_with_label(urls, best_quality@, 0),
            decreases download_urls.len() - i,
        {
            let url = &download_urls[i];
            assert(urls[i as int] == url@);
            let ghost before = files@.map_values(|f: String| f@);
            match &url.media_type {
                Some(video_type) => {
                    if str_eq(url.label.as_str(), best_quality.as_str()) && str_eq(
                        video_type.as_str(),
                        "video/mp4",
                    ) {
                        files.push(url.file.clone());
                        assert(files@.map_values(|f: String| f@) == before.push(url.file@));
                        assert(before.push(url.file@) + files_with_label(
                            urls,
                            best_quality@,
                            i + 1,
                        ) == before + (seq![url.file@] + files_with_label(
                            urls,
                            best_quality@,
                            i + 1,
                        )));
                    }
                },
                None => {},
            }
            i = i + 1;
        }
        assert(files@.map_values(|f: String| f@) + files_with_label(urls, best_quality@, i as int)
            == files@.map_values(|f: String| f@));
        Ok(files)
    }

    /// Plans the download of one chapter: the directory its lectures go to,
    /// and which of its lectures to download.
    pub fn download_chapter(
        &self,
        context: &CommandContext,
        helper: &UdemyHelper,
        chapter: &Chapter,
        chapter_index: usize,
        wanted_lecture: Option<LectureId>,
        output: &str,
    ) -> (res: ChapterJob)
        ensures
            res.chapter == chapter_index,
            res.target_dir@ == chapter_dir(
                output@,
                context.course_name@,
                chapter.object_index,
                chapter.title@,
            ),
            res.lectures@ == positions(lectures_kept(chapter.lectures@, wanted_lecture), 0),
    {
        let target_dir = match helper.calculate_target_dir(
            output,
            chapter,
            context.course_name.as_str(),
        ) {
            Ok(p) => p,
            Err(_) => String::new(),
        };
        let ghost keep = lectures_kept(chapter.lectures@, wanted_lecture);
        let mut lectures: Vec<usize> = Vec::new();
        let mut i: usize = 0;
        while i < chapter.lectures.len()
            invariant
                i <= chapter.lectures.len(),
                keep == lectures_kept(chapter.lectures@, wanted_lecture),
                lectures@ + positions(keep, i as int) == positions(keep, 0),
            decreases chapter.lectures.len() - i,
        {
            let lecture = &chapter.lectures[i];
            let wanted = match wanted_lecture {
                None => true,
                Some(w) => w == lecture.object_index,
            };
            if wanted && lecture.has_video {
                let ghost before = lectures@;
                lectures.push(i);
                assert(before.push(i) + positions(keep, i + 1) == before + (seq![i] + positions(
                    keep,
                    i + 1,
                )));
            }
            i = i + 1;
        }
        assert(lectures@ + positions(keep, i as int) == lectures@);
        ChapterJob { chapter: chapter_index, target_dir, lectures }
    }

    /// Plans the download of one lecture of a chapter whose directory is
    /// `path`.
    pub fn download_lecture(&self, context: &CommandContext, helper: &UdemyHelper, lecture: &Lecture, path: &str) -> (res: LectureJob)
        requires
            context.course is Some,
            path_extension(lecture.filename@) is Some,
        ensures
            res.target_filename@ == lecture_file(
                path@,
                lecture.object_index,
                lecture.title@,
                lecture.filename@,
            ),
            res.detail_url@ == lecture_detail_url(
                context.portal_name@,
                context.course->0.id,
                lecture.id,
            ),
    {
        let target_filename = match helper.calculate_target_filename(path, lecture) {
            Ok(f) => f,
            Err(_) => String::new(),
        };
        let course_id = match &context.course {
            Some(c) => c.id,
            None => 0,
        };
        let url = lecture_detail_url_of(context.portal_name.as_str(), course_id, lecture.id);
        LectureJob { target_filename, detail_url: url }
    }

    /// Plans the download of a course: the wanted chapters, in order, each
    /// with its directory and its wanted lectures that have a video.
    pub fn download(
        &self,
        context: &CommandContext,
        helper: &UdemyHelper,
        wanted_chapter: Option<ObjectIndex>,
        wanted_lecture: Option<LectureId>,
        output: &str,
    ) -> (res: Vec<ChapterJob>)
        requires
            context.course_content is Some,
        ensures
            is_download_plan(res@, *context, wanted_chapter, wanted_lecture, output@),
    {
        let content = match &context.course_content {
            Some(c) => c,
            None => return Vec::new(),
        };
        let ghost chapters = content.chapters@;
        let ghost keep = chapters_kept(chapters, wanted_chapter);
        let ghost chosen = positions(keep, 0);
        let mut jobs: Vec<ChapterJob> = Vec::new();
        let mut i: usize = 0;
        while i < content.chapters.len()
            invariant
                i <= content.chapters.len(),
                chapters == content.chapters@,
                keep == chapters_kept(chapters, wanted_chapter),
                chosen == positions(keep, 0),
                jobs.len() + positions(keep, i as int).len() == chosen.len(),
                forall|j: int| 0 <= j < jobs.len() ==> chosen[j] == #[trigger] jobs@[j].chapter,
                forall|j: int| jobs.len() <= j < chosen.len() ==> chosen[j] == positions(keep, i as int)[j - jobs.len()],
                forall|j: int|
                    0 <= j < jobs.len() ==> is_chapter_job(
                        #[trigger] jobs@[j],
                        chapters,
                        chosen[j],
                        context.course_name@,
                        wanted_lecture,
                        output@,
                    ),
            decreases content.chapters.len() - i,
        {
            let chapter = &content.chapters[i];
            let wanted = match wanted_chapter {
                None => true,
                Some(w) => w == chapter.object_index,
            };
            if wanted {
                let job = self.download_chapter(context, helper, chapter, i, wanted_lecture, output);
                let ghost n = jobs.len();
                assert(chosen[n as int] == i);
                jobs.push(job);
            }
            i = i + 1;
        }
        jobs
    }
}

} // verus!
