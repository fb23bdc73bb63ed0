//! The course data that the library reads and plans with, and the
//! mathematical values that contracts speak of.

use vstd::prelude::*;

use crate::text::{append_decimal, decimal};

verus! {

/// The `object_index` of a chapter.
pub type ObjectIndex = u64;

/// The `object_index` of a lecture within its course.
pub type LectureId = u64;

/// A video quality: the height of the picture in lines.
pub type VideoQuality = u64;

/// The view of an optional string.
pub open spec fn opt_str_view(s: Option<String>) -> Option<Seq<char>> {
    match s {
        Some(t) => Some(t@),
        None => None,
    }
}

/// The positions `i >= k` at which `keep[i]` holds, in increasing order.
pub open spec fn positions(keep: Seq<bool>, k: int) -> Seq<usize>
    decreases keep.len() - k,
{
    if k < 0 || k >= keep.len() {
        seq![]
    } else if keep[k] {
        seq![k as usize] + positions(keep, k + 1)
    } else {
        positions(keep, k + 1)
    }
}

/// The positions that `positions` gives are exactly those at which `keep`
/// holds, each once, in increasing order.
pub proof fn positions_exact(keep: Seq<bool>, k: int)
    requires
        0 <= k <= keep.len(),
        keep.len() <= usize::MAX,
    ensures
        forall|j: int|
            0 <= j < positions(keep, k).len() ==> k <= #[trigger] positions(keep, k)[j] < keep.len()
                && keep[positions(keep, k)[j] as int],
        forall|j1: int, j2: int|
            0 <= j1 < j2 < positions(keep, k).len() ==> #[trigger] positions(keep, k)[j1]
                < #[trigger] positions(keep, k)[j2],
        forall|i: int| k <= i < keep.len() && keep[i] ==> positions(keep, k).contains(i as usize),
    decreases keep.len() - k,
{
    if k < keep.len() {
        positions_exact(keep, k + 1);
        let rest = positions(keep, k + 1);
        if keep[k] {
            let all = positions(keep, k);
            assert(all == seq![k as usize] + rest);
            assert forall|j: int| 0 <= j < all.len() implies k <= #[trigger] all[j] < keep.len()
                && keep[all[j] as int] by {
                if j > 0 {
                    assert(all[j] == rest[j - 1]);
                }
            }
            assert forall|j1: int, j2: int| 0 <= j1 < j2 < all.len() implies #[trigger] all[j1]
                < #[trigger] all[j2] by {
                if j1 > 0 {
                    assert(all[j1] == rest[j1 - 1]);
                }
                assert(all[j2] == rest[j2 - 1]);
            }
            assert forall|i: int| k <= i < keep.len() && keep[i] implies all.contains(i as usize) by {
                if i == k {
                    assert(all[0] == k as usize);
                } else {
                    let j = choose|j: int| 0 <= j < rest.len() && rest[j] == i as usize;
                    assert(all[j + 1] == i as usize);
                }
            }
        }
    }
}

/// Whether an item with index `index` is asked for: every item is when no
/// index is given.
pub open spec fn is_wanted(wanted: Option<u64>, index: u64) -> bool {
    wanted is None || wanted == Some(index)
}

/// Course information coming from subscribed courses.
#[derive(Debug)]
pub struct Course {
    pub id: u64,
    pub url: String,
    pub published_title: String,
}

pub struct CourseView {
    pub id: u64,
    pub url: Seq<char>,
    pub published_title: Seq<char>,
}

impl View for Course {
    type V = CourseView;

    open spec fn view(&self) -> CourseView {
        CourseView { id: self.id, url: self.url@, published_title: self.published_title@ }
    }
}

/// Information on downloadable media.
#[derive(Debug)]
pub struct DownloadUrl {
    /// The MIME type of the media (the JSON member `type`), if given.
    pub media_type: Option<String>,
    pub file: String,
    pub label: String,
}

pub struct DownloadUrlView {
    pub media_type: Option<Seq<char>>,
    pub file: Seq<char>,
    pub label: Seq<char>,
}

impl View for DownloadUrl {
    type V = DownloadUrlView;

    open spec fn view(&self) -> DownloadUrlView {
        DownloadUrlView {
            media_type: opt_str_view(self.media_type),
            file: self.file@,
            label: self.label@,
        }
    }
}

/// The views of a list of download URLs.
pub open spec fn download_urls_view(urls: Seq<DownloadUrl>) -> Seq<DownloadUrlView> {
    urls.map_values(|u: DownloadUrl| u@)
}

/// Asset information, either for video or supplementary asset.
#[derive(Debug)]
pub struct Asset {
    pub title: String,
    pub asset_type: String,
    pub time_estimation: u64,
    pub download_urls: Option<Vec<DownloadUrl>>,
}

pub struct AssetView {
    pub title: Seq<char>,
    pub asset_type: Seq<char>,
    pub time_estimation: u64,
    pub download_urls: Option<Seq<DownloadUrlView>>,
}

impl View for Asset {
    type V = AssetView;

    open spec fn view(&self) -> AssetView {
        AssetView {
            title: self.title@,
            asset_type: self.asset_type@,
            time_estimation: self.time_estimation,
            download_urls: match self.download_urls {
                Some(urls) => Some(download_urls_view(urls@)),
                None => None,
            },
        }
    }
}

/// Lecture information. Coming from lecture detail.
#[derive(Debug)]
pub struct LectureDetail {
    pub id: u64,
    pub title: String,
    pub asset: Asset,
}

pub struct LectureDetailView {
    pub id: u64,
    pub title: Seq<char>,
    pub asset: AssetView,
}

impl View for LectureDetail {
    type V = LectureDetailView;

    open spec fn view(&self) -> LectureDetailView {
        LectureDetailView { id: self.id, title: self.title@, asset: self.asset@ }
    }
}

/// Lecture information. Coming from general course information.
#[derive(Debug)]
pub struct Lecture {
    pub id: u64,
    pub object_index: u64,
    pub title: String,
    pub filename: String,
    pub has_video: bool,
}

pub struct LectureView {
    pub id: u64,
    pub object_index: u64,
    pub title: Seq<char>,
    pub filename: Seq<char>,
    pub has_video: bool,
}

impl View for Lecture {
    type V = LectureView;

    open spec fn view(&self) -> LectureView {
        LectureView {
            id: self.id,
            object_index: self.object_index,
            title: self.title@,
            filename: self.filename@,
            has_video: self.has_video,
        }
    }
}

/// The views of a list of lectures.
pub open spec fn lectures_view(lectures: Seq<Lecture>) -> Seq<LectureView> {
    lectures.map_values(|l: Lecture| l@)
}

/// Chapter information.
#[derive(Debug)]
pub struct Chapter {
    pub object_index: u64,
    pub title: String,
    pub lectures: Vec<Lecture>,
}

pub struct ChapterView {
    pub object_index: u64,
    pub title: Seq<char>,
    pub lectures: Seq<LectureView>,
}

impl View for Chapter {
    type V = ChapterView;

    open spec fn view(&self) -> ChapterView {
        ChapterView {
            object_index: self.object_index,
            title: self.title@,
            lectures: lectures_view(self.lectures@),
        }
    }
}

/// The views of a list of chapters.
pub open spec fn chapters_view(chapters: Seq<Chapter>) -> Seq<ChapterView> {
    chapters.map_values(|c: Chapter| c@)
}

/// Full course information.
#[derive(Debug)]
pub struct CourseContent {
    pub chapters: Vec<Chapter>,
}

impl View for CourseContent {
    type V = Seq<ChapterView>;

    open spec fn view(&self) -> Seq<ChapterView> {
        chapters_view(self.chapters@)
    }
}

/// The answer to a login request.
#[derive(Debug)]
pub struct AuthResponse {
    pub _class: String,
    pub id: u32,
    pub access_token: String,
}

/// The request that marks a lecture as completed.
#[derive(Debug)]
pub struct CompleteRequest {
    pub lecture_id: u64,
    pub downloaded: bool,
}

/// The JSON text of a completion request, as `serde_json` writes the
/// struct: members in key order, no white space.
pub open spec fn complete_request_json(lecture_id: u64, downloaded: bool) -> Seq<char> {
    "{\"downloaded\":"@ + (if downloaded {
        "true"@
    } else {
        "false"@
    }) + ",\"lecture_id\":"@ + decimal(lecture_id as nat) + "}"@
}

impl CompleteRequest {
    /// The JSON body of this request.
    pub fn to_json(&self) -> (res: String)
        ensures
            res@ == complete_request_json(self.lecture_id, self.downloaded),
    {
        let mut s = String::new();
        s.append("{\"downloaded\":");
        if self.downloaded {
            s.append("true");
        } else {
            s.append("false");
        }
        s.append(",\"lecture_id\":");
        append_decimal(&mut s, self.lecture_id);
        s.append("}");
        s
    }
}

/// A user name and password.
#[derive(Debug)]
pub struct UsernamePassword {
    pub username: String,
    pub password: String,
}

/// The credentials to authenticate with: an access token, or a user name
/// and password to log in with.
#[derive(Debug)]
pub struct Auth {
    pub access_token: Option<String>,
    pub username_password: Option<UsernamePassword>,
}

impl Auth {
    /// Credentials made of an access token.
    pub fn with_token(access_token: &str) -> (res: Auth)
        ensures
            opt_str_view(res.access_token) == Some(access_token@),
            res.username_password is None,
    {
        Auth { access_token: Some(access_token.to_owned()), username_password: None }
    }

    /// Credentials made of a user name and a password.
    pub fn with_username_password(username: &str, password: &str) -> (res: Auth)
        ensures
            res.access_token is None,
            res.username_password matches Some(up) && up.username@ == username@
                && up.password@ == password@,
    {
        Auth {
            access_token: None,
            username_password: Some(
                UsernamePassword { username: username.to_owned(), password: password.to_owned() },
            ),
        }
    }
}

} // verus!
