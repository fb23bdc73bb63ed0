//! Reading course data out of the JSON documents that Udemy serves.

use vstd::prelude::*;

use crate::error::{json_error, ErrorView, UdemyError};
use crate::json::{
    json_array, json_field_str, json_field_u64, json_get, json_is_str, json_str, json_u64,
    JsonValue,
};
use crate::model::{
    download_urls_view, lectures_view, chapters_view, AssetView, Asset, Chapter, ChapterView,
    Course, CourseContent, CourseView, DownloadUrl, DownloadUrlView, Lecture, LectureDetail,
    LectureDetailView, LectureView,
};
use crate::utils::{json_get_string, json_get_u64};

verus! {

// ---------------------------------------------------------------------------
// Decoding values into records (the field rules of the data model: an
// object is read by member name, other members are ignored, an optional
// member may be missing or null; an array is read by position and must hold
// exactly one element per field).
// ---------------------------------------------------------------------------

/// An optional string member: missing or null is `None`, a string is that
/// string, anything else does not decode.
pub open spec fn opt_string_of(v: Option<JsonValue>) -> Option<Option<Seq<char>>> {
    match v {
        None => Some(None),
        Some(JsonValue::Null) => Some(None),
        Some(JsonValue::String(s)) => Some(Some(s@)),
        Some(_) => None,
    }
}

/// A download URL decoded from a JSON value.
pub open spec fn download_url_of(v: JsonValue) -> Option<DownloadUrlView> {
    match v {
        JsonValue::Object(_) => match (
            opt_string_of(json_get(v, "type"@)),
            json_field_str(v, "file"@),
            json_field_str(v, "label"@),
        ) {
            (Some(t), Some(file), Some(label)) => Some(
                DownloadUrlView { media_type: t, file, label },
            ),
            _ => None,
        },
        JsonValue::Array(items) => if items@.len() == 3 {
            match (
                opt_string_of(Some(items@[0])),
                json_str(items@[1]),
                json_str(items@[2]),
            ) {
                (Some(t), Some(file), Some(label)) => Some(
                    DownloadUrlView { media_type: t, file, label },
                ),
                _ => None,
            }
        } else {
            None
        },
        _ => None,
    }
}

/// A list of download URLs decoded from a JSON array, when every element
/// decodes.
pub open spec fn download_urls_of(v: JsonValue) -> Option<Seq<DownloadUrlView>> {
    match v {
        JsonValue::Array(items) => if forall|i: int|
            0 <= i < items@.len() ==> #[trigger] download_url_of(items@[i]) is Some {
            Some(Seq::new(items@.len(), |i: int| download_url_of(items@[i])->0))
        } else {
            None
        },
        _ => None,
    }
}

/// A course decoded from a JSON value.
pub open spec fn course_of(v: JsonValue) -> Option<CourseView> {
    match v {
        JsonValue::Object(_) => match (
            json_field_u64(v, "id"@),
            json_field_str(v, "url"@),
            json_field_str(v, "published_title"@),
        ) {
            (Some(id), Some(url), Some(title)) => Some(
                CourseView { id, url, published_title: title },
            ),
            _ => None,
        },
        JsonValue::Array(items) => if items@.len() == 3 {
            match (json_u64(items@[0]), json_str(items@[1]), json_str(items@[2])) {
                (Some(id), Some(url), Some(title)) => Some(
                    CourseView { id, url, published_title: title },
                ),
                _ => None,
            }
        } else {
            None
        },
        _ => None,
    }
}

/// A course read from an object takes its id, URL and published title from
/// the members of those names; one read from an array takes them from its
/// three elements, in that order. An object decodes exactly when the three
/// members are there with the right types; no other kind of value decodes.
pub proof fn course_fields_from_json(v: JsonValue)
    ensures
        v is Object ==> (course_of(v) is Some <==> (json_field_u64(v, "id"@) is Some
            && json_field_str(v, "url"@) is Some && json_field_str(v, "published_title"@)
            is Some)),
        v is Object && course_of(v) is Some ==> {
            let c = course_of(v)->0;
            &&& Some(c.id) == json_field_u64(v, "id"@)
            &&& Some(c.url) == json_field_str(v, "url"@)
            &&& Some(c.published_title) == json_field_str(v, "published_title"@)
        },
        v is Array && course_of(v) is Some ==> {
            let c = course_of(v)->0;
            let items = json_array(v)->0;
            &&& items.len() == 3
            &&& Some(c.id) == json_u64(items[0])
            &&& Some(c.url) == json_str(items[1])
            &&& Some(c.published_title) == json_str(items[2])
        },
        !(v is Object || v is Array) ==> course_of(v) is None,
{
}

/// A download URL read from an object takes its file and label from the
/// members of those names, and its media type from the member `type` (none
/// when that member is missing or null).
pub proof fn download_url_fields_from_json(v: JsonValue)
    ensures
        v is Object && download_url_of(v) is Some ==> {
            let u = download_url_of(v)->0;
            &&& Some(u.file) == json_field_str(v, "file"@)
            &&& Some(u.label) == json_field_str(v, "label"@)
            &&& (json_get(v, "type"@) is Some && json_str(json_get(v, "type"@)->0) is Some)
                ==> u.media_type == json_str(json_get(v, "type"@)->0)
            &&& (json_get(v, "type"@) is None || json_get(v, "type"@) == Some(JsonValue::Null))
                ==> u.media_type is None
        },
{
}

fn decode_opt_string(v: Option<&JsonValue>) -> (res: Option<Option<String>>)
    ensures
        match res {
            Some(Some(s)) => opt_string_of(match v {
                Some(x) => Some(*x),
                None => None,
            }) == Some(Some(s@)),
            Some(None) => opt_string_of(match v {
                Some(x) => Some(*x),
                None => None,
            }) == Some(None::<Seq<char>>),
            None => opt_string_of(match v {
                Some(x) => Some(*x),
                None => None,
            }) is None,
        },
{
    match v {
        None => Some(None),
        Some(JsonValue::Null) => Some(None),
        Some(JsonValue::String(s)) => Some(Some(s.clone())),
        Some(_) => None,
    }
}

/// Decodes a download URL (see [`download_url_of`]).
pub fn decode_download_url(v: &JsonValue) -> (res: Option<DownloadUrl>)
    ensures
        match res {
            Some(u) => download_url_of(*v) == Some(u@),
            None => download_url_of(*v) is None,
        },
{
    match v {
        JsonValue::Object(_) => {
            let t = decode_opt_string(v.get("type"));
            let file = v.get("file");
            let label = v.get("label");
            match (t, file, label) {
                (Some(t), Some(file), Some(label)) => match (file.as_str(), label.as_str()) {
                    (Some(file), Some(label)) => Some(
                        DownloadUrl { media_type: t, file: file.to_owned(), label: label.to_owned() },
                    ),
                    _ => None,
                },
                _ => None,
            }
        },
        JsonValue::Array(items) => {
            if items.len() != 3 {
                return None;
            }
            let t = decode_opt_string(Some(&items[0]));
            match (t, items[1].as_str(), items[2].as_str()) {
                (Some(t), Some(file), Some(label)) => Some(
                    DownloadUrl { media_type: t, file: file.to_owned(), label: label.to_owned() },
                ),
                _ => None,
            }
        },
        _ => None,
    }
}

/// Decodes a list of download URLs (see [`download_urls_of`]).
pub fn decode_download_urls(v: &JsonValue) -> (res: Option<Vec<DownloadUrl>>)
    ensures
        match res {
            Some(us) => download_urls_of(*v) == Some(download_urls_view(us@)),
            None => download_urls_of(*v) is None,
        },
{
    match v {
        JsonValue::Array(items) => {
            let mut out: Vec<DownloadUrl> = Vec::new();
            let mut i: usize = 0;
            while i < items.len()
                invariant
                    i <= items.len(),
                    out.len() == i,
                    json_array(*v) == Some(items@),
                    forall|j: int|
                        0 <= j < i ==> download_url_of(#[trigger] items@[j]) == Some(out@[j]@),
                decreases items.len() - i,
            {
                match decode_download_url(&items[i]) {
                    Some(u) => {
                        out.push(u);
                    },
                    None => {
                        assert(download_url_of(items@[i as int]) is None);
                        return None;
                    },
                }
                i = i + 1;
            }
            assert(download_urls_view(out@) =~= Seq::new(
                items@.len(),
                |i: int| download_url_of(items@[i])->0,
            ));
            Some(out)
        },
        _ => None,
    }
}

/// Decodes a course (see [`course_of`]).
pub fn decode_course(v: &JsonValue) -> (res: Option<Course>)
    ensures
        match res {
            Some(c) => course_of(*v) == Some(c@),
            None => course_of(*v) is None,
        },
{
    match v {
        JsonValue::Object(_) => match (
            json_get_u64(v, "id"),
            json_get_string(v, "url"),
            json_get_string(v, "published_title"),
        ) {
            (Ok(id), Ok(url), Ok(title)) => Some(
                Course { id, url: url.to_owned(), published_title: title.to_owned() },
            ),
            _ => None,
        },
        JsonValue::Array(items) => {
            if items.len() != 3 {
                return None;
            }
            match (items[0].as_u64(), items[1].as_str(), items[2].as_str()) {
                (Some(id), Some(url), Some(title)) => Some(
                    Course { id, url: url.to_owned(), published_title: title.to_owned() },
                ),
                _ => None,
            }
        },
        _ => None,
    }
}

// ---------------------------------------------------------------------------
// What the parsers give for a document.
// ---------------------------------------------------------------------------

/// Where the download URLs of an asset are read from: `None` when the
/// asset has no `download_urls` member; otherwise its `Video` member, or
/// failing that its `File` member, if either is there.
pub open spec fn chosen_download_urls(asset: JsonValue) -> Option<Option<JsonValue>> {
    match json_get(asset, "download_urls"@) {
        None => None,
        Some(d) => Some(
            match json_get(d, "Video"@) {
                Some(x) => Some(x),
                None => json_get(d, "File"@),
            },
        ),
    }
}

/// The asset read from a JSON object.
pub open spec fn asset_parse(asset: JsonValue) -> Result<AssetView, ErrorView> {
    match json_field_str(asset, "title"@) {
        None => Err(ErrorView::Json("title"@)),
        Some(title) => match json_field_str(asset, "asset_type"@) {
            None => Err(ErrorView::Json("asset_type"@)),
            Some(asset_type) => match json_field_u64(asset, "time_estimation"@) {
                None => Err(ErrorView::Json("time_estimation"@)),
                Some(time_estimation) => match chosen_download_urls(asset) {
                    None => Err(ErrorView::JsonFormat),
                    Some(chosen) => Ok(
                        AssetView {
                            title,
                            asset_type,
                            time_estimation,
                            download_urls: match chosen {
                                Some(x) => download_urls_of(x),
                                None => None,
                            },
                        },
                    ),
                },
            },
        },
    }
}

/// Whether reading the asset would reach download URLs that do not decode
/// (reading such an asset is refused outright: it is not an error case).
pub open spec fn asset_rejects(asset: JsonValue) -> bool {
    &&& json_field_str(asset, "title"@) is Some
    &&& json_field_str(asset, "asset_type"@) is Some
    &&& json_field_u64(asset, "time_estimation"@) is Some
    &&& chosen_download_urls(asset) matches Some(Some(x))
    &&& download_urls_of(x) is None
}

/// The lecture detail read from a JSON object.
pub open spec fn lecture_detail_parse(item: JsonValue) -> Result<LectureDetailView, ErrorView> {
    match json_get(item, "asset"@) {
        None => Err(ErrorView::Json("assets"@)),
        Some(a) => match asset_parse(a) {
            Err(e) => Err(e),
            Ok(asset) => match json_field_u64(item, "id"@) {
                None => Err(ErrorView::Json("id"@)),
                Some(id) => match json_field_str(item, "title"@) {
                    None => Err(ErrorView::Json("title"@)),
                    Some(title) => Ok(LectureDetailView { id, title, asset }),
                },
            },
        },
    }
}

/// Whether reading the lecture detail would reach download URLs that do not
/// decode.
pub open spec fn lecture_detail_rejects(item: JsonValue) -> bool {
    json_get(item, "asset"@) matches Some(a) && asset_rejects(a)
}

/// The courses listed under `results`, those that do not decode left out.
pub open spec fn courses_from(items: Seq<JsonValue>, k: int) -> Seq<CourseView>
    decreases items.len() - k,
{
    if k < 0 || k >= items.len() {
        seq![]
    } else {
        match course_of(items[k]) {
            Some(c) => seq![c] + courses_from(items, k + 1),
            None => courses_from(items, k + 1),
        }
    }
}

/// Every course that the subscribed-courses parser gives is a decoded
/// element of `results`, and every element that decodes is given.
pub proof fn subscribed_courses_come_from_results(v: JsonValue)
    ensures
        subscribed_courses_parse(v) matches Ok(cs) ==> {
            let items = json_array(json_get(v, "results"@)->0)->0;
            &&& forall|k: int|
                0 <= k < cs.len() ==> exists|i: int|
                    0 <= i < items.len() && course_of(#[trigger] items[i]) == Some(#[trigger] cs[k])
            &&& forall|i: int|
                0 <= i < items.len() && course_of(#[trigger] items[i]) is Some ==> cs.contains(
                    course_of(items[i])->0,
                )
        },
{
    if let Ok(cs) = subscribed_courses_parse(v) {
        let items = json_array(json_get(v, "results"@)->0)->0;
        lemma_courses_from(items, 0);
    }
}

proof fn lemma_courses_from(items: Seq<JsonValue>, k: int)
    requires
        0 <= k <= items.len(),
    ensures
        forall|m: int|
            0 <= m < courses_from(items, k).len() ==> exists|i: int|
                k <= i < items.len() && course_of(#[trigger] items[i]) == Some(
                    #[trigger] courses_from(items, k)[m],
                ),
        forall|i: int|
            k <= i < items.len() && course_of(#[trigger] items[i]) is Some ==> courses_from(
                items,
                k,
            ).contains(course_of(items[i])->0),
    decreases items.len() - k,
{
    if k < items.len() {
        lemma_courses_from(items, k + 1);
        let rest = courses_from(items, k + 1);
        let all = courses_from(items, k);
        match course_of(items[k]) {
            Some(c) => {
                assert(all == seq![c] + rest);
                assert forall|m: int| 0 <= m < all.len() implies exists|i: int|
                    k <= i < items.len() && course_of(#[trigger] items[i]) == Some(#[trigger] all[m]) by {
                    if m == 0 {
                        assert(course_of(items[k]) == Some(all[0]));
                    } else {
                        assert(all[m] == rest[m - 1]);
                        let i = choose|i: int|
                            k + 1 <= i < items.len() && course_of(#[trigger] items[i]) == Some(
                                rest[m - 1],
                            );
                        assert(course_of(items[i]) == Some(all[m]));
                    }
                }
                assert forall|i: int|
                    k <= i < items.len() && course_of(#[trigger] items[i]) is Some implies all.contains(
                    course_of(items[i])->0,
                ) by {
                    if i == k {
                        assert(all[0] == c);
                    } else {
                        let m = choose|m: int| 0 <= m < rest.len() && rest[m] == course_of(items[i])->0;
                        assert(all[m + 1] == rest[m]);
                    }
                }
            },
            None => {},
        }
    }
}

/// The subscribed courses read from a JSON document.
pub open spec fn subscribed_courses_parse(v: JsonValue) -> Result<Seq<CourseView>, ErrorView> {
    match json_get(v, "results"@) {
        None => Err(ErrorView::JsonFormat),
        Some(r) => match json_array(r) {
            None => Err(ErrorView::JsonFormat),
            Some(items) => Ok(courses_from(items, 0)),
        },
    }
}

/// Whether a curriculum item has the class `name`.
pub open spec fn class_is(item: JsonValue, name: Seq<char>) -> bool {
    json_get(item, "_class"@) matches Some(c) && json_is_str(c, name)
}

/// The index and title of a chapter item.
pub open spec fn chapter_head(item: JsonValue) -> Result<(u64, Seq<char>), ErrorView> {
    match json_field_u64(item, "object_index"@) {
        None => Err(ErrorView::Json("object_index"@)),
        Some(index) => match json_field_str(item, "title"@) {
            None => Err(ErrorView::Json("title"@)),
            Some(title) => Ok((index, title)),
        },
    }
}

/// The lecture read from a lecture item.
pub open spec fn lecture_parse(item: JsonValue) -> Result<LectureView, ErrorView> {
    match json_get(item, "asset"@) {
        None => Err(ErrorView::Json("asset"@)),
        Some(asset) => match json_field_str(asset, "title"@) {
            None => Err(ErrorView::Json("title"@)),
            Some(filename) => match json_field_str(asset, "asset_type"@) {
                None => Err(ErrorView::Json("asset_type"@)),
                Some(asset_type) => match json_field_u64(item, "id"@) {
                    None => Err(ErrorView::Json("id"@)),
                    Some(id) => match json_field_u64(item, "object_index"@) {
                        None => Err(ErrorView::Json("object_index"@)),
                        Some(object_index) => match json_field_str(item, "title"@) {
                            None => Err(ErrorView::Json("title"@)),
                            Some(title) => Ok(
                                LectureView {
                                    id,
                                    object_index,
                                    title,
                                    filename,
                                    has_video: asset_type == "Video"@,
                                },
                            ),
                        },
                    },
                },
            },
        },
    }
}

/// The error that a curriculum item gives, if any: chapter items and
/// lecture items must read; items of other classes are passed over.
pub open spec fn item_error(item: JsonValue) -> Option<ErrorView> {
    if class_is(item, "chapter"@) {
        match chapter_head(item) {
            Err(e) => Some(e),
            Ok(_) => None,
        }
    } else if class_is(item, "lecture"@) {
        match lecture_parse(item) {
            Err(e) => Some(e),
            Ok(_) => None,
        }
    } else {
        None
    }
}

/// The first error among `items[k..]`.
pub open spec fn first_error(items: Seq<JsonValue>, k: int) -> Option<ErrorView>
    decreases items.len() - k,
{
    if k < 0 || k >= items.len() {
        None
    } else {
        match item_error(items[k]) {
            Some(e) => Some(e),
            None => first_error(items, k + 1),
        }
    }
}

/// `items[k..]` grouped into chapters: the lectures that come before the
/// first chapter item, and the chapters, each holding the lectures that
/// follow it up to the next chapter item.
pub open spec fn grouped(items: Seq<JsonValue>, k: int) -> (Seq<LectureView>, Seq<ChapterView>)
    decreases items.len() - k,
{
    if k < 0 || k >= items.len() {
        (seq![], seq![])
    } else {
        let rest = grouped(items, k + 1);
        if class_is(items[k], "chapter"@) {
            let head = chapter_head(items[k])->Ok_0;
            (
                seq![],
                seq![ChapterView { object_index: head.0, title: head.1, lectures: rest.0 }]
                    + rest.1,
            )
        } else if class_is(items[k], "lecture"@) {
            (seq![lecture_parse(items[k])->Ok_0] + rest.0, rest.1)
        } else {
            rest
        }
    }
}

/// The curriculum items of a course document.
pub open spec fn curriculum_items(full: JsonValue) -> Option<Seq<JsonValue>> {
    match json_get(full, "results"@) {
        None => None,
        Some(r) => json_array(r),
    }
}

/// Whether every curriculum item has a class (reading an item without one
/// is refused outright: it is not an error case).
pub open spec fn items_classified(full: JsonValue) -> bool {
    curriculum_items(full) matches Some(items) ==> forall|i: int|
        0 <= i < items.len() ==> (#[trigger] json_get(items[i], "_class"@)) is Some
}

/// The course content read from a curriculum document: the first item
/// error if there is one, otherwise the items grouped into chapters
/// (lectures before the first chapter are dropped).
pub open spec fn course_content_parse(full: JsonValue) -> Result<Seq<ChapterView>, ErrorView> {
    match curriculum_items(full) {
        None => Err(ErrorView::JsonFormat),
        Some(items) => match first_error(items, 0) {
            Some(e) => Err(e),
            None => Ok(grouped(items, 0).1),
        },
    }
}

/// Whether the lecture `l` carries the members of the curriculum item
/// `item`: its id, index and title are the item's members of those names,
/// its file name is the title of the item's asset, and it has a video
/// exactly when that asset's type is "Video".
pub open spec fn lecture_from_item(l: LectureView, item: JsonValue) -> bool {
    &&& json_field_u64(item, "id"@) == Some(l.id)
    &&& json_field_u64(item, "object_index"@) == Some(l.object_index)
    &&& json_field_str(item, "title"@) == Some(l.title)
    &&& json_get(item, "asset"@) is Some
    &&& json_field_str(json_get(item, "asset"@)->0, "title"@) == Some(l.filename)
    &&& l.has_video == (json_field_str(json_get(item, "asset"@)->0, "asset_type"@) == Some(
        "Video"@,
    ))
}

/// Whether the chapter `c` carries the index and title of the curriculum
/// item `item`.
pub open spec fn chapter_from_item(c: ChapterView, item: JsonValue) -> bool {
    &&& json_field_u64(item, "object_index"@) == Some(c.object_index)
    &&& json_field_str(item, "title"@) == Some(c.title)
}

/// A lecture read from an item carries that item's members.
pub proof fn lecture_fields_from_item(item: JsonValue)
    ensures
        lecture_parse(item) matches Ok(l) ==> lecture_from_item(l, item),
{
}

/// Whether some lecture item among `items[lo..]` gives the lecture `l`.
pub open spec fn from_lecture_item(l: LectureView, items: Seq<JsonValue>, lo: int) -> bool {
    exists|i: int|
        lo <= i < items.len() && class_is(items[i], "lecture"@) && #[trigger] lecture_from_item(
            l,
            items[i],
        )
}

/// Whether some chapter item among `items[lo..]` gives the chapter `c`.
pub open spec fn from_chapter_item(c: ChapterView, items: Seq<JsonValue>, lo: int) -> bool {
    exists|i: int|
        lo <= i < items.len() && class_is(items[i], "chapter"@) && #[trigger] chapter_from_item(
            c,
            items[i],
        )
}

/// What `grouped(items, k)` holds comes from the items `items[k..]`:
/// every lecture from a lecture item, every chapter from a chapter item.
proof fn grouped_from_items(items: Seq<JsonValue>, k: int)
    requires
        0 <= k <= items.len(),
        first_error(items, k) is None,
    ensures
        forall|j: int|
            0 <= j < grouped(items, k).0.len() ==> from_lecture_item(
                #[trigger] grouped(items, k).0[j],
                items,
                k,
            ),
        forall|c: int|
            0 <= c < grouped(items, k).1.len() ==> from_chapter_item(
                #[trigger] grouped(items, k).1[c],
                items,
                k,
            ),
        forall|c: int, j: int|
            0 <= c < grouped(items, k).1.len() && 0 <= j < grouped(items, k).1[c].lectures.len()
                ==> from_lecture_item(#[trigger] grouped(items, k).1[c].lectures[j], items, k),
    decreases items.len() - k,
{
    if k < items.len() {
        assert(item_error(items[k]) is None);
        grouped_from_items(items, k + 1);
        let rest = grouped(items, k + 1);
        let g = grouped(items, k);
        assert forall|l: LectureView| from_lecture_item(l, items, k + 1) implies from_lecture_item(
            l,
            items,
            k,
        ) by {
            let i = choose|i: int|
                k + 1 <= i < items.len() && class_is(items[i], "lecture"@) && #[trigger] lecture_from_item(
                    l,
                    items[i],
                );
            assert(lecture_from_item(l, items[i]));
        }
        assert forall|c: ChapterView| from_chapter_item(c, items, k + 1) implies from_chapter_item(
            c,
            items,
            k,
        ) by {
            let i = choose|i: int|
                k + 1 <= i < items.len() && class_is(items[i], "chapter"@) && #[trigger] chapter_from_item(
                    c,
                    items[i],
                );
            assert(chapter_from_item(c, items[i]));
        }
        if class_is(items[k], "chapter"@) {
            let head = chapter_head(items[k])->Ok_0;
            let ch = ChapterView { object_index: head.0, title: head.1, lectures: rest.0 };
            assert(g.0 == Seq::<LectureView>::empty());
            assert(g.1 == seq![ch] + rest.1);
            assert(chapter_from_item(ch, items[k]));
            assert(from_chapter_item(ch, items, k));
            assert forall|c: int| 0 <= c < g.1.len() implies from_chapter_item(
                #[trigger] g.1[c],
                items,
                k,
            ) by {
                if c > 0 {
                    assert(g.1[c] == rest.1[c - 1]);
                    assert(from_chapter_item(rest.1[c - 1], items, k + 1));
                }
            }
            assert forall|c: int, j: int|
                0 <= c < g.1.len() && 0 <= j < g.1[c].lectures.len() implies from_lecture_item(
                #[trigger] g.1[c].lectures[j],
                items,
                k,
            ) by {
                if c == 0 {
                    assert(g.1[0] == ch);
                    assert(from_lecture_item(rest.0[j], items, k + 1));
                } else {
                    assert(g.1[c] == rest.1[c - 1]);
                    assert(from_lecture_item(rest.1[c - 1].lectures[j], items, k + 1));
                }
            }
        } else if class_is(items[k], "lecture"@) {
            let l = lecture_parse(items[k])->Ok_0;
            assert(g.0 == seq![l] + rest.0);
            assert(g.1 == rest.1);
            assert(lecture_from_item(l, items[k]));
            assert(from_lecture_item(l, items, k));
            assert forall|j: int| 0 <= j < g.0.len() implies from_lecture_item(
                #[trigger] g.0[j],
                items,
                k,
            ) by {
                if j > 0 {
                    assert(g.0[j] == rest.0[j - 1]);
                    assert(from_lecture_item(rest.0[j - 1], items, k + 1));
                }
            }
            assert forall|c: int| 0 <= c < g.1.len() implies from_chapter_item(
                #[trigger] g.1[c],
                items,
                k,
            ) by {
                assert(from_chapter_item(rest.1[c], items, k + 1));
            }
            assert forall|c: int, j: int|
                0 <= c < g.1.len() && 0 <= j < g.1[c].lectures.len() implies from_lecture_item(
                #[trigger] g.1[c].lectures[j],
                items,
                k,
            ) by {
                assert(from_lecture_item(rest.1[c].lectures[j], items, k + 1));
            }
        } else {
            assert(g == rest);
            assert forall|j: int| 0 <= j < g.0.len() implies from_lecture_item(
                #[trigger] g.0[j],
                items,
                k,
            ) by {
                assert(from_lecture_item(rest.0[j], items, k + 1));
            }
            assert forall|c: int| 0 <= c < g.1.len() implies from_chapter_item(
                #[trigger] g.1[c],
                items,
                k,
            ) by {
                assert(from_chapter_item(rest.1[c], items, k + 1));
            }
            assert forall|c: int, j: int|
                0 <= c < g.1.len() && 0 <= j < g.1[c].lectures.len() implies from_lecture_item(
                #[trigger] g.1[c].lectures[j],
                items,
                k,
            ) by {
                assert(from_lecture_item(rest.1[c].lectures[j], items, k + 1));
            }
        }
    } else {
        assert(grouped(items, k) == (Seq::<LectureView>::empty(), Seq::<ChapterView>::empty()));
    }
}

/// Every chapter of a course content read from a curriculum document comes
/// from a chapter item of the document and carries its index and title;
/// every lecture comes from a lecture item and carries its id, index, title,
/// file name and kind.
pub proof fn course_content_comes_from_items(
    full: JsonValue,
    items: Seq<JsonValue>,
    chapters: Seq<ChapterView>,
)
    requires
        curriculum_items(full) == Some(items),
        course_content_parse(full) == Ok::<Seq<ChapterView>, ErrorView>(chapters),
    ensures
        forall|c: int|
            0 <= c < chapters.len() ==> from_chapter_item(#[trigger] chapters[c], items, 0),
        forall|c: int, j: int|
            0 <= c < chapters.len() && 0 <= j < chapters[c].lectures.len() ==> from_lecture_item(
                #[trigger] chapters[c].lectures[j],
                items,
                0,
            ),
{
    grouped_from_items(items, 0);
}

/// The chapters that a course is made of once the state of a left-to-right
/// walk is added in front of what the rest of the items give.
pub open spec fn chapters_after(
    done: Seq<ChapterView>,
    current: Option<(u64, Seq<char>)>,
    lectures: Seq<LectureView>,
    rest: (Seq<LectureView>, Seq<ChapterView>),
) -> Seq<ChapterView> {
    match current {
        Some(head) => done + seq![
            ChapterView { object_index: head.0, title: head.1, lectures: lectures + rest.0 },
        ] + rest.1,
        None => done + rest.1,
    }
}

/// The view of the chapter being filled in a left-to-right walk.
pub open spec fn head_view(current: Option<(u64, String)>) -> Option<(u64, Seq<char>)> {
    match current {
        Some(h) => Some((h.0, h.1@)),
        None => None,
    }
}

/// Reading course data out of the JSON documents that Udemy serves.
pub trait Parser {
    /// The subscribed courses listed in a document.
    fn parse_subscribed_courses(&self, subscribed_courses: &JsonValue) -> Result<
        Vec<Course>,
        UdemyError,
    >;

    /// The chapters and lectures of a curriculum document; every item must
    /// have a class.
    fn parse_course_content(&self, full_course: &JsonValue) -> Result<CourseContent, UdemyError>
        requires
            items_classified(*full_course),
    ;

    /// The detail of a lecture; its download URLs, if any, must decode.
    fn parse_lecture_detail(&self, item: &JsonValue) -> Result<LectureDetail, UdemyError>
        requires
            !lecture_detail_rejects(*item),
    ;
}

/// Parser for json data coming from udemy.
pub struct UdemyParser {}

impl UdemyParser {
    /// New an instance of this struct.
    pub fn new() -> (res: UdemyParser) {
        UdemyParser {  }
    }

    /// Whether every curriculum item of a course document has a class, as
    /// [`UdemyParser::parse_course_content`] requires.
    pub fn items_have_class(&self, full_course: &JsonValue) -> (res: bool)
        ensures
            res == items_classified(*full_course),
    {
        let items = match full_course.get("results") {
            Some(r) => match r.as_array() {
                Some(items) => items,
                None => return true,
            },
            None => return true,
        };
        let mut i: usize = 0;
        while i < items.len()
            invariant
                i <= items.len(),
                curriculum_items(*full_course) == Some(items@),
                forall|j: int| 0 <= j < i ==> (#[trigger] json_get(items@[j], "_class"@)) is Some,
            decreases items.len() - i,
        {
            if items[i].get("_class").is_none() {
                return false;
            }
            i = i + 1;
        }
        true
    }

    /// Whether an asset has download URLs that [`UdemyParser::parse_asset`]
    /// refuses to read.
    pub fn rejects_asset(&self, asset: &JsonValue) -> (res: bool)
        ensures
            res == asset_rejects(*asset),
    {
        if json_get_string(asset, "title").is_err() || json_get_string(asset, "asset_type").is_err()
            || json_get_u64(asset, "time_estimation").is_err() {
            return false;
        }
        match asset.get("download_urls") {
            None => false,
            Some(d) => {
                let chosen = match d.get("Video") {
                    Some(x) => Some(x),
                    None => d.get("File"),
                };
                match chosen {
                    Some(x) => decode_download_urls(x).is_none(),
                    None => false,
                }
            },
        }
    }

    /// Whether a lecture detail has download URLs that
    /// [`UdemyParser::parse_lecture_detail`] refuses to read.
    pub fn rejects_lecture_detail(&self, item: &JsonValue) -> (res: bool)
        ensures
            res == lecture_detail_rejects(*item),
    {
        match item.get("asset") {
            Some(a) => self.rejects_asset(a),
            None => false,
        }
    }

    /// Parse json from a specific asset.
    pub fn parse_asset(&self, asset: &JsonValue) -> (res: Result<Asset, UdemyError>)
        requires
            !asset_rejects(*asset),
        ensures
            match res {
                Ok(a) => asset_parse(*asset) == Ok::<AssetView, ErrorView>(a@),
                Err(e) => asset_parse(*asset) == Err::<AssetView, ErrorView>(e@),
            },
    {
        let title = match json_get_string(asset, "title") {
            Ok(t) => t.to_owned(),
            Err(e) => return Err(e),
        };
        let asset_type = match json_get_string(asset, "asset_type") {
            Ok(t) => t.to_owned(),
            Err(e) => return Err(e),
        };
        let time_estimation = match json_get_u64(asset, "time_estimation") {
            Ok(t) => t,
            Err(e) => return Err(e),
        };
        let download_urls = match asset.get("download_urls") {
            Some(d) => d,
            None => return Err(UdemyError::JsonFormat),
        };
        let chosen = match download_urls.get("Video") {
            Some(video) => Some(video),
            None => download_urls.get("File"),
        };
        let download_urls: Option<Vec<DownloadUrl>> = match chosen {
            Some(dl_urls) => {
                let urls = decode_download_urls(dl_urls);
                assert(urls is Some);
                urls
            },
            None => None,
        };
        Ok(Asset { title, asset_type, time_estimation, download_urls })
    }

}

impl Parser for UdemyParser {
    /// Parse subscribed courses for this user.
    fn parse_subscribed_courses(&self, subscribed_courses: &JsonValue) -> (res: Result<
        Vec<Course>,
        UdemyError,
    >)
        ensures
            match res {
                Ok(cs) => subscribed_courses_parse(*subscribed_courses) == Ok::<
                    Seq<CourseView>,
                    ErrorView,
                >(cs@.map_values(|c: Course| c@)),
                Err(e) => subscribed_courses_parse(*subscribed_courses) == Err::<
                    Seq<CourseView>,
                    ErrorView,
                >(e@),
            },
    {
        let results = match subscribed_courses.get("results") {
            Some(r) => r,
            None => return Err(UdemyError::JsonFormat),
        };
        let results = match results.as_array() {
            Some(items) => items,
            None => return Err(UdemyError::JsonFormat),
        };
        let mut courses: Vec<Course> = Vec::new();
        let mut i: usize = 0;
        while i < results.len()
            invariant
                i <= results.len(),
                courses@.map_values(|c: Course| c@) + courses_from(results@, i as int)
                    == courses_from(results@, 0),
            decreases results.len() - i,
        {
            let ghost before = courses@.map_values(|c: Course| c@);
            match decode_course(&results[i]) {
                Some(course) => {
                    courses.push(course);
                    assert(courses@.map_values(|c: Course| c@) == before.push(course@));
                    assert(before.push(course@) + courses_from(results@, i + 1) == before + (
                    seq![course@] + courses_from(results@, i + 1)));
                },
                None => {},
            }
            i = i + 1;
        }
        assert(courses@.map_values(|c: Course| c@) + courses_from(results@, i as int)
            == courses@.map_values(|c: Course| c@));
        Ok(courses)
    }

    /// Parse full course content.
    fn parse_course_content(&self, full_course: &JsonValue) -> (res: Result<
        CourseContent,
        UdemyError,
    >)
        ensures
            match res {
                Ok(c) => course_content_parse(*full_course) == Ok::<Seq<ChapterView>, ErrorView>(
                    c@,
                ),
                Err(e) => course_content_parse(*full_course) == Err::<
                    Seq<ChapterView>,
                    ErrorView,
                >(e@),
            },
    {
        let results = match full_course.get("results") {
            Some(r) => r,
            None => return Err(UdemyError::JsonFormat),
        };
        let results = match results.as_array() {
            Some(items) => items,
            None => return Err(UdemyError::JsonFormat),
        };
        let ghost items = results@;
        let mut chapters: Vec<Chapter> = Vec::new();
        let mut lectures: Vec<Lecture> = Vec::new();
        let mut current: Option<(u64, String)> = None;
        let mut i: usize = 0;
        while i < results.len()
            invariant
                i <= results.len(),
                items == results@,
                curriculum_items(*full_course) == Some(items),
                items_classified(*full_course),
                first_error(items, 0) == first_error(items, i as int),
                chapters_after(
                    chapters_view(chapters@),
                    head_view(current),
                    lectures_view(lectures@),
                    grouped(items, i as int),
                ) == grouped(items, 0).1,
            decreases results.len() - i,
        {
            let item = &results[i];
            let ghost done = chapters_view(chapters@);
            let ghost cur = head_view(current);
            let ghost lv = lectures_view(lectures@);
            let ghost rest = grouped(items, i + 1);
            assert(json_get(items[i as int], "_class"@) is Some);
            let class = item.get("_class").unwrap();
            if class.is_str("chapter") {
                let object_index = match json_get_u64(item, "object_index") {
                    Ok(n) => n,
                    Err(e) => return Err(e),
                };
                let title = match json_get_string(item, "title") {
                    Ok(t) => t.to_owned(),
                    Err(e) => return Err(e),
                };
                let previous = current;
                current = Some((object_index, title));
                let done_lectures = lectures;
                lectures = Vec::new();
                match previous {
                    Some(head) => {
                        let ghost hv = (head.0, head.1@);
                        let this_chapter = Chapter {
                            object_index: head.0,
                            title: head.1,
                            lectures: done_lectures,
                        };
                        chapters.push(this_chapter);
                        assert(chapters_view(chapters@) == done.push(this_chapter@));
                        assert(lectures_view(lectures@) =~= Seq::<LectureView>::empty());
                        assert(lv + Seq::<LectureView>::empty() == lv);
                    },
                    None => {
                        assert(lectures_view(lectures@) =~= Seq::<LectureView>::empty());
                    },
                }
                assert(Seq::<LectureView>::empty() + rest.0 == rest.0);
            } else if class.is_str("lecture") {
                let asset = match item.get("asset") {
                    Some(a) => a,
                    None => return Err(json_error("asset")),
                };
                let filename = match json_get_string(asset, "title") {
                    Ok(t) => t.to_owned(),
                    Err(e) => return Err(e),
                };
                let has_video = match json_get_string(asset, "asset_type") {
                    Ok(t) => crate::text::str_eq(t, "Video"),
                    Err(e) => return Err(e),
                };
                let id = match json_get_u64(item, "id") {
                    Ok(n) => n,
                    Err(e) => return Err(e),
                };
                let object_index = match json_get_u64(item, "object_index") {
                    Ok(n) => n,
                    Err(e) => return Err(e),
                };
                let title = match json_get_string(item, "title") {
                    Ok(t) => t.to_owned(),
                    Err(e) => return Err(e),
                };
                let lecture = Lecture { has_video, filename, id, object_index, title };
                assert(lecture_parse(items[i as int]) == Ok::<LectureView, ErrorView>(lecture@));
                lectures.push(lecture);
                assert(lectures_view(lectures@) == lv.push(lecture@));
                assert(lv.push(lecture@) + rest.0 == lv + (seq![lecture@] + rest.0));
            }
            i = i + 1;
        }
        let ghost done = chapters_view(chapters@);
        let ghost lv = lectures_view(lectures@);
        let ghost cv = head_view(current);
        assert(grouped(items, i as int) == (Seq::<LectureView>::empty(), Seq::<ChapterView>::empty()));
        assert(first_error(items, 0) is None);
        match current {
            Some(head) => {
                let this_chapter = Chapter { object_index: head.0, title: head.1, lectures };
                chapters.push(this_chapter);
                assert(chapters_view(chapters@) == done.push(this_chapter@));
                assert(lv + Seq::<LectureView>::empty() == lv);
                assert(cv == Some((this_chapter.object_index, this_chapter.title@)));
                assert(done + seq![this_chapter@] + Seq::<ChapterView>::empty() == done.push(this_chapter@));
                assert(chapters_view(chapters@) == grouped(items, 0).1);
            },
            None => {
                assert(done + Seq::<ChapterView>::empty() == done);
            },
        }
        Ok(CourseContent { chapters })
    }

    /// Parse the detail of a lecture.
    fn parse_lecture_detail(&self, item: &JsonValue) -> (res: Result<
        LectureDetail,
        UdemyError,
    >)
        ensures
            match res {
                Ok(d) => lecture_detail_parse(*item) == Ok::<LectureDetailView, ErrorView>(d@),
                Err(e) => lecture_detail_parse(*item) == Err::<LectureDetailView, ErrorView>(e@),
            },
    {
        let asset = match item.get("asset") {
            Some(a) => a,
            None => return Err(json_error("assets")),
        };
        let asset = match self.parse_asset(asset) {
            Ok(a) => a,
            Err(e) => return Err(e),
        };
        let id = match json_get_u64(item, "id") {
            Ok(n) => n,
            Err(e) => return Err(e),
        };
        let title = match json_get_string(item, "title") {
            Ok(t) => t.to_owned(),
            Err(e) => return Err(e),
        };
        Ok(LectureDetail { id, title, asset })
    }
}

} // verus!
