//! Videos: what is stored of them, and what the service answers about them.

use vstd::prelude::*;

use crate::error::IngestError;
use crate::search::{bucket_rows, buckets};

verus! {

/// A stored video.
#[derive(Debug, Clone, PartialEq, Eq)]
pub struct Video {
    pub id: i32,
    pub channel_id: i32,
    pub channel_title: String,
    pub title: String,
    pub url: String,
    pub captions: String,
    /// Seconds since the epoch; absent when unknown.
    pub upload_datetime: Option<i64>,
    pub views: i64,
    /// Seconds.
    pub length: i32,
    pub thumbnail: String,
    pub youtube_id: String,
}

/// A `Video` with its texts as characters.
pub struct VideoView {
    pub id: i32,
    pub channel_id: i32,
    pub channel_title: Seq<char>,
    pub title: Seq<char>,
    pub url: Seq<char>,
    pub captions: Seq<char>,
    pub upload_datetime: Option<i64>,
    pub views: i64,
    pub length: i32,
    pub thumbnail: Seq<char>,
    pub youtube_id: Seq<char>,
}

impl View for Video {
    type V = VideoView;

    open spec fn view(&self) -> VideoView {
        VideoView {
            id: self.id,
            channel_id: self.channel_id,
            channel_title: self.channel_title@,
            title: self.title@,
            url: self.url@,
            captions: self.captions@,
            upload_datetime: self.upload_datetime,
            views: self.views,
            length: self.length,
            thumbnail: self.thumbnail@,
            youtube_id: self.youtube_id@,
        }
    }
}

/// The request to take in the video at `url`.
#[derive(Debug, Clone, PartialEq, Eq)]
pub struct NewVideoUrl {
    pub url: String,
}

/// The answer to such a request: whether the video was taken in, and its internal id
/// (`-1` where it was not).
#[derive(Debug, Clone, Copy, PartialEq, Eq, Structural)]
pub struct CreateVideoResponse {
    pub success: bool,
    pub id: i32,
}

/// The answer to the request to take in a video, from how the ingestion ended: the
/// store's id of the video where it was taken in, and `-1` with no success where it
/// was not.
pub fn create_video_response(outcome: Result<i32, IngestError>) -> (r: CreateVideoResponse)
    ensures
        r == match outcome {
            Ok(id) => CreateVideoResponse { success: true, id },
            Err(_) => CreateVideoResponse { success: false, id: -1i32 },
        },
{
    match outcome {
        Ok(id) => CreateVideoResponse { success: true, id },
        Err(_) => CreateVideoResponse { success: false, id: -1 },
    }
}

/// One matched caption: the address that plays the video from shortly before it, its
/// text, and its offset in milliseconds.
#[derive(Debug, Clone, PartialEq, Eq)]
pub struct CaptionTextSnippet {
    pub url: String,
    pub caption_text: String,
    pub start: u64,
}

/// A `CaptionTextSnippet` with its texts as characters.
pub struct CaptionTextSnippetView {
    pub url: Seq<char>,
    pub caption_text: Seq<char>,
    pub start: u64,
}

impl View for CaptionTextSnippet {
    type V = CaptionTextSnippetView;

    open spec fn view(&self) -> CaptionTextSnippetView {
        CaptionTextSnippetView {
            url: self.url@,
            caption_text: self.caption_text@,
            start: self.start,
        }
    }
}

/// The views of a list of matched captions.
pub open spec fn caption_views(captions: Seq<CaptionTextSnippet>) -> Seq<CaptionTextSnippetView> {
    captions.map_values(|c: CaptionTextSnippet| c@)
}

/// One bucket of a search: a video and its matched captions.
#[derive(Debug, Clone, PartialEq, Eq)]
pub struct VideoCaptionsResult {
    pub video: Video,
    pub captions: Vec<CaptionTextSnippet>,
}

/// A `VideoCaptionsResult` as values.
pub struct BucketView {
    pub video: VideoView,
    pub captions: Seq<CaptionTextSnippetView>,
}

impl View for VideoCaptionsResult {
    type V = BucketView;

    open spec fn view(&self) -> BucketView {
        BucketView { video: self.video@, captions: caption_views(self.captions@) }
    }
}

/// The views of a list of buckets.
pub open spec fn bucket_views(buckets: Seq<VideoCaptionsResult>) -> Seq<BucketView> {
    buckets.map_values(|b: VideoCaptionsResult| b@)
}

/// The answer to a search: whether it went through, and its buckets.
#[derive(Debug, Clone, PartialEq, Eq)]
pub struct CaptionSearchResults {
    pub success: bool,
    pub videos: Vec<VideoCaptionsResult>,
}

/// One row of the store's answer to a search: a matching caption with its video.
#[derive(Debug, Clone, PartialEq, Eq)]
pub struct MatchRow {
    pub id: i32,
    pub channel_id: i32,
    pub channel_title: String,
    pub title: String,
    /// Seconds since the epoch; absent when unknown.
    pub upload_datetime: Option<i64>,
    pub views: i64,
    pub length: i32,
    pub thumbnail: String,
    pub youtube_id: String,
    pub caption_text: String,
    /// Milliseconds.
    pub start: u64,
}

/// A `MatchRow` with its texts as characters.
pub struct MatchRowView {
    pub id: i32,
    pub channel_id: i32,
    pub channel_title: Seq<char>,
    pub title: Seq<char>,
    pub upload_datetime: Option<i64>,
    pub views: i64,
    pub length: i32,
    pub thumbnail: Seq<char>,
    pub youtube_id: Seq<char>,
    pub caption_text: Seq<char>,
    pub start: u64,
}

impl View for MatchRow {
    type V = MatchRowView;

    open spec fn view(&self) -> MatchRowView {
        MatchRowView {
            id: self.id,
            channel_id: self.channel_id,
            channel_title: self.channel_title@,
            title: self.title@,
            upload_datetime: self.upload_datetime,
            views: self.views,
            length: self.length,
            thumbnail: self.thumbnail@,
            youtube_id: self.youtube_id@,
            caption_text: self.caption_text@,
            start: self.start,
        }
    }
}

/// The views of a list of rows.
pub open spec fn row_views(rows: Seq<MatchRow>) -> Seq<MatchRowView> {
    rows.map_values(|r: MatchRow| r@)
}

/// The answer to a search, from what the store gave: where the store failed, a
/// failure without buckets; else success with the buckets of the rows, which are none
/// where nothing matched.
pub fn search_video_captions(found: Option<Vec<MatchRow>>) -> (r: CaptionSearchResults)
    ensures
        r.success == found is Some,
        bucket_views(r.videos@) == match found {
            Some(rows) => buckets(row_views(rows@)),
            None => Seq::empty(),
        },
{
    match found {
        Some(rows) => CaptionSearchResults { success: true, videos: bucket_rows(&rows) },
        None => {
            let videos: Vec<VideoCaptionsResult> = Vec::new();
            assert(bucket_views(videos@) == Seq::<BucketView>::empty());
            CaptionSearchResults { success: false, videos }
        },
    }
}

} // verus!
