//! Taking in a video, one decision at a time.
//!
//! An ingestion fetches from the platform and writes to the store, and neither can be
//! done from here. So it is a machine: `create_video` and `step` decide what is to be
//! done next, the caller does it and comes back with what happened. The order is
//! fixed: the identifier, the video's metadata, its channel (looked up, and created
//! where the store does not know it), the page of the video, the list of its caption
//! tracks, the timed-text document, and then one write of the video with its
//! captions. Whatever fails ends the ingestion at once, before that write.

use vstd::prelude::*;

use crate::endpoints::videos::NewVideoUrl;
use crate::error::IngestError;
use crate::utils::captions::{
    assembled, captions_block, captions_json, joined_text, markup_events, parse_timed_text,
    raw_text, select_track, snippet_views, watch_address, watch_url, CaptionSnippet,
    CaptionSnippetView, YouTubeHtmlCaptionData, TRACK_POSITION,
};
use crate::utils::identifier::{extract, extracted_id};
use crate::utils::metadata::{
    channel_item_views, channel_of, first_item, metadata_request, new_channel, request_address,
    duration_seconds, rfc3339_seconds, upload_time, video_item_views, video_length, view_count,
    ChannelItem, ChannelItemView, MetadataKind, NewChannel, NewChannelView, VideoItem,
    VideoItemView,
};
use crate::decimal::signed_value;

verus! {

/// A video whose channel the store has not named yet.
#[derive(Debug, Clone, PartialEq, Eq)]
pub struct PendingVideo {
    pub title: String,
    pub url: String,
    pub upload_datetime: Option<i64>,
    pub views: i64,
    pub length: i32,
    pub thumbnail: String,
    pub youtube_id: String,
    /// The platform's id of the channel that owns the video.
    pub channel_youtube_id: String,
}

/// A `PendingVideo` with its texts as characters.
pub struct PendingVideoView {
    pub title: Seq<char>,
    pub url: Seq<char>,
    pub upload_datetime: Option<i64>,
    pub views: i64,
    pub length: i32,
    pub thumbnail: Seq<char>,
    pub youtube_id: Seq<char>,
    pub channel_youtube_id: Seq<char>,
}

impl View for PendingVideo {
    type V = PendingVideoView;

    open spec fn view(&self) -> PendingVideoView {
        PendingVideoView {
            title: self.title@,
            url: self.url@,
            upload_datetime: self.upload_datetime,
            views: self.views,
            length: self.length,
            thumbnail: self.thumbnail@,
            youtube_id: self.youtube_id@,
            channel_youtube_id: self.channel_youtube_id@,
        }
    }
}

/// A video that is to be stored.
#[derive(Debug, Clone, PartialEq, Eq)]
pub struct NewVideo {
    /// The store's id of the channel that owns the video.
    pub channel_id: i32,
    pub title: String,
    pub url: String,
    pub upload_datetime: Option<i64>,
    pub views: i64,
    pub length: i32,
    pub thumbnail: String,
    pub youtube_id: String,
}

/// A `NewVideo` with its texts as characters.
pub struct NewVideoView {
    pub channel_id: i32,
    pub title: Seq<char>,
    pub url: Seq<char>,
    pub upload_datetime: Option<i64>,
    pub views: i64,
    pub length: i32,
    pub thumbnail: Seq<char>,
    pub youtube_id: Seq<char>,
}

impl View for NewVideo {
    type V = NewVideoView;

    open spec fn view(&self) -> NewVideoView {
        NewVideoView {
            channel_id: self.channel_id,
            title: self.title@,
            url: self.url@,
            upload_datetime: self.upload_datetime,
            views: self.views,
            length: self.length,
            thumbnail: self.thumbnail@,
            youtube_id: self.youtube_id@,
        }
    }
}

/// Where an ingestion stands: what it waits for, and what it has gathered.
#[derive(Debug, PartialEq, Eq)]
pub enum IngestState {
    AwaitingVideoItems { api_key: String, url: String, youtube_id: String },
    AwaitingChannel { api_key: String, pending: PendingVideo },
    AwaitingChannelItems { pending: PendingVideo },
    AwaitingChannelCreated { pending: PendingVideo },
    AwaitingPage { video: NewVideo },
    AwaitingTracks { video: NewVideo },
    AwaitingTimedText { video: NewVideo },
    AwaitingPersisted,
    /// The ingestion is over: with the store's id of the video, or with the reason why
    /// nothing was stored.
    Finished { outcome: Result<i32, IngestError> },
}

/// An `IngestState` with its texts as characters.
pub enum IngestStateView {
    AwaitingVideoItems { api_key: Seq<char>, url: Seq<char>, youtube_id: Seq<char> },
    AwaitingChannel { api_key: Seq<char>, pending: PendingVideoView },
    AwaitingChannelItems { pending: PendingVideoView },
    AwaitingChannelCreated { pending: PendingVideoView },
    AwaitingPage { video: NewVideoView },
    AwaitingTracks { video: NewVideoView },
    AwaitingTimedText { video: NewVideoView },
    AwaitingPersisted,
    Finished { outcome: Result<i32, IngestError> },
}

impl View for IngestState {
    type V = IngestStateView;

    open spec fn view(&self) -> IngestStateView {
        match self {
            IngestState::AwaitingVideoItems { api_key, url, youtube_id } => {
                IngestStateView::AwaitingVideoItems {
                    api_key: api_key@,
                    url: url@,
                    youtube_id: youtube_id@,
                }
            },
            IngestState::AwaitingChannel { api_key, pending } => {
                IngestStateView::AwaitingChannel { api_key: api_key@, pending: pending@ }
            },
            IngestState::AwaitingChannelItems { pending } => {
                IngestStateView::AwaitingChannelItems { pending: pending@ }
            },
            IngestState::AwaitingChannelCreated { pending } => {
                IngestStateView::AwaitingChannelCreated { pending: pending@ }
            },
            IngestState::AwaitingPage { video } => IngestStateView::AwaitingPage { video: video@ },
            IngestState::AwaitingTracks { video } => IngestStateView::AwaitingTracks {
                video: video@,
            },
            IngestState::AwaitingTimedText { video } => IngestStateView::AwaitingTimedText {
                video: video@,
            },
            IngestState::AwaitingPersisted => IngestStateView::AwaitingPersisted,
            IngestState::Finished { outcome } => IngestStateView::Finished { outcome: *outcome },
        }
    }
}

/// What the caller is asked to do next.
#[derive(Debug, PartialEq, Eq)]
pub enum IngestAction {
    /// Fetch `url` from the read API and hand back the video items of the answer.
    FetchVideoItems { url: String },
    /// Ask the store for the channel with the platform's id `youtube_id`.
    LookupChannel { youtube_id: String },
    /// Fetch `url` from the read API and hand back the channel items of the answer.
    FetchChannelItems { url: String },
    /// Store `channel` and hand back its id.
    InsertChannel { channel: NewChannel },
    /// Fetch the page at `url`.
    FetchPage { url: String },
    /// Read `json` as the captions configuration of a page.
    DecodeTracks { json: String },
    /// Fetch the timed-text document at `url`.
    FetchTimedText { url: String },
    /// Store, all or nothing: the video, its caption document with `raw_text` and
    /// `snippets`, and one timestamp for each snippet.
    Persist { video: NewVideo, raw_text: String, snippets: Vec<CaptionSnippet> },
    /// Nothing more: the ingestion is over.
    Finish { outcome: Result<i32, IngestError> },
}

/// An `IngestAction` with its texts as characters.
pub enum IngestActionView {
    FetchVideoItems { url: Seq<char> },
    LookupChannel { youtube_id: Seq<char> },
    FetchChannelItems { url: Seq<char> },
    InsertChannel { channel: NewChannelView },
    FetchPage { url: Seq<char> },
    DecodeTracks { json: Seq<char> },
    FetchTimedText { url: Seq<char> },
    Persist { video: NewVideoView, raw_text: Seq<char>, snippets: Seq<CaptionSnippetView> },
    Finish { outcome: Result<i32, IngestError> },
}

impl View for IngestAction {
    type V = IngestActionView;

    open spec fn view(&self) -> IngestActionView {
        match self {
            IngestAction::FetchVideoItems { url } => IngestActionView::FetchVideoItems {
                url: url@,
            },
            IngestAction::LookupChannel { youtube_id } => IngestActionView::LookupChannel {
                youtube_id: youtube_id@,
            },
            IngestAction::FetchChannelItems { url } => IngestActionView::FetchChannelItems {
                url: url@,
            },
            IngestAction::InsertChannel { channel } => IngestActionView::InsertChannel {
                channel: channel@,
            },
            IngestAction::FetchPage { url } => IngestActionView::FetchPage { url: url@ },
            IngestAction::DecodeTracks { json } => IngestActionView::DecodeTracks { json: json@ },
            IngestAction::FetchTimedText { url } => IngestActionView::FetchTimedText {
                url: url@,
            },
            IngestAction::Persist { video, raw_text, snippets } => IngestActionView::Persist {
                video: video@,
                raw_text: raw_text@,
                snippets: snippet_views(snippets@),
            },
            IngestAction::Finish { outcome } => IngestActionView::Finish { outcome: *outcome },
        }
    }
}

/// What happened when the caller did what it was asked.
#[derive(Debug, Clone, PartialEq, Eq)]
pub enum IngestEvent {
    /// It could not be done: the fetch failed, the answer did not have the expected
    /// shape, or the store refused.
    Failed,
    /// The video items of the read API's answer.
    VideoItems { videos: Vec<VideoItem> },
    /// The store's id of the channel, or `None` where the store does not know it.
    ChannelLookup { found: Option<i32> },
    /// The channel items of the read API's answer.
    ChannelItems { channels: Vec<ChannelItem> },
    /// The store's id of the channel that was stored.
    ChannelCreated { id: i32 },
    /// The page of the video.
    Page { body: String },
    /// The captions configuration of the page.
    Tracks { data: YouTubeHtmlCaptionData },
    /// The timed-text document.
    TimedText { markup: String },
    /// The store's ids of the video and of its caption document.
    Persisted { video_id: i32, caption_id: i32 },
}

/// An `IngestEvent` with its texts as characters.
pub enum IngestEventView {
    Failed,
    VideoItems { videos: Seq<VideoItemView> },
    ChannelLookup { found: Option<i32> },
    ChannelItems { channels: Seq<ChannelItemView> },
    ChannelCreated { id: i32 },
    Page { body: Seq<char> },
    Tracks { urls: Seq<Seq<char>> },
    TimedText { markup: Seq<char> },
    Persisted { video_id: i32, caption_id: i32 },
}

impl View for IngestEvent {
    type V = IngestEventView;

    open spec fn view(&self) -> IngestEventView {
        match self {
            IngestEvent::Failed => IngestEventView::Failed,
            IngestEvent::VideoItems { videos } => IngestEventView::VideoItems {
                videos: video_item_views(videos@),
            },
            IngestEvent::ChannelLookup { found } => IngestEventView::ChannelLookup {
                found: *found,
            },
            IngestEvent::ChannelItems { channels } => IngestEventView::ChannelItems {
                channels: channel_item_views(channels@),
            },
            IngestEvent::ChannelCreated { id } => IngestEventView::ChannelCreated { id: *id },
            IngestEvent::Page { body } => IngestEventView::Page { body: body@ },
            IngestEvent::Tracks { data } => IngestEventView::Tracks { urls: data@ },
            IngestEvent::TimedText { markup } => IngestEventView::TimedText { markup: markup@ },
            IngestEvent::Persisted { video_id, caption_id } => IngestEventView::Persisted {
                video_id: *video_id,
                caption_id: *caption_id,
            },
        }
    }
}

/// The end of an ingestion that failed with `error`.
pub open spec fn failed(error: IngestError) -> (IngestStateView, IngestActionView) {
    (
        IngestStateView::Finished { outcome: Err(error) },
        IngestActionView::Finish { outcome: Err(error) },
    )
}

/// The video of an item of the read API, before its channel is resolved.
pub open spec fn pending_of(
    url: Seq<char>,
    youtube_id: Seq<char>,
    item: VideoItemView,
    views: i64,
    length: i32,
) -> PendingVideoView {
    PendingVideoView {
        title: item.title,
        url,
        upload_datetime: rfc3339_seconds(item.published_at),
        views,
        length,
        thumbnail: item.thumbnail,
        youtube_id,
        channel_youtube_id: item.channel_id,
    }
}

/// The video that is stored once the store's id of its channel is known.
pub open spec fn resolved(pending: PendingVideoView, channel_id: i32) -> NewVideoView {
    NewVideoView {
        channel_id,
        title: pending.title,
        url: pending.url,
        upload_datetime: pending.upload_datetime,
        views: pending.views,
        length: pending.length,
        thumbnail: pending.thumbnail,
        youtube_id: pending.youtube_id,
    }
}

/// What follows once the channel of a video is resolved: the page of the video is
/// fetched.
pub open spec fn with_channel(pending: PendingVideoView, channel_id: i32) -> (
    IngestStateView,
    IngestActionView,
) {
    (
        IngestStateView::AwaitingPage { video: resolved(pending, channel_id) },
        IngestActionView::FetchPage { url: watch_address(pending.youtube_id) },
    )
}

/// The first state and action of the ingestion of `url`.
pub open spec fn first_step(url: Seq<char>, api_key: Seq<char>) -> (
    IngestStateView,
    IngestActionView,
) {
    match extracted_id(url) {
        None => failed(IngestError::InvalidUrl),
        Some(youtube_id) => (
            IngestStateView::AwaitingVideoItems { api_key, url, youtube_id },
            IngestActionView::FetchVideoItems {
                url: request_address(MetadataKind::Video, api_key, youtube_id),
            },
        ),
    }
}

/// The state and action that follow `state` on `event`.
///
/// Each state awaits one kind of event. Any other event, `Failed` among them, ends
/// the ingestion: with `StoreError` where the store was asked, with `UpstreamError`
/// everywhere else. An ingestion that is over stays as it is.
pub open spec fn next_step(state: IngestStateView, event: IngestEventView) -> (
    IngestStateView,
    IngestActionView,
) {
    match state {
        IngestStateView::AwaitingVideoItems { api_key, url, youtube_id } => match event {
            IngestEventView::VideoItems { videos: items } => if items.len() == 0 {
                failed(IngestError::NotFound)
            } else {
                match (signed_value(items[0].view_count), duration_seconds(items[0].duration)) {
                    (Some(views), Some(length)) => {
                        let pending = pending_of(url, youtube_id, items[0], views, length);
                        (
                            IngestStateView::AwaitingChannel { api_key, pending },
                            IngestActionView::LookupChannel {
                                youtube_id: pending.channel_youtube_id,
                            },
                        )
                    },
                    _ => failed(IngestError::UpstreamError),
                }
            },
            _ => failed(IngestError::UpstreamError),
        },
        IngestStateView::AwaitingChannel { api_key, pending } => match event {
            IngestEventView::ChannelLookup { found: Some(id) } => with_channel(pending, id),
            IngestEventView::ChannelLookup { found: None } => (
                IngestStateView::AwaitingChannelItems { pending },
                IngestActionView::FetchChannelItems {
                    url: request_address(
                        MetadataKind::Channel,
                        api_key,
                        pending.channel_youtube_id,
                    ),
                },
            ),
            _ => failed(IngestError::StoreError),
        },
        IngestStateView::AwaitingChannelItems { pending } => match event {
            IngestEventView::ChannelItems { channels: items } => if items.len() == 0 {
                failed(IngestError::NotFound)
            } else {
                (
                    IngestStateView::AwaitingChannelCreated { pending },
                    IngestActionView::InsertChannel { channel: channel_of(items[0]) },
                )
            },
            _ => failed(IngestError::UpstreamError),
        },
        IngestStateView::AwaitingChannelCreated { pending } => match event {
            IngestEventView::ChannelCreated { id } => with_channel(pending, id),
            _ => failed(IngestError::StoreError),
        },
        IngestStateView::AwaitingPage { video } => match event {
            IngestEventView::Page { body } => match captions_block(body) {
                None => failed(IngestError::CaptionsUnavailable),
                Some(json) => (
                    IngestStateView::AwaitingTracks { video },
                    IngestActionView::DecodeTracks { json },
                ),
            },
            _ => failed(IngestError::UpstreamError),
        },
        IngestStateView::AwaitingTracks { video } => match event {
            IngestEventView::Tracks { urls } => if urls.len() > TRACK_POSITION {
                (
                    IngestStateView::AwaitingTimedText { video },
                    IngestActionView::FetchTimedText { url: urls[TRACK_POSITION as int] },
                )
            } else {
                failed(IngestError::UpstreamError)
            },
            _ => failed(IngestError::UpstreamError),
        },
        IngestStateView::AwaitingTimedText { video } => match event {
            IngestEventView::TimedText { markup } => match assembled(markup_events(markup)) {
                None => failed(IngestError::MalformedCaptions),
                Some(snippets) => (
                    IngestStateView::AwaitingPersisted,
                    IngestActionView::Persist { video, raw_text: joined_text(snippets), snippets },
                ),
            },
            _ => failed(IngestError::UpstreamError),
        },
        IngestStateView::AwaitingPersisted => match event {
            IngestEventView::Persisted { video_id, caption_id } => (
                IngestStateView::Finished { outcome: Ok(video_id) },
                IngestActionView::Finish { outcome: Ok(video_id) },
            ),
            _ => failed(IngestError::StoreError),
        },
        IngestStateView::Finished { outcome } => (
            IngestStateView::Finished { outcome },
            IngestActionView::Finish { outcome },
        ),
    }
}

/// The end of an ingestion that failed with `error`.
fn fail(error: IngestError) -> (r: (IngestState, IngestAction))
    ensures
        (r.0@, r.1@) == failed(error),
{
    (IngestState::Finished { outcome: Err(error) }, IngestAction::Finish { outcome: Err(error) })
}

/// What follows once the channel of a video is resolved.
fn resolve(pending: PendingVideo, channel_id: i32) -> (r: (IngestState, IngestAction))
    ensures
        (r.0@, r.1@) == with_channel(pending@, channel_id),
{
    let url = watch_url(pending.youtube_id.as_str());
    let video = NewVideo {
        channel_id,
        title: pending.title,
        url: pending.url,
        upload_datetime: pending.upload_datetime,
        views: pending.views,
        length: pending.length,
        thumbnail: pending.thumbnail,
        youtube_id: pending.youtube_id,
    };
    (IngestState::AwaitingPage { video }, IngestAction::FetchPage { url })
}

/// Begins the ingestion of the video that `video_url` names: fails with `InvalidUrl`
/// where the URL gives no identifier, and else asks for the video's metadata, with
/// `api_key` as the credential.
pub fn create_video(video_url: &NewVideoUrl, api_key: &str) -> (r: (IngestState, IngestAction))
    ensures
        (r.0@, r.1@) == first_step(video_url.url@, api_key@),
{
    let url = video_url.url.as_str();
    match extract(url) {
        Err(_) => fail(IngestError::InvalidUrl),
        Ok(youtube_id) => {
            let request = metadata_request(MetadataKind::Video, api_key, youtube_id.as_str());
            (
                IngestState::AwaitingVideoItems {
                    api_key: api_key.to_owned(),
                    url: url.to_owned(),
                    youtube_id,
                },
                IngestAction::FetchVideoItems { url: request },
            )
        },
    }
}

/// Continues an ingestion: the state and action that follow `state` on `event`.
pub fn step(state: IngestState, event: IngestEvent) -> (r: (IngestState, IngestAction))
    ensures
        (r.0@, r.1@) == next_step(state@, event@),
{
    match state {
        IngestState::AwaitingVideoItems { api_key, url, youtube_id } => match event {
            IngestEvent::VideoItems { videos: items } => {
                let ghost all = video_item_views(items@);
                match first_item(items) {
                    Err(_) => fail(IngestError::NotFound),
                    Ok(item) => {
                        assert(item@ == all[0]);
                        match (view_count(&item), video_length(&item)) {
                            (Ok(views), Ok(length)) => {
                                let lookup = item.channel_id.clone();
                                let published = upload_time(&item);
                                let pending = PendingVideo {
                                    title: item.title,
                                    url,
                                    upload_datetime: published,
                                    views,
                                    length,
                                    thumbnail: item.thumbnail,
                                    youtube_id,
                                    channel_youtube_id: item.channel_id,
                                };
                                (
                                    IngestState::AwaitingChannel { api_key, pending },
                                    IngestAction::LookupChannel { youtube_id: lookup },
                                )
                            },
                            _ => fail(IngestError::UpstreamError),
                        }
                    },
                }
            },
            _ => fail(IngestError::UpstreamError),
        },
        IngestState::AwaitingChannel { api_key, pending } => match event {
            IngestEvent::ChannelLookup { found: Some(id) } => resolve(pending, id),
            IngestEvent::ChannelLookup { found: None } => {
                let request = metadata_request(
                    MetadataKind::Channel,
                    api_key.as_str(),
                    pending.channel_youtube_id.as_str(),
                );
                (
                    IngestState::AwaitingChannelItems { pending },
                    IngestAction::FetchChannelItems { url: request },
                )
            },
            _ => fail(IngestError::StoreError),
        },
        IngestState::AwaitingChannelItems { pending } => match event {
            IngestEvent::ChannelItems { channels: items } => {
                let ghost all = channel_item_views(items@);
                match first_item(items) {
                    Err(_) => fail(IngestError::NotFound),
                    Ok(item) => {
                        assert(item@ == all[0]);
                        (
                            IngestState::AwaitingChannelCreated { pending },
                            IngestAction::InsertChannel { channel: new_channel(item) },
                        )
                    },
                }
            },
            _ => fail(IngestError::UpstreamError),
        },
        IngestState::AwaitingChannelCreated { pending } => match event {
            IngestEvent::ChannelCreated { id } => resolve(pending, id),
            _ => fail(IngestError::StoreError),
        },
        IngestState::AwaitingPage { video } => match event {
            IngestEvent::Page { body } => match captions_json(body.as_str()) {
                Err(_) => fail(IngestError::CaptionsUnavailable),
                Ok(json) => (
                    IngestState::AwaitingTracks { video },
                    IngestAction::DecodeTracks { json },
                ),
            },
            _ => fail(IngestError::UpstreamError),
        },
        IngestState::AwaitingTracks { video } => match event {
            IngestEvent::Tracks { data } => match select_track(&data) {
                Err(_) => fail(IngestError::UpstreamError),
                Ok(url) => (
                    IngestState::AwaitingTimedText { video },
                    IngestAction::FetchTimedText { url },
                ),
            },
            _ => fail(IngestError::UpstreamError),
        },
        IngestState::AwaitingTimedText { video } => match event {
            IngestEvent::TimedText { markup } => match parse_timed_text(markup.as_str()) {
                Err(_) => fail(IngestError::MalformedCaptions),
                Ok(snippets) => {
                    let raw = raw_text(&snippets);
                    (
                        IngestState::AwaitingPersisted,
                        IngestAction::Persist { video, raw_text: raw, snippets },
                    )
                },
            },
            _ => fail(IngestError::UpstreamError),
        },
        IngestState::AwaitingPersisted => match event {
            IngestEvent::Persisted { video_id, caption_id } => (
                IngestState::Finished { outcome: Ok(video_id) },
                IngestAction::Finish { outcome: Ok(video_id) },
            ),
            _ => fail(IngestError::StoreError),
        },
        IngestState::Finished { outcome } => (
            IngestState::Finished { outcome },
            IngestAction::Finish { outcome },
        ),
    }
}

/// One timestamp of a stored caption document: a snippet with the store's ids of its
/// video and of its caption document.
#[derive(Debug, Clone, PartialEq, Eq)]
pub struct CaptionTimestamp {
    pub video_id: i32,
    pub caption_id: i32,
    pub caption_text: String,
    /// Milliseconds.
    pub start: u64,
    /// Milliseconds.
    pub duration: u64,
}

/// A `CaptionTimestamp` with its text as characters.
pub struct CaptionTimestampView {
    pub video_id: i32,
    pub caption_id: i32,
    pub caption_text: Seq<char>,
    pub start: u64,
    pub duration: u64,
}

impl View for CaptionTimestamp {
    type V = CaptionTimestampView;

    open spec fn view(&self) -> CaptionTimestampView {
        CaptionTimestampView {
            video_id: self.video_id,
            caption_id: self.caption_id,
            caption_text: self.caption_text@,
            start: self.start,
            duration: self.duration,
        }
    }
}

/// The views of a list of timestamps.
pub open spec fn timestamp_views(rows: Seq<CaptionTimestamp>) -> Seq<CaptionTimestampView> {
    rows.map_values(|r: CaptionTimestamp| r@)
}

/// The timestamp that is stored for a snippet.
pub open spec fn timestamp_of(video_id: i32, caption_id: i32, snippet: CaptionSnippetView)
    -> CaptionTimestampView {
    CaptionTimestampView {
        video_id,
        caption_id,
        caption_text: snippet.text,
        start: snippet.start,
        duration: snippet.duration,
    }
}

/// The timestamps that are stored for the snippets of a caption document: one for
/// each snippet, in order.
pub open spec fn timestamps_of(video_id: i32, caption_id: i32, snippets: Seq<CaptionSnippetView>)
    -> Seq<CaptionTimestampView> {
    snippets.map_values(|s: CaptionSnippetView| timestamp_of(video_id, caption_id, s))
}

/// The timestamps that are written with a video: one for each of its snippets, in
/// order, each with the store's ids of the video and of its caption document.
pub fn caption_timestamps(video_id: i32, caption_id: i32, snippets: &Vec<CaptionSnippet>) -> (rows:
    Vec<CaptionTimestamp>)
    ensures
        timestamp_views(rows@) == timestamps_of(video_id, caption_id, snippet_views(snippets@)),
{
    let mut rows: Vec<CaptionTimestamp> = Vec::new();
    let mut i: usize = 0;
    while i < snippets.len()
        invariant
            i <= snippets.len(),
            timestamp_views(rows@) == timestamps_of(
                video_id,
                caption_id,
                snippet_views(snippets@).take(i as int),
            ),
        decreases snippets.len() - i,
    {
        let ghost before = timestamp_views(rows@);
        let row = CaptionTimestamp {
            video_id,
            caption_id,
            caption_text: snippets[i].text.clone(),
            start: snippets[i].start,
            duration: snippets[i].duration,
        };
        rows.push(row);
        proof {
            let all = snippet_views(snippets@);
            assert(timestamp_views(rows@) == before.push(row@));
            assert(all.take(i + 1) == all.take(i as int).push(snippets@[i as int]@));
            assert(timestamps_of(video_id, caption_id, all.take(i + 1)) == before.push(row@));
        }
        i += 1;
    }
    assert(snippet_views(snippets@).take(snippets@.len() as int) == snippet_views(snippets@));
    rows
}

/// The state that an ingestion begun in `state` is in after `events`.
pub open spec fn state_after(state: IngestStateView, events: Seq<IngestEventView>)
    -> IngestStateView
    decreases events.len(),
{
    if events.len() == 0 {
        state
    } else {
        next_step(state_after(state, events.drop_last()), events.last()).0
    }
}

/// The action that the last of `events` brings about in an ingestion begun in `state`.
pub open spec fn action_after(state: IngestStateView, events: Seq<IngestEventView>)
    -> IngestActionView
    recommends
        events.len() > 0,
{
    next_step(state_after(state, events.drop_last()), events.last()).1
}

/// An action that writes to the store.
pub open spec fn writes(action: IngestActionView) -> bool {
    action is InsertChannel || action is Persist
}

/// An ingestion ends when it fails, and only then or when it is done: the next state
/// is `Finished` exactly where the action is `Finish`, with the same outcome, and an
/// ingestion that was not over before ends well only on the store's answer to the
/// write of the video, with the id that the store gave.
pub proof fn lemma_end_of_ingestion(state: IngestStateView, event: IngestEventView)
    ensures
        next_step(state, event).0 is Finished <==> next_step(state, event).1 is Finish,
        match next_step(state, event).0 {
            IngestStateView::Finished { outcome } => {
                &&& next_step(state, event).1 == (IngestActionView::Finish { outcome })
                &&& outcome is Ok && !(state is Finished) ==> state is AwaitingPersisted && (event
                    matches IngestEventView::Persisted { video_id, .. } && outcome == Ok::<
                    i32,
                    IngestError,
                >(video_id))
            },
            _ => true,
        },
{
}

/// Nothing is written before everything was fetched and read. The video is handed
/// to the store only on a timed-text document that could be read, with the snippets
/// of that document; a channel only on the read API's answer that describes it.
pub proof fn lemma_writes_come_last(state: IngestStateView, event: IngestEventView)
    ensures
        match next_step(state, event).1 {
            IngestActionView::Persist { video, raw_text, snippets } => {
                &&& state == (IngestStateView::AwaitingTimedText { video })
                &&& event matches IngestEventView::TimedText { markup } && assembled(
                    markup_events(markup),
                ) == Some(snippets)
                &&& raw_text == joined_text(snippets)
            },
            IngestActionView::InsertChannel { channel } => {
                &&& state is AwaitingChannelItems
                &&& event matches IngestEventView::ChannelItems { channels } && channels.len() > 0
                    && channel == channel_of(channels[0])
            },
            _ => true,
        },
{
}

/// The stages of an ingestion follow each other in one order: each state is entered
/// only from the state before it, on the event that state awaited. The page of the
/// video is awaited once its channel is known, found or created.
pub proof fn lemma_stages_in_order(state: IngestStateView, event: IngestEventView)
    ensures
        ({
            let next = next_step(state, event).0;
            &&& !(next is AwaitingVideoItems)
            &&& next is AwaitingChannel ==> state is AwaitingVideoItems && event is VideoItems
            &&& next is AwaitingChannelItems ==> state is AwaitingChannel && event
                == (IngestEventView::ChannelLookup { found: None })
            &&& next is AwaitingChannelCreated ==> state is AwaitingChannelItems && event
                is ChannelItems
            &&& next is AwaitingPage ==> (state is AwaitingChannel && event is ChannelLookup)
                || (state is AwaitingChannelCreated && event is ChannelCreated)
            &&& next is AwaitingTracks ==> state is AwaitingPage && event is Page
            &&& next is AwaitingTimedText ==> state is AwaitingTracks && event is Tracks
            &&& next is AwaitingPersisted ==> state is AwaitingTimedText && event is TimedText
        }),
{
}

/// An ingestion that is over stays over: whatever events follow, the state and the
/// outcome stay, and every action is `Finish`. So nothing is written after a failure.
pub proof fn lemma_over_stays_over(
    state: IngestStateView,
    events: Seq<IngestEventView>,
    n: int,
    m: int,
)
    requires
        0 <= n < m <= events.len(),
        state_after(state, events.take(n)) is Finished,
    ensures
        state_after(state, events.take(m)) == state_after(state, events.take(n)),
        action_after(state, events.take(m)) is Finish,
        !writes(action_after(state, events.take(m))),
    decreases m,
{
    assert(events.take(m).drop_last() == events.take(m - 1));
    if n < m - 1 {
        lemma_over_stays_over(state, events, n, m - 1);
    }
}

/// The video is written at most once: after the action that hands it to the store,
/// every further action is `Finish`.
pub proof fn lemma_one_write(state: IngestStateView, events: Seq<IngestEventView>, n: int, m: int)
    requires
        0 < n < m <= events.len(),
        action_after(state, events.take(n)) is Persist,
    ensures
        action_after(state, events.take(m)) is Finish,
{
    assert(events.take(n + 1).drop_last() == events.take(n));
    lemma_writes_come_last(state_after(state, events.take(n).drop_last()), events.take(n).last());
    assert(state_after(state, events.take(n)) is AwaitingPersisted);
    assert(state_after(state, events.take(n + 1)) is Finished);
    if n + 1 < m {
        lemma_over_stays_over(state, events, n + 1, m);
    } else {
        lemma_end_of_ingestion(state_after(state, events.take(n)), events.take(n + 1).last());
    }
}

/// An ingestion is refused for no other reason than a failure of its own. Where the
/// URL gives an identifier, the read API names the video with a number of views and a
/// duration, the store knows the channel, the page holds a captions configuration with
/// a track at `TRACK_POSITION`, and the timed-text document can be read, the video is
/// handed to the store with its snippets, and the store's id of it is the outcome.
///
/// No step asks whether the video was taken in before: taking in one URL twice hands
/// two videos to the store.
pub proof fn lemma_success_is_owed(
    url: Seq<char>,
    api_key: Seq<char>,
    items: Seq<VideoItemView>,
    channel_id: i32,
    body: Seq<char>,
    urls: Seq<Seq<char>>,
    markup: Seq<char>,
    video_id: i32,
    caption_id: i32,
)
    requires
        extracted_id(url) is Some,
        items.len() > 0,
        signed_value(items[0].view_count) is Some,
        duration_seconds(items[0].duration) is Some,
        captions_block(body) is Some,
        urls.len() > TRACK_POSITION,
        assembled(markup_events(markup)) is Some,
    ensures
        ({
            let video = resolved(
                pending_of(
                    url,
                    extracted_id(url)->0,
                    items[0],
                    signed_value(items[0].view_count)->0,
                    duration_seconds(items[0].duration)->0,
                ),
                channel_id,
            );
            let snippets = assembled(markup_events(markup))->0;
            let s0 = first_step(url, api_key);
            let s1 = next_step(s0.0, IngestEventView::VideoItems { videos: items });
            let s2 = next_step(s1.0, IngestEventView::ChannelLookup { found: Some(channel_id) });
            let s3 = next_step(s2.0, IngestEventView::Page { body });
            let s4 = next_step(s3.0, IngestEventView::Tracks { urls });
            let s5 = next_step(s4.0, IngestEventView::TimedText { markup });
            let s6 = next_step(s5.0, IngestEventView::Persisted { video_id, caption_id });
            &&& s0.1 is FetchVideoItems
            &&& s1.1 == (IngestActionView::LookupChannel { youtube_id: items[0].channel_id })
            &&& s2.1 is FetchPage
            &&& s3.1 == (IngestActionView::DecodeTracks { json: captions_block(body)->0 })
            &&& s4.1 == (IngestActionView::FetchTimedText { url: urls[TRACK_POSITION as int] })
            &&& s5.1 == (IngestActionView::Persist {
                video,
                raw_text: joined_text(snippets),
                snippets,
            })
            &&& s6.1 == (IngestActionView::Finish { outcome: Ok(video_id) })
        }),
{
}

/// A channel that the store does not know is created by every ingestion that finds it
/// missing. Two ingestions of videos of one channel, each told that the store does not
/// know the channel, both fetch its description and both hand the same channel to the
/// store: the lookup and the insert are two steps, and nothing between them notices
/// the other ingestion.
pub proof fn lemma_missing_channel_is_created_by_each(
    api_key: Seq<char>,
    first: PendingVideoView,
    second: PendingVideoView,
    items: Seq<ChannelItemView>,
)
    requires
        first.channel_youtube_id == second.channel_youtube_id,
        items.len() > 0,
    ensures
        ({
            let missing = IngestEventView::ChannelLookup { found: None };
            let described = IngestEventView::ChannelItems { channels: items };
            let a = next_step(
                IngestStateView::AwaitingChannel { api_key, pending: first },
                missing,
            );
            let b = next_step(
                IngestStateView::AwaitingChannel { api_key, pending: second },
                missing,
            );
            &&& a.1 == (IngestActionView::FetchChannelItems {
                url: request_address(MetadataKind::Channel, api_key, first.channel_youtube_id),
            })
            &&& b.1 == a.1
            &&& next_step(a.0, described).1 == (IngestActionView::InsertChannel {
                channel: channel_of(items[0]),
            })
            &&& next_step(b.0, described).1 == next_step(a.0, described).1
        }),
{
}

} // verus!
