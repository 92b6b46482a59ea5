use yousearch::endpoints::videos::{create_video_response, CreateVideoResponse, NewVideoUrl};
use yousearch::error::IngestError;
use yousearch::ingestion::{
    caption_timestamps, create_video, step, CaptionTimestamp, IngestAction, IngestEvent,
    IngestState, NewVideo,
};
use yousearch::utils::captions::{
    CaptionSnippet, YouTubeCaptionTrack, YouTubeCaptionTracks, YouTubeHtmlCaptionData,
};
use yousearch::utils::metadata::{ChannelItem, NewChannel, VideoItem};

const URL: &str = "https://www.youtube.com/watch?v=TTjYjSEGHek";
const KEY: &str = "KEY";
const PAGE: &str = "<html>{\"captions\":{\"tracks\":2},\"videoDetails\":{}}</html>";
const MARKUP: &str = "<transcript><text start=\"1.0\" dur=\"2.0\">hello</text>\
    <text start=\"5.5\" dur=\"1.2\">world</text></transcript>";

/// What the platform answers in these tests.
struct Platform {
    videos: Option<Vec<VideoItem>>,
    channels: Option<Vec<ChannelItem>>,
    page: Option<String>,
    tracks: Option<Vec<&'static str>>,
    timed_text: Option<String>,
}

/// A store in memory: it gives new ids in turn, and refuses where it is told to.
struct Store {
    channels: Vec<(i32, NewChannel)>,
    videos: Vec<(i32, NewVideo)>,
    documents: Vec<(i32, i32, String, Vec<CaptionSnippet>)>,
    timestamps: Vec<CaptionTimestamp>,
    next_id: i32,
    refuses_lookups: bool,
    refuses_writes: bool,
}

fn video_item(views: &str) -> VideoItem {
    VideoItem {
        id: "TTjYjSEGHek".to_string(),
        title: "A talk".to_string(),
        channel_id: "UC1".to_string(),
        channel_title: "Talks".to_string(),
        thumbnail: "https://img/v".to_string(),
        published_at: "2022-04-15T05:20:00Z".to_string(),
        view_count: views.to_string(),
        duration: "PT4M13S".to_string(),
    }
}

fn channel_item() -> ChannelItem {
    ChannelItem {
        id: "UC1".to_string(),
        title: "Talks".to_string(),
        thumbnail: "https://img/c".to_string(),
    }
}

fn platform() -> Platform {
    Platform {
        videos: Some(vec![video_item("1234")]),
        channels: Some(vec![channel_item()]),
        page: Some(PAGE.to_string()),
        tracks: Some(vec!["https://tt/0", "https://tt/1"]),
        timed_text: Some(MARKUP.to_string()),
    }
}

fn store() -> Store {
    Store {
        channels: Vec::new(),
        videos: Vec::new(),
        documents: Vec::new(),
        timestamps: Vec::new(),
        next_id: 1,
        refuses_lookups: false,
        refuses_writes: false,
    }
}

fn caption_data(urls: &[&str]) -> YouTubeHtmlCaptionData {
    YouTubeHtmlCaptionData {
        player_captions_tracklist_renderer: YouTubeCaptionTracks {
            caption_tracks: urls
                .iter()
                .map(|u| YouTubeCaptionTrack { base_url: u.to_string() })
                .collect(),
        },
    }
}

fn snippet(text: &str, start: u64, duration: u64) -> CaptionSnippet {
    CaptionSnippet { text: text.to_string(), start, duration }
}

fn new_video(channel_id: i32) -> NewVideo {
    NewVideo {
        channel_id,
        title: "A talk".to_string(),
        url: URL.to_string(),
        upload_datetime: Some(1_650_000_000),
        views: 1234,
        length: 253,
        thumbnail: "https://img/v".to_string(),
        youtube_id: "TTjYjSEGHek".to_string(),
    }
}

fn begin(url: &str) -> (IngestState, IngestAction) {
    create_video(&NewVideoUrl { url: url.to_string() }, KEY)
}

fn or_failed<T>(answer: Option<T>, event: impl FnOnce(T) -> IngestEvent) -> IngestEvent {
    match answer {
        Some(value) => event(value),
        None => IngestEvent::Failed,
    }
}

impl Store {
    fn take_id(&mut self) -> i32 {
        let id = self.next_id;
        self.next_id += 1;
        id
    }
}

/// Does what an action asks, and says what happened; `None` for `Finish`.
fn perform(store: &mut Store, platform: &Platform, action: IngestAction) -> Option<IngestEvent> {
    Some(match action {
        IngestAction::FetchVideoItems { .. } => {
            or_failed(platform.videos.clone(), |videos| IngestEvent::VideoItems { videos })
        }
        IngestAction::LookupChannel { youtube_id } => {
            if store.refuses_lookups {
                IngestEvent::Failed
            } else {
                let found = store.channels.iter().find(|(_, c)| c.youtube_id == youtube_id);
                IngestEvent::ChannelLookup { found: found.map(|(id, _)| *id) }
            }
        }
        IngestAction::FetchChannelItems { .. } => {
            or_failed(platform.channels.clone(), |channels| IngestEvent::ChannelItems { channels })
        }
        IngestAction::InsertChannel { channel } => {
            if store.refuses_writes {
                IngestEvent::Failed
            } else {
                let id = store.take_id();
                store.channels.push((id, channel));
                IngestEvent::ChannelCreated { id }
            }
        }
        IngestAction::FetchPage { .. } => {
            or_failed(platform.page.clone(), |body| IngestEvent::Page { body })
        }
        IngestAction::DecodeTracks { .. } => or_failed(platform.tracks.clone(), |urls| {
            IngestEvent::Tracks { data: caption_data(&urls) }
        }),
        IngestAction::FetchTimedText { .. } => {
            or_failed(platform.timed_text.clone(), |markup| IngestEvent::TimedText { markup })
        }
        IngestAction::Persist { video, raw_text, snippets } => {
            if store.refuses_writes {
                IngestEvent::Failed
            } else {
                let video_id = store.take_id();
                let caption_id = store.take_id();
                store.timestamps.extend(caption_timestamps(video_id, caption_id, &snippets));
                store.videos.push((video_id, video));
                store.documents.push((caption_id, video_id, raw_text, snippets));
                IngestEvent::Persisted { video_id, caption_id }
            }
        }
        IngestAction::Finish { .. } => return None,
    })
}

/// Runs one ingestion to its end.
fn ingest(store: &mut Store, platform: &Platform, url: &str) -> Result<i32, IngestError> {
    let (mut state, mut action) = begin(url);
    loop {
        match perform(store, platform, action) {
            Some(event) => {
                let next = step(state, event);
                state = next.0;
                action = next.1;
            }
            None => match state {
                IngestState::Finished { outcome } => return outcome,
                other => panic!("finish in state {:?}", other),
            },
        }
    }
}

/// Runs an ingestion up to the action that matches `stop`, and hands back where it
/// stands.
fn ingest_until(
    store: &mut Store,
    platform: &Platform,
    url: &str,
    stop: fn(&IngestAction) -> bool,
) -> (IngestState, IngestAction) {
    let (mut state, mut action) = begin(url);
    while !stop(&action) {
        let event = perform(store, platform, action).expect("the ingestion ended early");
        let next = step(state, event);
        state = next.0;
        action = next.1;
    }
    (state, action)
}

fn writes_nothing(store: &Store) -> bool {
    store.videos.is_empty() && store.documents.is_empty() && store.timestamps.is_empty()
}

#[test]
fn ingestion_goes_through_its_stages() {
    let (state, action) = begin(URL);
    assert_eq!(
        state,
        IngestState::AwaitingVideoItems {
            api_key: KEY.to_string(),
            url: URL.to_string(),
            youtube_id: "TTjYjSEGHek".to_string(),
        }
    );
    assert_eq!(
        action,
        IngestAction::FetchVideoItems {
            url: "https://www.googleapis.com/youtube/v3/videos?key=KEY&part=id,snippet,statistics,contentDetails&id=TTjYjSEGHek".to_string(),
        }
    );

    let (state, action) = step(state, IngestEvent::VideoItems { videos: vec![video_item("1234")] });
    assert!(matches!(state, IngestState::AwaitingChannel { .. }));
    assert_eq!(action, IngestAction::LookupChannel { youtube_id: "UC1".to_string() });

    let (state, action) = step(state, IngestEvent::ChannelLookup { found: None });
    assert!(matches!(state, IngestState::AwaitingChannelItems { .. }));
    assert_eq!(
        action,
        IngestAction::FetchChannelItems {
            url: "https://www.googleapis.com/youtube/v3/channels?key=KEY&part=id,snippet,statistics,contentDetails&id=UC1".to_string(),
        }
    );

    let (state, action) = step(state, IngestEvent::ChannelItems { channels: vec![channel_item()] });
    assert!(matches!(state, IngestState::AwaitingChannelCreated { .. }));
    assert_eq!(
        action,
        IngestAction::InsertChannel {
            channel: NewChannel {
                title: "Talks".to_string(),
                url: "https://youtube.com/channel/UC1".to_string(),
                thumbnail: "https://img/c".to_string(),
                youtube_id: "UC1".to_string(),
            },
        }
    );

    let (state, action) = step(state, IngestEvent::ChannelCreated { id: 17 });
    assert_eq!(state, IngestState::AwaitingPage { video: new_video(17) });
    assert_eq!(
        action,
        IngestAction::FetchPage { url: "https://www.youtube.com/watch?v=TTjYjSEGHek".to_string() }
    );

    let (state, action) = step(state, IngestEvent::Page { body: PAGE.to_string() });
    assert_eq!(state, IngestState::AwaitingTracks { video: new_video(17) });
    assert_eq!(action, IngestAction::DecodeTracks { json: "{\"tracks\":2}".to_string() });

    let data = caption_data(&["https://tt/0", "https://tt/1", "https://tt/2"]);
    let (state, action) = step(state, IngestEvent::Tracks { data });
    assert_eq!(state, IngestState::AwaitingTimedText { video: new_video(17) });
    assert_eq!(action, IngestAction::FetchTimedText { url: "https://tt/1".to_string() });

    let (state, action) = step(state, IngestEvent::TimedText { markup: MARKUP.to_string() });
    assert_eq!(state, IngestState::AwaitingPersisted);
    assert_eq!(
        action,
        IngestAction::Persist {
            video: new_video(17),
            raw_text: "hello world ".to_string(),
            snippets: vec![snippet("hello", 1000, 2000), snippet("world", 5500, 1200)],
        }
    );

    let (state, action) = step(state, IngestEvent::Persisted { video_id: 40, caption_id: 41 });
    assert_eq!(state, IngestState::Finished { outcome: Ok(40) });
    assert_eq!(action, IngestAction::Finish { outcome: Ok(40) });
    assert_eq!(create_video_response(Ok(40)), CreateVideoResponse { success: true, id: 40 });
}

#[test]
fn known_channel_is_not_fetched_again() {
    let (state, _) = begin(URL);
    let (state, _) = step(state, IngestEvent::VideoItems { videos: vec![video_item("1")] });
    let (state, action) = step(state, IngestEvent::ChannelLookup { found: Some(5) });
    assert!(matches!(state, IngestState::AwaitingPage { ref video } if video.channel_id == 5));
    assert!(matches!(action, IngestAction::FetchPage { .. }));
}

#[test]
fn ingestion_writes_video_document_and_timestamps() {
    let mut store = store();
    let id = ingest(&mut store, &platform(), URL).unwrap();
    assert_eq!(store.channels.len(), 1);
    let channel_id = store.channels[0].0;
    assert_eq!(store.videos, vec![(id, new_video(channel_id))]);
    assert_eq!(store.documents.len(), 1);
    let (caption_id, of_video, raw, snippets) = &store.documents[0];
    assert_eq!(*of_video, id);
    assert_eq!(raw, "hello world ");
    assert_eq!(snippets, &vec![snippet("hello", 1000, 2000), snippet("world", 5500, 1200)]);
    assert_eq!(
        store.timestamps,
        vec![
            CaptionTimestamp {
                video_id: id,
                caption_id: *caption_id,
                caption_text: "hello".to_string(),
                start: 1000,
                duration: 2000,
            },
            CaptionTimestamp {
                video_id: id,
                caption_id: *caption_id,
                caption_text: "world".to_string(),
                start: 5500,
                duration: 1200,
            },
        ]
    );
}

#[test]
fn invalid_url_ends_at_once() {
    let (state, action) = begin("https://example.com/x");
    assert_eq!(state, IngestState::Finished { outcome: Err(IngestError::InvalidUrl) });
    assert_eq!(action, IngestAction::Finish { outcome: Err(IngestError::InvalidUrl) });
    let mut store = store();
    assert_eq!(ingest(&mut store, &platform(), "nonsense"), Err(IngestError::InvalidUrl));
    assert!(writes_nothing(&store) && store.channels.is_empty());
}

#[test]
fn video_unknown_to_the_api_is_not_found() {
    let mut store = store();
    let platform = Platform { videos: Some(Vec::new()), ..platform() };
    assert_eq!(ingest(&mut store, &platform, URL), Err(IngestError::NotFound));
    assert!(writes_nothing(&store) && store.channels.is_empty());
}

#[test]
fn channel_unknown_to_the_api_is_not_found() {
    let mut store = store();
    let platform = Platform { channels: Some(Vec::new()), ..platform() };
    assert_eq!(ingest(&mut store, &platform, URL), Err(IngestError::NotFound));
    assert!(writes_nothing(&store) && store.channels.is_empty());
}

#[test]
fn failed_fetches_are_upstream_errors() {
    let cases = [
        Platform { videos: None, ..platform() },
        Platform { channels: None, ..platform() },
        Platform { page: None, ..platform() },
        Platform { tracks: None, ..platform() },
        Platform { timed_text: None, ..platform() },
    ];
    for platform in cases {
        let mut store = store();
        assert_eq!(ingest(&mut store, &platform, URL), Err(IngestError::UpstreamError));
        assert!(writes_nothing(&store));
    }
}

#[test]
fn view_count_that_is_no_number_is_an_upstream_error() {
    let mut store = store();
    let platform = Platform { videos: Some(vec![video_item("lots")]), ..platform() };
    assert_eq!(ingest(&mut store, &platform, URL), Err(IngestError::UpstreamError));
    assert!(writes_nothing(&store) && store.channels.is_empty());
}

#[test]
fn duration_that_cannot_be_read_is_an_upstream_error() {
    let mut store = store();
    let item = VideoItem { duration: "4:13".to_string(), ..video_item("1234") };
    let platform = Platform { videos: Some(vec![item]), ..platform() };
    assert_eq!(ingest(&mut store, &platform, URL), Err(IngestError::UpstreamError));
    assert!(writes_nothing(&store) && store.channels.is_empty());
}

#[test]
fn stored_length_is_the_duration_of_the_item() {
    let mut store = store();
    let item = VideoItem { duration: "PT5M".to_string(), ..video_item("1234") };
    let platform = Platform { videos: Some(vec![item]), ..platform() };
    let id = ingest(&mut store, &platform, URL).unwrap();
    assert_eq!(store.videos[0].0, id);
    assert_eq!(store.videos[0].1.length, 300);
}

#[test]
fn track_list_without_the_fixed_position_is_an_upstream_error() {
    let mut store = store();
    let platform = Platform { tracks: Some(vec!["https://tt/0"]), ..platform() };
    assert_eq!(ingest(&mut store, &platform, URL), Err(IngestError::UpstreamError));
    assert!(writes_nothing(&store));
}

#[test]
fn page_without_marker_is_captions_unavailable() {
    let mut store = store();
    let platform = Platform { page: Some("<html></html>".to_string()), ..platform() };
    assert_eq!(ingest(&mut store, &platform, URL), Err(IngestError::CaptionsUnavailable));
    assert!(writes_nothing(&store));
}

#[test]
fn unreadable_timed_text_is_malformed_captions() {
    let mut store = store();
    let broken = "<transcript><text start=\"1\" dur=\"1\">fine</text><text start=\"2\">cut";
    let platform = Platform { timed_text: Some(broken.to_string()), ..platform() };
    assert_eq!(ingest(&mut store, &platform, URL), Err(IngestError::MalformedCaptions));
    assert!(writes_nothing(&store));
}

#[test]
fn refused_lookup_is_a_store_error() {
    let mut store = Store { refuses_lookups: true, ..store() };
    assert_eq!(ingest(&mut store, &platform(), URL), Err(IngestError::StoreError));
    assert!(writes_nothing(&store) && store.channels.is_empty());
}

#[test]
fn refused_write_is_a_store_error() {
    let mut store = Store { refuses_writes: true, ..store() };
    assert_eq!(ingest(&mut store, &platform(), URL), Err(IngestError::StoreError));
    store.channels.push((1, NewChannel {
        title: "Talks".to_string(),
        url: "https://youtube.com/channel/UC1".to_string(),
        thumbnail: "https://img/c".to_string(),
        youtube_id: "UC1".to_string(),
    }));
    assert_eq!(ingest(&mut store, &platform(), URL), Err(IngestError::StoreError));
    assert!(writes_nothing(&store));
}

#[test]
fn event_that_is_not_awaited_ends_the_ingestion() {
    let (state, _) = begin(URL);
    let (state, action) = step(state, IngestEvent::Page { body: PAGE.to_string() });
    assert_eq!(state, IngestState::Finished { outcome: Err(IngestError::UpstreamError) });
    assert_eq!(action, IngestAction::Finish { outcome: Err(IngestError::UpstreamError) });

    let (state, action) = step(IngestState::AwaitingPersisted, IngestEvent::ChannelCreated { id: 3 });
    assert_eq!(state, IngestState::Finished { outcome: Err(IngestError::StoreError) });
    assert_eq!(action, IngestAction::Finish { outcome: Err(IngestError::StoreError) });
}

#[test]
fn finished_ingestion_stays_finished() {
    let events = || {
        vec![
            IngestEvent::Failed,
            IngestEvent::VideoItems { videos: vec![video_item("1")] },
            IngestEvent::ChannelLookup { found: Some(1) },
            IngestEvent::TimedText { markup: MARKUP.to_string() },
            IngestEvent::Persisted { video_id: 8, caption_id: 9 },
        ]
    };
    for outcome in [Ok(3), Err(IngestError::NotFound)] {
        for event in events() {
            let (state, action) = step(IngestState::Finished { outcome }, event);
            assert_eq!(state, IngestState::Finished { outcome });
            assert_eq!(action, IngestAction::Finish { outcome });
        }
    }
}

#[test]
fn ingesting_one_url_twice_stores_two_videos() {
    let mut store = store();
    let first = ingest(&mut store, &platform(), URL).unwrap();
    let second = ingest(&mut store, &platform(), URL).unwrap();
    assert_ne!(first, second);
    assert_eq!(store.channels.len(), 1);
    assert_eq!(store.videos.len(), 2);
    assert_eq!(store.videos[0].1, store.videos[1].1);
    assert_eq!(store.documents.len(), 2);
    assert_ne!(store.documents[0].0, store.documents[1].0);
    assert_eq!(store.documents[0].1, first);
    assert_eq!(store.documents[1].1, second);
    assert_eq!(store.timestamps.len(), 4);
}

#[test]
fn two_ingestions_that_find_a_channel_missing_both_create_it() {
    let mut store = store();
    let platform = platform();
    let short_url = "https://youtu.be/TTjYjSEGHek";
    let is_fetch_channel: fn(&IngestAction) -> bool =
        |a| matches!(a, IngestAction::FetchChannelItems { .. });
    // Both look the channel up before either has stored it.
    let (mut state_a, mut action_a) = ingest_until(&mut store, &platform, URL, is_fetch_channel);
    let (mut state_b, mut action_b) =
        ingest_until(&mut store, &platform, short_url, is_fetch_channel);
    assert!(store.channels.is_empty());
    while let Some(event) = perform(&mut store, &platform, action_a) {
        let next = step(state_a, event);
        state_a = next.0;
        action_a = next.1;
    }
    while let Some(event) = perform(&mut store, &platform, action_b) {
        let next = step(state_b, event);
        state_b = next.0;
        action_b = next.1;
    }
    assert!(matches!(state_a, IngestState::Finished { outcome: Ok(_) }));
    assert!(matches!(state_b, IngestState::Finished { outcome: Ok(_) }));
    assert_eq!(store.channels.len(), 2);
    assert_ne!(store.channels[0].0, store.channels[1].0);
    assert_eq!(store.channels[0].1, store.channels[1].1);
    assert_eq!(store.channels[0].1.youtube_id, "UC1");
    assert_eq!(store.videos[0].1.channel_id, store.channels[0].0);
    assert_eq!(store.videos[1].1.channel_id, store.channels[1].0);
}

#[test]
fn caption_timestamps_of_no_snippets() {
    assert_eq!(caption_timestamps(1, 2, &Vec::new()), Vec::new());
}

#[test]
fn caption_timestamps_one_for_each_snippet() {
    let rows = caption_timestamps(3, 4, &vec![snippet("a", 1, 2), snippet("b", 3, 4)]);
    assert_eq!(rows.len(), 2);
    assert!(rows.iter().all(|r| r.video_id == 3 && r.caption_id == 4));
    assert_eq!(rows[0].caption_text, "a");
    assert_eq!((rows[0].start, rows[0].duration), (1, 2));
    assert_eq!(rows[1].caption_text, "b");
    assert_eq!((rows[1].start, rows[1].duration), (3, 4));
}
