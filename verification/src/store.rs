//! What the library expects of the store, and what follows from it.
//!
//! The store is not part of this library: it is asked through the actions of an
//! ingestion and through the rows of a search. This module says, in specifications
//! only, what a store does with a write and which rows answer a search, and proves
//! what an ingestion and a search then come to. Nothing here is run, and nothing is
//! taken for granted: each law holds of every store that behaves as described.

use vstd::prelude::*;

use crate::decimal::signed_value;
use crate::endpoints::videos::MatchRowView;
use crate::ingestion::{
    first_step, next_step, pending_of, resolved, timestamps_of, CaptionTimestampView,
    IngestActionView, IngestEventView, IngestStateView, NewVideoView, PendingVideoView,
};
use crate::search::{
    bucket_index, buckets, caption_of, grouped, lemma_buckets_come_from_rows,
    lemma_buckets_shape, lemma_caption_has_row, lemma_one_bucket_per_video, row_in_place,
    run_start, words,
};
use crate::utils::captions::{
    assembled, captions_block, joined_text, markup_events, CaptionSnippetView, TRACK_POSITION,
};
use crate::utils::identifier::extracted_id;
use crate::utils::metadata::{
    channel_of, duration_seconds, ChannelItemView, NewChannelView, VideoItemView,
};

verus! {

/// A channel in the store, under the id that the store gave it.
pub struct StoredChannel {
    pub id: i32,
    pub channel: NewChannelView,
}

/// A video in the store, under the id that the store gave it.
pub struct StoredVideo {
    pub id: i32,
    pub video: NewVideoView,
}

/// A caption document in the store, with the store's id of its video.
pub struct StoredDocument {
    pub id: i32,
    pub video_id: i32,
    pub raw_text: Seq<char>,
    pub snippets: Seq<CaptionSnippetView>,
}

/// What the store holds, each kind in the order in which it was written.
pub struct Stored {
    pub channels: Seq<StoredChannel>,
    pub videos: Seq<StoredVideo>,
    pub documents: Seq<StoredDocument>,
    pub timestamps: Seq<CaptionTimestampView>,
}

/// The store knows a channel with the platform's id `youtube_id`.
pub open spec fn knows_channel(store: Stored, youtube_id: Seq<char>) -> bool {
    exists|i: int|
        0 <= i < store.channels.len() && (#[trigger] store.channels[i]).channel.youtube_id
            == youtube_id
}

/// What the store holds after it was asked `action` and answered `event`. A channel
/// that was created is added under its id. A video that was written is added with its
/// caption document and one timestamp for each snippet, all or nothing. Every other
/// action, and every write that the store refused, leaves the store as it was.
pub open spec fn store_after(store: Stored, action: IngestActionView, event: IngestEventView)
    -> Stored {
    match (action, event) {
        (
            IngestActionView::InsertChannel { channel },
            IngestEventView::ChannelCreated { id },
        ) => Stored { channels: store.channels.push(StoredChannel { id, channel }), ..store },
        (
            IngestActionView::Persist { video, raw_text, snippets },
            IngestEventView::Persisted { video_id, caption_id },
        ) => Stored {
            videos: store.videos.push(StoredVideo { id: video_id, video }),
            documents: store.documents.push(
                StoredDocument { id: caption_id, video_id, raw_text, snippets },
            ),
            timestamps: store.timestamps + timestamps_of(video_id, caption_id, snippets),
            ..store
        },
        _ => store,
    }
}

/// Where a store and an ingestion stand after `events`: the store after each action
/// was answered by the next event, and the state and action of the ingestion.
pub open spec fn after_run(
    store: Stored,
    state: IngestStateView,
    action: IngestActionView,
    events: Seq<IngestEventView>,
) -> (Stored, IngestStateView, IngestActionView)
    decreases events.len(),
{
    if events.len() == 0 {
        (store, state, action)
    } else {
        let next = next_step(state, events[0]);
        after_run(store_after(store, action, events[0]), next.0, next.1, events.drop_first())
    }
}

/// Where a store and the ingestion of `url` stand after `events`.
pub open spec fn after_ingestion(
    store: Stored,
    url: Seq<char>,
    api_key: Seq<char>,
    events: Seq<IngestEventView>,
) -> (Stored, IngestStateView, IngestActionView) {
    after_run(store, first_step(url, api_key).0, first_step(url, api_key).1, events)
}

/// The events of an ingestion in which everything succeeds and the store knows the
/// channel under `channel_id`, ending with the store's ids of the video and of its
/// caption document.
pub open spec fn smooth_events(
    items: Seq<VideoItemView>,
    channel_id: i32,
    body: Seq<char>,
    urls: Seq<Seq<char>>,
    markup: Seq<char>,
    video_id: i32,
    caption_id: i32,
) -> Seq<IngestEventView> {
    seq![
        IngestEventView::VideoItems { videos: items },
        IngestEventView::ChannelLookup { found: Some(channel_id) },
        IngestEventView::Page { body },
        IngestEventView::Tracks { urls },
        IngestEventView::TimedText { markup },
        IngestEventView::Persisted { video_id, caption_id },
    ]
}

/// A run takes its events one by one.
proof fn lemma_run_first(
    store: Stored,
    state: IngestStateView,
    action: IngestActionView,
    event: IngestEventView,
    rest: Seq<IngestEventView>,
)
    ensures
        after_run(store, state, action, seq![event] + rest) == after_run(
            store_after(store, action, event),
            next_step(state, event).0,
            next_step(state, event).1,
            rest,
        ),
{
    let events = seq![event] + rest;
    assert(events[0] == event);
    assert(events.drop_first() == rest);
}

/// An ingestion in which everything succeeds adds one video, one caption document
/// for it and one timestamp for each snippet to the store, and changes nothing else.
pub proof fn lemma_smooth_ingestion(
    store: Stored,
    url: Seq<char>,
    api_key: Seq<char>,
    items: Seq<VideoItemView>,
    channel_id: i32,
    body: Seq<char>,
    urls: Seq<Seq<char>>,
    markup: Seq<char>,
    video_id: i32,
    caption_id: i32,
)
    requires
        extracted_id(url) is Some,
        items.len() > 0,
        signed_value(items[0].view_count) is Some,
        duration_seconds(items[0].duration) is Some,
        captions_block(body) is Some,
        urls.len() > TRACK_POSITION,
        assembled(markup_events(markup)) is Some,
    ensures
        ({
            let video = resolved(
                pending_of(
                    url,
                    extracted_id(url)->0,
                    items[0],
                    signed_value(items[0].view_count)->0,
                    duration_seconds(items[0].duration)->0,
                ),
                channel_id,
            );
            let snippets = assembled(markup_events(markup))->0;
            let end = after_ingestion(
                store,
                url,
                api_key,
                smooth_events(items, channel_id, body, urls, markup, video_id, caption_id),
            );
            &&& end.1 == (IngestStateView::Finished { outcome: Ok(video_id) })
            &&& end.0.channels == store.channels
            &&& end.0.videos == store.videos.push(StoredVideo { id: video_id, video })
            &&& end.0.documents == store.documents.push(
                StoredDocument {
                    id: caption_id,
                    video_id,
                    raw_text: joined_text(snippets),
                    snippets,
                },
            )
            &&& end.0.timestamps == store.timestamps + timestamps_of(
                video_id,
                caption_id,
                snippets,
            )
        }),
{
    let e0 = IngestEventView::VideoItems { videos: items };
    let e1 = IngestEventView::ChannelLookup { found: Some(channel_id) };
    let e2 = IngestEventView::Page { body };
    let e3 = IngestEventView::Tracks { urls };
    let e4 = IngestEventView::TimedText { markup };
    let e5 = IngestEventView::Persisted { video_id, caption_id };
    let r5 = seq![e5];
    let r4 = seq![e4] + r5;
    let r3 = seq![e3] + r4;
    let r2 = seq![e2] + r3;
    let r1 = seq![e1] + r2;
    let r0 = seq![e0] + r1;
    assert(r0 == smooth_events(items, channel_id, body, urls, markup, video_id, caption_id));
    assert(r5 == seq![e5] + Seq::<IngestEventView>::empty());
    let s0 = first_step(url, api_key);
    let s1 = next_step(s0.0, e0);
    let s2 = next_step(s1.0, e1);
    let s3 = next_step(s2.0, e2);
    let s4 = next_step(s3.0, e3);
    let s5 = next_step(s4.0, e4);
    let t1 = store_after(store, s0.1, e0);
    let t2 = store_after(t1, s1.1, e1);
    let t3 = store_after(t2, s2.1, e2);
    let t4 = store_after(t3, s3.1, e3);
    let t5 = store_after(t4, s4.1, e4);
    lemma_run_first(store, s0.0, s0.1, e0, r1);
    lemma_run_first(t1, s1.0, s1.1, e1, r2);
    lemma_run_first(t2, s2.0, s2.1, e2, r3);
    lemma_run_first(t3, s3.0, s3.1, e3, r4);
    lemma_run_first(t4, s4.0, s4.1, e4, r5);
    lemma_run_first(t5, s5.0, s5.1, e5, Seq::<IngestEventView>::empty());
}

/// Taking in one URL twice stores two videos. Where the platform answers both times
/// alike and the store gives the second video and document ids of their own, the
/// store then holds both videos, with the same content and so the same external id,
/// and a caption document for each; what the first ingestion stored is still there,
/// unchanged. Nothing rejects the second video, and nothing merges it with the first.
pub proof fn lemma_second_ingestion_stores_a_second_video(
    store: Stored,
    url: Seq<char>,
    api_key: Seq<char>,
    items: Seq<VideoItemView>,
    channel_id: i32,
    body: Seq<char>,
    urls: Seq<Seq<char>>,
    markup: Seq<char>,
    first: (i32, i32),
    second: (i32, i32),
)
    requires
        extracted_id(url) is Some,
        items.len() > 0,
        signed_value(items[0].view_count) is Some,
        duration_seconds(items[0].duration) is Some,
        captions_block(body) is Some,
        urls.len() > TRACK_POSITION,
        assembled(markup_events(markup)) is Some,
        first.0 != second.0,
        first.1 != second.1,
    ensures
        ({
            let once = after_ingestion(
                store,
                url,
                api_key,
                smooth_events(items, channel_id, body, urls, markup, first.0, first.1),
            );
            let twice = after_ingestion(
                once.0,
                url,
                api_key,
                smooth_events(items, channel_id, body, urls, markup, second.0, second.1),
            );
            let n = store.videos.len() as int;
            let d = store.documents.len() as int;
            &&& once.1 == (IngestStateView::Finished { outcome: Ok(first.0) })
            &&& twice.1 == (IngestStateView::Finished { outcome: Ok(second.0) })
            &&& twice.0.videos.len() == n + 2
            &&& twice.0.videos.take(n + 1) == once.0.videos
            &&& twice.0.videos[n].id == first.0
            &&& twice.0.videos[n + 1].id == second.0
            &&& twice.0.videos[n].video == twice.0.videos[n + 1].video
            &&& twice.0.videos[n].video.youtube_id == extracted_id(url)->0
            &&& twice.0.documents.len() == d + 2
            &&& twice.0.documents.take(d + 1) == once.0.documents
            &&& twice.0.documents[d].video_id == first.0
            &&& twice.0.documents[d + 1].video_id == second.0
            &&& twice.0.documents[d].id == first.1
            &&& twice.0.documents[d + 1].id == second.1
        }),
{
    lemma_smooth_ingestion(
        store,
        url,
        api_key,
        items,
        channel_id,
        body,
        urls,
        markup,
        first.0,
        first.1,
    );
    let once = after_ingestion(
        store,
        url,
        api_key,
        smooth_events(items, channel_id, body, urls, markup, first.0, first.1),
    );
    lemma_smooth_ingestion(
        once.0,
        url,
        api_key,
        items,
        channel_id,
        body,
        urls,
        markup,
        second.0,
        second.1,
    );
    let twice = after_ingestion(
        once.0,
        url,
        api_key,
        smooth_events(items, channel_id, body, urls, markup, second.0, second.1),
    );
    assert(twice.0.videos.take(store.videos.len() as int + 1) == once.0.videos);
    assert(twice.0.documents.take(store.documents.len() as int + 1) == once.0.documents);
}

/// Two ingestions that look up one unknown channel at the same time store it twice.
/// Both are told that the store does not know the channel, which is true of the store
/// at that time. Each then fetches the channel's description and has it stored. The
/// store ends with two channels of the same external id under two ids, and each video
/// goes on with the id of the channel that its own ingestion stored.
pub proof fn lemma_channel_race(
    store: Stored,
    api_key: Seq<char>,
    first: PendingVideoView,
    second: PendingVideoView,
    items: Seq<ChannelItemView>,
    first_id: i32,
    second_id: i32,
)
    requires
        first.channel_youtube_id == second.channel_youtube_id,
        !knows_channel(store, first.channel_youtube_id),
        items.len() > 0,
        items[0].id == first.channel_youtube_id,
        first_id != second_id,
    ensures
        ({
            let missing = IngestEventView::ChannelLookup { found: None };
            let described = IngestEventView::ChannelItems { channels: items };
            // Both lookups are answered before either channel is stored.
            let a1 = next_step(
                IngestStateView::AwaitingChannel { api_key, pending: first },
                missing,
            );
            let b1 = next_step(
                IngestStateView::AwaitingChannel { api_key, pending: second },
                missing,
            );
            let a2 = next_step(a1.0, described);
            let b2 = next_step(b1.0, described);
            let one = store_after(store, a2.1, IngestEventView::ChannelCreated { id: first_id });
            let a3 = next_step(a2.0, IngestEventView::ChannelCreated { id: first_id });
            let two = store_after(one, b2.1, IngestEventView::ChannelCreated { id: second_id });
            let b3 = next_step(b2.0, IngestEventView::ChannelCreated { id: second_id });
            let n = store.channels.len() as int;
            &&& two.channels.len() == n + 2
            &&& two.channels.take(n) == store.channels
            &&& two.channels[n].id == first_id
            &&& two.channels[n + 1].id == second_id
            &&& two.channels[n].channel.youtube_id == first.channel_youtube_id
            &&& two.channels[n + 1].channel.youtube_id == first.channel_youtube_id
            &&& a3.0 == (IngestStateView::AwaitingPage { video: resolved(first, first_id) })
            &&& b3.0 == (IngestStateView::AwaitingPage { video: resolved(second, second_id) })
        }),
{
    let n = store.channels.len() as int;
    let channel = channel_of(items[0]);
    let two = store.channels.push(StoredChannel { id: first_id, channel }).push(
        StoredChannel { id: second_id, channel },
    );
    assert(two.take(n) == store.channels);
}

/// The caption `text` holds the word `word`.
pub open spec fn holds_word(text: Seq<char>, word: Seq<char>) -> bool {
    words(text).contains(word)
}

/// The caption `text` matches `query`: the query has a word, and the caption holds
/// every word of the query, in any order and at any place.
pub open spec fn matches(text: Seq<char>, query: Seq<char>) -> bool {
    &&& words(query).len() > 0
    &&& forall|w: int| 0 <= w < words(query).len() ==> holds_word(text, #[trigger] words(query)[w])
}

/// `rows` answers the search for `query` over the captions `stored`: every row is a
/// stored caption that matches, every stored caption that matches is a row, and the
/// rows of each video stand together.
pub open spec fn is_search_answer(
    stored: Seq<MatchRowView>,
    query: Seq<char>,
    rows: Seq<MatchRowView>,
) -> bool {
    &&& grouped(rows)
    &&& forall|i: int|
        0 <= i < rows.len() ==> stored.contains(#[trigger] rows[i]) && matches(
            rows[i].caption_text,
            query,
        )
    &&& forall|k: int|
        0 <= k < stored.len() && matches((#[trigger] stored[k]).caption_text, query)
            ==> rows.contains(stored[k])
}

/// A search shows matches only: every caption of every bucket is the caption of a
/// row of its video whose text holds every word of the query.
pub proof fn lemma_every_caption_matches(
    stored: Seq<MatchRowView>,
    query: Seq<char>,
    rows: Seq<MatchRowView>,
    b: int,
    k: int,
)
    requires
        is_search_answer(stored, query, rows),
        0 <= b < buckets(rows).len(),
        0 <= k < buckets(rows)[b].captions.len(),
    ensures
        exists|i: int|
            0 <= i < rows.len() && buckets(rows)[b].captions[k] == caption_of(#[trigger] rows[i])
                && rows[i].id == buckets(rows)[b].video.id && stored.contains(rows[i])
                && matches(rows[i].caption_text, query),
{
    lemma_caption_has_row(rows, b, k);
    let i = choose|i: int|
        0 <= i < rows.len() && bucket_index(rows, i) == b && i - run_start(rows, i) == k;
    lemma_buckets_shape(rows);
    assert(row_in_place(rows, i));
    assert(buckets(rows)[b].captions[k] == caption_of(rows[i]));
}

/// A word that only one video holds finds that video, and nothing else. Where a
/// stored caption of a video matches the query and no caption of another video does,
/// the search shows exactly one bucket: it is the bucket of that video, and it holds
/// that caption.
pub proof fn lemma_unique_match_one_bucket(
    stored: Seq<MatchRowView>,
    query: Seq<char>,
    rows: Seq<MatchRowView>,
    k: int,
)
    requires
        is_search_answer(stored, query, rows),
        0 <= k < stored.len(),
        matches(stored[k].caption_text, query),
        forall|j: int|
            0 <= j < stored.len() && (#[trigger] stored[j]).id != stored[k].id ==> !matches(
                stored[j].caption_text,
                query,
            ),
    ensures
        buckets(rows).len() == 1,
        buckets(rows)[0].video.id == stored[k].id,
        buckets(rows)[0].captions.contains(caption_of(stored[k])),
{
    assert(rows.contains(stored[k]));
    let at = choose|i: int| 0 <= i < rows.len() && rows[i] == stored[k];
    assert forall|i: int| 0 <= i < rows.len() implies (#[trigger] rows[i]).id == stored[k].id by {
        assert(stored.contains(rows[i]));
        let j = choose|j: int| 0 <= j < stored.len() && stored[j] == rows[i];
        assert(matches(stored[j].caption_text, query));
    }
    lemma_one_bucket_per_video(rows, at);
    // Every bucket shows the video of some row, so every bucket is that of the match:
    // the first and the last among them.
    let last = buckets(rows).len() - 1;
    lemma_buckets_come_from_rows(rows, 0);
    let j = choose|j: int| 0 <= j < rows.len() && rows[j].id == buckets(rows)[0].video.id;
    assert(rows[j].id == stored[k].id);
    lemma_buckets_come_from_rows(rows, last);
    let l = choose|l: int| 0 <= l < rows.len() && rows[l].id == buckets(rows)[last].video.id;
    assert(rows[l].id == stored[k].id);
}

} // verus!
