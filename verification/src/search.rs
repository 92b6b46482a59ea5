//! The search over captions.
//!
//! The store answers a search with flat rows, one for each matching caption, ordered
//! by video and then by offset. Here the query is put into the store's form, and the
//! rows are grouped into one bucket for each video, each caption with the address that
//! plays the video from shortly before it.

use vstd::prelude::*;
use vstd::string::StringExecFns;

use crate::decimal::{decimal_digits, nearest_second, push_decimal, round_to_seconds};
use crate::endpoints::videos::{
    bucket_views, caption_views, row_views, BucketView, CaptionTextSnippet,
    CaptionTextSnippetView, MatchRow, MatchRowView, Video, VideoCaptionsResult, VideoView,
};
use crate::utils::captions::{watch_address, watch_url};

verus! {

/// How many seconds before a match the playback starts.
pub const ANCHOR_BIAS: u64 = 2;

/// The second at which playback starts for a match at `start` milliseconds: the
/// nearest whole second, less the bias, and not before the beginning.
pub open spec fn anchor_second(start: u64) -> nat {
    let second = nearest_second(start as nat);
    if second >= ANCHOR_BIAS {
        (second - ANCHOR_BIAS) as nat
    } else {
        0
    }
}

/// The address that plays the video `youtube_id` from shortly before `start`.
pub open spec fn anchor_address(youtube_id: Seq<char>, start: u64) -> Seq<char> {
    watch_address(youtube_id) + "&t="@ + decimal_digits(anchor_second(start)) + "s"@
}

/// The address that plays the video `youtube_id` from shortly before a match at
/// `start` milliseconds.
pub fn anchor_url(youtube_id: &str, start: u64) -> (url: String)
    ensures
        url@ == anchor_address(youtube_id@, start),
{
    let second = round_to_seconds(start);
    let from: u64 = if second >= ANCHOR_BIAS {
        second - ANCHOR_BIAS
    } else {
        0
    };
    let mut url = watch_url(youtube_id);
    url.append("&t=");
    push_decimal(&mut url, from);
    url.append("s");
    url
}

/// The video that a row belongs to, as a bucket shows it.
pub open spec fn video_of(row: MatchRowView) -> VideoView {
    VideoView {
        id: row.id,
        channel_id: row.channel_id,
        channel_title: row.channel_title,
        title: row.title,
        url: watch_address(row.youtube_id),
        captions: Seq::empty(),
        upload_datetime: row.upload_datetime,
        views: row.views,
        length: row.length,
        thumbnail: row.thumbnail,
        youtube_id: row.youtube_id,
    }
}

/// The matched caption of a row, as a bucket shows it.
pub open spec fn caption_of(row: MatchRowView) -> CaptionTextSnippetView {
    CaptionTextSnippetView {
        url: anchor_address(row.youtube_id, row.start),
        caption_text: row.caption_text,
        start: row.start,
    }
}

/// The buckets of a run of rows: a row whose video id differs from that of the row
/// before it (and the first row) opens a bucket, every other row adds its caption to
/// the bucket that is open.
pub open spec fn buckets(rows: Seq<MatchRowView>) -> Seq<BucketView>
    decreases rows.len(),
{
    if rows.len() == 0 {
        Seq::empty()
    } else {
        let before = buckets(rows.drop_last());
        let row = rows.last();
        if rows.len() >= 2 && rows[rows.len() - 2].id == row.id {
            before.update(
                before.len() - 1,
                BucketView {
                    video: before.last().video,
                    captions: before.last().captions.push(caption_of(row)),
                },
            )
        } else {
            before.push(BucketView { video: video_of(row), captions: seq![caption_of(row)] })
        }
    }
}

/// The place, among the buckets, of the bucket that row `i` goes to: the number of
/// rows up to `i` that open a bucket, less one.
pub open spec fn bucket_index(rows: Seq<MatchRowView>, i: int) -> int
    decreases i,
{
    if i <= 0 {
        0
    } else if rows[i].id != rows[i - 1].id {
        bucket_index(rows, i - 1) + 1
    } else {
        bucket_index(rows, i - 1)
    }
}

/// The row that opened the bucket that row `i` goes to.
pub open spec fn run_start(rows: Seq<MatchRowView>, i: int) -> int
    decreases i,
{
    if i <= 0 {
        0
    } else if rows[i].id != rows[i - 1].id {
        i
    } else {
        run_start(rows, i - 1)
    }
}

/// The rows of each video stand together: between two rows of one video there is no
/// row of another.
pub open spec fn grouped(rows: Seq<MatchRowView>) -> bool {
    forall|i: int, j: int, k: int|
        0 <= i < j < k < rows.len() && rows[i].id == rows[k].id ==> rows[j].id == rows[i].id
}

/// Row `i` is found in the buckets where `bucket_index` and `run_start` say: its
/// bucket shows the video of the row that opened it, which is the video of row `i`,
/// and holds the caption of row `i` as many places in as row `i` follows that row.
pub open spec fn row_in_place(rows: Seq<MatchRowView>, i: int) -> bool {
    let all = buckets(rows);
    let b = bucket_index(rows, i);
    let s = run_start(rows, i);
    &&& 0 <= b < all.len()
    &&& 0 <= s <= i
    &&& rows[s].id == rows[i].id
    &&& all[b].video == video_of(rows[s])
    &&& i - s < all[b].captions.len()
    &&& all[b].captions[i - s] == caption_of(rows[i])
}

/// Up to row `i`, a run of rows and its prefix of `n` rows agree on where buckets
/// open.
proof fn lemma_prefix_agrees(rows: Seq<MatchRowView>, n: int, i: int)
    requires
        0 <= i < n <= rows.len(),
    ensures
        bucket_index(rows.take(n), i) == bucket_index(rows, i),
        run_start(rows.take(n), i) == run_start(rows, i),
    decreases i,
{
    if i > 0 {
        lemma_prefix_agrees(rows, n, i - 1);
    }
}

/// Later rows go to later buckets, or to the same.
proof fn lemma_bucket_index_grows(rows: Seq<MatchRowView>, i: int, j: int)
    requires
        0 <= i <= j,
    ensures
        0 <= bucket_index(rows, i) <= bucket_index(rows, j) <= bucket_index(rows, i) + (j - i),
    decreases j,
{
    if j > i {
        lemma_bucket_index_grows(rows, i, j - 1);
    } else if i > 0 {
        lemma_bucket_index_grows(rows, 0, i - 1);
        lemma_bucket_index_grows(rows, i - 1, i - 1);
    }
}

/// The row that opened a bucket lies at or before the rows that go to it, and belongs
/// to the same video.
proof fn lemma_run_start(rows: Seq<MatchRowView>, i: int)
    requires
        0 <= i < rows.len(),
    ensures
        0 <= run_start(rows, i) <= i,
        rows[run_start(rows, i)].id == rows[i].id,
        bucket_index(rows, run_start(rows, i)) == bucket_index(rows, i),
    decreases i,
{
    if i > 0 && rows[i].id == rows[i - 1].id {
        lemma_run_start(rows, i - 1);
    }
}

/// The shape of the buckets: there is one for each row that opens one, the last holds
/// the captions from the row that opened it to the last row, and every row is found
/// in its place.
pub proof fn lemma_buckets_shape(rows: Seq<MatchRowView>)
    ensures
        rows.len() == 0 ==> buckets(rows).len() == 0,
        rows.len() > 0 ==> buckets(rows).len() == bucket_index(rows, rows.len() - 1) + 1,
        rows.len() > 0 ==> buckets(rows).last().captions.len() == rows.len() - run_start(
            rows,
            rows.len() - 1,
        ),
        forall|i: int| 0 <= i < rows.len() ==> #[trigger] row_in_place(rows, i),
    decreases rows.len(),
{
    if rows.len() > 0 {
        let n = rows.len() as int;
        let prev = rows.drop_last();
        let before = buckets(prev);
        let all = buckets(rows);
        let row = rows.last();
        let joins = n >= 2 && rows[n - 2].id == row.id;
        assert(prev == rows.take(n - 1));
        lemma_buckets_shape(prev);
        lemma_run_start(rows, n - 1);
        lemma_bucket_index_grows(rows, 0, n - 1);
        if n >= 2 {
            lemma_prefix_agrees(rows, n - 1, n - 2);
            lemma_run_start(rows, n - 2);
        }
        if n >= 2 {
            assert(row_in_place(prev, n - 2));
            assert(prev[n - 2] == rows[n - 2]);
        }
        assert forall|i: int| 0 <= i < n implies #[trigger] row_in_place(rows, i) by {
            lemma_run_start(rows, i);
            lemma_bucket_index_grows(rows, i, n - 1);
            let b = bucket_index(rows, i);
            let s = run_start(rows, i);
            if i < n - 1 {
                lemma_prefix_agrees(rows, n - 1, i);
                lemma_bucket_index_grows(rows, i, n - 2);
                assert(row_in_place(prev, i));
                assert(prev[i] == rows[i]);
                assert(prev[s] == rows[s]);
                assert(0 <= b < before.len());
                if joins && b == before.len() - 1 {
                    assert(all[b].captions == before[b].captions.push(caption_of(row)));
                    assert(all[b].captions[i - s] == before[b].captions[i - s]);
                } else {
                    assert(all[b] == before[b]);
                }
            } else if joins {
                assert(b == before.len() - 1);
                assert(s == run_start(prev, n - 2));
                assert(prev[s] == rows[s]);
                assert(all[b].captions == before[b].captions.push(caption_of(row)));
            } else {
                assert(b == before.len());
                assert(s == i);
            }
        }
    }
}

/// Every bucket is the bucket of some row.
proof fn lemma_bucket_has_row(rows: Seq<MatchRowView>, c: int, upto: int)
    requires
        0 <= upto < rows.len(),
        0 <= c <= bucket_index(rows, upto),
    ensures
        exists|j: int| 0 <= j <= upto && bucket_index(rows, j) == c,
    decreases upto,
{
    if bucket_index(rows, upto) != c {
        lemma_bucket_index_grows(rows, 0, 0);
        lemma_bucket_has_row(rows, c, upto - 1);
    }
}

/// Where the rows of each video stand together, two rows of one video go to one
/// bucket.
proof fn lemma_same_video_same_bucket(rows: Seq<MatchRowView>, i: int, j: int)
    requires
        grouped(rows),
        0 <= i <= j < rows.len(),
        rows[i].id == rows[j].id,
    ensures
        bucket_index(rows, i) == bucket_index(rows, j),
    decreases j,
{
    if i < j {
        if i < j - 1 {
            assert(rows[j - 1].id == rows[i].id);
        }
        lemma_same_video_same_bucket(rows, i, j - 1);
    }
}

/// A search shows each video once. Where the rows of each video stand together, the
/// caption of a row is found in the bucket of its video, and no other bucket shows
/// that video.
pub proof fn lemma_one_bucket_per_video(rows: Seq<MatchRowView>, i: int)
    requires
        grouped(rows),
        0 <= i < rows.len(),
    ensures
        0 <= bucket_index(rows, i) < buckets(rows).len(),
        buckets(rows)[bucket_index(rows, i)].video.id == rows[i].id,
        buckets(rows)[bucket_index(rows, i)].captions.contains(caption_of(rows[i])),
        forall|c: int|
            0 <= c < buckets(rows).len() && (#[trigger] buckets(rows)[c]).video.id == rows[i].id
                ==> c == bucket_index(rows, i),
{
    let all = buckets(rows);
    let b = bucket_index(rows, i);
    lemma_buckets_shape(rows);
    assert(row_in_place(rows, i));
    assert(all[b].captions[i - run_start(rows, i)] == caption_of(rows[i]));
    assert forall|c: int| 0 <= c < all.len() && (#[trigger] all[c]).video.id == rows[i].id implies c
        == b by {
        lemma_bucket_has_row(rows, c, rows.len() - 1);
        let j = choose|j: int| 0 <= j < rows.len() && bucket_index(rows, j) == c;
        assert(row_in_place(rows, j));
        if j <= i {
            lemma_same_video_same_bucket(rows, j, i);
        } else {
            lemma_same_video_same_bucket(rows, i, j);
        }
    }
}

/// A search shows no video without a match: every bucket shows the video of one of the
/// rows, and holds at least one caption.
pub proof fn lemma_buckets_come_from_rows(rows: Seq<MatchRowView>, c: int)
    requires
        0 <= c < buckets(rows).len(),
    ensures
        buckets(rows)[c].captions.len() > 0,
        exists|j: int| 0 <= j < rows.len() && rows[j].id == buckets(rows)[c].video.id,
{
    lemma_buckets_shape(rows);
    lemma_bucket_has_row(rows, c, rows.len() - 1);
    let j = choose|j: int| 0 <= j < rows.len() && bucket_index(rows, j) == c;
    assert(row_in_place(rows, j));
}

/// Two rows that go to one bucket have the same row that opened it; and where the
/// offsets do not fall from one row of a video to the next, the later of the two rows
/// has no smaller offset.
proof fn lemma_same_bucket(rows: Seq<MatchRowView>, i: int, j: int)
    requires
        0 <= i <= j < rows.len(),
        bucket_index(rows, i) == bucket_index(rows, j),
    ensures
        run_start(rows, i) == run_start(rows, j),
        ascending_in_videos(rows) ==> rows[i].start <= rows[j].start,
    decreases j,
{
    if i < j {
        lemma_bucket_index_grows(rows, i, j - 1);
        lemma_same_bucket(rows, i, j - 1);
    }
}

/// Every caption of every bucket is the caption of a row: of the row that follows the
/// row that opened the bucket by as many places as the caption has before it.
pub proof fn lemma_caption_has_row(rows: Seq<MatchRowView>, b: int, k: int)
    requires
        0 <= b < buckets(rows).len(),
        0 <= k < buckets(rows)[b].captions.len(),
    ensures
        exists|i: int|
            0 <= i < rows.len() && bucket_index(rows, i) == b && i - run_start(rows, i) == k,
    decreases rows.len(),
{
    let n = rows.len() as int;
    let prev = rows.drop_last();
    let before = buckets(prev);
    let joins = n >= 2 && rows[n - 2].id == rows[n - 1].id;
    assert(prev == rows.take(n - 1));
    lemma_buckets_shape(prev);
    if n >= 2 {
        lemma_prefix_agrees(rows, n - 1, n - 2);
    }
    let last_caption = if joins {
        b == before.len() - 1 && k == before[b].captions.len()
    } else {
        b == before.len()
    };
    if last_caption {
        assert(bucket_index(rows, n - 1) == b && n - 1 - run_start(rows, n - 1) == k);
    } else {
        if joins {
            lemma_bucket_index_grows(prev, 0, n - 2);
            assert(before.len() > 0);
            if b == before.len() - 1 {
                assert(buckets(rows)[b].captions == before[b].captions.push(
                    caption_of(rows[n - 1]),
                ));
            } else {
                assert(buckets(rows)[b] == before[b]);
            }
        } else {
            assert(buckets(rows)[b] == before[b]);
        }
        lemma_caption_has_row(prev, b, k);
        let i = choose|i: int|
            0 <= i < prev.len() && bucket_index(prev, i) == b && i - run_start(prev, i) == k;
        lemma_prefix_agrees(rows, n - 1, i);
        assert(bucket_index(rows, i) == b && i - run_start(rows, i) == k);
    }
}

/// From one row of a video to the next, the offsets do not fall.
pub open spec fn ascending_in_videos(rows: Seq<MatchRowView>) -> bool {
    forall|i: int|
        0 < i < rows.len() && rows[i - 1].id == rows[i].id ==> rows[i - 1].start <= (
        #[trigger] rows[i]).start
}

/// Bucketing keeps the order of the rows: of two rows, the later one goes to a later
/// bucket, or to the same bucket, and then to a later place in it.
pub proof fn lemma_order_is_kept(rows: Seq<MatchRowView>, i: int, j: int)
    requires
        0 <= i < j < rows.len(),
    ensures
        bucket_index(rows, i) <= bucket_index(rows, j),
        bucket_index(rows, i) == bucket_index(rows, j) ==> i - run_start(rows, i) < j - run_start(
            rows,
            j,
        ),
{
    lemma_bucket_index_grows(rows, i, j);
    if bucket_index(rows, i) == bucket_index(rows, j) {
        lemma_same_bucket(rows, i, j);
    }
}

/// Where the store orders the rows of each video by offset, the captions of each
/// bucket are in the order of their offsets.
pub proof fn lemma_buckets_ascend(rows: Seq<MatchRowView>, b: int, k: int, l: int)
    requires
        ascending_in_videos(rows),
        0 <= b < buckets(rows).len(),
        0 <= k <= l < buckets(rows)[b].captions.len(),
    ensures
        buckets(rows)[b].captions[k].start <= buckets(rows)[b].captions[l].start,
{
    lemma_buckets_shape(rows);
    lemma_caption_has_row(rows, b, k);
    lemma_caption_has_row(rows, b, l);
    let i = choose|i: int|
        0 <= i < rows.len() && bucket_index(rows, i) == b && i - run_start(rows, i) == k;
    let j = choose|j: int|
        0 <= j < rows.len() && bucket_index(rows, j) == b && j - run_start(rows, j) == l;
    assert(row_in_place(rows, i));
    assert(row_in_place(rows, j));
    if i <= j {
        lemma_same_bucket(rows, i, j);
    } else {
        lemma_same_bucket(rows, j, i);
    }
}

/// The video of a row.
fn video_from(row: &MatchRow) -> (video: Video)
    ensures
        video@ == video_of(row@),
{
    Video {
        id: row.id,
        channel_id: row.channel_id,
        channel_title: row.channel_title.clone(),
        title: row.title.clone(),
        url: watch_url(row.youtube_id.as_str()),
        captions: String::new(),
        upload_datetime: row.upload_datetime,
        views: row.views,
        length: row.length,
        thumbnail: row.thumbnail.clone(),
        youtube_id: row.youtube_id.clone(),
    }
}

/// The matched caption of a row.
fn caption_from(row: &MatchRow) -> (caption: CaptionTextSnippet)
    ensures
        caption@ == caption_of(row@),
{
    CaptionTextSnippet {
        url: anchor_url(row.youtube_id.as_str(), row.start),
        caption_text: row.caption_text.clone(),
        start: row.start,
    }
}

/// Groups the rows of a search into buckets, one for each run of rows of one video,
/// in the order of the rows.
pub fn bucket_rows(rows: &Vec<MatchRow>) -> (videos: Vec<VideoCaptionsResult>)
    ensures
        bucket_views(videos@) == buckets(row_views(rows@)),
{
    let ghost all = row_views(rows@);
    let mut videos: Vec<VideoCaptionsResult> = Vec::new();
    let mut i: usize = 0;
    assert(bucket_views(videos@) == buckets(all.take(0)));
    while i < rows.len()
        invariant
            i <= rows.len(),
            all == row_views(rows@),
            bucket_views(videos@) == buckets(all.take(i as int)),
            0 < i < rows.len() ==> all[i - 1].id != all[i as int].id,
        decreases rows.len() - i,
    {
        let first = i;
        let video = video_from(&rows[first]);
        let mut captions: Vec<CaptionTextSnippet> = Vec::new();
        captions.push(caption_from(&rows[first]));
        i += 1;
        proof {
            let upto = all.take(i as int);
            assert(upto.drop_last() == all.take(first as int));
            assert(upto.last() == all[first as int]);
            if first > 0 {
                assert(upto[upto.len() - 2] == all[first - 1]);
            }
            assert(caption_views(captions@) == seq![caption_of(all[first as int])]);
        }
        while i < rows.len() && rows[i].id == rows[first].id
            invariant
                first < i <= rows.len(),
                all == row_views(rows@),
                all[i - 1].id == all[first as int].id,
                buckets(all.take(i as int)) == bucket_views(videos@).push(
                    BucketView { video: video@, captions: caption_views(captions@) },
                ),
            decreases rows.len() - i,
        {
            let ghost shown = caption_views(captions@);
            captions.push(caption_from(&rows[i]));
            proof {
                let upto = all.take(i + 1);
                assert(upto.drop_last() == all.take(i as int));
                assert(upto.last() == all[i as int]);
                assert(upto[upto.len() - 2] == all[i - 1]);
                assert(caption_views(captions@) == shown.push(caption_of(all[i as int])));
            }
            i += 1;
        }
        let ghost done = bucket_views(videos@);
        let bucket = VideoCaptionsResult { video, captions };
        videos.push(bucket);
        assert(bucket_views(videos@) == done.push(bucket@));
    }
    assert(all.take(all.len() as int) == all);
    videos
}

/// The characters that part the words of a query: space, tab, line feed, form feed
/// and carriage return.
pub open spec fn is_space(c: char) -> bool {
    c == ' ' || c == '\t' || c == '\n' || c == '\x0c' || c == '\r'
}

/// The words of a query: its longest runs of characters that are no spaces, in order.
pub open spec fn words(text: Seq<char>) -> Seq<Seq<char>>
    decreases text.len(),
{
    if text.len() == 0 {
        Seq::empty()
    } else {
        let before = words(text.drop_last());
        let c = text.last();
        if is_space(c) {
            before
        } else if text.len() >= 2 && !is_space(text[text.len() - 2]) {
            before.update(before.len() - 1, before.last().push(c))
        } else {
            before.push(seq![c])
        }
    }
}

/// The words with `" & "` between each two of them: the store's form of "every one of
/// these words".
pub open spec fn all_of(words: Seq<Seq<char>>) -> Seq<char>
    decreases words.len(),
{
    if words.len() == 0 {
        Seq::empty()
    } else if words.len() == 1 {
        words[0]
    } else {
        all_of(words.drop_last()) + " & "@ + words.last()
    }
}

/// A text that ends in a character that is no space has a word.
proof fn lemma_has_word(text: Seq<char>)
    requires
        text.len() > 0,
        !is_space(text.last()),
    ensures
        words(text).len() > 0,
    decreases text.len(),
{
    if text.len() >= 2 && !is_space(text[text.len() - 2]) {
        assert(text.drop_last().last() == text[text.len() - 2]);
        lemma_has_word(text.drop_last());
    }
}

/// The words of a query are what the store is asked for: none of them is empty, and
/// none holds a space.
pub proof fn lemma_words_are_runs(text: Seq<char>, w: int, k: int)
    requires
        0 <= w < words(text).len(),
        0 <= k < words(text)[w].len(),
    ensures
        !is_space(words(text)[w][k]),
    decreases text.len(),
{
    let before = words(text.drop_last());
    let c = text.last();
    if is_space(c) {
        lemma_words_are_runs(text.drop_last(), w, k);
    } else if text.len() >= 2 && !is_space(text[text.len() - 2]) {
        assert(text.drop_last().last() == text[text.len() - 2]);
        lemma_has_word(text.drop_last());
        if w < before.len() - 1 || k < before.last().len() {
            lemma_words_are_runs(text.drop_last(), w, k);
        }
    } else if w < before.len() {
        lemma_words_are_runs(text.drop_last(), w, k);
    }
}

/// No word of a query is empty.
pub proof fn lemma_words_are_not_empty(text: Seq<char>, w: int)
    requires
        0 <= w < words(text).len(),
    ensures
        words(text)[w].len() > 0,
    decreases text.len(),
{
    let before = words(text.drop_last());
    let c = text.last();
    if is_space(c) {
        lemma_words_are_not_empty(text.drop_last(), w);
    } else if text.len() >= 2 && !is_space(text[text.len() - 2]) {
        assert(text.drop_last().last() == text[text.len() - 2]);
        lemma_has_word(text.drop_last());
        if w < before.len() - 1 {
            lemma_words_are_not_empty(text.drop_last(), w);
        }
    } else if w < before.len() {
        lemma_words_are_not_empty(text.drop_last(), w);
    }
}

/// A character added to the last word of a text is added to the joined words.
proof fn lemma_word_grows(text: Seq<char>, c: char)
    requires
        text.len() > 0,
        !is_space(text.last()),
    ensures
        words(text).len() > 0,
        all_of(words(text).update(words(text).len() - 1, words(text).last().push(c))) == all_of(
            words(text),
        ).push(c),
{
    lemma_has_word(text);
    let found = words(text);
    let grown = found.update(found.len() - 1, found.last().push(c));
    if found.len() > 1 {
        assert(grown.drop_last() == found.drop_last());
        assert(all_of(found.drop_last()) + " & "@ + found.last().push(c) == (all_of(
            found.drop_last(),
        ) + " & "@ + found.last()).push(c));
    }
}

/// A query in the store's form: its words, joined so that a caption matches only if it
/// holds every one of them. A query without words gives the empty text.
pub fn search_text(text: &str) -> (query: String)
    ensures
        query@ == all_of(words(text@)),
{
    let mut query = String::new();
    let mut in_word = false;
    let mut any = false;
    for c in it: text.chars()
        invariant
            it.seq() == text@,
            query@ == all_of(words(text@.take(it.index()))),
            in_word == (it.index() > 0 && !is_space(text@[it.index() - 1])),
            any == (words(text@.take(it.index())).len() > 0),
    {
        let ghost seen = text@.take(it.index());
        let ghost next = text@.take(it.index() + 1);
        proof {
            assert(next.drop_last() == seen);
            assert(next.last() == c);
            if it.index() > 0 {
                assert(next[next.len() - 2] == text@[it.index() - 1]);
                assert(seen.last() == text@[it.index() - 1]);
            }
        }
        if c == ' ' || c == '\t' || c == '\n' || c == '\x0c' || c == '\r' {
            in_word = false;
        } else {
            if in_word {
                proof {
                    lemma_word_grows(seen, c);
                }
            } else {
                if any {
                    query.append(" & ");
                    proof {
                        let found = words(next);
                        assert(found.drop_last() == words(seen));
                        assert(all_of(words(seen)) + " & "@ + seq![c] == (all_of(words(seen))
                            + " & "@).push(c));
                    }
                } else {
                    assert(words(next) == seq![seq![c]]);
                    assert(Seq::<char>::empty().push(c) == seq![c]);
                }
                in_word = true;
                any = true;
            }
            query.push(c);
        }
    }
    assert(text@.take(text@.len() as int) == text@);
    query
}

} // verus!
