//! Metadata of videos and channels: what is asked of the platform's read API, and what
//! is made of its answers.

use vstd::prelude::*;
use vstd::string::StringExecFns;

use crate::decimal::{
    check_digit, decimal_value, digits_value, is_digit, parse_i64, signed_value,
};
use crate::error::IngestError;
use crate::text::to_chars;

verus! {

/// Which collection of the read API is asked.
#[derive(Debug, Clone, Copy, PartialEq, Eq, Structural)]
pub enum MetadataKind {
    Video,
    Channel,
}

/// One video of the read API's answer.
#[derive(Debug, Clone, PartialEq, Eq)]
pub struct VideoItem {
    pub id: String,
    pub title: String,
    /// The platform's id of the channel that owns the video.
    pub channel_id: String,
    pub channel_title: String,
    pub thumbnail: String,
    /// The moment of publication, as the API writes it.
    pub published_at: String,
    /// The number of views, as the API writes it.
    pub view_count: String,
    /// The duration, as the API writes it.
    pub duration: String,
}

/// A `VideoItem` with its texts as characters.
pub struct VideoItemView {
    pub id: Seq<char>,
    pub title: Seq<char>,
    pub channel_id: Seq<char>,
    pub channel_title: Seq<char>,
    pub thumbnail: Seq<char>,
    pub published_at: Seq<char>,
    pub view_count: Seq<char>,
    pub duration: Seq<char>,
}

impl View for VideoItem {
    type V = VideoItemView;

    open spec fn view(&self) -> VideoItemView {
        VideoItemView {
            id: self.id@,
            title: self.title@,
            channel_id: self.channel_id@,
            channel_title: self.channel_title@,
            thumbnail: self.thumbnail@,
            published_at: self.published_at@,
            view_count: self.view_count@,
            duration: self.duration@,
        }
    }
}

/// The views of a list of video items.
pub open spec fn video_item_views(items: Seq<VideoItem>) -> Seq<VideoItemView> {
    items.map_values(|i: VideoItem| i@)
}

/// One channel of the read API's answer.
#[derive(Debug, Clone, PartialEq, Eq)]
pub struct ChannelItem {
    pub id: String,
    pub title: String,
    pub thumbnail: String,
}

/// A `ChannelItem` with its texts as characters.
pub struct ChannelItemView {
    pub id: Seq<char>,
    pub title: Seq<char>,
    pub thumbnail: Seq<char>,
}

impl View for ChannelItem {
    type V = ChannelItemView;

    open spec fn view(&self) -> ChannelItemView {
        ChannelItemView { id: self.id@, title: self.title@, thumbnail: self.thumbnail@ }
    }
}

/// The views of a list of channel items.
pub open spec fn channel_item_views(items: Seq<ChannelItem>) -> Seq<ChannelItemView> {
    items.map_values(|i: ChannelItem| i@)
}

/// A channel that is to be stored.
#[derive(Debug, Clone, PartialEq, Eq)]
pub struct NewChannel {
    pub title: String,
    pub url: String,
    pub thumbnail: String,
    pub youtube_id: String,
}

/// A `NewChannel` with its texts as characters.
pub struct NewChannelView {
    pub title: Seq<char>,
    pub url: Seq<char>,
    pub thumbnail: Seq<char>,
    pub youtube_id: Seq<char>,
}

impl View for NewChannel {
    type V = NewChannelView;

    open spec fn view(&self) -> NewChannelView {
        NewChannelView {
            title: self.title@,
            url: self.url@,
            thumbnail: self.thumbnail@,
            youtube_id: self.youtube_id@,
        }
    }
}

/// How many digits `s` begins with.
pub open spec fn digits_ahead(s: Seq<char>) -> int
    decreases s.len(),
{
    if s.len() == 0 || !is_digit(s[0]) {
        0
    } else {
        1 + digits_ahead(s.drop_first())
    }
}

/// One part of a duration at the head of `s`: a run of at least one digit followed by
/// `unit`. Where `s` begins with such a part, its number and the text behind it; else
/// no number, and `s` itself.
pub open spec fn duration_part(s: Seq<char>, unit: char) -> (Option<nat>, Seq<char>) {
    let n = digits_ahead(s);
    if 0 < n < s.len() && s[n] == unit {
        (Some(decimal_value(s.take(n))), s.skip(n + 1))
    } else {
        (None, s)
    }
}

/// The number of a part, and zero for a part that is not there.
pub open spec fn part_value(part: Option<nat>) -> nat {
    match part {
        Some(n) => n,
        None => 0,
    }
}

/// The seconds that a duration of the read API states.
///
/// The text is `PT`, then hours as `1H`, minutes as `2M` and seconds as `3S`, in this
/// order, each a run of digits with its letter; each may be left out, but not all
/// three, and nothing may follow. The result is absent where the text has another
/// form, or the seconds do not fit in `i32`.
pub open spec fn duration_seconds(s: Seq<char>) -> Option<i32> {
    if s.len() >= 2 && s[0] == 'P' && s[1] == 'T' {
        let hours = duration_part(s.skip(2), 'H');
        let minutes = duration_part(hours.1, 'M');
        let seconds = duration_part(minutes.1, 'S');
        let total = part_value(hours.0) * 3600 + part_value(minutes.0) * 60 + part_value(
            seconds.0,
        );
        if seconds.1.len() == 0 && (hours.0 is Some || minutes.0 is Some || seconds.0 is Some)
            && total <= i32::MAX {
            Some(total as i32)
        } else {
            None
        }
    } else {
        None
    }
}

/// `digits_ahead` is the one place that only digits precede and that is the end of the
/// text or holds no digit.
pub proof fn lemma_digits_ahead_is(s: Seq<char>, n: int)
    requires
        0 <= n <= s.len(),
        forall|i: int| 0 <= i < n ==> is_digit(s[i]),
        n < s.len() ==> !is_digit(s[n]),
    ensures
        digits_ahead(s) == n,
    decreases s.len(),
{
    if n > 0 {
        let rest = s.drop_first();
        assert forall|i: int| 0 <= i < n - 1 implies is_digit(rest[i]) by {
            assert(rest[i] == s[i + 1]);
        }
        if n < s.len() {
            assert(rest[n - 1] == s[n]);
        }
        lemma_digits_ahead_is(rest, n - 1);
    }
}

/// The seconds since the epoch of the moment that `text` names in the form of RFC 3339,
/// as the `chrono` crate reads it; `None` where it does not take `text` for one.
pub uninterp spec fn rfc3339_seconds(text: Seq<char>) -> Option<i64>;

/// The collection of the read API that holds items of `kind`.
pub open spec fn collection(kind: MetadataKind) -> Seq<char> {
    match kind {
        MetadataKind::Video => "videos"@,
        MetadataKind::Channel => "channels"@,
    }
}

/// The address that asks the read API for the item `id` of `kind`: its identity, its
/// descriptive snippet, its statistics and its content details.
pub open spec fn request_address(kind: MetadataKind, api_key: Seq<char>, id: Seq<char>) -> Seq<
    char,
> {
    "https://www.googleapis.com/youtube/v3/"@ + collection(kind) + "?key="@ + api_key
        + "&part=id,snippet,statistics,contentDetails&id="@ + id
}

/// The address of a channel on the platform.
pub open spec fn channel_address(channel_id: Seq<char>) -> Seq<char> {
    "https://youtube.com/channel/"@ + channel_id
}

/// The channel that is stored for an item of the read API.
pub open spec fn channel_of(item: ChannelItemView) -> NewChannelView {
    NewChannelView {
        title: item.title,
        url: channel_address(item.id),
        thumbnail: item.thumbnail,
        youtube_id: item.id,
    }
}

/// Calls `chrono::DateTime::parse_from_rfc3339`, and `timestamp` on the moment that it
/// returns. The contract gives the result a name: it is a function of `text` alone,
/// since the text states its own offset from UTC.
#[verifier::external_body]
fn parse_rfc3339(text: &str) -> (seconds: Option<i64>)
    ensures
        seconds == rfc3339_seconds(text@),
{
    match chrono::DateTime::parse_from_rfc3339(text) {
        Ok(moment) => Some(moment.timestamp()),
        Err(_) => None,
    }
}

/// The address that asks the read API for the item `id` of `kind`.
pub fn metadata_request(kind: MetadataKind, api_key: &str, id: &str) -> (url: String)
    ensures
        url@ == request_address(kind, api_key@, id@),
{
    let mut url = "https://www.googleapis.com/youtube/v3/".to_owned();
    match kind {
        MetadataKind::Video => {
            url.append("videos");
        },
        MetadataKind::Channel => {
            url.append("channels");
        },
    }
    url.append("?key=");
    url.append(api_key);
    url.append("&part=id,snippet,statistics,contentDetails&id=");
    url.append(id);
    url
}

/// The first item of an answer of the read API.
///
/// Fails with `NotFound` exactly where the answer holds no item.
pub fn first_item<T>(items: Vec<T>) -> (r: Result<T, IngestError>)
    ensures
        match r {
            Ok(item) => items@.len() > 0 && item == items@[0],
            Err(e) => items@.len() == 0 && e == IngestError::NotFound,
        },
{
    let mut items = items;
    if items.len() > 0 {
        Ok(items.swap_remove(0))
    } else {
        Err(IngestError::NotFound)
    }
}

/// The number of views that an item of the read API states.
///
/// Fails with `UpstreamError` exactly where the item's count is no signed decimal
/// number within the range of `i64`.
pub fn view_count(item: &VideoItem) -> (r: Result<i64, IngestError>)
    ensures
        match signed_value(item.view_count@) {
            Some(views) => r == Ok::<i64, IngestError>(views),
            None => r == Err::<i64, IngestError>(IngestError::UpstreamError),
        },
{
    match parse_i64(item.view_count.as_str()) {
        Some(views) => Ok(views),
        None => Err(IngestError::UpstreamError),
    }
}

/// When a video was published, in seconds since the epoch: what the item of the read
/// API states, and nothing where that is no moment in the form of RFC 3339.
pub fn upload_time(item: &VideoItem) -> (seconds: Option<i64>)
    ensures
        seconds == rfc3339_seconds(item.published_at@),
{
    parse_rfc3339(item.published_at.as_str())
}

/// One part of a duration, read at place `from`: whether it is there, its number
/// (`None` for a number beyond 64 bits), and the place behind it.
fn read_part(chars: &Vec<char>, from: usize, unit: char) -> (r: (bool, Option<u64>, usize))
    requires
        from <= chars.len(),
    ensures
        from <= r.2 <= chars.len(),
        chars@.skip(r.2 as int) == duration_part(chars@.skip(from as int), unit).1,
        r.0 == duration_part(chars@.skip(from as int), unit).0 is Some,
        match r.1 {
            Some(n) => part_value(duration_part(chars@.skip(from as int), unit).0) == n,
            None => part_value(duration_part(chars@.skip(from as int), unit).0) > u64::MAX,
        },
{
    let ghost rest = chars@.skip(from as int);
    let mut end: usize = from;
    while end < chars.len() && check_digit(chars[end])
        invariant
            from <= end <= chars.len(),
            forall|i: int| from <= i < end ==> is_digit(chars@[i]),
        decreases chars.len() - end,
    {
        end += 1;
    }
    proof {
        lemma_digits_ahead_is(rest, end - from);
        assert(rest.take(end - from) == chars@.subrange(from as int, end as int));
    }
    if end > from && end < chars.len() && chars[end] == unit {
        assert(rest.skip(end - from + 1) == chars@.skip(end + 1));
        (true, digits_value(chars, from, end), end + 1)
    } else {
        (false, Some(0), from)
    }
}

/// The seconds that a duration of the read API states, as `duration_seconds` says.
pub fn parse_duration(text: &str) -> (seconds: Option<i32>)
    ensures
        seconds == duration_seconds(text@),
{
    let chars = to_chars(text);
    if chars.len() < 2 || chars[0] != 'P' || chars[1] != 'T' {
        return None;
    }
    let hours = read_part(&chars, 2, 'H');
    let minutes = read_part(&chars, hours.2, 'M');
    let seconds = read_part(&chars, minutes.2, 'S');
    assert(chars@.skip(seconds.2 as int).len() == chars.len() - seconds.2);
    if seconds.2 != chars.len() || !(hours.0 || minutes.0 || seconds.0) {
        return None;
    }
    match (hours.1, minutes.1, seconds.1) {
        (Some(h), Some(m), Some(s)) => {
            let total: u128 = h as u128 * 3600 + m as u128 * 60 + s as u128;
            if total <= 0x7fff_ffff {
                Some(total as i32)
            } else {
                None
            }
        },
        _ => None,
    }
}

/// The length of a video in seconds, from the duration that the item of the read API
/// states.
///
/// Fails with `UpstreamError` exactly where the item's duration has not the form of
/// `duration_seconds`, or states more seconds than `i32` holds.
pub fn video_length(item: &VideoItem) -> (r: Result<i32, IngestError>)
    ensures
        match duration_seconds(item.duration@) {
            Some(seconds) => r == Ok::<i32, IngestError>(seconds),
            None => r == Err::<i32, IngestError>(IngestError::UpstreamError),
        },
{
    match parse_duration(item.duration.as_str()) {
        Some(seconds) => Ok(seconds),
        None => Err(IngestError::UpstreamError),
    }
}

/// The address of the channel `channel_id` on the platform.
pub fn channel_url(channel_id: &str) -> (url: String)
    ensures
        url@ == channel_address(channel_id@),
{
    let mut url = "https://youtube.com/channel/".to_owned();
    url.append(channel_id);
    url
}

/// The channel that is stored for an item of the read API.
pub fn new_channel(item: ChannelItem) -> (channel: NewChannel)
    ensures
        channel@ == channel_of(item@),
{
    let url = channel_url(item.id.as_str());
    NewChannel { title: item.title, url, thumbnail: item.thumbnail, youtube_id: item.id }
}

} // verus!
