//! Captions of a video: where they are found in the page of the video, and how the
//! timed-text document is read into snippets.
//!
//! Offsets and durations are whole milliseconds.

use vstd::prelude::*;
use vstd::string::StringExecFns;

use crate::decimal::{millis_value, parse_millis};
use crate::error::IngestError;
use crate::text::{
    find_from, first_occurrence, lemma_first_occurrence, opt_text, pair_views, same_text,
    slice_string, to_chars,
};

verus! {

/// One caption: its text, where it starts and how long it stays, in milliseconds.
#[derive(Debug, Clone, PartialEq, Eq)]
pub struct CaptionSnippet {
    pub text: String,
    pub start: u64,
    pub duration: u64,
}

/// A `CaptionSnippet` with its text as characters.
pub struct CaptionSnippetView {
    pub text: Seq<char>,
    pub start: u64,
    pub duration: u64,
}

impl View for CaptionSnippet {
    type V = CaptionSnippetView;

    open spec fn view(&self) -> CaptionSnippetView {
        CaptionSnippetView { text: self.text@, start: self.start, duration: self.duration }
    }
}

/// The views of a list of snippets.
pub open spec fn snippet_views(snippets: Seq<CaptionSnippet>) -> Seq<CaptionSnippetView> {
    snippets.map_values(|s: CaptionSnippet| s@)
}

/// The captions configuration that the page of a video embeds.
#[derive(Debug, Clone, PartialEq, Eq)]
pub struct YouTubeHtmlCaptionData {
    pub player_captions_tracklist_renderer: YouTubeCaptionTracks,
}

/// The caption tracks of a video, in the order of the page.
#[derive(Debug, Clone, PartialEq, Eq)]
pub struct YouTubeCaptionTracks {
    pub caption_tracks: Vec<YouTubeCaptionTrack>,
}

/// One caption track: where its timed-text document is fetched.
#[derive(Debug, Clone, PartialEq, Eq)]
pub struct YouTubeCaptionTrack {
    pub base_url: String,
}

/// The URLs of a list of tracks.
pub open spec fn track_urls(tracks: Seq<YouTubeCaptionTrack>) -> Seq<Seq<char>> {
    tracks.map_values(|t: YouTubeCaptionTrack| t.base_url@)
}

impl View for YouTubeHtmlCaptionData {
    type V = Seq<Seq<char>>;

    /// The URLs of the tracks, in order.
    open spec fn view(&self) -> Seq<Seq<char>> {
        track_urls(self.player_captions_tracklist_renderer.caption_tracks@)
    }
}

/// One step of reading a timed-text document.
#[derive(Debug, Clone, PartialEq, Eq)]
pub enum MarkupEvent {
    /// An element opens; `name` is its local name, `attributes` its attributes in
    /// document order, each by its qualified name: the local name, behind its
    /// namespace and prefix where it has them.
    Open { name: String, attributes: Vec<(String, String)> },
    /// An element closes.
    Close { name: String },
    /// Character data, with the markup's own escapes already resolved.
    Characters { text: String },
    /// Anything else that is well formed: declarations, comments, white space.
    Other,
    /// The document cannot be read from here on.
    Failure,
}

/// A `MarkupEvent` with its texts as characters.
pub enum MarkupEventView {
    Open { name: Seq<char>, attributes: Seq<(Seq<char>, Seq<char>)> },
    Close { name: Seq<char> },
    Characters { text: Seq<char> },
    Other,
    Failure,
}

impl View for MarkupEvent {
    type V = MarkupEventView;

    open spec fn view(&self) -> MarkupEventView {
        match self {
            MarkupEvent::Open { name, attributes } => MarkupEventView::Open {
                name: name@,
                attributes: pair_views(attributes@),
            },
            MarkupEvent::Close { name } => MarkupEventView::Close { name: name@ },
            MarkupEvent::Characters { text } => MarkupEventView::Characters { text: text@ },
            MarkupEvent::Other => MarkupEventView::Other,
            MarkupEvent::Failure => MarkupEventView::Failure,
        }
    }
}

/// The views of a list of events.
pub open spec fn event_views(events: Seq<MarkupEvent>) -> Seq<MarkupEventView> {
    events.map_values(|e: MarkupEvent| e@)
}

/// The events that the `xml` crate's reader gives for `markup`, in order.
pub uninterp spec fn markup_events(markup: Seq<char>) -> Seq<MarkupEventView>;

/// `text` with its named and numeric character references replaced by what they
/// stand for, as the `html_entities` crate does it; `None` where it rejects `text`.
pub uninterp spec fn decoded_entities(text: Seq<char>) -> Option<Seq<char>>;

/// `s` without its line feeds.
pub open spec fn without_newlines(s: Seq<char>) -> Seq<char>
    decreases s.len(),
{
    if s.len() == 0 {
        Seq::empty()
    } else if s.last() == '\n' {
        without_newlines(s.drop_last())
    } else {
        without_newlines(s.drop_last()).push(s.last())
    }
}

/// What character data adds to the text of a snippet: the data without its line
/// feeds and with its character references decoded, or `None` where a reference
/// cannot be decoded. Data that holds no `&` holds no reference, and is added as it
/// stands.
pub open spec fn snippet_text(data: Seq<char>) -> Option<Seq<char>> {
    let stripped = without_newlines(data);
    if stripped.contains('&') {
        decoded_entities(stripped)
    } else {
        Some(stripped)
    }
}

/// Where the assembly of snippets stands: whether an entry is open, the snippet that
/// is being put together, and the snippets that are done.
pub struct Assembly {
    pub open: bool,
    pub text: Seq<char>,
    pub start: u64,
    pub duration: u64,
    pub done: Seq<CaptionSnippetView>,
}

/// The assembly before the first event: idle, with an empty snippet at offset zero.
pub open spec fn idle(done: Seq<CaptionSnippetView>) -> Assembly {
    Assembly { open: false, text: Seq::empty(), start: 0, duration: 0, done }
}

/// Start and duration after one attribute: `start` and `dur` set them, every other
/// attribute leaves them. `None` where the value of one of the two is no number of
/// seconds.
pub open spec fn with_attribute(times: (u64, u64), attribute: (Seq<char>, Seq<char>)) -> Option<
    (u64, u64),
> {
    if attribute.0 == "start"@ {
        match millis_value(attribute.1) {
            Some(ms) => Some((ms, times.1)),
            None => None,
        }
    } else if attribute.0 == "dur"@ {
        match millis_value(attribute.1) {
            Some(ms) => Some((times.0, ms)),
            None => None,
        }
    } else {
        Some(times)
    }
}

/// Start and duration after the attributes of an element, taken in order.
pub open spec fn with_attributes(times: (u64, u64), attributes: Seq<(Seq<char>, Seq<char>)>)
    -> Option<(u64, u64)>
    decreases attributes.len(),
{
    if attributes.len() == 0 {
        Some(times)
    } else {
        match with_attribute(times, attributes[0]) {
            None => None,
            Some(next) => with_attributes(next, attributes.drop_first()),
        }
    }
}

/// The name of the entry element.
pub open spec fn is_entry(name: Seq<char>) -> bool {
    name == "text"@
}

/// The assembly after one event; `None` where the document is malformed.
///
/// An entry element that opens sets start and duration from its attributes and opens
/// the entry. Character data inside an open entry is added to the text, without its
/// line feeds and with its character references decoded. An entry element that closes
/// hands the snippet over and leaves an idle assembly. Everything else changes nothing.
pub open spec fn after_event(state: Assembly, event: MarkupEventView) -> Option<Assembly> {
    match event {
        MarkupEventView::Open { name, attributes } => if is_entry(name) {
            match with_attributes((state.start, state.duration), attributes) {
                None => None,
                Some(times) => Some(
                    Assembly { open: true, start: times.0, duration: times.1, ..state },
                ),
            }
        } else {
            Some(state)
        },
        MarkupEventView::Close { name } => if is_entry(name) {
            Some(
                idle(
                    state.done.push(
                        CaptionSnippetView {
                            text: state.text,
                            start: state.start,
                            duration: state.duration,
                        },
                    ),
                ),
            )
        } else {
            Some(state)
        },
        MarkupEventView::Characters { text } => if state.open {
            match snippet_text(text) {
                None => None,
                Some(more) => Some(Assembly { text: state.text + more, ..state }),
            }
        } else {
            Some(state)
        },
        MarkupEventView::Other => Some(state),
        MarkupEventView::Failure => None,
    }
}

/// The assembly after a run of events.
pub open spec fn after_events(state: Assembly, events: Seq<MarkupEventView>) -> Option<Assembly>
    decreases events.len(),
{
    if events.len() == 0 {
        Some(state)
    } else {
        match after_event(state, events[0]) {
            None => None,
            Some(next) => after_events(next, events.drop_first()),
        }
    }
}

/// The snippets of a run of events, in document order; `None` where the document is
/// malformed. An entry that never closes gives no snippet.
pub open spec fn assembled(events: Seq<MarkupEventView>) -> Option<Seq<CaptionSnippetView>> {
    match after_events(idle(Seq::empty()), events) {
        None => None,
        Some(state) => Some(state.done),
    }
}

/// `r` holds the snippets `expected`, or is `MalformedCaptions` where there are none.
pub open spec fn is_parse(
    r: Result<Vec<CaptionSnippet>, IngestError>,
    expected: Option<Seq<CaptionSnippetView>>,
) -> bool {
    match expected {
        Some(snippets) => r matches Ok(v) && snippet_views(v@) == snippets,
        None => r == Err::<Vec<CaptionSnippet>, IngestError>(IngestError::MalformedCaptions),
    }
}

/// The texts of the snippets, each followed by one space, in order.
pub open spec fn joined_text(snippets: Seq<CaptionSnippetView>) -> Seq<char>
    decreases snippets.len(),
{
    if snippets.len() == 0 {
        Seq::empty()
    } else {
        joined_text(snippets.drop_last()) + snippets.last().text + seq![' ']
    }
}

/// Reading a run of events is reading its beginning and then its rest.
pub proof fn lemma_events_in_two_parts(state: Assembly, events: Seq<MarkupEventView>, n: int)
    requires
        0 <= n <= events.len(),
    ensures
        after_events(state, events) == match after_events(state, events.take(n)) {
            None => None,
            Some(middle) => after_events(middle, events.skip(n)),
        },
    decreases n,
{
    if n == 0 {
        assert(events.skip(0) == events);
    } else {
        assert(events.take(n)[0] == events[0]);
        assert(events.take(n).drop_first() == events.drop_first().take(n - 1));
        assert(events.skip(n) == events.drop_first().skip(n - 1));
        match after_event(state, events[0]) {
            None => {},
            Some(next) => {
                lemma_events_in_two_parts(next, events.drop_first(), n - 1);
            },
        }
    }
}

/// A snippet that is done stays done: whatever events follow, the snippets that were
/// handed over before are the first of the snippets afterwards, unchanged.
pub proof fn lemma_done_stays_done(state: Assembly, events: Seq<MarkupEventView>)
    ensures
        after_events(state, events) matches Some(end) ==> state.done.is_prefix_of(end.done),
    decreases events.len(),
{
    if events.len() > 0 {
        match after_event(state, events[0]) {
            None => {},
            Some(next) => {
                lemma_done_stays_done(next, events.drop_first());
            },
        }
    }
}

/// Snippets come out in document order: the snippets of the beginning of a document
/// are the first of the snippets of the whole document.
pub proof fn lemma_snippets_in_document_order(events: Seq<MarkupEventView>, n: int)
    requires
        0 <= n <= events.len(),
        assembled(events) is Some,
    ensures
        assembled(events.take(n)) matches Some(first) && first.is_prefix_of(
            assembled(events)->0,
        ),
{
    lemma_events_in_two_parts(idle(Seq::empty()), events, n);
    let middle = after_events(idle(Seq::empty()), events.take(n))->0;
    lemma_done_stays_done(middle, events.skip(n));
}

/// Reads `markup` with `xml::reader::EventReader` to the end of the document or to
/// the first error, and hands each event over as a `MarkupEvent`. The contract gives
/// the events a name: they are a function of `markup` alone.
#[verifier::external_body]
fn read_events(markup: &str) -> (events: Vec<MarkupEvent>)
    ensures
        event_views(events@) == markup_events(markup@),
{
    xml::reader::EventReader::new(markup.as_bytes()).into_iter().map(|event| match event {
        Ok(xml::reader::XmlEvent::StartElement { name, attributes, .. }) => MarkupEvent::Open {
            name: name.local_name,
            attributes: attributes.into_iter().map(|a| (a.name.to_string(), a.value)).collect(),
        },
        Ok(xml::reader::XmlEvent::EndElement { name }) => MarkupEvent::Close {
            name: name.local_name,
        },
        Ok(xml::reader::XmlEvent::Characters(text)) => MarkupEvent::Characters { text },
        Ok(_) => MarkupEvent::Other,
        Err(_) => MarkupEvent::Failure,
    }).collect()
}

/// Calls `html_entities::decode_html_entities`. The contract gives the result a name,
/// and states what the crate's source shows of a text that holds no `&`: it is
/// returned as it is.
#[verifier::external_body]
fn decode_entities(text: &str) -> (decoded: Option<String>)
    ensures
        opt_text(decoded) == decoded_entities(text@),
        !text@.contains('&') ==> opt_text(decoded) == Some(text@),
{
    html_entities::decode_html_entities(text).ok()
}

/// `text` without its line feeds.
pub fn strip_newlines(text: &str) -> (stripped: String)
    ensures
        stripped@ == without_newlines(text@),
{
    let chars = to_chars(text);
    let mut stripped = String::new();
    let mut i: usize = 0;
    while i < chars.len()
        invariant
            i <= chars.len(),
            stripped@ == without_newlines(chars@.take(i as int)),
        decreases chars.len() - i,
    {
        proof {
            let next = chars@.take(i + 1);
            assert(next.drop_last() == chars@.take(i as int));
            assert(next.last() == chars@[i as int]);
        }
        if chars[i] != '\n' {
            stripped.push(chars[i]);
        }
        i += 1;
    }
    assert(chars@.take(chars@.len() as int) == chars@);
    stripped
}

/// What character data adds to the text of a snippet, as `snippet_text` says.
pub fn character_data(data: &str) -> (text: Option<String>)
    ensures
        opt_text(text) == snippet_text(data@),
{
    let stripped = strip_newlines(data);
    decode_entities(stripped.as_str())
}

/// Start and duration after the attributes of an element, as `with_attributes` says.
pub fn read_times(start: u64, duration: u64, attributes: &Vec<(String, String)>) -> (times:
    Option<(u64, u64)>)
    ensures
        times == with_attributes((start, duration), pair_views(attributes@)),
{
    let ghost all = pair_views(attributes@);
    let mut times = (start, duration);
    let mut i: usize = 0;
    assert(all.skip(0) == all);
    while i < attributes.len()
        invariant
            i <= attributes.len(),
            all == pair_views(attributes@),
            with_attributes((start, duration), all) == with_attributes(times, all.skip(i as int)),
        decreases attributes.len() - i,
    {
        proof {
            let rest = all.skip(i as int);
            assert(rest[0] == all[i as int]);
            assert(rest.drop_first() == all.skip(i + 1));
        }
        let name = attributes[i].0.as_str();
        let value = attributes[i].1.as_str();
        if same_text(name, "start") {
            match parse_millis(value) {
                Some(ms) => {
                    times = (ms, times.1);
                },
                None => {
                    return None;
                },
            }
        } else if same_text(name, "dur") {
            match parse_millis(value) {
                Some(ms) => {
                    times = (times.0, ms);
                },
                None => {
                    return None;
                },
            }
        }
        i += 1;
    }
    Some(times)
}

/// The snippets of a run of markup events, in document order.
///
/// Fails with `MalformedCaptions`, and hands out no snippet at all, where the run
/// holds a `Failure`, where a `start` or `dur` of an entry is no number of seconds, or
/// where the character data of an open entry holds a character reference that cannot
/// be decoded.
pub fn assemble(events: &Vec<MarkupEvent>) -> (r: Result<Vec<CaptionSnippet>, IngestError>)
    ensures
        is_parse(r, assembled(event_views(events@))),
{
    let ghost all = event_views(events@);
    let mut done: Vec<CaptionSnippet> = Vec::new();
    let mut open = false;
    let mut text = String::new();
    let mut start: u64 = 0;
    let mut duration: u64 = 0;
    let mut i: usize = 0;
    assert(all.skip(0) == all);
    assert(snippet_views(done@) == Seq::<CaptionSnippetView>::empty());
    while i < events.len()
        invariant
            i <= events.len(),
            all == event_views(events@),
            after_events(idle(Seq::empty()), all) == after_events(
                Assembly { open, text: text@, start, duration, done: snippet_views(done@) },
                all.skip(i as int),
            ),
        decreases events.len() - i,
    {
        proof {
            let rest = all.skip(i as int);
            assert(rest[0] == events@[i as int]@);
            assert(rest.drop_first() == all.skip(i + 1));
        }
        match &events[i] {
            MarkupEvent::Open { name, attributes } => {
                if same_text(name.as_str(), "text") {
                    match read_times(start, duration, attributes) {
                        None => {
                            return Err(IngestError::MalformedCaptions);
                        },
                        Some(times) => {
                            open = true;
                            start = times.0;
                            duration = times.1;
                        },
                    }
                }
            },
            MarkupEvent::Close { name } => {
                if same_text(name.as_str(), "text") {
                    let ghost before = snippet_views(done@);
                    let snippet = CaptionSnippet { text, start, duration };
                    done.push(snippet);
                    assert(snippet_views(done@) == before.push(snippet@));
                    open = false;
                    text = String::new();
                    start = 0;
                    duration = 0;
                }
            },
            MarkupEvent::Characters { text: data } => {
                if open {
                    match character_data(data.as_str()) {
                        None => {
                            return Err(IngestError::MalformedCaptions);
                        },
                        Some(more) => {
                            text.append(more.as_str());
                        },
                    }
                }
            },
            MarkupEvent::Other => {},
            MarkupEvent::Failure => {
                return Err(IngestError::MalformedCaptions);
            },
        }
        i += 1;
    }
    Ok(done)
}

/// The snippets of a timed-text document, in document order.
///
/// The document is read by the `xml` crate; what is made of its events is what
/// `assemble` makes of them.
pub fn parse_timed_text(markup: &str) -> (r: Result<Vec<CaptionSnippet>, IngestError>)
    ensures
        is_parse(r, assembled(markup_events(markup@))),
{
    let events = read_events(markup);
    assemble(&events)
}

/// The raw text of a caption document: the texts of its snippets, each followed by one
/// space, in order.
pub fn raw_text(snippets: &Vec<CaptionSnippet>) -> (raw: String)
    ensures
        raw@ == joined_text(snippet_views(snippets@)),
{
    let ghost all = snippet_views(snippets@);
    let mut raw = String::new();
    let mut i: usize = 0;
    while i < snippets.len()
        invariant
            i <= snippets.len(),
            all == snippet_views(snippets@),
            raw@ == joined_text(all.take(i as int)),
        decreases snippets.len() - i,
    {
        proof {
            let next = all.take(i + 1);
            assert(next.drop_last() == all.take(i as int));
            assert(next.last() == snippets@[i as int]@);
        }
        raw.append(snippets[i].text.as_str());
        raw.push(' ');
        i += 1;
    }
    assert(all.take(all.len() as int) == all);
    raw
}

/// Address of the page of a video.
pub open spec fn watch_address(video_id: Seq<char>) -> Seq<char> {
    "https://www.youtube.com/watch?v="@ + video_id
}

/// The marker that precedes the captions configuration in the page of a video.
pub open spec fn captions_marker() -> Seq<char> {
    "\"captions\":"@
}

/// The marker of the block that follows the captions configuration.
pub open spec fn details_marker() -> Seq<char> {
    ",\"videoDetails"@
}

/// The first place at or after `from` where `marker` stands in `page`, or the end of
/// `page` where it stands nowhere.
pub open spec fn marker_or_end(page: Seq<char>, marker: Seq<char>, from: int) -> int {
    match first_occurrence(page, marker, from) {
        Some(at) => at,
        None => page.len() as int,
    }
}

/// The captions configuration embedded in a page: the text after the first captions
/// marker, up to the next marker of either kind or to the end of the page. `None`
/// where the page holds no captions marker.
pub open spec fn captions_block(page: Seq<char>) -> Option<Seq<char>> {
    match first_occurrence(page, captions_marker(), 0) {
        None => None,
        Some(at) => {
            let from = at + captions_marker().len();
            let next_captions = marker_or_end(page, captions_marker(), from);
            let next_details = marker_or_end(page, details_marker(), from);
            let to = if next_details < next_captions {
                next_details
            } else {
                next_captions
            };
            Some(page.subrange(from, to))
        },
    }
}

/// The place of the track that is taken from the list of a video's caption tracks.
pub const TRACK_POSITION: usize = 1;

/// The address of the page of the video `video_id`.
pub fn watch_url(video_id: &str) -> (url: String)
    ensures
        url@ == watch_address(video_id@),
{
    let mut url = "https://www.youtube.com/watch?v=".to_owned();
    url.append(video_id);
    url
}

/// The first place at or after `from` where `marker` stands in `page`, or the end of
/// `page`.
fn next_marker(page: &Vec<char>, marker: &Vec<char>, from: usize) -> (at: usize)
    requires
        from <= page.len(),
    ensures
        at == marker_or_end(page@, marker@, from as int),
        from <= at <= page.len(),
{
    proof {
        lemma_first_occurrence(page@, marker@, from as int);
    }
    match find_from(page, marker, from) {
        Some(at) => at,
        None => page.len(),
    }
}

/// The captions configuration embedded in the page of a video, as text.
///
/// Fails with `CaptionsUnavailable` exactly where the page holds no captions marker.
pub fn captions_json(page: &str) -> (r: Result<String, IngestError>)
    ensures
        match captions_block(page@) {
            Some(block) => r matches Ok(json) && json@ == block,
            None => r == Err::<String, IngestError>(IngestError::CaptionsUnavailable),
        },
{
    let chars = to_chars(page);
    let captions = to_chars("\"captions\":");
    let details = to_chars(",\"videoDetails");
    proof {
        lemma_first_occurrence(chars@, captions@, 0);
    }
    match find_from(&chars, &captions, 0) {
        None => Err(IngestError::CaptionsUnavailable),
        Some(at) => {
            let from = at + captions.len();
            let next_captions = next_marker(&chars, &captions, from);
            let next_details = next_marker(&chars, &details, from);
            let to = if next_details < next_captions {
                next_details
            } else {
                next_captions
            };
            Ok(slice_string(&chars, from, to))
        },
    }
}

/// The address of the timed-text document of a video: that of the track at
/// `TRACK_POSITION` in the list of the page.
///
/// Fails with `UpstreamError` exactly where the list is too short to hold that track.
pub fn select_track(data: &YouTubeHtmlCaptionData) -> (r: Result<String, IngestError>)
    ensures
        match r {
            Ok(url) => data@.len() > TRACK_POSITION && url@ == data@[TRACK_POSITION as int],
            Err(e) => data@.len() <= TRACK_POSITION && e == IngestError::UpstreamError,
        },
{
    let tracks = &data.player_captions_tracklist_renderer.caption_tracks;
    if tracks.len() > TRACK_POSITION {
        Ok(tracks[TRACK_POSITION].base_url.clone())
    } else {
        Err(IngestError::UpstreamError)
    }
}

} // verus!
