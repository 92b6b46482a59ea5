use yousearch::error::IngestError;
use yousearch::utils::captions::{
    assemble, captions_json, character_data, parse_timed_text, raw_text, read_times, select_track,
    strip_newlines, watch_url, CaptionSnippet, MarkupEvent, YouTubeCaptionTrack,
    YouTubeCaptionTracks, YouTubeHtmlCaptionData, TRACK_POSITION,
};

fn snippet(text: &str, start: u64, duration: u64) -> CaptionSnippet {
    CaptionSnippet { text: text.to_string(), start, duration }
}

fn open(attributes: &[(&str, &str)]) -> MarkupEvent {
    MarkupEvent::Open {
        name: "text".to_string(),
        attributes: attributes.iter().map(|(k, v)| (k.to_string(), v.to_string())).collect(),
    }
}

fn close() -> MarkupEvent {
    MarkupEvent::Close { name: "text".to_string() }
}

fn characters(text: &str) -> MarkupEvent {
    MarkupEvent::Characters { text: text.to_string() }
}

fn tracks(urls: &[&str]) -> YouTubeHtmlCaptionData {
    YouTubeHtmlCaptionData {
        player_captions_tracklist_renderer: YouTubeCaptionTracks {
            caption_tracks: urls
                .iter()
                .map(|u| YouTubeCaptionTrack { base_url: u.to_string() })
                .collect(),
        },
    }
}

#[test]
fn timed_text_entries_in_order() {
    let events = vec![
        open(&[("start", "1.0"), ("dur", "2.0")]),
        characters("hello"),
        close(),
        open(&[("start", "5.5"), ("dur", "1.2")]),
        characters("world &amp; friends"),
        close(),
    ];
    let snippets = assemble(&events).unwrap();
    assert_eq!(
        snippets,
        vec![snippet("hello", 1000, 2000), snippet("world & friends", 5500, 1200)]
    );
    assert_eq!(raw_text(&snippets), "hello world & friends ");
    let seconds: Vec<(f64, f64)> = snippets
        .iter()
        .map(|s| (s.start as f64 / 1000.0, s.duration as f64 / 1000.0))
        .collect();
    assert_eq!(seconds, vec![(1.0, 2.0), (5.5, 1.2)]);
}

#[test]
fn timed_text_document_in_order() {
    let markup = "<?xml version=\"1.0\" encoding=\"utf-8\" ?><transcript>\
        <text start=\"1.0\" dur=\"2.0\">hello</text>\
        <text start=\"5.5\" dur=\"1.2\">world &amp;amp; friends</text></transcript>";
    let snippets = parse_timed_text(markup).unwrap();
    assert_eq!(
        snippets,
        vec![snippet("hello", 1000, 2000), snippet("world & friends", 5500, 1200)]
    );
    assert_eq!(raw_text(&snippets), "hello world & friends ");
}

#[test]
fn timed_text_decodes_references_and_strips_newlines() {
    let markup = "<transcript><text start=\"0.5\" dur=\"3\">it&amp;#39;s\n&amp;quot;here&amp;quot;\n&amp;#x41;</text></transcript>";
    assert_eq!(parse_timed_text(markup), Ok(vec![snippet("it's\"here\"A", 500, 3000)]));
}

#[test]
fn timed_text_that_is_not_well_formed_fails() {
    assert_eq!(
        parse_timed_text("<transcript><text start=\"1\" dur=\"2\">abc</transcript>"),
        Err(IngestError::MalformedCaptions)
    );
    assert_eq!(parse_timed_text("no markup at all"), Err(IngestError::MalformedCaptions));
    assert_eq!(parse_timed_text(""), Err(IngestError::MalformedCaptions));
    assert_eq!(
        parse_timed_text("<transcript><text start=\"1\" dur=\"2\">done</text><text"),
        Err(IngestError::MalformedCaptions)
    );
}

#[test]
fn timed_text_with_a_bad_number_fails() {
    assert_eq!(
        parse_timed_text("<transcript><text start=\"soon\" dur=\"2\">abc</text></transcript>"),
        Err(IngestError::MalformedCaptions)
    );
    assert_eq!(
        parse_timed_text("<transcript><text start=\"1\" dur=\"-2\">abc</text></transcript>"),
        Err(IngestError::MalformedCaptions)
    );
}

#[test]
fn timed_text_with_an_unknown_reference_fails() {
    assert_eq!(
        parse_timed_text("<transcript><text start=\"1\" dur=\"2\">a &amp;nosuch; b</text></transcript>"),
        Err(IngestError::MalformedCaptions)
    );
    // A lone ampersand in the character data is the start of a reference that never ends.
    assert_eq!(
        parse_timed_text("<transcript><text start=\"1\" dur=\"2\">a &amp; b</text></transcript>"),
        Err(IngestError::MalformedCaptions)
    );
}

#[test]
fn timed_text_without_entries_is_empty() {
    assert_eq!(parse_timed_text("<transcript></transcript>"), Ok(Vec::new()));
    assert_eq!(parse_timed_text("<transcript>loose words &amp; more</transcript>"), Ok(Vec::new()));
}

#[test]
fn timed_text_entry_without_attributes_starts_at_zero() {
    assert_eq!(
        parse_timed_text("<transcript><text>abc</text><text start=\"0\" dur=\"0\">def</text></transcript>"),
        Ok(vec![snippet("abc", 0, 0), snippet("def", 0, 0)])
    );
}

#[test]
fn timed_text_empty_entry_gives_empty_snippet() {
    assert_eq!(
        parse_timed_text("<transcript><text start=\"4\" dur=\"1\"/></transcript>"),
        Ok(vec![snippet("", 4000, 1000)])
    );
}

#[test]
fn timed_text_keeps_document_order() {
    let markup = "<transcript><text start=\"9\" dur=\"1\">late</text><text start=\"2\" dur=\"1\">early</text></transcript>";
    assert_eq!(
        parse_timed_text(markup),
        Ok(vec![snippet("late", 9000, 1000), snippet("early", 2000, 1000)])
    );
}

#[test]
fn timed_text_other_attributes_and_elements_are_passed_over() {
    let markup = "<transcript lang=\"en\"><head start=\"77\">skip</head>\
        <text id=\"a\" start=\"1\" dur=\"2\" start2=\"5\">a<b>b</b>c</text></transcript>";
    assert_eq!(parse_timed_text(markup), Ok(vec![snippet("abc", 1000, 2000)]));
}

#[test]
fn timed_text_prefixed_attributes_are_other_attributes() {
    let markup = "<transcript xmlns:x=\"urn:x\"><text x:start=\"9\" dur=\"2\">a</text></transcript>";
    assert_eq!(parse_timed_text(markup), Ok(vec![snippet("a", 0, 2000)]));
}

#[test]
fn character_data_of_plain_and_referenced_text() {
    assert_eq!(character_data("hi"), Some("hi".to_string()));
    assert_eq!(character_data("a\nb"), Some("ab".to_string()));
    assert_eq!(character_data("&lt;b&gt; &#33;"), Some("<b> !".to_string()));
    assert_eq!(character_data("&nosuch;"), None);
    assert_eq!(character_data("a & b"), None);
}

#[test]
fn assemble_appends_character_data() {
    let events = vec![
        open(&[("start", "1")]),
        characters("one "),
        MarkupEvent::Other,
        characters("two"),
        close(),
    ];
    assert_eq!(assemble(&events), Ok(vec![snippet("one two", 1000, 0)]));
}

#[test]
fn assemble_ignores_characters_outside_entries() {
    let events = vec![
        characters("before &broken"),
        open(&[("dur", "2")]),
        characters("in"),
        close(),
        characters("after"),
    ];
    assert_eq!(assemble(&events), Ok(vec![snippet("in", 0, 2000)]));
}

#[test]
fn assemble_last_attribute_wins() {
    let events = vec![open(&[("start", "1"), ("start", "2"), ("dur", "3")]), close()];
    assert_eq!(assemble(&events), Ok(vec![snippet("", 2000, 3000)]));
}

#[test]
fn assemble_resets_after_each_entry() {
    let events = vec![
        open(&[("start", "1"), ("dur", "2")]),
        characters("a"),
        close(),
        open(&[]),
        characters("b"),
        close(),
    ];
    assert_eq!(assemble(&events), Ok(vec![snippet("a", 1000, 2000), snippet("b", 0, 0)]));
}

#[test]
fn assemble_entry_that_never_closes_gives_nothing() {
    let events = vec![open(&[("start", "1")]), characters("a")];
    assert_eq!(assemble(&events), Ok(Vec::new()));
}

#[test]
fn assemble_close_without_open_hands_over_the_empty_snippet() {
    assert_eq!(assemble(&vec![close()]), Ok(vec![snippet("", 0, 0)]));
}

#[test]
fn assemble_fails_on_failure_event() {
    let events = vec![
        open(&[("start", "1")]),
        characters("a"),
        close(),
        MarkupEvent::Failure,
    ];
    assert_eq!(assemble(&events), Err(IngestError::MalformedCaptions));
}

#[test]
fn assemble_other_elements_change_nothing() {
    let events = vec![
        MarkupEvent::Open { name: "transcript".to_string(), attributes: vec![("start".to_string(), "bad".to_string())] },
        open(&[("start", "3")]),
        MarkupEvent::Open { name: "b".to_string(), attributes: Vec::new() },
        characters("x"),
        MarkupEvent::Close { name: "b".to_string() },
        close(),
        MarkupEvent::Close { name: "transcript".to_string() },
    ];
    assert_eq!(assemble(&events), Ok(vec![snippet("x", 3000, 0)]));
}

#[test]
fn read_times_cases() {
    let attrs = |list: &[(&str, &str)]| -> Vec<(String, String)> {
        list.iter().map(|(k, v)| (k.to_string(), v.to_string())).collect()
    };
    assert_eq!(read_times(1, 2, &attrs(&[])), Some((1, 2)));
    assert_eq!(read_times(1, 2, &attrs(&[("start", "3")])), Some((3000, 2)));
    assert_eq!(read_times(1, 2, &attrs(&[("dur", "0.25")])), Some((1, 250)));
    assert_eq!(read_times(1, 2, &attrs(&[("other", "x")])), Some((1, 2)));
    assert_eq!(read_times(1, 2, &attrs(&[("start", "3"), ("dur", "x")])), None);
}

#[test]
fn strip_newlines_cases() {
    assert_eq!(strip_newlines("a\nb\n\nc\n"), "abc");
    assert_eq!(strip_newlines("\n"), "");
    assert_eq!(strip_newlines("a\r\nb"), "a\rb");
    assert_eq!(strip_newlines("plain"), "plain");
}

#[test]
fn raw_text_cases() {
    assert_eq!(raw_text(&Vec::new()), "");
    assert_eq!(raw_text(&vec![snippet("a", 0, 0)]), "a ");
    assert_eq!(raw_text(&vec![snippet("a", 0, 0), snippet("", 0, 0), snippet("b c", 0, 0)]), "a  b c ");
}

#[test]
fn watch_url_of_id() {
    assert_eq!(watch_url("TTjYjSEGHek"), "https://www.youtube.com/watch?v=TTjYjSEGHek");
}

#[test]
fn captions_json_between_markers() {
    let page = "<html>var x = {\"a\":1,\"captions\":{\"playerCaptionsTracklistRenderer\":{}},\"videoDetails\":{\"id\":1}};</html>";
    assert_eq!(captions_json(page), Ok("{\"playerCaptionsTracklistRenderer\":{}}".to_string()));
}

#[test]
fn captions_json_to_the_end_without_second_marker() {
    assert_eq!(captions_json("x\"captions\":{\"k\":2}"), Ok("{\"k\":2}".to_string()));
    assert_eq!(captions_json("x\"captions\":"), Ok(String::new()));
}

#[test]
fn captions_json_stops_at_next_captions_marker() {
    assert_eq!(
        captions_json("\"captions\":AAA\"captions\":BBB,\"videoDetails\":C"),
        Ok("AAA".to_string())
    );
    assert_eq!(
        captions_json("\"captions\":AAA,\"videoDetails\":C\"captions\":BBB"),
        Ok("AAA".to_string())
    );
}

#[test]
fn captions_json_ignores_details_marker_before_captions() {
    assert_eq!(
        captions_json("a,\"videoDetails\":1,\"captions\":{}"),
        Ok("{}".to_string())
    );
}

#[test]
fn captions_json_without_marker_is_unavailable() {
    assert_eq!(captions_json("<html>nothing here</html>"), Err(IngestError::CaptionsUnavailable));
    assert_eq!(captions_json(""), Err(IngestError::CaptionsUnavailable));
    assert_eq!(captions_json("\"captions\""), Err(IngestError::CaptionsUnavailable));
    assert_eq!(captions_json(",\"videoDetails\":{}"), Err(IngestError::CaptionsUnavailable));
}

#[test]
fn select_track_takes_the_fixed_position() {
    assert_eq!(TRACK_POSITION, 1);
    assert_eq!(select_track(&tracks(&["u0", "u1", "u2"])), Ok("u1".to_string()));
    assert_eq!(select_track(&tracks(&["u0", "u1"])), Ok("u1".to_string()));
}

#[test]
fn select_track_of_short_list_fails() {
    assert_eq!(select_track(&tracks(&["u0"])), Err(IngestError::UpstreamError));
    assert_eq!(select_track(&tracks(&[])), Err(IngestError::UpstreamError));
}
