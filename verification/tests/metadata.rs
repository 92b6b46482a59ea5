use yousearch::endpoints::general::{index, SuccessFailResponse};
use yousearch::endpoints::users::{get_all_users, insert_user, NewUserIdResponse, User};
use yousearch::endpoints::videos::{create_video_response, CreateVideoResponse};
use yousearch::error::IngestError;
use yousearch::utils::metadata::{
    channel_url, first_item, metadata_request, new_channel, parse_duration, upload_time,
    video_length, view_count, ChannelItem, MetadataKind, NewChannel, VideoItem,
};

fn item(views: &str) -> VideoItem {
    VideoItem {
        id: "vid".to_string(),
        title: "title".to_string(),
        channel_id: "UC1".to_string(),
        channel_title: "channel".to_string(),
        thumbnail: "thumb".to_string(),
        published_at: "2022-04-15T05:20:00Z".to_string(),
        view_count: views.to_string(),
        duration: "PT4M13S".to_string(),
    }
}

#[test]
fn metadata_request_for_video() {
    assert_eq!(
        metadata_request(MetadataKind::Video, "KEY", "TTjYjSEGHek"),
        "https://www.googleapis.com/youtube/v3/videos?key=KEY&part=id,snippet,statistics,contentDetails&id=TTjYjSEGHek"
    );
}

#[test]
fn metadata_request_for_channel() {
    assert_eq!(
        metadata_request(MetadataKind::Channel, "KEY", "UC1"),
        "https://www.googleapis.com/youtube/v3/channels?key=KEY&part=id,snippet,statistics,contentDetails&id=UC1"
    );
}

#[test]
fn first_item_of_answer() {
    assert_eq!(first_item(vec![3, 4, 5]), Ok(3));
    assert_eq!(first_item(vec!["only".to_string()]), Ok("only".to_string()));
}

#[test]
fn first_item_of_empty_answer_is_not_found() {
    assert_eq!(first_item(Vec::<i32>::new()), Err(IngestError::NotFound));
}

#[test]
fn view_count_of_item() {
    assert_eq!(view_count(&item("1234567")), Ok(1234567));
    assert_eq!(view_count(&item("0")), Ok(0));
}

#[test]
fn view_count_that_is_no_number_is_upstream_error() {
    assert_eq!(view_count(&item("")), Err(IngestError::UpstreamError));
    assert_eq!(view_count(&item("many")), Err(IngestError::UpstreamError));
    assert_eq!(view_count(&item("1.5")), Err(IngestError::UpstreamError));
}

#[test]
fn upload_time_of_item() {
    assert_eq!(upload_time(&item("1")), Some(1_650_000_000));
    let elsewhere = VideoItem { published_at: "2022-04-15T07:20:00+02:00".to_string(), ..item("1") };
    assert_eq!(upload_time(&elsewhere), Some(1_650_000_000));
    let early = VideoItem { published_at: "1969-12-31T23:59:59Z".to_string(), ..item("1") };
    assert_eq!(upload_time(&early), Some(-1));
}

#[test]
fn upload_time_that_cannot_be_read_is_absent() {
    for text in ["", "yesterday", "2022-04-15", "2022-04-15T05:20:00", "1650000000"] {
        let unknown = VideoItem { published_at: text.to_string(), ..item("1") };
        assert_eq!(upload_time(&unknown), None);
    }
}

#[test]
fn parse_duration_cases() {
    assert_eq!(parse_duration("PT4M13S"), Some(253));
    assert_eq!(parse_duration("PT5M"), Some(300));
    assert_eq!(parse_duration("PT1H2M3S"), Some(3723));
    assert_eq!(parse_duration("PT15S"), Some(15));
    assert_eq!(parse_duration("PT2H"), Some(7200));
    assert_eq!(parse_duration("PT1H5S"), Some(3605));
    assert_eq!(parse_duration("PT0S"), Some(0));
    assert_eq!(parse_duration("PT90M"), Some(5400));
    assert_eq!(parse_duration("PT007S"), Some(7));
}

#[test]
fn parse_duration_rejects_other_forms() {
    for text in [
        "", "P", "PT", "T5M", "5M", "PT5", "PTM", "PT5M ", " PT5M", "PT5m", "PT5M3", "PT3S5M",
        "PT1H1H", "PT-5M", "PT1.5S", "P1DT2H", "PT5X", "4:13", "PT5MS",
    ] {
        assert_eq!(parse_duration(text), None, "{text:?}");
    }
}

#[test]
fn parse_duration_at_the_limit() {
    assert_eq!(parse_duration("PT2147483647S"), Some(i32::MAX));
    assert_eq!(parse_duration("PT2147483648S"), None);
    assert_eq!(parse_duration("PT596523H14M7S"), Some(i32::MAX));
    assert_eq!(parse_duration("PT596523H14M8S"), None);
    assert_eq!(parse_duration("PT99999999999999999999999S"), None);
    assert_eq!(parse_duration("PT99999999999999999999999H1S"), None);
}

#[test]
fn video_length_of_item() {
    assert_eq!(video_length(&item("1")), Ok(253));
    let unreadable = VideoItem { duration: "soon".to_string(), ..item("1") };
    assert_eq!(video_length(&unreadable), Err(IngestError::UpstreamError));
}

#[test]
fn channel_url_of_id() {
    assert_eq!(channel_url("UC1"), "https://youtube.com/channel/UC1");
}

#[test]
fn new_channel_of_item() {
    let channel = new_channel(ChannelItem {
        id: "UC1".to_string(),
        title: "Talks".to_string(),
        thumbnail: "https://img/1".to_string(),
    });
    assert_eq!(
        channel,
        NewChannel {
            title: "Talks".to_string(),
            url: "https://youtube.com/channel/UC1".to_string(),
            thumbnail: "https://img/1".to_string(),
            youtube_id: "UC1".to_string(),
        }
    );
}

#[test]
fn index_says_the_service_is_up() {
    assert_eq!(index(), SuccessFailResponse { success: true });
    assert_eq!(SuccessFailResponse::of(false), SuccessFailResponse { success: false });
}

#[test]
fn insert_user_answer() {
    assert_eq!(insert_user(Some(12)), NewUserIdResponse { id: 12 });
    assert_eq!(insert_user(None), NewUserIdResponse { id: -1 });
}

#[test]
fn get_all_users_answer() {
    let users = vec![User { id: 1, name: "ann".to_string() }, User { id: 2, name: "bob".to_string() }];
    assert_eq!(get_all_users(Some(users.clone())), users);
    assert_eq!(get_all_users(None), Vec::new());
}

#[test]
fn create_video_response_of_outcome() {
    assert_eq!(create_video_response(Ok(41)), CreateVideoResponse { success: true, id: 41 });
    for error in [
        IngestError::InvalidUrl,
        IngestError::NotFound,
        IngestError::UpstreamError,
        IngestError::CaptionsUnavailable,
        IngestError::MalformedCaptions,
        IngestError::StoreError,
    ] {
        assert_eq!(create_video_response(Err(error)), CreateVideoResponse { success: false, id: -1 });
    }
}
