use camcoder::hls::Hls;
use camcoder::lazybytes::{LazyBytes, Polled};
use camcoder::service::{
    parse_index, route, HlsService, IndexError, Reply, Route, PLAYER_LOCATION,
    PLAYLIST_CONTENT_TYPE,
};
use std::sync::{Arc, RwLock};

#[test]
fn segment_paths_name_an_index() {
    assert_eq!(route(true, "/segment000000003.ts"), Route::Segment(3));
    assert_eq!(route(true, "/segment3.ts"), Route::Segment(3));
    assert_eq!(route(true, "/segment0.ts"), Route::Segment(0));
    assert_eq!(route(true, "/segment123456789012.ts"), Route::Segment(123456789012));
    assert_eq!(route(true, "/segment18446744073709551615.ts"), Route::Segment(u64::MAX));
    assert_eq!(route(true, "/segment+7.ts"), Route::Segment(7));
    assert_eq!(route(true, "/segment7"), Route::Segment(7));
}

#[test]
fn every_prefix_and_suffix_is_taken_out() {
    assert_eq!(route(true, "/segment/segment12.ts.ts"), Route::Segment(12));
    assert_eq!(route(true, "/segment1/segment2.ts"), Route::Segment(12));
    assert_eq!(route(true, "/segment4.ts2"), Route::Segment(42));
    assert_eq!(route(true, "/segment.t/segments5"), Route::Segment(5));
    assert_eq!(route(true, "/segment.t.tss5"), Route::InvalidIndex(IndexError::InvalidDigit));
    assert_eq!(
        "/segment.t.tss5".replace("/segment", "").replace(".ts", "").parse::<u64>().is_err(),
        true
    );
    assert_eq!("/segment.t/segments5".replace("/segment", "").replace(".ts", ""), "5");
}

#[test]
fn what_is_not_an_index_is_refused() {
    assert_eq!(route(true, "/segment.ts"), Route::InvalidIndex(IndexError::Empty));
    assert_eq!(route(true, "/segment"), Route::InvalidIndex(IndexError::Empty));
    assert_eq!(route(true, "/segmentabc.ts"), Route::InvalidIndex(IndexError::InvalidDigit));
    assert_eq!(route(true, "/segment-1.ts"), Route::InvalidIndex(IndexError::InvalidDigit));
    assert_eq!(route(true, "/segment+.ts"), Route::InvalidIndex(IndexError::InvalidDigit));
    assert_eq!(route(true, "/segment++1.ts"), Route::InvalidIndex(IndexError::InvalidDigit));
    assert_eq!(route(true, "/segment 1.ts"), Route::InvalidIndex(IndexError::InvalidDigit));
    assert_eq!(route(true, "/segment1.5.ts"), Route::InvalidIndex(IndexError::InvalidDigit));
    assert_eq!(route(true, "/segment\u{663}.ts"), Route::InvalidIndex(IndexError::InvalidDigit));
    assert_eq!(
        route(true, "/segment18446744073709551616.ts"),
        Route::InvalidIndex(IndexError::PosOverflow)
    );
    assert_eq!(
        route(true, "/segment99999999999999999999999.ts"),
        Route::InvalidIndex(IndexError::PosOverflow)
    );
}

#[test]
fn other_paths_are_told_apart() {
    assert_eq!(route(true, "/index.m3u8"), Route::Playlist);
    assert_eq!(route(true, "/"), Route::Root);
    assert_eq!(route(true, "/index.html"), Route::Static);
    assert_eq!(route(true, "/index.m3u8x"), Route::Static);
    assert_eq!(route(true, "/index.m3u"), Route::Static);
    assert_eq!(route(true, ""), Route::Static);
    assert_eq!(route(true, "/segmen"), Route::Static);
    assert_eq!(route(true, "segment1.ts"), Route::Static);
    assert_eq!(route(true, "//"), Route::Static);
}

#[test]
fn only_get_is_served() {
    assert_eq!(route(false, "/segment1.ts"), Route::NotFound);
    assert_eq!(route(false, "/index.m3u8"), Route::NotFound);
    assert_eq!(route(false, "/"), Route::NotFound);
    assert_eq!(route(false, "/index.html"), Route::NotFound);
}

#[test]
fn index_is_digits_behind_an_optional_plus() {
    assert_eq!(parse_index(b"0"), Ok(0));
    assert_eq!(parse_index(b"0042"), Ok(42));
    assert_eq!(parse_index(b"+42"), Ok(42));
    assert_eq!(parse_index(b"18446744073709551615"), Ok(u64::MAX));
    assert_eq!(parse_index(b"00000000000000000000000018446744073709551615"), Ok(u64::MAX));
    assert_eq!(parse_index(b""), Err(IndexError::Empty));
    assert_eq!(parse_index(b"+"), Err(IndexError::InvalidDigit));
    assert_eq!(parse_index(b"-"), Err(IndexError::InvalidDigit));
    assert_eq!(parse_index(b"4 2"), Err(IndexError::InvalidDigit));
    assert_eq!(parse_index(b"42+"), Err(IndexError::InvalidDigit));
    assert_eq!(parse_index(b"/"), Err(IndexError::InvalidDigit));
    assert_eq!(parse_index(b":"), Err(IndexError::InvalidDigit));
    assert_eq!(parse_index(b"18446744073709551616"), Err(IndexError::PosOverflow));
    assert_eq!(parse_index(b"18446744073709551620"), Err(IndexError::PosOverflow));
    assert_eq!(parse_index(b"99999999999999999999x"), Err(IndexError::InvalidDigit));
}

#[test]
fn index_agrees_with_the_standard_parser_on_success() {
    for text in ["0", "7", "+7", "007", "123456", "18446744073709551615", "", "+", "-7", "x", "1x"]
    {
        assert_eq!(parse_index(text.as_bytes()).ok(), text.parse::<u64>().ok());
    }
}

#[test]
fn errors_are_described_in_words() {
    assert_eq!(IndexError::Empty.description(), "cannot parse integer from empty string");
    assert_eq!(IndexError::InvalidDigit.description(), "invalid digit found in string");
    assert_eq!(IndexError::PosOverflow.description(), "number too large to fit in target type");
    assert_eq!(
        IndexError::InvalidDigit.message(),
        "Invalid segment index: invalid digit found in string"
    );
}

fn store_of(count: usize) -> (Hls, Vec<Arc<RwLock<LazyBytes>>>) {
    let mut hls = Hls::new();
    let mut handles = Vec::new();
    for _ in 0..count {
        let handle = Arc::new(RwLock::new(LazyBytes::new()));
        hls.add_new_segment(300, handle.clone());
        handles.push(handle);
    }
    (hls, handles)
}

#[test]
fn a_segment_is_streamed_from_its_start() {
    let (hls, handles) = store_of(12);
    assert_eq!(handles[4].write().unwrap().append(b"five"), Ok(()));
    handles[4].write().unwrap().finish();
    match HlsService::answer(&hls, true, "/segment000000005.ts") {
        Reply::Segment(mut stream) => {
            assert_eq!(stream.processed_bytes(), 0);
            match stream.poll() {
                Ok(Polled::Chunk(bytes)) => assert_eq!(&bytes[..], b"five"),
                _ => panic!("expected the segment's bytes"),
            }
            assert!(matches!(stream.poll(), Ok(Polled::End)));
        }
        _ => panic!("expected a segment"),
    }
}

#[test]
fn an_evicted_or_unknown_segment_is_not_found() {
    let (hls, _) = store_of(12);
    assert!(matches!(HlsService::answer(&hls, true, "/segment000000002.ts"), Reply::NotFound));
    assert!(matches!(HlsService::answer(&hls, true, "/segment13.ts"), Reply::NotFound));
    assert!(matches!(HlsService::answer(&hls, true, "/segment0.ts"), Reply::NotFound));
    assert!(matches!(HlsService::answer(&hls, true, "/segment3.ts"), Reply::Segment(_)));
    assert!(matches!(HlsService::answer(&hls, true, "/segment12.ts"), Reply::Segment(_)));
}

#[test]
fn answers_carry_their_status() {
    let (hls, _) = store_of(2);
    let playlist = HlsService::answer(&hls, true, "/index.m3u8");
    assert_eq!(playlist.status(), Some(200));
    match &playlist {
        Reply::Playlist(text) => {
            assert_eq!(text, &hls.generate_playlist());
            assert_eq!(playlist.content_length(), Some(text.len()));
        }
        _ => panic!("expected the playlist"),
    }
    let segment = HlsService::answer(&hls, true, "/segment1.ts");
    assert_eq!(segment.status(), Some(200));
    assert_eq!(segment.content_length(), None);
    let missing = HlsService::answer(&hls, true, "/segment9.ts");
    assert_eq!(missing.status(), Some(404));
    assert_eq!(missing.content_length(), None);
    let invalid = HlsService::answer(&hls, true, "/segmentx.ts");
    assert!(matches!(invalid, Reply::InvalidIndex(IndexError::InvalidDigit)));
    assert_eq!(invalid.status(), Some(400));
    assert_eq!(
        invalid.content_length(),
        Some("Invalid segment index: invalid digit found in string".len())
    );
    let root = HlsService::answer(&hls, true, "/");
    assert!(matches!(root, Reply::Redirect));
    assert_eq!(root.status(), Some(303));
    let file = HlsService::answer(&hls, true, "/hls.js");
    assert!(matches!(file, Reply::Static));
    assert_eq!(file.status(), None);
    let post = HlsService::answer(&hls, false, "/index.m3u8");
    assert!(matches!(post, Reply::NotFound));
    assert_eq!(post.status(), Some(404));
}

#[test]
fn playlist_names_lead_back_to_their_segments() {
    let (hls, handles) = store_of(12);
    let playlist = hls.generate_playlist();
    let names: Vec<&str> = playlist.lines().filter(|line| line.starts_with("segment")).collect();
    assert_eq!(names.len(), 10);
    for (position, name) in names.iter().enumerate() {
        let path = format!("/{}", name);
        assert_eq!(route(true, &path), Route::Segment(position as u64 + 3));
        match HlsService::answer(&hls, true, &path) {
            Reply::Segment(_) => {}
            _ => panic!("a segment of the playlist was not found"),
        }
        assert!(Arc::ptr_eq(
            &hls.read_segment(position as u64 + 3).unwrap(),
            &handles[position + 2]
        ));
    }
}

#[test]
fn service_keeps_its_store() {
    let store = Arc::new(RwLock::new(Hls::new()));
    let service = HlsService::new(store.clone());
    assert!(Arc::ptr_eq(service.hls(), &store));
    store.write().unwrap().add_new_segment(1000, Arc::new(RwLock::new(LazyBytes::new())));
    assert_eq!(service.hls().read().unwrap().len(), 1);
    assert_eq!(PLAYLIST_CONTENT_TYPE, "application/vnd.apple.mpegurl");
    assert!(PLAYER_LOCATION.starts_with("/index.html?src=index.m3u8"));
}
