use player::config::{Channel, Config};
use player::error::Error;
use player::playlist::{MediaPlaylistDoc, SegmentEntry, Variant};
use player::resolve::resolve_uri;
use player::session::{check_segment, EngineStep, Session};

fn test_config() -> Config {
    Config {
        channels: vec![
            Channel {
                manifest_url: "http://radio.example/one/main.m3u8".to_string(),
                name: "One".to_string(),
                service_id: "svc1".to_string(),
            },
            Channel {
                manifest_url: "http://radio.example/two/main.m3u8".to_string(),
                name: "Two".to_string(),
                service_id: "svc2".to_string(),
            },
        ],
        lcd_path: "/dev/null".to_string(),
        meta_params: vec![
            ("region".to_string(), "eu".to_string()),
            ("serviceId".to_string(), "stale".to_string()),
        ],
        meta_url1: "http://meta.example/now".to_string(),
        meta_url2: "http://meta.example/next".to_string(),
        queue_length: 3,
        sock_path: "/tmp/player.sock".to_string(),
        target_bandwidth: 300000,
        user_agent: "player-test".to_string(),
    }
}

#[test]
fn get_channel_is_one_based() {
    let config = test_config();
    assert_eq!(config.get_channel(1).name, "One");
    assert_eq!(config.get_channel(2).name, "Two");
    assert_eq!(
        config.get_channel(2).manifest_url,
        "http://radio.example/two/main.m3u8"
    );
}

#[test]
fn get_meta_params_binds_service_id() {
    let config = test_config();
    let params = config.get_meta_params(2);
    assert_eq!(
        params,
        vec![
            ("region".to_string(), "eu".to_string()),
            ("serviceId".to_string(), "svc2".to_string()),
        ]
    );
}

#[test]
fn error_messages() {
    assert_eq!(Error::EmptySegment.message(), "got empty segment from server");
    assert_eq!(Error::NoVariantStream.message(), "no variant stream found");
    assert_eq!(Error::ParseError.message(), "playlist parsing error");
    assert_eq!(Error::InvalidUrl.message(), "could not resolve url");
}

#[test]
fn variant_selection_picks_nearest_bandwidth() {
    let variants = vec![
        Variant { uri: "a.m3u8".to_string(), bandwidth: 128000 },
        Variant { uri: "b.m3u8".to_string(), bandwidth: 256000 },
        Variant { uri: "c.m3u8".to_string(), bandwidth: 320000 },
        Variant { uri: "d.m3u8".to_string(), bandwidth: 500000 },
    ];
    let idx = player::playlist::select_variant(&variants, 300000).unwrap();
    assert_eq!(variants[idx].bandwidth, 320000);
}

#[test]
fn variant_selection_tie_takes_first_in_document_order() {
    let variants = vec![
        Variant { uri: "low.m3u8".to_string(), bandwidth: 128000 },
        Variant { uri: "high.m3u8".to_string(), bandwidth: 228000 },
    ];
    // Both lie 50000 from the target; the first one encountered wins.
    let idx = player::playlist::select_variant(&variants, 178000).unwrap();
    assert_eq!(idx, 0);
}

#[test]
fn variant_selection_without_variants_fails() {
    let variants: Vec<Variant> = vec![];
    assert_eq!(
        player::playlist::select_variant(&variants, 300000),
        Err(Error::NoVariantStream)
    );
}

#[test]
fn change_channel_selects_variant_from_master_playlist() {
    let master = "#EXTM3U\n\
        #EXT-X-STREAM-INF:BANDWIDTH=128000\n\
        http://radio.example/one/128k.m3u8\n\
        #EXT-X-STREAM-INF:BANDWIDTH=256000\n\
        http://radio.example/one/256k.m3u8\n\
        #EXT-X-STREAM-INF:BANDWIDTH=320000\n\
        http://radio.example/one/320k.m3u8\n\
        #EXT-X-STREAM-INF:BANDWIDTH=500000\n\
        http://radio.example/one/500k.m3u8\n";
    let mut session = Session::new();
    session
        .change_channel("http://radio.example/one/main.m3u8", master.as_bytes(), 300000)
        .unwrap();
    assert_eq!(session.media_url, "http://radio.example/one/320k.m3u8");
    assert_eq!(session.seq, 0);
    assert!(!session.end_list);
    assert_eq!(session.segments.len(), 0);
}

#[test]
fn change_channel_resolves_relative_variant_uri() {
    let master = "#EXTM3U\n\
        #EXT-X-STREAM-INF:BANDWIDTH=192000\n\
        streams/192k.m3u8\n";
    let mut session = Session::new();
    session
        .change_channel("http://radio.example/one/main.m3u8", master.as_bytes(), 300000)
        .unwrap();
    assert_eq!(session.media_url, "http://radio.example/one/streams/192k.m3u8");
}

#[test]
fn change_channel_on_media_playlist_keeps_manifest_url() {
    let media = "#EXTM3U\n\
        #EXT-X-TARGETDURATION:6\n\
        #EXT-X-MEDIA-SEQUENCE:0\n\
        #EXTINF:6.0,\n\
        seg0.ts\n";
    let mut session = Session::new();
    session
        .change_channel("http://radio.example/one/main.m3u8", media.as_bytes(), 300000)
        .unwrap();
    assert_eq!(session.media_url, "http://radio.example/one/main.m3u8");
    // The walk has not run yet: a channel change only resets the session.
    assert_eq!(session.segments.len(), 0);
}

#[test]
fn change_channel_without_variants_fails() {
    // A master document (it carries a master tag) with zero variant streams.
    let master = "#EXTM3U\n\
        #EXT-X-MEDIA:TYPE=AUDIO,GROUP-ID=\"aud\",NAME=\"main\"\n";
    let mut session = Session::new();
    let r = session.change_channel("http://radio.example/one/main.m3u8", master.as_bytes(), 300000);
    assert_eq!(r, Err(Error::NoVariantStream));
}

#[test]
fn change_channel_rejects_garbage() {
    let mut session = Session::new();
    let r = session.change_channel("http://radio.example/one/main.m3u8", b"not a playlist", 300000);
    assert_eq!(r, Err(Error::ParseError));
    assert_eq!(session.media_url, "");
    assert_eq!(session.seq, 0);
}

fn fresh_session(media_url: &str) -> Session {
    let mut session = Session::new();
    let media = "#EXTM3U\n#EXT-X-TARGETDURATION:6\n#EXT-X-MEDIA-SEQUENCE:0\n";
    session.change_channel(media_url, media.as_bytes(), 300000).unwrap();
    session
}

#[test]
fn refresh_enqueues_resolved_segments_in_order() {
    let mut session = fresh_session("http://radio.example/one/160k.m3u8");
    let media = "#EXTM3U\n\
        #EXT-X-TARGETDURATION:6\n\
        #EXT-X-MEDIA-SEQUENCE:0\n\
        #EXTINF:6.0,\n\
        seg0.ts\n\
        #EXTINF:6.0,\n\
        seg1.ts\n\
        #EXTINF:6.0,\n\
        http://cdn.example/one/seg2.ts\n";
    session.refresh_from_text(media.as_bytes()).unwrap();
    assert_eq!(session.seq, 3);
    assert!(!session.end_list);
    assert_eq!(session.next_step(), EngineStep::Fetch);
    assert_eq!(
        session.pop_segment().unwrap(),
        "http://radio.example/one/seg0.ts"
    );
    assert_eq!(
        session.pop_segment().unwrap(),
        "http://radio.example/one/seg1.ts"
    );
    assert_eq!(session.pop_segment().unwrap(), "http://cdn.example/one/seg2.ts");
    assert_eq!(session.pop_segment(), None);
    assert_eq!(session.next_step(), EngineStep::Refresh);
}

#[test]
fn refresh_skips_sequence_numbers_already_processed() {
    let mut session = fresh_session("http://radio.example/one/160k.m3u8");
    session.seq = 7;
    let media = "#EXTM3U\n\
        #EXT-X-TARGETDURATION:6\n\
        #EXT-X-MEDIA-SEQUENCE:5\n\
        #EXTINF:6.0,\n\
        seg5.ts\n\
        #EXTINF:6.0,\n\
        seg6.ts\n\
        #EXTINF:6.0,\n\
        seg7.ts\n\
        #EXTINF:6.0,\n\
        seg8.ts\n";
    session.refresh_from_text(media.as_bytes()).unwrap();
    // Entries numbered 5 and 6 were already processed; 7 and 8 are fresh.
    assert_eq!(session.segments.len(), 2);
    assert_eq!(
        session.pop_segment().unwrap(),
        "http://radio.example/one/seg7.ts"
    );
    assert_eq!(
        session.pop_segment().unwrap(),
        "http://radio.example/one/seg8.ts"
    );
    assert_eq!(session.seq, 9);
}

#[test]
fn refresh_with_nothing_new_still_advances_counter() {
    let mut session = fresh_session("http://radio.example/one/160k.m3u8");
    session.seq = 10;
    let media = "#EXTM3U\n\
        #EXT-X-TARGETDURATION:6\n\
        #EXT-X-MEDIA-SEQUENCE:5\n\
        #EXTINF:6.0,\n\
        seg5.ts\n\
        #EXTINF:6.0,\n\
        seg6.ts\n";
    session.refresh_from_text(media.as_bytes()).unwrap();
    assert_eq!(session.segments.len(), 0);
    // One past the highest number observed (6), even with everything filtered.
    assert_eq!(session.seq, 7);
}

#[test]
fn discontinuity_truncates_walk_and_ends_stream() {
    let mut session = fresh_session("http://radio.example/one/160k.m3u8");
    let media = "#EXTM3U\n\
        #EXT-X-TARGETDURATION:6\n\
        #EXT-X-MEDIA-SEQUENCE:0\n\
        #EXTINF:6.0,\n\
        seg0.ts\n\
        #EXTINF:6.0,\n\
        seg1.ts\n\
        #EXT-X-DISCONTINUITY\n\
        #EXTINF:6.0,\n\
        seg2.ts\n\
        #EXTINF:6.0,\n\
        seg3.ts\n";
    session.refresh_from_text(media.as_bytes()).unwrap();
    // The third entry carries the marker: exactly the first two are pending.
    assert!(session.end_list);
    assert_eq!(session.segments.len(), 2);
    assert_eq!(
        session.pop_segment().unwrap(),
        "http://radio.example/one/seg0.ts"
    );
    assert_eq!(
        session.pop_segment().unwrap(),
        "http://radio.example/one/seg1.ts"
    );
    assert_eq!(session.next_step(), EngineStep::Finished);
    // The counter stays where it was: a discontinuity forces a channel change.
    assert_eq!(session.seq, 0);
}

#[test]
fn end_list_tag_finishes_stream_after_drain() {
    let mut session = fresh_session("http://radio.example/one/160k.m3u8");
    let media = "#EXTM3U\n\
        #EXT-X-TARGETDURATION:6\n\
        #EXT-X-MEDIA-SEQUENCE:0\n\
        #EXTINF:6.0,\n\
        seg0.ts\n\
        #EXT-X-ENDLIST\n";
    session.refresh_from_text(media.as_bytes()).unwrap();
    assert!(session.end_list);
    assert_eq!(session.next_step(), EngineStep::Fetch);
    session.pop_segment().unwrap();
    assert_eq!(session.next_step(), EngineStep::Finished);
}

#[test]
fn refresh_rejects_garbage() {
    let mut session = fresh_session("http://radio.example/one/160k.m3u8");
    let r = session.refresh_from_text(b"\x00\x01 not m3u8");
    assert_eq!(r, Err(Error::ParseError));
    assert_eq!(session.seq, 0);
    assert_eq!(session.segments.len(), 0);
}

#[test]
fn refresh_reports_unresolvable_segment_location() {
    let mut session = Session::new();
    session.media_url = "not a base".to_string();
    let media = "#EXTM3U\n\
        #EXT-X-TARGETDURATION:6\n\
        #EXT-X-MEDIA-SEQUENCE:0\n\
        #EXTINF:6.0,\n\
        seg0.ts\n";
    let r = session.refresh_from_text(media.as_bytes());
    assert_eq!(r, Err(Error::InvalidUrl));
    // The failing entry stopped the walk before anything was appended and
    // before the counter moved.
    assert_eq!(session.segments.len(), 0);
    assert_eq!(session.seq, 0);
    assert!(!session.end_list);
}

#[test]
fn resolve_uri_passes_absolute_through() {
    let r = resolve_uri("http://radio.example/one/main.m3u8", "http://cdn.example/x.ts");
    assert_eq!(r.unwrap(), "http://cdn.example/x.ts");
}

#[test]
fn resolve_uri_joins_relative_against_base() {
    let r = resolve_uri("http://radio.example/one/main.m3u8", "media/x.ts");
    assert_eq!(r.unwrap(), "http://radio.example/one/media/x.ts");
    let r = resolve_uri("http://radio.example/one/main.m3u8", "/root.ts");
    assert_eq!(r.unwrap(), "http://radio.example/root.ts");
}

#[test]
fn resolve_uri_normalizes_absolute_spelling() {
    // Scheme and host come back lowercased: the resolution really parses.
    let r = resolve_uri("http://radio.example/one/main.m3u8", "HTTP://CDN.Example/Seg.TS");
    assert_eq!(r.unwrap(), "http://cdn.example/Seg.TS");
}

#[test]
fn resolve_uri_collapses_parent_references() {
    let r = resolve_uri("http://radio.example/a/b/main.m3u8", "../x.ts");
    assert_eq!(r.unwrap(), "http://radio.example/a/x.ts");
}

#[test]
fn resolve_uri_rejects_unresolvable() {
    let r = resolve_uri("not a base", "media/x.ts");
    assert_eq!(r, Err(Error::InvalidUrl));
}

#[test]
fn check_segment_rejects_empty_body() {
    assert_eq!(check_segment(vec![]), Err(Error::EmptySegment));
    assert_eq!(check_segment(vec![1, 2, 3]), Ok(vec![1, 2, 3]));
}

#[test]
fn apply_playlist_walks_a_constructed_document() {
    let mut session = fresh_session("http://radio.example/one/160k.m3u8");
    let doc = MediaPlaylistDoc {
        media_sequence: 2,
        segments: vec![
            SegmentEntry { uri: "a.ts".to_string(), discontinuity: false },
            SegmentEntry { uri: "b.ts".to_string(), discontinuity: false },
        ],
        end_list: true,
    };
    session.apply_playlist(&doc).unwrap();
    assert_eq!(session.seq, 4);
    assert!(session.end_list);
    assert_eq!(
        session.pop_segment().unwrap(),
        "http://radio.example/one/a.ts"
    );
    assert_eq!(
        session.pop_segment().unwrap(),
        "http://radio.example/one/b.ts"
    );
}
