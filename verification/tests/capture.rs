use xyzen_relay::capturer::publisher_url;
use xyzen_relay::mac_capturer;
use xyzen_relay::win_capturer::display::{list_displays, MonitorReading};
use xyzen_relay::win_capturer::encoder::{
    avcc_to_annexb, bgra_to_nv12, judge_search, lookup_stream_ids, output_sample_size,
    plan, sample_to_annexb, DrainStep, Error, H264Encoder, SearchStep,
    StreamIds, Subtype, TransformOutput,
};
use xyzen_relay::win_capturer::publisher::{
    active_display_id, bitrate_kbps, fps, next_session, on_frame_arrived, on_nal_sent, resolution,
    select_display, set_bitrate_kbps, set_fps, set_resolution, start, stop, thread_ended,
    FrameStep, MonitorChoice, State,
};

#[test]
fn avcc_two_nals_roundtrip() {
    let avcc: Vec<u8> = [
        0u8, 0, 0, 3, 0xaa, 0xbb, 0xcc, 0, 0, 0, 3, 0xdd, 0xee, 0xff,
    ]
    .to_vec();
    let nals = avcc_to_annexb(&avcc);
    assert_eq!(nals.len(), 2);
    assert_eq!(nals[0], vec![0, 0, 0, 1, 0xaa, 0xbb, 0xcc]);
    assert_eq!(nals[1], vec![0, 0, 0, 1, 0xdd, 0xee, 0xff]);
}

#[test]
fn avcc_truncated_input_drops_tail() {
    let avcc: Vec<u8> = vec![0, 0, 0, 5, 0xaa, 0xbb];
    let nals = avcc_to_annexb(&avcc);
    assert!(nals.is_empty());
}

#[test]
fn bgra_pure_white_yields_max_y() {
    let src = vec![0xffu8; 2 * 2 * 4];
    let mut dst = vec![0u8; 2 * 2 + 2];
    bgra_to_nv12(&src, 2, 2, &mut dst);
    for y in &dst[..4] {
        assert!(*y >= 230 && *y <= 240, "got {y}");
    }
    assert!((dst[4] as i32 - 128).abs() <= 2);
    assert!((dst[5] as i32 - 128).abs() <= 2);
}

#[test]
fn bgra_pure_black_yields_min_y() {
    let src = vec![0u8; 2 * 2 * 4];
    let mut dst = vec![0u8; 2 * 2 + 2];
    bgra_to_nv12(&src, 2, 2, &mut dst);
    for y in &dst[..4] {
        assert!(*y <= 18, "got {y}");
    }
}

#[test]
fn avcc_edges() {
    assert!(avcc_to_annexb(&[]).is_empty());
    assert!(avcc_to_annexb(&[0, 0, 0]).is_empty());
    assert_eq!(avcc_to_annexb(&[0, 0, 0, 0]), vec![vec![0, 0, 0, 1]]);
    let one = avcc_to_annexb(&[0, 0, 0, 1, 9, 0, 0, 1, 0, 7]);
    assert_eq!(one, vec![vec![0, 0, 0, 1, 9]]);
    assert!(avcc_to_annexb(&[0xff, 0xff, 0xff, 0xff, 1]).is_empty());
    let mut long = vec![0, 0, 1, 2];
    long.extend(vec![5u8; 258]);
    assert_eq!(avcc_to_annexb(&long)[0].len(), 262);
}

#[test]
fn nv12_exact_values() {
    // Blue, green, red and white pixels, in BGRA.
    let src = vec![
        255, 0, 0, 255, 0, 255, 0, 255, //
        0, 0, 255, 255, 255, 255, 255, 255,
    ];
    let mut dst = vec![9u8; 8];
    bgra_to_nv12(&src, 2, 2, &mut dst);
    assert_eq!(dst, vec![41, 144, 82, 235, 128, 128, 9, 9]);
}

#[test]
fn nv12_primary_colours() {
    let cases: Vec<([u8; 4], u8, u8, u8)> = vec![
        ([255, 0, 0, 255], 41, 240, 110),
        ([0, 255, 0, 255], 144, 54, 34),
        ([0, 0, 255, 255], 82, 90, 240),
        ([255, 255, 255, 0], 235, 128, 128),
        ([0, 0, 0, 0], 16, 128, 128),
    ];
    for (pixel, y, u, v) in cases {
        let src: Vec<u8> = pixel.iter().cycle().take(4 * 8).cloned().collect();
        let mut dst = vec![0u8; 12];
        bgra_to_nv12(&src, 4, 2, &mut dst);
        assert_eq!(&dst[..8], &[y; 8][..]);
        assert_eq!(&dst[8..], &[u, v, u, v][..]);
    }
}

#[test]
fn nv12_odd_sizes_read_past_the_edge() {
    // One pixel, which the block fills up with its three neighbours.
    let src = vec![0u8; 4 * 3];
    let mut dst = vec![7u8; 4];
    bgra_to_nv12(&src, 1, 1, &mut dst);
    assert_eq!(dst, vec![16, 128, 128, 7]);
    let mut none = vec![7u8; 1];
    bgra_to_nv12(&[], 0, 5, &mut none);
    assert_eq!(none, vec![7]);
}

#[test]
fn grey_has_neutral_chroma_and_limited_range() {
    for grey in [0u8, 1, 77, 128, 200, 255] {
        let src = vec![grey; 4 * 4 * 4];
        let mut dst = vec![0u8; 24];
        bgra_to_nv12(&src, 4, 4, &mut dst);
        assert!(dst[..16].iter().all(|y| *y >= 16 && *y <= 235));
        assert!(dst[16..].iter().all(|c| *c == 128));
    }
}

#[test]
fn encoder_plan_rounds_up() {
    let p = plan(1919, 1080, 30, 8_000_000);
    assert_eq!((p.width, p.height, p.fps), (1920, 1080, 30));
    assert_eq!(p.output.subtype, Subtype::H264);
    assert_eq!(p.output.avg_bitrate, Some(8_000_000));
    assert_eq!(p.output.frame_size, (1920u64 << 32) | 1080);
    assert_eq!(p.output.frame_rate, (30u64 << 32) | 1);
    assert_eq!(p.output.pixel_aspect_ratio, (1u64 << 32) | 1);
    assert!(p.output.high_profile);
    assert_eq!(p.input.subtype, Subtype::Nv12);
    assert_eq!(p.input.avg_bitrate, None);
    assert_eq!(p.input.frame_size, p.output.frame_size);
    assert!(!p.input.high_profile);
}

#[test]
fn encoder_session() {
    let mut e = H264Encoder::new();
    assert_eq!(e.submit_frame(&[]).unwrap_err(), Error::NotConfigured);
    assert_eq!(e.begin_drain().unwrap_err(), Error::NotConfigured);

    let p = plan(2, 2, 30, 1000);
    let failed = e.configure(&p, Err(Error::NoEncoderFound), 1);
    assert_eq!(failed.unwrap_err(), Error::NoEncoderFound);
    assert_eq!(e.submit_frame(&[]).unwrap_err(), Error::NotConfigured);

    e.configure(&p, Ok((3, 4)), 1).unwrap();
    assert_eq!(e.stream_ids(), (3, 4));
    assert_eq!(
        e.submit_frame(&[0; 15]).unwrap_err(),
        Error::InputBufferSize { got: 15, expected: 16 }
    );
    let f = e.submit_frame(&[0; 16]).unwrap();
    assert_eq!(f.data, vec![16, 16, 16, 16, 128, 128]);
    assert_eq!((f.sample_time, f.sample_duration), (0, 333_333));
    e.frame_stamped();
    e.frame_stamped();
    let f = e.submit_frame(&[255; 20]).unwrap();
    assert_eq!(f.data, vec![235, 235, 235, 235, 128, 128]);
    assert_eq!(f.sample_time, 666_666);
    assert!(e.begin_drain().unwrap().is_empty());

    e.configure(&plan(2, 2, 0, 1), Ok((0, 0)), 1).unwrap();
    let f = e.submit_frame(&[0; 16]).unwrap();
    assert_eq!((f.sample_time, f.sample_duration), (0, 10_000_000));
}

#[test]
fn encoder_search_and_streams() {
    assert_eq!(judge_search(0, true, true), SearchStep::SearchSoftware);
    assert_eq!(judge_search(0, true, false), SearchStep::NotFound);
    assert_eq!(judge_search(2, false, true), SearchStep::NotFound);
    assert_eq!(judge_search(2, true, false), SearchStep::TakeFirst);
    assert_eq!(lookup_stream_ids(StreamIds::Reported { input: 1, output: 2 }), Ok((1, 2)));
    assert_eq!(lookup_stream_ids(StreamIds::NotImplemented), Ok((0, 0)));
    assert_eq!(
        lookup_stream_ids(StreamIds::Failed { hresult: -5 }),
        Err(Error::Mf { hresult: -5 })
    );
    assert_eq!(output_sample_size(0x100, 0x100, 0x200, 9), None);
    assert_eq!(output_sample_size(0x201, 0x100, 0x200, 9), None);
    assert_eq!(output_sample_size(1, 0x100, 0x200, 9), Some(9));
    assert_eq!(output_sample_size(0, 0x100, 0x200, 0), Some(1));
}

fn configured(clock_ns: i128) -> H264Encoder {
    let mut e = H264Encoder::new();
    e.configure(&plan(2, 2, 30, 1000), Ok((0, 0)), clock_ns).unwrap();
    e
}

fn more(step: DrainStep) -> Vec<xyzen_relay::capture::Nal> {
    match step {
        DrainStep::More(n) => n,
        other => panic!("{other:?}"),
    }
}

#[test]
fn drain_collects_until_input_is_needed() {
    let e = configured(1_000);
    let nals = e.begin_drain().unwrap();
    let one = vec![0, 0, 0, 1, 7];
    let nals = more(e.drain(nals, TransformOutput::Produced(Some(one)), 41_000));
    let nals = more(e.drain(nals, TransformOutput::Produced(None), 51_000));
    let two = vec![0, 0, 0, 1, 8, 0, 0, 0, 1, 9];
    let nals = more(e.drain(nals, TransformOutput::Produced(Some(two)), 61_999));
    match e.drain(nals, TransformOutput::NeedMoreInput, 71_000) {
        DrainStep::Done(n) => {
            let got: Vec<(u8, i64)> = n.iter().map(|n| (n.data[4], n.pts_us)).collect();
            assert_eq!(got, vec![(7, 40), (8, 60), (9, 60)]);
        }
        other => panic!("{other:?}"),
    }
    assert!(matches!(
        e.drain(Vec::new(), TransformOutput::Failed { hresult: -7 }, 0),
        DrainStep::Failed(Error::Mf { hresult: -7 })
    ));
    assert!(matches!(
        H264Encoder::new().drain(Vec::new(), TransformOutput::NeedMoreInput, 0),
        DrainStep::Failed(Error::NotConfigured)
    ));
    let one = sample_to_annexb(&[0, 0, 0, 1, 3], -1);
    assert_eq!((one[0].data.clone(), one[0].pts_us), (vec![0, 0, 0, 1, 3], -1));
    let copy = one[0].clone();
    assert_eq!((copy.data, copy.pts_us), (vec![0, 0, 0, 1, 3], -1));
}

#[test]
fn clock_readings() {
    let e = configured(1_000_000);
    assert_eq!(e.now_us(1_000_000), 0);
    assert_eq!(e.now_us(1_012_999), 12);
    assert_eq!(e.now_us(999_999), 0);
    let last = 1_000_000 + i64::MAX as i128 * 1000;
    assert_eq!(e.now_us(last + 999), i64::MAX);
    assert_eq!(e.now_us(last + 1000), 0);
    assert_eq!(configured(i128::MIN).now_us(i128::MAX), 0);
    assert_eq!(H264Encoder::new().now_us(5_000), 5);
}

#[test]
fn settings_need_a_running_capturer() {
    let mut s = State::default();
    for r in [
        select_display(&mut s, 1),
        set_bitrate_kbps(&mut s, 1),
        set_fps(&mut s, 1),
        set_resolution(&mut s, 1, 1),
    ] {
        assert_eq!(r, Err("capturer not started"));
    }
    assert_eq!(s, State::default());
    assert_eq!((active_display_id(&s), bitrate_kbps(&s), fps(&s)), (0, 0, 0));
    assert_eq!(resolution(&s), (0, 0));
}

#[test]
fn settings_of_a_session() {
    let mut s = State::default();
    stop(&mut s);
    start(&mut s, 1920, 1080, 30, 4000, 2).unwrap();
    assert!(!s.shutdown);
    let before = s;
    assert_eq!(start(&mut s, 1, 1, 1, 1, 1), Err("publisher already running"));
    assert_eq!(s, before);
    assert_eq!((active_display_id(&s), bitrate_kbps(&s), fps(&s)), (2, 4000, 30));
    assert_eq!(resolution(&s), (1920, 1080));

    let first = next_session(&mut s).unwrap();
    assert_eq!(first.monitor(), MonitorChoice::IndexOrPrimary(2));
    assert_eq!(first.bitrate_bps(), 4_000_000);
    assert_eq!(on_frame_arrived(&mut s, &first, 1920, 1080), FrameStep::Encode);

    select_display(&mut s, 2).unwrap();
    assert!(!s.needs_rebuild);
    select_display(&mut s, 0).unwrap();
    assert!(s.needs_rebuild);
    set_bitrate_kbps(&mut s, u32::MAX).unwrap();
    set_fps(&mut s, 60).unwrap();
    set_resolution(&mut s, 640, 480).unwrap();
    assert_eq!((active_display_id(&s), bitrate_kbps(&s), fps(&s)), (0, u32::MAX, 60));
    assert_eq!(resolution(&s), (640, 480));
    assert_eq!(on_frame_arrived(&mut s, &first, 1920, 1080), FrameStep::Stop);

    let second = next_session(&mut s).unwrap();
    assert!(!s.needs_rebuild);
    assert_eq!(second.monitor(), MonitorChoice::Primary);
    assert_eq!(second.bitrate_bps(), u32::MAX);
    assert_eq!((second.width, second.height, second.fps), (640, 480, 60));
    assert_eq!(on_frame_arrived(&mut s, &second, 640, 481), FrameStep::Stop);
    assert!(s.needs_rebuild);
    assert_eq!(next_session(&mut s).unwrap(), second);

    assert_eq!(on_nal_sent(&mut s, true), FrameStep::Encode);
    assert_eq!(on_nal_sent(&mut s, false), FrameStep::Stop);
    assert_eq!(on_frame_arrived(&mut s, &second, 640, 480), FrameStep::Stop);
    assert!(next_session(&mut s).is_none());
    thread_ended(&mut s);
    assert!(!s.running && !s.capturing && !s.shutdown);
    start(&mut s, 1, 1, 1, 1, 1).unwrap();
    stop(&mut s);
    let before = s;
    assert_eq!(start(&mut s, 2, 2, 2, 2, 2), Err("publisher already running"));
    assert_eq!(s, before);
    set_fps(&mut s, 9).unwrap();
    assert_eq!(fps(&s), 0);
    assert_eq!((active_display_id(&s), bitrate_kbps(&s), fps(&s)), (0, 0, 0));
    assert_eq!(resolution(&s), (0, 0));
    assert!(next_session(&mut s).is_none());
    thread_ended(&mut s);
    assert_eq!(set_fps(&mut s, 9), Err("capturer not started"));
    start(&mut s, 2, 2, 2, 2, 2).unwrap();
    assert_eq!(fps(&s), 2);
}

#[test]
fn displays_are_numbered_from_one() {
    let reading = |w: Option<u32>, h: Option<u32>, name: Option<&str>| MonitorReading {
        width: w,
        height: h,
        device_name: name.map(|n| n.to_string()),
    };
    let monitors = vec![
        reading(Some(1920), Some(1080), Some("A")),
        reading(None, Some(1080), Some("B")),
        reading(Some(2560), Some(1440), Some("B")),
        reading(Some(800), Some(600), None),
    ];
    let d = list_displays(Some(monitors), Some("B".to_string()));
    let got: Vec<(u32, i64, i64, bool)> =
        d.iter().map(|d| (d.id, d.width, d.height, d.is_primary)).collect();
    assert_eq!(
        got,
        vec![(1, 1920, 1080, false), (3, 2560, 1440, true), (4, 800, 600, false)]
    );
    assert!(list_displays(None, Some("B".to_string())).is_empty());
    let d = list_displays(Some(vec![reading(Some(1), Some(2), None)]), None);
    assert!(!d[0].is_primary);
}

#[test]
fn native_capturer_reports() {
    assert_eq!(mac_capturer::start(0), Ok(()));
    assert_eq!(mac_capturer::start(-1), Err("xz_capturer_start failed"));
    assert_eq!(mac_capturer::select_display(0), Ok(()));
    assert_eq!(mac_capturer::select_display(1), Err("capturer not started"));
    assert_eq!(mac_capturer::select_display(2), Err("select_display failed"));
    assert_eq!(mac_capturer::set_bitrate_kbps(1), Err("capturer not started"));
    assert_eq!(mac_capturer::set_bitrate_kbps(-3), Err("set_bitrate failed"));
    assert_eq!(mac_capturer::set_fps(9), Err("set_fps failed"));
    assert_eq!(mac_capturer::set_resolution(9), Err("set_resolution failed"));
    assert_eq!(mac_capturer::bitrate_kbps(-1), 0);
    assert_eq!(mac_capturer::bitrate_kbps(4000), 4000);
    assert_eq!(mac_capturer::fps(i32::MIN), 0);
    assert_eq!(mac_capturer::fps(30), 30);
    assert_eq!(mac_capturer::resolution(0), (0, 0));
    assert_eq!(mac_capturer::resolution(-5), (0, 0));
    assert_eq!(mac_capturer::resolution((1920 << 16) | 1080), (1920, 1080));
    assert_eq!(mac_capturer::list_displays(b"[]__", 2), Some(&b"[]"[..]));
    assert_eq!(mac_capturer::list_displays(b"[]__", -1), None);
    assert_eq!(mac_capturer::on_nal(true, true, 5), Some(5));
    assert_eq!(mac_capturer::on_nal(false, true, 5), None);
    assert_eq!(mac_capturer::on_nal(true, false, 5), None);
    assert_eq!(mac_capturer::on_nal(true, true, 0), None);
}

#[test]
fn publisher_url_has_one_slash() {
    assert_eq!(publisher_url("ws://h:1/ws/stream", "42"), "ws://h:1/ws/stream/42");
    assert_eq!(publisher_url("ws://h:1/ws/stream///", "42"), "ws://h:1/ws/stream/42");
    assert_eq!(publisher_url("//", "a/b"), "/a/b");
    assert_eq!(publisher_url("", "x"), "/x");
    assert_eq!(publisher_url("ü/", "é"), "ü/é");
}
