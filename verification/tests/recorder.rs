use cowatcher::recorder::{padding, AviLayout, RecorderError, RecordingSettings, HEADER_BYTES, INDEX_EVERY};

#[test]
fn settings_clamp_an_absurd_request_into_something_deliverable() {
    let asked = RecordingSettings { max_width: 99_999, max_height: 99_999, fps: 144 };
    let got = asked.clamped();
    assert_eq!(got.max_width, RecordingSettings::MAX_WIDTH);
    assert_eq!(got.max_height, RecordingSettings::MAX_HEIGHT);
    assert_eq!(got.fps, RecordingSettings::MAX_FPS, "144 Hz clamps to 30 fps");
}

#[test]
fn settings_clamp_upwards_too() {
    let got = RecordingSettings { max_width: 1, max_height: 1, fps: 0 }.clamped();
    assert_eq!(got.max_width, RecordingSettings::MIN_WIDTH);
    assert_eq!(got.fps, RecordingSettings::MIN_FPS);
}

#[test]
fn the_frame_interval_matches_the_frame_rate() {
    let thirty = RecordingSettings { fps: 30, ..RecordingSettings::default() };
    assert_eq!(thirty.frame_interval().as_micros(), 33_333);
    let one = RecordingSettings { fps: 1, ..RecordingSettings::default() };
    assert_eq!(one.frame_interval().as_secs(), 1);
}

fn fake_jpeg(size: usize) -> Vec<u8> {
    let mut data = vec![0xFF, 0xD8];
    data.resize(size - 2, 0x42);
    data.extend_from_slice(&[0xFF, 0xD9]);
    data
}

/// Lays out a whole file in memory the way the recorder writes it to disk.
fn assemble(layout: &mut AviLayout, frames: &[Vec<u8>]) -> Vec<u8> {
    let mut body = Vec::new();
    for f in frames {
        assert!(layout.fits(f.len()));
        body.extend(layout.push_frame(f.len()));
        body.extend_from_slice(f);
        body.extend(padding(f.len()));
    }
    let mut file = layout.header();
    file.extend(body);
    file.extend(layout.index());
    file
}

fn le32(bytes: &[u8]) -> u32 {
    u32::from_le_bytes(bytes.try_into().unwrap())
}

#[test]
fn a_zero_sized_layout_is_refused() {
    assert!(matches!(AviLayout::new(0, 720, 10), Err(RecorderError::BadSettings(_))));
    assert!(matches!(AviLayout::new(640, 0, 10), Err(RecorderError::BadSettings(_))));
}

#[test]
fn a_file_starts_with_a_riff_avi_signature_and_counts_its_frames() {
    let mut layout = AviLayout::new(640, 360, 10).unwrap();
    let frames: Vec<Vec<u8>> = (0..3).map(|_| fake_jpeg(100)).collect();
    let bytes = assemble(&mut layout, &frames);
    assert_eq!(&bytes[0..4], b"RIFF");
    assert_eq!(&bytes[8..12], b"AVI ");
    assert_eq!(&bytes[HEADER_BYTES as usize - 4..HEADER_BYTES as usize], b"movi");
    assert_eq!(le32(&bytes[48..52]), 3);
    assert!(bytes.windows(4).any(|w| w == b"idx1"));
}

#[test]
fn the_declared_riff_size_matches_the_assembled_length() {
    let mut layout = AviLayout::new(320, 240, 5).unwrap();
    let frames: Vec<Vec<u8>> = (0..7).map(|n| fake_jpeg(50 + n * 10)).collect();
    let bytes = assemble(&mut layout, &frames);
    assert_eq!(le32(&bytes[4..8]) as usize + 8, bytes.len());
}

#[test]
fn an_odd_frame_is_padded_so_the_next_chunk_stays_aligned() {
    let mut layout = AviLayout::new(320, 240, 5).unwrap();
    let bytes = assemble(&mut layout, &[fake_jpeg(101), fake_jpeg(51)]);
    let second = HEADER_BYTES as usize + 8 + 101 + 1;
    assert_eq!(&bytes[second..second + 4], b"00dc");
}

#[test]
fn the_header_is_always_the_same_length() {
    let layout = AviLayout::new(1920, 1080, 30).unwrap();
    assert_eq!(layout.header().len(), HEADER_BYTES as usize);
    assert_eq!(layout.movi_end(), HEADER_BYTES as u64);
}

#[test]
fn the_index_points_at_each_chunk() {
    let mut layout = AviLayout::new(320, 240, 5).unwrap();
    let bytes = assemble(&mut layout, &[fake_jpeg(11), fake_jpeg(20)]);
    let index = layout.index();
    assert_eq!(index.len(), 8 + 2 * 16);
    assert_eq!(&index[0..4], b"idx1");
    assert_eq!(le32(&index[4..8]), 32);
    assert_eq!(le32(&index[12..16]), 0x10);
    assert_eq!(le32(&index[16..20]), 4);
    assert_eq!(le32(&index[20..24]), 11);
    assert_eq!(le32(&index[32..36]), 4 + 8 + 12);
    let movi_start = HEADER_BYTES as usize - 4;
    assert_eq!(&bytes[movi_start + 4 + 8 + 12..movi_start + 4 + 8 + 12 + 4], b"00dc");
}

#[test]
fn the_index_is_due_every_thirty_frames() {
    let mut layout = AviLayout::new(320, 240, 10).unwrap();
    for n in 1..=INDEX_EVERY {
        layout.push_frame(60);
        assert_eq!(layout.index_due(), n == INDEX_EVERY);
    }
    assert_eq!(layout.frame_count(), INDEX_EVERY);
}

#[test]
fn a_measured_rate_replaces_the_asked_one_once_there_are_two_frames() {
    let mut layout = AviLayout::new(320, 240, 30).unwrap();
    layout.push_frame(60);
    layout.set_measured_fps(12);
    assert_eq!(layout.fps(), 30, "one frame has no rate");
    layout.push_frame(60);
    layout.set_measured_fps(12);
    assert_eq!(layout.fps(), 12);
    layout.set_measured_fps(500);
    assert_eq!(layout.fps(), 30);
    layout.set_measured_fps(0);
    assert_eq!(layout.fps(), 1);
}

#[test]
fn a_zero_rate_is_taken_as_one() {
    let layout = AviLayout::new(320, 240, 0).unwrap();
    assert_eq!(layout.fps(), 1);
}

#[test]
fn the_error_messages_read_as_before() {
    assert_eq!(RecorderError::Io("disk full".to_string()).message(), "recording file: disk full");
    assert_eq!(RecorderError::BadSettings("no".to_string()).message(), "no");
}
