use slide_voice::video::{concat_args, create_args, create_output_files, seconds_string};
use slide_voice::video_option::Op;
use slide_voice::voice::{Data, VoiceTable};

fn default_filter(font: &str, word: &str) -> String {
    format!(
        "[0]scale=w='min(1920,iw)':h='min(1080,ih)':\n        force_original_aspect_ratio=decrease,pad=1920:1080:(1920-iw)/\n        2:(1080-ih)/\n        2:white[bg];[bg]drawtext=fontfile='{font}':fontsize=36:fontcolor=white@0.9:borderw=10:bordercolor=0xBBDEFB:text='{word}':x=(W-text_w)/2:y=(H-text_h-50):wrap_unicode[out2]"
    )
}

#[test]
fn default_styling() {
    let op = Op::with_font("f.ttf".to_string());
    assert_eq!(op.w, Some(1920));
    assert_eq!(op.h, Some(1080));
    assert_eq!(op.background_color.as_deref(), Some("white"));
    assert_eq!(op.font.as_deref(), Some("f.ttf"));
    assert_eq!(op.font_size.as_deref(), Some("36"));
    assert_eq!(op.font_color.as_deref(), Some("white"));
    assert_eq!(op.border_color.as_deref(), Some("0xBBDEFB"));
    assert_eq!(op.word.as_deref(), Some(""));
}

#[test]
fn filter_complex_of_defaults() {
    let mut op = Op::with_font("/r/NotoSansJP-Bold.ttf".to_string());
    assert_eq!(op.create_filter_complex(), default_filter("/r/NotoSansJP-Bold.ttf", ""));
    op.set_word("こんにちは");
    assert_eq!(op.word.as_deref(), Some("こんにちは"));
    assert_eq!(op.create_filter_complex(), default_filter("/r/NotoSansJP-Bold.ttf", "こんにちは"));
}

#[test]
fn filter_complex_with_unset_fields() {
    let op = Op {
        w: None,
        h: Some(-5),
        background_color: None,
        font: None,
        font_size: None,
        font_color: None,
        border_color: None,
        word: None,
    };
    let f = op.create_filter_complex();
    assert!(f.starts_with("[0]scale=w='min(0,iw)':h='min(-5,ih)':"));
    assert!(f.contains("pad=0:-5:(0-iw)/"));
    assert!(f.contains("2:[bg];[bg]drawtext=fontfile='':fontsize=:fontcolor=@0.9:"));
    assert!(f.ends_with("text='':x=(W-text_w)/2:y=(H-text_h-50):wrap_unicode[out2]"));
}

#[test]
fn seconds_formatting() {
    assert_eq!(seconds_string(10000), "10");
    assert_eq!(seconds_string(1500), "1.5");
    assert_eq!(seconds_string(1234), "1.234");
    assert_eq!(seconds_string(1230), "1.23");
    assert_eq!(seconds_string(25), "0.025");
    assert_eq!(seconds_string(100), "0.1");
    assert_eq!(seconds_string(0), "0");
    assert_eq!(seconds_string(-500), "-0.5");
    assert_eq!(seconds_string(i64::MIN), "-9223372036854775.808");
    for ms in [1i64, 7, 99, 1001, 59999, 123456789] {
        assert_eq!(seconds_string(ms), format!("{}", ms as f64 / 1000.0));
    }
}

#[test]
fn clip_arguments() {
    let voice = Data { voice_id: Some(14), filepath: "test.wav".to_string(), duration_ms: 10000 };
    let op = Op {
        w: Some(1920),
        h: Some(1080),
        background_color: Some("black".to_string()),
        font: Some("NotoSansJP-Bold.otf".to_string()),
        font_size: Some("48".to_string()),
        font_color: Some("white".to_string()),
        border_color: Some("0xBBDEFB".to_string()),
        word: Some("".to_string()),
    };
    let filter = op.create_filter_complex();
    let (args, out) = create_args("out/test.mp4".to_string(), "test.mp4".to_string(), voice, op);
    assert_eq!(out, "out/test.mp4");
    let expected: Vec<String> = vec![
        "-loop", "1", "-i", "test.mp4", "-i", "test.wav", "-filter_complex", filter.as_str(),
        "-map", "[out2]", "-map", "1:a", "-s", "1920x1080", "-t", "10", "-c:v", "hevc_nvenc",
        "-c:a", "aac", "-pix_fmt", "yuv420p", "out/test.mp4",
    ]
    .into_iter()
    .map(|s| s.to_string())
    .collect();
    assert_eq!(args, expected);
    assert!(filter.contains("pad=1920:1080:") && filter.contains(":black[bg];"));
    assert!(filter.contains("fontsize=48:"));
}

#[test]
fn join_list_and_names() {
    let files = vec!["/v/a.mp4".to_string(), "/v/b c.mp4".to_string()];
    let (list, concat_file, output_file) = create_output_files(&files);
    assert_eq!(list, "file '/v/a.mp4'\nfile '/v/b c.mp4'\n");
    assert!(concat_file.starts_with("concat-") && concat_file.ends_with(".txt"));
    assert!(output_file.starts_with("concat-") && output_file.ends_with(".mp4"));
    assert_eq!(concat_file.len(), 7 + 36 + 4);
    assert_eq!(concat_file[7..43], output_file[7..43]);
    let (empty, _, _) = create_output_files(&Vec::new());
    assert_eq!(empty, "");
}

#[test]
fn join_arguments() {
    let args = concat_args("l.txt", "o.mp4");
    assert_eq!(args, vec!["-f", "concat", "-safe", "0", "-i", "l.txt", "-c", "copy", "o.mp4"]);
}

#[test]
fn voice_data() {
    let mut d = Data::new(None, "/tmp/x.wav");
    assert_eq!(d.filepath, "/tmp/x.wav");
    assert_eq!(d.duration_ms, 0);
    assert_eq!(d.speaker(3), 3);
    let r = d.create_voice(96000);
    assert_eq!(d.duration_ms, 2000);
    assert_eq!(r.duration_ms, 2000);
    assert_eq!(r.filepath, "/tmp/x.wav");
    assert_eq!(d.create_voice(100).duration_ms, 2);
    let e = Data::new(Some(14), "y");
    assert_eq!(e.speaker(3), 14);
}

#[test]
fn voice_table_replaces() {
    let mut t = VoiceTable::new();
    let k = "k1".to_string();
    assert!(t.get(&k).is_none());
    t.insert(k.clone(), Data::new(Some(1), "a"));
    t.insert("k2".to_string(), Data::new(Some(2), "b"));
    t.insert(k.clone(), Data::new(Some(3), "c"));
    assert_eq!(t.get(&k).map(|d| d.voice_id), Some(Some(3)));
    assert_eq!(t.get(&"k2".to_string()).map(|d| d.filepath.clone()), Some("b".to_string()));
    assert!(t.get(&"k3".to_string()).is_none());
}

#[test]
fn test_create_args() {
    let output_filename = r"output\test.mp4".to_string();
    let input_filepath = "test.mp4".to_string();
    let input_voice = Data { voice_id: Some(14), filepath: "test.wav".to_string(), duration_ms: 10000 };
    let op = Op {
        w: Some(1920),
        h: Some(1080),
        background_color: Some("black".to_string()),
        font: Some("NotoSansJP-Bold.otf".to_string()),
        font_size: Some("48".to_string()),
        font_color: Some("white".to_string()),
        border_color: Some("0xBBDEFB".to_string()),
        word: Some("".to_string()),
    };
    let (args, output_filename) = create_args(output_filename, input_filepath, input_voice, op);
    // "-loop 1", two inputs, the filter, two maps, size, length, two codecs,
    // the pixel format (eleven pairs) and the output file
    assert_eq!(args.len(), 23);
    assert_eq!(output_filename, r"output\test.mp4");
}
