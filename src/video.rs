use vstd::prelude::*;
use vstd::string::StringExecFns;
use crate::section::new_key;
use crate::text::{decimal, digit, nat_decimal, push_char, push_decimal, push_signed, texts};
use crate::video_option::{filter_text, size_or_zero, Op};
use crate::voice::Data;

verus! {

/// The digits after the decimal point of `f` thousandths, `0 < f < 1000`,
/// without trailing zeros.
pub open spec fn thousandths(f: int) -> Seq<char> {
    if f % 100 == 0 {
        seq![digit(f / 100)]
    } else if f % 10 == 0 {
        seq![digit(f / 100), digit((f / 10) % 10)]
    } else {
        seq![digit(f / 100), digit((f / 10) % 10), digit(f % 10)]
    }
}

/// `ms` milliseconds written in seconds, as the shortest decimal: `10`,
/// `1.5`, `0.025`.
pub open spec fn seconds_text(ms: int) -> Seq<char> {
    let m = if ms < 0 {
        -ms
    } else {
        ms
    };
    let sign = if ms < 0 {
        seq!['-']
    } else {
        seq![]
    };
    let whole = nat_decimal((m / 1000) as nat);
    if m % 1000 == 0 {
        sign + whole
    } else {
        sign + whole + seq!['.'] + thousandths(m % 1000)
    }
}

/// The renderer's arguments for one clip: loop the picture at `input`,
/// mix in the audio, apply the filter graph of `op`, fix the frame size and
/// the play length to the audio's, encode, and write `output`.
pub open spec fn clip_args(output: Seq<char>, input: Seq<char>, audio: Data, op: Op) -> Seq<
    Seq<char>,
> {
    seq![
        "-loop"@,
        "1"@,
        "-i"@,
        input,
        "-i"@,
        audio.filepath@,
        "-filter_complex"@,
        filter_text(op),
        "-map"@,
        "[out2]"@,
        "-map"@,
        "1:a"@,
        "-s"@,
        decimal(size_or_zero(op.w)) + "x"@ + decimal(size_or_zero(op.h)),
        "-t"@,
        seconds_text(audio.duration_ms as int),
        "-c:v"@,
        "hevc_nvenc"@,
        "-c:a"@,
        "aac"@,
        "-pix_fmt"@,
        "yuv420p"@,
        output,
    ]
}

/// The renderer's arguments that join the clips listed in `list` into `output`.
pub open spec fn join_args(list: Seq<char>, output: Seq<char>) -> Seq<Seq<char>> {
    seq!["-f"@, "concat"@, "-safe"@, "0"@, "-i"@, list, "-c"@, "copy"@, output]
}

/// The list of clips that the renderer joins: one line `file '<path>'` for
/// each, in order.
pub open spec fn manifest(paths: Seq<Seq<char>>) -> Seq<char>
    decreases paths.len(),
{
    if paths.len() == 0 {
        seq![]
    } else {
        manifest(paths.drop_last()) + "file '"@ + paths.last() + "'\n"@
    }
}

/// `ms` milliseconds written in seconds.
pub fn seconds_string(ms: i64) -> (r: String)
    ensures
        r@ == seconds_text(ms as int),
{
    let mut s = String::new();
    let m: u64 = if ms < 0 {
        push_char(&mut s, '-');
        (0 - (ms as i128)) as u64
    } else {
        ms as u64
    };
    let ghost sign = s@;
    assert(sign == (if ms < 0 {
        seq!['-']
    } else {
        Seq::<char>::empty()
    }));
    push_decimal(&mut s, m / 1000);
    let f = m % 1000;
    if f != 0 {
        push_char(&mut s, '.');
        let a = f / 100;
        let b = (f / 10) % 10;
        let c = f % 10;
        push_char(&mut s, (a as u8 + 48) as char);
        if f % 100 != 0 {
            push_char(&mut s, (b as u8 + 48) as char);
            if c != 0 {
                push_char(&mut s, (c as u8 + 48) as char);
            }
        }
        assert(s@ =~= seconds_text(ms as int));
    } else {
        assert(s@ =~= seconds_text(ms as int));
    }
    s
}

fn text(s: &str) -> (r: String)
    ensures
        r@ == s@,
{
    String::from_str(s)
}

/// The renderer's arguments for the clip that shows `input_filepath` with
/// `input_voice` and the styling `op`, written to `output_filename`; and
/// that file name.
pub fn create_args(output_filename: String, input_filepath: String, input_voice: Data, op: Op) -> (r:
    (Vec<String>, String))
    ensures
        texts(r.0@) == clip_args(output_filename@, input_filepath@, input_voice, op),
        r.1@ == output_filename@,
{
    let filter = op.create_filter_complex();
    let mut size = String::new();
    push_size_pair(&mut size, op.w, op.h);
    let seconds = seconds_string(input_voice.duration_ms);
    let out = output_filename.clone();
    let v = vec![
        text("-loop"),
        text("1"),
        text("-i"),
        input_filepath,
        text("-i"),
        input_voice.filepath,
        text("-filter_complex"),
        filter,
        text("-map"),
        text("[out2]"),
        text("-map"),
        text("1:a"),
        text("-s"),
        size,
        text("-t"),
        seconds,
        text("-c:v"),
        text("hevc_nvenc"),
        text("-c:a"),
        text("aac"),
        text("-pix_fmt"),
        text("yuv420p"),
        out,
    ];
    assert(texts(v@) =~= clip_args(output_filename@, input_filepath@, input_voice, op));
    (v, output_filename)
}

/// Appends `<w>x<h>` to `s`.
fn push_size_pair(s: &mut String, w: Option<i16>, h: Option<i16>)
    ensures
        final(s)@ == old(s)@ + (decimal(size_or_zero(w)) + "x"@ + decimal(size_or_zero(h))),
{
    let wv: i64 = match w {
        Some(v) => v as i64,
        None => 0,
    };
    let hv: i64 = match h {
        Some(v) => v as i64,
        None => 0,
    };
    push_signed(s, wv);
    s.append("x");
    push_signed(s, hv);
    assert(final(s)@ =~= old(s)@ + (decimal(size_or_zero(w)) + "x"@ + decimal(size_or_zero(h))));
}

/// The text of the list that joins `video_files`, and the names of that
/// list and of the joined video: `concat-<id>.txt` and `concat-<id>.mp4`
/// for one fresh random id.
pub fn create_output_files(video_files: &Vec<String>) -> (r: (String, String, String))
    ensures
        r.0@ == manifest(texts(video_files@)),
        exists|id: Seq<char>|
            id.len() == 36 && r.1@ == "concat-"@ + id + ".txt"@ && r.2@ == "concat-"@ + id
                + ".mp4"@,
{
    let mut list = String::new();
    let mut i: usize = 0;
    while i < video_files.len()
        invariant
            i <= video_files@.len(),
            list@ == manifest(texts(video_files@.take(i as int))),
        decreases video_files@.len() - i,
    {
        list.append("file '");
        list.append(video_files[i].as_str());
        list.append("'\n");
        assert(texts(video_files@.take(i + 1)).drop_last() =~= texts(video_files@.take(i as int)));
        i = i + 1;
    }
    assert(video_files@.take(i as int) =~= video_files@);
    let id = new_key();
    let mut concat_file = text("concat-");
    concat_file.append(id.as_str());
    concat_file.append(".txt");
    let mut output_file = text("concat-");
    output_file.append(id.as_str());
    output_file.append(".mp4");
    (list, concat_file, output_file)
}

/// The renderer's arguments that join the clips listed in `concat_file`
/// into `output_file`.
pub fn concat_args(concat_file: &str, output_file: &str) -> (r: Vec<String>)
    ensures
        texts(r@) == join_args(concat_file@, output_file@),
{
    let v = vec![
        text("-f"),
        text("concat"),
        text("-safe"),
        text("0"),
        text("-i"),
        text(concat_file),
        text("-c"),
        text("copy"),
        text(output_file),
    ];
    assert(texts(v@) =~= join_args(concat_file@, output_file@));
    v
}

} // verus!
