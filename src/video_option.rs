use vstd::prelude::*;
use vstd::string::StringExecFns;
use crate::text::{decimal, push_signed};

verus! {

/// Styling of one rendered clip: frame size, background fill, the font of
/// the overlaid text, and the text itself.
pub struct Op {
    pub w: Option<i16>,
    pub h: Option<i16>,
    pub background_color: Option<String>,
    pub font: Option<String>,
    pub font_size: Option<String>,
    pub font_color: Option<String>,
    pub border_color: Option<String>,
    pub word: Option<String>,
}

/// The text of an optional setting, empty when it is unset.
pub open spec fn text_or_empty(o: Option<String>) -> Seq<char> {
    match o {
        Some(s) => s@,
        None => seq![],
    }
}

/// The value of an optional size, zero when it is unset.
pub open spec fn size_or_zero(o: Option<i16>) -> int {
    match o {
        Some(v) => v as int,
        None => 0,
    }
}

/// The filter graph of `op`: scale and pad the picture to the frame over the
/// background fill, then draw the text centred near the bottom edge.
pub open spec fn filter_text(op: Op) -> Seq<char> {
    let w = decimal(size_or_zero(op.w));
    let h = decimal(size_or_zero(op.h));
    "[0]scale=w='min("@ + w + ",iw)':h='min("@ + h + ",ih)':\n        force_original_aspect_ratio=decrease,pad="@
        + w + ":"@ + h + ":("@ + w + "-iw)/\n        2:("@ + h + "-ih)/\n        2:"@
        + text_or_empty(op.background_color) + "[bg];[bg]drawtext=fontfile='"@
        + text_or_empty(op.font) + "':fontsize="@ + text_or_empty(op.font_size)
        + ":fontcolor="@ + text_or_empty(op.font_color) + "@0.9:borderw=10:bordercolor="@
        + text_or_empty(op.border_color) + ":text='"@ + text_or_empty(op.word)
        + "':x=(W-text_w)/2:y=(H-text_h-50):wrap_unicode[out2]"@
}

/// Appends the text of an optional setting to `s`.
fn push_setting(s: &mut String, o: &Option<String>)
    ensures
        final(s)@ == old(s)@ + text_or_empty(*o),
{
    match o {
        Some(t) => s.append(t.as_str()),
        None => {
            assert(old(s)@ + Seq::<char>::empty() =~= old(s)@);
        },
    }
}

/// Appends the value of an optional size to `s`.
fn push_size(s: &mut String, o: Option<i16>)
    ensures
        final(s)@ == old(s)@ + decimal(size_or_zero(o)),
{
    let v: i64 = match o {
        Some(v) => v as i64,
        None => 0,
    };
    push_signed(s, v);
}

impl Op {
    /// The default styling: a 1920x1080 frame on white, white 36-point text
    /// in the font at `font_filepath` with a light-blue border, no text yet.
    pub fn with_font(font_filepath: String) -> (r: Op)
        ensures
            r.w == Some(1920i16),
            r.h == Some(1080i16),
            text_or_empty(r.background_color) == "white"@ && r.background_color is Some,
            r.font is Some && text_or_empty(r.font) == font_filepath@,
            text_or_empty(r.font_size) == "36"@ && r.font_size is Some,
            text_or_empty(r.font_color) == "white"@ && r.font_color is Some,
            text_or_empty(r.border_color) == "0xBBDEFB"@ && r.border_color is Some,
            r.word is Some && text_or_empty(r.word) == Seq::<char>::empty(),
    {
        Op {
            w: Some(1920),
            h: Some(1080),
            background_color: Some(String::from_str("white")),
            font: Some(font_filepath),
            font_size: Some(String::from_str("36")),
            font_color: Some(String::from_str("white")),
            border_color: Some(String::from_str("0xBBDEFB")),
            word: Some(String::new()),
        }
    }

    /// Sets the text to overlay.
    pub fn set_word(&mut self, word: &str)
        ensures
            final(self).word is Some,
            text_or_empty(final(self).word) == word@,
            final(self).w == old(self).w,
            final(self).h == old(self).h,
            final(self).background_color == old(self).background_color,
            final(self).font == old(self).font,
            final(self).font_size == old(self).font_size,
            final(self).font_color == old(self).font_color,
            final(self).border_color == old(self).border_color,
    {
        self.word = Some(String::from_str(word));
    }

    /// The filter graph that renders a clip in this styling.
    pub fn create_filter_complex(&self) -> (r: String)
        ensures
            r@ == filter_text(*self),
    {
        let mut s = String::new();
        s.append("[0]scale=w='min(");
        push_size(&mut s, self.w);
        s.append(",iw)':h='min(");
        push_size(&mut s, self.h);
        s.append(",ih)':\n        force_original_aspect_ratio=decrease,pad=");
        push_size(&mut s, self.w);
        s.append(":");
        push_size(&mut s, self.h);
        s.append(":(");
        push_size(&mut s, self.w);
        s.append("-iw)/\n        2:(");
        push_size(&mut s, self.h);
        s.append("-ih)/\n        2:");
        push_setting(&mut s, &self.background_color);
        s.append("[bg];[bg]drawtext=fontfile='");
        push_setting(&mut s, &self.font);
        s.append("':fontsize=");
        push_setting(&mut s, &self.font_size);
        s.append(":fontcolor=");
        push_setting(&mut s, &self.font_color);
        s.append("@0.9:borderw=10:bordercolor=");
        push_setting(&mut s, &self.border_color);
        s.append(":text='");
        push_setting(&mut s, &self.word);
        s.append("':x=(W-text_w)/2:y=(H-text_h-50):wrap_unicode[out2]");
        assert(s@ =~= filter_text(*self));
        s
    }
}

} // verus!
