use vstd::prelude::*;
use crate::text::{
    chars_of, i32_of, lines, parse_i32, push_char, split_pending, string_of, strip_leading, texts,
    trim, trim_bounds,
};
use crate::voice::{Data, VoiceTable};

verus! {

/// The byte-order mark that may open a script.
pub const BOM: char = '\u{feff}';

/// Relies on uuid::Uuid::new_v4 and the hyphenated form that its `to_string`
/// writes: a fresh random key of 36 characters.
#[verifier::external_body]
pub(crate) fn new_key() -> (r: String)
    ensures
        r@.len() == 36,
{
    uuid::Uuid::new_v4().to_string()
}

/// Whether `used` holds a key that reads as `k`.
fn is_used(used: &Vec<String>, k: &String) -> (r: bool)
    ensures
        r == texts(used@).contains(k@),
{
    let mut i: usize = 0;
    while i < used.len()
        invariant
            i <= used@.len(),
            forall|j: int| 0 <= j < i ==> used@[j]@ != k@,
        decreases used@.len() - i,
    {
        if used[i] == *k {
            assert(texts(used@)[i as int] == k@);
            return true;
        }
        i = i + 1;
    }
    assert forall|j: int| 0 <= j < texts(used@).len() implies texts(used@)[j] != k@ by {
        assert(used@[j]@ != k@);
    }
    false
}

/// A fresh random key that differs from every key in `used`. A repeat,
/// which the random source makes all but impossible, is lengthened with
/// `-` until it is longer than every key in `used`.
fn fresh_key(used: &Vec<String>) -> (r: String)
    ensures
        !texts(used@).contains(r@),
        r@.len() >= 36,
{
    let mut longest: usize = 0;
    let mut i: usize = 0;
    while i < used.len()
        invariant
            i <= used@.len(),
            forall|j: int| 0 <= j < i ==> used@[j]@.len() <= longest,
        decreases used@.len() - i,
    {
        let l = used[i].as_str().unicode_len();
        if l > longest {
            longest = l;
        }
        i = i + 1;
    }
    let mut k = new_key();
    while is_used(used, &k)
        invariant
            forall|j: int| 0 <= j < used@.len() ==> used@[j]@.len() <= longest,
            k@.len() >= 36,
        decreases if k@.len() <= longest {
            longest + 1 - k@.len()
        } else {
            0
        },
    {
        let ghost j = choose|j: int| 0 <= j < texts(used@).len() && texts(used@)[j] == k@;
        assert(used@[j]@ == k@);
        push_char(&mut k, '-');
    }
    k
}

proof fn lemma_push_distinct(s: Seq<Seq<char>>, x: Seq<char>)
    requires
        s.no_duplicates(),
        !s.contains(x),
    ensures
        s.push(x).no_duplicates(),
{
    let t = s.push(x);
    assert forall|i: int, j: int| 0 <= i < t.len() && 0 <= j < t.len() && i != j implies t[i]
        != t[j] by {
        if i == s.len() {
            assert(t[j] == s[j]);
        } else if j == s.len() {
            assert(t[i] == s[i]);
        } else {
            assert(t[i] == s[i] && t[j] == s[j]);
        }
    }
}

proof fn lemma_prefix_distinct(a: Seq<Seq<char>>, b: Seq<Seq<char>>)
    requires
        (a + b).no_duplicates(),
    ensures
        a.no_duplicates(),
{
    assert forall|i: int, j: int| 0 <= i < a.len() && 0 <= j < a.len() && i != j implies a[i]
        != a[j] by {
        assert((a + b)[i] == a[i] && (a + b)[j] == a[j]);
    }
}

/// One narration unit: a line of body text, or an empty pause.
pub struct Content {
    pub key: String,
    pub voice_id: Option<i32>,
    pub text: String,
}

/// What the script says of a content line: its voice and its text.
pub struct Line {
    pub voice_id: Option<i32>,
    pub text: Seq<char>,
}

/// What the script says of a section: its background file, title and lines.
pub struct Draft {
    pub path: Seq<char>,
    pub title: Option<Seq<char>>,
    pub lines: Seq<Line>,
}

impl Content {
    /// A content line under a fresh random key.
    pub fn new(voice_id: Option<i32>, text: String) -> (r: Content)
        ensures
            r.voice_id == voice_id,
            r.text@ == text@,
            r.key@.len() == 36,
    {
        Content { key: new_key(), voice_id, text }
    }

    pub open spec fn line(&self) -> Line {
        Line { voice_id: self.voice_id, text: self.text@ }
    }
}

/// One unit of narrated content bound to one background file.
pub struct Section {
    pub filename: String,
    pub title: Option<String>,
    pub contents: Vec<Content>,
    /// Audio by content key, filled by synthesis.
    pub voices: VoiceTable,
    /// The section's rendered video, set once it is rendered.
    pub video: Option<String>,
}

pub open spec fn title_view(t: Option<String>) -> Option<Seq<char>> {
    match t {
        Some(s) => Some(s@),
        None => None,
    }
}

pub open spec fn lines_of(cs: Seq<Content>) -> Seq<Line> {
    cs.map_values(|c: Content| c.line())
}

impl Section {
    pub open spec fn draft(&self) -> Draft {
        Draft { path: self.filename@, title: title_view(self.title), lines: lines_of(self.contents@) }
    }

    /// Nothing synthesized or rendered yet.
    pub open spec fn is_fresh(&self) -> bool {
        self.voices@ == Map::<Seq<char>, Data>::empty() && self.video is None
    }

    /// The empty accumulator that parsing starts from.
    pub fn blanc() -> (r: Section)
        ensures
            r.draft() == blank_draft(),
            r.contents@.len() == 0,
            r.is_fresh(),
    {
        let r = Section {
            filename: String::new(),
            title: None,
            contents: Vec::new(),
            voices: VoiceTable::new(),
            video: None,
        };
        assert(lines_of(r.contents@) =~= Seq::<Line>::empty());
        r
    }
}

/// The keys of the contents `cs`, in order.
pub open spec fn keys_of(cs: Seq<Content>) -> Seq<Seq<char>> {
    cs.map_values(|c: Content| c.key@)
}

/// The keys of all contents of the sections `s`, in document order.
pub open spec fn section_keys(s: Seq<Section>) -> Seq<Seq<char>>
    decreases s.len(),
{
    if s.len() == 0 {
        seq![]
    } else {
        section_keys(s.drop_last()) + keys_of(s.last().contents@)
    }
}

/// `used` lists the keys of the sections `done` and then of `cur`, with no
/// key twice.
pub open spec fn keys_tracked(used: Seq<String>, done: Seq<Section>, cur: Section) -> bool {
    &&& texts(used) == section_keys(done) + keys_of(cur.contents@)
    &&& texts(used).no_duplicates()
}

/// A content line under a fresh key that `used` does not hold; the key is
/// then recorded in `used`.
fn content_in(voice_id: Option<i32>, text: String, used: &mut Vec<String>) -> (r: Content)
    requires
        texts(old(used)@).no_duplicates(),
    ensures
        r.voice_id == voice_id,
        r.text@ == text@,
        r.key@.len() >= 36,
        texts(final(used)@) == texts(old(used)@).push(r.key@),
        texts(final(used)@).no_duplicates(),
{
    let key = fresh_key(used);
    used.push(key.clone());
    assert(texts(used@) =~= texts(old(used)@).push(key@));
    proof {
        lemma_push_distinct(texts(old(used)@), key@);
    }
    Content { key, voice_id, text }
}

pub open spec fn drafts(s: Seq<Section>) -> Seq<Draft> {
    s.map_values(|x: Section| x.draft())
}

pub open spec fn all_fresh(s: Seq<Section>) -> bool {
    forall|i: int| 0 <= i < s.len() ==> (#[trigger] s[i]).is_fresh()
}

pub open spec fn blank_draft() -> Draft {
    Draft { path: seq![], title: None, lines: seq![] }
}

/// `t` up to its first space, and what follows that space if there is one.
pub open spec fn split_at_space(t: Seq<char>) -> (Seq<char>, Option<Seq<char>>)
    decreases t.len(),
{
    if t.len() == 0 {
        (seq![], None)
    } else if t[0] == ' ' {
        (seq![], Some(t.drop_first()))
    } else {
        let (h, rest) = split_at_space(t.drop_first());
        (seq![t[0]] + h, rest)
    }
}

/// The content line that a trimmed body line `t` gives: `@<number> text`
/// sets the voice for this line alone; a numeral that does not parse sets
/// none, and the token is dropped either way.
pub open spec fn content_line(t: Seq<char>) -> Line {
    if t.len() > 0 && t[0] == '@' {
        let (head, rest) = split_at_space(t);
        Line {
            voice_id: i32_of(strip_leading(head, '@')),
            text: match rest {
                Some(r) => r,
                None => seq![],
            },
        }
    } else {
        Line { voice_id: None, text: t }
    }
}

pub open spec fn is_header(t: Seq<char>) -> bool {
    t.len() >= 2 && t[0] == '[' && t.last() == ']'
}

/// One line of the script read into the finished sections and the
/// section being gathered.
pub open spec fn step(done: Seq<Draft>, cur: Draft, line: Seq<char>) -> (Seq<Draft>, Draft) {
    let t = trim(line);
    if t.len() == 0 {
        if cur.path.len() > 0 && cur.lines.len() > 0 {
            (done, Draft { lines: cur.lines.push(Line { voice_id: None, text: seq![] }), ..cur })
        } else {
            (done, cur)
        }
    } else if is_header(t) {
        let path = trim(t.subrange(1, t.len() - 1));
        if cur.path.len() > 0 {
            (done.push(cur), Draft { path, title: None, lines: seq![] })
        } else {
            (done, Draft { path, ..cur })
        }
    } else if t[0] == '#' {
        (done, Draft { title: Some(trim(strip_leading(t, '#'))), ..cur })
    } else if cur.path.len() > 0 {
        (done, Draft { lines: cur.lines.push(content_line(t)), ..cur })
    } else {
        (done, cur)
    }
}

/// The lines `ls` read in order from the empty accumulator.
pub open spec fn fold_lines(ls: Seq<Seq<char>>) -> (Seq<Draft>, Draft)
    decreases ls.len(),
{
    if ls.len() == 0 {
        (seq![], blank_draft())
    } else {
        let (done, cur) = fold_lines(ls.drop_last());
        step(done, cur, ls.last())
    }
}

/// The sections of a script: its lines read in order after any leading
/// byte-order marks, and the last section gathered if it has a file.
pub open spec fn parse_script(text: Seq<char>) -> Seq<Draft> {
    let (done, cur) = fold_lines(lines(strip_leading(text, BOM)));
    if cur.path.len() > 0 {
        done.push(cur)
    } else {
        done
    }
}

/// The content line that the trimmed body line `v[from..to]` gives.
fn content_from(v: &Vec<char>, from: usize, to: usize, used: &mut Vec<String>) -> (r: Content)
    requires
        from < to <= v@.len(),
        texts(old(used)@).no_duplicates(),
    ensures
        r.line() == content_line(v@.subrange(from as int, to as int)),
        texts(final(used)@) == texts(old(used)@).push(r.key@),
        texts(final(used)@).no_duplicates(),
{
    let ghost t = v@.subrange(from as int, to as int);
    if v[from] != '@' {
        return content_in(None, string_of(v, from, to), used);
    }
    let mut p: usize = from;
    while p < to && v[p] != ' '
        invariant
            from <= p <= to <= v@.len(),
            t == v@.subrange(from as int, to as int),
            split_at_space(t).0 == v@.subrange(from as int, p as int) + split_at_space(
                v@.subrange(p as int, to as int),
            ).0,
            split_at_space(t).1 == split_at_space(v@.subrange(p as int, to as int)).1,
        decreases to - p,
    {
        let ghost u = v@.subrange(p as int, to as int);
        assert(u.drop_first() =~= v@.subrange(p + 1, to as int));
        assert(v@.subrange(from as int, p + 1) =~= v@.subrange(from as int, p as int) + seq![u[0]]);
        p = p + 1;
    }
    let ghost u = v@.subrange(p as int, to as int);
    if p < to {
        assert(u.drop_first() =~= v@.subrange(p + 1, to as int));
    }
    assert(split_at_space(t).0 =~= v@.subrange(from as int, p as int));
    let mut q: usize = from;
    while q < p && v[q] == '@'
        invariant
            from <= q <= p <= to <= v@.len(),
            strip_leading(v@.subrange(from as int, p as int), '@') == strip_leading(
                v@.subrange(q as int, p as int),
                '@',
            ),
        decreases p - q,
    {
        assert(v@.subrange(q as int, p as int).drop_first() =~= v@.subrange(q + 1, p as int));
        q = q + 1;
    }
    assert(strip_leading(v@.subrange(q as int, p as int), '@') == v@.subrange(q as int, p as int));
    let voice_id = parse_i32(v, q, p);
    let text = if p < to {
        string_of(v, p + 1, to)
    } else {
        String::new()
    };
    content_in(voice_id, text, used)
}

impl Section {
    /// Reads the line `v[from..to]` into the finished sections `done` and
    /// the section `self` being gathered.
    fn read_line(
        &mut self,
        done: &mut Vec<Section>,
        used: &mut Vec<String>,
        v: &Vec<char>,
        from: usize,
        to: usize,
    )
        requires
            from <= to <= v@.len(),
            old(self).is_fresh(),
            all_fresh(old(done)@),
            keys_tracked(old(used)@, old(done)@, *old(self)),
        ensures
            keys_tracked(final(used)@, final(done)@, *final(self)),
            (drafts(final(done)@), final(self).draft()) == step(
                drafts(old(done)@),
                old(self).draft(),
                v@.subrange(from as int, to as int),
            ),
            final(self).is_fresh(),
            all_fresh(final(done)@),
    {
        let (i, j) = trim_bounds(v, from, to);
        let ghost t = v@.subrange(i as int, j as int);
        let ghost before = drafts(done@);
        if i == j {
            if !self.filename.as_str().is_empty() && self.contents.len() > 0 {
                let c = content_in(None, String::new(), used);
                self.contents.push(c);
                assert(lines_of(self.contents@) =~= lines_of(old(self).contents@).push(c.line()));
                assert(keys_of(self.contents@) =~= keys_of(old(self).contents@).push(c.key@));
                assert(texts(used@) =~= section_keys(done@) + keys_of(self.contents@));
            }
        } else if j - i >= 2 && v[i] == '[' && v[j - 1] == ']' {
            let (a, b) = trim_bounds(v, i + 1, j - 1);
            assert(t.subrange(1, t.len() - 1) =~= v@.subrange(i + 1, j - 1));
            let path = string_of(v, a, b);
            if !self.filename.as_str().is_empty() {
                let mut prev = Section::blanc();
                std::mem::swap(self, &mut prev);
                let ghost old_done = done@;
                done.push(prev);
                assert(drafts(done@) =~= before.push(prev.draft()));
                assert(done@.drop_last() =~= old_done);
                assert(keys_of(self.contents@) =~= Seq::<Seq<char>>::empty());
                assert(texts(used@) =~= section_keys(done@) + keys_of(self.contents@));
            }
            self.filename = path;
            assert(all_fresh(done@));
        } else if v[i] == '#' {
            let mut k: usize = i;
            while k < j && v[k] == '#'
                invariant
                    i <= k <= j <= v@.len(),
                    t == v@.subrange(i as int, j as int),
                    strip_leading(t, '#') == strip_leading(v@.subrange(k as int, j as int), '#'),
                decreases j - k,
            {
                assert(v@.subrange(k as int, j as int).drop_first() =~= v@.subrange(
                    k + 1,
                    j as int,
                ));
                k = k + 1;
            }
            assert(strip_leading(v@.subrange(k as int, j as int), '#') == v@.subrange(
                k as int,
                j as int,
            ));
            let (a, b) = trim_bounds(v, k, j);
            self.title = Some(string_of(v, a, b));
        } else if !self.filename.as_str().is_empty() {
            let c = content_from(v, i, j, used);
            self.contents.push(c);
            assert(lines_of(self.contents@) =~= lines_of(old(self).contents@).push(c.line()));
            assert(keys_of(self.contents@) =~= keys_of(old(self).contents@).push(c.key@));
            assert(texts(used@) =~= section_keys(done@) + keys_of(self.contents@));
        }
    }
}


impl Section {
    /// The sections of `text`, in the order of their headers, each with
    /// nothing synthesized or rendered yet, and no content key used twice.
    pub fn create_vec(text: &str) -> (r: Vec<Section>)
        ensures
            drafts(r@) == parse_script(text@),
            all_fresh(r@),
            section_keys(r@).no_duplicates(),
    {
        let v = chars_of(text);
        let n = v.len();
        let mut b: usize = 0;
        assert(v@.subrange(0, n as int) =~= v@);
        while b < n && v[b] == BOM
            invariant
                b <= n == v@.len(),
                v@ == text@,
                strip_leading(text@, BOM) == strip_leading(v@.subrange(b as int, n as int), BOM),
            decreases n - b,
        {
            assert(v@.subrange(b as int, n as int).drop_first() =~= v@.subrange(b + 1, n as int));
            b = b + 1;
        }
        if b == n {
            assert(v@.subrange(b as int, n as int) =~= Seq::<char>::empty());
        }
        let ghost body = v@.subrange(b as int, n as int);
        assert(strip_leading(text@, BOM) == body);
        let mut done: Vec<Section> = Vec::new();
        let mut cur = Section::blanc();
        let mut used: Vec<String> = Vec::new();
        assert(texts(used@) =~= section_keys(done@) + keys_of(cur.contents@));
        let ghost mut ls: Seq<Seq<char>> = seq![];
        let mut start: usize = b;
        let mut k: usize = b;
        assert(body.take(0) =~= Seq::<char>::empty());
        assert(drafts(done@) =~= Seq::<Draft>::empty());
        while k < n
            invariant
                b <= start <= k <= n == v@.len(),
                body == v@.subrange(b as int, n as int),
                split_pending(body.take(k - b)) == (ls, v@.subrange(start as int, k as int)),
                fold_lines(ls) == (drafts(done@), cur.draft()),
                cur.is_fresh(),
                all_fresh(done@),
                keys_tracked(used@, done@, cur),
            decreases n - k,
        {
            let ghost pre = body.take(k - b);
            assert(body.take(k - b + 1).drop_last() =~= pre);
            assert(body.take(k - b + 1).last() == v@[k as int]);
            if v[k] == '\n' {
                let ghost line = v@.subrange(start as int, k as int);
                cur.read_line(&mut done, &mut used, &v, start, k);
                proof {
                    assert(ls.push(line).drop_last() =~= ls);
                    ls = ls.push(line);
                }
                start = k + 1;
                assert(v@.subrange(start as int, k + 1) =~= Seq::<char>::empty());
            } else {
                assert(v@.subrange(start as int, k + 1) =~= v@.subrange(start as int, k as int).push(
                    v@[k as int],
                ));
            }
            k = k + 1;
        }
        assert(body.take(n - b) =~= body);
        if start < n {
            let ghost line = v@.subrange(start as int, n as int);
            cur.read_line(&mut done, &mut used, &v, start, n);
            assert(ls.push(line).drop_last() =~= ls);
        }
        if !cur.filename.as_str().is_empty() {
            let ghost d = drafts(done@);
            let ghost old_done = done@;
            done.push(cur);
            assert(drafts(done@) =~= d.push(cur.draft()));
            assert(done@.drop_last() =~= old_done);
        } else {
            proof {
                lemma_prefix_distinct(section_keys(done@), keys_of(cur.contents@));
            }
        }
        done
    }
}


/// The path that the trimmed header line `t` names.
pub open spec fn header_path(t: Seq<char>) -> Seq<char> {
    trim(t.subrange(1, t.len() - 1))
}

/// The paths named by the header lines among `ls` that name one, in order.
pub open spec fn header_paths(ls: Seq<Seq<char>>) -> Seq<Seq<char>>
    decreases ls.len(),
{
    if ls.len() == 0 {
        seq![]
    } else {
        let t = trim(ls.last());
        if t.len() > 0 && is_header(t) && header_path(t).len() > 0 {
            header_paths(ls.drop_last()).push(header_path(t))
        } else {
            header_paths(ls.drop_last())
        }
    }
}

/// The background paths of the sections `ds`, in order.
pub open spec fn paths(ds: Seq<Draft>) -> Seq<Seq<char>> {
    ds.map_values(|d: Draft| d.path)
}

/// The paths of the finished sections, then that of the section being
/// gathered if it has one.
pub open spec fn gathered_paths(done: Seq<Draft>, cur: Draft) -> Seq<Seq<char>> {
    if cur.path.len() > 0 {
        paths(done).push(cur.path)
    } else {
        paths(done)
    }
}

proof fn lemma_fold_paths(ls: Seq<Seq<char>>)
    ensures
        gathered_paths(fold_lines(ls).0, fold_lines(ls).1) == header_paths(ls),
    decreases ls.len(),
{
    if ls.len() > 0 {
        lemma_fold_paths(ls.drop_last());
        let (d0, c0) = fold_lines(ls.drop_last());
        let t = trim(ls.last());
        if t.len() > 0 && is_header(t) && c0.path.len() > 0 {
            assert(paths(d0.push(c0)) =~= paths(d0).push(c0.path));
        }
    }
}

/// A script gives one section for each header line that names a path, in
/// the order of those headers; nothing else starts a section.
pub proof fn lemma_sections_follow_headers(text: Seq<char>)
    ensures
        paths(parse_script(text)) == header_paths(lines(strip_leading(text, BOM))),
        parse_script(text).len() == header_paths(lines(strip_leading(text, BOM))).len(),
{
    let ls = lines(strip_leading(text, BOM));
    lemma_fold_paths(ls);
    let (d, c) = fold_lines(ls);
    if c.path.len() > 0 {
        assert(paths(d.push(c)) =~= paths(d).push(c.path));
    }
}
} // verus!
