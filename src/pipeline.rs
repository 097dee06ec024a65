use vstd::prelude::*;
use crate::section::Section;
use crate::text::texts;
use crate::voice::Data;

verus! {

/// Where a run stands: synthesizing the lines of the current section,
/// rendering its clips (and, past the last line, joining them), joining the
/// section videos, finished, or stopped on an error.
pub enum Stage {
    Voices,
    Clips,
    Final,
    Done,
    Failed,
}

/// Why a run stopped.
pub enum RunError {
    /// The section has no content to synthesize.
    EmptyContent { section: usize },
    /// Synthesis of one content line failed.
    Synthesis { section: usize, content: usize, reason: String },
    /// Rendering of one clip failed.
    Render { section: usize, content: usize, reason: String },
    /// Joining the clips of a section failed.
    Concat { section: usize, reason: String },
    /// Joining the section videos failed.
    FinalConcat { reason: String },
}

/// What the outside work reported.
pub enum Event {
    /// The requested audio was synthesized.
    Voiced(Data),
    /// The requested clip was rendered to this path.
    Rendered(String),
    /// The requested join produced this path.
    Joined(String),
    /// The requested work failed, for this reason.
    Failed(String),
}

/// The outside work that a run asks for next.
pub enum Action {
    /// Synthesize `text` in voice `voice_id` (else the default) for the
    /// content `content` of section `section`, keyed `key`.
    Synthesize { section: usize, content: usize, key: String, text: String, voice_id: Option<i32> },
    /// Render the clip of content `content` of section `section`: the
    /// background `source` with `audio` and the overlaid `text`.
    Render {
        section: usize,
        content: usize,
        key: String,
        source: String,
        text: String,
        audio: Data,
    },
    /// Join `clips`, in order, into the video of section `section`.
    JoinSection { section: usize, clips: Vec<String> },
    /// Join the section videos `videos`, in order, into the final video.
    JoinAll { videos: Vec<String> },
    /// Nothing is left: the final video is `Run::output`.
    Finished,
    /// The run stopped: the reason is `Run::error`.
    Stopped,
}

/// Whether the content `j` of `s` has synthesized audio.
pub open spec fn has_voice(s: Section, j: int) -> bool {
    s.voices@.contains_key(s.contents@[j].key@)
}

/// The contents of `s` before `k` that have audio, in order.
pub open spec fn voiced_before(s: Section, k: int) -> Seq<int>
    decreases k,
{
    if k <= 0 {
        seq![]
    } else if has_voice(s, k - 1) {
        voiced_before(s, k - 1).push(k - 1)
    } else {
        voiced_before(s, k - 1)
    }
}

/// The rendered videos of the sections `s`, in document order.
pub open spec fn rendered_videos(s: Seq<Section>) -> Seq<Seq<char>>
    decreases s.len(),
{
    if s.len() == 0 {
        seq![]
    } else {
        match s.last().video {
            Some(v) => rendered_videos(s.drop_last()).push(v@),
            None => rendered_videos(s.drop_last()),
        }
    }
}

proof fn lemma_voiced_before_skip(s: Section, a: int, b: int)
    requires
        0 <= a <= b,
        forall|j: int| a <= j < b ==> !has_voice(s, j),
    ensures
        voiced_before(s, b) == voiced_before(s, a),
    decreases b - a,
{
    if a < b {
        lemma_voiced_before_skip(s, a, b - 1);
    }
}

/// The clips that a section is joined from follow its contents in document
/// order: they show the contents that have audio, each once, by increasing
/// position, and no other.
pub proof fn lemma_voiced_in_order(s: Section, k: int)
    requires
        0 <= k,
    ensures
        forall|a: int, b: int|
            0 <= a < b < voiced_before(s, k).len() ==> voiced_before(s, k)[a] < voiced_before(
                s,
                k,
            )[b],
        forall|i: int|
            0 <= i < voiced_before(s, k).len() ==> 0 <= #[trigger] voiced_before(s, k)[i] < k,
        forall|j: int| 0 <= j < k ==> (has_voice(s, j) <==> voiced_before(s, k).contains(j)),
    decreases k,
{
    if k > 0 {
        lemma_voiced_in_order(s, k - 1);
        let p = voiced_before(s, k - 1);
        if has_voice(s, k - 1) {
            assert(voiced_before(s, k) == p.push(k - 1));
            assert forall|j: int| 0 <= j < k implies (has_voice(s, j) <==> voiced_before(
                s,
                k,
            ).contains(j)) by {
                if j < k - 1 {
                    if p.contains(j) {
                        let i = choose|i: int| 0 <= i < p.len() && p[i] == j;
                        assert(voiced_before(s, k)[i] == j);
                    }
                    if voiced_before(s, k).contains(j) {
                        let i = choose|i: int|
                            0 <= i < voiced_before(s, k).len() && voiced_before(s, k)[i] == j;
                        assert(i < p.len());
                        assert(p[i] == j);
                    }
                } else {
                    assert(voiced_before(s, k)[p.len() as int] == k - 1);
                }
            }
        } else {
            assert forall|j: int| 0 <= j < k implies (has_voice(s, j) <==> voiced_before(
                s,
                k,
            ).contains(j)) by {
                if j == k - 1 && p.contains(j) {
                    let i = choose|i: int| 0 <= i < p.len() && p[i] == j;
                    assert(p[i] < k - 1);
                }
            }
        }
    }
}

/// A copy of `d`.
fn copy_data(d: &Data) -> (r: Data)
    ensures
        r.voice_id == d.voice_id,
        r.filepath@ == d.filepath@,
        r.duration_ms == d.duration_ms,
{
    Data { voice_id: d.voice_id, filepath: d.filepath.clone(), duration_ms: d.duration_ms }
}

/// A copy of the strings `v`.
fn copy_texts(v: &Vec<String>) -> (r: Vec<String>)
    ensures
        texts(r@) == texts(v@),
{
    let mut r: Vec<String> = Vec::new();
    let mut i: usize = 0;
    while i < v.len()
        invariant
            i <= v@.len(),
            texts(r@) == texts(v@.take(i as int)),
        decreases v@.len() - i,
    {
        r.push(v[i].clone());
        assert(texts(v@.take(i + 1)) =~= texts(v@.take(i as int)).push(v@[i as int]@));
        assert(texts(r@) =~= texts(v@.take(i as int)).push(v@[i as int]@));
        i = i + 1;
    }
    assert(v@.take(i as int) =~= v@);
    r
}

/// A whole run over a script: the sections in document order, each
/// synthesized line by line, then rendered clip by clip and joined, and at
/// last all section videos joined. The first failure stops the run.
pub struct Run {
    pub sections: Vec<Section>,
    /// The section being worked on.
    pub section: usize,
    /// The content being worked on within that section.
    pub content: usize,
    pub stage: Stage,
    /// The clips rendered so far for the current section, in order.
    pub clips: Vec<String>,
    /// The contents that those clips show.
    pub rendered: Ghost<Seq<int>>,
    pub error: Option<RunError>,
    /// The final video, once joined.
    pub output: Option<String>,
}

impl Run {
    pub open spec fn current(&self) -> Section {
        self.sections@[self.section as int]
    }

    /// The current section's clips stand for exactly its voiced contents
    /// before the cursor, and the cursor rests on a voiced content or at the end.
    pub open spec fn clips_wf(&self) -> bool {
        let s = self.current();
        &&& self.content <= s.contents@.len()
        &&& self.content < s.contents@.len() ==> has_voice(s, self.content as int)
        &&& self.rendered@ == voiced_before(s, self.content as int)
        &&& self.clips@.len() == self.rendered@.len()
    }

    /// The run stopped on `e`, with everything else as in `before`: no
    /// work already done is undone.
    pub open spec fn stopped_from(&self, before: Run, e: RunError) -> bool {
        &&& self.stage is Failed
        &&& self.error == Some(e)
        &&& self.sections == before.sections
        &&& self.section == before.section
        &&& self.content == before.content
        &&& self.clips == before.clips
        &&& self.output == before.output
    }

    pub open spec fn wf(&self) -> bool {
        let n = self.sections@.len();
        &&& self.section <= n
        &&& forall|i: int| 0 <= i < self.section ==> (#[trigger] self.sections@[i]).video is Some
        &&& forall|i: int| self.section <= i < n ==> (#[trigger] self.sections@[i]).video is None
        &&& match self.stage {
            Stage::Voices => {
                &&& self.section < n
                &&& self.content < self.current().contents@.len()
                &&& forall|j: int| 0 <= j < self.content ==> has_voice(self.current(), j)
            },
            Stage::Clips => self.section < n && self.clips_wf(),
            Stage::Final => self.section == n,
            Stage::Done => self.section == n && self.output is Some,
            Stage::Failed => self.error is Some,
        }
    }

    /// Moves to section `i`: its synthesis, the final join past the last
    /// section, or a stop where the section has nothing to synthesize.
    fn enter(&mut self, i: usize)
        requires
            i <= old(self).sections@.len(),
            forall|j: int| 0 <= j < i ==> (#[trigger] old(self).sections@[j]).video is Some,
            forall|j: int|
                i <= j < old(self).sections@.len() ==> (#[trigger] old(self).sections@[j]).video is None,
        ensures
            final(self).wf(),
            final(self).sections == old(self).sections,
            final(self).section == i,
            final(self).content == 0,
            final(self).output == old(self).output,
            i == old(self).sections@.len() ==> final(self).stage is Final,
            i < old(self).sections@.len() && old(self).sections@[i as int].contents@.len() > 0
                ==> final(self).stage is Voices,
            i < old(self).sections@.len() && old(self).sections@[i as int].contents@.len() == 0
                ==> final(self).stage is Failed && final(self).error == Some(
                RunError::EmptyContent { section: i },
            ),
    {
        self.section = i;
        self.content = 0;
        self.clips = Vec::new();
        self.rendered = Ghost(Seq::empty());
        if i == self.sections.len() {
            self.stage = Stage::Final;
        } else if self.sections[i].contents.len() == 0 {
            self.stage = Stage::Failed;
            self.error = Some(RunError::EmptyContent { section: i });
        } else {
            self.stage = Stage::Voices;
        }
    }

    /// The first content of the current section from `from` on that has
    /// audio, or the number of its contents if none has.
    fn next_voiced(&self, from: usize) -> (r: usize)
        requires
            self.section < self.sections@.len(),
            from <= self.current().contents@.len(),
        ensures
            from <= r <= self.current().contents@.len(),
            r < self.current().contents@.len() ==> has_voice(self.current(), r as int),
            forall|j: int| from <= j < r ==> !has_voice(self.current(), j),
    {
        let s = &self.sections[self.section];
        let mut j: usize = from;
        while j < s.contents.len()
            invariant
                s == self.current(),
                from <= j <= s.contents@.len(),
                forall|k: int| from <= k < j ==> !has_voice(self.current(), k),
            decreases s.contents@.len() - j,
        {
            if s.voices.get(&s.contents[j].key).is_some() {
                return j;
            }
            j = j + 1;
        }
        j
    }

    /// A run over `sections`, about to synthesize the first one.
    pub fn new(sections: Vec<Section>) -> (r: Run)
        requires
            forall|i: int| 0 <= i < sections@.len() ==> (#[trigger] sections@[i]).video is None,
        ensures
            r.wf(),
            r.sections == sections,
            r.section == 0,
            r.content == 0,
            r.output is None,
            sections@.len() == 0 ==> r.stage is Final,
            sections@.len() > 0 && sections@[0].contents@.len() > 0 ==> r.stage is Voices,
            sections@.len() > 0 && sections@[0].contents@.len() == 0 ==> r.stage is Failed
                && r.error == Some(RunError::EmptyContent { section: 0 }),
    {
        let mut r = Run {
            sections,
            section: 0,
            content: 0,
            stage: Stage::Final,
            clips: Vec::new(),
            rendered: Ghost(Seq::empty()),
            error: None,
            output: None,
        };
        r.enter(0);
        r
    }

    /// The outside work to do next.
    pub fn next_action(&self) -> (r: Action)
        requires
            self.wf(),
        ensures
            match r {
                Action::Synthesize { section, content, key, text, voice_id } => {
                    &&& self.stage is Voices
                    &&& section == self.section && content == self.content
                    &&& key@ == self.current().contents@[content as int].key@
                    &&& text@ == self.current().contents@[content as int].text@
                    &&& voice_id == self.current().contents@[content as int].voice_id
                },
                Action::Render { section, content, key, source, text, audio } => {
                    let s = self.current();
                    &&& self.stage is Clips
                    &&& section == self.section && content == self.content
                    &&& content < s.contents@.len()
                    &&& has_voice(s, content as int)
                    &&& key@ == s.contents@[content as int].key@
                    &&& source@ == s.filename@
                    &&& text@ == s.contents@[content as int].text@
                    &&& audio.voice_id == s.voices@[key@].voice_id
                    &&& audio.filepath@ == s.voices@[key@].filepath@
                    &&& audio.duration_ms == s.voices@[key@].duration_ms
                },
                Action::JoinSection { section, clips } => {
                    &&& self.stage is Clips
                    &&& section == self.section
                    &&& self.content == self.current().contents@.len()
                    &&& texts(clips@) == texts(self.clips@)
                    &&& self.rendered@ == voiced_before(
                        self.current(),
                        self.current().contents@.len() as int,
                    )
                    &&& clips@.len() == self.rendered@.len()
                    &&& forall|a: int, b: int|
                        0 <= a < b < self.rendered@.len() ==> self.rendered@[a] < self.rendered@[b]
                    &&& forall|j: int|
                        0 <= j < self.current().contents@.len() ==> (has_voice(self.current(), j)
                            <==> self.rendered@.contains(j))
                },
                Action::JoinAll { videos } => {
                    &&& self.stage is Final
                    &&& texts(videos@) == rendered_videos(self.sections@)
                    &&& videos@.len() == self.sections@.len()
                },
                Action::Finished => self.stage is Done,
                Action::Stopped => self.stage is Failed,
            },
    {
        match self.stage {
            Stage::Voices => {
                let c = &self.sections[self.section].contents[self.content];
                Action::Synthesize {
                    section: self.section,
                    content: self.content,
                    key: c.key.clone(),
                    text: c.text.clone(),
                    voice_id: c.voice_id,
                }
            },
            Stage::Clips => {
                let s = &self.sections[self.section];
                if self.content < s.contents.len() {
                    let c = &s.contents[self.content];
                    match s.voices.get(&c.key) {
                        Some(d) => Action::Render {
                            section: self.section,
                            content: self.content,
                            key: c.key.clone(),
                            source: s.filename.clone(),
                            text: c.text.clone(),
                            audio: copy_data(d),
                        },
                        None => Action::Stopped,
                    }
                } else {
                    proof {
                        lemma_voiced_in_order(self.current(), s.contents@.len() as int);
                    }
                    Action::JoinSection { section: self.section, clips: copy_texts(&self.clips) }
                }
            },
            Stage::Final => {
                let mut videos: Vec<String> = Vec::new();
                let mut i: usize = 0;
                assert(texts(videos@) =~= rendered_videos(self.sections@.take(0)));
                while i < self.sections.len()
                    invariant
                        self.wf(),
                        self.stage is Final,
                        i <= self.sections@.len(),
                        videos@.len() == i,
                        texts(videos@) == rendered_videos(self.sections@.take(i as int)),
                    decreases self.sections@.len() - i,
                {
                    let ghost pre = self.sections@.take(i as int);
                    assert(self.sections@.take(i + 1).drop_last() =~= pre);
                    assert(self.sections@[i as int].video is Some);
                    match &self.sections[i].video {
                        Some(v) => {
                            videos.push(v.clone());
                            assert(texts(videos@) =~= rendered_videos(pre).push(v@));
                        },
                        None => {},
                    }
                    i = i + 1;
                }
                assert(self.sections@.take(i as int) =~= self.sections@);
                Action::JoinAll { videos }
            },
            Stage::Done => Action::Finished,
            Stage::Failed => Action::Stopped,
        }
    }
    /// Takes in what the outside work reported for the last action.
    /// A stopped or finished run stays as it is; any failure stops the run
    /// with an error that names the section and content it came from.
    pub fn on_event(&mut self, ev: Event)
        requires
            old(self).wf(),
        ensures
            final(self).wf(),
            final(self).sections@.len() == old(self).sections@.len(),
            old(self).stage is Failed || old(self).stage is Done ==> *final(self) == *old(self),
            old(self).stage is Voices ==> match ev {
                Event::Voiced(d) => {
                    let sec = old(self).section as int;
                    let k = old(self).current().contents@[old(self).content as int].key@;
                    let len = old(self).current().contents@.len();
                    &&& final(self).section == old(self).section
                    &&& final(self).current().voices@ == old(self).current().voices@.insert(k, d)
                    &&& final(self).current() == Section {
                        voices: final(self).current().voices,
                        ..old(self).current()
                    }
                    &&& final(self).output == old(self).output
                    &&& forall|i: int|
                        0 <= i < old(self).sections@.len() && i != sec ==> final(self).sections@[i]
                            == old(self).sections@[i]
                    &&& old(self).content + 1 < len ==> final(self).stage is Voices
                        && final(self).content == old(self).content + 1
                    &&& old(self).content + 1 == len ==> {
                        &&& final(self).stage is Clips
                        &&& final(self).content == 0
                        &&& final(self).clips@.len() == 0
                        &&& final(self).rendered@ == Seq::<int>::empty()
                        &&& forall|j: int| 0 <= j < len ==> has_voice(final(self).current(), j)
                    }
                },
                Event::Failed(reason) => final(self).stopped_from(
                    *old(self),
                    RunError::Synthesis {
                        section: old(self).section,
                        content: old(self).content,
                        reason,
                    },
                ),
                _ => *final(self) == *old(self),
            },
            old(self).stage is Clips && old(self).content < old(self).current().contents@.len()
                ==> match ev {
                Event::Rendered(p) => {
                    &&& final(self).stage is Clips
                    &&& final(self).section == old(self).section
                    &&& final(self).sections == old(self).sections
                    &&& final(self).clips@ == old(self).clips@.push(p)
                    &&& final(self).rendered@ == old(self).rendered@.push(old(self).content as int)
                    &&& old(self).content < final(self).content
                    &&& forall|j: int|
                        old(self).content < j < final(self).content ==> !has_voice(
                            old(self).current(),
                            j,
                        )
                },
                Event::Failed(reason) => final(self).stopped_from(
                    *old(self),
                    RunError::Render {
                        section: old(self).section,
                        content: old(self).content,
                        reason,
                    },
                ),
                _ => *final(self) == *old(self),
            },
            old(self).stage is Clips && old(self).content == old(self).current().contents@.len()
                ==> match ev {
                Event::Joined(p) => {
                    let sec = old(self).section as int;
                    let n = old(self).sections@.len();
                    &&& final(self).section == old(self).section + 1
                    &&& final(self).content == 0
                    &&& final(self).output == old(self).output
                    &&& final(self).sections@[sec] == Section {
                        video: Some(p),
                        ..old(self).sections@[sec]
                    }
                    &&& forall|i: int|
                        0 <= i < n && i != sec ==> final(self).sections@[i] == old(self).sections@[i]
                    &&& sec + 1 == n ==> final(self).stage is Final
                    &&& sec + 1 < n && old(self).sections@[sec + 1].contents@.len() > 0
                        ==> final(self).stage is Voices
                    &&& sec + 1 < n && old(self).sections@[sec + 1].contents@.len() == 0
                        ==> final(self).stage is Failed && final(self).error == Some(
                        RunError::EmptyContent { section: (sec + 1) as usize },
                    )
                },
                Event::Failed(reason) => final(self).stopped_from(
                    *old(self),
                    RunError::Concat { section: old(self).section, reason },
                ),
                _ => *final(self) == *old(self),
            },
            old(self).stage is Final ==> match ev {
                Event::Joined(p) => final(self).stage is Done && final(self).output == Some(p)
                    && final(self).sections == old(self).sections,
                Event::Failed(reason) => final(self).stopped_from(
                    *old(self),
                    RunError::FinalConcat { reason },
                ),
                _ => *final(self) == *old(self),
            },
    {
        match self.stage {
            Stage::Voices => match ev {
                Event::Voiced(d) => {
                    let sec = self.section;
                    let key = self.sections[sec].contents[self.content].key.clone();
                    self.sections[sec].voices.insert(key, d);
                    let len = self.sections[sec].contents.len();
                    proof {
                        let before = old(self).current();
                        assert(self.current().contents == before.contents);
                        assert(self.current() == Section { voices: self.current().voices, ..before });
                        assert forall|j: int| 0 <= j <= self.content implies has_voice(
                            self.current(),
                            j,
                        ) by {
                            if j < self.content {
                                assert(has_voice(before, j));
                            }
                        }
                    }
                    if self.content + 1 < len {
                        self.content = self.content + 1;
                    } else {
                        self.stage = Stage::Clips;
                        self.clips = Vec::new();
                        self.rendered = Ghost(Seq::empty());
                        self.content = 0;
                    }
                },
                Event::Failed(reason) => {
                    self.error = Some(
                        RunError::Synthesis { section: self.section, content: self.content, reason },
                    );
                    self.stage = Stage::Failed;
                },
                _ => {},
            },
            Stage::Clips => {
                let len = self.sections[self.section].contents.len();
                if self.content < len {
                    match ev {
                        Event::Rendered(p) => {
                            let ghost at = self.content as int;
                            self.clips.push(p);
                            self.rendered = Ghost(self.rendered@.push(at));
                            let next = self.next_voiced(self.content + 1);
                            proof {
                                lemma_voiced_before_skip(self.current(), at + 1, next as int);
                            }
                            self.content = next;
                        },
                        Event::Failed(reason) => {
                            self.error = Some(
                                RunError::Render {
                                    section: self.section,
                                    content: self.content,
                                    reason,
                                },
                            );
                            self.stage = Stage::Failed;
                        },
                        _ => {},
                    }
                } else {
                    match ev {
                        Event::Joined(p) => {
                            let sec = self.section;
                            let n = self.sections.len();
                            assert(sec < n);
                            let next = sec + 1;
                            self.sections[sec].video = Some(p);
                            self.enter(next);
                        },
                        Event::Failed(reason) => {
                            self.error = Some(RunError::Concat { section: self.section, reason });
                            self.stage = Stage::Failed;
                        },
                        _ => {},
                    }
                }
            },
            Stage::Final => match ev {
                Event::Joined(p) => {
                    self.output = Some(p);
                    self.stage = Stage::Done;
                },
                Event::Failed(reason) => {
                    self.error = Some(RunError::FinalConcat { reason });
                    self.stage = Stage::Failed;
                },
                _ => {},
            },
            Stage::Done => {},
            Stage::Failed => {},
        }
    }
}

} // verus!
