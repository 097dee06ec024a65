use vstd::prelude::*;

verus! {

/// Samples per second of the audio that the synthesis service returns.
pub const SAMPLE_RATE: u64 = 48000;

/// Play length in milliseconds of an audio payload of `len` samples.
pub open spec fn duration_ms_of(len: nat) -> int {
    (len as int * 1000) / (SAMPLE_RATE as int)
}

/// One synthesized audio file: the voice used, where it lies, how long it plays.
pub struct Data {
    pub voice_id: Option<i32>,
    pub filepath: String,
    pub duration_ms: i64,
}

/// The voice that synthesis uses: the line's own, else the configured default.
pub open spec fn voice_or(voice_id: Option<i32>, default_voice_id: i32) -> i32 {
    match voice_id {
        Some(v) => v,
        None => default_voice_id,
    }
}

impl Data {
    /// Audio not yet synthesized, to be written at `outputpath`.
    pub fn new(voice_id: Option<i32>, outputpath: &str) -> (r: Data)
        ensures
            r.voice_id == voice_id,
            r.filepath@ == outputpath@,
            r.duration_ms == 0,
    {
        Data { voice_id, filepath: outputpath.to_string(), duration_ms: 0 }
    }

    /// The speaker to ask the synthesis service for.
    pub fn speaker(&self, default_voice_id: i32) -> (r: i32)
        ensures
            r == voice_or(self.voice_id, default_voice_id),
    {
        match self.voice_id {
            Some(v) => v,
            None => default_voice_id,
        }
    }

    /// Records the play length of the synthesized payload of `payload_len`
    /// samples, and returns a copy of the completed record.
    pub fn create_voice(&mut self, payload_len: usize) -> (r: Data)
        ensures
            final(self).voice_id == old(self).voice_id,
            final(self).filepath@ == old(self).filepath@,
            final(self).duration_ms == duration_ms_of(payload_len as nat),
            r.voice_id == final(self).voice_id,
            r.filepath@ == final(self).filepath@,
            r.duration_ms == final(self).duration_ms,
    {
        let ms: u64 = (payload_len as u64) / (SAMPLE_RATE / 1000);
        assert((payload_len as int * 1000) / 48000 == payload_len as int / 48) by (nonlinear_arith);
        self.duration_ms = ms as i64;
        Data { voice_id: self.voice_id, filepath: self.filepath.clone(), duration_ms: self.duration_ms }
    }
}

/// The map that a list of (key, audio) entries stands for: a later entry
/// for a key replaces an earlier one.
pub open spec fn entries_map(s: Seq<(String, Data)>) -> Map<Seq<char>, Data>
    decreases s.len(),
{
    if s.len() == 0 {
        Map::empty()
    } else {
        entries_map(s.drop_last()).insert(s.last().0@, s.last().1)
    }
}

/// Synthesized audio by content key.
pub struct VoiceTable {
    pub entries: Vec<(String, Data)>,
}

impl View for VoiceTable {
    type V = Map<Seq<char>, Data>;

    open spec fn view(&self) -> Map<Seq<char>, Data> {
        entries_map(self.entries@)
    }
}

proof fn lemma_entries_map_skip(s: Seq<(String, Data)>, i: int, k: Seq<char>)
    requires
        0 <= i <= s.len(),
        forall|j: int| i <= j < s.len() ==> (#[trigger] s[j]).0@ != k,
    ensures
        entries_map(s).contains_key(k) == entries_map(s.take(i)).contains_key(k),
        entries_map(s)[k] == entries_map(s.take(i))[k],
    decreases s.len() - i,
{
    if i < s.len() {
        lemma_entries_map_skip(s, i + 1, k);
        assert(s.take(i + 1).drop_last() =~= s.take(i));
        assert(s.take(i + 1).last() == s[i]);
    } else {
        assert(s.take(i) =~= s);
    }
}

impl VoiceTable {
    pub fn new() -> (r: VoiceTable)
        ensures
            r@ == Map::<Seq<char>, Data>::empty(),
    {
        VoiceTable { entries: Vec::new() }
    }

    /// Records `data` under `key`, replacing what was there.
    pub fn insert(&mut self, key: String, data: Data)
        ensures
            final(self)@ == old(self)@.insert(key@, data),
    {
        self.entries.push((key, data));
        assert(self.entries@.drop_last() =~= old(self).entries@);
    }

    /// The audio recorded under `key`, if any.
    pub fn get(&self, key: &String) -> (r: Option<&Data>)
        ensures
            match r {
                Some(d) => self@.contains_key(key@) && self@[key@] == *d,
                None => !self@.contains_key(key@),
            },
    {
        let mut i: usize = self.entries.len();
        while i > 0
            invariant
                i <= self.entries@.len(),
                forall|j: int| i <= j < self.entries@.len() ==> (#[trigger] self.entries@[j]).0@ != key@,
            decreases i,
        {
            if self.entries[i - 1].0 == *key {
                proof {
                    lemma_entries_map_skip(self.entries@, i as int, key@);
                    let t = self.entries@.take(i as int);
                    assert(t.drop_last() =~= self.entries@.take(i - 1));
                    assert(t.last() == self.entries@[i - 1]);
                }
                return Some(&self.entries[i - 1].1);
            }
            i = i - 1;
        }
        proof {
            lemma_entries_map_skip(self.entries@, 0, key@);
            assert(self.entries@.take(0) =~= Seq::<(String, Data)>::empty());
        }
        None
    }
}

} // verus!
