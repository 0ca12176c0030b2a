//! The store: every finished recording, and the one in progress if any.

use vstd::prelude::*;

verus! {

/// The name under which a sequence of commands is stored.
pub type Tag = String;

/// A capture in progress: the tag it will be stored under and the commands
/// taken so far, oldest first.
#[derive(Debug)]
pub struct RecordingEntry {
    pub tag: Tag,
    pub data: Vec<String>,
}

/// What a [`RecordingEntry`] holds, as mathematical values.
pub struct RecordingEntryView {
    pub tag: Seq<char>,
    pub data: Seq<Seq<char>>,
}

impl View for RecordingEntry {
    type V = RecordingEntryView;

    open spec fn view(&self) -> RecordingEntryView {
        RecordingEntryView { tag: self.tag@, data: self.data.deep_view() }
    }
}

impl Default for RecordingEntry {
    fn default() -> (entry: Self)
        ensures
            entry@.tag == Seq::<char>::empty(),
            entry@.data == Seq::<Seq<char>>::empty(),
    {
        let entry = RecordingEntry { tag: String::new(), data: Vec::new() };
        assert(entry.data.deep_view() =~= Seq::<Seq<char>>::empty());
        entry
    }
}

/// `PartialEq::eq` of `str`, which std calls for `==` between string slices:
/// two slices are equal exactly when they hold the same characters in the
/// same order.
pub assume_specification[ <str as PartialEq>::eq ](a: &str, b: &str) -> (same: bool)
    ensures
        same == (a@ == b@),
;

/// The finished recordings: each tag with its commands in replay order.
///
/// No tag occurs twice. Tags are kept in the order in which they were first
/// stored; storing under a tag that is present replaces its commands in place.
#[derive(Debug)]
pub struct Recordings {
    entries: Vec<RecordingEntry>,
}

impl View for Recordings {
    type V = Map<Seq<char>, Seq<Seq<char>>>;

    closed spec fn view(&self) -> Map<Seq<char>, Seq<Seq<char>>> {
        Map::new(
            |tag: Seq<char>| self.tags().contains(tag),
            |tag: Seq<char>| self.entries@[self.tags().index_of(tag)].data.deep_view(),
        )
    }
}

impl Recordings {
    /// No tag occurs twice.
    #[verifier::type_invariant]
    spec fn tags_distinct(self) -> bool {
        forall|i: int, j: int|
            0 <= i < j < self.entries@.len() ==> self.entries@[i].tag@ != self.entries@[j].tag@
    }

    /// The stored tags, in the order in which they are listed.
    pub closed spec fn tags(&self) -> Seq<Seq<char>> {
        Seq::new(self.entries@.len(), |i: int| self.entries@[i].tag@)
    }

    /// The tags are exactly the keys of the mapping.
    pub proof fn lemma_tags_are_keys(&self)
        ensures
            forall|tag: Seq<char>| self.tags().contains(tag) <==> self@.contains_key(tag),
    {
    }

    proof fn lemma_entry(&self, i: int)
        requires
            self.tags_distinct(),
            0 <= i < self.entries@.len(),
        ensures
            self.tags()[i] == self.entries@[i].tag@,
            self@.contains_key(self.entries@[i].tag@),
            self@[self.entries@[i].tag@] == self.entries@[i].data.deep_view(),
    {
        let tag = self.entries@[i].tag@;
        assert(self.tags()[i] == tag);
        assert(self.tags().contains(tag));
        let k = self.tags().index_of(tag);
        assert(0 <= k < self.tags().len() && self.tags()[k] == tag);
        assert(k == i);
    }

    /// A store with no recording in it.
    pub fn new() -> (recordings: Self)
        ensures
            recordings@ == Map::<Seq<char>, Seq<Seq<char>>>::empty(),
            recordings.tags() == Seq::<Seq<char>>::empty(),
    {
        let recordings = Recordings { entries: Vec::new() };
        assert(recordings.tags() =~= Seq::<Seq<char>>::empty());
        assert(recordings@ =~= Map::<Seq<char>, Seq<Seq<char>>>::empty());
        recordings
    }

    fn position(&self, tag: &str) -> (found: Option<usize>)
        ensures
            match found {
                Some(i) => i < self.entries@.len() && self.entries@[i as int].tag@ == tag@,
                None => forall|i: int|
                    0 <= i < self.entries@.len() ==> self.entries@[i].tag@ != tag@,
            },
    {
        let mut i: usize = 0;
        while i < self.entries.len()
            invariant
                i <= self.entries@.len(),
                forall|k: int| 0 <= k < i ==> self.entries@[k].tag@ != tag@,
            decreases self.entries@.len() - i,
        {
            if *self.entries[i].tag.as_str() == *tag {
                return Some(i);
            }
            i = i + 1;
        }
        None
    }

    /// Whether a recording is stored under `tag`.
    pub fn contains_key(&self, tag: &str) -> (present: bool)
        ensures
            present == self@.contains_key(tag@),
    {
        proof {
            use_type_invariant(self);
        }
        match self.position(tag) {
            Some(i) => {
                proof {
                    self.lemma_entry(i as int);
                }
                true
            },
            None => {
                assert(!self.tags().contains(tag@));
                false
            },
        }
    }

    /// The commands stored under `tag`, in replay order.
    pub fn get(&self, tag: &str) -> (commands: Option<&Vec<String>>)
        ensures
            match commands {
                Some(found) => self@.contains_key(tag@) && found.deep_view() == self@[tag@],
                None => !self@.contains_key(tag@),
            },
    {
        proof {
            use_type_invariant(self);
        }
        match self.position(tag) {
            Some(i) => {
                proof {
                    self.lemma_entry(i as int);
                }
                Some(&self.entries[i].data)
            },
            None => {
                assert(!self.tags().contains(tag@));
                None
            },
        }
    }

    /// Whether no recording is stored at all.
    pub fn is_empty(&self) -> (empty: bool)
        ensures
            empty == self@.is_empty(),
            empty == (self.tags().len() == 0),
    {
        let empty = self.entries.len() == 0;
        proof {
            if empty {
                assert(self@.dom() =~= Set::<Seq<char>>::empty());
            } else {
                assert(self.tags()[0] == self.entries@[0].tag@);
                assert(self.tags().contains(self.entries@[0].tag@));
                assert(self@.dom().contains(self.entries@[0].tag@));
            }
        }
        empty
    }

    /// The number of stored recordings.
    pub fn len(&self) -> (count: usize)
        ensures
            count == self.tags().len(),
            count == self@.len(),
    {
        proof {
            use_type_invariant(self);
            self.lemma_tags_are_keys();
            assert(self.tags().to_set() =~= self@.dom());
            self.tags().unique_seq_to_set();
        }
        self.entries.len()
    }

    /// The stored recordings in the order in which they are listed, each with
    /// its tag and its commands.
    pub fn entries(&self) -> (entries: &Vec<RecordingEntry>)
        ensures
            entries@.len() == self.tags().len(),
            self.tags().no_duplicates(),
            forall|i: int|
                0 <= i < entries@.len() ==> (#[trigger] entries@[i])@.tag == self.tags()[i]
                    && self@.contains_key(self.tags()[i]) && entries@[i]@.data
                    == self@[self.tags()[i]],
    {
        proof {
            use_type_invariant(self);
            assert forall|i: int| 0 <= i < self.entries@.len() implies (
            #[trigger] self.entries@[i])@.tag == self.tags()[i] && self@.contains_key(
                self.tags()[i],
            ) && self.entries@[i]@.data == self@[self.tags()[i]] by {
                self.lemma_entry(i);
            }
        }
        &self.entries
    }

    /// The stored tags, in the order in which they are listed.
    pub fn keys(&self) -> (keys: Vec<Tag>)
        ensures
            keys.deep_view() == self.tags(),
    {
        let mut keys: Vec<Tag> = Vec::new();
        let mut i: usize = 0;
        while i < self.entries.len()
            invariant
                i <= self.entries@.len(),
                keys.deep_view() == self.tags().take(i as int),
            decreases self.entries@.len() - i,
        {
            let ghost before = keys.deep_view();
            let key = self.entries[i].tag.clone();
            assert(key@ == self.tags()[i as int]);
            keys.push(key);
            assert(keys.deep_view() =~= before.push(key@));
            i = i + 1;
            assert(keys.deep_view() =~= self.tags().take(i as int));
        }
        assert(self.tags().take(self.entries@.len() as int) =~= self.tags());
        keys
    }

    /// Stores `commands` under `tag`. What was stored under that tag before is
    /// replaced as a whole; a new tag is listed after those already present.
    pub fn insert(&mut self, tag: Tag, commands: Vec<String>)
        ensures
            final(self)@ == old(self)@.insert(tag@, commands.deep_view()),
            final(self).tags() == if old(self)@.contains_key(tag@) {
                old(self).tags()
            } else {
                old(self).tags().push(tag@)
            },
    {
        proof {
            use_type_invariant(&*self);
        }
        let ghost before = *self;
        let found = self.position(tag.as_str());
        let entry = RecordingEntry { tag, data: commands };
        let mut entries: Vec<RecordingEntry> = Vec::new();
        std::mem::swap(&mut self.entries, &mut entries);
        match found {
            Some(i) => {
                entries.set(i, entry);
                self.entries = entries;
                proof {
                    before.lemma_entry(i as int);
                    assert(self.tags() =~= before.tags());
                    assert(self.tags_distinct());
                    assert forall|t: Seq<char>| #[trigger] self@.contains_key(t) implies self@[t]
                        == before@.insert(entry@.tag, entry@.data)[t] by {
                        let k = self.tags().index_of(t);
                        assert(0 <= k < self.tags().len() && self.tags()[k] == t);
                        self.lemma_entry(k);
                        before.lemma_entry(k);
                    }
                    assert(self@ =~= before@.insert(entry@.tag, entry@.data));
                }
            },
            None => {
                entries.push(entry);
                self.entries = entries;
                proof {
                    assert(!before.tags().contains(entry@.tag));
                    assert(self.tags() =~= before.tags().push(entry@.tag));
                    assert(self.tags_distinct());
                    assert forall|t: Seq<char>| #[trigger] self@.contains_key(t) implies self@[t]
                        == before@.insert(entry@.tag, entry@.data)[t] by {
                        let k = self.tags().index_of(t);
                        assert(0 <= k < self.tags().len() && self.tags()[k] == t);
                        self.lemma_entry(k);
                        if k < before.entries@.len() {
                            before.lemma_entry(k);
                        }
                    }
                    assert forall|t: Seq<char>| before@.contains_key(t) implies #[trigger] self@.contains_key(t) by {
                        let k = before.tags().index_of(t);
                        assert(0 <= k < before.tags().len() && before.tags()[k] == t);
                        assert(self.tags()[k] == t);
                    }
                    assert(self.tags()[before.entries@.len() as int] == entry@.tag);
                    assert(self@ =~= before@.insert(entry@.tag, entry@.data));
                }
            },
        }
    }
}

impl Default for Recordings {
    fn default() -> (recordings: Self)
        ensures
            recordings@ == Map::<Seq<char>, Seq<Seq<char>>>::empty(),
            recordings.tags() == Seq::<Seq<char>>::empty(),
    {
        Recordings::new()
    }
}

/// Everything the tool keeps between two invocations.
#[derive(Debug)]
pub struct ParrotData {
    /// The capture in progress; `None` outside a recording session.
    pub current_recording: Option<RecordingEntry>,
    /// The finished recordings by tag.
    pub recordings: Recordings,
}

/// What a [`ParrotData`] holds, as mathematical values.
pub struct ParrotDataView {
    pub current_recording: Option<RecordingEntryView>,
    pub recordings: Map<Seq<char>, Seq<Seq<char>>>,
}

impl ParrotDataView {
    /// The state of a store that was never written to: no recording stored and
    /// none in progress.
    pub open spec fn empty() -> ParrotDataView {
        ParrotDataView { current_recording: None, recordings: Map::empty() }
    }

    /// Whether a recording session is active.
    pub open spec fn recording(self) -> bool {
        self.current_recording is Some
    }
}

impl View for ParrotData {
    type V = ParrotDataView;

    open spec fn view(&self) -> ParrotDataView {
        ParrotDataView {
            current_recording: match self.current_recording {
                Some(entry) => Some(entry@),
                None => None,
            },
            recordings: self.recordings@,
        }
    }
}

impl Default for ParrotData {
    fn default() -> (data: Self)
        ensures
            data@ == ParrotDataView::empty(),
            data.recordings.tags() == Seq::<Seq<char>>::empty(),
    {
        ParrotData { current_recording: None, recordings: Recordings::new() }
    }
}

} // verus!
