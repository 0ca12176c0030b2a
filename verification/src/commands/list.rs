//! Listing: every stored recording with its commands, numbered.

use crate::structure::ParrotData;
use vstd::prelude::*;

verus! {

/// One line of the listing.
#[derive(Debug, PartialEq, Eq)]
pub enum ListLine {
    /// The heading of a recording: its tag.
    Tag(String),
    /// A command of the recording under the last heading, with its number;
    /// the first command of a recording has number 1.
    Entry(usize, String),
}

/// A [`ListLine`] as mathematical values.
pub enum ListLineView {
    Tag(Seq<char>),
    Entry(nat, Seq<char>),
}

impl View for ListLine {
    type V = ListLineView;

    open spec fn view(&self) -> ListLineView {
        match self {
            ListLine::Tag(tag) => ListLineView::Tag(tag@),
            ListLine::Entry(number, command) => ListLineView::Entry(*number as nat, command@),
        }
    }
}

impl DeepView for ListLine {
    type V = ListLineView;

    open spec fn deep_view(&self) -> ListLineView {
        self@
    }
}

/// The commands of one recording as lines of the listing, numbered from 1.
pub open spec fn numbered(commands: Seq<Seq<char>>) -> Seq<ListLineView> {
    Seq::new(commands.len(), |i: int| ListLineView::Entry((i + 1) as nat, commands[i]))
}

/// The listing of the recordings under `tags`, in that order: for each tag
/// its heading, then its commands, numbered.
pub open spec fn listing(
    tags: Seq<Seq<char>>,
    recordings: Map<Seq<char>, Seq<Seq<char>>>,
) -> Seq<ListLineView>
    decreases tags.len(),
{
    if tags.len() == 0 {
        Seq::empty()
    } else {
        listing(tags.drop_last(), recordings) + seq![ListLineView::Tag(tags.last())] + numbered(
            recordings[tags.last()],
        )
    }
}

/// The listing of everything stored: each tag, in the order in which the
/// tags are kept, followed by its commands in replay order, numbered from 1.
/// Nothing is changed.
pub fn run(data: &ParrotData) -> (lines: Vec<ListLine>)
    ensures
        lines.deep_view() == listing(data.recordings.tags(), data@.recordings),
{
    let entries = data.recordings.entries();
    let ghost tags = data.recordings.tags();
    let ghost recordings = data@.recordings;
    let mut lines: Vec<ListLine> = Vec::new();
    let mut i: usize = 0;
    assert(lines.deep_view() =~= listing(tags.take(0), recordings));
    while i < entries.len()
        invariant
            i <= entries@.len(),
            entries@.len() == tags.len(),
            forall|k: int|
                0 <= k < entries@.len() ==> (#[trigger] entries@[k])@.tag == tags[k]
                    && entries@[k]@.data == recordings[tags[k]],
            lines.deep_view() == listing(tags.take(i as int), recordings),
        decreases entries@.len() - i,
    {
        let entry = &entries[i];
        let ghost done = lines.deep_view();
        lines.push(ListLine::Tag(entry.tag.clone()));
        let ghost heading = lines.deep_view();
        assert(heading =~= done + seq![ListLineView::Tag(tags[i as int])]);
        let mut j: usize = 0;
        while j < entry.data.len()
            invariant
                j <= entry.data@.len(),
                lines.deep_view() == heading + numbered(entry@.data).take(j as int),
            decreases entry.data@.len() - j,
        {
            let ghost so_far = lines.deep_view();
            lines.push(ListLine::Entry(j + 1, entry.data[j].clone()));
            assert(lines.deep_view() =~= so_far.push(numbered(entry@.data)[j as int]));
            j = j + 1;
            assert(lines.deep_view() =~= heading + numbered(entry@.data).take(j as int));
        }
        proof {
            assert(numbered(entry@.data).take(entry.data@.len() as int) =~= numbered(
                entry@.data,
            ));
            let next = tags.take(i + 1);
            assert(next.drop_last() =~= tags.take(i as int));
            assert(next.last() == tags[i as int]);
        }
        i = i + 1;
    }
    assert(tags.take(tags.len() as int) =~= tags);
    lines
}

} // verus!
