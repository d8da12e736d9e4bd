//! The rolling store of segments and the playlist that advertises them.

use crate::shared::SharedBytes;
use crate::text::{decimal, padded, push_decimal, push_padded, push_seconds, seconds};
use std::collections::VecDeque;
use vstd::prelude::*;
use vstd::string::StringExecFns;

verus! {

/// The number of segments the window holds at most.
pub const CAPACITY: usize = 10;

/// One segment of the window, seen mathematically.
pub struct Entry {
    pub index: u64,
    pub duration_ms: u64,
    pub content: SharedBytes,
}

/// The store, seen mathematically: the last index given out and the window,
/// oldest segment first.
pub struct Store {
    pub last_index: u64,
    pub window: Seq<Entry>,
}

impl Store {
    /// The store before any segment was added.
    pub open spec fn empty() -> Store {
        Store { last_index: 0, window: Seq::empty() }
    }

    /// The window holds the segments added most recently, as many as fit, in
    /// the order of their indices.
    pub open spec fn wf(self) -> bool {
        &&& self.window.len() == if self.last_index <= CAPACITY {
            self.last_index as nat
        } else {
            CAPACITY as nat
        }
        &&& forall|i: int|
            0 <= i < self.window.len() ==> (#[trigger] self.window[i]).index == self.last_index
                - self.window.len() + 1 + i
    }

    /// The store after one more segment: it gets the next index and goes to
    /// the back, and the front gives way while the window is over capacity.
    pub open spec fn add(self, duration_ms: u64, content: SharedBytes) -> Store {
        let index = (self.last_index + 1) as u64;
        let grown = self.window.push(Entry { index, duration_ms, content });
        Store {
            last_index: index,
            window: if grown.len() > CAPACITY {
                grown.subrange(grown.len() - CAPACITY, grown.len() as int)
            } else {
                grown
            },
        }
    }

    /// The content of the first segment at or after position `start` that
    /// has this index, if there is one.
    pub open spec fn find_from(self, index: u64, start: int) -> Option<SharedBytes>
        decreases self.window.len() - start,
    {
        if start < 0 || start >= self.window.len() {
            None
        } else if self.window[start].index == index {
            Some(self.window[start].content)
        } else {
            self.find_from(index, start + 1)
        }
    }

    /// The content of the oldest segment of the window that has this index.
    pub open spec fn find(self, index: u64) -> Option<SharedBytes> {
        self.find_from(index, 0)
    }

    /// The number a playlist announces as its media sequence: the index of
    /// the second-oldest segment, 0 where the window holds fewer than two.
    pub open spec fn media_sequence(self) -> u64 {
        if self.window.len() >= 2 {
            self.window[1].index
        } else {
            0
        }
    }
}

/// The lines of a playlist that come before the media sequence number.
pub open spec fn playlist_head() -> Seq<char> {
    "#EXTM3U\n#EXT-X-VERSION:6\n#EXT-X-TARGETDURATION:1\n#EXT-X-START:TIME-OFFSET=-1.05,PRECISE=YES\n#EXT-X-MEDIA-SEQUENCE:"@
}

/// The file name under which a segment is advertised: its index in at least
/// nine digits between `segment` and `.ts`.
pub open spec fn segment_name(index: u64) -> Seq<char> {
    "segment"@ + padded(index as nat, 9) + ".ts"@
}

/// The two lines of a playlist that announce one segment: its duration in
/// seconds, and its file name.
pub open spec fn playlist_entry(entry: Entry) -> Seq<char> {
    "#EXTINF:"@ + seconds(entry.duration_ms as nat) + ",\n"@ + segment_name(entry.index) + "\n"@
}

/// The lines that announce the segments of `window`, oldest first.
pub open spec fn playlist_entries(window: Seq<Entry>) -> Seq<char>
    decreases window.len(),
{
    if window.len() == 0 {
        Seq::empty()
    } else {
        playlist_entries(window.drop_last()) + playlist_entry(window.last())
    }
}

/// The playlist of a store: the fixed head, the media sequence number, an
/// empty line, and the lines of every segment of the window.
pub open spec fn playlist(store: Store) -> Seq<char> {
    playlist_head() + decimal(store.media_sequence() as nat) + "\n\n"@ + playlist_entries(
        store.window,
    )
}

/// One call of `add_new_segment`: the nominal duration and the buffer given.
pub struct Addition {
    pub duration_ms: u64,
    pub content: SharedBytes,
}

/// The store after the given additions, made to an empty store in order.
pub open spec fn after_additions(additions: Seq<Addition>) -> Store
    decreases additions.len(),
{
    if additions.len() == 0 {
        Store::empty()
    } else {
        after_additions(additions.drop_last()).add(
            additions.last().duration_ms,
            additions.last().content,
        )
    }
}

/// Adding a segment keeps a store well formed: the window stays within its
/// capacity, and the new segment is its newest.
pub proof fn lemma_add_keeps_wf(store: Store, duration_ms: u64, content: SharedBytes)
    requires
        store.wf(),
        store.last_index < u64::MAX,
    ensures
        store.add(duration_ms, content).wf(),
        store.add(duration_ms, content).window.len() <= CAPACITY,
        store.add(duration_ms, content).window.last() == (Entry {
            index: (store.last_index + 1) as u64,
            duration_ms,
            content,
        }),
{
}

/// After any sequence of additions the window holds exactly the segments
/// added last, at most ten of them, oldest first: the segment at position
/// `i` is the one added by the call number `n - len + 1 + i` of `n`, with
/// that number as its index.
pub proof fn lemma_window_holds_latest(additions: Seq<Addition>)
    requires
        additions.len() <= u64::MAX,
    ensures
        after_additions(additions).wf(),
        after_additions(additions).last_index == additions.len(),
        after_additions(additions).window.len() <= CAPACITY,
        after_additions(additions).window.len() <= additions.len(),
        forall|i: int|
            #![trigger after_additions(additions).window[i]]
            0 <= i < after_additions(additions).window.len() ==> {
                let window = after_additions(additions).window;
                let call = additions.len() - window.len() + i;
                &&& window[i].index == call + 1
                &&& window[i].duration_ms == additions[call].duration_ms
                &&& window[i].content == additions[call].content
            },
    decreases additions.len(),
{
    if additions.len() > 0 {
        let earlier = additions.drop_last();
        lemma_window_holds_latest(earlier);
        let before = after_additions(earlier);
        lemma_add_keeps_wf(before, additions.last().duration_ms, additions.last().content);
        let now = after_additions(additions);
        assert forall|i: int| 0 <= i < now.window.len() implies {
            let call = additions.len() - now.window.len() + i;
            &&& (#[trigger] now.window[i]).index == call + 1
            &&& now.window[i].duration_ms == additions[call].duration_ms
            &&& now.window[i].content == additions[call].content
        } by {
            let call = additions.len() - now.window.len() + i;
            if i < now.window.len() - 1 {
                let shift = before.window.len() + 1 - now.window.len();
                assert(now.window[i] == before.window[i + shift]);
                assert(earlier[call] == additions[call]);
            }
        }
    }
}

/// In a well-formed store the media sequence is the index that follows the
/// oldest segment's, and 0 where the window holds fewer than two segments.
pub proof fn lemma_media_sequence(store: Store)
    requires
        store.wf(),
    ensures
        store.window.len() <= 1 ==> store.media_sequence() == 0,
        store.window.len() >= 2 ==> store.media_sequence() == store.window[0].index + 1,
        store.window.len() >= 2 ==> store.media_sequence() == store.last_index
            - store.window.len() + 2,
{
}

/// In a well-formed store a segment is found exactly while its index is
/// among those of the window, and then at the position its index gives.
pub proof fn lemma_find(store: Store, index: u64)
    requires
        store.wf(),
    ensures
        store.find(index) is Some <==> store.last_index - store.window.len() < index
            <= store.last_index,
        store.find(index) is Some ==> store.find(index) == Some(
            store.window[index - (store.last_index - store.window.len() + 1)].content,
        ),
{
    lemma_find_from(store, index, 0);
}

proof fn lemma_find_from(store: Store, index: u64, start: int)
    requires
        store.wf(),
        0 <= start <= store.window.len(),
    ensures
        store.find_from(index, start) is Some <==> store.last_index - store.window.len() + start
            < index <= store.last_index,
        store.find_from(index, start) is Some ==> store.find_from(index, start) == Some(
            store.window[index - (store.last_index - store.window.len() + 1)].content,
        ),
    decreases store.window.len() - start,
{
    if start < store.window.len() {
        assert(store.window[start].index == store.last_index - store.window.len() + 1 + start);
        if store.window[start].index != index {
            lemma_find_from(store, index, start + 1);
        }
    }
}

/// One segment of the window: its index, its nominal duration, and the
/// buffer that holds its bytes and is shared with the segment's writer and
/// readers.
pub struct Segment {
    index: u64,
    duration_ms: u64,
    bytes: SharedBytes,
}

impl View for Segment {
    type V = Entry;

    closed spec fn view(&self) -> Entry {
        Entry { index: self.index, duration_ms: self.duration_ms, content: self.bytes }
    }
}

/// The rolling store: the segments of the window, oldest first, and the last
/// index given out.
pub struct Hls {
    last_index: u64,
    segments: VecDeque<Segment>,
}

impl View for Hls {
    type V = Store;

    closed spec fn view(&self) -> Store {
        Store { last_index: self.last_index, window: self.segments@.map_values(|s: Segment| s@) }
    }
}

impl Hls {
    /// A store with no segment, which has given out no index yet.
    pub fn new() -> (r: Hls)
        ensures
            r@ == Store::empty(),
            r@.wf(),
    {
        let r = Hls { last_index: 0, segments: VecDeque::new() };
        assert(r@.window =~= Seq::empty());
        r
    }

    /// Adds a segment backed by `bytes` and returns the index it was given.
    pub fn add_new_segment(&mut self, duration_ms: u64, bytes: SharedBytes) -> (index: u64)
        requires
            old(self)@.wf(),
            old(self)@.last_index < u64::MAX,
        ensures
            final(self)@ == old(self)@.add(duration_ms, bytes),
            final(self)@.wf(),
            index == old(self)@.last_index + 1,
    {
        let ghost before = self@;
        self.last_index += 1;
        self.segments.push_back(
            Segment { index: self.last_index, bytes: bytes, duration_ms: duration_ms },
        );
        let ghost grown = before.window.push(
            Entry { index: self.last_index, duration_ms, content: bytes },
        );
        assert(self@.window =~= grown);
        while self.segments.len() > CAPACITY
            invariant
                self.last_index == before.last_index + 1,
                grown.len() <= CAPACITY + 1,
                self.segments.len() <= grown.len(),
                self.segments.len() >= CAPACITY || self.segments.len() == grown.len(),
                self@.window == grown.subrange(
                    grown.len() - self.segments.len(),
                    grown.len() as int,
                ),
            decreases self.segments.len(),
        {
            let ghost prior = self@.window;
            self.segments.pop_front();
            assert(self@.window =~= prior.subrange(1, prior.len() as int));
            assert(self@.window =~= grown.subrange(
                grown.len() - self.segments.len(),
                grown.len() as int,
            ));
        }
        assert(self@.window =~= before.add(duration_ms, bytes).window);
        self.last_index
    }

    /// The number of segments in the window.
    pub fn len(&self) -> (r: usize)
        ensures
            r == self@.window.len(),
    {
        self.segments.len()
    }

    /// Whether one more segment can be added: an index is left to give out.
    pub fn has_room(&self) -> (r: bool)
        ensures
            r == (self@.last_index < u64::MAX),
    {
        self.last_index < u64::MAX
    }

    /// The number the playlist announces as its media sequence.
    pub fn media_sequence(&self) -> (r: u64)
        ensures
            r == self@.media_sequence(),
    {
        if self.segments.len() >= 2 {
            self.segments[1].index
        } else {
            0
        }
    }

    /// The playlist that advertises the window.
    pub fn generate_playlist(&self) -> (r: String)
        ensures
            r@ == playlist(self@),
    {
        let mut playlist = String::from_str(
            "#EXTM3U\n#EXT-X-VERSION:6\n#EXT-X-TARGETDURATION:1\n#EXT-X-START:TIME-OFFSET=-1.05,PRECISE=YES\n#EXT-X-MEDIA-SEQUENCE:",
        );
        push_decimal(&mut playlist, self.media_sequence());
        playlist.append("\n\n");
        let ghost top = playlist@;
        let mut i: usize = 0;
        while i < self.segments.len()
            invariant
                i <= self.segments.len(),
                playlist@ == top + playlist_entries(self@.window.subrange(0, i as int)),
            decreases self.segments.len() - i,
        {
            assert(self@.window.subrange(0, i + 1).drop_last() =~= self@.window.subrange(
                0,
                i as int,
            ));
            let ghost held = playlist@;
            let segment = &self.segments[i];
            playlist.append("#EXTINF:");
            push_seconds(&mut playlist, segment.duration_ms);
            playlist.append(",\n");
            playlist.append("segment");
            push_padded(&mut playlist, segment.index, 9);
            playlist.append(".ts");
            playlist.append("\n");
            assert(playlist@ =~= held + playlist_entry(self@.window[i as int]));
            i += 1;
        }
        assert(self@.window.subrange(0, i as int) =~= self@.window);
        playlist
    }

    /// The buffer of the segment with this index; `None` where the window
    /// holds no such segment, because it was evicted or never existed.
    pub fn read_segment(&self, index: u64) -> (r: Option<SharedBytes>)
        ensures
            r == self@.find(index),
    {
        let mut i: usize = 0;
        while i < self.segments.len()
            invariant
                i <= self.segments.len(),
                self@.find(index) == self@.find_from(index, i as int),
            decreases self.segments.len() - i,
        {
            if self.segments[i].index == index {
                return Some(self.segments[i].bytes.clone());
            }
            i += 1;
        }
        None
    }
}

} // verus!
