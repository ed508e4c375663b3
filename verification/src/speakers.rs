//! The segmenters of all speakers, one for each.

use vstd::prelude::*;
use std::collections::HashMap;

use crate::jobs;
use crate::jobs::SourceInfo;
use crate::segmenter;
use crate::segmenter::AudioSegmenter;

verus! {

broadcast use vstd::std_specs::hash::group_hash_axioms;

/// The segmenters of the speakers, by the identifier of their client.
pub struct SpeakerSegmenters<T> {
    segmenters: HashMap<u16, AudioSegmenter<T>>,
}

impl<T> View for SpeakerSegmenters<T> {
    type V = Map<u16, segmenter::SegmenterView<T>>;

    closed spec fn view(&self) -> Map<u16, segmenter::SegmenterView<T>> {
        self.segmenters@.map_values(|s: AudioSegmenter<T>| s@)
    }
}

/// The segmenter of a speaker whose voice comes from the given source: the one
/// that there is, or a new one.
pub open spec fn segmenter_of<T>(
    segmenters: Map<u16, segmenter::SegmenterView<T>>,
    client_id: u16,
    source: jobs::SourceView,
) -> segmenter::SegmenterView<T> {
    if segmenters.dom().contains(client_id) {
        segmenter::SegmenterView { source, ..segmenters[client_id] }
    } else {
        segmenter::fresh_segmenter(source, None)
    }
}

impl<T: Copy> SpeakerSegmenters<T> {
    /// Nobody has spoken yet.
    pub fn new() -> (r: Self)
        ensures
            r@ == Map::<u16, segmenter::SegmenterView<T>>::empty(),
    {
        let r = SpeakerSegmenters { segmenters: HashMap::new() };
        assert(r@ =~= Map::<u16, segmenter::SegmenterView<T>>::empty());
        r
    }

    /// Whether the speaker has a segmenter.
    pub fn knows(&self, client_id: u16) -> (b: bool)
        ensures
            b == self@.dom().contains(client_id),
    {
        self.segmenters.contains_key(&client_id)
    }

    /// Takes out the segmenter of a speaker whose voice comes from the given
    /// source, or a new one where the speaker has none.
    pub fn take(&mut self, client_id: u16, source: SourceInfo) -> (r: AudioSegmenter<T>)
        ensures
            r@ == segmenter_of(old(self)@, client_id, source@),
            final(self)@ == old(self)@.remove(client_id),
    {
        let taken = self.segmenters.remove(&client_id);
        assert(self@ =~= old(self)@.remove(client_id));
        match taken {
            Some(mut segmenter) => {
                segmenter.set_source(source);
                segmenter
            },
            None => AudioSegmenter::new(source, None),
        }
    }

    /// Puts the segmenter of a speaker back.
    pub fn put_back(&mut self, client_id: u16, segmenter: AudioSegmenter<T>)
        ensures
            final(self)@ == old(self)@.insert(client_id, segmenter@),
    {
        let _ = self.segmenters.insert(client_id, segmenter);
        assert(self@ =~= old(self)@.insert(client_id, segmenter@));
    }

    /// Takes out the segmenter of a speaker who has ended, where there is one.
    pub fn end(&mut self, client_id: u16) -> (r: Option<AudioSegmenter<T>>)
        ensures
            match r {
                Some(s) => old(self)@.dom().contains(client_id) && s@ == old(self)@[client_id],
                None => !old(self)@.dom().contains(client_id),
            },
            final(self)@ == old(self)@.remove(client_id),
    {
        let r = self.segmenters.remove(&client_id);
        assert(self@ =~= old(self)@.remove(client_id));
        r
    }
}

/// What one speaker says does not touch the segmenter of another.
pub proof fn speakers_do_not_mix<T>(
    segmenters: Map<u16, segmenter::SegmenterView<T>>,
    client_id: u16,
    after: segmenter::SegmenterView<T>,
    other: u16,
)
    requires
        other != client_id,
    ensures
        ({
            let then = segmenters.remove(client_id).insert(client_id, after);
            &&& then.dom().contains(other) == segmenters.dom().contains(other)
            &&& segmenters.dom().contains(other) ==> then[other] == segmenters[other]
        }),
{
}

} // verus!
