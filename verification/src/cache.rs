//! The memo of render pipelines that text renderers share.
//!
//! A pipeline is made for a pixel format and a sample count, and made once.
//! The pipelines themselves belong to the graphics device; this memo knows
//! which have been made and in which order.

use vstd::prelude::*;

verus! {

/// What a pipeline is made for: the code of the pixel format of the render
/// target, and the number of samples per pixel.
pub type PipelineKey = (usize, usize);

/// `index` is the position of the first of `keys` that equals `key`.
pub open spec fn is_first_position(keys: Seq<PipelineKey>, key: PipelineKey, index: int) -> bool {
    &&& 0 <= index < keys.len()
    &&& keys[index] == key
    &&& forall|j: int| 0 <= j < index ==> keys[j] != key
}

/// Where a pipeline stands among the pipelines that were made.
#[derive(Debug, Clone, Copy, PartialEq, Eq, Structural)]
pub struct PipelineSlot {
    /// The position of the pipeline, counting from the first that was made.
    pub index: usize,
    /// The pipeline has not been made yet: the caller makes it now and
    /// keeps it at `index`.
    pub created: bool,
}

/// A cache to share common resources (the render pipelines) between several
/// text renderers.
#[derive(Debug)]
pub struct Cache {
    keys: Vec<PipelineKey>,
}

impl View for Cache {
    type V = Seq<PipelineKey>;

    closed spec fn view(&self) -> Seq<PipelineKey> {
        self.keys@
    }
}

impl Cache {
    /// No pipeline was made twice.
    pub open spec fn wf(&self) -> bool {
        self@.no_duplicates()
    }

    /// Creates a new `Cache`, in which no pipeline is known.
    pub fn new() -> (cache: Cache)
        ensures
            cache@ == Seq::<PipelineKey>::empty(),
            cache.wf(),
    {
        Cache { keys: Vec::new() }
    }

    /// The position of the pipeline for a pixel format and a sample count,
    /// if it has been made.
    pub fn find(&self, format: usize, sample_count: usize) -> (found: Option<usize>)
        ensures
            match found {
                Some(index) => is_first_position(self@, (format, sample_count), index as int),
                None => !self@.contains((format, sample_count)),
            },
    {
        let mut i: usize = 0;
        while i < self.keys.len()
            invariant
                i <= self.keys.len(),
                forall|j: int| 0 <= j < i ==> self.keys@[j] != (format, sample_count),
            decreases self.keys.len() - i,
        {
            let (fmt, count) = self.keys[i];
            if fmt == format && count == sample_count {
                return Some(i);
            }
            i += 1;
        }
        None
    }

    /// The position of the pipeline for a pixel format and a sample count.
    /// A pipeline that has not been made yet gets the next free position
    /// and is reported as `created`; any later request for it finds it
    /// there.
    pub fn get_or_create_pipeline(&mut self, format: usize, sample_count: usize) -> (slot:
        PipelineSlot)
        ensures
            old(self).wf() ==> final(self).wf(),
            slot.created == !old(self)@.contains((format, sample_count)),
            slot.created ==> final(self)@ == old(self)@.push((format, sample_count)),
            !slot.created ==> final(self)@ == old(self)@,
            is_first_position(final(self)@, (format, sample_count), slot.index as int),
    {
        match self.find(format, sample_count) {
            Some(index) => PipelineSlot { index, created: false },
            None => {
                let index = self.keys.len();
                self.keys.push((format, sample_count));
                PipelineSlot { index, created: true }
            },
        }
    }

    /// The number of pipelines that were made.
    pub fn len(&self) -> (n: usize)
        ensures
            n == self@.len(),
    {
        self.keys.len()
    }
}

} // verus!
