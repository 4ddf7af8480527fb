//! An audio stream held in memory, cut into chunks of samples.

use vstd::prelude::*;

verus! {

/// An audio stream held in memory: its samples, in the order in which
/// they play, and the number of samples per second.
#[derive(Debug)]
pub struct MockAudioStream<T> {
    pub data: Vec<T>,
    pub sample_rate: u32,
}

/// The first `n` items of `data`, or all of them where there are fewer.
pub open spec fn first_n<T>(data: Seq<T>, n: nat) -> Seq<T> {
    if n <= data.len() {
        data.subrange(0, n as int)
    } else {
        data
    }
}

impl<T: Copy> MockAudioStream<T> {
    /// A stream of these samples at this rate.
    pub fn new(data: Vec<T>, sample_rate: u32) -> (stream: Self)
        ensures
            stream.data == data,
            stream.sample_rate == sample_rate,
    {
        MockAudioStream { data, sample_rate }
    }

    /// The first `n` samples; all samples where the stream holds fewer.
    pub fn get_first_n_samples(&self, n: usize) -> (chunk: Vec<T>)
        ensures
            chunk@ == first_n(self.data@, n as nat),
    {
        let available = self.data.len();
        let chunk_size = if n < available {
            n
        } else {
            available
        };
        let mut chunk: Vec<T> = Vec::new();
        let mut i: usize = 0;
        while i < chunk_size
            invariant
                i <= chunk_size <= self.data.len(),
                chunk@ == self.data@.subrange(0, i as int),
            decreases chunk_size - i,
        {
            chunk.push(self.data[i]);
            i += 1;
            assert(chunk@ =~= self.data@.subrange(0, i as int));
        }
        assert(self.data@.subrange(0, self.data.len() as int) =~= self.data@);
        chunk
    }
}

} // verus!
