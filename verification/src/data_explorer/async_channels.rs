//! Channels between the main thread and worker threads.
use vstd::prelude::*;

use crate::text_map::TextMap;

verus! {

/// The two ends of a channel.
#[derive(Debug)]
pub struct AsyncChannels<S, R> {
    pub tx: S,
    pub rx: R,
}

/// The channel by which tasks reach the main thread, and the channels by which results
/// reach each worker.
pub struct AsyncTaskSocket<M, W> {
    pub main: M,
    pub worker: TextMap<W>,
}

impl<M, W> AsyncTaskSocket<M, W> {
    /// A socket without workers.
    pub fn new(main: M) -> (r: Self)
        ensures
            r.main == main,
            r.worker@ == Map::<Seq<char>, W>::empty(),
    {
        Self { main, worker: TextMap::new() }
    }

    /// Gives a worker a channel, in place of the one that it had.
    pub fn new_worker_channel(&mut self, id: String, channels: W)
        ensures
            final(self).main == old(self).main,
            final(self).worker@ == old(self).worker@.insert(id@, channels),
    {
        self.worker.insert(id, channels);
    }

    /// The channel of a worker.
    pub fn get_worker_channel(&self, id: &str) -> (r: Option<&W>)
        ensures
            match r {
                Some(channels) => self.worker@.contains_key(id@) && *channels == self.worker@[id@],
                None => !self.worker@.contains_key(id@),
            },
    {
        self.worker.get(id)
    }
}

} // verus!
