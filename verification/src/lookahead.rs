//! A checkpointable cursor over a character stream. A parser may scan ahead,
//! save its position, rewind, and re-read, while every upstream item is
//! pulled into the cache at most once and nothing already pulled is lost on
//! a failed parse.

use vstd::prelude::*;

verus! {

/// Owns the already-pulled items (the cache) and the upstream items that
/// have not been pulled yet.
pub struct SaveStateIterContainer<V> {
    cache: Vec<V>,
    items: Vec<V>,
    items_pos: usize,
}

/// A read position inside a [`SaveStateIterContainer`]. Verus keeps no
/// mutable reference inside a struct, so every operation that touches the
/// stream takes the container as an explicit argument.
pub struct SaveStateInnerIter {
    current_index: usize,
}

/// An opaque checkpoint: the read offset at the moment it was saved.
pub struct SaveState(usize);

impl SaveState {
    pub closed spec fn index_spec(&self) -> usize {
        self.0
    }
}

impl SaveStateInnerIter {
    pub closed spec fn index_spec(&self) -> usize {
        self.current_index
    }
}

impl<V: Copy> SaveStateIterContainer<V> {
    pub closed spec fn cache_spec(&self) -> Seq<V> {
        self.cache@
    }

    /// The upstream items that have not been pulled yet.
    pub closed spec fn upstream_spec(&self) -> Seq<V> {
        if self.items_pos as int <= self.items@.len() {
            self.items@.skip(self.items_pos as int)
        } else {
            Seq::<V>::empty()
        }
    }

    /// Everything a reader positioned at the front of the cache can still
    /// see: the cache followed by the unpulled upstream.
    pub open spec fn stream_spec(&self) -> Seq<V> {
        self.cache_spec() + self.upstream_spec()
    }

    /// A copy of the cached items `from..to`; because the cache is a prefix
    /// of the stream, this is the stream's slice over the same range.
    pub fn cache_slice(&self, from: usize, to: usize) -> (r: Vec<V>)
        requires
            from <= to <= self.cache_spec().len(),
        ensures
            r@ == self.cache_spec().subrange(from as int, to as int),
    {
        let mut out: Vec<V> = Vec::new();
        let mut i: usize = from;

        while i < to
            invariant
                from <= i <= to <= self.cache@.len(),
                out@ =~= self.cache@.subrange(from as int, i as int),
            decreases to - i,
        {
            out.push(self.cache[i]);
            i = i + 1;
        }

        out
    }

    pub fn new(items: Vec<V>) -> (r: Self)
        ensures
            r.cache_spec() =~= Seq::<V>::empty(),
            r.stream_spec() =~= items@,
    {
        SaveStateIterContainer { cache: Vec::new(), items, items_pos: 0 }
    }

    /// A fresh cursor at the front of the cache.
    pub fn iter(&self) -> (r: SaveStateInnerIter)
        ensures
            r.index_spec() == 0,
    {
        SaveStateInnerIter { current_index: 0 }
    }
}

impl SaveStateInnerIter {
    /// Returns the item under the cursor without advancing and without
    /// changing the container.
    pub fn peek<V: Copy>(&self, container: &SaveStateIterContainer<V>) -> (r: Option<V>)
        requires
            self.index_spec() <= container.cache_spec().len(),
        ensures
            r == if self.index_spec() < container.stream_spec().len() {
                Some(container.stream_spec()[self.index_spec() as int])
            } else {
                None::<V>
            },
    {
        if self.current_index < container.cache.len() {
            Some(container.cache[self.current_index])
        } else if container.items_pos < container.items.len() {
            Some(container.items[container.items_pos])
        } else {
            None
        }
    }

    /// Returns the item under the cursor and advances past it, pulling it
    /// from upstream into the cache if it was never read before. The visible
    /// stream itself never changes.
    pub fn next<V: Copy>(&mut self, container: &mut SaveStateIterContainer<V>) -> (r: Option<V>)
        requires
            old(self).index_spec() <= old(container).cache_spec().len(),
        ensures
            final(container).stream_spec() == old(container).stream_spec(),
            final(self).index_spec() <= final(container).cache_spec().len(),
            if old(self).index_spec() < old(container).stream_spec().len() {
                r == Some(old(container).stream_spec()[old(self).index_spec() as int])
                    && final(self).index_spec() == old(self).index_spec() + 1
            } else {
                r == None::<V> && final(self).index_spec() == old(self).index_spec()
            },
            final(container).cache_spec() == old(container).stream_spec().take(
                final(container).cache_spec().len() as int,
            ),
            final(container).cache_spec().len() == if old(self).index_spec()
                < old(container).cache_spec().len() {
                old(container).cache_spec().len()
            } else if old(self).index_spec() < old(container).stream_spec().len() {
                old(container).cache_spec().len() + 1
            } else {
                old(container).cache_spec().len()
            },
    {
        proof {
            assert(old(container).cache_spec() =~= old(container).stream_spec().take(
                old(container).cache_spec().len() as int,
            ));
        }
        if self.current_index < container.cache.len() {
            let item = container.cache[self.current_index];
            self.current_index = self.current_index + 1;
            proof {
                assert(old(container).stream_spec()[old(self).index_spec() as int] == old(
                    container,
                ).cache_spec()[old(self).index_spec() as int]);
            }
            Some(item)
        } else if container.items_pos < container.items.len() {
            let item = container.items[container.items_pos];
            container.cache.push(item);
            container.items_pos = container.items_pos + 1;
            self.current_index = container.cache.len();
            proof {
                assert(old(container).upstream_spec()[0] == old(container).items@[old(
                    container,
                ).items_pos as int]);
                assert(old(container).stream_spec()[old(self).index_spec() as int] == old(
                    container,
                ).upstream_spec()[0]);
                assert(final(container).stream_spec() =~= old(container).stream_spec());
                assert(final(container).cache_spec() =~= old(container).stream_spec().take(
                    final(container).cache_spec().len() as int,
                ));
            }
            Some(item)
        } else {
            proof {
                assert(final(container).cache_spec() =~= old(container).stream_spec().take(
                    final(container).cache_spec().len() as int,
                ));
            }
            None
        }
    }

    /// The current read offset.
    pub fn index(&self) -> (r: usize)
        ensures
            r == self.index_spec(),
    {
        self.current_index
    }

    /// Saves the current read offset as a checkpoint.
    pub fn save_state(&self) -> (r: SaveState)
        ensures
            r.index_spec() == self.index_spec(),
    {
        SaveState(self.current_index)
    }

    /// Rewinds (or forwards) the cursor to a checkpoint without discarding
    /// the cache, so the same items can be re-read.
    pub fn load_state(&mut self, value: SaveState)
        ensures
            final(self).index_spec() == value.index_spec(),
    {
        self.current_index = value.0;
    }

    /// Commits the parse: every cached item strictly before the cursor is
    /// permanently dropped, reclaiming the cache once a parse has moved past
    /// a prefix. The cursor is consumed; the container's stream afterwards
    /// starts at what the cursor had not yet read.
    pub fn save_and_finish<V: Copy>(self, container: &mut SaveStateIterContainer<V>)
        requires
            self.index_spec() <= old(container).cache_spec().len(),
        ensures
            final(container).stream_spec() == old(container).stream_spec().skip(
                self.index_spec() as int,
            ),
            final(container).cache_spec() == old(container).cache_spec().skip(
                self.index_spec() as int,
            ),
    {
        let mut kept: Vec<V> = Vec::new();
        let mut i: usize = self.current_index;

        while i < container.cache.len()
            invariant
                self.index_spec() <= i <= container.cache.len(),
                kept@ =~= container.cache@.subrange(self.index_spec() as int, i as int),
            decreases container.cache.len() - i,
        {
            kept.push(container.cache[i]);
            i = i + 1;
        }

        container.cache = kept;
        proof {
            assert(final(container).cache_spec() =~= old(container).cache_spec().skip(
                self.index_spec() as int,
            ));
            assert(final(container).stream_spec() =~= old(container).stream_spec().skip(
                self.index_spec() as int,
            ));
        }
    }
}

} // verus!
