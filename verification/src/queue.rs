use vstd::prelude::*;
use crate::playable::Playable;
use crate::rng::{random_index, shuffle_indices};
use crate::worker::PlayerEvent;

verus! {

/// Repeat behavior for the [`Queue`].
#[derive(Clone, Copy, PartialEq, Eq, Structural, Debug)]
pub enum RepeatSetting {
    /// Playback stops at the end of the queue.
    Off,
    /// The whole queue wraps around.
    RepeatPlaylist,
    /// The current item is replayed.
    RepeatTrack,
}

/// Events that are specific to the [`Queue`].
#[derive(Clone, Copy, PartialEq, Eq, Structural, Debug)]
pub enum QueueEvent {
    /// Request the player to preload the upcoming track, so the transition
    /// between tracks is uninterrupted.
    PreloadTrackRequest,
}

/// The synchronous call a queue operation asks the playback engine to make.
/// The queue decides; the surrounding process owns the engine handle and
/// performs the call.
#[derive(Clone, Copy, PartialEq, Eq, Structural, Debug)]
pub enum PlayerCommand {
    /// Load the item and start playing it from the beginning.
    Load(Playable),
    /// Stop playback.
    Stop,
    /// Toggle between playing and paused.
    TogglePlayback,
    /// Preload the item without touching current playback.
    Preload(Playable),
}

/// A sequence of indices that covers `0..len` exactly once: the shape the
/// shuffle permutation always has.
pub open spec fn is_index_permutation(order: Seq<usize>, len: nat) -> bool {
    &&& order.len() == len
    &&& forall|i: int| 0 <= i < order.len() ==> (#[trigger] order[i]) < len
    &&& order.no_duplicates()
    &&& forall|v: int| 0 <= v < len ==> #[trigger] order.contains(v as usize)
}

/// A permutation after an insertion at track-list index `pivot + 1`: every
/// entry beyond the pivot moves up by one to keep naming the same item.
pub open spec fn bump_above(o: Seq<usize>, pivot: usize) -> Seq<usize> {
    o.map_values(|v: usize| if v > pivot { (v + 1) as usize } else { v })
}

/// The indices `start`, `start + 1`, ..., `start + count - 1` in order.
pub open spec fn range_order(start: int, count: int) -> Seq<usize> {
    Seq::new(count as nat, |i: int| (start + i) as usize)
}

/// The track list after moving the item at `from` to `to`.
pub open spec fn shifted_seq(s: Seq<Playable>, from: int, to: int) -> Seq<Playable> {
    s.remove(from).insert(to, s[from])
}

/// The current position after moving the item at `from` to `to`: it follows
/// the item it named, or steps aside when the move passes over it.
pub open spec fn spec_shifted_current(c: usize, from: usize, to: usize) -> usize {
    if c == from {
        to
    } else if c == to && from > c {
        (c + 1) as usize
    } else if c == to && from < c {
        (c - 1) as usize
    } else {
        c
    }
}

/// What `next` decides from a starting state: the engine call, the new
/// current position, and the new repeat mode. With track repeat on and an
/// automatic advance, the current item is re-selected; otherwise the next
/// item of the playback order plays (a manual skip then downgrades track
/// repeat to playlist repeat, the user having opted out of single-track
/// looping); at the boundary, playlist repeat wraps to the first item of the
/// playback order; failing all that, the engine is stopped and the current
/// position is left alone.
pub open spec fn spec_next_outcome(pre: Queue, manual: bool) -> (Option<PlayerCommand>, Option<
    usize,
>, RepeatSetting) {
    if pre.repeat == RepeatSetting::RepeatTrack && !manual {
        match pre.current_track {
            Some(c) => (Some(PlayerCommand::Load(pre.queue@[c as int])), Some(c), pre.repeat),
            None => (None::<PlayerCommand>, None::<usize>, pre.repeat),
        }
    } else {
        match pre.spec_next_index() {
            Some(i) => (
                Some(PlayerCommand::Load(pre.queue@[i as int])),
                Some(i),
                if pre.repeat == RepeatSetting::RepeatTrack && manual {
                    RepeatSetting::RepeatPlaylist
                } else {
                    pre.repeat
                },
            ),
            None => if pre.repeat == RepeatSetting::RepeatPlaylist && pre.queue@.len() > 0 {
                let first = if pre.shuffle {
                    pre.random_order@[0]
                } else {
                    0usize
                };
                (Some(PlayerCommand::Load(pre.queue@[first as int])), Some(first), pre.repeat)
            } else {
                (Some(PlayerCommand::Stop), pre.current_track, pre.repeat)
            },
        }
    }
}

/// What `previous` decides from a starting state: the engine call and the
/// new current position. The previous item of the playback order plays; at
/// the boundary, playlist repeat wraps to the last item of the playback
/// order; failing that, the current item is replayed if there is one.
pub open spec fn spec_previous_outcome(pre: Queue) -> (Option<PlayerCommand>, Option<usize>) {
    match pre.spec_previous_index() {
        Some(i) => (Some(PlayerCommand::Load(pre.queue@[i as int])), Some(i)),
        None => if pre.repeat == RepeatSetting::RepeatPlaylist && pre.queue@.len() > 0 {
            let last = if pre.shuffle {
                pre.random_order@[pre.queue@.len() - 1]
            } else {
                (pre.queue@.len() - 1) as usize
            };
            (Some(PlayerCommand::Load(pre.queue@[last as int])), Some(last))
        } else {
            match pre.current_track {
                Some(c) => (Some(PlayerCommand::Load(pre.queue@[c as int])), Some(c)),
                None => (None::<PlayerCommand>, None::<usize>),
            }
        },
    }
}

/// The queue determines the playback order of [`Playable`] items and decides
/// the playback-engine calls that control playback itself.
pub struct Queue {
    /// The track list: the raw, index-addressed data, independent of shuffle
    /// and repeat.
    pub queue: Vec<Playable>,
    /// The playback order as indices into `queue`; meaningful only while
    /// `shuffle` is on, and empty while it is off.
    pub random_order: Vec<usize>,
    /// Index into `queue` of the currently active item; `None` means
    /// stopped, nothing selected.
    pub current_track: Option<usize>,
    /// Whether shuffle is on. On means a permutation is present.
    pub shuffle: bool,
    /// The repeat policy.
    pub repeat: RepeatSetting,
}

impl Queue {
    /// The playback order as the data model sees it: absent while shuffle is
    /// off, never merely empty for a non-empty list.
    pub open spec fn order_view(self) -> Option<Seq<usize>> {
        if self.shuffle {
            Some(self.random_order@)
        } else {
            None
        }
    }

    /// Well-formedness: the current position, if present, addresses the
    /// track list; the permutation is present exactly while shuffle is on,
    /// and is then a bijection over the track-list indices.
    pub open spec fn wf(self) -> bool {
        &&& (self.current_track matches Some(c) ==> (c as int) < self.queue@.len())
        &&& (self.shuffle ==> is_index_permutation(self.random_order@, self.queue@.len()))
        &&& (!self.shuffle ==> self.random_order@.len() == 0)
    }

    /// Rank of a track-list index within the playback order: its position
    /// in the permutation when shuffle is on, the index itself otherwise.
    pub open spec fn spec_rank(self, idx: usize) -> int {
        if self.shuffle {
            self.random_order@.index_of(idx)
        } else {
            idx as int
        }
    }

    /// The track-list index standing at a rank of the playback order.
    pub open spec fn spec_at_rank(self, r: int) -> usize {
        if self.shuffle {
            self.random_order@[r]
        } else {
            r as usize
        }
    }

    /// The index that should play after the current one: one rank forward in
    /// the playback order, `None` at the boundary or when nothing plays.
    pub open spec fn spec_next_index(self) -> Option<usize> {
        match self.current_track {
            Some(c) => if self.spec_rank(c) + 1 < self.queue@.len() {
                Some(self.spec_at_rank(self.spec_rank(c) + 1))
            } else {
                None
            },
            None => None,
        }
    }

    /// The index that should play before the current one: one rank backward
    /// in the playback order, `None` at the boundary or when nothing plays.
    pub open spec fn spec_previous_index(self) -> Option<usize> {
        match self.current_track {
            Some(c) => if self.spec_rank(c) > 0 {
                Some(self.spec_at_rank(self.spec_rank(c) - 1))
            } else {
                None
            },
            None => None,
        }
    }

    /// Whatever `spec_next_index` and `spec_previous_index` resolve to
    /// addresses the track list.
    proof fn lemma_nav_in_range(self)
        requires
            self.wf(),
        ensures
            self.spec_next_index() matches Some(i) ==> (i as int) < self.queue@.len(),
            self.spec_previous_index() matches Some(i) ==> (i as int) < self.queue@.len(),
    {
        let len = self.queue@.len();
        match self.current_track {
            Some(c) => {
                if self.shuffle {
                    let o = self.random_order@;
                    let v: int = c as int;
                    assert(o.contains(v as usize));
                    assert(v as usize == c);
                    let r = o.index_of(c);
                    assert(0 <= r < o.len() && o[r] == c);
                    if r + 1 < len {
                        assert(o[r + 1] < len);
                    }
                    if r > 0 {
                        assert(o[r - 1] < len);
                    }
                }
            },
            None => {},
        }
    }

    /// The index of the next item of the playback order. `None` when
    /// nothing plays or the current item is the last of the order.
    pub fn next_index(&self) -> (r: Option<usize>)
        requires
            self.wf(),
        ensures
            r == self.spec_next_index(),
    {
        let n = self.queue.len();
        match self.current_track {
            None => None,
            Some(index) => {
                let rank: usize = if self.shuffle {
                    match position_of(&self.random_order, index) {
                        Some(p) => {
                            proof {
                                lemma_position_is_index_of(self.random_order@, index, p as int);
                            }
                            p
                        },
                        None => {
                            proof {
                                let v: int = index as int;
                                assert(self.random_order@.contains(v as usize));
                                assert(v as usize == index);
                            }
                            return None;
                        },
                    }
                } else {
                    index
                };
                proof {
                    assert(rank < n);
                }
                if rank + 1 < n {
                    if self.shuffle {
                        Some(self.random_order[rank + 1])
                    } else {
                        Some(rank + 1)
                    }
                } else {
                    None
                }
            },
        }
    }

    /// The index of the previous item of the playback order. `None` when
    /// nothing plays or the current item is the first of the order.
    pub fn previous_index(&self) -> (r: Option<usize>)
        requires
            self.wf(),
        ensures
            r == self.spec_previous_index(),
    {
        match self.current_track {
            None => None,
            Some(index) => {
                let rank: usize = if self.shuffle {
                    match position_of(&self.random_order, index) {
                        Some(p) => {
                            proof {
                                lemma_position_is_index_of(self.random_order@, index, p as int);
                            }
                            p
                        },
                        None => {
                            proof {
                                let v: int = index as int;
                                assert(self.random_order@.contains(v as usize));
                                assert(v as usize == index);
                            }
                            return None;
                        },
                    }
                } else {
                    index
                };
                if rank > 0 {
                    if self.shuffle {
                        Some(self.random_order[rank - 1])
                    } else {
                        Some(rank - 1)
                    }
                } else {
                    None
                }
            },
        }
    }

    /// Clear the current position; the caller must issue the returned stop
    /// to the playback engine.
    pub fn stop(&mut self) -> (cmd: PlayerCommand)
        ensures
            *final(self) == (Queue { current_track: None, ..*old(self) }),
            cmd == PlayerCommand::Stop,
            old(self).wf() ==> final(self).wf(),
    {
        self.current_track = None;
        PlayerCommand::Stop
    }

    /// Build a queue from persisted user state: the saved track list, the
    /// saved current position, the saved permutation (absent when shuffle
    /// was off) and the two policy flags. Saved state is not trusted: a
    /// position outside the list is dropped, and a saved order that is not a
    /// bijection over the list is regenerated, as it is when shuffle is on
    /// but no order was saved.
    pub fn new(
        queue: Vec<Playable>,
        current_track: Option<usize>,
        random_order: Option<Vec<usize>>,
        shuffle: bool,
        repeat: RepeatSetting,
    ) -> (q: Queue)
        ensures
            q.wf(),
            q.queue@ == queue@,
            q.shuffle == shuffle,
            q.repeat == repeat,
            q.current_track == (match current_track {
                Some(c) => if (c as int) < queue@.len() {
                    Some(c)
                } else {
                    None::<usize>
                },
                None => None::<usize>,
            }),
            (match random_order {
                Some(o) => shuffle && is_index_permutation(o@, queue@.len()) ==> q.random_order@ == o@,
                None => true,
            }),
            (shuffle && !(random_order matches Some(o) && is_index_permutation(o@, queue@.len())))
                ==> (q.current_track matches Some(c) ==> q.random_order@.len() > 0
                && q.random_order@[0] == c),
    {
        let current: Option<usize> = match current_track {
            Some(c) => if c < queue.len() {
                Some(c)
            } else {
                None
            },
            None => None,
        };
        let mut q = Queue {
            queue,
            random_order: Vec::new(),
            current_track: current,
            shuffle,
            repeat,
        };
        if shuffle {
            let restored: bool = match random_order {
                Some(o) => {
                    if is_valid_order(&o, q.queue.len()) {
                        q.random_order = o;
                        true
                    } else {
                        false
                    }
                },
                None => false,
            };
            if !restored {
                q.generate_random_order();
            }
        }
        q
    }

    /// (Re)generate the shuffle permutation: the current item (if any)
    /// first, followed by all remaining indices in a uniformly random order.
    fn generate_random_order(&mut self)
        requires
            old(self).shuffle,
            old(self).current_track matches Some(c) ==> (c as int) < old(self).queue@.len(),
        ensures
            final(self).queue == old(self).queue,
            final(self).current_track == old(self).current_track,
            final(self).shuffle == old(self).shuffle,
            final(self).repeat == old(self).repeat,
            is_index_permutation(final(self).random_order@, old(self).queue@.len()),
            old(self).current_track matches Some(c) ==> final(self).random_order@.len() > 0
                && final(self).random_order@[0] == c,
    {
        let len = self.queue.len();
        let mut rest: Vec<usize> = Vec::new();
        let mut i: usize = 0;
        while i < len
            invariant
                i <= len,
                rest@.len() == i as int,
                forall|k: int| 0 <= k < i ==> #[trigger] rest@[k] == k as usize,
            decreases len - i,
        {
            rest.push(i);
            i = i + 1;
        }
        let mut order: Vec<usize> = Vec::new();
        match self.current_track {
            Some(c) => {
                order.push(c);
                rest.remove(c);
            },
            None => {},
        }
        let ghost picked = rest@;
        proof {
            // Before shuffling, `rest` lists every valid index except the
            // one already placed first, in increasing order.
            match self.current_track {
                Some(c) => {
                    assert forall|k: int| 0 <= k < picked.len() implies (#[trigger] picked[k]) < len
                        && picked[k] != c by {
                        assert(picked[k] == if k < c as int { k as usize } else { (k + 1) as usize });
                    }
                    assert forall|v: int| 0 <= v < len && v != c as int implies #[trigger] picked.contains(v as usize) by {
                        if v < c as int {
                            assert(picked[v] == v as usize);
                        } else {
                            assert(picked[v - 1] == v as usize);
                        }
                    }
                },
                None => {
                    assert forall|v: int| 0 <= v < len implies #[trigger] picked.contains(v as usize) by {
                        assert(picked[v] == v as usize);
                    }
                },
            }
            assert(picked.no_duplicates());
        }
        shuffle_indices(&mut rest);
        proof {
            lemma_same_multiset_facts(picked, rest@);
        }
        let ghost shuffled = rest@;
        order.append(&mut rest);
        self.random_order = order;
        proof {
            let c_opt = self.current_track;
            let full = self.random_order@;
            let q_len = self.queue@.len();
            match c_opt {
                Some(c) => {
                    assert(full == seq![c] + shuffled);
                    assert(full.len() == q_len);
                    assert forall|k: int| 0 <= k < full.len() implies (#[trigger] full[k]) < q_len by {
                        if k == 0 {
                        } else {
                            let x = shuffled[k - 1];
                            assert(shuffled.contains(x));
                            assert(picked.contains(x));
                            let w = choose|w: int| 0 <= w < picked.len() && picked[w] == x;
                            assert(picked[w] < q_len);
                        }
                    }
                    assert forall|a: int, b: int| 0 <= a < b < full.len() implies full[a] != full[b] by {
                        if a == 0 {
                            let x = shuffled[b - 1];
                            if x == c {
                                assert(shuffled.contains(x));
                                assert(picked.contains(c));
                            }
                        } else {
                            assert(shuffled[a - 1] != shuffled[b - 1]);
                        }
                    }
                    assert forall|v: int| 0 <= v < q_len implies #[trigger] full.contains(v as usize) by {
                        if v == c as int {
                            assert(full[0] == v as usize);
                        } else {
                            assert(picked.contains(v as usize));
                            assert(shuffled.contains(v as usize));
                            let w = choose|w: int| 0 <= w < shuffled.len() && shuffled[w] == v as usize;
                            assert(full[w + 1] == v as usize);
                        }
                    }
                },
                None => {
                    assert(full == shuffled);
                    assert forall|k: int| 0 <= k < full.len() implies (#[trigger] full[k]) < q_len by {
                        let x = shuffled[k];
                        assert(shuffled.contains(x));
                        assert(picked.contains(x));
                        let w = choose|w: int| 0 <= w < picked.len() && picked[w] == x;
                        assert(picked[w] < q_len);
                    }
                    assert forall|v: int| 0 <= v < q_len implies #[trigger] full.contains(v as usize) by {
                        assert(picked.contains(v as usize));
                        assert(shuffled.contains(v as usize));
                    }
                },
            }
        }
    }

    /// Add `track` at the end of the track list. When shuffle is on, the new
    /// index goes to the tail of the permutation, so a newly added item
    /// plays last in shuffle order rather than being interleaved at random.
    pub fn append(&mut self, track: Playable)
        requires
            old(self).wf(),
        ensures
            final(self).wf(),
            final(self).queue@ == old(self).queue@.push(track),
            final(self).current_track == old(self).current_track,
            final(self).shuffle == old(self).shuffle,
            final(self).repeat == old(self).repeat,
            old(self).shuffle ==> final(self).random_order@ == old(self).random_order@.push(
                old(self).queue@.len() as usize,
            ),
            !old(self).shuffle ==> final(self).random_order == old(self).random_order,
    {
        if self.shuffle {
            let index = self.queue.len();
            proof {
                lemma_permutation_push(self.random_order@, self.queue@.len());
            }
            self.random_order.push(index);
        }
        self.queue.push(track);
    }

    /// Insert `track` as the item that logically follows the currently
    /// playing one. In the track list it goes right after the current
    /// position; when shuffle is on, the permutation entries beyond the
    /// current position move up by one and the new index is placed right
    /// after the current item's rank, so the relative shuffle order of
    /// everything else is preserved. With nothing playing this is `append`.
    pub fn insert_after_current(&mut self, track: Playable)
        requires
            old(self).wf(),
        ensures
            final(self).wf(),
            final(self).current_track == old(self).current_track,
            final(self).shuffle == old(self).shuffle,
            final(self).repeat == old(self).repeat,
            (match old(self).current_track {
                Some(c) => final(self).queue@ == old(self).queue@.insert(c as int + 1, track)
                    && (old(self).shuffle ==> final(self).random_order@ == bump_above(
                    old(self).random_order@,
                    c,
                ).insert(old(self).random_order@.index_of(c) + 1, (c + 1) as usize)),
                None => final(self).queue@ == old(self).queue@.push(track) && (old(self).shuffle
                    ==> final(self).random_order@ == old(self).random_order@.push(
                    old(self).queue@.len() as usize,
                )),
            }),
            !old(self).shuffle ==> final(self).random_order == old(self).random_order,
    {
        let n = self.queue.len();
        match self.current_track {
            None => {
                self.append(track);
            },
            Some(index) => {
                if self.shuffle {
                    let next_i: usize = match position_of(&self.random_order, index) {
                        Some(p) => p,
                        None => {
                            proof {
                                let v: int = index as int;
                                assert(self.random_order@.contains(v as usize));
                                assert(v as usize == index);
                            }
                            0
                        },
                    };
                    proof {
                        lemma_position_is_index_of(self.random_order@, index, next_i as int);
                    }
                    let ghost orig = self.random_order@;
                    let mut k: usize = 0;
                    while k < self.random_order.len()
                        invariant
                            k <= orig.len(),
                            self.random_order@.len() == orig.len(),
                            is_index_permutation(orig, n as nat),
                            (index as int) < n as int,
                            forall|j: int| 0 <= j < k ==> #[trigger] self.random_order@[j] == (
                            if orig[j] > index {
                                (orig[j] + 1) as usize
                            } else {
                                orig[j]
                            }),
                            forall|j: int|
                                k <= j < orig.len() ==> #[trigger] self.random_order@[j]
                                    == orig[j],
                            self.queue == old(self).queue,
                            self.current_track == old(self).current_track,
                            self.shuffle == old(self).shuffle,
                            self.repeat == old(self).repeat,
                        decreases orig.len() - k,
                    {
                        let val = self.random_order[k];
                        if val > index {
                            self.random_order[k] = val + 1;
                        }
                        k = k + 1;
                    }
                    proof {
                        assert(self.random_order@ =~= bump_above(orig, index));
                    }
                    self.random_order.insert(next_i + 1, index + 1);
                    proof {
                        lemma_permutation_bump_insert(
                            orig,
                            old(self).queue@.len(),
                            index,
                            next_i as int,
                        );
                    }
                }
                self.queue.insert(index + 1, track);
            },
        }
    }

    /// Bulk-insert `tracks` starting right after the current position, or
    /// at the end when nothing is playing; the track-list index of the
    /// first inserted item is returned. When shuffle is on, the permutation
    /// is extended with the fresh top index range, the same appended-in-
    /// order policy as `append`.
    pub fn append_next(&mut self, tracks: &Vec<Playable>) -> (first: usize)
        requires
            old(self).wf(),
            old(self).queue@.len() + tracks@.len() <= usize::MAX,
        ensures
            final(self).wf(),
            final(self).current_track == old(self).current_track,
            final(self).shuffle == old(self).shuffle,
            final(self).repeat == old(self).repeat,
            first as int == (match old(self).current_track {
                Some(c) => c as int + 1,
                None => old(self).queue@.len() as int,
            }),
            final(self).queue@ == old(self).queue@.subrange(0, first as int) + tracks@ + old(
                self,
            ).queue@.subrange(first as int, old(self).queue@.len() as int),
            old(self).shuffle ==> final(self).random_order@ == old(self).random_order@
                + range_order(old(self).queue@.len() as int, tracks@.len() as int),
            !old(self).shuffle ==> final(self).random_order@ == old(self).random_order@,
    {
        let old_len = self.queue.len();
        if self.shuffle {
            let mut t: usize = 0;
            while t < tracks.len()
                invariant
                    t <= tracks@.len(),
                    old_len == old(self).queue@.len(),
                    old_len + tracks@.len() <= usize::MAX,
                    self.random_order@ == old(self).random_order@ + range_order(
                        old_len as int,
                        t as int,
                    ),
                    self.queue == old(self).queue,
                    self.current_track == old(self).current_track,
                    self.shuffle == old(self).shuffle,
                    self.repeat == old(self).repeat,
                decreases tracks@.len() - t,
            {
                self.random_order.push(old_len + t);
                t = t + 1;
                proof {
                    assert(self.random_order@ =~= old(self).random_order@ + range_order(
                        old_len as int,
                        t as int,
                    ));
                }
            }
            proof {
                lemma_permutation_extend(
                    old(self).random_order@,
                    old_len as nat,
                    tracks@.len(),
                );
            }
        }
        let first: usize = match self.current_track {
            Some(index) => index + 1,
            None => old_len,
        };
        let ghost ord = self.random_order@;
        let mut i: usize = first;
        let mut t: usize = 0;
        while t < tracks.len()
            invariant
                t <= tracks@.len(),
                i as int == first as int + t as int,
                first as int <= old_len as int,
                old_len == old(self).queue@.len(),
                old_len + tracks@.len() <= usize::MAX,
                self.queue@ == old(self).queue@.subrange(0, first as int) + tracks@.subrange(
                    0,
                    t as int,
                ) + old(self).queue@.subrange(first as int, old_len as int),
                self.random_order@ == ord,
                self.current_track == old(self).current_track,
                self.shuffle == old(self).shuffle,
                self.repeat == old(self).repeat,
            decreases tracks@.len() - t,
        {
            self.queue.insert(i, tracks[t]);
            i = i + 1;
            t = t + 1;
            proof {
                assert(self.queue@ =~= old(self).queue@.subrange(0, first as int)
                    + tracks@.subrange(0, t as int) + old(self).queue@.subrange(
                    first as int,
                    old_len as int,
                ));
            }
        }
        proof {
            assert(tracks@.subrange(0, tracks@.len() as int) =~= tracks@);
        }
        first
    }

    /// Empty the track list and the permutation, and stop playback; the
    /// caller must issue the returned stop to the playback engine.
    pub fn clear(&mut self) -> (cmd: PlayerCommand)
        requires
            old(self).wf(),
        ensures
            final(self).wf(),
            final(self).queue@.len() == 0,
            final(self).random_order@.len() == 0,
            final(self).current_track is None,
            final(self).shuffle == old(self).shuffle,
            final(self).repeat == old(self).repeat,
            cmd == PlayerCommand::Stop,
    {
        let cmd = self.stop();
        self.queue.clear();
        self.random_order.clear();
        cmd
    }

    /// Move the item at track-list index `from` to index `to`, re-mapping
    /// the current position so it keeps denoting the same logical item. The
    /// permutation is deliberately left untouched: shifting is an operation
    /// on the linear order only.
    pub fn shift(&mut self, from: usize, to: usize)
        requires
            old(self).wf(),
            (from as int) < old(self).queue@.len(),
            (to as int) < old(self).queue@.len(),
        ensures
            final(self).wf(),
            final(self).queue@ == shifted_seq(old(self).queue@, from as int, to as int),
            final(self).random_order == old(self).random_order,
            final(self).shuffle == old(self).shuffle,
            final(self).repeat == old(self).repeat,
            final(self).current_track == (match old(self).current_track {
                Some(c) => Some(spec_shifted_current(c, from, to)),
                None => None::<usize>,
            }),
    {
        let item = self.queue.remove(from);
        self.queue.insert(to, item);
        match self.current_track {
            Some(index) => {
                if index == from {
                    self.current_track = Some(to);
                } else if index == to && from > index {
                    self.current_track = Some(to + 1);
                } else if index == to && from < index {
                    self.current_track = Some(to - 1);
                }
            },
            None => {},
        }
    }

    /// Resolve and load the item at `index`: the caller must issue the
    /// returned engine call. With `shuffle_index` set (and shuffle on, and
    /// the list non-empty) `index` is ignored and a uniformly random index
    /// is played instead. An index beyond the list loads nothing. With
    /// `reshuffle` set (and shuffle on) the permutation is regenerated after
    /// the load, the new current item first.
    pub fn play(&mut self, index: usize, reshuffle: bool, shuffle_index: bool) -> (cmd: Option<
        PlayerCommand,
    >)
        requires
            old(self).wf(),
        ensures
            final(self).wf(),
            final(self).queue == old(self).queue,
            final(self).shuffle == old(self).shuffle,
            final(self).repeat == old(self).repeat,
            (shuffle_index && old(self).shuffle && old(self).queue@.len() > 0) ==> (
            final(self).current_track matches Some(i) && (i as int) < old(self).queue@.len()
                && cmd == Some(PlayerCommand::Load(old(self).queue@[i as int]))),
            !(shuffle_index && old(self).shuffle && old(self).queue@.len() > 0) ==> (if (
            index as int) < old(self).queue@.len() {
                final(self).current_track == Some(index) && cmd == Some(
                    PlayerCommand::Load(old(self).queue@[index as int]),
                )
            } else {
                final(self).current_track == old(self).current_track && cmd is None
            }),
            (reshuffle && old(self).shuffle) ==> (is_index_permutation(
                final(self).random_order@,
                old(self).queue@.len(),
            ) && (final(self).current_track matches Some(c)
                ==> final(self).random_order@.len() > 0 && final(self).random_order@[0] == c)),
            !(reshuffle && old(self).shuffle) ==> final(self).random_order == old(
                self,
            ).random_order,
    {
        let queue_length = self.queue.len();
        let mut idx = index;
        if queue_length > 0 && shuffle_index && self.shuffle {
            idx = random_index(queue_length);
        }
        let mut cmd: Option<PlayerCommand> = None;
        if idx < queue_length {
            let track = self.queue[idx];
            self.current_track = Some(idx);
            cmd = Some(PlayerCommand::Load(track));
        }
        if reshuffle && self.shuffle {
            self.generate_random_order();
        }
        cmd
    }

    /// Delete the track-list entry at `index` (a literal index, shuffle
    /// notwithstanding); the caller must issue the returned engine call, if
    /// any. On an empty list this is a no-op. Emptying the list stops
    /// playback. Deleting the playing item re-resolves playback at the same
    /// numeric index — the item that slid into the deleted slot — or, when
    /// it was the last one, advances under playlist repeat and stops
    /// otherwise. Deleting below the current position pulls the position
    /// back by one so it keeps naming the same item. Any removal fully
    /// regenerates the shuffle permutation.
    pub fn remove(&mut self, index: usize) -> (cmd: Option<PlayerCommand>)
        requires
            old(self).wf(),
            old(self).queue@.len() == 0 || (index as int) < old(self).queue@.len(),
        ensures
            final(self).wf(),
            final(self).shuffle == old(self).shuffle,
            final(self).repeat == old(self).repeat,
            ({
                let pre = *old(self);
                if pre.queue@.len() == 0 {
                    *final(self) == pre && cmd is None
                } else {
                    let new_len = pre.queue@.len() - 1;
                    &&& final(self).queue@ == pre.queue@.remove(index as int)
                    &&& (!pre.shuffle ==> final(self).random_order@ == pre.random_order@)
                    &&& (pre.shuffle ==> is_index_permutation(
                        final(self).random_order@,
                        new_len as nat,
                    ))
                    &&& if new_len == 0 {
                        final(self).current_track is None && cmd == Some(PlayerCommand::Stop)
                    } else {
                        match pre.current_track {
                            None => final(self).current_track is None && cmd is None,
                            Some(c) => if c == index && index as int == new_len {
                                if pre.repeat == RepeatSetting::RepeatPlaylist {
                                    &&& final(self).current_track matches Some(f) && (f as int)
                                        < new_len && cmd == Some(
                                        PlayerCommand::Load(final(self).queue@[f as int]),
                                    )
                                    &&& (!pre.shuffle ==> final(self).current_track == Some(
                                        0usize,
                                    ))
                                    &&& (pre.shuffle ==> final(self).current_track == Some(
                                        final(self).random_order@[0],
                                    ))
                                } else {
                                    final(self).current_track is None && cmd == Some(
                                        PlayerCommand::Stop,
                                    )
                                }
                            } else if c == index {
                                final(self).current_track == Some(index) && cmd == Some(
                                    PlayerCommand::Load(pre.queue@.remove(index as int)[index as int]),
                                )
                            } else if c > index {
                                final(self).current_track == Some((c - 1) as usize) && cmd
                                    is None
                            } else {
                                final(self).current_track == Some(c) && cmd is None
                            },
                        }
                    }
                }
            }),
    {
        if self.queue.len() == 0 {
            return None;
        }
        self.queue.remove(index);
        let len = self.queue.len();
        if len == 0 {
            self.random_order = Vec::new();
            let stop_cmd = self.stop();
            return Some(stop_cmd);
        }
        match self.current_track {
            Some(current) => {
                if current == index {
                    if current == len {
                        // the deleted item was playing and was the last one
                        if self.repeat == RepeatSetting::RepeatPlaylist {
                            // advance through the wrap-around path
                            self.current_track = None;
                            if self.shuffle {
                                self.generate_random_order();
                                let first = self.random_order[0];
                                return self.play(first, false, false);
                            } else {
                                return self.play(0, false, false);
                            }
                        } else {
                            let stop_cmd = self.stop();
                            if self.shuffle {
                                self.generate_random_order();
                            }
                            return Some(stop_cmd);
                        }
                    } else {
                        // the next item slid into the deleted slot; play it
                        if self.shuffle {
                            self.generate_random_order();
                        }
                        return self.play(index, false, false);
                    }
                } else if current > index {
                    self.current_track = Some(current - 1);
                }
            },
            None => {},
        }
        if self.shuffle {
            self.generate_random_order();
        }
        None
    }

    /// Decide what plays after the current item; the caller must issue the
    /// returned engine call. `manual` marks a deliberate user skip, which
    /// bypasses track repeat (and downgrades it to playlist repeat).
    pub fn next(&mut self, manual: bool) -> (cmd: Option<PlayerCommand>)
        requires
            old(self).wf(),
        ensures
            final(self).wf(),
            final(self).queue == old(self).queue,
            final(self).shuffle == old(self).shuffle,
            final(self).random_order@ == old(self).random_order@,
            (cmd, final(self).current_track, final(self).repeat) == spec_next_outcome(
                *old(self),
                manual,
            ),
    {
        let repeat = self.repeat;
        if repeat == RepeatSetting::RepeatTrack && !manual {
            match self.current_track {
                Some(index) => self.play(index, false, false),
                None => None,
            }
        } else {
            match self.next_index() {
                Some(index) => {
                    proof {
                        self.lemma_nav_in_range();
                    }
                    let cmd = self.play(index, false, false);
                    if repeat == RepeatSetting::RepeatTrack && manual {
                        self.set_repeat(RepeatSetting::RepeatPlaylist);
                    }
                    cmd
                },
                None => {
                    if repeat == RepeatSetting::RepeatPlaylist && self.queue.len() > 0 {
                        let first = if self.shuffle {
                            self.random_order[0]
                        } else {
                            0
                        };
                        self.play(first, false, false)
                    } else {
                        // stop the engine without clearing the position
                        Some(PlayerCommand::Stop)
                    }
                },
            }
        }
    }

    /// Decide what plays before the current item; the caller must issue the
    /// returned engine call. Mirrors `next` without the track-repeat
    /// short-circuit, falling back to replaying the current item.
    pub fn previous(&mut self) -> (cmd: Option<PlayerCommand>)
        requires
            old(self).wf(),
        ensures
            final(self).wf(),
            final(self).queue == old(self).queue,
            final(self).shuffle == old(self).shuffle,
            final(self).random_order@ == old(self).random_order@,
            final(self).repeat == old(self).repeat,
            (cmd, final(self).current_track) == spec_previous_outcome(*old(self)),
    {
        match self.previous_index() {
            Some(index) => {
                proof {
                    self.lemma_nav_in_range();
                }
                self.play(index, false, false)
            },
            None => {
                let len = self.queue.len();
                if self.repeat == RepeatSetting::RepeatPlaylist && len > 0 {
                    let last = if self.shuffle {
                        self.random_order[len - 1]
                    } else {
                        len - 1
                    };
                    self.play(last, false, false)
                } else {
                    match self.current_track {
                        Some(index) => self.play(index, false, false),
                        None => None,
                    }
                }
            },
        }
    }

    /// Decide how to toggle playback, given the engine's current status: a
    /// running engine is toggled between play and pause; a stopped one
    /// advances to the next item if there is one, and otherwise restarts at
    /// the head of the track list.
    pub fn toggleplayback(&mut self, status: PlayerEvent) -> (cmd: Option<PlayerCommand>)
        requires
            old(self).wf(),
        ensures
            final(self).wf(),
            final(self).queue == old(self).queue,
            final(self).shuffle == old(self).shuffle,
            final(self).random_order@ == old(self).random_order@,
            (match status {
                PlayerEvent::Playing(_) | PlayerEvent::Paused(_) => cmd == Some(
                    PlayerCommand::TogglePlayback,
                ) && final(self).current_track == old(self).current_track && final(self).repeat
                    == old(self).repeat,
                PlayerEvent::Stopped => if old(self).spec_next_index() is Some {
                    (cmd, final(self).current_track, final(self).repeat) == spec_next_outcome(
                        *old(self),
                        false,
                    )
                } else {
                    final(self).repeat == old(self).repeat && (if old(self).queue@.len() > 0 {
                        final(self).current_track == Some(0usize) && cmd == Some(
                            PlayerCommand::Load(old(self).queue@[0]),
                        )
                    } else {
                        final(self).current_track == old(self).current_track && cmd is None
                    })
                },
                PlayerEvent::FinishedTrack => cmd is None && final(self).current_track == old(
                    self,
                ).current_track && final(self).repeat == old(self).repeat,
            }),
    {
        match status {
            PlayerEvent::Playing(_) => Some(PlayerCommand::TogglePlayback),
            PlayerEvent::Paused(_) => Some(PlayerCommand::TogglePlayback),
            PlayerEvent::Stopped => {
                match self.next_index() {
                    Some(_) => self.next(false),
                    None => self.play(0, false, false),
                }
            },
            PlayerEvent::FinishedTrack => None,
        }
    }

    /// Handle a queue-specific event: a preload request resolves the next
    /// item of the playback order and asks the engine to preload it,
    /// without altering any state.
    pub fn handle_event(&self, event: QueueEvent) -> (cmd: Option<PlayerCommand>)
        requires
            self.wf(),
        ensures
            cmd == (match event {
                QueueEvent::PreloadTrackRequest => match self.spec_next_index() {
                    Some(i) => Some(PlayerCommand::Preload(self.queue@[i as int])),
                    None => None::<PlayerCommand>,
                },
            }),
    {
        match event {
            QueueEvent::PreloadTrackRequest => {
                match self.next_index() {
                    Some(i) => {
                        proof {
                            self.lemma_nav_in_range();
                        }
                        Some(PlayerCommand::Preload(self.queue[i]))
                    },
                    None => None,
                }
            },
        }
    }

    /// Set the shuffle behavior. Turning shuffle on regenerates the
    /// permutation, current item first; turning it off discards the
    /// permutation entirely.
    pub fn set_shuffle(&mut self, new: bool)
        requires
            old(self).wf(),
        ensures
            final(self).wf(),
            final(self).queue == old(self).queue,
            final(self).current_track == old(self).current_track,
            final(self).repeat == old(self).repeat,
            final(self).shuffle == new,
            new ==> (final(self).order_view() matches Some(o)
                && is_index_permutation(o, old(self).queue@.len())
                && (old(self).current_track matches Some(c) ==> o.len() > 0 && o[0] == c)),
            !new ==> final(self).order_view() is None,
    {
        self.shuffle = new;
        if new {
            self.generate_random_order();
        } else {
            self.random_order = Vec::new();
        }
    }

    /// The index of the currently playing item, or `None` if stopped.
    pub fn get_current_index(&self) -> (r: Option<usize>)
        ensures
            r == self.current_track,
    {
        self.current_track
    }

    /// The currently playing item, or `None` if stopped.
    pub fn get_current(&self) -> (r: Option<Playable>)
        requires
            self.wf(),
        ensures
            r == (match self.current_track {
                Some(i) => Some(self.queue@[i as int]),
                None => None::<Playable>,
            }),
    {
        match self.current_track {
            Some(i) => Some(self.queue[i]),
            None => None,
        }
    }

    /// The number of items in the track list.
    pub fn len(&self) -> (n: usize)
        ensures
            n == self.queue@.len(),
    {
        self.queue.len()
    }

    /// The current repeat behavior.
    pub fn get_repeat(&self) -> (r: RepeatSetting)
        ensures
            r == self.repeat,
    {
        self.repeat
    }

    /// Set the repeat behavior; nothing else moves.
    pub fn set_repeat(&mut self, new: RepeatSetting)
        ensures
            *final(self) == (Queue { repeat: new, ..*old(self) }),
    {
        self.repeat = new;
    }

    /// Whether shuffle is on.
    pub fn get_shuffle(&self) -> (r: bool)
        ensures
            r == self.shuffle,
    {
        self.shuffle
    }

    /// The playback order used to shuffle, or `None` while shuffle is off.
    pub fn get_random_order(&self) -> (r: Option<Vec<usize>>)
        ensures
            r matches Some(o) ==> self.order_view() == Some(o@),
            r is None ==> self.order_view() is None,
    {
        if self.shuffle {
            Some(copy_indices(&self.random_order))
        } else {
            None
        }
    }
}

/// Decide whether `order` is a bijection over `0..len`: right length, every
/// entry in range, no entry twice, every index hit.
fn is_valid_order(order: &Vec<usize>, len: usize) -> (b: bool)
    ensures
        b == is_index_permutation(order@, len as nat),
{
    if order.len() != len {
        return false;
    }
    let mut seen: Vec<bool> = Vec::new();
    let mut f: usize = 0;
    while f < len
        invariant
            f <= len,
            seen@.len() == f as int,
            forall|v: int| 0 <= v < f ==> !(#[trigger] seen@[v]),
        decreases len - f,
    {
        seen.push(false);
        f = f + 1;
    }
    let mut i: usize = 0;
    while i < order.len()
        invariant
            i <= order@.len(),
            order@.len() == len as int,
            seen@.len() == len as int,
            forall|k: int| 0 <= k < i ==> (#[trigger] order@[k]) < len,
            forall|a: int, b: int| 0 <= a < b < i ==> order@[a] != order@[b],
            forall|v: int| 0 <= v < len ==> ((#[trigger] seen@[v]) <==> exists|k: int|
                0 <= k < i && order@[k] == v as usize),
        decreases order@.len() - i,
    {
        let v = order[i];
        if v >= len {
            return false;
        }
        if seen[v] {
            proof {
                let k = choose|k: int| 0 <= k < i && order@[k] == v;
                assert(order@[k] == order@[i as int]);
            }
            return false;
        }
        seen.set(v, true);
        i = i + 1;
    }
    let mut v: usize = 0;
    while v < len
        invariant
            v <= len,
            order@.len() == len as int,
            seen@.len() == len as int,
            forall|k: int| 0 <= k < len ==> (#[trigger] order@[k]) < len,
            order@.no_duplicates(),
            forall|w: int| 0 <= w < len ==> ((#[trigger] seen@[w]) <==> order@.contains(w as usize)),
            forall|w: int| 0 <= w < v ==> #[trigger] order@.contains(w as usize),
        decreases len - v,
    {
        if !seen[v] {
            return false;
        }
        v = v + 1;
    }
    true
}

/// Bumping the entries beyond a pivot of a permutation of `0..len` and
/// inserting the freed index right after the pivot's rank yields a
/// permutation of `0..len + 1`.
proof fn lemma_permutation_bump_insert(o: Seq<usize>, len: nat, c: usize, r: int)
    requires
        is_index_permutation(o, len),
        (c as nat) < len,
        len <= usize::MAX,
        0 <= r < o.len(),
        o[r] == c,
    ensures
        is_index_permutation(
            bump_above(o, c).insert(r + 1, (c + 1) as usize),
            (len + 1) as nat,
        ),
{
    let m = bump_above(o, c);
    assert(m.len() == o.len());
    assert forall|j: int| 0 <= j < m.len() implies #[trigger] m[j] == (if o[j] > c {
        (o[j] + 1) as usize
    } else {
        o[j]
    }) by {}
    let p = m.insert(r + 1, (c + 1) as usize);
    m.insert_ensures(r + 1, (c + 1) as usize);
    assert(p.len() == len + 1);
    assert forall|j: int| 0 <= j < p.len() implies (#[trigger] p[j]) < len + 1 by {
        if j < r + 1 {
            assert(p[j] == m[j]);
        } else if j == r + 1 {
        } else {
            assert(p[j] == m[j - 1]);
        }
    }
    assert forall|a: int, b: int| 0 <= a < b < p.len() implies p[a] != p[b] by {
        let ma: int = if a < r + 1 {
            a
        } else {
            a - 1
        };
        let mb: int = if b < r + 1 {
            b
        } else {
            b - 1
        };
        if a == r + 1 || b == r + 1 {
            // one side is the inserted entry; the map never produces it
            assert forall|j: int| 0 <= j < m.len() implies m[j] != (c + 1) as usize by {
                assert(o[j] < len);
            }
        } else {
            assert(p[a] == m[ma] && p[b] == m[mb]);
            assert(o[ma] != o[mb]);
            assert(o[ma] < len && o[mb] < len);
        }
    }
    assert forall|v: int| 0 <= v < len + 1 implies #[trigger] p.contains(v as usize) by {
        if v == c + 1 {
            assert(p[r + 1] == v as usize);
        } else if v <= c {
            assert(o.contains(v as usize));
            let k = choose|k: int| 0 <= k < o.len() && o[k] == v as usize;
            assert(m[k] == v as usize);
            let pk: int = if k < r + 1 {
                k
            } else {
                k + 1
            };
            assert(p[pk] == v as usize);
        } else {
            // v > c + 1: the item now at v was at v - 1 before the insertion
            assert(o.contains((v - 1) as usize));
            let k = choose|k: int| 0 <= k < o.len() && o[k] == (v - 1) as usize;
            assert(m[k] == v as usize);
            let pk: int = if k < r + 1 {
                k
            } else {
                k + 1
            };
            assert(p[pk] == v as usize);
        }
    }
}

/// Extending a permutation of `0..len` with the `count` next indices in
/// order yields a permutation of `0..len + count`.
proof fn lemma_permutation_extend(o: Seq<usize>, len: nat, count: nat)
    requires
        is_index_permutation(o, len),
        len + count <= usize::MAX,
    ensures
        is_index_permutation(o + range_order(len as int, count as int), (len + count) as nat),
{
    let p = o + range_order(len as int, count as int);
    assert(p.len() == len + count);
    assert forall|j: int| 0 <= j < p.len() implies (#[trigger] p[j]) < len + count by {
        if j < o.len() {
            assert(p[j] == o[j]);
        } else {
            assert(p[j] == (len + (j - o.len())) as usize);
        }
    }
    assert forall|a: int, b: int| 0 <= a < b < p.len() implies p[a] != p[b] by {
        if a < o.len() && b < o.len() {
            assert(p[a] == o[a] && p[b] == o[b]);
        } else if a < o.len() {
            assert(p[a] == o[a] && o[a] < len);
            assert(p[b] == (len + (b - o.len())) as usize);
        } else {
            assert(p[a] == (len + (a - o.len())) as usize);
            assert(p[b] == (len + (b - o.len())) as usize);
        }
    }
    assert forall|v: int| 0 <= v < len + count implies #[trigger] p.contains(v as usize) by {
        if v < len {
            assert(o.contains(v as usize));
            let k = choose|k: int| 0 <= k < o.len() && o[k] == v as usize;
            assert(p[k] == v as usize);
        } else {
            assert(p[o.len() + (v - len)] == v as usize);
        }
    }
}

/// Appending the next fresh index to a permutation of `0..len` yields a
/// permutation of `0..len + 1`.
proof fn lemma_permutation_push(o: Seq<usize>, len: nat)
    requires
        is_index_permutation(o, len),
        len <= usize::MAX,
    ensures
        is_index_permutation(o.push(len as usize), (len + 1) as nat),
{
    let p = o.push(len as usize);
    assert forall|a: int, b: int| 0 <= a < b < p.len() implies p[a] != p[b] by {
        if b == o.len() {
            assert(p[a] == o[a] && o[a] < len);
        }
    }
    assert forall|v: int| 0 <= v < len + 1 implies #[trigger] p.contains(v as usize) by {
        if v < len {
            assert(o.contains(v as usize));
            let k = choose|k: int| 0 <= k < o.len() && o[k] == v as usize;
            assert(p[k] == v as usize);
        } else {
            assert(p[o.len() as int] == v as usize);
        }
    }
}

/// Sequences with equal multisets have the same length, contain the same
/// values, and are duplicate-free together.
proof fn lemma_same_multiset_facts(a: Seq<usize>, b: Seq<usize>)
    requires
        a.to_multiset() == b.to_multiset(),
    ensures
        a.len() == b.len(),
        forall|x: usize| a.contains(x) <==> b.contains(x),
        a.no_duplicates() ==> b.no_duplicates(),
{
    a.to_multiset_ensures();
    b.to_multiset_ensures();
    assert(a.to_multiset().len() == b.to_multiset().len());
    assert forall|x: usize| a.contains(x) <==> b.contains(x) by {
        assert(a.to_multiset().count(x) == b.to_multiset().count(x));
        assert(a.contains(x) <==> a.to_multiset().count(x) > 0);
        assert(b.contains(x) <==> b.to_multiset().count(x) > 0);
    }
    if a.no_duplicates() {
        a.lemma_multiset_has_no_duplicates();
        assert forall|x: usize| b.to_multiset().contains(x) implies b.to_multiset().count(x) == 1 by {
            assert(a.to_multiset().count(x) == b.to_multiset().count(x));
        }
        b.lemma_multiset_has_no_duplicates_conv();
    }
}

/// With shuffle on, a well-formed queue's playback order is always a
/// bijection over the track-list indices: same length, every entry in
/// range, no entry twice, every index hit.
pub proof fn lemma_shuffled_order_bijective(q: Queue)
    requires
        q.wf(),
        q.shuffle,
    ensures
        q.order_view() matches Some(o) && is_index_permutation(o, q.queue@.len()),
{
}

/// Moving an item from `from` to `to` and then back from `to` to `from`
/// restores the original track-list ordering.
pub proof fn lemma_shift_round_trip(s: Seq<Playable>, from: int, to: int)
    requires
        0 <= from < s.len(),
        0 <= to < s.len(),
        from != to,
    ensures
        shifted_seq(shifted_seq(s, from, to), to, from) == s,
{
    let x = s[from];
    let r1 = s.remove(from);
    let t = r1.insert(to, x);
    s.remove_ensures(from);
    r1.insert_ensures(to, x);
    assert(t[to] == x);
    let r2 = t.remove(to);
    t.remove_ensures(to);
    assert(r2 =~= r1);
    r2.insert_ensures(from, x);
    assert(r2.insert(from, x) =~= s);
}

/// A permutation of `0..len` holds each of these indices exactly once, and
/// no other value at all. In particular, however often shuffle is toggled
/// off and on again, the regenerated playback order still names every
/// track-list index exactly once.
pub proof fn lemma_permutation_counts(o: Seq<usize>, len: nat)
    requires
        is_index_permutation(o, len),
    ensures
        forall|v: int| 0 <= v < len ==> #[trigger] o.to_multiset().count(v as usize) == 1,
        forall|v: usize| (v as nat) >= len ==> #[trigger] o.to_multiset().count(v) == 0,
{
    o.to_multiset_ensures();
    o.lemma_multiset_has_no_duplicates();
    assert forall|v: int| 0 <= v < len implies #[trigger] o.to_multiset().count(v as usize) == 1 by {
        assert(o.contains(v as usize));
        assert(o.to_multiset().count(v as usize) > 0);
    }
    assert forall|v: usize| (v as nat) >= len implies #[trigger] o.to_multiset().count(v) == 0 by {
        if o.to_multiset().count(v) > 0 {
            assert(o.contains(v));
            let k = choose|k: int| 0 <= k < o.len() && o[k] == v;
            assert(o[k] < len);
        }
    }
}

/// Under track repeat, an automatic advance re-selects the current position
/// and keeps the policy; a manual skip that has somewhere to advance to
/// downgrades the policy to playlist repeat.
pub proof fn lemma_track_repeat_policy(pre: Queue)
    requires
        pre.wf(),
        pre.repeat == RepeatSetting::RepeatTrack,
    ensures
        spec_next_outcome(pre, false).1 == pre.current_track,
        spec_next_outcome(pre, false).2 == RepeatSetting::RepeatTrack,
        pre.spec_next_index() is Some ==> spec_next_outcome(pre, true).2
            == RepeatSetting::RepeatPlaylist,
{
}

/// The first position where `x` stands in `order`, or `None` if it does not
/// occur.
fn position_of(order: &Vec<usize>, x: usize) -> (r: Option<usize>)
    ensures
        r matches Some(p) ==> (p as int) < order@.len() && order@[p as int] == x,
        r is None ==> !order@.contains(x),
{
    let mut i: usize = 0;
    while i < order.len()
        invariant
            i <= order@.len(),
            forall|j: int| 0 <= j < i ==> order@[j] != x,
        decreases order@.len() - i,
    {
        if order[i] == x {
            return Some(i);
        }
        i = i + 1;
    }
    None
}

/// In a duplicate-free sequence, any position holding `x` is the one
/// `index_of` names.
proof fn lemma_position_is_index_of(order: Seq<usize>, x: usize, p: int)
    requires
        order.no_duplicates(),
        0 <= p < order.len(),
        order[p] == x,
    ensures
        order.index_of(x) == p,
{
    assert(order.contains(x));
    let w = order.index_of(x);
    assert(0 <= w < order.len() && order[w] == x);
}

/// An element-for-element copy of an index vector.
fn copy_indices(v: &Vec<usize>) -> (r: Vec<usize>)
    ensures
        r@ == v@,
{
    let mut r: Vec<usize> = Vec::new();
    let mut i: usize = 0;
    while i < v.len()
        invariant
            i <= v@.len(),
            r@ == v@.subrange(0, i as int),
        decreases v@.len() - i,
    {
        r.push(v[i]);
        i = i + 1;
    }
    proof {
        assert(r@ == v@.subrange(0, v@.len() as int));
        assert(v@.subrange(0, v@.len() as int) =~= v@);
    }
    r
}

} // verus!
