//! The play queue: an ordered list of tracks and the position of the one
//! that is current.

use std::collections::VecDeque;

use vstd::prelude::*;

use crate::types::TrackInfo;

verus! {

broadcast use vstd::std_specs::vecdeque::group_vec_dequeue_axioms;

/// One entry of the queue.
#[derive(Debug)]
pub struct QueueItem {
    pub track: TrackInfo,
}

impl Clone for QueueItem {
    fn clone(&self) -> (r: Self)
        ensures
            r == *self,
    {
        QueueItem { track: self.track.clone() }
    }
}

/// Outcome of a "previous" request.
#[derive(Debug, Clone, Copy, PartialEq, Eq, Structural)]
pub enum PreviousAction {
    /// Restart the current track from the beginning.
    RestartCurrent,
    /// The queue moved back to this index.
    MoveToPrevious(usize),
    /// Nothing before the current track (or nothing current).
    AtStart,
}

/// Abstract state of a queue: its entries and the current position.
pub struct QueueModel {
    pub items: Seq<QueueItem>,
    pub current: Option<int>,
}

/// Threshold after which "previous" restarts the current track instead.
pub const PREVIOUS_RESTART_MS: u64 = 3_000;

/// Queue entries for a list of tracks, in order.
pub open spec fn items_of(tracks: Seq<TrackInfo>) -> Seq<QueueItem> {
    Seq::new(tracks.len(), |i: int| QueueItem { track: tracks[i] })
}

impl QueueModel {
    /// The current position, when there is one, names an entry.
    pub open spec fn wf(self) -> bool {
        self.current matches Some(i) ==> 0 <= i < self.items.len()
    }

    pub open spec fn play_now(self, track: TrackInfo) -> QueueModel {
        QueueModel { items: seq![QueueItem { track }], current: Some(0) }
    }

    pub open spec fn add_to_queue(self, track: TrackInfo) -> QueueModel {
        QueueModel {
            items: self.items.push(QueueItem { track }),
            current: if self.current is None {
                Some(0)
            } else {
                self.current
            },
        }
    }

    pub open spec fn insert_next(self, tracks: Seq<TrackInfo>) -> QueueModel {
        if tracks.len() == 0 {
            self
        } else {
            match self.current {
                Some(idx) => QueueModel {
                    items: self.items.subrange(0, idx + 1) + items_of(tracks) + self.items.subrange(
                        idx + 1,
                        self.items.len() as int,
                    ),
                    current: self.current,
                },
                None => QueueModel { items: self.items + items_of(tracks), current: Some(0) },
            }
        }
    }

    pub open spec fn set_and_play(self, tracks: Seq<TrackInfo>, start_index: int) -> QueueModel {
        QueueModel {
            items: items_of(tracks),
            current: if tracks.len() == 0 {
                None
            } else if start_index < tracks.len() - 1 {
                Some(start_index)
            } else {
                Some(tracks.len() - 1)
            },
        }
    }

    /// The position after advancing: the next entry, or none past the end.
    pub open spec fn next(self) -> QueueModel {
        match self.current {
            None => self,
            Some(i) => QueueModel {
                items: self.items,
                current: if i + 1 >= self.items.len() {
                    None
                } else {
                    Some(i + 1)
                },
            },
        }
    }

    /// What "previous" at playback position `position_ms` answers.
    pub open spec fn previous_action(self, position_ms: int) -> PreviousAction {
        match self.current {
            None => PreviousAction::AtStart,
            Some(i) => if position_ms > PREVIOUS_RESTART_MS {
                PreviousAction::RestartCurrent
            } else if i == 0 {
                PreviousAction::AtStart
            } else {
                PreviousAction::MoveToPrevious((i - 1) as usize)
            },
        }
    }

    /// The queue after "previous" at playback position `position_ms`.
    pub open spec fn previous(self, position_ms: int) -> QueueModel {
        match self.previous_action(position_ms) {
            PreviousAction::MoveToPrevious(j) => QueueModel {
                items: self.items,
                current: Some(j as int),
            },
            _ => self,
        }
    }

    /// The current entry, if any.
    pub open spec fn current_item(self) -> Option<QueueItem> {
        match self.current {
            Some(i) => if 0 <= i < self.items.len() {
                Some(self.items[i])
            } else {
                None
            },
            None => None,
        }
    }
}

/// The play queue.
#[derive(Debug)]
pub struct PlaybackQueue {
    items: VecDeque<QueueItem>,
    current_index: Option<usize>,
}

impl View for PlaybackQueue {
    type V = QueueModel;

    closed spec fn view(&self) -> QueueModel {
        QueueModel {
            items: self.items@,
            current: match self.current_index {
                Some(i) => Some(i as int),
                None => None,
            },
        }
    }
}

impl PlaybackQueue {
    #[verifier::type_invariant]
    closed spec fn inv(self) -> bool {
        self.current_index matches Some(i) ==> i < self.items@.len()
    }

    /// An empty queue with nothing current.
    pub fn new() -> (q: Self)
        ensures
            q@.items == Seq::<QueueItem>::empty(),
            q@.current is None,
    {
        PlaybackQueue { items: VecDeque::new(), current_index: None }
    }

    /// Replace the queue by a single track and make it current.
    pub fn play_now(&mut self, track: TrackInfo)
        ensures
            final(self)@ == old(self)@.play_now(track),
    {
        let mut items = VecDeque::new();
        items.push_back(QueueItem { track });
        *self = PlaybackQueue { items, current_index: Some(0) };
        assert(self@.items =~= seq![QueueItem { track }]);
    }

    /// Append a track; if nothing was current, the first entry becomes current.
    pub fn add_to_queue(&mut self, track: TrackInfo)
        ensures
            final(self)@ == old(self)@.add_to_queue(track),
    {
        let mut taken = PlaybackQueue::new();
        std::mem::swap(&mut taken, self);
        proof {
            use_type_invariant(&taken);
        }
        let PlaybackQueue { items, current_index } = taken;
        let mut items = items;
        let mut current = current_index;
        items.push_back(QueueItem { track });
        if current.is_none() {
            current = Some(0);
        }
        *self = PlaybackQueue { items, current_index: current };
    }

    /// Insert tracks right after the current one, in order ("queue next").
    /// With nothing current they are appended and the first entry becomes current.
    pub fn insert_next(&mut self, tracks: Vec<TrackInfo>)
        ensures
            final(self)@ == old(self)@.insert_next(tracks@),
    {
        if tracks.len() == 0 {
            return;
        }
        let mut taken = PlaybackQueue::new();
        std::mem::swap(&mut taken, self);
        proof {
            use_type_invariant(&taken);
        }
        let PlaybackQueue { items, current_index } = taken;
        let ghost old_items = items@;
        let mut items = items;
        let current = current_index;
        let n = tracks.len();
        let mut tracks = tracks;
        let ghost all_tracks = tracks@;
        match current {
            Some(idx) => {
                let old_len = items.len();
                assert(idx < old_len);
                let insert_pos = idx + 1;
                let mut i: usize = 0;
                let mut rest: Vec<TrackInfo> = Vec::new();
                // Move the tracks out in order, keeping a reversed stack.
                while tracks.len() > 0
                    invariant
                        tracks@ + rest@.reverse() =~= all_tracks,
                    decreases tracks.len(),
                {
                    let t = tracks.pop().unwrap();
                    rest.push(t);
                    assert(tracks@ + rest@.reverse() =~= all_tracks);
                }
                assert(rest@.reverse() =~= all_tracks);
                while i < n
                    invariant
                        n == all_tracks.len(),
                        0 <= i <= n,
                        insert_pos == idx + 1,
                        idx < old_items.len(),
                        rest@.len() == n - i,
                        forall|k: int| 0 <= k < rest@.len() ==> rest@[k] == all_tracks[n - 1 - k],
                        items@ =~= old_items.subrange(0, idx + 1) + items_of(
                            all_tracks.subrange(0, i as int),
                        ) + old_items.subrange(idx + 1, old_items.len() as int),
                    decreases n - i,
                {
                    let t = rest.pop().unwrap();
                    assert(t == all_tracks[i as int]);
                    let cur_len = items.len();
                    assert(insert_pos + i <= cur_len);
                    items.insert(insert_pos + i, QueueItem { track: t });
                    assert(items_of(all_tracks.subrange(0, i + 1)) =~= items_of(
                        all_tracks.subrange(0, i as int),
                    ).push(QueueItem { track: t }));
                    i = i + 1;
                }
                assert(all_tracks.subrange(0, n as int) =~= all_tracks);
                *self = PlaybackQueue { items, current_index: current };
            },
            None => {
                let mut i: usize = 0;
                let mut rest: Vec<TrackInfo> = Vec::new();
                while tracks.len() > 0
                    invariant
                        tracks@ + rest@.reverse() =~= all_tracks,
                    decreases tracks.len(),
                {
                    let t = tracks.pop().unwrap();
                    rest.push(t);
                    assert(tracks@ + rest@.reverse() =~= all_tracks);
                }
                while i < n
                    invariant
                        n == all_tracks.len(),
                        0 <= i <= n,
                        rest@.len() == n - i,
                        forall|k: int| 0 <= k < rest@.len() ==> rest@[k] == all_tracks[n - 1 - k],
                        items@ =~= old_items + items_of(all_tracks.subrange(0, i as int)),
                    decreases n - i,
                {
                    let t = rest.pop().unwrap();
                    assert(t == all_tracks[i as int]);
                    items.push_back(QueueItem { track: t });
                    assert(items_of(all_tracks.subrange(0, i + 1)) =~= items_of(
                        all_tracks.subrange(0, i as int),
                    ).push(QueueItem { track: t }));
                    i = i + 1;
                }
                assert(all_tracks.subrange(0, n as int) =~= all_tracks);
                *self = PlaybackQueue { items, current_index: Some(0) };
            },
        }
    }

    /// Replace the queue with `tracks` and make `start_index` (clamped to the
    /// last entry) current; an empty list leaves nothing current.
    pub fn set_and_play(&mut self, tracks: Vec<TrackInfo>, start_index: usize)
        ensures
            final(self)@ == old(self)@.set_and_play(tracks@, start_index as int),
    {
        let ghost all_tracks = tracks@;
        let n = tracks.len();
        let mut tracks = tracks;
        let mut rest: Vec<TrackInfo> = Vec::new();
        while tracks.len() > 0
            invariant
                tracks@ + rest@.reverse() =~= all_tracks,
            decreases tracks.len(),
        {
            let t = tracks.pop().unwrap();
            rest.push(t);
            assert(tracks@ + rest@.reverse() =~= all_tracks);
        }
        let mut items: VecDeque<QueueItem> = VecDeque::new();
        let mut i: usize = 0;
        while i < n
            invariant
                n == all_tracks.len(),
                0 <= i <= n,
                rest@.len() == n - i,
                forall|k: int| 0 <= k < rest@.len() ==> rest@[k] == all_tracks[n - 1 - k],
                items@ =~= items_of(all_tracks.subrange(0, i as int)),
            decreases n - i,
        {
            let t = rest.pop().unwrap();
            assert(t == all_tracks[i as int]);
            items.push_back(QueueItem { track: t });
            assert(items_of(all_tracks.subrange(0, i + 1)) =~= items_of(
                all_tracks.subrange(0, i as int),
            ).push(QueueItem { track: t }));
            i = i + 1;
        }
        assert(all_tracks.subrange(0, n as int) =~= all_tracks);
        let current = if items.len() > 0 {
            let last = items.len() - 1;
            Some(
                if start_index < last {
                    start_index
                } else {
                    last
                },
            )
        } else {
            None
        };
        *self = PlaybackQueue { items, current_index: current };
    }

    /// Advance to the next entry and return it; past the end nothing is current.
    pub fn next(&mut self) -> (r: Option<&QueueItem>)
        ensures
            final(self)@ == old(self)@.next(),
            match r {
                Some(item) => final(self)@.current_item() == Some(*item),
                None => final(self)@.current_item() is None,
            },
            old(self)@.current is None ==> r is None,
    {
        proof {
            use_type_invariant(&*self);
        }
        let len = self.items.len();
        let current_index = match self.current_index {
            Some(i) => i,
            None => {
                return None;
            },
        };
        let next_index = current_index + 1;
        if next_index >= len {
            self.current_index = None;
            return None;
        }
        self.current_index = Some(next_index);
        Some(&self.items[next_index])
    }

    /// Step back: past 3 s into the track it restarts the current entry, at
    /// the first entry (or with nothing current) it reports the start, and
    /// otherwise it moves to the previous entry.
    pub fn previous(&mut self, position_ms: u64) -> (a: PreviousAction)
        ensures
            a == old(self)@.previous_action(position_ms as int),
            final(self)@ == old(self)@.previous(position_ms as int),
    {
        proof {
            use_type_invariant(&*self);
        }
        let current_index = match self.current_index {
            Some(index) => index,
            None => {
                return PreviousAction::AtStart;
            },
        };
        if position_ms > PREVIOUS_RESTART_MS {
            return PreviousAction::RestartCurrent;
        }
        if current_index == 0 {
            return PreviousAction::AtStart;
        }
        let previous_index = current_index - 1;
        self.current_index = Some(previous_index);
        PreviousAction::MoveToPrevious(previous_index)
    }

    /// The current entry, if any.
    pub fn current(&self) -> (r: Option<&QueueItem>)
        ensures
            match r {
                Some(item) => self@.current_item() == Some(*item),
                None => self@.current_item() is None,
            },
    {
        proof {
            use_type_invariant(self);
        }
        match self.current_index {
            Some(index) => Some(&self.items[index]),
            None => None,
        }
    }

    /// Empty the queue.
    pub fn clear(&mut self)
        ensures
            final(self)@.items == Seq::<QueueItem>::empty(),
            final(self)@.current is None,
    {
        *self = PlaybackQueue { items: VecDeque::new(), current_index: None };
    }

    /// The entries in order.
    pub fn items(&self) -> (r: &VecDeque<QueueItem>)
        ensures
            r@ == self@.items,
    {
        &self.items
    }

    /// The current position: always on an entry, so none in an empty queue.
    pub fn current_index(&self) -> (r: Option<usize>)
        ensures
            match r {
                Some(i) => self@.current == Some(i as int),
                None => self@.current is None,
            },
            r matches Some(i) ==> i < self@.items.len(),
            self@.items.len() == 0 ==> r is None,
            self@.wf(),
    {
        proof {
            use_type_invariant(self);
        }
        self.current_index
    }
}

/// "Queue next": tracks inserted after the current one are played next, in
/// the order given, before whatever followed the current track.
pub proof fn lemma_insert_next_then_next(q: QueueModel, tracks: Seq<TrackInfo>)
    requires
        q.wf(),
        q.current is Some,
        tracks.len() > 0,
    ensures
        q.insert_next(tracks).next().current_item() == Some(QueueItem { track: tracks[0] }),
        q.insert_next(tracks).current_item() == q.current_item(),
        q.insert_next(tracks).items.len() == q.items.len() + tracks.len(),
{
    let idx = q.current->0;
    let r = q.insert_next(tracks);
    assert(r.items[idx + 1] == items_of(tracks)[0]);
    assert(r.items[idx] == q.items[idx]);
}

/// Within the first three seconds, "previous" after "next" returns to the
/// entry that was current before.
pub proof fn lemma_previous_undoes_next(q: QueueModel, position_ms: int)
    requires
        q.wf(),
        q.current matches Some(i) && i + 1 < q.items.len(),
        q.items.len() <= usize::MAX,
        position_ms <= PREVIOUS_RESTART_MS,
    ensures
        q.next().previous(position_ms) == q,
        q.next().previous_action(position_ms) == PreviousAction::MoveToPrevious(
            q.current->0 as usize,
        ),
{
}

/// Every queue operation keeps the current position on an entry.
pub proof fn lemma_queue_operations_keep_wf(
    q: QueueModel,
    track: TrackInfo,
    tracks: Seq<TrackInfo>,
    start_index: int,
    position_ms: int,
)
    requires
        q.wf(),
        0 <= start_index,
    ensures
        q.play_now(track).wf(),
        q.add_to_queue(track).wf(),
        q.insert_next(tracks).wf(),
        q.set_and_play(tracks, start_index).wf(),
        q.next().wf(),
        q.previous(position_ms).wf(),
{
}

/// Replacing the queue starts at the requested entry, clamped to the last one.
pub proof fn lemma_set_and_play_current(q: QueueModel, tracks: Seq<TrackInfo>, start_index: int)
    requires
        tracks.len() > 0,
        0 <= start_index,
    ensures
        q.set_and_play(tracks, start_index).current_item() == Some(
            QueueItem {
                track: tracks[if start_index < tracks.len() - 1 {
                    start_index
                } else {
                    tracks.len() - 1
                }],
            },
        ),
{
}

/// "Play now" discards whatever the queue held: afterwards the queue holds
/// exactly the one track, it is current, and there is nothing before or
/// after it to move to.
pub proof fn lemma_play_now_replaces_queue(q: QueueModel, track: TrackInfo, position_ms: int)
    requires
        position_ms <= PREVIOUS_RESTART_MS,
    ensures
        q.play_now(track).items.len() == 1,
        q.play_now(track).items[0] == (QueueItem { track }),
        q.play_now(track).current == Some(0int),
        q.play_now(track).current_item() == Some(QueueItem { track }),
        q.play_now(track).next().current is None,
        q.play_now(track).previous_action(position_ms) == PreviousAction::AtStart,
{
}

/// "Add to queue" puts the track after every entry, keeps the entries and
/// the current one as they were, and makes the first entry current when
/// nothing was.
pub proof fn lemma_add_to_queue_appends(q: QueueModel, track: TrackInfo)
    requires
        q.wf(),
    ensures
        q.add_to_queue(track).items.len() == q.items.len() + 1,
        q.add_to_queue(track).items.last() == (QueueItem { track }),
        forall|i: int|
            0 <= i < q.items.len() ==> #[trigger] q.add_to_queue(track).items[i] == q.items[i],
        q.current is Some ==> q.add_to_queue(track).current_item() == q.current_item(),
        q.current is None ==> q.add_to_queue(track).current == Some(0int),
{
}

/// An operation on the play queue.
pub enum QueueOp {
    PlayNow(TrackInfo),
    AddToQueue(TrackInfo),
    InsertNext(Seq<TrackInfo>),
    SetAndPlay(Seq<TrackInfo>, nat),
    Next,
    Previous(int),
    Clear,
}

/// The queue after operation `op`.
pub open spec fn queue_step(q: QueueModel, op: QueueOp) -> QueueModel {
    match op {
        QueueOp::PlayNow(t) => q.play_now(t),
        QueueOp::AddToQueue(t) => q.add_to_queue(t),
        QueueOp::InsertNext(ts) => q.insert_next(ts),
        QueueOp::SetAndPlay(ts, i) => q.set_and_play(ts, i as int),
        QueueOp::Next => q.next(),
        QueueOp::Previous(p) => q.previous(p),
        QueueOp::Clear => QueueModel { items: Seq::empty(), current: None },
    }
}

/// The queue after the operations `ops`, in order.
pub open spec fn queue_run(q: QueueModel, ops: Seq<QueueOp>) -> QueueModel
    decreases ops.len(),
{
    if ops.len() == 0 {
        q
    } else {
        queue_step(queue_run(q, ops.drop_last()), ops.last())
    }
}

/// Whatever the operations, starting from an empty queue the current
/// position always points at an entry (and there is none when the queue is
/// empty), so the current entry is the entry at the current position.
pub proof fn lemma_queue_run_keeps_current_on_an_entry(ops: Seq<QueueOp>)
    ensures
        queue_run(QueueModel { items: Seq::empty(), current: None }, ops).wf(),
        queue_run(QueueModel { items: Seq::empty(), current: None }, ops).items.len() == 0 ==> queue_run(
            QueueModel { items: Seq::empty(), current: None },
            ops,
        ).current is None,
    decreases ops.len(),
{
    let empty = QueueModel { items: Seq::empty(), current: None };
    if ops.len() > 0 {
        lemma_queue_run_keeps_current_on_an_entry(ops.drop_last());
        let q = queue_run(empty, ops.drop_last());
        match ops.last() {
            QueueOp::PlayNow(t) => lemma_queue_operations_keep_wf(q, t, Seq::empty(), 0, 0),
            QueueOp::AddToQueue(t) => lemma_queue_operations_keep_wf(q, t, Seq::empty(), 0, 0),
            QueueOp::InsertNext(ts) => lemma_queue_operations_keep_wf(q, arbitrary(), ts, 0, 0),
            QueueOp::SetAndPlay(ts, i) => lemma_queue_operations_keep_wf(
                q,
                arbitrary(),
                ts,
                i as int,
                0,
            ),
            QueueOp::Next => lemma_queue_operations_keep_wf(q, arbitrary(), Seq::empty(), 0, 0),
            QueueOp::Previous(p) => lemma_queue_operations_keep_wf(q, arbitrary(), Seq::empty(), 0, p),
            QueueOp::Clear => {},
        }
    }
}

} // verus!
