//! The frame index: stored frames in the order in which they were added,
//! found by id and read by range.

use vstd::prelude::*;

verus! {

/// Mathematical value of a stored frame.
pub struct DbFrameView {
    pub id: i64,
    pub channel: u8,
    pub speed: u8,
    pub timestamp: i64,
    pub rssi: i8,
    pub home_id: u32,
    pub src_node_id: u8,
    pub dst_node_id: u8,
    pub payload: Seq<u8>,
}

/// A stored frame.
#[derive(Debug, Clone)]
pub struct DbFrame {
    pub id: i64,
    pub channel: u8,
    pub speed: u8,
    pub timestamp: i64,
    pub rssi: i8,
    pub home_id: u32,
    pub src_node_id: u8,
    pub dst_node_id: u8,
    pub payload: Vec<u8>,
}

impl View for DbFrame {
    type V = DbFrameView;

    open spec fn view(&self) -> DbFrameView {
        DbFrameView {
            id: self.id,
            channel: self.channel,
            speed: self.speed,
            timestamp: self.timestamp,
            rssi: self.rssi,
            home_id: self.home_id,
            src_node_id: self.src_node_id,
            dst_node_id: self.dst_node_id,
            payload: self.payload@,
        }
    }
}

impl DbFrame {
    /// A copy of the frame.
    pub fn duplicate(&self) -> (copy: DbFrame)
        ensures
            copy@ == self@,
    {
        DbFrame {
            id: self.id,
            channel: self.channel,
            speed: self.speed,
            timestamp: self.timestamp,
            rssi: self.rssi,
            home_id: self.home_id,
            src_node_id: self.src_node_id,
            dst_node_id: self.dst_node_id,
            payload: self.payload.clone(),
        }
    }
}

/// The rows of an index from `offset` on, at most `limit` of them.
pub open spec fn rows_in_range(rows: Seq<DbFrameView>, offset: int, limit: int) -> Seq<DbFrameView> {
    if offset >= rows.len() {
        Seq::empty()
    } else if limit >= rows.len() - offset {
        rows.skip(offset)
    } else {
        rows.subrange(offset, offset + limit)
    }
}

/// A frame index in memory. The frame added as the n-th has the id n:
/// ids count from 1, in the order of insertion.
pub struct MemoryFrameDatabase {
    frames: Vec<DbFrame>,
}

impl View for MemoryFrameDatabase {
    type V = Seq<DbFrameView>;

    /// The rows in the order of insertion.
    closed spec fn view(&self) -> Seq<DbFrameView> {
        self.frames@.map_values(|f: DbFrame| f@)
    }
}

impl MemoryFrameDatabase {
    #[verifier::type_invariant]
    spec fn inv(self) -> bool {
        &&& self.frames@.len() <= i64::MAX
        &&& forall|i: int| 0 <= i < self.frames@.len() ==> (#[trigger] self.frames@[i]).id == i + 1
    }

    /// An index without rows.
    pub fn new() -> (database: MemoryFrameDatabase)
        ensures
            database@ == Seq::<DbFrameView>::empty(),
    {
        let database = MemoryFrameDatabase { frames: Vec::new() };
        database
    }

    /// Adds a frame as the last row. The id of `frame` is not read: the
    /// row gets the next id. Returns the id, or `None`, with the index
    /// unchanged, where no id is left.
    pub fn add_frame(&mut self, frame: DbFrame) -> (id: Option<i64>)
        ensures
            old(self)@.len() < i64::MAX ==> id == Some((old(self)@.len() + 1) as i64),
            old(self)@.len() < i64::MAX ==> final(self)@ == old(self)@.push(
                DbFrameView { id: (old(self)@.len() + 1) as i64, ..frame@ },
            ),
            old(self)@.len() >= i64::MAX ==> id is None && final(self)@ == old(self)@,
    {
        proof {
            use_type_invariant(&*self);
        }
        if self.frames.len() as u64 >= i64::MAX as u64 {
            return None;
        }
        let id = (self.frames.len() as u64 + 1) as i64;
        let row = DbFrame { id, ..frame };
        let mut frames: Vec<DbFrame> = Vec::new();
        core::mem::swap(&mut self.frames, &mut frames);
        frames.push(row);
        core::mem::swap(&mut self.frames, &mut frames);
        Some(id)
    }

    /// The row with the id `id`, if there is one.
    pub fn get_frame(&self, id: u64) -> (frame: Option<DbFrame>)
        ensures
            1 <= id <= self@.len() ==> frame is Some && frame->Some_0@ == self@[id - 1]
                && frame->Some_0.id == id,
            !(1 <= id <= self@.len()) ==> frame is None,
            forall|i: int| 0 <= i < self@.len() ==> (#[trigger] self@[i]).id == i + 1,
    {
        proof {
            use_type_invariant(self);
        }
        if id == 0 || id > self.frames.len() as u64 {
            return None;
        }
        let at = (id - 1) as usize;
        Some(self.frames[at].duplicate())
    }

    /// The rows from `offset` on, at most `limit` of them, in the order of
    /// insertion.
    pub fn get_frames(&self, offset: usize, limit: usize) -> (rows: Vec<DbFrame>)
        ensures
            rows@.map_values(|f: DbFrame| f@) == rows_in_range(self@, offset as int, limit as int),
    {
        let mut rows: Vec<DbFrame> = Vec::new();
        let total = self.frames.len();
        if offset >= total {
            return rows;
        }
        let end = if limit >= total - offset {
            total
        } else {
            offset + limit
        };
        let mut i = offset;
        while i < end
            invariant
                offset <= i <= end <= total,
                total == self.frames@.len(),
                rows@.map_values(|f: DbFrame| f@) =~= self@.subrange(offset as int, i as int),
            decreases end - i,
        {
            let ghost before = rows@.map_values(|f: DbFrame| f@);
            let row = self.frames[i].duplicate();
            rows.push(row);
            assert(rows@.map_values(|f: DbFrame| f@) =~= before.push(row@));
            i += 1;
        }
        rows
    }

    /// Number of rows.
    pub fn len(&self) -> (count: usize)
        ensures
            count == self@.len(),
    {
        self.frames.len()
    }
}

} // verus!
