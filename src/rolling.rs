//! The bounded multi-file writer as a state machine. The caller opens, writes,
//! flushes, measures and closes the files; this machine decides how many rows
//! each row group holds and when a file is closed.

use vstd::prelude::*;

verus! {

/// The largest number of row groups one columnar file may hold.
pub const MAX_ROW_GROUPS_PER_FILE: usize = 32767;

/// Rows in each batch that becomes one row group (the last one of a run may be shorter).
pub const COLUMNAR_BATCH_SIZE: usize = 5000;

/// Total rows over the row groups of one file; each row group is `(rows, bytes)`,
/// the bytes being the size of the file measured right after that group was flushed.
pub open spec fn rows_in_file(groups: Seq<(nat, nat)>) -> nat
    decreases groups.len(),
{
    if groups.len() == 0 {
        0
    } else {
        rows_in_file(groups.drop_last()) + groups.last().0
    }
}

/// Total rows over a sequence of files.
pub open spec fn rows_in_files(files: Seq<Seq<(nat, nat)>>) -> nat
    decreases files.len(),
{
    if files.len() == 0 {
        0
    } else {
        rows_in_files(files.drop_last()) + rows_in_file(files.last())
    }
}

/// Every row group holds at least one row and at most one batch.
pub open spec fn groups_well_sized(groups: Seq<(nat, nat)>) -> bool {
    forall|k: int| 0 <= k < groups.len() ==> 0 < #[trigger] groups[k].0 <= COLUMNAR_BATCH_SIZE
}

/// All row groups of a file before its last one were measured under the byte limit:
/// the file grew past the limit, if at all, only by its last row group.
pub open spec fn under_limit_but_last(groups: Seq<(nat, nat)>, max_file_size: nat) -> bool {
    forall|k: int| 0 <= k < groups.len() - 1 ==> #[trigger] groups[k].1 < max_file_size
}

/// What holds of each file that has been closed.
pub open spec fn closed_file_ok(groups: Seq<(nat, nat)>, max_file_size: nat) -> bool {
    &&& 1 <= groups.len() <= MAX_ROW_GROUPS_PER_FILE
    &&& groups_well_sized(groups)
    &&& under_limit_but_last(groups, max_file_size)
}

/// Rows of the batch that comes next when `written` of `total` rows are done.
pub open spec fn next_batch_spec(total: nat, written: nat) -> nat {
    if total - written < COLUMNAR_BATCH_SIZE {
        (total - written) as nat
    } else {
        COLUMNAR_BATCH_SIZE as nat
    }
}

/// Decides, for a run of `total` rows, the length of each row group and the moment
/// each file is closed. Each row group is followed by a flush and a measurement of
/// the file's size; the file is closed once that size reaches `max_file_size`, once
/// it holds `MAX_ROW_GROUPS_PER_FILE` row groups, or once all rows are written.
pub struct FileRoller {
    pub total: usize,
    pub max_file_size: u64,
    /// Rows written so far, over all files.
    pub written: usize,
    /// Index of the file being written, or of the next one to open.
    pub file_index: usize,
    /// Row groups in the file being written.
    pub row_groups: usize,
    /// Row groups of each closed file, in order.
    pub closed: Ghost<Seq<Seq<(nat, nat)>>>,
    /// Row groups of the file being written.
    pub current: Ghost<Seq<(nat, nat)>>,
}

impl FileRoller {
    /// The roller's invariant: the rows recorded add up to `written`, closed files
    /// are numbered contiguously from 0, and every file, closed or open, keeps the
    /// row-group ceiling, non-empty row groups and the byte limit but for its last group.
    pub open spec fn wf(&self) -> bool {
        &&& self.written <= self.total
        &&& self.file_index == self.closed@.len()
        &&& self.file_index <= rows_in_files(self.closed@)
        &&& self.row_groups == self.current@.len()
        &&& self.row_groups < MAX_ROW_GROUPS_PER_FILE
        &&& rows_in_files(self.closed@) + rows_in_file(self.current@) == self.written
        &&& forall|f: int|
            0 <= f < self.closed@.len() ==> closed_file_ok(
                #[trigger] self.closed@[f],
                self.max_file_size as nat,
            )
        &&& groups_well_sized(self.current@)
        &&& forall|k: int|
            0 <= k < self.current@.len() ==> #[trigger] self.current@[k].1
                < self.max_file_size
        &&& self.written == self.total ==> self.current@.len() == 0
    }

    /// All rows have been written and the last file has been closed.
    pub open spec fn done(&self) -> bool {
        self.written == self.total
    }

    /// A roller for `total` rows and files of at most about `max_file_size` bytes.
    pub fn new(total: usize, max_file_size: u64) -> (r: FileRoller)
        ensures
            r.wf(),
            r.total == total,
            r.max_file_size == max_file_size,
            r.written == 0,
            r.file_index == 0,
            r.row_groups == 0,
            r.closed@ == Seq::<Seq<(nat, nat)>>::empty(),
            r.current@ == Seq::<(nat, nat)>::empty(),
    {
        FileRoller {
            total,
            max_file_size,
            written: 0,
            file_index: 0,
            row_groups: 0,
            closed: Ghost(Seq::empty()),
            current: Ghost(Seq::empty()),
        }
    }

    /// Whether every row has been written and the last file closed.
    pub fn is_done(&self) -> (r: bool)
        ensures
            r == self.done(),
    {
        self.written == self.total
    }

    /// Whether a new file must be opened before the next row group.
    pub fn needs_new_file(&self) -> (r: bool)
        requires
            self.wf(),
        ensures
            r == (self.current@.len() == 0),
    {
        self.row_groups == 0
    }

    /// Rows of the next row group: a full batch, or what remains if that is less.
    pub fn next_batch_len(&self) -> (r: usize)
        requires
            self.wf(),
            !self.done(),
        ensures
            r == next_batch_spec(self.total as nat, self.written as nat),
            0 < r <= COLUMNAR_BATCH_SIZE,
            self.written + r <= self.total,
    {
        let remaining = self.total - self.written;
        if remaining < COLUMNAR_BATCH_SIZE {
            remaining
        } else {
            COLUMNAR_BATCH_SIZE
        }
    }

    /// Records that a row group of `rows` rows was written and flushed, after which
    /// the file measured `file_size` bytes. Returns whether the file must now be
    /// closed; if so, the next row group goes to a new file with the next index.
    pub fn after_flush(&mut self, rows: usize, file_size: u64) -> (close: bool)
        requires
            old(self).wf(),
            !old(self).done(),
            rows == next_batch_spec(old(self).total as nat, old(self).written as nat),
        ensures
            final(self).wf(),
            final(self).total == old(self).total,
            final(self).max_file_size == old(self).max_file_size,
            final(self).written == old(self).written + rows,
            final(self).written > old(self).written,
            close == (file_size >= old(self).max_file_size || old(self).row_groups + 1
                >= MAX_ROW_GROUPS_PER_FILE || final(self).written == old(self).total),
            close ==> {
                &&& final(self).file_index == old(self).file_index + 1
                &&& final(self).row_groups == 0
                &&& final(self).closed@ == old(self).closed@.push(
                    old(self).current@.push((rows as nat, file_size as nat)),
                )
                &&& final(self).current@ == Seq::<(nat, nat)>::empty()
            },
            !close ==> {
                &&& final(self).file_index == old(self).file_index
                &&& final(self).row_groups == old(self).row_groups + 1
                &&& final(self).closed@ == old(self).closed@
                &&& final(self).current@ == old(self).current@.push(
                    (rows as nat, file_size as nat),
                )
            },
    {
        let ghost group = (rows as nat, file_size as nat);
        let ghost old_current = self.current@;
        let ghost old_closed = self.closed@;
        let ghost grown = old_current.push(group);
        assert(grown.drop_last() =~= old_current);
        self.written = self.written + rows;
        let close = file_size >= self.max_file_size || self.row_groups + 1 >= MAX_ROW_GROUPS_PER_FILE
            || self.written == self.total;
        if close {
            assert(rows_in_file(grown) == rows_in_file(old_current) + rows);
            self.file_index = self.file_index + 1;
            self.row_groups = 0;
            self.closed = Ghost(old_closed.push(grown));
            self.current = Ghost(Seq::empty());
            assert(self.closed@.drop_last() =~= old_closed);
            assert forall|f: int| 0 <= f < self.closed@.len() implies closed_file_ok(
                #[trigger] self.closed@[f],
                self.max_file_size as nat,
            ) by {
                if f < old_closed.len() {
                    assert(self.closed@[f] == old_closed[f]);
                } else {
                    assert(self.closed@[f] == grown);
                    assert forall|k: int| 0 <= k < grown.len() implies 0 < #[trigger] grown[k].0
                        <= COLUMNAR_BATCH_SIZE by {
                        if k < old_current.len() {
                            assert(grown[k] == old_current[k]);
                        }
                    }
                    assert forall|k: int| 0 <= k < grown.len() - 1 implies #[trigger] grown[k].1
                        < self.max_file_size by {
                        assert(grown[k] == old_current[k]);
                    }
                }
            }
        } else {
            self.row_groups = self.row_groups + 1;
            self.current = Ghost(grown);
            assert forall|k: int| 0 <= k < grown.len() implies 0 < #[trigger] grown[k].0
                <= COLUMNAR_BATCH_SIZE && grown[k].1 < self.max_file_size by {
                if k < old_current.len() {
                    assert(grown[k] == old_current[k]);
                }
            }
        }
        close
    }
}

/// At every point of a run, the row groups of the closed files and of the file being
/// written hold exactly the rows written so far; no closed file is empty and no row
/// group is empty. Once the run is done, no file is open and the closed files hold
/// exactly the requested number of rows.
pub proof fn lemma_rows_add_up(r: FileRoller)
    requires
        r.wf(),
    ensures
        rows_in_files(r.closed@) + rows_in_file(r.current@) == r.written,
        forall|f: int| 0 <= f < r.closed@.len() ==> 1 <= (#[trigger] r.closed@[f]).len(),
        forall|f: int, k: int|
            0 <= f < r.closed@.len() && 0 <= k < r.closed@[f].len() ==> 0 < (
            #[trigger] r.closed@[f][k]).0,
        forall|k: int| 0 <= k < r.current@.len() ==> 0 < (#[trigger] r.current@[k]).0,
        r.done() ==> r.current@.len() == 0 && rows_in_files(r.closed@) == r.total,
{
    assert forall|f: int, k: int|
        0 <= f < r.closed@.len() && 0 <= k < r.closed@[f].len() implies 0 < (
        #[trigger] r.closed@[f][k]).0 by {
        assert(closed_file_ok(r.closed@[f], r.max_file_size as nat));
    }
    if r.done() {
        assert(r.current@.len() == 0);
        assert(rows_in_file(r.current@) == 0);
    }
}

/// In every file, closed or still being written, each row group but the last was
/// measured under the byte limit: a file exceeds the limit by at most its last row group.
pub proof fn lemma_size_overshoot_bounded(r: FileRoller)
    requires
        r.wf(),
    ensures
        forall|f: int|
            0 <= f < r.closed@.len() ==> under_limit_but_last(
                #[trigger] r.closed@[f],
                r.max_file_size as nat,
            ),
        forall|k: int| 0 <= k < r.current@.len() ==> #[trigger] r.current@[k].1 < r.max_file_size,
{
    assert forall|f: int| 0 <= f < r.closed@.len() implies under_limit_but_last(
        #[trigger] r.closed@[f],
        r.max_file_size as nat,
    ) by {
        assert(closed_file_ok(r.closed@[f], r.max_file_size as nat));
    }
}

/// No file, closed or still being written, holds more than the row-group ceiling.
pub proof fn lemma_row_group_ceiling(r: FileRoller)
    requires
        r.wf(),
    ensures
        forall|f: int|
            0 <= f < r.closed@.len() ==> (#[trigger] r.closed@[f]).len() <= MAX_ROW_GROUPS_PER_FILE,
        r.current@.len() < MAX_ROW_GROUPS_PER_FILE,
{
    assert forall|f: int| 0 <= f < r.closed@.len() implies (
    #[trigger] r.closed@[f]).len() <= MAX_ROW_GROUPS_PER_FILE by {
        assert(closed_file_ok(r.closed@[f], r.max_file_size as nat));
    }
}

} // verus!
