//! The week model: five working-day checkpoint lists, a selection cursor
//! over them, the derived view of unregistered intervals, and the commands
//! that mutate the week and name the remote call each mutation owes.

use vstd::prelude::*;
use crate::checkpoint::Checkpoint;
use crate::time::{duration_minutes, duration_minutes_spec, MAX_SECS, Timestamp};

verus! {

/// The five supported weekdays. Saturday and Sunday are unsupported: they
/// are rejected by [`Weekday::from_index`] before a value of this type can
/// exist, so no operation on a `Week` ever has to branch on them.
#[derive(Clone, Copy, PartialEq, Eq, Structural, Debug)]
pub enum Weekday {
    Mon,
    Tue,
    Wed,
    Thu,
    Fri,
}

impl Weekday {
    /// Which weekday an index names: zero through four are Monday through
    /// Friday, five and six (Saturday and Sunday) and anything larger are
    /// rejected.
    pub open spec fn from_index_spec(i: int) -> Option<Weekday> {
        if i == 0 {
            Some(Weekday::Mon)
        } else if i == 1 {
            Some(Weekday::Tue)
        } else if i == 2 {
            Some(Weekday::Wed)
        } else if i == 3 {
            Some(Weekday::Thu)
        } else if i == 4 {
            Some(Weekday::Fri)
        } else {
            None
        }
    }

    /// The validation step in front of the five-day week: turns a weekday
    /// index (Monday is zero) into a supported weekday, and rejects
    /// Saturday, Sunday and out-of-range indices.
    pub fn from_index(i: u32) -> (r: Option<Weekday>)
        ensures
            r == Self::from_index_spec(i as int),
    {
        match i {
            0 => Some(Weekday::Mon),
            1 => Some(Weekday::Tue),
            2 => Some(Weekday::Wed),
            3 => Some(Weekday::Thu),
            4 => Some(Weekday::Fri),
            _ => None,
        }
    }

    /// The day after, cycling Friday back to Monday.
    pub open spec fn next_spec(self) -> Weekday {
        match self {
            Weekday::Mon => Weekday::Tue,
            Weekday::Tue => Weekday::Wed,
            Weekday::Wed => Weekday::Thu,
            Weekday::Thu => Weekday::Fri,
            Weekday::Fri => Weekday::Mon,
        }
    }

    /// The day before, cycling Monday back to Friday.
    pub open spec fn prev_spec(self) -> Weekday {
        match self {
            Weekday::Mon => Weekday::Fri,
            Weekday::Tue => Weekday::Mon,
            Weekday::Wed => Weekday::Tue,
            Weekday::Thu => Weekday::Wed,
            Weekday::Fri => Weekday::Thu,
        }
    }

    /// Steps to the following working day.
    pub fn next(self) -> (r: Weekday)
        ensures
            r == self.next_spec(),
    {
        match self {
            Weekday::Mon => Weekday::Tue,
            Weekday::Tue => Weekday::Wed,
            Weekday::Wed => Weekday::Thu,
            Weekday::Thu => Weekday::Fri,
            Weekday::Fri => Weekday::Mon,
        }
    }

    /// Steps to the preceding working day.
    pub fn prev(self) -> (r: Weekday)
        ensures
            r == self.prev_spec(),
    {
        match self {
            Weekday::Mon => Weekday::Fri,
            Weekday::Tue => Weekday::Mon,
            Weekday::Wed => Weekday::Tue,
            Weekday::Thu => Weekday::Wed,
            Weekday::Fri => Weekday::Thu,
        }
    }
}

/// One row of the unregistered view: a checkpoint whose interval is not yet
/// registered, together with that interval's derived length in minutes.
pub struct UnregisteredEntry {
    pub checkpoint: Checkpoint,
    pub minutes: u64,
}

/// Every checkpoint of a sequence is well formed.
pub open spec fn seq_wf(s: Seq<Checkpoint>) -> bool {
    forall|i: int| 0 <= i < s.len() ==> (#[trigger] s[i]).wf()
}

/// The sequence is ordered ascending by time (ties allowed).
pub open spec fn seq_ascending(s: Seq<Checkpoint>) -> bool {
    forall|i: int| 0 <= i < s.len() - 1 ==> (#[trigger] s[i]).time.secs <= s[i + 1].time.secs
}

/// Where the cursor lands after the active day changed length or identity:
/// an empty day pins it to zero, an index beyond the end clamps to the
/// next-to-last position (never below zero), a valid index stays.
pub open spec fn clamp_idx_spec(len: int, idx: int) -> int {
    if len == 0 {
        0
    } else if idx > len - 1 {
        if len >= 2 {
            len - 2
        } else {
            0
        }
    } else {
        idx
    }
}

impl Default for Week {
    /// The empty week, as [`Week::new`] builds it.
    fn default() -> (r: Week)
        ensures
            r.mon@ == Seq::<Checkpoint>::empty(),
            r.tue@ == Seq::<Checkpoint>::empty(),
            r.wed@ == Seq::<Checkpoint>::empty(),
            r.thu@ == Seq::<Checkpoint>::empty(),
            r.fri@ == Seq::<Checkpoint>::empty(),
            r.unregistered_checkpoints@ == Seq::<UnregisteredEntry>::empty(),
            r.selected_weekday == Weekday::Mon,
            r.selected_checkpoint_idx == 0,
            r.wf(),
    {
        Week::new()
    }
}

/// The unregistered-view row derived for position `i` of a day list: the
/// checkpoint there, with the derived duration of its interval against its
/// immediate successor.
pub open spec fn unreg_entry_spec(day: Seq<Checkpoint>, i: int) -> UnregisteredEntry {
    UnregisteredEntry {
        checkpoint: day[i],
        minutes: duration_minutes_spec(
            day[i].time.secs as int,
            day[i + 1].time.secs as int,
        ) as u64,
    }
}

/// The unregistered rows drawn from positions `0 .. n` of a day list, in
/// order: position `i` contributes a row exactly when its registered flag
/// is off.
pub open spec fn unreg_prefix_spec(day: Seq<Checkpoint>, n: int) -> Seq<UnregisteredEntry>
    decreases n,
{
    if n <= 0 {
        Seq::empty()
    } else {
        unreg_prefix_spec(day, n - 1) + (if !day[n - 1].registered {
            seq![unreg_entry_spec(day, n - 1)]
        } else {
            Seq::empty()
        })
    }
}

/// The unregistered view of one day: every position except the last
/// contributes its row when unregistered; the last position never does,
/// whatever its flag says, because its interval is still open.
pub open spec fn unreg_day_spec(day: Seq<Checkpoint>) -> Seq<UnregisteredEntry> {
    unreg_prefix_spec(day, day.len() - 1)
}

/// The unregistered view of a whole week, Monday through Friday.
pub open spec fn unreg_week_spec(
    mon: Seq<Checkpoint>,
    tue: Seq<Checkpoint>,
    wed: Seq<Checkpoint>,
    thu: Seq<Checkpoint>,
    fri: Seq<Checkpoint>,
) -> Seq<UnregisteredEntry> {
    unreg_day_spec(mon) + unreg_day_spec(tue) + unreg_day_spec(wed) + unreg_day_spec(thu)
        + unreg_day_spec(fri)
}

/// Every row of a day's unregistered view originates at a position strictly
/// before the day's last checkpoint: the open-ended final checkpoint is
/// never part of the view, even when its registered flag is off.
pub proof fn lemma_unregistered_skips_last(day: Seq<Checkpoint>, k: int)
    requires
        0 <= k < unreg_day_spec(day).len(),
    ensures
        exists|i: int|
            0 <= i < day.len() - 1 && unreg_day_spec(day)[k].checkpoint == #[trigger] day[i],
{
    lemma_unreg_prefix_origin(day, day.len() - 1, k);
}

/// Every row of an unregistered prefix originates at a position before the
/// prefix bound.
proof fn lemma_unreg_prefix_origin(day: Seq<Checkpoint>, n: int, k: int)
    requires
        0 <= k < unreg_prefix_spec(day, n).len(),
    ensures
        exists|i: int|
            0 <= i < n && unreg_prefix_spec(day, n)[k].checkpoint == #[trigger] day[i],
    decreases n,
{
    let head = unreg_prefix_spec(day, n - 1);
    if k < head.len() {
        lemma_unreg_prefix_origin(day, n - 1, k);
        let i = choose|i: int| 0 <= i < n - 1 && head[k].checkpoint == #[trigger] day[i];
        assert(unreg_prefix_spec(day, n)[k] == head[k]);
        assert(unreg_prefix_spec(day, n)[k].checkpoint == day[i]);
    } else {
        assert(unreg_prefix_spec(day, n)[k] == unreg_entry_spec(day, n - 1));
        assert(unreg_prefix_spec(day, n)[k].checkpoint == day[n - 1]);
    }
}

/// Collects one day's unregistered rows onto the end of `out`.
fn append_unregistered(day: &Vec<Checkpoint>, out: &mut Vec<UnregisteredEntry>)
    requires
        seq_wf(day@),
    ensures
        final(out)@ == old(out)@ + unreg_day_spec(day@),
{
    proof {
        assert(old(out)@ + unreg_prefix_spec(day@, 0) =~= old(out)@);
    }
    if day.len() == 0 {
        return;
    }
    let mut i: usize = 0;
    while i < day.len() - 1
        invariant
            seq_wf(day@),
            day@.len() >= 1,
            i <= day@.len() - 1,
            out@ == old(out)@ + unreg_prefix_spec(day@, i as int),
        decreases day@.len() - 1 - i,
    {
        if !day[i].registered {
            let minutes = duration_minutes(day[i].time, day[i + 1].time);
            out.push(UnregisteredEntry { checkpoint: day[i].duplicate(), minutes });
        }
        proof {
            assert(out@ =~= old(out)@ + unreg_prefix_spec(day@, i as int + 1));
        }
        i = i + 1;
    }
}

/// True when the list is ordered ascending by time: what the remote store
/// promises of each fetched day, checked before the week trusts it.
pub fn is_ascending(day: &Vec<Checkpoint>) -> (r: bool)
    ensures
        r == seq_ascending(day@),
{
    if day.len() < 2 {
        return true;
    }
    let mut i: usize = 0;
    let mut ok = true;
    while i < day.len() - 1
        invariant
            day@.len() >= 2,
            i <= day@.len() - 1,
            ok == (forall|j: int|
                0 <= j < i ==> (#[trigger] day@[j]).time.secs <= day@[j + 1].time.secs),
        decreases day@.len() - i,
    {
        if day[i].time.secs > day[i + 1].time.secs {
            ok = false;
        }
        i = i + 1;
    }
    ok
}

/// True when every checkpoint of the list lies in the supported timestamp
/// range.
pub fn all_wf(day: &Vec<Checkpoint>) -> (r: bool)
    ensures
        r == seq_wf(day@),
{
    let mut i: usize = 0;
    let mut ok = true;
    while i < day.len()
        invariant
            i <= day@.len(),
            ok == (forall|j: int| 0 <= j < i ==> (#[trigger] day@[j]).wf()),
        decreases day@.len() - i,
    {
        if day[i].time.secs > MAX_SECS {
            ok = false;
        }
        i = i + 1;
    }
    ok
}

/// A sequence stays well formed when one well-formed checkpoint replaces,
/// joins or leaves it.
proof fn lemma_seq_wf_update(s: Seq<Checkpoint>, i: int, c: Checkpoint)
    requires
        seq_wf(s),
        0 <= i < s.len(),
        c.wf(),
    ensures
        seq_wf(s.update(i, c)),
{
    assert forall|j: int| 0 <= j < s.update(i, c).len() implies (#[trigger] s.update(
        i,
        c,
    )[j]).wf() by {
        if j != i {
            assert(s.update(i, c)[j] == s[j]);
        }
    }
}

proof fn lemma_seq_wf_insert(s: Seq<Checkpoint>, i: int, c: Checkpoint)
    requires
        seq_wf(s),
        0 <= i <= s.len(),
        c.wf(),
    ensures
        seq_wf(s.insert(i, c)),
{
    assert forall|j: int| 0 <= j < s.insert(i, c).len() implies (#[trigger] s.insert(
        i,
        c,
    )[j]).wf() by {
        if j < i {
            assert(s.insert(i, c)[j] == s[j]);
        } else if j > i {
            assert(s.insert(i, c)[j] == s[j - 1]);
        }
    }
}

proof fn lemma_seq_wf_push(s: Seq<Checkpoint>, c: Checkpoint)
    requires
        seq_wf(s),
        c.wf(),
    ensures
        seq_wf(s.push(c)),
{
    assert forall|j: int| 0 <= j < s.push(c).len() implies (#[trigger] s.push(c)[j]).wf() by {
        if j < s.len() {
            assert(s.push(c)[j] == s[j]);
        } else {
            assert(s.push(c)[j] == c);
        }
    }
}

proof fn lemma_seq_wf_remove(s: Seq<Checkpoint>, i: int)
    requires
        seq_wf(s),
        0 <= i < s.len(),
    ensures
        seq_wf(s.remove(i)),
{
    assert forall|j: int| 0 <= j < s.remove(i).len() implies (#[trigger] s.remove(i)[j]).wf() by {
        if j < i {
            assert(s.remove(i)[j] == s[j]);
        } else {
            assert(s.remove(i)[j] == s[j + 1]);
        }
    }
}

/// A working week: one ordered checkpoint list per weekday, the wholesale
/// recomputed view of unregistered intervals, and the selection cursor.
pub struct Week {
    pub mon: Vec<Checkpoint>,
    pub tue: Vec<Checkpoint>,
    pub wed: Vec<Checkpoint>,
    pub thu: Vec<Checkpoint>,
    pub fri: Vec<Checkpoint>,
    pub unregistered_checkpoints: Vec<UnregisteredEntry>,
    pub selected_weekday: Weekday,
    pub selected_checkpoint_idx: usize,
}

impl Week {
    /// The checkpoint list of a weekday, as the total mapping over the five
    /// supported days.
    pub open spec fn day_spec(self, w: Weekday) -> Seq<Checkpoint> {
        match w {
            Weekday::Mon => self.mon@,
            Weekday::Tue => self.tue@,
            Weekday::Wed => self.wed@,
            Weekday::Thu => self.thu@,
            Weekday::Fri => self.fri@,
        }
    }

    /// The list of the day the cursor points at.
    pub open spec fn active_spec(self) -> Seq<Checkpoint> {
        self.day_spec(self.selected_weekday)
    }

    /// The cursor invariant: a valid position in the active day, or the
    /// fixed position zero with no-selection semantics when the day is
    /// empty.
    pub open spec fn cursor_ok(self) -> bool {
        if self.active_spec().len() == 0 {
            self.selected_checkpoint_idx == 0
        } else {
            (self.selected_checkpoint_idx as int) < self.active_spec().len()
        }
    }

    /// All five day lists hold only well-formed checkpoints.
    pub open spec fn days_wf(self) -> bool {
        forall|w: Weekday| seq_wf(#[trigger] self.day_spec(w))
    }

    /// The week invariant preserved by every command.
    pub open spec fn wf(self) -> bool {
        self.days_wf() && self.cursor_ok()
    }

    /// A change that leaves all five lists alone leaves every day well
    /// formed.
    proof fn lemma_days_wf_same_days(pre: Week, post: Week)
        requires
            pre.days_wf(),
            post.mon@ == pre.mon@,
            post.tue@ == pre.tue@,
            post.wed@ == pre.wed@,
            post.thu@ == pre.thu@,
            post.fri@ == pre.fri@,
        ensures
            post.days_wf(),
    {
        assert forall|w: Weekday| seq_wf(#[trigger] post.day_spec(w)) by {
            assert(post.day_spec(w) == pre.day_spec(w));
        }
    }

    /// A change confined to the active day keeps every day well formed,
    /// provided the new active list is.
    proof fn lemma_days_wf_after_active_change(pre: Week, post: Week)
        requires
            pre.days_wf(),
            post.selected_weekday == pre.selected_weekday,
            forall|w: Weekday|
                w != pre.selected_weekday ==> #[trigger] post.day_spec(w) == pre.day_spec(w),
            seq_wf(post.active_spec()),
        ensures
            post.days_wf(),
    {
        assert forall|w: Weekday| seq_wf(#[trigger] post.day_spec(w)) by {
            if w == pre.selected_weekday {
                assert(post.day_spec(w) == post.active_spec());
            } else {
                assert(post.day_spec(w) == pre.day_spec(w));
            }
        }
    }

    /// An empty week: no checkpoints anywhere, cursor on Monday at zero.
    pub fn new() -> (r: Week)
        ensures
            r.mon@ == Seq::<Checkpoint>::empty(),
            r.tue@ == Seq::<Checkpoint>::empty(),
            r.wed@ == Seq::<Checkpoint>::empty(),
            r.thu@ == Seq::<Checkpoint>::empty(),
            r.fri@ == Seq::<Checkpoint>::empty(),
            r.unregistered_checkpoints@ == Seq::<UnregisteredEntry>::empty(),
            r.selected_weekday == Weekday::Mon,
            r.selected_checkpoint_idx == 0,
            r.wf(),
    {
        Week {
            mon: Vec::new(),
            tue: Vec::new(),
            wed: Vec::new(),
            thu: Vec::new(),
            fri: Vec::new(),
            unregistered_checkpoints: Vec::new(),
            selected_weekday: Weekday::Mon,
            selected_checkpoint_idx: 0,
        }
    }

    /// The checkpoint list of the given weekday. Total over the five
    /// supported days; an unsupported day cannot reach this function.
    pub fn day(&self, w: Weekday) -> (r: &Vec<Checkpoint>)
        ensures
            r@ == self.day_spec(w),
    {
        match w {
            Weekday::Mon => &self.mon,
            Weekday::Tue => &self.tue,
            Weekday::Wed => &self.wed,
            Weekday::Thu => &self.thu,
            Weekday::Fri => &self.fri,
        }
    }

    /// The list of the day the cursor points at.
    pub fn active_day(&self) -> (r: &Vec<Checkpoint>)
        ensures
            r@ == self.active_spec(),
    {
        self.day(self.selected_weekday)
    }

    /// Moves the cursor one checkpoint to the right, but only while it
    /// stays strictly before the day's final checkpoint: the final entry is
    /// the open boundary of ongoing work and is never selected by this
    /// step.
    pub fn select_next_checkpoint(&mut self)
        requires
            old(self).wf(),
        ensures
            final(self).selected_checkpoint_idx == if old(self).active_spec().len() > old(
                self,
            ).selected_checkpoint_idx + 2 {
                old(self).selected_checkpoint_idx + 1
            } else {
                old(self).selected_checkpoint_idx as int
            },
            final(self).selected_weekday == old(self).selected_weekday,
            final(self).mon@ == old(self).mon@,
            final(self).tue@ == old(self).tue@,
            final(self).wed@ == old(self).wed@,
            final(self).thu@ == old(self).thu@,
            final(self).fri@ == old(self).fri@,
            final(self).unregistered_checkpoints@ == old(self).unregistered_checkpoints@,
            final(self).wf(),
    {
        let len = self.active_day().len();
        if len >= 2 && self.selected_checkpoint_idx < len - 2 {
            self.selected_checkpoint_idx = self.selected_checkpoint_idx + 1;
        }
        proof {
            Self::lemma_days_wf_same_days(*old(self), *self);
        }
    }

    /// Moves the cursor one checkpoint to the left, floored at zero.
    pub fn select_prev_checkpoint(&mut self)
        requires
            old(self).wf(),
        ensures
            final(self).selected_checkpoint_idx == if old(self).selected_checkpoint_idx > 0 {
                old(self).selected_checkpoint_idx - 1
            } else {
                0int
            },
            final(self).selected_weekday == old(self).selected_weekday,
            final(self).mon@ == old(self).mon@,
            final(self).tue@ == old(self).tue@,
            final(self).wed@ == old(self).wed@,
            final(self).thu@ == old(self).thu@,
            final(self).fri@ == old(self).fri@,
            final(self).unregistered_checkpoints@ == old(self).unregistered_checkpoints@,
            final(self).wf(),
    {
        if self.selected_checkpoint_idx > 0 {
            self.selected_checkpoint_idx = self.selected_checkpoint_idx - 1;
        }
        proof {
            Self::lemma_days_wf_same_days(*old(self), *self);
        }
    }

    /// Clamps the cursor index into the active day after a day switch.
    fn select_max_checkpoint_idx(&mut self)
        ensures
            final(self).selected_checkpoint_idx == clamp_idx_spec(
                old(self).active_spec().len() as int,
                old(self).selected_checkpoint_idx as int,
            ),
            final(self).selected_weekday == old(self).selected_weekday,
            final(self).mon@ == old(self).mon@,
            final(self).tue@ == old(self).tue@,
            final(self).wed@ == old(self).wed@,
            final(self).thu@ == old(self).thu@,
            final(self).fri@ == old(self).fri@,
            final(self).unregistered_checkpoints@ == old(self).unregistered_checkpoints@,
            final(self).cursor_ok(),
    {
        let len = self.active_day().len();
        if len == 0 {
            self.selected_checkpoint_idx = 0;
        } else if self.selected_checkpoint_idx > len - 1 {
            self.selected_checkpoint_idx = if len >= 2 {
                len - 2
            } else {
                0
            };
        }
    }

    /// Cycles the cursor to the following working day (Friday wraps to
    /// Monday) and clamps the index into the new day's list.
    pub fn select_next_day(&mut self)
        requires
            old(self).wf(),
        ensures
            final(self).selected_weekday == old(self).selected_weekday.next_spec(),
            final(self).selected_checkpoint_idx == clamp_idx_spec(
                old(self).day_spec(old(self).selected_weekday.next_spec()).len() as int,
                old(self).selected_checkpoint_idx as int,
            ),
            final(self).mon@ == old(self).mon@,
            final(self).tue@ == old(self).tue@,
            final(self).wed@ == old(self).wed@,
            final(self).thu@ == old(self).thu@,
            final(self).fri@ == old(self).fri@,
            final(self).unregistered_checkpoints@ == old(self).unregistered_checkpoints@,
            final(self).wf(),
    {
        self.selected_weekday = self.selected_weekday.next();
        self.select_max_checkpoint_idx();
        proof {
            Self::lemma_days_wf_same_days(*old(self), *self);
        }
    }

    /// Cycles the cursor to the preceding working day (Monday wraps to
    /// Friday) and clamps the index into the new day's list.
    pub fn select_prev_day(&mut self)
        requires
            old(self).wf(),
        ensures
            final(self).selected_weekday == old(self).selected_weekday.prev_spec(),
            final(self).selected_checkpoint_idx == clamp_idx_spec(
                old(self).day_spec(old(self).selected_weekday.prev_spec()).len() as int,
                old(self).selected_checkpoint_idx as int,
            ),
            final(self).mon@ == old(self).mon@,
            final(self).tue@ == old(self).tue@,
            final(self).wed@ == old(self).wed@,
            final(self).thu@ == old(self).thu@,
            final(self).fri@ == old(self).fri@,
            final(self).unregistered_checkpoints@ == old(self).unregistered_checkpoints@,
            final(self).wf(),
    {
        self.selected_weekday = self.selected_weekday.prev();
        self.select_max_checkpoint_idx();
        proof {
            Self::lemma_days_wf_same_days(*old(self), *self);
        }
    }

    /// Replaces the checkpoint at `i` in the active day.
    fn set_active_at(&mut self, i: usize, c: Checkpoint)
        requires
            i < old(self).active_spec().len(),
        ensures
            final(self).active_spec() == old(self).active_spec().update(i as int, c),
            forall|w: Weekday|
                w != old(self).selected_weekday ==> #[trigger] final(self).day_spec(w) == old(
                    self,
                ).day_spec(w),
            final(self).selected_weekday == old(self).selected_weekday,
            final(self).selected_checkpoint_idx == old(self).selected_checkpoint_idx,
            final(self).unregistered_checkpoints@ == old(self).unregistered_checkpoints@,
    {
        match self.selected_weekday {
            Weekday::Mon => self.mon[i] = c,
            Weekday::Tue => self.tue[i] = c,
            Weekday::Wed => self.wed[i] = c,
            Weekday::Thu => self.thu[i] = c,
            Weekday::Fri => self.fri[i] = c,
        }
    }

    /// Inserts a checkpoint at position `i` of the active day.
    fn insert_active_at(&mut self, i: usize, c: Checkpoint)
        requires
            i <= old(self).active_spec().len(),
        ensures
            final(self).active_spec() == old(self).active_spec().insert(i as int, c),
            forall|w: Weekday|
                w != old(self).selected_weekday ==> #[trigger] final(self).day_spec(w) == old(
                    self,
                ).day_spec(w),
            final(self).selected_weekday == old(self).selected_weekday,
            final(self).selected_checkpoint_idx == old(self).selected_checkpoint_idx,
            final(self).unregistered_checkpoints@ == old(self).unregistered_checkpoints@,
    {
        match self.selected_weekday {
            Weekday::Mon => self.mon.insert(i, c),
            Weekday::Tue => self.tue.insert(i, c),
            Weekday::Wed => self.wed.insert(i, c),
            Weekday::Thu => self.thu.insert(i, c),
            Weekday::Fri => self.fri.insert(i, c),
        }
    }

    /// Removes and returns the checkpoint at position `i` of the active day.
    fn remove_active_at(&mut self, i: usize) -> (r: Checkpoint)
        requires
            i < old(self).active_spec().len(),
        ensures
            r == old(self).active_spec()[i as int],
            final(self).active_spec() == old(self).active_spec().remove(i as int),
            forall|w: Weekday|
                w != old(self).selected_weekday ==> #[trigger] final(self).day_spec(w) == old(
                    self,
                ).day_spec(w),
            final(self).selected_weekday == old(self).selected_weekday,
            final(self).selected_checkpoint_idx == old(self).selected_checkpoint_idx,
            final(self).unregistered_checkpoints@ == old(self).unregistered_checkpoints@,
    {
        match self.selected_weekday {
            Weekday::Mon => self.mon.remove(i),
            Weekday::Tue => self.tue.remove(i),
            Weekday::Wed => self.wed.remove(i),
            Weekday::Thu => self.thu.remove(i),
            Weekday::Fri => self.fri.remove(i),
        }
    }

    /// Appends a checkpoint to the end of the active day's list. The caller
    /// is responsible for appending in time order (a fresh checkpoint is
    /// stamped with the present moment, which follows everything appended
    /// before it).
    pub fn append_checkpoint(&mut self, checkpoint: Checkpoint)
        requires
            old(self).wf(),
            checkpoint.wf(),
        ensures
            final(self).active_spec() == old(self).active_spec().push(checkpoint),
            forall|w: Weekday|
                w != old(self).selected_weekday ==> #[trigger] final(self).day_spec(w) == old(
                    self,
                ).day_spec(w),
            final(self).selected_weekday == old(self).selected_weekday,
            final(self).selected_checkpoint_idx == old(self).selected_checkpoint_idx,
            final(self).unregistered_checkpoints@ == old(self).unregistered_checkpoints@,
            final(self).wf(),
    {
        let ghost gc = checkpoint;
        match self.selected_weekday {
            Weekday::Mon => self.mon.push(checkpoint),
            Weekday::Tue => self.tue.push(checkpoint),
            Weekday::Wed => self.wed.push(checkpoint),
            Weekday::Thu => self.thu.push(checkpoint),
            Weekday::Fri => self.fri.push(checkpoint),
        }
        proof {
            lemma_seq_wf_push(old(self).active_spec(), gc);
            Self::lemma_days_wf_after_active_change(*old(self), *self);
        }
    }

    /// The checkpoint under the cursor, or nothing when the active day has
    /// no position there (in particular on an empty day).
    pub fn selected_checkpoint(&self) -> (r: Option<Checkpoint>)
        ensures
            r == if (self.selected_checkpoint_idx as int) < self.active_spec().len() {
                Some(self.active_spec()[self.selected_checkpoint_idx as int])
            } else {
                None::<Checkpoint>
            },
    {
        let day = self.active_day();
        if self.selected_checkpoint_idx < day.len() {
            Some(day[self.selected_checkpoint_idx].duplicate())
        } else {
            None
        }
    }

    /// Splits the selected interval: a fresh checkpoint is inserted at the
    /// midpoint between the selected checkpoint and its successor, at the
    /// correct ordinal position. Without a selection, without a successor,
    /// or with an interval that is not strictly positive, nothing changes.
    /// The returned checkpoint is the one the remote store still has to
    /// insert; the caller reloads after persisting it.
    pub fn split_checkpoint(&mut self) -> (r: Option<Checkpoint>)
        requires
            old(self).wf(),
        ensures
            (match r {
                Some(c) => ({
                    let day = old(self).active_spec();
                    let i = old(self).selected_checkpoint_idx as int;
                    &&& i + 1 < day.len()
                    &&& day[i].time.secs < day[i + 1].time.secs
                    &&& c == Checkpoint::fresh_spec(
                        Timestamp {
                            secs: (day[i].time.secs + (day[i + 1].time.secs
                                - day[i].time.secs) / 2) as u64,
                        },
                    )
                    &&& final(self).active_spec() == day.insert(i + 1, c)
                    &&& forall|w: Weekday|
                        w != old(self).selected_weekday ==> #[trigger] final(self).day_spec(w)
                            == old(self).day_spec(w)
                    &&& final(self).selected_weekday == old(self).selected_weekday
                    &&& final(self).selected_checkpoint_idx == old(self).selected_checkpoint_idx
                    &&& final(self).unregistered_checkpoints@ == old(
                        self,
                    ).unregistered_checkpoints@
                }),
                None => ({
                    let day = old(self).active_spec();
                    let i = old(self).selected_checkpoint_idx as int;
                    &&& !(i + 1 < day.len() && day[i].time.secs < day[i + 1].time.secs)
                    &&& *final(self) == *old(self)
                }),
            }),
            final(self).wf(),
            seq_ascending(old(self).active_spec()) ==> seq_ascending(final(self).active_spec()),
    {
        let i = self.selected_checkpoint_idx;
        let day = self.active_day();
        if day.len() < 2 || i >= day.len() - 1 {
            return None;
        }
        let a = day[i].time.secs;
        let b = day[i + 1].time.secs;
        if a >= b {
            return None;
        }
        let mid = a + (b - a) / 2;
        let c = Checkpoint::at_time(Timestamp { secs: mid });
        let out = c.duplicate();
        let ghost gc = c;
        self.insert_active_at(i + 1, c);
        proof {
            lemma_seq_wf_insert(old(self).active_spec(), i as int + 1, gc);
            Self::lemma_days_wf_after_active_change(*old(self), *self);
            let day0 = old(self).active_spec();
            let ins = self.active_spec();
            assert(a <= mid <= b);
            if seq_ascending(day0) {
                assert forall|j: int| 0 <= j < ins.len() - 1 implies (#[trigger] ins[j]).time.secs
                    <= ins[j + 1].time.secs by {
                    if j < i {
                        assert(ins[j] == day0[j] && ins[j + 1] == day0[j + 1]);
                    } else if j == i {
                        assert(ins[j] == day0[j] && ins[j + 1].time.secs == mid);
                    } else if j == i + 1 {
                        assert(ins[j].time.secs == mid && ins[j + 1] == day0[j]);
                    } else {
                        assert(ins[j] == day0[j - 1] && ins[j + 1] == day0[j]);
                    }
                }
            }
        }
        Some(out)
    }

    /// Deletes through the cursor and returns the removed checkpoint, which
    /// the remote store still has to delete. With two or more checkpoints
    /// in the active day the successor of the selected one is removed,
    /// closing the currently open interval; with exactly one, that sole
    /// checkpoint is removed and the cursor stays pinned at zero. An empty
    /// day, or a selection already on the final checkpoint of a longer
    /// day, makes this a no-op.
    pub fn delete_checkpoint(&mut self) -> (r: Option<Checkpoint>)
        requires
            old(self).wf(),
        ensures
            (match r {
                Some(c) => ({
                    let day = old(self).active_spec();
                    let i = old(self).selected_checkpoint_idx as int;
                    let victim = if day.len() == 1 { 0int } else { i + 1 };
                    &&& day.len() >= 1
                    &&& (day.len() == 1 || i + 1 < day.len())
                    &&& c == day[victim]
                    &&& final(self).active_spec() == day.remove(victim)
                    &&& final(self).selected_checkpoint_idx == if day.len() == 1 { 0int } else { i }
                    &&& forall|w: Weekday|
                        w != old(self).selected_weekday ==> #[trigger] final(self).day_spec(w)
                            == old(self).day_spec(w)
                    &&& final(self).selected_weekday == old(self).selected_weekday
                    &&& final(self).unregistered_checkpoints@ == old(
                        self,
                    ).unregistered_checkpoints@
                }),
                None => ({
                    let day = old(self).active_spec();
                    let i = old(self).selected_checkpoint_idx as int;
                    &&& (day.len() == 0 || (day.len() >= 2 && i + 1 >= day.len()))
                    &&& *final(self) == *old(self)
                }),
            }),
            final(self).wf(),
    {
        let len = self.active_day().len();
        if len == 0 {
            return None;
        }
        if len == 1 {
            let removed = self.remove_active_at(0);
            self.selected_checkpoint_idx = 0;
            proof {
                lemma_seq_wf_remove(old(self).active_spec(), 0);
                Self::lemma_days_wf_after_active_change(*old(self), *self);
            }
            return Some(removed);
        }
        let i = self.selected_checkpoint_idx;
        if i < len - 1 {
            let removed = self.remove_active_at(i + 1);
            proof {
                lemma_seq_wf_remove(old(self).active_spec(), i as int + 1);
                Self::lemma_days_wf_after_active_change(*old(self), *self);
            }
            return Some(removed);
        }
        None
    }

    /// Flips the registered flag of the selected checkpoint and returns the
    /// updated checkpoint, which the remote store still has to update; with
    /// no selection, nothing changes.
    pub fn toggle_registered(&mut self) -> (r: Option<Checkpoint>)
        requires
            old(self).wf(),
        ensures
            (match r {
                Some(c) => ({
                    let day = old(self).active_spec();
                    let i = old(self).selected_checkpoint_idx as int;
                    &&& i < day.len()
                    &&& c == (Checkpoint { registered: !day[i].registered, ..day[i] })
                    &&& final(self).active_spec() == day.update(i, c)
                    &&& forall|w: Weekday|
                        w != old(self).selected_weekday ==> #[trigger] final(self).day_spec(w)
                            == old(self).day_spec(w)
                    &&& final(self).selected_weekday == old(self).selected_weekday
                    &&& final(self).selected_checkpoint_idx == old(self).selected_checkpoint_idx
                    &&& final(self).unregistered_checkpoints@ == old(
                        self,
                    ).unregistered_checkpoints@
                }),
                None => old(self).selected_checkpoint_idx >= old(self).active_spec().len()
                    && *final(self) == *old(self),
            }),
            final(self).wf(),
    {
        let i = self.selected_checkpoint_idx;
        let day = self.active_day();
        if i >= day.len() {
            return None;
        }
        let mut c = day[i].duplicate();
        c.registered = !c.registered;
        let out = c.duplicate();
        let ghost gc = c;
        self.set_active_at(i, c);
        proof {
            lemma_seq_wf_update(old(self).active_spec(), i as int, gc);
            Self::lemma_days_wf_after_active_change(*old(self), *self);
        }
        Some(out)
    }

    /// Assigns a project to the selected checkpoint, or clears the project
    /// when the same one is already assigned. Returns the updated
    /// checkpoint, which the remote store still has to update; with no
    /// selection, nothing changes.
    pub fn assign_project(&mut self, project: String) -> (r: Option<Checkpoint>)
        requires
            old(self).wf(),
        ensures
            (match r {
                Some(c) => ({
                    let day = old(self).active_spec();
                    let i = old(self).selected_checkpoint_idx as int;
                    let same = day[i].project matches Some(p) && p@ == project@;
                    &&& i < day.len()
                    &&& c == (Checkpoint {
                        project: if same {
                            None
                        } else {
                            Some(project)
                        },
                        ..day[i]
                    })
                    &&& final(self).active_spec() == day.update(i, c)
                    &&& forall|w: Weekday|
                        w != old(self).selected_weekday ==> #[trigger] final(self).day_spec(w)
                            == old(self).day_spec(w)
                    &&& final(self).selected_weekday == old(self).selected_weekday
                    &&& final(self).selected_checkpoint_idx == old(self).selected_checkpoint_idx
                    &&& final(self).unregistered_checkpoints@ == old(
                        self,
                    ).unregistered_checkpoints@
                }),
                None => old(self).selected_checkpoint_idx >= old(self).active_spec().len()
                    && *final(self) == *old(self),
            }),
            final(self).wf(),
    {
        let i = self.selected_checkpoint_idx;
        let day = self.active_day();
        if i >= day.len() {
            return None;
        }
        let same = match &day[i].project {
            Some(p) => *p == project,
            None => false,
        };
        let mut c = day[i].duplicate();
        c.project = if same {
            None
        } else {
            Some(project)
        };
        let out = c.duplicate();
        let ghost gc = c;
        self.set_active_at(i, c);
        proof {
            lemma_seq_wf_update(old(self).active_spec(), i as int, gc);
            Self::lemma_days_wf_after_active_change(*old(self), *self);
        }
        Some(out)
    }

    /// Annotates the selected checkpoint with a message and returns the
    /// updated checkpoint, which the remote store still has to update; with
    /// no selection, nothing changes.
    pub fn annotate(&mut self, message: String) -> (r: Option<Checkpoint>)
        requires
            old(self).wf(),
        ensures
            (match r {
                Some(c) => ({
                    let day = old(self).active_spec();
                    let i = old(self).selected_checkpoint_idx as int;
                    &&& i < day.len()
                    &&& c == (Checkpoint { message: Some(message), ..day[i] })
                    &&& final(self).active_spec() == day.update(i, c)
                    &&& forall|w: Weekday|
                        w != old(self).selected_weekday ==> #[trigger] final(self).day_spec(w)
                            == old(self).day_spec(w)
                    &&& final(self).selected_weekday == old(self).selected_weekday
                    &&& final(self).selected_checkpoint_idx == old(self).selected_checkpoint_idx
                    &&& final(self).unregistered_checkpoints@ == old(
                        self,
                    ).unregistered_checkpoints@
                }),
                None => old(self).selected_checkpoint_idx >= old(self).active_spec().len()
                    && *final(self) == *old(self),
            }),
            final(self).wf(),
    {
        let i = self.selected_checkpoint_idx;
        let day = self.active_day();
        if i >= day.len() {
            return None;
        }
        let mut c = day[i].duplicate();
        c.message = Some(message);
        let out = c.duplicate();
        let ghost gc = c;
        self.set_active_at(i, c);
        proof {
            lemma_seq_wf_update(old(self).active_spec(), i as int, gc);
            Self::lemma_days_wf_after_active_change(*old(self), *self);
        }
        Some(out)
    }

    /// How one quantum shift transforms the week. Target position `t` in
    /// the active day moves fifteen minutes later or earlier and the moved
    /// checkpoint comes back for the remote store to update; a target
    /// outside the day, or a move that would leave the supported timestamp
    /// range, changes nothing and returns nothing.
    pub open spec fn shift_post(pre: Week, post: Week, t: int, later: bool, r: Option<
        Checkpoint,
    >) -> bool {
        let day = pre.active_spec();
        match r {
            Some(c) => {
                &&& 0 <= t < day.len()
                &&& if later {
                    day[t].time.secs + 900 <= MAX_SECS
                } else {
                    day[t].time.secs >= 900
                }
                &&& c == (Checkpoint {
                    time: (Timestamp {
                        secs: if later {
                            (day[t].time.secs + 900) as u64
                        } else {
                            (day[t].time.secs - 900) as u64
                        },
                    }),
                    ..day[t]
                })
                &&& post.active_spec() == day.update(t, c)
                &&& forall|w: Weekday|
                    w != pre.selected_weekday ==> #[trigger] post.day_spec(w) == pre.day_spec(w)
                &&& post.selected_weekday == pre.selected_weekday
                &&& post.selected_checkpoint_idx == pre.selected_checkpoint_idx
                &&& post.unregistered_checkpoints@ == pre.unregistered_checkpoints@
            },
            None => {
                &&& !(0 <= t < day.len() && (if later {
                    day[t].time.secs + 900 <= MAX_SECS
                } else {
                    day[t].time.secs >= 900
                }))
                &&& post == pre
            },
        }
    }

    /// Moves the checkpoint at `t` in the active day by one quantum.
    fn shift_index(&mut self, t: usize, later: bool) -> (r: Option<Checkpoint>)
        requires
            old(self).wf(),
        ensures
            Self::shift_post(*old(self), *final(self), t as int, later, r),
            final(self).wf(),
    {
        let day = self.active_day();
        if t >= day.len() {
            return None;
        }
        let secs = day[t].time.secs;
        let new_secs: u64 = if later {
            if secs > MAX_SECS || MAX_SECS - secs < 900 {
                return None;
            }
            secs + 900
        } else {
            if secs < 900 {
                return None;
            }
            secs - 900
        };
        let mut c = day[t].duplicate();
        c.time = Timestamp { secs: new_secs };
        let out = c.duplicate();
        let ghost gc = c;
        self.set_active_at(t, c);
        proof {
            lemma_seq_wf_update(old(self).active_spec(), t as int, gc);
            Self::lemma_days_wf_after_active_change(*old(self), *self);
        }
        Some(out)
    }

    /// Shifts the selected checkpoint one quantum later, lengthening its
    /// interval from the left.
    pub fn shift_selected_later(&mut self) -> (r: Option<Checkpoint>)
        requires
            old(self).wf(),
        ensures
            Self::shift_post(
                *old(self),
                *final(self),
                old(self).selected_checkpoint_idx as int,
                true,
                r,
            ),
            final(self).wf(),
    {
        let t = self.selected_checkpoint_idx;
        self.shift_index(t, true)
    }

    /// Shifts the selected checkpoint one quantum earlier.
    pub fn shift_selected_earlier(&mut self) -> (r: Option<Checkpoint>)
        requires
            old(self).wf(),
        ensures
            Self::shift_post(
                *old(self),
                *final(self),
                old(self).selected_checkpoint_idx as int,
                false,
                r,
            ),
            final(self).wf(),
    {
        let t = self.selected_checkpoint_idx;
        self.shift_index(t, false)
    }

    /// Shifts the successor of the selected checkpoint one quantum later,
    /// lengthening the selected interval from the right.
    pub fn shift_next_later(&mut self) -> (r: Option<Checkpoint>)
        requires
            old(self).wf(),
        ensures
            Self::shift_post(
                *old(self),
                *final(self),
                old(self).selected_checkpoint_idx + 1,
                true,
                r,
            ),
            final(self).wf(),
    {
        if self.selected_checkpoint_idx >= self.active_day().len() {
            return None;
        }
        let t = self.selected_checkpoint_idx + 1;
        self.shift_index(t, true)
    }

    /// Shifts the successor of the selected checkpoint one quantum earlier.
    pub fn shift_next_earlier(&mut self) -> (r: Option<Checkpoint>)
        requires
            old(self).wf(),
        ensures
            Self::shift_post(
                *old(self),
                *final(self),
                old(self).selected_checkpoint_idx + 1,
                false,
                r,
            ),
            final(self).wf(),
    {
        if self.selected_checkpoint_idx >= self.active_day().len() {
            return None;
        }
        let t = self.selected_checkpoint_idx + 1;
        self.shift_index(t, false)
    }

    /// The full reload: replaces all five day lists wholesale with what the
    /// remote store returned (each list ordered ascending by time, as the
    /// store's contract promises), recomputes the unregistered view from
    /// scratch, and rebuilds the cursor to Monday at position zero.
    pub fn reload(
        &mut self,
        mon: Vec<Checkpoint>,
        tue: Vec<Checkpoint>,
        wed: Vec<Checkpoint>,
        thu: Vec<Checkpoint>,
        fri: Vec<Checkpoint>,
    )
        requires
            seq_wf(mon@),
            seq_wf(tue@),
            seq_wf(wed@),
            seq_wf(thu@),
            seq_wf(fri@),
            seq_ascending(mon@),
            seq_ascending(tue@),
            seq_ascending(wed@),
            seq_ascending(thu@),
            seq_ascending(fri@),
        ensures
            final(self).mon@ == mon@,
            final(self).tue@ == tue@,
            final(self).wed@ == wed@,
            final(self).thu@ == thu@,
            final(self).fri@ == fri@,
            final(self).unregistered_checkpoints@ == unreg_week_spec(
                mon@,
                tue@,
                wed@,
                thu@,
                fri@,
            ),
            final(self).selected_weekday == Weekday::Mon,
            final(self).selected_checkpoint_idx == 0,
            final(self).wf(),
    {
        let mut unreg: Vec<UnregisteredEntry> = Vec::new();
        append_unregistered(&mon, &mut unreg);
        append_unregistered(&tue, &mut unreg);
        append_unregistered(&wed, &mut unreg);
        append_unregistered(&thu, &mut unreg);
        append_unregistered(&fri, &mut unreg);
        proof {
            assert(unreg@ =~= unreg_week_spec(mon@, tue@, wed@, thu@, fri@));
        }
        self.mon = mon;
        self.tue = tue;
        self.wed = wed;
        self.thu = thu;
        self.fri = fri;
        self.unregistered_checkpoints = unreg;
        self.selected_weekday = Weekday::Mon;
        self.selected_checkpoint_idx = 0;
        proof {
            assert forall|w: Weekday| seq_wf(#[trigger] self.day_spec(w)) by {
                match w {
                    Weekday::Mon => assert(self.day_spec(w) == self.mon@),
                    Weekday::Tue => assert(self.day_spec(w) == self.tue@),
                    Weekday::Wed => assert(self.day_spec(w) == self.wed@),
                    Weekday::Thu => assert(self.day_spec(w) == self.thu@),
                    Weekday::Fri => assert(self.day_spec(w) == self.fri@),
                }
            }
        }
    }

    /// The checkpoint right after the cursor: the closing boundary of the
    /// selected interval, or nothing when the selected checkpoint is the
    /// day's open end.
    pub fn next_checkpoint(&self) -> (r: Option<Checkpoint>)
        ensures
            r == if self.selected_checkpoint_idx + 1 < self.active_spec().len() {
                Some(self.active_spec()[self.selected_checkpoint_idx + 1])
            } else {
                None::<Checkpoint>
            },
    {
        let day = self.active_day();
        if day.len() >= 2 && self.selected_checkpoint_idx < day.len() - 1 {
            Some(day[self.selected_checkpoint_idx + 1].duplicate())
        } else {
            None
        }
    }
}

} // verus!
