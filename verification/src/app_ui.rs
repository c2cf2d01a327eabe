//! Interactive-side bookkeeping over a finished snapshot: which element
//! is active under the pointer, a status message with an expiry, and a
//! deduplicated event history.
//!
//! None of this mutates the snapshot; it only reads the published list
//! and records selection state from one pointer sample to the next.

use vstd::prelude::*;

use std::collections::VecDeque;

use crate::geometry::Point;
use crate::rectangle::first_hit;
use crate::uiexplore::{ElemModel, UIElementProps};

verus! {

/// Oldest entries fall out of the history once it holds this many.
pub const HISTORY_CAP: usize = 100;

/// Selection state of the explorer: the element currently under the
/// pointer (or clicked), the element that was active before it — kept
/// for one frame so the previous highlight can be erased — and the arena
/// handle of the active element where one is known.
pub struct TreeState {
    pub active_element: Option<UIElementProps>,
    pub prev_element: Option<UIElementProps>,
    pub clear_frame: bool,
    pub active_ui_element: Option<usize>,
}

/// How one new observation `e` moves the selection state from `pre` to
/// `post`: a first observation activates `e` (and seeds the previous
/// element with it); an observation with the runtime id of the active
/// element changes nothing; any other observation demotes the active
/// element to previous, activates `e`, and schedules a frame clear.  The
/// recorded arena handle is not touched.
pub open spec fn tracks(pre: TreeState, post: TreeState, e: ElemModel) -> bool {
    match pre.active_element {
        Option::Some(cur) => if cur.runtime_id@ == e.runtime_id {
            post == pre
        } else {
            &&& post.active_element is Some
            &&& post.active_element.unwrap()@ == e
            &&& post.prev_element is Some
            &&& post.prev_element.unwrap()@ == cur@
            &&& post.clear_frame == true
            &&& post.active_ui_element == pre.active_ui_element
        },
        Option::None => {
            &&& post.active_element is Some
            &&& post.active_element.unwrap()@ == e
            &&& post.prev_element is Some
            &&& post.prev_element.unwrap()@ == e
            &&& post.clear_frame == pre.clear_frame
            &&& post.active_ui_element == pre.active_ui_element
        },
    }
}

fn ids_equal(a: &Vec<i32>, b: &Vec<i32>) -> (r: bool)
    ensures
        r == (a@ == b@),
{
    if a.len() != b.len() {
        return false;
    }
    let mut i: usize = 0;
    while i < a.len()
        invariant
            i <= a.len(),
            a@.len() == b@.len(),
            forall|j: int| 0 <= j < i ==> a@[j] == b@[j],
        decreases a.len() - i,
    {
        if a[i] != b[i] {
            return false;
        }
        i = i + 1;
    }
    proof {
        assert(a@ =~= b@);
    }
    true
}

impl TreeState {
    /// No selection yet.
    pub fn new() -> (r: TreeState)
        ensures
            r.active_element is None,
            r.prev_element is None,
            r.clear_frame == false,
            r.active_ui_element is None,
    {
        TreeState {
            active_element: None,
            prev_element: None,
            clear_frame: false,
            active_ui_element: None,
        }
    }

    /// A click on the rendered tree: activate the element and record its
    /// arena handle.  An element with the runtime id of the active one
    /// changes nothing, not even the recorded handle.
    pub fn update_state(&mut self, new_active_element: UIElementProps, new_active_ui_element: usize)
        ensures
            match old(self).active_element {
                Option::Some(cur) => if cur.runtime_id@ == new_active_element.runtime_id@ {
                    *final(self) == *old(self)
                } else {
                    &&& final(self).active_element == Option::Some(new_active_element)
                    &&& final(self).prev_element is Some
                    &&& final(self).prev_element.unwrap()@ == cur@
                    &&& final(self).clear_frame == true
                    &&& final(self).active_ui_element == Option::Some(new_active_ui_element)
                },
                Option::None => {
                    &&& final(self).active_element == Option::Some(new_active_element)
                    &&& final(self).prev_element is Some
                    &&& final(self).prev_element.unwrap()@ == new_active_element@
                    &&& final(self).clear_frame == old(self).clear_frame
                    &&& final(self).active_ui_element == Option::Some(new_active_ui_element)
                },
            },
    {
        if let Some(current_element) = &self.active_element {
            // only update the state when the active element really changed
            if !ids_equal(&new_active_element.runtime_id, &current_element.runtime_id) {
                self.prev_element = Some(current_element.clone());
                self.clear_frame = true;
                self.active_element = Some(new_active_element);
                self.active_ui_element = Some(new_active_ui_element);
            }
        } else {
            self.prev_element = Some(new_active_element.clone());
            self.active_element = Some(new_active_element);
            self.active_ui_element = Some(new_active_ui_element);
        }
    }

    /// A pointer-move observation: activate the element, leaving the
    /// recorded arena handle alone.
    pub fn update_active_element(&mut self, new_active_element: UIElementProps)
        ensures
            tracks(*old(self), *final(self), new_active_element@),
            (match old(self).active_element {
                Option::Some(cur) => cur.runtime_id@ != new_active_element.runtime_id@,
                Option::None => true,
            }) ==> final(self).active_element == Option::Some(new_active_element),
    {
        if let Some(current_element) = &self.active_element {
            // only update the state when the active element really changed
            if !ids_equal(&new_active_element.runtime_id, &current_element.runtime_id) {
                self.prev_element = Some(current_element.clone());
                self.clear_frame = true;
                self.active_element = Some(new_active_element);
            }
        } else {
            self.prev_element = Some(new_active_element.clone());
            self.active_element = Some(new_active_element);
        }
    }

    /// One pointer sample against the published list: when the point is
    /// over some element, track it; when it is over a gap, leave the
    /// whole selection state exactly as it was.
    pub fn process_point(&mut self, point: &Point, ui_elements: &Vec<UIElementProps>)
        ensures
            match first_hit(ui_elements@, *point) {
                Option::Some(k) => tracks(*old(self), *final(self), ui_elements@[k]@),
                Option::None => *final(self) == *old(self),
            },
    {
        let found = crate::rectangle::get_point_bounding_rect(point, ui_elements);
        match found {
            Option::Some(props) => {
                let props = props.clone();
                self.update_active_element(props);
            },
            Option::None => {},
        }
    }
}

/// A status-bar message, optionally expiring at a fixed instant
/// (nanoseconds since the Unix epoch).
pub struct AppStatusMsg {
    pub status_msg: String,
    pub expiry: Option<i128>,
}

/// Relies on `time::OffsetDateTime::now_utc` /
/// `OffsetDateTime::unix_timestamp_nanos` for the current civil time as
/// nanoseconds since the Unix epoch.  The type represents years
/// -9999..=9999 only, which keeps the count well inside these bounds.
#[verifier::external_body]
fn now_unix_nanos() -> (r: i128)
    ensures
        -0x400000000000000000 < r < 0x400000000000000000,
{
    time::OffsetDateTime::now_utc().unix_timestamp_nanos()
}

impl AppStatusMsg {
    /// A message that stays until replaced or cleared.
    pub fn new(msg: String) -> (r: AppStatusMsg)
        ensures
            r.status_msg == msg,
            r.expiry is None,
    {
        AppStatusMsg { status_msg: msg, expiry: None }
    }

    /// A message that expires `display_for_ns` nanoseconds from now.
    pub fn new_with_duration(msg: String, display_for_ns: i64) -> (r: AppStatusMsg)
        ensures
            r.status_msg == msg,
            r.expiry is Some,
    {
        let now = now_unix_nanos();
        let expiry: i128 = now + display_for_ns as i128;
        AppStatusMsg { status_msg: msg, expiry: Some(expiry) }
    }

    /// Whether the message carries an expiry instant at all.
    pub fn has_display_duration(&self) -> (r: bool)
        ensures
            r == (self.expiry is Some),
    {
        match self.expiry {
            Option::Some(_) => true,
            Option::None => false,
        }
    }

    /// Whether the message is expired at the instant `now_ns`: only a
    /// message with an expiry ever expires, and only strictly after it.
    pub fn is_expired_at(&self, now_ns: i128) -> (r: bool)
        ensures
            r == (match self.expiry {
                Option::Some(e) => now_ns > e,
                Option::None => false,
            }),
    {
        match self.expiry {
            Option::Some(e) => now_ns > e,
            Option::None => false,
        }
    }

    /// Whether the message is expired now.  A message without an expiry
    /// never is; one with an expiry is judged against the clock read
    /// made by this call.
    pub fn is_expired(&self) -> (r: bool)
        ensures
            self.expiry is None ==> r == false,
            r ==> self.expiry is Some,
    {
        let now = now_unix_nanos();
        self.is_expired_at(now)
    }
}

/// One run of identical event summaries: the summary shown, and the full
/// text of every event that collapsed into it.
pub struct HistoryEntry {
    pub summary: String,
    pub entries: Vec<String>,
}

/// Event history with adjacent duplicates collapsed and a bounded
/// length.
pub struct DeduplicatedHistory {
    pub history: VecDeque<HistoryEntry>,
}

impl Default for DeduplicatedHistory {
    /// An empty history.
    fn default() -> (r: DeduplicatedHistory)
        ensures
            r.history@.len() == 0,
    {
        DeduplicatedHistory { history: VecDeque::new() }
    }
}

impl DeduplicatedHistory {
    /// An empty history.
    pub fn new() -> (r: DeduplicatedHistory)
        ensures
            r.history@.len() == 0,
    {
        DeduplicatedHistory { history: VecDeque::new() }
    }

    /// Record one event.  An event whose summary repeats the newest
    /// entry's is folded into that entry; any other event opens a new
    /// entry, and the oldest entry falls out once the history exceeds
    /// its cap.
    pub fn add(&mut self, summary: String, full: String)
        ensures
            ({
                let h = old(self).history@;
                if h.len() > 0 && h.last().summary@ == summary@ {
                    &&& final(self).history@.len() == h.len()
                    &&& forall|i: int| 0 <= i < h.len() - 1 ==> final(self).history@[i] == h[i]
                    &&& final(self).history@.last().summary == h.last().summary
                    &&& final(self).history@.last().entries@ == h.last().entries@.push(full)
                } else {
                    let grown = h.len() as int + 1;
                    &&& final(self).history@.len() == (if grown > HISTORY_CAP {
                        grown - 1
                    } else {
                        grown
                    })
                    &&& (grown > HISTORY_CAP ==> forall|i: int|
                        0 <= i < grown - 2 ==> final(self).history@[i] == h[i + 1])
                    &&& (grown <= HISTORY_CAP ==> forall|i: int|
                        0 <= i < grown - 1 ==> final(self).history@[i] == h[i])
                    &&& final(self).history@.last().summary == summary
                    &&& final(self).history@.last().entries@.len() == 1
                    &&& final(self).history@.last().entries@[0] == full
                }
            }),
    {
        let ghost h = self.history@;
        let popped = self.history.pop_back();
        match popped {
            Option::Some(last) => {
                let mut last = last;
                if last.summary == summary {
                    last.entries.push(full);
                    self.history.push_back(last);
                    proof {
                        assert(self.history@ =~= h.update(
                            h.len() as int - 1,
                            self.history@.last(),
                        ));
                    }
                    return;
                }
                self.history.push_back(last);
                proof {
                    assert(self.history@ =~= h);
                }
            },
            Option::None => {},
        }
        let entry = HistoryEntry { summary, entries: vec![full] };
        self.history.push_back(entry);
        if self.history.len() > HISTORY_CAP {
            self.history.pop_front();
        }
    }
}

} // verus!
