//! Rules of a submission's life in the store: which submission a file that
//! landed in the import directory belongs to, which submission a handoff
//! claims, and how a user's deletion of several submissions proceeds.
//!
//! The store hands these functions the candidate rows in a stated order; the
//! functions decide, and the store carries the decision out.
use vstd::prelude::*;
use crate::handoff::HandoffItem;
use crate::text::{chars_eq, chars_of, opt_string_view};

verus! {

broadcast use vstd::string::group_string_axioms;

/// Whether two strings hold the same text.
fn same_text(a: &str, b: &str) -> (r: bool)
    ensures
        r == (a@ == b@),
{
    let x = chars_of(a);
    let y = chars_of(b);
    chars_eq(&x, &y)
}

/// Whether two optional strings are both absent or hold the same text.
fn same_opt_text(a: &Option<String>, b: &Option<String>) -> (r: bool)
    ensures
        r == (opt_string_view(*a) == opt_string_view(*b)),
{
    match (a, b) {
        (Some(x), Some(y)) => same_text(x.as_str(), y.as_str()),
        (None, None) => true,
        _ => false,
    }
}

// ---------------------------------------------------------------------------
// Imports
// ---------------------------------------------------------------------------

/// A submission as the import step sees it.
pub struct ImportRow {
    pub id: String,
    pub filename: Option<String>,
    pub status: String,
    pub is_direct: bool,
}

/// A MeTube submission that recorded this file name and has not been
/// imported or handed off yet: pending, downloading, interrupted or failed.
pub open spec fn names_file(row: ImportRow, filename: Seq<char>) -> bool {
    &&& opt_string_view(row.filename) == Some(filename)
    &&& !row.is_direct
    &&& (row.status@ == "pending"@ || row.status@ == "downloading"@ || row.status@
        == "interrupted"@ || row.status@ == "error"@)
}

/// A MeTube submission still in progress that has no file name yet.
pub open spec fn awaits_file(row: ImportRow) -> bool {
    &&& row.filename is None
    &&& !row.is_direct
    &&& (row.status@ == "pending"@ || row.status@ == "downloading"@)
}

/// The ids of the rows that name the file, in order.
pub open spec fn named_ids(rows: Seq<ImportRow>, filename: Seq<char>) -> Seq<Seq<char>>
    decreases rows.len(),
{
    if rows.len() == 0 {
        Seq::empty()
    } else {
        named_ids(rows.drop_last(), filename) + if names_file(rows.last(), filename) {
            seq![rows.last().id@]
        } else {
            Seq::empty()
        }
    }
}

/// The position of the first row that awaits a file.
pub open spec fn first_awaiting(rows: Seq<ImportRow>) -> Option<int>
    decreases rows.len(),
{
    if rows.len() == 0 {
        None
    } else {
        match first_awaiting(rows.drop_last()) {
            Some(i) => Some(i),
            None => if awaits_file(rows.last()) {
                Some(rows.len() - 1)
            } else {
                None
            },
        }
    }
}

proof fn lemma_first_awaiting_bounds(rows: Seq<ImportRow>)
    ensures
        first_awaiting(rows) matches Some(i) ==> 0 <= i < rows.len() && awaits_file(rows[i]),
    decreases rows.len(),
{
    if rows.len() > 0 {
        lemma_first_awaiting_bounds(rows.drop_last());
    }
}

/// Which submissions a landed file marks imported.
pub enum ImportTarget {
    /// The submissions that recorded this file name.
    Named(Vec<String>),
    /// No submission recorded it: the oldest one still waiting for a file,
    /// which takes the file name.
    Oldest(String),
    /// No submission can take the file.
    Nothing,
}

fn is_in_progress(status: &str, with_interrupted_or_error: bool) -> (r: bool)
    ensures
        r == (status@ == "pending"@ || status@ == "downloading"@ || (with_interrupted_or_error && (
        status@ == "interrupted"@ || status@ == "error"@))),
{
    same_text(status, "pending") || same_text(status, "downloading") || (with_interrupted_or_error
        && (same_text(status, "interrupted") || same_text(status, "error")))
}

/// The submissions a file that landed in the import directory belongs to,
/// given the candidate `rows` oldest first: every MeTube submission that
/// recorded the file name and is not imported yet; when there is none, the
/// oldest MeTube submission still in progress without a file name. Direct
/// downloads are never taken, since they mark themselves imported.
pub fn import_target(rows: &Vec<ImportRow>, filename: &str) -> (r: ImportTarget)
    ensures
        named_ids(rows@, filename@).len() > 0 ==> (r matches ImportTarget::Named(ids) && ids@.map_values(
            |s: String| s@,
        ) == named_ids(rows@, filename@)),
        named_ids(rows@, filename@).len() == 0 ==> match first_awaiting(rows@) {
            Some(i) => r matches ImportTarget::Oldest(id) && id@ == rows@[i].id@,
            None => r is Nothing,
        },
{
    let mut named: Vec<String> = Vec::new();
    let mut oldest: Option<usize> = None;
    let mut i: usize = 0;
    while i < rows.len()
        invariant
            i <= rows.len(),
            named@.map_values(|s: String| s@) == named_ids(rows@.take(i as int), filename@),
            oldest matches Some(k) ==> first_awaiting(rows@.take(i as int)) == Some(k as int),
            oldest is None ==> first_awaiting(rows@.take(i as int)) is None,
        decreases rows.len() - i,
    {
        let row = &rows[i];
        let ghost before = named@.map_values(|s: String| s@);
        proof {
            assert(rows@.take(i + 1).drop_last() =~= rows@.take(i as int));
            assert(rows@.take(i + 1).last() == *row);
        }
        let same_name = match &row.filename {
            Some(f) => same_text(f.as_str(), filename),
            None => false,
        };
        if same_name && !row.is_direct && is_in_progress(row.status.as_str(), true) {
            named.push(row.id.clone());
            proof {
                assert(named@.map_values(|s: String| s@) =~= before + seq![row.id@]);
            }
        } else {
            proof {
                assert(named@.map_values(|s: String| s@) =~= before + Seq::<Seq<char>>::empty());
            }
        }
        if oldest.is_none() && row.filename.is_none() && !row.is_direct && is_in_progress(
            row.status.as_str(),
            false,
        ) {
            oldest = Some(i);
        }
        i = i + 1;
    }
    assert(rows@.take(rows.len() as int) =~= rows@);
    if named.len() > 0 {
        ImportTarget::Named(named)
    } else {
        assert(named@.map_values(|s: String| s@).len() == named@.len());
        proof {
            lemma_first_awaiting_bounds(rows@);
        }
        match oldest {
            Some(k) => ImportTarget::Oldest(rows[k].id.clone()),
            None => ImportTarget::Nothing,
        }
    }
}

// ---------------------------------------------------------------------------
// Handoff claims
// ---------------------------------------------------------------------------

/// A submission as a handoff claim sees it.
pub struct HandoffRow {
    pub id: String,
    pub filename: Option<String>,
    pub peertube_uuid: Option<String>,
    pub status: String,
}

/// Whether a submission is the one a handoff item names: by file name (and,
/// when the item has one, a PeerTube video that is the item's or not yet
/// known), or, for an item without a file name, by its PeerTube video.
pub open spec fn handoff_matches(item: HandoffItem, row: HandoffRow) -> bool {
    match item.filename {
        Some(f) => opt_string_view(row.filename) == Some(f@) && (item.peertube_uuid is None
            || opt_string_view(row.peertube_uuid) == opt_string_view(item.peertube_uuid)
            || row.peertube_uuid is None),
        None => item.peertube_uuid is Some && opt_string_view(row.peertube_uuid) == opt_string_view(
            item.peertube_uuid,
        ),
    }
}

/// The position of the first row the item names.
pub open spec fn first_handoff_match(item: HandoffItem, rows: Seq<HandoffRow>) -> Option<int>
    decreases rows.len(),
{
    if rows.len() == 0 {
        None
    } else {
        match first_handoff_match(item, rows.drop_last()) {
            Some(i) => Some(i),
            None => if handoff_matches(item, rows.last()) {
                Some(rows.len() - 1)
            } else {
                None
            },
        }
    }
}

/// The submission a handoff item claims, given the candidate `rows` newest
/// first: the first (newest) one the item names.
pub fn handoff_match(item: &HandoffItem, rows: &Vec<HandoffRow>) -> (r: Option<usize>)
    ensures
        r matches Some(k) ==> first_handoff_match(*item, rows@) == Some(k as int),
        r is None ==> first_handoff_match(*item, rows@) is None,
{
    let mut i: usize = 0;
    while i < rows.len()
        invariant
            i <= rows.len(),
            first_handoff_match(*item, rows@.take(i as int)) is None,
        decreases rows.len() - i,
    {
        let row = &rows[i];
        proof {
            assert(rows@.take(i + 1).drop_last() =~= rows@.take(i as int));
            assert(rows@.take(i + 1).last() == *row);
        }
        let matched = match &item.filename {
            Some(f) => {
                let same_name = match &row.filename {
                    Some(rf) => same_text(rf.as_str(), f.as_str()),
                    None => false,
                };
                same_name && (item.peertube_uuid.is_none() || same_opt_text(
                    &row.peertube_uuid,
                    &item.peertube_uuid,
                ) || row.peertube_uuid.is_none())
            },
            None => item.peertube_uuid.is_some() && same_opt_text(
                &row.peertube_uuid,
                &item.peertube_uuid,
            ),
        };
        if matched {
            proof {
                lemma_first_match_prefix(*item, rows@, i as int);
            }
            return Some(i);
        }
        i = i + 1;
    }
    assert(rows@.take(rows.len() as int) =~= rows@);
    None
}

/// A first match found within a prefix is the first match of the whole.
proof fn lemma_first_match_prefix(item: HandoffItem, rows: Seq<HandoffRow>, i: int)
    requires
        0 <= i < rows.len(),
        first_handoff_match(item, rows.take(i + 1)) == Some(i),
    ensures
        first_handoff_match(item, rows) == Some(i),
    decreases rows.len(),
{
    if rows.len() > i + 1 {
        let shorter = rows.drop_last();
        assert(shorter.take(i + 1) =~= rows.take(i + 1));
        lemma_first_match_prefix(item, shorter, i);
    } else {
        assert(rows.take(i + 1) =~= rows);
    }
}

// ---------------------------------------------------------------------------
// Deleting owned submissions
// ---------------------------------------------------------------------------

/// The progress of deleting a list of submissions on behalf of a user. Each
/// id is looked up among the user's submissions in turn; a found one is
/// deleted and its PeerTube video noted. The first id that the user does not
/// own stops the deletion: nothing after it is deleted, and no videos are
/// reported.
pub struct OwnedDeletion {
    pub uuids: Vec<Option<String>>,
    pub refused: bool,
}

impl OwnedDeletion {
    /// Nothing looked up yet.
    pub fn new() -> (r: OwnedDeletion)
        ensures
            r.uuids@.len() == 0,
            !r.refused,
    {
        OwnedDeletion { uuids: Vec::new(), refused: false }
    }

    /// Records the lookup of the next id among the user's submissions
    /// (`Some` with its PeerTube video when the user owns it). Returns
    /// whether that submission is deleted; once an id is refused, no later
    /// one is.
    pub fn record(&mut self, found: Option<Option<String>>) -> (delete: bool)
        ensures
            delete == (!old(self).refused && found is Some),
            final(self).refused == (old(self).refused || found is None),
            delete ==> (found matches Some(u) && final(self).uuids@ == old(self).uuids@.push(u)),
            !delete ==> final(self).uuids@ == old(self).uuids@,
    {
        if self.refused {
            return false;
        }
        match found {
            Some(u) => {
                self.uuids.push(u);
                true
            },
            None => {
                self.refused = true;
                false
            },
        }
    }

    /// Whether the next id is looked up at all.
    pub fn goes_on(&self) -> (r: bool)
        ensures
            r == !self.refused,
    {
        !self.refused
    }

    /// The PeerTube videos of the deleted submissions; none when an id was
    /// refused.
    pub fn finish(self) -> (r: Vec<Option<String>>)
        ensures
            self.refused ==> r@.len() == 0,
            !self.refused ==> r@ == self.uuids@,
    {
        if self.refused {
            Vec::new()
        } else {
            self.uuids
        }
    }
}

} // verus!
