//! The internal endpoints a downstream migration worker calls: handing
//! submissions off (claiming them and removing their source files) and
//! reconciling submission records with the PeerTube inventory.
use vstd::prelude::*;
use crate::files::is_subtitle_path;
use crate::paths::{
    dot_dot, ends_in_skippable, file_name_chars, file_name_spec, file_stem_chars,
    file_stem_spec, join, join_spec, last_segment, segment_start, strip_tail, with_extension,
    with_extension_spec,
};
use crate::text::{
    append_chars, append_str, chars_eq, chars_eq_str, chars_of, has_prefix, last_index_of,
    occurs_at_exec, opt_str_view, opt_string_view, string_from_chars, sub_vec,
};
use crate::listing::{contains_str, lemma_uuid_set_push, uuid_set};

verus! {

broadcast use vstd::string::group_string_axioms;

// ---------------------------------------------------------------------------
// Claiming
// ---------------------------------------------------------------------------

/// An item to claim: the PeerTube video and/or the file it was uploaded from.
#[derive(Debug, Clone, PartialEq, Eq)]
pub struct HandoffItem {
    pub peertube_uuid: Option<String>,
    pub filename: Option<String>,
}

#[derive(Debug, Clone, Copy, PartialEq, Eq, Structural)]
pub enum HandoffItemState {
    Claimed,
    AlreadyClaimed,
    NotFound,
}

#[derive(Debug, Clone, PartialEq, Eq)]
pub struct HandoffItemResult {
    pub filename: String,
    pub state: HandoffItemState,
}

/// One item of a handoff request.
pub struct HandoffRequestItem {
    pub peertube_uuid: String,
    pub filename: Option<String>,
}

pub struct HandoffRequest {
    pub items: Vec<HandoffRequestItem>,
}

/// The state of a claim, from the status of the newest matching submission:
/// none found, already handed off, or claimed now.
pub open spec fn claim_state_spec(row_status: Option<Seq<char>>) -> HandoffItemState {
    match row_status {
        None => HandoffItemState::NotFound,
        Some(s) => if s == "handed_off"@ {
            HandoffItemState::AlreadyClaimed
        } else {
            HandoffItemState::Claimed
        },
    }
}

/// The result of claiming `item`, given the status of the newest submission
/// matching it (`None` when no submission matches). A submission is claimed
/// (set to `handed_off`) only in the `Claimed` state.
pub fn claim_outcome(item: &HandoffItem, row_status: Option<&str>) -> (r: HandoffItemResult)
    ensures
        r.state == claim_state_spec(opt_str_view(row_status)),
        r.filename@ == match item.filename {
            Some(f) => f@,
            None => Seq::empty(),
        },
{
    let filename = match &item.filename {
        Some(f) => f.clone(),
        None => String::new(),
    };
    let state = match row_status {
        None => HandoffItemState::NotFound,
        Some(s) => {
            let v = chars_of(s);
            if chars_eq_str(&v, "handed_off") {
                HandoffItemState::AlreadyClaimed
            } else {
                HandoffItemState::Claimed
            }
        },
    };
    HandoffItemResult { filename, state }
}

/// Claiming is idempotent: once a submission is handed off, claiming it
/// again reports it as already claimed.
pub proof fn lemma_claim_idempotent()
    ensures
        claim_state_spec(Some("handed_off"@)) == HandoffItemState::AlreadyClaimed,
{
}

/// Whether the newest submission with a file name has been handed off.
pub fn is_handed_off(row_status: Option<&str>) -> (r: bool)
    ensures
        r == (opt_str_view(row_status) == Some("handed_off"@)),
{
    match row_status {
        Some(s) => {
            let v = chars_of(s);
            chars_eq_str(&v, "handed_off")
        },
        None => false,
    }
}

// ---------------------------------------------------------------------------
// File names from the request
// ---------------------------------------------------------------------------

/// `Path::new(f).file_name() == Some(f)` for a non-empty `f`.
pub open spec fn safe_filename_spec(f: Seq<char>) -> bool {
    f.len() > 0 && file_name_spec(f) == Some(f)
}

/// Accepts only a plain file name: non-empty and equal to its own final path
/// component, so that it cannot name a file outside the directory it is
/// joined to.
pub fn is_safe_filename(filename: &str) -> (r: bool)
    ensures
        r == safe_filename_spec(filename@),
{
    let v = chars_of(filename);
    if v.len() == 0 {
        return false;
    }
    match file_name_chars(&v) {
        Some(n) => chars_eq(&n, &v),
        None => false,
    }
}

proof fn lemma_strip_tail_prefix(p: Seq<char>)
    ensures
        strip_tail(p).len() <= p.len(),
        strip_tail(p) == p.take(strip_tail(p).len() as int),
    decreases p.len(),
{
    if ends_in_skippable(p) {
        lemma_strip_tail_prefix(p.drop_last());
        let q = strip_tail(p.drop_last());
        assert(p.drop_last().take(q.len() as int) =~= p.take(q.len() as int));
    } else {
        assert(p.take(p.len() as int) =~= p);
    }
}

/// A file name is safe exactly when it is non-empty, contains no `/`, and is
/// neither `.` nor `..`.
pub proof fn lemma_safe_filename_shape(f: Seq<char>)
    ensures
        safe_filename_spec(f) <==> (f.len() > 0 && (forall|i: int|
            0 <= i < f.len() ==> #[trigger] f[i] != '/') && f != seq!['.'] && f != dot_dot()),
{
    lemma_strip_tail_prefix(f);
    let q = strip_tail(f);
    let no_slash = forall|i: int| 0 <= i < f.len() ==> #[trigger] f[i] != '/';
    if f.len() > 0 && no_slash && f != seq!['.'] && f != dot_dot() {
        if f.len() == 1 {
            assert(f.last() == f[0]);
            if f[0] == '.' {
                assert(f =~= seq!['.']);
            }
        } else {
            assert(f[f.len() - 2] != '/');
        }
        assert(!ends_in_skippable(f));
        assert(q == f);
        assert(last_index_of(q, '/') is None);
        assert(f.subrange(0, f.len() as int) =~= f);
        assert(last_segment(f) == f);
    }
    if safe_filename_spec(f) {
        let n = last_segment(f);
        assert(n == f);
        let s = segment_start(q);
        assert(0 <= s <= q.len()) by {
            match last_index_of(q, '/') {
                Some(i) => {},
                None => {},
            }
        }
        assert(n.len() == q.len() - s);
        assert(s == 0 && q.len() == f.len());
        assert(q =~= f);
        match last_index_of(q, '/') {
            Some(i) => {
                assert(false);
            },
            None => {},
        }
        assert forall|i: int| 0 <= i < f.len() implies #[trigger] f[i] != '/' by {
            if f[i] == '/' {
                assert(0 <= i < q.len() && q[i] == '/');
                assert(exists|j: int|
                    0 <= j < q.len() && q[j] == '/' && forall|m: int| j < m < q.len() ==> q[m]
                        != '/') by {
                    lemma_last_slash_exists(q, i);
                }
            }
        }
        if f =~= seq!['.'] {
            assert(ends_in_skippable(f));
            assert(strip_tail(f.drop_last()) =~= Seq::<char>::empty());
        }
    }
}

/// A safe file name joined to a directory names an entry directly inside
/// that directory: the directory (with a separator) followed by the name,
/// which holds no separator and is neither `.` nor `..`.
pub proof fn lemma_safe_filename_stays_in_dir(root: Seq<char>, f: Seq<char>)
    requires
        safe_filename_spec(f),
    ensures
        join_spec(root, f) == (if root.len() > 0 && root.last() != '/' {
            root + seq!['/']
        } else {
            root
        }) + f,
        forall|i: int| 0 <= i < f.len() ==> #[trigger] f[i] != '/',
        f != seq!['.'] && f != dot_dot(),
{
    lemma_safe_filename_shape(f);
    assert(f[0] != '/');
}

proof fn lemma_last_slash_exists(q: Seq<char>, i: int)
    requires
        0 <= i < q.len(),
        q[i] == '/',
    ensures
        exists|j: int|
            0 <= j < q.len() && q[j] == '/' && forall|m: int| j < m < q.len() ==> q[m] != '/',
    decreases q.len() - i,
{
    if exists|m: int| i < m < q.len() && q[m] == '/' {
        let m = choose|m: int| i < m < q.len() && q[m] == '/';
        lemma_last_slash_exists(q, m);
    } else {
        assert(forall|m: int| i < m < q.len() ==> q[m] != '/');
    }
}

// ---------------------------------------------------------------------------
// Source files of a handed-off submission
// ---------------------------------------------------------------------------

/// Extensions of the thumbnails removed with a handed-off video, in order.
pub open spec fn artifact_image_exts() -> Seq<Seq<char>> {
    seq!["jpg"@, "jpeg"@, "png"@, "webp"@]
}

/// A directory entry that belongs to the video: a subtitle file named
/// `{stem}.*`.
pub open spec fn is_artifact_entry(stem: Seq<char>, entry: Seq<char>) -> bool {
    match file_name_spec(entry) {
        Some(n) => has_prefix(n, stem.push('.')) && is_subtitle_path(entry),
        None => false,
    }
}

/// The paths to remove for `filename` under `root`: the video, its
/// `.info.json`, its thumbnails, and the subtitle sidecars among the
/// directory entries.
pub open spec fn source_artifacts_spec(root: Seq<char>, filename: Seq<char>, entries: Seq<Seq<char>>) -> Seq<
    Seq<char>,
> {
    let video = join_spec(root, filename);
    let base = seq![video, with_extension_spec(video, "info.json"@)];
    match file_stem_spec(video) {
        Some(stem) => base + artifact_image_exts().map_values(
            |e: Seq<char>| join_spec(root, stem + "."@ + e),
        ) + entries.filter(|e: Seq<char>| is_artifact_entry(stem, e)),
        None => base,
    }
}

fn is_artifact_entry_exec(stem: &Vec<char>, entry: &str) -> (r: bool)
    ensures
        r == is_artifact_entry(stem@, entry@),
{
    let e = chars_of(entry);
    match file_name_chars(&e) {
        Some(n) => {
            let mut prefix: Vec<char> = Vec::new();
            append_chars(&mut prefix, stem);
            prefix.push('.');
            occurs_at_exec(&n, &prefix, 0) && crate::files::is_subtitle_file(entry)
        },
        None => false,
    }
}

fn stem_path(root: &str, stem: &Vec<char>, ext: &str) -> (r: String)
    ensures
        r@ == join_spec(root@, stem@ + "."@ + ext@),
{
    let mut n: Vec<char> = Vec::new();
    append_chars(&mut n, stem);
    append_str(&mut n, ".");
    append_str(&mut n, ext);
    let s = string_from_chars(&n);
    join(root, s.as_str())
}

/// The files that belong to a handed-off video `filename` in `root`, given
/// the paths of the entries of `root`.
pub fn source_artifacts(root: &str, filename: &str, entries: &Vec<String>) -> (r: Vec<String>)
    ensures
        r@.map_values(|s: String| s@) == source_artifacts_spec(
            root@,
            filename@,
            entries@.map_values(|s: String| s@),
        ),
{
    let video = join(root, filename);
    let mut out: Vec<String> = Vec::new();
    out.push(video.clone());
    out.push(with_extension(video.as_str(), "info.json"));
    let ghost base = seq![video@, with_extension_spec(video@, "info.json"@)];
    assert(out@.map_values(|s: String| s@) =~= base);
    let vv = chars_of(video.as_str());
    let stem = match file_stem_chars(&vv) {
        Some(s) => s,
        None => {
            return out;
        },
    };
    out.push(stem_path(root, &stem, "jpg"));
    out.push(stem_path(root, &stem, "jpeg"));
    out.push(stem_path(root, &stem, "png"));
    out.push(stem_path(root, &stem, "webp"));
    let ghost imgs = artifact_image_exts().map_values(
        |e: Seq<char>| join_spec(root@, stem@ + "."@ + e),
    );
    assert(out@.map_values(|s: String| s@) =~= base + imgs);
    let ghost ev = entries@.map_values(|s: String| s@);
    let ghost pred = |e: Seq<char>| is_artifact_entry(stem@, e);
    let mut i: usize = 0;
    while i < entries.len()
        invariant
            i <= entries.len(),
            ev == entries@.map_values(|s: String| s@),
            pred == (|e: Seq<char>| is_artifact_entry(stem@, e)),
            out@.map_values(|s: String| s@) == base + imgs + ev.take(i as int).filter(pred),
        decreases entries.len() - i,
    {
        let ghost before = out@.map_values(|s: String| s@);
        let keep = is_artifact_entry_exec(&stem, entries[i].as_str());
        proof {
            reveal(Seq::filter);
            assert(ev.take(i + 1).drop_last() =~= ev.take(i as int));
            assert(ev.take(i + 1).last() == entries@[i as int]@);
        }
        if keep {
            let p = entries[i].clone();
            out.push(p);
            proof {
                assert(out@.map_values(|s: String| s@) =~= before.push(p@));
                assert(base + imgs + ev.take(i + 1).filter(pred) =~= (base + imgs + ev.take(
                    i as int,
                ).filter(pred)).push(p@));
            }
        }
        i = i + 1;
    }
    assert(ev.take(entries.len() as int) =~= ev);
    out
}

// ---------------------------------------------------------------------------
// Authorization and request checks
// ---------------------------------------------------------------------------

/// The `Authorization` header carries `Bearer {expected}`.
pub open spec fn bearer_matches_spec(authorization: Option<Seq<char>>, expected: Seq<char>) -> bool {
    match authorization {
        Some(a) => a == "Bearer "@ + expected,
        None => false,
    }
}

/// Whether the `Authorization` header (when present and readable as text)
/// carries the bearer token `expected`.
pub fn bearer_token_matches(authorization: Option<&str>, expected: &str) -> (r: bool)
    ensures
        r == bearer_matches_spec(opt_str_view(authorization), expected@),
{
    match authorization {
        Some(a) => {
            let mut want = chars_of("Bearer ");
            append_str(&mut want, expected);
            let av = chars_of(a);
            chars_eq(&av, &want)
        },
        None => false,
    }
}

/// Why an internal request is refused before any work is done.
#[derive(Debug, Clone, Copy, PartialEq, Eq, Structural)]
pub enum InternalRejection {
    /// No token is configured: the endpoint is disabled (404).
    Disabled,
    /// The bearer token is missing or wrong (401).
    Unauthorized,
    /// A handoff request without items (400).
    NoItems,
    /// A handoff item whose file name is not a plain file name (400).
    UnsafeFilename,
}

impl InternalRejection {
    pub open spec fn status_spec(&self) -> u16 {
        match self {
            InternalRejection::Disabled => 404,
            InternalRejection::Unauthorized => 401,
            InternalRejection::NoItems => 400,
            InternalRejection::UnsafeFilename => 400,
        }
    }

    /// The HTTP status code of the refusal.
    pub fn status(&self) -> (r: u16)
        ensures
            r == self.status_spec(),
    {
        match self {
            InternalRejection::Disabled => 404,
            InternalRejection::Unauthorized => 401,
            InternalRejection::NoItems => 400,
            InternalRejection::UnsafeFilename => 400,
        }
    }
}

/// The first refusal of a handoff request before any item is looked at, in
/// the order the endpoint checks: disabled, unauthorized, no items.
pub open spec fn handoff_gate_spec(
    expected: Option<Seq<char>>,
    authorization: Option<Seq<char>>,
    item_count: nat,
) -> Option<InternalRejection> {
    match expected {
        None => Some(InternalRejection::Disabled),
        Some(t) => if !bearer_matches_spec(authorization, t) {
            Some(InternalRejection::Unauthorized)
        } else if item_count == 0 {
            Some(InternalRejection::NoItems)
        } else {
            None
        },
    }
}

/// Checks a handoff request before its items are processed.
pub fn handoff_gate(expected: Option<&str>, authorization: Option<&str>, request: &HandoffRequest) -> (r: Result<(), InternalRejection>)
    ensures
        match handoff_gate_spec(
            opt_str_view(expected),
            opt_str_view(authorization),
            request.items@.len(),
        ) {
            Some(e) => r == Err::<(), InternalRejection>(e),
            None => r is Ok,
        },
{
    let t = match expected {
        None => return Err(InternalRejection::Disabled),
        Some(t) => t,
    };
    if !bearer_token_matches(authorization, t) {
        return Err(InternalRejection::Unauthorized);
    }
    if request.items.len() == 0 {
        return Err(InternalRejection::NoItems);
    }
    Ok(())
}

/// The claim of one handoff item, checked when the endpoint reaches it: an
/// item whose file name is not a plain file name ends the request (items
/// before it stay processed); otherwise the submission lookup is by the
/// item's PeerTube UUID and file name.
pub fn handoff_item(item: &HandoffRequestItem) -> (r: Result<HandoffItem, InternalRejection>)
    ensures
        match item.filename {
            Some(f) => !safe_filename_spec(f@),
            None => false,
        } ==> r == Err::<HandoffItem, InternalRejection>(InternalRejection::UnsafeFilename),
        match item.filename {
            Some(f) => safe_filename_spec(f@),
            None => true,
        } ==> (r matches Ok(h) && opt_string_view(h.peertube_uuid) == Some(item.peertube_uuid@)
            && opt_string_view(h.filename) == opt_string_view(item.filename)),
{
    match &item.filename {
        Some(f) => {
            if !is_safe_filename(f.as_str()) {
                return Err(InternalRejection::UnsafeFilename);
            }
        },
        None => {},
    }
    Ok(
        HandoffItem {
            peertube_uuid: Some(item.peertube_uuid.clone()),
            filename: crate::text::clone_opt_string(&item.filename),
        },
    )
}

/// Whether the source files of an item are removed after its claim: for
/// claimed and already-claimed items, not for items without a matching
/// submission.
pub fn needs_cleanup(state: HandoffItemState) -> (r: bool)
    ensures
        r == (state != HandoffItemState::NotFound),
{
    match state {
        HandoffItemState::NotFound => false,
        _ => true,
    }
}

/// How many of `states` are `s`.
pub open spec fn state_count(states: Seq<HandoffItemState>, s: HandoffItemState) -> nat
    decreases states.len(),
{
    if states.len() == 0 {
        0
    } else {
        state_count(states.drop_last(), s) + if states.last() == s {
            1nat
        } else {
            0nat
        }
    }
}

/// Every claimed item is counted exactly once: the three counts of a run of
/// claim states add up to its length.
pub proof fn lemma_handoff_counts_partition(states: Seq<HandoffItemState>)
    ensures
        state_count(states, HandoffItemState::Claimed) + state_count(
            states,
            HandoffItemState::AlreadyClaimed,
        ) + state_count(states, HandoffItemState::NotFound) == states.len(),
    decreases states.len(),
{
    if states.len() > 0 {
        lemma_handoff_counts_partition(states.drop_last());
    }
}

/// The counts reported by a handoff.
pub struct HandoffResponse {
    pub checked: usize,
    pub claimed: usize,
    pub removed_files: Vec<String>,
    pub already_claimed: usize,
    pub not_found: usize,
}

impl HandoffResponse {
    /// A response for `checked` items, none processed yet.
    pub fn new(checked: usize) -> (r: HandoffResponse)
        ensures
            r.checked == checked,
            r.claimed == 0 && r.already_claimed == 0 && r.not_found == 0,
            r.removed_files@.len() == 0,
    {
        HandoffResponse { checked, claimed: 0, removed_files: Vec::new(), already_claimed: 0, not_found: 0 }
    }

    /// Counts the claim result of one item. Returns whether the item's source
    /// files are to be removed: for claimed and already-claimed items, not
    /// for items without a matching submission.
    pub fn record(&mut self, state: HandoffItemState) -> (cleanup: bool)
        requires
            old(self).claimed + old(self).already_claimed + old(self).not_found < old(self).checked,
        ensures
            final(self).checked == old(self).checked,
            final(self).removed_files == old(self).removed_files,
            final(self).claimed == old(self).claimed + (if state == HandoffItemState::Claimed {
                1int
            } else {
                0
            }),
            final(self).already_claimed == old(self).already_claimed + (if state
                == HandoffItemState::AlreadyClaimed {
                1int
            } else {
                0
            }),
            final(self).not_found == old(self).not_found + (if state == HandoffItemState::NotFound {
                1int
            } else {
                0
            }),
            cleanup == (state != HandoffItemState::NotFound),
    {
        match state {
            HandoffItemState::Claimed => {
                self.claimed = self.claimed + 1;
                true
            },
            HandoffItemState::AlreadyClaimed => {
                self.already_claimed = self.already_claimed + 1;
                true
            },
            HandoffItemState::NotFound => {
                self.not_found = self.not_found + 1;
                false
            },
        }
    }

    /// The counts of a handoff whose items were claimed with `states`, in
    /// order: every item is checked, and each is counted once, as claimed,
    /// already claimed or not found.
    pub fn tally(states: &Vec<HandoffItemState>) -> (r: HandoffResponse)
        ensures
            r.checked == states@.len(),
            r.claimed == state_count(states@, HandoffItemState::Claimed),
            r.already_claimed == state_count(states@, HandoffItemState::AlreadyClaimed),
            r.not_found == state_count(states@, HandoffItemState::NotFound),
            r.claimed + r.already_claimed + r.not_found == r.checked,
            r.removed_files@.len() == 0,
    {
        let mut r = HandoffResponse::new(states.len());
        let mut i: usize = 0;
        while i < states.len()
            invariant
                i <= states.len(),
                r.checked == states@.len(),
                r.removed_files@.len() == 0,
                r.claimed == state_count(states@.take(i as int), HandoffItemState::Claimed),
                r.already_claimed == state_count(
                    states@.take(i as int),
                    HandoffItemState::AlreadyClaimed,
                ),
                r.not_found == state_count(states@.take(i as int), HandoffItemState::NotFound),
                r.claimed + r.already_claimed + r.not_found == i,
            decreases states.len() - i,
        {
            let st = states[i];
            proof {
                assert(states@.take(i + 1).drop_last() =~= states@.take(i as int));
                assert(states@.take(i + 1).last() == st);
            }
            r.record(st);
            i = i + 1;
        }
        assert(states@.take(states.len() as int) =~= states@);
        r
    }

    /// Records a removed source file.
    pub fn record_removed(&mut self, path: String)
        ensures
            final(self).checked == old(self).checked,
            final(self).claimed == old(self).claimed,
            final(self).already_claimed == old(self).already_claimed,
            final(self).not_found == old(self).not_found,
            final(self).removed_files@ == old(self).removed_files@.push(path),
    {
        self.removed_files.push(path);
    }
}

// ---------------------------------------------------------------------------
// Reconciliation with the PeerTube inventory
// ---------------------------------------------------------------------------

/// The first refusal of a cleanup request: disabled or unauthorized.
pub fn cleanup_gate(expected: Option<&str>, authorization: Option<&str>) -> (r: Result<(), InternalRejection>)
    ensures
        match opt_str_view(expected) {
            None => r == Err::<(), InternalRejection>(InternalRejection::Disabled),
            Some(t) => if bearer_matches_spec(opt_str_view(authorization), t) {
                r is Ok
            } else {
                r == Err::<(), InternalRejection>(InternalRejection::Unauthorized)
            },
        },
{
    match expected {
        None => Err(InternalRejection::Disabled),
        Some(t) => if bearer_token_matches(authorization, t) {
            Ok(())
        } else {
            Err(InternalRejection::Unauthorized)
        },
    }
}

/// The distinct values of `v`, in order of first appearance.
pub fn dedup(v: &Vec<String>) -> (r: Vec<String>)
    ensures
        uuid_set(r@) == uuid_set(v@),
        r@.map_values(|s: String| s@).no_duplicates(),
{
    let mut out: Vec<String> = Vec::new();
    let mut i: usize = 0;
    while i < v.len()
        invariant
            i <= v.len(),
            uuid_set(out@) == uuid_set(v@.take(i as int)),
            out@.map_values(|s: String| s@).no_duplicates(),
        decreases v.len() - i,
    {
        let ghost before = out@.map_values(|s: String| s@);
        let ghost old_out = out@;
        let present = contains_str(&out, v[i].as_str());
        proof {
            assert(v@.take(i + 1).map_values(|s: String| s@) =~= v@.take(i as int).map_values(
                |s: String| s@,
            ).push(v@[i as int]@));
        }
        if !present {
            let s = v[i].clone();
            out.push(s);
            proof {
                assert(out@.map_values(|s: String| s@) =~= before.push(s@));
                assert(!before.contains(s@)) by {
                    if before.contains(s@) {
                        let k = choose|k: int| 0 <= k < before.len() && before[k] == s@;
                        assert(uuid_set(out@.drop_last()).contains(s@)) by {
                            assert(out@.drop_last().map_values(|s: String| s@) =~= before);
                        }
                        assert(uuid_set(v@.take(i as int)).contains(v@[i as int]@));
                    }
                }
                lemma_push_no_dup(before, s@);
            }
        }
        proof {
            let m = out@.map_values(|s: String| s@);
            let w = v@.take(i + 1).map_values(|s: String| s@);
            assert(v@.take(i + 1) =~= v@.take(i as int).push(v@[i as int]));
            lemma_uuid_set_push(v@.take(i as int), v@[i as int]);
            if present {
                assert(uuid_set(out@) =~= uuid_set(out@).insert(v@[i as int]@));
            } else {
                assert(out@ =~= old_out.push(v@[i as int]));
                lemma_uuid_set_push(old_out, v@[i as int]);
            }
        }
        i = i + 1;
    }
    assert(v@.take(v.len() as int) =~= v@);
    out
}

/// The records a reconciliation looks at: the given PeerTube UUIDs, or,
/// when none are given, every UUID stored with a submission.
pub fn cleanup_scope(candidates: Option<&Vec<String>>, stored: &Vec<String>) -> (r: Vec<String>)
    ensures
        uuid_set(r@) == match candidates {
            Some(c) => uuid_set(c@),
            None => uuid_set(stored@),
        },
        r@.map_values(|s: String| s@).no_duplicates(),
{
    match candidates {
        Some(c) => dedup(c),
        None => dedup(stored),
    }
}

/// The UUIDs in scope that PeerTube no longer has: their submission records
/// are deleted.
pub fn stale_uuids(scope: &Vec<String>, current: &Vec<String>) -> (r: Vec<String>)
    requires
        scope@.map_values(|s: String| s@).no_duplicates(),
    ensures
        uuid_set(r@) == uuid_set(scope@).difference(uuid_set(current@)),
        r@.map_values(|s: String| s@).no_duplicates(),
{
    let mut out: Vec<String> = Vec::new();
    let mut i: usize = 0;
    while i < scope.len()
        invariant
            i <= scope.len(),
            scope@.map_values(|s: String| s@).no_duplicates(),
            uuid_set(out@) == uuid_set(scope@.take(i as int)).difference(uuid_set(current@)),
            forall|a: int| 0 <= a < out@.len() ==> uuid_set(scope@.take(i as int)).contains(
                #[trigger] out@[a]@,
            ),
            out@.map_values(|s: String| s@).no_duplicates(),
        decreases scope.len() - i,
    {
        let ghost before = out@.map_values(|s: String| s@);
        let ghost old_out = out@;
        let live = contains_str(current, scope[i].as_str());
        proof {
            assert(scope@.take(i + 1).map_values(|s: String| s@) =~= scope@.take(
                i as int,
            ).map_values(|s: String| s@).push(scope@[i as int]@));
            assert(scope@.take(i + 1) =~= scope@.take(i as int).push(scope@[i as int]));
            lemma_uuid_set_push(scope@.take(i as int), scope@[i as int]);
        }
        if !live {
            let s = scope[i].clone();
            out.push(s);
            proof {
                let m = scope@.map_values(|s: String| s@);
                assert(out@.map_values(|s: String| s@) =~= before.push(s@));
                assert(!uuid_set(scope@.take(i as int)).contains(s@)) by {
                    if uuid_set(scope@.take(i as int)).contains(s@) {
                        let w = scope@.take(i as int).map_values(|s: String| s@);
                        let k = choose|k: int| 0 <= k < w.len() && w[k] == s@;
                        assert(m[k] == m[i as int]);
                    }
                }
                assert(!before.contains(s@)) by {
                    if before.contains(s@) {
                        let k = choose|k: int| 0 <= k < before.len() && before[k] == s@;
                        assert(out@[k]@ == s@);
                    }
                }
                lemma_push_no_dup(before, s@);
            }
        }
        proof {
            if !live {
                assert(out@ =~= old_out.push(scope@[i as int]));
                lemma_uuid_set_push(old_out, scope@[i as int]);
            }
            assert(uuid_set(out@) =~= uuid_set(scope@.take(i + 1)).difference(uuid_set(current@)));
        }
        i = i + 1;
    }
    assert(scope@.take(scope.len() as int) =~= scope@);
    out
}

proof fn lemma_push_no_dup(s: Seq<Seq<char>>, x: Seq<char>)
    requires
        s.no_duplicates(),
        !s.contains(x),
    ensures
        s.push(x).no_duplicates(),
{
    let t = s.push(x);
    assert forall|a: int, b: int| 0 <= a < t.len() && 0 <= b < t.len() && a != b implies t[a]
        != t[b] by {
        if a == s.len() {
            assert(s.contains(t[b]));
        } else if b == s.len() {
            assert(s.contains(t[a]));
        } else {
            assert(t[a] == s[a] && t[b] == s[b]);
        }
    }
}

/// Reconciliation never deletes the record of a video PeerTube still has,
/// and a targeted reconciliation only deletes records among its targets.
pub proof fn lemma_cleanup_spares_live_videos(
    scope: Set<Seq<char>>,
    current: Set<Seq<char>>,
    candidates: Set<Seq<char>>,
    targeted: bool,
)
    requires
        targeted ==> scope == candidates,
    ensures
        scope.difference(current).disjoint(current),
        targeted ==> scope.difference(current).subset_of(candidates),
{
}

} // verus!
