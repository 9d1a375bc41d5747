//! The MeTube side of the pipeline: reading its queue, the status updates a
//! queue poll implies, the Socket.IO connection that reports progress, and
//! the PeerTube transcoding poll.
use vstd::prelude::*;
use crate::text::{
    append_str, chars_eq_str, chars_of, first_occurrence, has_prefix, occurs_at_exec, find,
    opt_str_view, opt_string_view, string_from_chars, sub_vec, append_chars,
};
use crate::listing::{contains_str, uuid_set};

verus! {

broadcast use vstd::string::group_string_axioms;

/// A download MeTube knows about.
#[derive(Debug, Clone, PartialEq, Eq)]
pub struct QueueItem {
    pub url: String,
    pub title: Option<String>,
}

/// MeTube's queue, by state.
pub struct QueueState {
    /// URLs MeTube is actively downloading.
    pub active: Vec<QueueItem>,
    /// URLs waiting to start in MeTube's queue.
    pub pending: Vec<QueueItem>,
    /// URLs MeTube finished with an error.
    pub errored: Vec<QueueItem>,
}

/// An entry of one of the arrays of MeTube's `/history` answer, as plain
/// values: its `url` and `title` when they are strings, and whether its
/// `error` field is present and not null.
pub struct RawQueueEntry {
    pub url: Option<String>,
    pub title: Option<String>,
    pub has_error: bool,
}

pub open spec fn keeps_entry(e: RawQueueEntry, error_filter: bool) -> bool {
    e.url is Some && !(error_filter && !e.has_error)
}

pub open spec fn item_view(i: QueueItem) -> (Seq<char>, Option<Seq<char>>) {
    (i.url@, opt_string_view(i.title))
}

pub open spec fn entry_view(e: RawQueueEntry) -> (Seq<char>, Option<Seq<char>>) {
    (e.url->0@, opt_string_view(e.title))
}

/// The queue items among the entries: those with a string URL, and, when
/// `error_filter` is set, only those that carry an error.
pub fn extract_items(entries: Vec<RawQueueEntry>, error_filter: bool) -> (r: Vec<QueueItem>)
    ensures
        r@.map_values(|i: QueueItem| item_view(i)) == entries@.filter(
            |e: RawQueueEntry| keeps_entry(e, error_filter),
        ).map_values(|e: RawQueueEntry| entry_view(e)),
{
    let ghost pred = |e: RawQueueEntry| keeps_entry(e, error_filter);
    let mut out: Vec<QueueItem> = Vec::new();
    let mut i: usize = 0;
    while i < entries.len()
        invariant
            i <= entries.len(),
            pred == (|e: RawQueueEntry| keeps_entry(e, error_filter)),
            out@.map_values(|i: QueueItem| item_view(i)) == entries@.take(i as int).filter(
                pred,
            ).map_values(|e: RawQueueEntry| entry_view(e)),
        decreases entries.len() - i,
    {
        let ghost before = out@.map_values(|i: QueueItem| item_view(i));
        let e = &entries[i];
        proof {
            reveal(Seq::filter);
            assert(entries@.take(i + 1).drop_last() =~= entries@.take(i as int));
            assert(entries@.take(i + 1).last() == entries@[i as int]);
        }
        let skip = error_filter && !e.has_error;
        if !skip {
            match &e.url {
                Some(u) => {
                    let item = QueueItem { url: u.clone(), title: e.title.clone() };
                    out.push(item);
                    proof {
                        let f = entries@.take(i as int).filter(pred);
                        assert(entries@.take(i + 1).filter(pred) =~= f.push(entries@[i as int]));
                        assert(f.push(entries@[i as int]).map_values(
                            |e: RawQueueEntry| entry_view(e),
                        ) =~= f.map_values(|e: RawQueueEntry| entry_view(e)).push(
                            entry_view(entries@[i as int]),
                        ));
                        assert(out@.map_values(|i: QueueItem| item_view(i)) =~= before.push(
                            item_view(item),
                        ));
                    }
                },
                None => {},
            }
        }
        i = i + 1;
    }
    assert(entries@.take(entries.len() as int) =~= entries@);
    out
}

// ---------------------------------------------------------------------------
// Queue poll
// ---------------------------------------------------------------------------

/// A status update a queue poll makes, in the order it makes them.
#[derive(Debug, Clone, PartialEq, Eq)]
pub enum PollUpdate {
    /// Move pending or interrupted submissions of the URL to `downloading`.
    MarkDownloading(String),
    /// Record the title MeTube reports for the URL.
    UpdateTitle(String, String),
    /// Move pending or downloading submissions of the URL to `error`.
    MarkError(String),
}

pub enum PollUpdateView {
    MarkDownloading(Seq<char>),
    UpdateTitle(Seq<char>, Seq<char>),
    MarkError(Seq<char>),
}

pub open spec fn update_view(u: PollUpdate) -> PollUpdateView {
    match u {
        PollUpdate::MarkDownloading(a) => PollUpdateView::MarkDownloading(a@),
        PollUpdate::UpdateTitle(a, b) => PollUpdateView::UpdateTitle(a@, b@),
        PollUpdate::MarkError(a) => PollUpdateView::MarkError(a@),
    }
}

pub open spec fn title_update(i: QueueItem) -> Seq<PollUpdateView> {
    match i.title {
        Some(t) => seq![PollUpdateView::UpdateTitle(i.url@, t@)],
        None => Seq::empty(),
    }
}

pub open spec fn mark_downloading_all(items: Seq<QueueItem>) -> Seq<PollUpdateView>
    decreases items.len(),
{
    if items.len() == 0 {
        Seq::empty()
    } else {
        mark_downloading_all(items.drop_last()).push(
            PollUpdateView::MarkDownloading(items.last().url@),
        )
    }
}

pub open spec fn title_updates(items: Seq<QueueItem>) -> Seq<PollUpdateView>
    decreases items.len(),
{
    if items.len() == 0 {
        Seq::empty()
    } else {
        title_updates(items.drop_last()) + title_update(items.last())
    }
}

/// Whether a URL is live: actively downloading or waiting in MeTube.
pub open spec fn live_urls(state: QueueState) -> Set<Seq<char>> {
    state.active@.map_values(|i: QueueItem| i.url@).to_set() + state.pending@.map_values(
        |i: QueueItem| i.url@,
    ).to_set()
}

pub open spec fn error_updates(items: Seq<QueueItem>, live: Set<Seq<char>>) -> Seq<PollUpdateView>
    decreases items.len(),
{
    if items.len() == 0 {
        Seq::empty()
    } else {
        let i = items.last();
        error_updates(items.drop_last(), live) + if live.contains(i.url@) {
            Seq::empty()
        } else {
            seq![PollUpdateView::MarkError(i.url@)] + title_update(i)
        }
    }
}

/// The updates of one poll: active URLs become `downloading`, titles of
/// active and pending URLs are recorded, and errored URLs that are not live
/// (re-submitted) become `error` with their title recorded.
pub open spec fn poll_updates_spec(state: QueueState) -> Seq<PollUpdateView> {
    mark_downloading_all(state.active@) + title_updates(state.active@ + state.pending@)
        + error_updates(state.errored@, live_urls(state))
}

fn push_title_update(out: &mut Vec<PollUpdate>, item: &QueueItem)
    ensures
        final(out)@.map_values(|u: PollUpdate| update_view(u)) == old(out)@.map_values(
            |u: PollUpdate| update_view(u),
        ) + title_update(*item),
{
    let ghost before = out@.map_values(|u: PollUpdate| update_view(u));
    match &item.title {
        Some(t) => {
            let u = PollUpdate::UpdateTitle(item.url.clone(), t.clone());
            out.push(u);
            assert(out@.map_values(|u: PollUpdate| update_view(u)) =~= before + title_update(*item));
        },
        None => {
            assert(before + title_update(*item) =~= before);
        },
    }
}

fn push_title_updates(out: &mut Vec<PollUpdate>, items: &Vec<QueueItem>)
    ensures
        final(out)@.map_values(|u: PollUpdate| update_view(u)) == old(out)@.map_values(
            |u: PollUpdate| update_view(u),
        ) + title_updates(items@),
{
    let ghost start = out@.map_values(|u: PollUpdate| update_view(u));
    let mut i: usize = 0;
    assert(start + title_updates(items@.take(0)) =~= start);
    while i < items.len()
        invariant
            i <= items.len(),
            out@.map_values(|u: PollUpdate| update_view(u)) == start + title_updates(
                items@.take(i as int),
            ),
        decreases items.len() - i,
    {
        push_title_update(out, &items[i]);
        proof {
            assert(items@.take(i + 1).drop_last() =~= items@.take(i as int));
            assert(items@.take(i + 1).last() == items@[i as int]);
            assert(start + title_updates(items@.take(i as int)) + title_update(items@[i as int])
                =~= start + title_updates(items@.take(i + 1)));
        }
        i = i + 1;
    }
    assert(items@.take(items.len() as int) =~= items@);
}

fn urls_of(items: &Vec<QueueItem>, out: &mut Vec<String>)
    ensures
        final(out)@.map_values(|s: String| s@) == old(out)@.map_values(|s: String| s@)
            + items@.map_values(|i: QueueItem| i.url@),
{
    let ghost start = out@.map_values(|s: String| s@);
    let mut i: usize = 0;
    while i < items.len()
        invariant
            i <= items.len(),
            out@.map_values(|s: String| s@) == start + items@.take(i as int).map_values(
                |i: QueueItem| i.url@,
            ),
        decreases items.len() - i,
    {
        let ghost before = out@.map_values(|s: String| s@);
        let u = items[i].url.clone();
        out.push(u);
        proof {
            assert(out@.map_values(|s: String| s@) =~= before.push(u@));
            assert(items@.take(i + 1).map_values(|i: QueueItem| i.url@) =~= items@.take(
                i as int,
            ).map_values(|i: QueueItem| i.url@).push(items@[i as int].url@));
        }
        i = i + 1;
    }
    assert(items@.take(items.len() as int) =~= items@);
}

/// The status updates one poll of MeTube's queue makes, in order.
pub fn poll_updates(state: &QueueState) -> (r: Vec<PollUpdate>)
    ensures
        r@.map_values(|u: PollUpdate| update_view(u)) == poll_updates_spec(*state),
{
    let mut out: Vec<PollUpdate> = Vec::new();
    let mut i: usize = 0;
    assert(out@.map_values(|u: PollUpdate| update_view(u)) =~= mark_downloading_all(
        state.active@.take(0),
    ));
    while i < state.active.len()
        invariant
            i <= state.active.len(),
            out@.map_values(|u: PollUpdate| update_view(u)) == mark_downloading_all(
                state.active@.take(i as int),
            ),
        decreases state.active.len() - i,
    {
        let ghost before = out@.map_values(|u: PollUpdate| update_view(u));
        let u = PollUpdate::MarkDownloading(state.active[i].url.clone());
        out.push(u);
        proof {
            assert(state.active@.take(i + 1).drop_last() =~= state.active@.take(i as int));
            assert(out@.map_values(|u: PollUpdate| update_view(u)) =~= before.push(
                update_view(u),
            ));
        }
        i = i + 1;
    }
    assert(state.active@.take(state.active.len() as int) =~= state.active@);
    let ghost after_dl = out@.map_values(|u: PollUpdate| update_view(u));
    push_title_updates(&mut out, &state.active);
    push_title_updates(&mut out, &state.pending);
    proof {
        lemma_title_updates_concat(state.active@, state.pending@);
    }
    let mut live: Vec<String> = Vec::new();
    urls_of(&state.active, &mut live);
    urls_of(&state.pending, &mut live);
    proof {
        let a = state.active@.map_values(|i: QueueItem| i.url@);
        let p = state.pending@.map_values(|i: QueueItem| i.url@);
        assert(live@.map_values(|s: String| s@) =~= a + p);
        vstd::seq_lib::seq_to_set_distributes_over_add(a, p);
        assert(uuid_set(live@) == live_urls(*state));
    }
    let ghost mid = out@.map_values(|u: PollUpdate| update_view(u));
    let mut j: usize = 0;
    assert(mid + error_updates(state.errored@.take(0), live_urls(*state)) =~= mid);
    while j < state.errored.len()
        invariant
            j <= state.errored.len(),
            uuid_set(live@) == live_urls(*state),
            out@.map_values(|u: PollUpdate| update_view(u)) == mid + error_updates(
                state.errored@.take(j as int),
                live_urls(*state),
            ),
        decreases state.errored.len() - j,
    {
        let item = &state.errored[j];
        let ghost before = out@.map_values(|u: PollUpdate| update_view(u));
        proof {
            assert(state.errored@.take(j + 1).drop_last() =~= state.errored@.take(j as int));
            assert(state.errored@.take(j + 1).last() == state.errored@[j as int]);
        }
        if !contains_str(&live, item.url.as_str()) {
            let u = PollUpdate::MarkError(item.url.clone());
            out.push(u);
            assert(out@.map_values(|u: PollUpdate| update_view(u)) =~= before.push(update_view(u)));
            push_title_update(&mut out, item);
            proof {
                assert(before.push(update_view(u)) + title_update(*item) =~= before + (seq![
                    PollUpdateView::MarkError(item.url@),
                ] + title_update(*item)));
            }
        } else {
            proof {
                assert(before + Seq::<PollUpdateView>::empty() =~= before);
            }
        }
        proof {
            assert(mid + error_updates(state.errored@.take(j + 1), live_urls(*state)) =~= mid
                + error_updates(state.errored@.take(j as int), live_urls(*state)) + (if live_urls(
                *state,
            ).contains(item.url@) {
                Seq::<PollUpdateView>::empty()
            } else {
                seq![PollUpdateView::MarkError(item.url@)] + title_update(*item)
            }));
        }
        j = j + 1;
    }
    assert(state.errored@.take(state.errored.len() as int) =~= state.errored@);
    out
}

proof fn lemma_title_updates_concat(a: Seq<QueueItem>, b: Seq<QueueItem>)
    ensures
        title_updates(a + b) == title_updates(a) + title_updates(b),
    decreases b.len(),
{
    if b.len() == 0 {
        assert(a + b =~= a);
        assert(title_updates(a) + title_updates(b) =~= title_updates(a));
    } else {
        lemma_title_updates_concat(a, b.drop_last());
        assert((a + b).drop_last() =~= a + b.drop_last());
        assert((a + b).last() == b.last());
        assert(title_updates(a) + title_updates(b.drop_last()) + title_update(b.last())
            =~= title_updates(a) + (title_updates(b.drop_last()) + title_update(b.last())));
    }
}

proof fn lemma_error_updates_spare_live(items: Seq<QueueItem>, live: Set<Seq<char>>, u: Seq<char>)
    requires
        live.contains(u),
    ensures
        !error_updates(items, live).contains(PollUpdateView::MarkError(u)),
    decreases items.len(),
{
    if items.len() > 0 {
        lemma_error_updates_spare_live(items.drop_last(), live, u);
        let prev = error_updates(items.drop_last(), live);
        let i = items.last();
        let tail = if live.contains(i.url@) {
            Seq::<PollUpdateView>::empty()
        } else {
            seq![PollUpdateView::MarkError(i.url@)] + title_update(i)
        };
        let all = prev + tail;
        if all.contains(PollUpdateView::MarkError(u)) {
            let k = choose|k: int| 0 <= k < all.len() && all[k] == PollUpdateView::MarkError(u);
            if k < prev.len() {
                assert(prev[k] == all[k]);
            } else {
                assert(tail[k - prev.len()] == all[k]);
                if k - prev.len() == 0 {
                } else {
                    assert(title_update(i)[k - prev.len() - 1] == all[k]);
                }
            }
        }
    }
}

/// A download that MeTube reports as errored is never marked failed while the
/// same URL is active or waiting in MeTube (it was submitted again).
pub proof fn lemma_live_urls_never_marked_error(state: QueueState, u: Seq<char>)
    requires
        live_urls(state).contains(u),
    ensures
        !poll_updates_spec(state).contains(PollUpdateView::MarkError(u)),
{
    lemma_error_updates_spare_live(state.errored@, live_urls(state), u);
    lemma_no_error_in_downloading(state.active@, u);
    lemma_no_error_in_titles(state.active@ + state.pending@, u);
    let a = mark_downloading_all(state.active@);
    let b = title_updates(state.active@ + state.pending@);
    let c = error_updates(state.errored@, live_urls(state));
    let all = a + b + c;
    if all.contains(PollUpdateView::MarkError(u)) {
        let k = choose|k: int| 0 <= k < all.len() && all[k] == PollUpdateView::MarkError(u);
        if k < a.len() {
            assert(a[k] == all[k]);
        } else if k < a.len() + b.len() {
            assert(b[k - a.len()] == all[k]);
        } else {
            assert(c[k - a.len() - b.len()] == all[k]);
        }
    }
}

proof fn lemma_no_error_in_downloading(items: Seq<QueueItem>, u: Seq<char>)
    ensures
        !mark_downloading_all(items).contains(PollUpdateView::MarkError(u)),
    decreases items.len(),
{
    if items.len() > 0 {
        lemma_no_error_in_downloading(items.drop_last(), u);
        let prev = mark_downloading_all(items.drop_last());
        let all = mark_downloading_all(items);
        if all.contains(PollUpdateView::MarkError(u)) {
            let k = choose|k: int| 0 <= k < all.len() && all[k] == PollUpdateView::MarkError(u);
            if k < prev.len() {
                assert(prev[k] == all[k]);
            }
        }
    }
}

proof fn lemma_no_error_in_titles(items: Seq<QueueItem>, u: Seq<char>)
    ensures
        !title_updates(items).contains(PollUpdateView::MarkError(u)),
    decreases items.len(),
{
    if items.len() > 0 {
        lemma_no_error_in_titles(items.drop_last(), u);
        let prev = title_updates(items.drop_last());
        let t = title_update(items.last());
        let all = prev + t;
        if all.contains(PollUpdateView::MarkError(u)) {
            let k = choose|k: int| 0 <= k < all.len() && all[k] == PollUpdateView::MarkError(u);
            if k < prev.len() {
                assert(prev[k] == all[k]);
            } else {
                assert(t[k - prev.len()] == all[k]);
            }
        }
    }
}

// ---------------------------------------------------------------------------
// PeerTube transcoding poll
// ---------------------------------------------------------------------------

#[derive(Debug, Clone, Copy, PartialEq, Eq, Structural)]
pub enum TranscodingAction {
    /// The video is published: mark the submission complete.
    MarkComplete,
    /// The video is still being processed: mark the submission transcoding.
    MarkTranscoding,
}

/// PeerTube's video state 1 means published; any other state means the video
/// is still being processed.
pub fn transcoding_action(state_id: u64) -> (r: TranscodingAction)
    ensures
        r == (if state_id == 1 {
            TranscodingAction::MarkComplete
        } else {
            TranscodingAction::MarkTranscoding
        }),
{
    if state_id == 1 {
        TranscodingAction::MarkComplete
    } else {
        TranscodingAction::MarkTranscoding
    }
}

// ---------------------------------------------------------------------------
// MeTube Socket.IO connection
// ---------------------------------------------------------------------------

/// `s` with every occurrence of `from`, left to right and not overlapping,
/// replaced by `to` (`str::replace`).
pub open spec fn replace_all_spec(s: Seq<char>, from: Seq<char>, to: Seq<char>) -> Seq<char>
    recommends
        from.len() > 0,
    decreases s.len(),
{
    if from.len() == 0 {
        s
    } else {
        match first_occurrence(s, from) {
            Some(i) => {
                proof {
                    crate::text::lemma_first_occurrence_bounds(s, from);
                }
                s.take(i) + to + replace_all_spec(s.skip(i + from.len()), from, to)
            },
            None => s,
        }
    }
}

/// `str::replace(from, to)` for a non-empty `from`.
pub fn replace_all(s: &Vec<char>, from: &str, to: &str) -> (r: Vec<char>)
    requires
        from@.len() > 0,
    ensures
        r@ == replace_all_spec(s@, from@, to@),
{
    let f = chars_of(from);
    let t = chars_of(to);
    let mut out: Vec<char> = Vec::new();
    let mut rest = sub_vec(s, 0, s.len());
    assert(rest@ =~= s@);
    assert(out@ + replace_all_spec(rest@, from@, to@) =~= replace_all_spec(s@, from@, to@));
    loop
        invariant
            f@ == from@,
            t@ == to@,
            from@.len() > 0,
            out@ + replace_all_spec(rest@, from@, to@) == replace_all_spec(s@, from@, to@),
        decreases rest.len(),
    {
        let ghost before = out@;
        match find(&rest, &f) {
            Some(i) => {
                let head = sub_vec(&rest, 0, i);
                append_chars(&mut out, &head);
                append_chars(&mut out, &t);
                let next = sub_vec(&rest, i + f.len(), rest.len());
                proof {
                    assert(head@ =~= rest@.take(i as int));
                    assert(next@ =~= rest@.skip(i + from@.len()));
                    assert(before + (rest@.take(i as int) + to@ + replace_all_spec(
                        next@,
                        from@,
                        to@,
                    )) =~= before + rest@.take(i as int) + to@ + replace_all_spec(
                        next@,
                        from@,
                        to@,
                    ));
                }
                rest = next;
            },
            None => {
                append_chars(&mut out, &rest);
                return out;
            },
        }
    }
}

/// The Engine.IO polling handshake URL of a MeTube instance.
pub fn polling_handshake_url(metube_url: &str) -> (r: String)
    ensures
        r@ == metube_url@ + "/socket.io/?EIO=4&transport=polling"@,
{
    let mut v = chars_of(metube_url);
    append_str(&mut v, "/socket.io/?EIO=4&transport=polling");
    string_from_chars(&v)
}

/// The WebSocket URL of a Socket.IO session: the MeTube URL with `http://`
/// turned into `ws://` and `https://` into `wss://`, plus the session id.
pub open spec fn websocket_url_spec(metube_url: Seq<char>, sid: Seq<char>) -> Seq<char> {
    replace_all_spec(replace_all_spec(metube_url, "http://"@, "ws://"@), "https://"@, "wss://"@)
        + "/socket.io/?EIO=4&transport=websocket&sid="@ + sid
}

pub fn websocket_url(metube_url: &str, sid: &str) -> (r: String)
    ensures
        r@ == websocket_url_spec(metube_url@, sid@),
{
    proof {
        reveal_strlit("http://");
        reveal_strlit("https://");
    }
    let v = chars_of(metube_url);
    let a = replace_all(&v, "http://", "ws://");
    let mut b = replace_all(&a, "https://", "wss://");
    append_str(&mut b, "/socket.io/?EIO=4&transport=websocket&sid=");
    append_str(&mut b, sid);
    string_from_chars(&b)
}

/// Whether the answer to the polling handshake is an Engine.IO open packet
/// (it starts with `0`).
pub fn is_open_packet(body: &str) -> (r: bool)
    ensures
        r == (body@.len() > 0 && body@[0] == '0'),
{
    let v = chars_of(body);
    v.len() > 0 && v[0] == '0'
}

/// What a text frame from MeTube's socket is.
#[derive(Debug, Clone, PartialEq, Eq)]
pub enum SocketFrame {
    /// An Engine.IO ping (`2`), answered with a pong (`3`).
    Ping,
    /// A Socket.IO event (`42` followed by a JSON array).
    Event(String),
    /// Anything else, ignored.
    Other,
}

pub fn classify_frame(text: &str) -> (r: SocketFrame)
    ensures
        text@ == "2"@ ==> r is Ping,
        text@ != "2"@ && has_prefix(text@, "42"@) ==> (r matches SocketFrame::Event(p) && p@
            == text@.skip(2)),
        text@ != "2"@ && !has_prefix(text@, "42"@) ==> r is Other,
{
    proof {
        reveal_strlit("42");
    }
    let v = chars_of(text);
    if chars_eq_str(&v, "2") {
        return SocketFrame::Ping;
    }
    if crate::text::starts_with(&v, "42") {
        let p = sub_vec(&v, 2, v.len());
        assert(p@ =~= text@.skip(2));
        return SocketFrame::Event(string_from_chars(&p));
    }
    SocketFrame::Other
}

/// How a Socket.IO event changes download progress.
#[derive(Debug, Clone, Copy, PartialEq, Eq, Structural)]
pub enum EventEffect {
    /// `added` or `updated`: record the reported percentage.
    UpdateProgress,
    /// `completed` or `error`: forget the progress.
    ClearProgress,
    Ignore,
}

pub open spec fn event_effect_spec(name: Option<Seq<char>>) -> EventEffect {
    match name {
        Some(n) => if n == "updated"@ || n == "added"@ {
            EventEffect::UpdateProgress
        } else if n == "completed"@ || n == "error"@ {
            EventEffect::ClearProgress
        } else {
            EventEffect::Ignore
        },
        None => EventEffect::Ignore,
    }
}

/// The effect of an event with this name (when the name is a string).
pub fn event_effect(name: Option<&str>) -> (r: EventEffect)
    ensures
        r == event_effect_spec(crate::text::opt_str_view(name)),
{
    match name {
        Some(n) => {
            let v = chars_of(n);
            if chars_eq_str(&v, "updated") || chars_eq_str(&v, "added") {
                EventEffect::UpdateProgress
            } else if chars_eq_str(&v, "completed") || chars_eq_str(&v, "error") {
                EventEffect::ClearProgress
            } else {
                EventEffect::Ignore
            }
        },
        None => EventEffect::Ignore,
    }
}

/// Whether the server answered the transport probe (`3probe`), after which
/// the client upgrades (`5`) and joins the default namespace (`40`).
pub fn is_probe_answer(frame: &str) -> (r: bool)
    ensures
        r == (frame@ == "3probe"@),
{
    let v = chars_of(frame);
    chars_eq_str(&v, "3probe")
}

/// The name of what serde_json reads from a JSON document: parse `text` as
/// a `serde_json::Value`, index it by `index` (an array position) when given,
/// then by `key` (an object key) when given, and take the string there;
/// `None` when the text is not JSON or there is no string at that place.
pub uninterp spec fn json_text(text: Seq<char>, index: Option<usize>, key: Option<Seq<char>>) -> Option<Seq<char>>;

/// The string at a place in the JSON document `text`.
///
/// Trusted: `serde_json::from_str::<Value>`, then `Value`'s indexing by
/// position and by key (which yield `Null` where there is nothing) and
/// `Value::as_str`. The result is named as a function of the arguments;
/// nothing is stated of JSON syntax.
#[verifier::external_body]
fn json_str_at(text: &str, index: Option<usize>, key: Option<&str>) -> (r: Option<String>)
    ensures
        opt_string_view(r) == json_text(text@, index, opt_str_view(key)),
{
    let Ok(v) = serde_json::from_str::<serde_json::Value>(text) else {
        return None;
    };
    let at = index.map_or(&v, |i| &v[i]);
    let at = key.map_or(at, |k| &at[k]);
    at.as_str().map(|s| s.to_string())
}

/// Why the Engine.IO handshake failed.
#[derive(Debug, Clone, Copy, PartialEq, Eq, Structural)]
pub enum HandshakeError {
    /// The answer is not an open packet (it does not start with `0`).
    NotOpenPacket,
    /// The open packet carries no session id.
    NoSid,
}

/// The session id read from an open packet, or the failure.
pub fn sid_result(sid: Option<String>) -> (r: Result<String, HandshakeError>)
    ensures
        match sid {
            Some(s) => r matches Ok(x) && x@ == s@,
            None => r == Err::<String, HandshakeError>(HandshakeError::NoSid),
        },
{
    match sid {
        Some(s) => Ok(s),
        None => Err(HandshakeError::NoSid),
    }
}

/// The session id of the polling handshake answer `body`: the `sid` field
/// of the JSON after the leading `0` of an open packet.
pub fn open_packet_sid(body: &str) -> (r: Result<String, HandshakeError>)
    ensures
        !(body@.len() > 0 && body@[0] == '0') ==> r == Err::<String, HandshakeError>(
            HandshakeError::NotOpenPacket,
        ),
        (body@.len() > 0 && body@[0] == '0') ==> match json_text(body@.skip(1), None, Some("sid"@)) {
            Some(s) => r matches Ok(x) && x@ == s,
            None => r == Err::<String, HandshakeError>(HandshakeError::NoSid),
        },
{
    if !is_open_packet(body) {
        return Err(HandshakeError::NotOpenPacket);
    }
    let v = chars_of(body);
    let rest = sub_vec(&v, 1, v.len());
    assert(rest@ =~= body@.skip(1));
    let payload = string_from_chars(&rest);
    let sid = json_str_at(payload.as_str(), None, Some("sid"));
    sid_result(sid)
}

/// What to do with a Socket.IO event of the given name and URL.
pub enum SocketEventAction {
    /// Record the download progress of the submission of this URL.
    UpdateProgress(String),
    /// Forget the progress of the submission of this URL.
    ClearProgress(String),
    Ignore,
}

pub enum SocketEventActionView {
    UpdateProgress(Seq<char>),
    ClearProgress(Seq<char>),
    Ignore,
}

/// Progress events and end events act on the submission of the event's
/// URL; an event without a URL is ignored.
pub open spec fn event_action_spec(name: Option<Seq<char>>, url: Option<Seq<char>>) -> SocketEventActionView {
    match url {
        Some(u) => match event_effect_spec(name) {
            EventEffect::UpdateProgress => SocketEventActionView::UpdateProgress(u),
            EventEffect::ClearProgress => SocketEventActionView::ClearProgress(u),
            EventEffect::Ignore => SocketEventActionView::Ignore,
        },
        None => SocketEventActionView::Ignore,
    }
}

pub open spec fn action_view(a: SocketEventAction) -> SocketEventActionView {
    match a {
        SocketEventAction::UpdateProgress(u) => SocketEventActionView::UpdateProgress(u@),
        SocketEventAction::ClearProgress(u) => SocketEventActionView::ClearProgress(u@),
        SocketEventAction::Ignore => SocketEventActionView::Ignore,
    }
}

/// The action for an event named `name` (the string at position 0 of the
/// payload) about `url` (the `url` field of the element at position 1).
pub fn event_action(name: Option<String>, url: Option<String>) -> (r: SocketEventAction)
    ensures
        action_view(r) == event_action_spec(opt_string_view(name), opt_string_view(url)),
{
    match url {
        Some(u) => {
            let n: Option<&str> = match &name {
                Some(x) => Some(x.as_str()),
                None => None,
            };
            match event_effect(n) {
                EventEffect::UpdateProgress => SocketEventAction::UpdateProgress(u),
                EventEffect::ClearProgress => SocketEventAction::ClearProgress(u),
                EventEffect::Ignore => SocketEventAction::Ignore,
            }
        },
        None => SocketEventAction::Ignore,
    }
}

/// The action for the payload of a `42` event frame.
pub fn socket_event_action(payload: &str) -> (r: SocketEventAction)
    ensures
        action_view(r) == event_action_spec(
            json_text(payload@, Some(0usize), None),
            json_text(payload@, Some(1usize), Some("url"@)),
        ),
{
    let name = json_str_at(payload, Some(0), None);
    let url = json_str_at(payload, Some(1), Some("url"));
    event_action(name, url)
}

} // verus!
