//! The dashboard's submissions listing: query normalization, the SQL of the
//! paged and filtered listing, and orphan detection among PeerTube videos.
use vstd::prelude::*;
use crate::identity::OwnerScope;
use crate::text::{append_str, chars_eq_str, chars_of, opt_string_view, string_from_chars, trim_class, trim_spec};

verus! {

broadcast use vstd::string::group_string_axioms;

/// Query parameters of the listing endpoint.
pub struct ListQuery {
    pub page: u32,
    pub per_page: u32,
    pub status: Option<String>,
    pub q: Option<String>,
}

/// Page shown when the query names none.
pub fn default_page() -> (r: u32)
    ensures
        r == 1,
{
    1
}

/// Page size used when the query names none.
pub fn default_per_page() -> (r: u32)
    ensures
        r == 24,
{
    24
}

/// A listing request after normalization.
pub struct NormalizedQuery {
    pub page: u32,
    pub per_page: u32,
    /// Status filter; `all` means no filter.
    pub status: Option<String>,
    /// Trimmed, non-empty search text.
    pub search: Option<String>,
}

pub open spec fn status_filter_spec(status: Option<Seq<char>>) -> Option<Seq<char>> {
    match status {
        Some(s) => if s == "all"@ {
            None
        } else {
            Some(s)
        },
        None => None,
    }
}

pub open spec fn search_spec(q: Option<Seq<char>>) -> Option<Seq<char>> {
    match q {
        Some(s) => if trim_spec(s).len() > 0 {
            Some(trim_spec(s))
        } else {
            None
        },
        None => None,
    }
}

/// Clamps the page size to 1..=100 and the page to at least 1, drops the
/// `all` status filter and empty searches, and trims the search text.
pub fn normalize_list_query(q: &ListQuery) -> (r: NormalizedQuery)
    ensures
        1 <= r.per_page <= 100,
        r.per_page == (if q.per_page < 1 {
            1
        } else if q.per_page > 100 {
            100
        } else {
            q.per_page
        }),
        r.page == (if q.page < 1 {
            1
        } else {
            q.page
        }),
        opt_string_view(r.status) == status_filter_spec(opt_string_view(q.status)),
        opt_string_view(r.search) == search_spec(opt_string_view(q.q)),
{
    let per_page = if q.per_page < 1 {
        1
    } else if q.per_page > 100 {
        100
    } else {
        q.per_page
    };
    let page = if q.page < 1 {
        1
    } else {
        q.page
    };
    let status = match &q.status {
        Some(s) => {
            let v = chars_of(s.as_str());
            if chars_eq_str(&v, "all") {
                None
            } else {
                Some(s.clone())
            }
        },
        None => None,
    };
    let search = match &q.q {
        Some(s) => {
            let v = chars_of(s.as_str());
            let t = trim_class(&v, false);
            if t.len() > 0 {
                Some(string_from_chars(&t))
            } else {
                None
            }
        },
        None => None,
    };
    NormalizedQuery { page, per_page, status, search }
}

/// Row offset of a page: `(page - 1) * per_page`, with page 0 read as 1.
pub open spec fn offset_spec(page: nat, per_page: nat) -> int {
    if page == 0 {
        0
    } else {
        (page - 1) * per_page
    }
}

pub fn page_offset(page: u32, per_page: u32) -> (r: i64)
    requires
        page == 0 || (page - 1) * per_page <= i64::MAX,
    ensures
        r == offset_spec(page as nat, per_page as nat),
{
    if page == 0 {
        return 0;
    }
    let p: u64 = (page - 1) as u64;
    assert(p * (per_page as u64) <= 0xffff_ffffu64 * 0xffff_ffffu64) by (nonlinear_arith)
        requires
            p <= 0xffff_ffff,
            per_page <= 0xffff_ffff,
    ;
    let prod: u64 = p * (per_page as u64);
    prod as i64
}

/// Consecutive pages are adjacent and do not overlap: the first page starts
/// at row 0 and page `p + 1` starts where page `p` (of `per_page` rows) ends.
pub proof fn lemma_pages_adjacent(p: nat, per_page: nat)
    requires
        p >= 1,
    ensures
        offset_spec(1, per_page) == 0,
        offset_spec(p + 1, per_page) == offset_spec(p, per_page) + per_page,
{
    assert(p * per_page == (p - 1) * per_page + per_page) by (nonlinear_arith)
        requires
            p >= 1,
    ;
}

/// The rows a page shows of the ordered matching `rows`: `LIMIT per_page
/// OFFSET offset_spec(page, per_page)`, cut to the rows there are.
pub open spec fn page_rows<T>(rows: Seq<T>, page: nat, per_page: nat) -> Seq<T> {
    let off = offset_spec(page, per_page);
    let lo = if off < rows.len() { off } else { rows.len() as int };
    let hi = if off + per_page < rows.len() { off + per_page } else { rows.len() as int };
    rows.subrange(lo, hi)
}

/// Pages `1..=k` shown one after another.
pub open spec fn pages_through<T>(rows: Seq<T>, k: nat, per_page: nat) -> Seq<T>
    decreases k,
{
    if k == 0 {
        Seq::empty()
    } else {
        pages_through(rows, (k - 1) as nat, per_page) + page_rows(rows, k, per_page)
    }
}

/// The number of pages of `total` rows: `ceil(total / per_page)`.
pub open spec fn page_count(total: nat, per_page: nat) -> nat {
    ((total + per_page - 1) / (per_page as int)) as nat
}

proof fn lemma_pages_through_prefix<T>(rows: Seq<T>, k: nat, per_page: nat)
    requires
        per_page >= 1,
    ensures
        pages_through(rows, k, per_page) =~= rows.subrange(
            0,
            if k * per_page < rows.len() { (k * per_page) as int } else { rows.len() as int },
        ),
    decreases k,
{
    if k > 0 {
        let prev = (k - 1) as nat;
        let len = rows.len() as int;
        lemma_pages_through_prefix(rows, prev, per_page);
        assert(prev * per_page + per_page == k * per_page) by (nonlinear_arith)
            requires
                prev + 1 == k,
        ;
        assert(offset_spec(k, per_page) == prev * per_page);
        let a = if prev * per_page < len { (prev * per_page) as int } else { len };
        let b = if k * per_page < len { (k * per_page) as int } else { len };
        assert(page_rows(rows, k, per_page) == rows.subrange(a, b));
        assert(pages_through(rows, k, per_page) == pages_through(rows, prev, per_page) + page_rows(
            rows,
            k,
            per_page,
        ));
        assert(rows.subrange(0, a) + rows.subrange(a, b) =~= rows.subrange(0, b));
    } else {
        assert(k * per_page == 0) by (nonlinear_arith)
            requires
                k == 0,
        ;
        assert(rows.subrange(0, 0) =~= Seq::<T>::empty());
    }
}

/// Paging covers every matching row exactly once, in order: with at least
/// one row per page, pages `1..=page_count` shown one after another are the
/// ordered rows themselves; every page after the last is empty; and page 0
/// shows the same rows as page 1.
pub proof fn lemma_pages_partition<T>(rows: Seq<T>, per_page: nat)
    requires
        per_page >= 1,
    ensures
        pages_through(rows, page_count(rows.len(), per_page), per_page) == rows,
        forall|p: nat|
            p > page_count(rows.len(), per_page) ==> #[trigger] page_rows(rows, p, per_page)
                == Seq::<T>::empty(),
        page_rows(rows, 0, per_page) == page_rows(rows, 1, per_page),
{
    let n = page_count(rows.len(), per_page);
    let len = rows.len();
    assert(n * per_page >= len) by (nonlinear_arith)
        requires
            n == (len + per_page - 1) / (per_page as int),
            per_page >= 1,
    ;
    lemma_pages_through_prefix(rows, n, per_page);
    assert(rows.subrange(0, len as int) =~= rows);
    assert forall|p: nat| p > n implies #[trigger] page_rows(rows, p, per_page)
        == Seq::<T>::empty() by {
        assert((p - 1) * per_page >= n * per_page) by (nonlinear_arith)
            requires
                p - 1 >= n,
        ;
        assert(page_rows(rows, p, per_page) =~= Seq::<T>::empty());
    }
}

/// A `LIKE` pattern matching any text that contains `q`.
pub open spec fn like_pattern_spec(q: Seq<char>) -> Seq<char> {
    "%"@ + q + "%"@
}

pub fn like_pattern(q: &str) -> (r: String)
    ensures
        r@ == like_pattern_spec(q@),
{
    let mut v = chars_of("%");
    append_str(&mut v, q);
    append_str(&mut v, "%");
    string_from_chars(&v)
}

/// The owner condition of the submissions table.
pub open spec fn owner_where_spec(scope: OwnerScope) -> Seq<char> {
    match scope {
        OwnerScope::Subject(_) => "submitter_sub = ?"@,
        OwnerScope::Display(_) => "submitter_sub IS NULL AND submitter_display = ?"@,
    }
}

/// The full condition of a listing: owner, then status, then search.
pub open spec fn listing_where_spec(scope: OwnerScope, status: bool, search: bool) -> Seq<char> {
    owner_where_spec(scope) + (if status {
        " AND status = ?"@
    } else {
        Seq::empty()
    }) + (if search {
        " AND (title LIKE ? OR url LIKE ?)"@
    } else {
        Seq::empty()
    })
}

/// The statements and parameters of one listing request.
pub struct PagedQuery {
    /// Counts the matching rows.
    pub count_sql: String,
    /// Selects one page of matching rows, newest first; binds `binds`, then
    /// `limit` and `offset`.
    pub rows_sql: String,
    /// Counts the owner's rows per status.
    pub status_counts_sql: String,
    /// Parameters of the condition, in order: owner, status, search twice.
    pub binds: Vec<String>,
    pub limit: i64,
    pub offset: i64,
}

pub open spec fn binds_spec(scope: OwnerScope, status: Option<Seq<char>>, search: Option<Seq<char>>) -> Seq<
    Seq<char>,
> {
    let owner = match scope {
        OwnerScope::Subject(s) => s@,
        OwnerScope::Display(d) => d@,
    };
    seq![owner] + (match status {
        Some(s) => seq![s],
        None => Seq::empty(),
    }) + (match search {
        Some(q) => seq![like_pattern_spec(q), like_pattern_spec(q)],
        None => Seq::empty(),
    })
}

fn push_owner_where(v: &mut Vec<char>, scope: &OwnerScope)
    ensures
        final(v)@ == old(v)@ + owner_where_spec(*scope),
{
    match scope {
        OwnerScope::Subject(_) => append_str(v, "submitter_sub = ?"),
        OwnerScope::Display(_) => append_str(v, "submitter_sub IS NULL AND submitter_display = ?"),
    }
}

/// The listing statements for an owner, an optional status filter, an
/// optional search and a page.
pub fn paged_query(
    scope: &OwnerScope,
    status: Option<&str>,
    search: Option<&str>,
    page: u32,
    per_page: u32,
) -> (r: PagedQuery)
    requires
        page == 0 || (page - 1) * per_page <= i64::MAX,
    ensures
        r.count_sql@ == "SELECT COUNT(*) FROM submissions WHERE "@ + listing_where_spec(
            *scope,
            status is Some,
            search is Some,
        ),
        r.rows_sql@ == "SELECT * FROM submissions WHERE "@ + listing_where_spec(
            *scope,
            status is Some,
            search is Some,
        ) + " ORDER BY submitted_at DESC LIMIT ? OFFSET ?"@,
        r.status_counts_sql@ == "SELECT status, COUNT(*) as count FROM submissions WHERE "@
            + owner_where_spec(*scope) + " GROUP BY status"@,
        r.binds@.map_values(|b: String| b@) == binds_spec(
            *scope,
            crate::text::opt_str_view(status),
            crate::text::opt_str_view(search),
        ),
        r.limit == per_page,
        r.offset == offset_spec(page as nat, per_page as nat),
{
    let mut cond: Vec<char> = Vec::new();
    push_owner_where(&mut cond, scope);
    if status.is_some() {
        append_str(&mut cond, " AND status = ?");
    }
    if search.is_some() {
        append_str(&mut cond, " AND (title LIKE ? OR url LIKE ?)");
    }
    assert(cond@ =~= listing_where_spec(*scope, status is Some, search is Some));
    let mut count = chars_of("SELECT COUNT(*) FROM submissions WHERE ");
    crate::text::append_chars(&mut count, &cond);
    let mut rows = chars_of("SELECT * FROM submissions WHERE ");
    crate::text::append_chars(&mut rows, &cond);
    append_str(&mut rows, " ORDER BY submitted_at DESC LIMIT ? OFFSET ?");
    let mut counts = chars_of("SELECT status, COUNT(*) as count FROM submissions WHERE ");
    push_owner_where(&mut counts, scope);
    append_str(&mut counts, " GROUP BY status");
    let mut binds: Vec<String> = Vec::new();
    binds.push(scope.bind_value().to_owned());
    match status {
        Some(s) => binds.push(s.to_owned()),
        None => {},
    }
    match search {
        Some(q) => {
            binds.push(like_pattern(q));
            binds.push(like_pattern(q));
        },
        None => {},
    }
    assert(binds@.map_values(|b: String| b@) =~= binds_spec(
        *scope,
        crate::text::opt_str_view(status),
        crate::text::opt_str_view(search),
    ));
    let offset = page_offset(page, per_page);
    PagedQuery {
        count_sql: string_from_chars(&count),
        rows_sql: string_from_chars(&rows),
        status_counts_sql: string_from_chars(&counts),
        binds,
        limit: per_page as i64,
        offset,
    }
}

/// Sum of the counts of `rows`.
pub open spec fn count_sum(rows: Seq<(String, i64)>) -> int
    decreases rows.len(),
{
    if rows.len() == 0 {
        0
    } else {
        count_sum(rows.drop_last()) + rows.last().1
    }
}

/// The per-status counts shown on the dashboard: the counted statuses and an
/// `all` entry holding their sum (replacing any status named `all`).
pub open spec fn status_counts_spec(rows: Seq<(String, i64)>) -> Seq<(Seq<char>, int)> {
    rows.filter(|r: (String, i64)| r.0@ != "all"@).map_values(|r: (String, i64)| (r.0@, r.1 as int)).push(
        ("all"@, count_sum(rows)),
    )
}

/// Adds the `all` total to the counts of each status.
pub fn status_counts(rows: Vec<(String, i64)>) -> (r: Vec<(String, i64)>)
    requires
        forall|k: int| 0 <= k <= rows@.len() ==> i64::MIN <= #[trigger] count_sum(rows@.take(k)) <= i64::MAX,
    ensures
        r@.map_values(|p: (String, i64)| (p.0@, p.1 as int)) == status_counts_spec(rows@),
{
    let ghost pred = |r: (String, i64)| r.0@ != "all"@;
    let ghost f = |r: (String, i64)| (r.0@, r.1 as int);
    let mut out: Vec<(String, i64)> = Vec::new();
    let mut total: i64 = 0;
    let mut i: usize = 0;
    while i < rows.len()
        invariant
            i <= rows.len(),
            forall|k: int| 0 <= k <= rows@.len() ==> i64::MIN <= #[trigger] count_sum(rows@.take(k)) <= i64::MAX,
            pred == (|r: (String, i64)| r.0@ != "all"@),
            f == (|r: (String, i64)| (r.0@, r.1 as int)),
            total == count_sum(rows@.take(i as int)),
            out@.map_values(f) == rows@.take(i as int).filter(pred).map_values(f),
        decreases rows.len() - i,
    {
        let ghost before = out@.map_values(f);
        proof {
            assert(rows@.take(i + 1).drop_last() =~= rows@.take(i as int));
            assert(rows@.take(i + 1).last() == rows@[i as int]);
            assert(i64::MIN <= count_sum(rows@.take(i + 1)) <= i64::MAX);
            reveal(Seq::filter);
            assert(rows@.take(i + 1) =~= rows@.take(i as int).push(rows@[i as int]));
        }
        let (name, n) = (&rows[i].0, rows[i].1);
        total = total + n;
        let is_all = crate::text::chars_eq_str(&chars_of(name.as_str()), "all");
        if !is_all {
            out.push((name.clone(), n));
            proof {
                assert(out@.map_values(f) =~= before.push(f(rows@[i as int])));
            }
        }
        i = i + 1;
    }
    proof {
        assert(rows@.take(rows.len() as int) =~= rows@);
    }
    let ghost before = out@.map_values(f);
    out.push(("all".to_owned(), total));
    proof {
        reveal_strlit("all");
        assert(out@.map_values(f) =~= before.push(("all"@, count_sum(rows@))));
    }
    out
}

// ---------------------------------------------------------------------------
// Orphan PeerTube videos
// ---------------------------------------------------------------------------

/// A PeerTube video shown on the cleanup page.
#[derive(Debug)]
pub struct OrphanVideoRow {
    pub uuid: String,
    pub title: String,
    pub thumbnail_path: Option<String>,
    pub preview_path: Option<String>,
    pub published_at: Option<String>,
}

impl OrphanVideoRow {
    /// A field-by-field copy.
    pub fn copy(&self) -> (r: OrphanVideoRow)
        ensures
            r == *self,
    {
        OrphanVideoRow {
            uuid: self.uuid.clone(),
            title: self.title.clone(),
            thumbnail_path: self.thumbnail_path.clone(),
            preview_path: self.preview_path.clone(),
            published_at: self.published_at.clone(),
        }
    }
}

pub open spec fn uuid_set(uuids: Seq<String>) -> Set<Seq<char>> {
    uuids.map_values(|u: String| u@).to_set()
}

/// Appending a string adds its characters to the set.
pub proof fn lemma_uuid_set_push(s: Seq<String>, x: String)
    ensures
        uuid_set(s.push(x)) == uuid_set(s).insert(x@),
{
    assert(s.push(x).map_values(|u: String| u@) =~= s.map_values(|u: String| u@).push(x@));
    s.map_values(|u: String| u@).lemma_push_to_set_commute(x@);
}

/// Whether `s` is among `set`.
pub fn contains_str(set: &Vec<String>, s: &str) -> (r: bool)
    ensures
        r == uuid_set(set@).contains(s@),
{
    let target = chars_of(s);
    let mut i: usize = 0;
    while i < set.len()
        invariant
            i <= set.len(),
            target@ == s@,
            forall|k: int| 0 <= k < i ==> set@[k]@ != s@,
        decreases set.len() - i,
    {
        let c = chars_of(set[i].as_str());
        if crate::text::chars_eq(&c, &target) {
            assert(set@.map_values(|u: String| u@)[i as int] == s@);
            return true;
        }
        i = i + 1;
    }
    proof {
        let m = set@.map_values(|u: String| u@);
        if m.contains(s@) {
            let k = choose|k: int| 0 <= k < m.len() && m[k] == s@;
            assert(set@[k]@ == s@);
        }
    }
    false
}

/// The videos that no submission knows about, in their original order.
pub fn filter_orphans(videos: Vec<OrphanVideoRow>, known: &Vec<String>) -> (r: Vec<OrphanVideoRow>)
    ensures
        r@ == videos@.filter(|v: OrphanVideoRow| !uuid_set(known@).contains(v.uuid@)),
{
    let ghost pred = |v: OrphanVideoRow| !uuid_set(known@).contains(v.uuid@);
    let mut out: Vec<OrphanVideoRow> = Vec::new();
    let mut i: usize = 0;
    while i < videos.len()
        invariant
            i <= videos.len(),
            pred == (|v: OrphanVideoRow| !uuid_set(known@).contains(v.uuid@)),
            out@ == videos@.take(i as int).filter(pred),
        decreases videos.len() - i,
    {
        let v = &videos[i];
        let known_uuid = contains_str(known, v.uuid.as_str());
        proof {
            reveal(Seq::filter);
            assert(videos@.take(i + 1).drop_last() =~= videos@.take(i as int));
            assert(videos@.take(i + 1).last() == videos@[i as int]);
        }
        if !known_uuid {
            out.push(videos[i].copy());
        }
        i = i + 1;
    }
    assert(videos@.take(videos.len() as int) =~= videos@);
    out
}

} // verus!
