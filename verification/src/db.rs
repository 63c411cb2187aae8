//! The database side of the job queue: statements the backend builds, how
//! query rows become requests, and how deletion candidates are collected.
use vstd::prelude::*;
use crate::text::{
    str_chars, string_from_chars, lit_at, lit_at_exec, push_all, int_dec, nat_dec, i64_chars,
    u64_chars, replace_spec, str_replace,
};
use crate::common::{Error, Request};
use crate::downloader::string_views;

verus! {

broadcast use vstd::string::group_string_axioms;

/// `from` and `to` of a request that is no playlist.
pub const DEFAULT_PLAYLIST_VAL: i16 = -2;

/// Which files a cleanup run looks for.
#[derive(Debug, Clone, Copy, PartialEq, Eq)]
pub enum DeleteRequestType {
    /// Files whose `delete` flag is set
    Marked,
    /// Valid files older than this many minutes
    AgedMin(u16),
}

// ---------------------------------------------------------------------------
// Statements
// ---------------------------------------------------------------------------

/// The tables that hold rows of a query and that a deletion clears.
pub open spec fn req_db_tables_spec() -> Seq<Seq<char>> {
    seq!["queries"@, "querydetails"@, "playlists"@, "subqueries"@, "query_files"@]
}

pub fn req_db_tables() -> (r: Vec<String>)
    ensures
        string_views(r@) == req_db_tables_spec(),
{
    let mut v: Vec<String> = Vec::new();
    v.push("queries".to_string());
    v.push("querydetails".to_string());
    v.push("playlists".to_string());
    v.push("subqueries".to_string());
    v.push("query_files".to_string());
    assert(string_views(v@) =~= req_db_tables_spec());
    v
}

/// Template of the per-table delete statement.
pub const DELETE_SQL_TEMPLATE: &'static str = "DELETE FROM %db% WHERE qid = ?";

/// The statement that deletes a query's rows from `table`.
pub fn delete_table_sql(table: &str) -> (r: String)
    ensures
        r@ == replace_spec(DELETE_SQL_TEMPLATE@, "%db%"@, table@),
{
    proof {
        reveal_strlit("%db%");
    }
    str_replace(DELETE_SQL_TEMPLATE, "%db%", table)
}

/// Start of the deletion-candidate query.
pub const FILES_SQL_BASE: &'static str = "SELECT `query_files`.`qid`,`files`.`fid`,`name` FROM files LEFT JOIN `query_files` ON files.fid = query_files.fid ";

/// Condition selecting aged files, `%min%` standing for the age.
pub const FILES_SQL_AGED: &'static str = "WHERE `valid` = 1 AND `created` < (NOW() - INTERVAL %min% DAY_MINUTE)";

/// Condition selecting marked files.
pub const FILES_SQL_MARKED: &'static str = "WHERE files.`delete` = 1 AND `valid` = 1";

pub open spec fn files_to_delete_sql_spec(del_type: DeleteRequestType) -> Seq<char> {
    FILES_SQL_BASE@ + match del_type {
        DeleteRequestType::AgedMin(x) => replace_spec(
            FILES_SQL_AGED@,
            "%min%"@,
            nat_dec(x as nat),
        ),
        DeleteRequestType::Marked => FILES_SQL_MARKED@,
    }
}

/// The query that lists the deletion candidates of a cleanup run.
pub fn files_to_delete_sql(del_type: DeleteRequestType) -> (r: String)
    ensures
        r@ == files_to_delete_sql_spec(del_type),
{
    proof {
        reveal_strlit("%min%");
    }
    let mut v = str_chars(FILES_SQL_BASE);
    let cond = match del_type {
        DeleteRequestType::AgedMin(x) => {
            let age = u64_chars(x as u64);
            let age_s = string_from_chars(age.as_slice());
            str_replace(FILES_SQL_AGED, "%min%", age_s.as_str())
        },
        DeleteRequestType::Marked => FILES_SQL_MARKED.to_string(),
    };
    let c = str_chars(cond.as_str());
    push_all(&mut v, c.as_slice());
    string_from_chars(v.as_slice())
}

pub open spec fn steps_state_spec(step: i32, max_steps: i32) -> Seq<char> {
    int_dec(step as int) + seq!['|'] + int_dec(max_steps as int)
}

/// The status text of a job at `step` of `max_steps`: `{step}|{max_steps}`.
pub fn steps_state(step: i32, max_steps: i32) -> (r: String)
    ensures
        r@ == steps_state_spec(step, max_steps),
{
    let mut v = i64_chars(step as i64);
    v.push('|');
    let m = i64_chars(max_steps as i64);
    push_all(&mut v, m.as_slice());
    string_from_chars(v.as_slice())
}

/// Setting a file's valid flag must touch exactly one row.
pub fn check_affected_rows(affected: u64) -> (r: Result<(), Error>)
    ensures
        affected == 1 ==> r is Ok,
        affected != 1 ==> (r matches Err(Error::InternalError(m)) && m@
            == "Invalid affected lines count!"@),
{
    if affected != 1 {
        return Err(Error::InternalError("Invalid affected lines count!".to_string()));
    }
    Ok(())
}

// ---------------------------------------------------------------------------
// Query rows
// ---------------------------------------------------------------------------

/// The query that picks the next job: the oldest waiting query (code -1)
/// by creation time, with its playlist entry if it has one.
pub const NEXT_REQUEST_SQL: &'static str = "SELECT queries.qid,url,quality,`split`,`from`,`to`,uid,`type` FROM queries JOIN querydetails ON queries.qid = querydetails.qid LEFT JOIN playlists ON queries.qid = playlists.qid WHERE querydetails.code = -1 ORDER BY queries.created LIMIT 1";

/// The request that a waiting query row describes. A row joined with a
/// playlist entry (`from` present) is a playlist request with that entry's
/// `split`, `from` and `to`; any other row is a single request.
pub fn request_from_row(
    url: String,
    quality: i16,
    qid: u64,
    r_type: i16,
    uid: u32,
    playlist_row: Option<(bool, i16, i16)>,
    download_dir: String,
    temp_dir: String,
) -> (r: Request)
    ensures
        r.url == url,
        r.quality == quality,
        r.qid == qid,
        r.r_type == r_type,
        r.uid == uid,
        r.path == download_dir,
        r.temp_path == temp_dir,
        r.playlist == playlist_row is Some,
        playlist_row matches Some((split, from, to)) ==> r.split == split && r.from == from && r.to
            == to,
        playlist_row is None ==> !r.split && r.from == DEFAULT_PLAYLIST_VAL && r.to
            == DEFAULT_PLAYLIST_VAL,
{
    let (playlist, split, from, to) = match playlist_row {
        Some((s, f, t)) => (true, s, f, t),
        None => (false, false, DEFAULT_PLAYLIST_VAL, DEFAULT_PLAYLIST_VAL),
    };
    Request {
        url,
        quality,
        playlist,
        split,
        qid,
        r_type,
        from,
        to,
        path: download_dir,
        temp_path: temp_dir,
        uid,
    }
}

// ---------------------------------------------------------------------------
// Deletion candidates
// ---------------------------------------------------------------------------

pub open spec fn strictly_sorted(s: Seq<u64>) -> bool {
    forall|i: int, j: int| 0 <= i < j < s.len() ==> s[i] < s[j]
}

/// Inserts `x` into a strictly sorted vector unless it is there already.
fn insert_unique(v: &mut Vec<u64>, x: u64)
    requires
        strictly_sorted(old(v)@),
    ensures
        strictly_sorted(final(v)@),
        final(v)@.to_set() == old(v)@.to_set().insert(x),
{
    let mut k: usize = 0;
    while k < v.len() && v[k] < x
        invariant
            k <= v@.len(),
            forall|j: int| 0 <= j < k ==> v@[j] < x,
        decreases v@.len() - k,
    {
        k = k + 1;
    }
    let ghost before = v@;
    if k < v.len() && v[k] == x {
        assert(before.to_set().insert(x) =~= before.to_set()) by {
            assert(before.contains(x)) by {
                assert(before[k as int] == x);
            }
        }
        return;
    }
    v.insert(k, x);
    proof {
        assert(v@ =~= before.take(k as int).push(x) + before.skip(k as int));
        assert forall|i: int, j: int| 0 <= i < j < v@.len() implies v@[i] < v@[j] by {
            if j < k {
                assert(v@[i] == before[i] && v@[j] == before[j]);
            } else if j == k {
                assert(v@[i] == before[i]);
            } else if i < k {
                assert(v@[i] == before[i] && v@[j] == before[j - 1]);
                if k < before.len() {
                    assert(before[k as int] > x);
                    assert(before[k as int] <= before[j - 1]);
                }
            } else if i == k {
                assert(v@[j] == before[j - 1]);
                assert(before[k as int] > x);
            } else {
                assert(v@[i] == before[i - 1] && v@[j] == before[j - 1]);
            }
        }
        assert forall|y: u64| v@.to_set().contains(y) <==> before.to_set().insert(x).contains(y) by {
            if v@.contains(y) {
                let i = choose|i: int| 0 <= i < v@.len() && v@[i] == y;
                if i < k {
                    assert(before[i] == y);
                } else if i > k {
                    assert(before[i - 1] == y);
                }
            }
            if before.contains(y) {
                let i = choose|i: int| 0 <= i < before.len() && before[i] == y;
                if i < k {
                    assert(v@[i] == y);
                } else {
                    assert(v@[i + 1] == y);
                }
            }
            if y == x {
                assert(v@[k as int] == x);
            }
        }
        assert(v@.to_set() =~= before.to_set().insert(x));
    }
}

pub open spec fn row_qids(rows: Seq<(u64, u64, String)>) -> Seq<u64> {
    rows.map_values(|r: (u64, u64, String)| r.0)
}

pub open spec fn row_files(rows: Seq<(u64, u64, String)>) -> Seq<(u64, String)> {
    rows.map_values(|r: (u64, u64, String)| (r.1, r.2))
}

/// The query ids and files of the candidate rows: the ids sorted without
/// duplicates, the files `(fid, name)` in row order.
pub fn collect_delete_rows(rows: Vec<(u64, u64, String)>) -> (r: (Vec<u64>, Vec<(u64, String)>))
    ensures
        strictly_sorted(r.0@),
        r.0@.to_set() == row_qids(rows@).to_set(),
        r.1@ == row_files(rows@),
{
    let ghost all = rows@;
    let mut qids: Vec<u64> = Vec::new();
    let mut files: Vec<(u64, String)> = Vec::new();
    let mut rows = rows;
    let mut k: usize = 0;
    let n = rows.len();
    assert(rows@ =~= all.skip(0));
    while k < n
        invariant
            n == all.len(),
            k <= n,
            rows@ == all.skip(k as int),
            strictly_sorted(qids@),
            qids@.to_set() == row_qids(all.take(k as int)).to_set(),
            files@ == row_files(all.take(k as int)),
        decreases n - k,
    {
        let (qid, fid, name) = rows.remove(0);
        assert(rows@ =~= all.skip(k + 1));
        assert(all[k as int] == (qid, fid, name));
        let ghost qb = qids@;
        insert_unique(&mut qids, qid);
        files.push((fid, name));
        proof {
            assert(row_qids(all.take(k + 1)) =~= row_qids(all.take(k as int)).push(qid));
            assert(row_qids(all.take(k as int)).push(qid).to_set() =~= row_qids(
                all.take(k as int),
            ).to_set().insert(qid)) by {
                let a = row_qids(all.take(k as int));
                assert forall|y: u64| a.push(qid).contains(y) <==> a.to_set().insert(qid).contains(
                    y,
                ) by {
                    if a.push(qid).contains(y) {
                        let i = choose|i: int| 0 <= i < a.push(qid).len() && a.push(qid)[i] == y;
                        if i < a.len() {
                            assert(a[i] == y);
                        }
                    }
                    if a.contains(y) {
                        let i = choose|i: int| 0 <= i < a.len() && a[i] == y;
                        assert(a.push(qid)[i] == y);
                    }
                    if y == qid {
                        assert(a.push(qid)[a.len() as int] == qid);
                    }
                }
            }
            assert(row_files(all.take(k + 1)) =~= row_files(all.take(k as int)).push((fid, name)));
        }
        k = k + 1;
    }
    assert(all.take(n as int) =~= all);
    (qids, files)
}

// ---------------------------------------------------------------------------
// Table setup script
// ---------------------------------------------------------------------------

/// Index of the first `*/` at or after `k`, or -1 when there is none.
pub open spec fn first_close(s: Seq<char>, k: int) -> int
    decreases s.len() - k,
{
    if k < 0 || k + 2 > s.len() {
        -1
    } else if lit_at(s, k, "*/"@) {
        k
    } else {
        first_close(s, k + 1)
    }
}

pub proof fn lemma_first_close_range(s: Seq<char>, k: int)
    ensures
        first_close(s, k) == -1 || (k <= first_close(s, k) && first_close(s, k) + 2 <= s.len()
            && lit_at(s, first_close(s, k), "*/"@)),
    decreases s.len() - k,
{
    if k < 0 || k + 2 > s.len() {
    } else if lit_at(s, k, "*/"@) {
    } else {
        lemma_first_close_range(s, k + 1);
    }
}

/// `c` is the first `*/` from `k` on.
proof fn lemma_first_close_is(s: Seq<char>, k: int, c: int)
    requires
        0 <= k <= c,
        lit_at(s, c, "*/"@),
        forall|j: int| k <= j < c ==> !#[trigger] lit_at(s, j, "*/"@),
    ensures
        first_close(s, k) == c,
    decreases c - k,
{
    reveal_strlit("*/");
    if k < c {
        lemma_first_close_is(s, k + 1, c);
    }
}

/// There is no `*/` from `k` on.
proof fn lemma_first_close_none(s: Seq<char>, k: int)
    requires
        0 <= k,
        forall|j: int| k <= j ==> !#[trigger] lit_at(s, j, "*/"@),
    ensures
        first_close(s, k) == -1,
    decreases s.len() - k,
{
    reveal_strlit("*/");
    if k + 2 <= s.len() {
        lemma_first_close_none(s, k + 1);
    }
}

/// The text with every `/* ... */` comment removed: each comment starts at a
/// `/*` and ends at the first `*/` after it; a `/*` without one stays.
pub open spec fn strip_comments(s: Seq<char>) -> Seq<char>
    decreases s.len(),
{
    if s.len() == 0 {
        s
    } else if lit_at(s, 0, "/*"@) && first_close(s, 2) >= 0 {
        proof {
            lemma_first_close_range(s, 2);
        }
        strip_comments(s.skip(first_close(s, 2) + 2))
    } else {
        seq![s[0]] + strip_comments(s.skip(1))
    }
}

/// A text without any `/*` has no comment to remove.
pub proof fn lemma_strip_without_comments(s: Seq<char>)
    requires
        forall|j: int| !#[trigger] lit_at(s, j, "/*"@),
    ensures
        strip_comments(s) == s,
    decreases s.len(),
{
    if s.len() > 0 {
        let t = s.skip(1);
        assert forall|j: int| !#[trigger] lit_at(t, j, "/*"@) by {
            if lit_at(t, j, "/*"@) {
                assert(t.subrange(j, j + "/*"@.len()) =~= s.subrange(j + 1, j + 1 + "/*"@.len()));
                assert(lit_at(s, j + 1, "/*"@));
            }
        }
        lemma_strip_without_comments(t);
        assert(!lit_at(s, 0, "/*"@));
        assert(seq![s[0]] + t =~= s);
    }
}

/// The text without line feeds and carriage returns.
pub open spec fn drop_line_breaks(s: Seq<char>) -> Seq<char>
    decreases s.len(),
{
    if s.len() == 0 {
        s
    } else if s.last() == '\n' || s.last() == '\r' {
        drop_line_breaks(s.drop_last())
    } else {
        drop_line_breaks(s.drop_last()).push(s.last())
    }
}

/// Index of the first `;` at or after `k`, or the length.
pub open spec fn semi_from(s: Seq<char>, k: int) -> int
    decreases s.len() - k,
{
    if k < 0 || k >= s.len() {
        s.len() as int
    } else if s[k] == ';' {
        k
    } else {
        semi_from(s, k + 1)
    }
}

pub proof fn lemma_semi_from_range(s: Seq<char>, k: int)
    requires
        0 <= k,
    ensures
        k <= semi_from(s, k) <= s.len() || (k > s.len() && semi_from(s, k) == s.len()),
        semi_from(s, k) < s.len() ==> s[semi_from(s, k)] == ';',
    decreases s.len() - k,
{
    if k < s.len() && s[k] != ';' {
        lemma_semi_from_range(s, k + 1);
    }
}

proof fn lemma_semi_from_skip(s: Seq<char>, k: int, j: int)
    requires
        0 <= k <= j <= s.len(),
        forall|m: int| k <= m < j ==> s[m] != ';',
    ensures
        semi_from(s, k) == semi_from(s, j),
    decreases j - k,
{
    if k < j {
        lemma_semi_from_skip(s, k + 1, j);
    }
}

/// The non-empty pieces between `;` separators, in order.
pub open spec fn statements(s: Seq<char>) -> Seq<Seq<char>>
    decreases s.len(),
{
    if s.len() == 0 {
        Seq::empty()
    } else {
        let i = semi_from(s, 0);
        proof {
            lemma_semi_from_range(s, 0);
        }
        let rest = if i < s.len() {
            statements(s.skip(i + 1))
        } else {
            Seq::empty()
        };
        if i > 0 {
            seq![s.take(i)] + rest
        } else {
            rest
        }
    }
}

/// The table setup statements of a setup script: comments removed, line
/// breaks removed, split at `;`, empty pieces left out.
pub open spec fn create_sql_spec(raw: Seq<char>) -> Seq<Seq<char>> {
    statements(drop_line_breaks(strip_comments(raw)))
}

/// A statement of the setup script: not empty, and without `;` or line breaks.
pub open spec fn clean_statement(p: Seq<char>) -> bool {
    &&& p.len() > 0
    &&& forall|j: int| 0 <= j < p.len() ==> #[trigger] p[j] != ';' && p[j] != '\n' && p[j] != '\r'
}

proof fn lemma_no_line_breaks(s: Seq<char>)
    ensures
        forall|j: int|
            0 <= j < drop_line_breaks(s).len() ==> #[trigger] drop_line_breaks(s)[j] != '\n'
                && drop_line_breaks(s)[j] != '\r',
    decreases s.len(),
{
    if s.len() > 0 {
        lemma_no_line_breaks(s.drop_last());
        let d = drop_line_breaks(s);
        let p = drop_line_breaks(s.drop_last());
        assert forall|j: int| 0 <= j < d.len() implies #[trigger] d[j] != '\n' && d[j] != '\r' by {
            if j < p.len() {
                assert(d[j] == p[j]);
            }
        }
    }
}

proof fn lemma_semi_from_clean(s: Seq<char>, k: int)
    requires
        0 <= k,
    ensures
        forall|m: int| k <= m < semi_from(s, k) ==> s[m] != ';',
    decreases s.len() - k,
{
    if k < s.len() && s[k] != ';' {
        lemma_semi_from_clean(s, k + 1);
    }
}

proof fn lemma_statements_clean(s: Seq<char>)
    requires
        forall|j: int| 0 <= j < s.len() ==> #[trigger] s[j] != '\n' && s[j] != '\r',
    ensures
        forall|k: int| 0 <= k < statements(s).len() ==> clean_statement(#[trigger] statements(s)[k]),
    decreases s.len(),
{
    if s.len() > 0 {
        let i = semi_from(s, 0);
        lemma_semi_from_range(s, 0);
        lemma_semi_from_clean(s, 0);
        let rest = if i < s.len() {
            statements(s.skip(i + 1))
        } else {
            Seq::empty()
        };
        if i < s.len() {
            let t = s.skip(i + 1);
            assert forall|j: int| 0 <= j < t.len() implies #[trigger] t[j] != '\n' && t[j] != '\r' by {
                assert(t[j] == s[j + i + 1]);
            }
            lemma_statements_clean(t);
        }
        let st = statements(s);
        if i > 0 {
            let piece = s.take(i);
            assert(clean_statement(piece)) by {
                assert forall|j: int| 0 <= j < piece.len() implies #[trigger] piece[j] != ';'
                    && piece[j] != '\n' && piece[j] != '\r' by {
                    assert(piece[j] == s[j]);
                }
            }
            assert(st == seq![piece] + rest);
            assert forall|k: int| 0 <= k < st.len() implies clean_statement(#[trigger] st[k]) by {
                if k > 0 {
                    assert(st[k] == rest[k - 1]);
                }
            }
        }
    }
}

/// Every table setup statement is non-empty and holds no `;` and no line
/// break.
pub proof fn lemma_create_sql_clean(raw: Seq<char>)
    ensures
        forall|k: int|
            0 <= k < create_sql_spec(raw).len() ==> clean_statement(#[trigger] create_sql_spec(raw)[k]),
{
    let d = drop_line_breaks(strip_comments(raw));
    lemma_no_line_breaks(strip_comments(raw));
    lemma_statements_clean(d);
}

fn strip_comments_chars(s: &[char]) -> (r: Vec<char>)
    ensures
        r@ == strip_comments(s@),
{
    proof {
        reveal_strlit("/*");
        reveal_strlit("*/");
    }
    let open = str_chars("/*");
    let close = str_chars("*/");
    let n = s.len();
    let mut out: Vec<char> = Vec::new();
    let mut i: usize = 0;
    assert(s@.skip(0) =~= s@);
    while i < n
        invariant
            n == s@.len(),
            i <= n,
            open@ == "/*"@,
            close@ == "*/"@,
            open@.len() == 2,
            close@.len() == 2,
            out@ + strip_comments(s@.skip(i as int)) == strip_comments(s@),
        decreases n - i,
    {
        let ghost t = s@.skip(i as int);
        let mut found: Option<usize> = None;
        if lit_at_exec(s, i, open.as_slice()) {
            assert(lit_at(t, 0, "/*"@)) by {
                assert(t.subrange(0, 2) =~= s@.subrange(i as int, i + 2));
            }
            let mut c: usize = i + 2;
            while c < n && !lit_at_exec(s, c, close.as_slice())
                invariant
                    n == s@.len(),
                    i + 2 <= c <= n,
                    close@ == "*/"@,
                    close@.len() == 2,
                    forall|j: int| i + 2 <= j < c ==> !#[trigger] lit_at(s@, j, "*/"@),
                decreases n - c,
            {
                c = c + 1;
            }
            proof {
                assert forall|j: int| 0 <= j implies #[trigger] lit_at(t, j, "*/"@) == lit_at(
                    s@,
                    j + i,
                    "*/"@,
                ) by {
                    if j + 2 <= t.len() {
                        assert(t.subrange(j, j + 2) =~= s@.subrange(j + i, j + i + 2));
                    }
                }
                if c < n {
                    lemma_first_close_is(t, 2, c - i);
                } else {
                    assert forall|j: int| 2 <= j implies !#[trigger] lit_at(t, j, "*/"@) by {
                        if lit_at(t, j, "*/"@) {
                            assert(lit_at(s@, j + i, "*/"@));
                        }
                    }
                    lemma_first_close_none(t, 2);
                }
            }
            if c < n {
                found = Some(c);
            }
        } else {
            assert(!lit_at(t, 0, "/*"@)) by {
                if lit_at(t, 0, "/*"@) {
                    assert(t.subrange(0, 2) =~= s@.subrange(i as int, i + 2));
                }
            }
        }
        match found {
            Some(c) => {
                assert(t.skip(c - i + 2) =~= s@.skip(c + 2));
                i = c + 2;
            },
            None => {
                let ghost before = out@;
                out.push(s[i]);
                assert(t.skip(1) =~= s@.skip(i + 1));
                assert(out@ + strip_comments(s@.skip(i + 1)) =~= before + (seq![t[0]]
                    + strip_comments(t.skip(1))));
                i = i + 1;
            },
        }
    }
    assert(s@.skip(i as int) =~= Seq::<char>::empty());
    assert(out@ + Seq::<char>::empty() =~= out@);
    out
}

fn drop_line_breaks_chars(s: &[char]) -> (r: Vec<char>)
    ensures
        r@ == drop_line_breaks(s@),
{
    let mut out: Vec<char> = Vec::new();
    let mut k: usize = 0;
    while k < s.len()
        invariant
            k <= s@.len(),
            out@ == drop_line_breaks(s@.take(k as int)),
        decreases s@.len() - k,
    {
        assert(s@.take(k + 1).drop_last() =~= s@.take(k as int));
        if s[k] != '\n' && s[k] != '\r' {
            out.push(s[k]);
        }
        k = k + 1;
    }
    assert(s@.take(s@.len() as int) =~= s@);
    out
}

/// `statements` of a text made of a piece without `;` and the rest.
proof fn lemma_statements_step(cur: Seq<char>, t: Seq<char>)
    requires
        forall|m: int| 0 <= m < cur.len() ==> cur[m] != ';',
    ensures
        t.len() == 0 ==> statements(cur + t) == (if cur.len() > 0 {
            seq![cur]
        } else {
            Seq::<Seq<char>>::empty()
        }),
        t.len() > 0 && t[0] == ';' ==> statements(cur + t) == (if cur.len() > 0 {
            seq![cur]
        } else {
            Seq::<Seq<char>>::empty()
        }) + statements(t.skip(1)),
{
    let s = cur + t;
    if s.len() > 0 {
        lemma_semi_from_skip(s, 0, cur.len() as int);
        if t.len() == 0 {
            assert(s =~= cur);
            assert(semi_from(s, cur.len() as int) == s.len());
            assert(s.take(cur.len() as int) =~= cur);
        } else if t[0] == ';' {
            assert(s[cur.len() as int] == ';');
            assert(semi_from(s, cur.len() as int) == cur.len());
            assert(s.take(cur.len() as int) =~= cur);
            assert(s.skip(cur.len() + 1int) =~= t.skip(1));
        }
    } else {
        assert(cur.len() == 0);
    }
}

fn split_statements(s: &[char]) -> (r: Vec<String>)
    ensures
        string_views(r@) == statements(s@),
{
    let mut res: Vec<String> = Vec::new();
    let mut cur: Vec<char> = Vec::new();
    let mut k: usize = 0;
    assert(s@.skip(0) =~= s@);
    assert(cur@ + s@ =~= s@);
    while k < s.len()
        invariant
            k <= s@.len(),
            forall|m: int| 0 <= m < cur@.len() ==> cur@[m] != ';',
            string_views(res@) + statements(cur@ + s@.skip(k as int)) == statements(s@),
        decreases s@.len() - k,
    {
        let ghost t = s@.skip(k as int);
        assert(t[0] == s@[k as int]);
        assert(t.skip(1) =~= s@.skip(k + 1));
        if s[k] == ';' {
            proof {
                lemma_statements_step(cur@, t);
            }
            let ghost before = string_views(res@);
            if cur.len() > 0 {
                res.push(string_from_chars(cur.as_slice()));
                assert(string_views(res@) =~= before.push(cur@));
                assert(before.push(cur@) + statements(t.skip(1)) =~= before + (seq![cur@]
                    + statements(t.skip(1))));
            } else {
                assert(before + (Seq::<Seq<char>>::empty() + statements(t.skip(1))) =~= before
                    + statements(t.skip(1)));
            }
            cur = Vec::new();
            assert(cur@ + s@.skip(k + 1) =~= s@.skip(k + 1));
        } else {
            let ghost cb = cur@;
            cur.push(s[k]);
            assert(cb + t =~= cur@ + s@.skip(k + 1));
        }
        k = k + 1;
    }
    proof {
        let t = s@.skip(k as int);
        assert(t.len() == 0);
        lemma_statements_step(cur@, t);
    }
    if cur.len() > 0 {
        let ghost before = string_views(res@);
        res.push(string_from_chars(cur.as_slice()));
        assert(string_views(res@) =~= before + seq![cur@]);
    } else {
        assert(string_views(res@) + Seq::<Seq<char>>::empty() =~= string_views(res@));
    }
    res
}

/// The table setup statements of the setup script `raw_sql`.
pub fn get_db_create_sql(raw_sql: &str) -> (r: Vec<String>)
    ensures
        string_views(r@) == create_sql_spec(raw_sql@),
{
    let s = str_chars(raw_sql);
    let a = strip_comments_chars(s.as_slice());
    let b = drop_line_breaks_chars(a.as_slice());
    split_statements(b.as_slice())
}

} // verus!
