//! Conversation search: the query language (`model:`, `chat:`, `from:`,
//! `before:`, `has:code` and free terms), the full-text query built from it,
//! the plan the database runs, and the highlighted snippets it returns.
use vstd::prelude::*;
use crate::calendar::{
    civil_day_number, date_filter_fits, date_filter_in_range, date_parts, date_start_ms,
    parse_date_start_ms, valid_date,
};
use crate::chat::{escape_like_pattern, like_escaped, opt_string_view};
use crate::text::{
    chars_of, extend_str, is_ascii_upper, is_whitespace, is_ws, join_with, lower_char, lower_seq, starts_with,
    starts_with_str, string_of, string_views, sub_chars, to_ascii_lower, trim, trim_str,
};
use crate::unicode::{is_ascii_char, is_word_char, word_char};

verus! {

/// Results returned when no limit is given.
pub const DEFAULT_LIMIT: i64 = 30;

/// Most results returned.
pub const MAX_LIMIT: i64 = 100;

// ---------------------------------------------------------------------------
// Words and terms
// ---------------------------------------------------------------------------

/// The scan behind `split_whitespace`: finished words and the word being read.
pub open spec fn word_scan(s: Seq<char>) -> (Seq<Seq<char>>, Seq<char>)
    decreases s.len(),
{
    if s.len() == 0 {
        (Seq::empty(), Seq::empty())
    } else {
        let (done, cur) = word_scan(s.drop_last());
        let c = s.last();
        if is_ws(c) {
            if cur.len() > 0 {
                (done.push(cur), Seq::empty())
            } else {
                (done, cur)
            }
        } else {
            (done, cur.push(c))
        }
    }
}

/// `split_whitespace`: the maximal runs of non-whitespace characters.
pub open spec fn words(s: Seq<char>) -> Seq<Seq<char>> {
    let (done, cur) = word_scan(s);
    if cur.len() > 0 {
        done.push(cur)
    } else {
        done
    }
}

/// The scan behind `tokenize_search_text`.
pub open spec fn term_scan(s: Seq<char>) -> (Seq<Seq<char>>, Seq<char>)
    decreases s.len(),
{
    if s.len() == 0 {
        (Seq::empty(), Seq::empty())
    } else {
        let (done, cur) = term_scan(s.drop_last());
        let c = s.last();
        if is_word_char(c) {
            (done, cur.push(lower_char(c)))
        } else if cur.len() > 0 {
            (done.push(cur), Seq::empty())
        } else {
            (done, cur)
        }
    }
}

/// What `tokenize_search_text` answers: the runs of alphanumeric characters
/// and underscores, ASCII letters in lower case.
pub open spec fn search_terms(s: Seq<char>) -> Seq<Seq<char>> {
    let (done, cur) = term_scan(s);
    if cur.len() > 0 {
        done.push(cur)
    } else {
        done
    }
}

/// `split_whitespace` on characters.
pub fn split_words(v: &Vec<char>) -> (r: Vec<Vec<char>>)
    ensures
        r@.map_values(|w: Vec<char>| w@) == words(v@),
{
    let mut done: Vec<Vec<char>> = Vec::new();
    let mut cur: Vec<char> = Vec::new();
    let mut i: usize = 0;
    while i < v.len()
        invariant
            i <= v@.len(),
            (done@.map_values(|w: Vec<char>| w@), cur@) == word_scan(v@.take(i as int)),
        decreases v@.len() - i,
    {
        let c = v[i];
        let ghost t = v@.take(i as int + 1);
        assert(t.drop_last() =~= v@.take(i as int));
        let ghost before = done@.map_values(|w: Vec<char>| w@);
        if is_whitespace(c) {
            if cur.len() > 0 {
                let w = cur;
                done.push(w);
                cur = Vec::new();
                assert(done@.map_values(|w: Vec<char>| w@) =~= before.push(w@));
            }
        } else {
            cur.push(c);
        }
        assert(done@.map_values(|w: Vec<char>| w@) =~= word_scan(t).0);
        i = i + 1;
    }
    assert(v@.take(v@.len() as int) =~= v@);
    let ghost before = done@.map_values(|w: Vec<char>| w@);
    if cur.len() > 0 {
        let w = cur;
        done.push(w);
        assert(done@.map_values(|w: Vec<char>| w@) =~= before.push(w@));
    }
    done
}

/// `tokenize_search_text`.
pub fn tokenize_search_text(text: &Vec<char>) -> (r: Vec<Vec<char>>)
    ensures
        r@.map_values(|w: Vec<char>| w@) == search_terms(text@),
{
    let mut done: Vec<Vec<char>> = Vec::new();
    let mut cur: Vec<char> = Vec::new();
    let mut i: usize = 0;
    while i < text.len()
        invariant
            i <= text@.len(),
            (done@.map_values(|w: Vec<char>| w@), cur@) == term_scan(text@.take(i as int)),
        decreases text@.len() - i,
    {
        let c = text[i];
        let ghost t = text@.take(i as int + 1);
        assert(t.drop_last() =~= text@.take(i as int));
        let ghost before = done@.map_values(|w: Vec<char>| w@);
        if word_char(c) {
            cur.push(to_ascii_lower(c));
        } else if cur.len() > 0 {
            let w = cur;
            done.push(w);
            cur = Vec::new();
            assert(done@.map_values(|w: Vec<char>| w@) =~= before.push(w@));
        }
        assert(done@.map_values(|w: Vec<char>| w@) =~= term_scan(t).0);
        i = i + 1;
    }
    assert(text@.take(text@.len() as int) =~= text@);
    let ghost before = done@.map_values(|w: Vec<char>| w@);
    if cur.len() > 0 {
        let w = cur;
        done.push(w);
        assert(done@.map_values(|w: Vec<char>| w@) =~= before.push(w@));
    }
    done
}

// ---------------------------------------------------------------------------
// The query language
// ---------------------------------------------------------------------------

/// A parsed search query.
pub struct ParsedSearchQuery {
    pub terms: Vec<String>,
    pub model_filter: Option<String>,
    pub chat_filter: Option<String>,
    pub from_ms: Option<i64>,
    pub before_ms: Option<i64>,
    pub has_code: bool,
}

pub struct QueryView {
    pub terms: Seq<Seq<char>>,
    pub model_filter: Option<Seq<char>>,
    pub chat_filter: Option<Seq<char>>,
    pub from_ms: Option<int>,
    pub before_ms: Option<int>,
    pub has_code: bool,
}

pub open spec fn opt_i64_view(o: Option<i64>) -> Option<int> {
    match o {
        Some(v) => Some(v as int),
        None => None,
    }
}

impl View for ParsedSearchQuery {
    type V = QueryView;

    open spec fn view(&self) -> QueryView {
        QueryView {
            terms: string_views(self.terms@),
            model_filter: opt_string_view(self.model_filter),
            chat_filter: opt_string_view(self.chat_filter),
            from_ms: opt_i64_view(self.from_ms),
            before_ms: opt_i64_view(self.before_ms),
            has_code: self.has_code,
        }
    }
}

pub open spec fn empty_query() -> QueryView {
    QueryView {
        terms: Seq::empty(),
        model_filter: None,
        chat_filter: None,
        from_ms: None,
        before_ms: None,
        has_code: false,
    }
}

/// One word of a query applied to what has been parsed so far.
pub open spec fn apply_word(q: QueryView, w: Seq<char>) -> Result<QueryView, Seq<char>> {
    if starts_with(w, "model:"@) {
        let v = w.skip(6);
        Ok(if v.len() > 0 {
            QueryView { model_filter: Some(v), ..q }
        } else {
            q
        })
    } else if starts_with(w, "chat:"@) {
        let v = w.skip(5);
        Ok(if v.len() > 0 {
            QueryView { chat_filter: Some(v), ..q }
        } else {
            q
        })
    } else if starts_with(w, "from:"@) {
        match date_start_ms(w.skip(5), "from"@) {
            Ok(ms) => Ok(QueryView { from_ms: Some(ms), ..q }),
            Err(e) => Err(e),
        }
    } else if starts_with(w, "before:"@) {
        match date_start_ms(w.skip(7), "before"@) {
            Ok(ms) => Ok(QueryView { before_ms: Some(ms), ..q }),
            Err(e) => Err(e),
        }
    } else if starts_with(w, "has:"@) && w.skip(4) == "code"@ {
        Ok(QueryView { has_code: true, ..q })
    } else {
        Ok(QueryView { terms: q.terms + search_terms(w), ..q })
    }
}

/// A date filter sets its own bound and nothing else: `before:D` with a
/// valid date D sets `before_ms` to the first millisecond of D (UTC) and
/// `from:D` sets `from_ms` to it; the other bound, the terms and the other
/// filters stay as they were.
pub proof fn lemma_date_word_sets_its_bound(q: QueryView, w: Seq<char>, y: int, m: int, d: int)
    requires
        valid_date(y, m, d),
    ensures
        starts_with(w, "before:"@) && date_parts(w.skip(7)) == Some((y, m, d)) ==> (apply_word(q, w)
            matches Ok(r) && r.before_ms == Some(civil_day_number(y, m, d) * 86_400_000)
            && r.from_ms == q.from_ms && r.terms == q.terms && r.model_filter == q.model_filter
            && r.chat_filter == q.chat_filter && r.has_code == q.has_code),
        starts_with(w, "from:"@) && date_parts(w.skip(5)) == Some((y, m, d)) ==> (apply_word(q, w)
            matches Ok(r) && r.from_ms == Some(civil_day_number(y, m, d) * 86_400_000)
            && r.before_ms == q.before_ms && r.terms == q.terms && r.model_filter == q.model_filter
            && r.chat_filter == q.chat_filter && r.has_code == q.has_code),
{
    reveal_strlit("model:");
    reveal_strlit("chat:");
    reveal_strlit("from:");
    reveal_strlit("before:");
    if starts_with(w, "before:"@) {
        assert(w[0] == w.take(7)[0]);
        assert(!starts_with(w, "model:"@)) by {
            if starts_with(w, "model:"@) {
                assert(w[0] == w.take(6)[0]);
            }
        }
        assert(!starts_with(w, "chat:"@)) by {
            if starts_with(w, "chat:"@) {
                assert(w[0] == w.take(5)[0]);
            }
        }
        assert(!starts_with(w, "from:"@)) by {
            if starts_with(w, "from:"@) {
                assert(w[0] == w.take(5)[0]);
            }
        }
    }
    if starts_with(w, "from:"@) {
        assert(w[0] == w.take(5)[0]);
        assert(!starts_with(w, "model:"@)) by {
            if starts_with(w, "model:"@) {
                assert(w[0] == w.take(6)[0]);
            }
        }
        assert(!starts_with(w, "chat:"@)) by {
            if starts_with(w, "chat:"@) {
                assert(w[0] == w.take(5)[0]);
            }
        }
    }
}

/// The words applied in order; the first refused date filter ends the parse.
pub open spec fn apply_words(ws: Seq<Seq<char>>) -> Result<QueryView, Seq<char>>
    decreases ws.len(),
{
    if ws.len() == 0 {
        Ok(empty_query())
    } else {
        match apply_words(ws.drop_last()) {
            Ok(q) => apply_word(q, ws.last()),
            Err(e) => Err(e),
        }
    }
}

/// What `parse_search_query` answers.  When no free term was given, the
/// terms of the chat filter are searched for.
pub open spec fn parsed_query(query: Seq<char>) -> Result<QueryView, Seq<char>> {
    match apply_words(words(query)) {
        Ok(q) => Ok(
            if q.terms.len() == 0 && q.chat_filter is Some {
                QueryView { terms: search_terms(q.chat_filter->0), ..q }
            } else {
                q
            },
        ),
        Err(e) => Err(e),
    }
}

/// Every date filter of a query names a day whose start an `i64` holds (or
/// is refused).
pub open spec fn query_dates_in_range(query: Seq<char>) -> bool {
    forall|i: int|
        0 <= i < words(query).len() ==> {
            let w = #[trigger] words(query)[i];
            &&& starts_with(w, "from:"@) ==> date_filter_in_range(w.skip(5))
            &&& starts_with(w, "before:"@) ==> date_filter_in_range(w.skip(7))
        }
}

pub open spec fn parsed_result_view(r: Result<ParsedSearchQuery, String>) -> Result<
    QueryView,
    Seq<char>,
> {
    match r {
        Ok(q) => Ok(q@),
        Err(e) => Err(e@),
    }
}

fn tail_string(w: &Vec<char>, from: usize) -> (r: String)
    requires
        from <= w@.len(),
    ensures
        r@ == w@.skip(from as int),
{
    let t = sub_chars(w, from, w.len());
    assert(t@ =~= w@.skip(from as int));
    string_of(&t)
}

fn push_terms(terms: &mut Vec<String>, new_terms: &Vec<Vec<char>>)
    ensures
        string_views(final(terms)@) == string_views(old(terms)@) + new_terms@.map_values(
            |w: Vec<char>| w@,
        ),
{
    let ghost base = string_views(terms@);
    let mut i: usize = 0;
    while i < new_terms.len()
        invariant
            i <= new_terms@.len(),
            string_views(terms@) == base + new_terms@.take(i as int).map_values(
                |w: Vec<char>| w@,
            ),
        decreases new_terms@.len() - i,
    {
        let s = string_of(&new_terms[i]);
        let ghost before = string_views(terms@);
        terms.push(s);
        assert(string_views(terms@) =~= before.push(s@));
        assert(new_terms@.take(i as int + 1).map_values(|w: Vec<char>| w@) =~= new_terms@.take(
            i as int,
        ).map_values(|w: Vec<char>| w@).push(new_terms@[i as int]@));
        i = i + 1;
    }
    assert(new_terms@.take(new_terms@.len() as int) =~= new_terms@);
}

/// Applies one word to a parsed query.
fn apply_word_exec(q: &mut ParsedSearchQuery, w: &Vec<char>) -> (r: Result<(), String>)
    requires
        starts_with(w@, "from:"@) ==> date_filter_in_range(w@.skip(5)),
        starts_with(w@, "before:"@) ==> date_filter_in_range(w@.skip(7)),
    ensures
        match apply_word(old(q)@, w@) {
            Ok(v) => r is Ok && final(q)@ == v,
            Err(e) => r matches Err(m) && m@ == e,
        },
{
    proof {
        reveal_strlit("model:");
        reveal_strlit("chat:");
        reveal_strlit("from:");
        reveal_strlit("before:");
        reveal_strlit("has:");
        reveal_strlit("code");
    }
    if starts_with_str(w, "model:") {
        if w.len() > 6 {
            q.model_filter = Some(tail_string(w, 6));
        }
        return Ok(());
    }
    if starts_with_str(w, "chat:") {
        if w.len() > 5 {
            q.chat_filter = Some(tail_string(w, 5));
        }
        return Ok(());
    }
    if starts_with_str(w, "from:") {
        let v = tail_string(w, 5);
        let r = parse_date_start_ms(v.as_str(), "from");
        return match r {
            Ok(ms) => {
                q.from_ms = Some(ms);
                Ok(())
            },
            Err(e) => Err(e),
        };
    }
    if starts_with_str(w, "before:") {
        let v = tail_string(w, 7);
        let r = parse_date_start_ms(v.as_str(), "before");
        return match r {
            Ok(ms) => {
                q.before_ms = Some(ms);
                Ok(())
            },
            Err(e) => Err(e),
        };
    }
    if starts_with_str(w, "has:") {
        let v = tail_string(w, 4);
        if crate::text::str_eq(v.as_str(), "code") {
            q.has_code = true;
            return Ok(());
        }
    }
    let ts = tokenize_search_text(w);
    push_terms(&mut q.terms, &ts);
    Ok(())
}

/// `parse_search_query`: reads the filters and free terms of a search.
pub fn parse_search_query(query: &str) -> (r: Result<ParsedSearchQuery, String>)
    requires
        query_dates_in_range(query@),
    ensures
        parsed_result_view(r) == parsed_query(query@),
{
    let v = chars_of(query);
    let ws = split_words(&v);
    let ghost wv = ws@.map_values(|w: Vec<char>| w@);
    let mut q = ParsedSearchQuery {
        terms: Vec::new(),
        model_filter: None,
        chat_filter: None,
        from_ms: None,
        before_ms: None,
        has_code: false,
    };
    assert(string_views(q.terms@) =~= Seq::<Seq<char>>::empty());
    assert(q@ == empty_query());
    let mut i: usize = 0;
    while i < ws.len()
        invariant
            i <= ws@.len(),
            wv == ws@.map_values(|w: Vec<char>| w@),
            wv == words(query@),
            query_dates_in_range(query@),
            apply_words(wv.take(i as int)) == Ok::<QueryView, Seq<char>>(q@),
        decreases ws@.len() - i,
    {
        let ghost t = wv.take(i as int + 1);
        assert(t.drop_last() =~= wv.take(i as int));
        assert(t.last() == ws@[i as int]@);
        assert(wv[i as int] == words(query@)[i as int]);
        let r = apply_word_exec(&mut q, &ws[i]);
        match r {
            Ok(()) => {},
            Err(e) => {
                proof {
                    lemma_apply_words_err(wv, i as int + 1);
                }
                return Err(e);
            },
        }
        i = i + 1;
    }
    assert(wv.take(wv.len() as int) =~= wv);
    if q.terms.len() == 0 {
        if let Some(chat) = &q.chat_filter {
            let cv = chars_of(chat.as_str());
            let ts = tokenize_search_text(&cv);
            let mut terms: Vec<String> = Vec::new();
            push_terms(&mut terms, &ts);
            assert(string_views(terms@) =~= search_terms(cv@));
            q.terms = terms;
        }
    }
    Ok(q)
}

/// Whether every date filter of a query is in range, so that
/// `parse_search_query` may be called on it.
pub fn query_dates_fit(query: &str) -> (r: bool)
    ensures
        r == query_dates_in_range(query@),
{
    proof {
        reveal_strlit("from:");
        reveal_strlit("before:");
    }
    let v = chars_of(query);
    let ws = split_words(&v);
    let ghost wv = ws@.map_values(|w: Vec<char>| w@);
    let mut i: usize = 0;
    while i < ws.len()
        invariant
            i <= ws@.len(),
            wv == ws@.map_values(|w: Vec<char>| w@),
            wv == words(query@),
            forall|k: int|
                0 <= k < i ==> {
                    let w = #[trigger] words(query@)[k];
                    &&& starts_with(w, "from:"@) ==> date_filter_in_range(w.skip(5))
                    &&& starts_with(w, "before:"@) ==> date_filter_in_range(w.skip(7))
                },
        decreases ws@.len() - i,
    {
        let w = &ws[i];
        assert(wv[i as int] == w@);
        proof {
            reveal_strlit("from:");
            reveal_strlit("before:");
        }
        if starts_with_str(w, "from:") {
            let t = tail_string(w, 5);
            if !date_filter_fits(t.as_str()) {
                return false;
            }
        }
        if starts_with_str(w, "before:") {
            let t = tail_string(w, 7);
            if !date_filter_fits(t.as_str()) {
                return false;
            }
        }
        i = i + 1;
    }
    true
}

/// An error part-way through the words is the error of all of them.
proof fn lemma_apply_words_err(ws: Seq<Seq<char>>, k: int)
    requires
        0 <= k <= ws.len(),
        apply_words(ws.take(k)) is Err,
    ensures
        apply_words(ws) == apply_words(ws.take(k)),
    decreases ws.len(),
{
    if k < ws.len() {
        assert(ws.drop_last().take(k) =~= ws.take(k));
        lemma_apply_words_err(ws.drop_last(), k);
    } else {
        assert(ws.take(k) =~= ws);
    }
}

/// The full-text term for a search term: quoted, matching as a prefix.
pub open spec fn prefix_term(t: Seq<char>) -> Seq<char> {
    "\""@ + t + "\"*"@
}

/// What `build_fts_query` answers: the prefix terms separated by spaces.
pub open spec fn fts_query_text(terms: Seq<Seq<char>>) -> Seq<char> {
    join_with(terms.map_values(|t: Seq<char>| prefix_term(t)), " "@)
}

/// `build_fts_query` for a parsed search.
pub fn build_search_fts_query(parsed: &ParsedSearchQuery) -> (r: String)
    ensures
        r@ == fts_query_text(parsed@.terms),
{
    let mut parts: Vec<Vec<char>> = Vec::new();
    let mut i: usize = 0;
    while i < parsed.terms.len()
        invariant
            i <= parsed.terms@.len(),
            parts@.map_values(|w: Vec<char>| w@) == string_views(parsed.terms@).take(
                i as int,
            ).map_values(|t: Seq<char>| prefix_term(t)),
        decreases parsed.terms@.len() - i,
    {
        let mut p = chars_of("\"");
        extend_str(&mut p, parsed.terms[i].as_str());
        extend_str(&mut p, "\"*");
        let ghost before = parts@.map_values(|w: Vec<char>| w@);
        parts.push(p);
        proof {
            reveal_strlit("\"");
            reveal_strlit("\"*");
            assert(p@ =~= prefix_term(parsed.terms@[i as int]@));
            assert(parts@.map_values(|w: Vec<char>| w@) =~= before.push(p@));
            assert(string_views(parsed.terms@).take(i as int + 1).map_values(
                |t: Seq<char>| prefix_term(t),
            ) =~= string_views(parsed.terms@).take(i as int).map_values(
                |t: Seq<char>| prefix_term(t),
            ).push(prefix_term(parsed.terms@[i as int]@)));
        }
        i = i + 1;
    }
    assert(string_views(parsed.terms@).take(parsed.terms@.len() as int) =~= string_views(
        parsed.terms@,
    ));
    let sep = chars_of(" ");
    let joined = crate::text::join_chars(&parts, &sep);
    string_of(&joined)
}

/// A search asks the index for something exactly when it has a term: the
/// full-text query is empty only for a query without terms.
pub proof fn lemma_fts_query_empty_iff_no_terms(terms: Seq<Seq<char>>)
    ensures
        (fts_query_text(terms).len() == 0) == (terms.len() == 0),
    decreases terms.len(),
{
    reveal_strlit("\"");
    reveal_strlit("\"*");
    reveal_strlit(" ");
    let parts = terms.map_values(|t: Seq<char>| prefix_term(t));
    if terms.len() == 1 {
        assert(parts[0] == prefix_term(terms[0]));
    } else if terms.len() > 1 {
        assert(parts.drop_last() =~= terms.drop_last().map_values(|t: Seq<char>| prefix_term(t)));
        assert(parts.last() == prefix_term(terms.last()));
    }
}

/// Every search term is non-empty and holds no ASCII capital letter.
pub proof fn lemma_search_terms_are_lowered(s: Seq<char>)
    ensures
        forall|k: int| 0 <= k < search_terms(s).len() ==> lowered_word(#[trigger] search_terms(s)[k]),
{
    lemma_term_scan_words(s);
}

pub open spec fn lowered_word(w: Seq<char>) -> bool {
    w.len() > 0 && forall|j: int| 0 <= j < w.len() ==> !is_ascii_upper(#[trigger] w[j])
}

proof fn lemma_lower_char_not_upper(c: char)
    ensures
        !is_ascii_upper(lower_char(c)),
{
    if is_ascii_upper(c) {
        let u = (c as u32) + 32;
        assert(97 <= u <= 122);
        assert((u as char) as u32 == u);
    }
}

proof fn lemma_term_scan_words(s: Seq<char>)
    ensures
        forall|k: int| 0 <= k < term_scan(s).0.len() ==> lowered_word(#[trigger] term_scan(s).0[k]),
        forall|j: int| 0 <= j < term_scan(s).1.len() ==> !is_ascii_upper(#[trigger] term_scan(s).1[j]),
    decreases s.len(),
{
    if s.len() > 0 {
        lemma_term_scan_words(s.drop_last());
        lemma_lower_char_not_upper(s.last());
        let (done, cur) = term_scan(s.drop_last());
        if is_word_char(s.last()) {
            let c2 = cur.push(lower_char(s.last()));
            assert forall|j: int| 0 <= j < c2.len() implies !is_ascii_upper(#[trigger] c2[j]) by {
                if j < cur.len() {
                    assert(c2[j] == cur[j]);
                }
            }
        } else if cur.len() > 0 {
            assert(lowered_word(cur));
            let d2 = done.push(cur);
            assert forall|k: int| 0 <= k < d2.len() implies lowered_word(#[trigger] d2[k]) by {
                if k < done.len() {
                    assert(d2[k] == done[k]);
                }
            }
        }
    }
}

// ---------------------------------------------------------------------------
// The plan the database runs
// ---------------------------------------------------------------------------

/// What the database is asked for a parsed search.
pub struct SearchPlan {
    pub fts_query: String,
    pub limit: i64,
    pub chat_pattern: Option<String>,
    pub include_titles: bool,
}

/// The number of results asked for: the default when none is given, kept
/// within 1..=100.
pub open spec fn clamped_limit(limit: Option<i64>) -> int {
    let l = match limit {
        Some(l) => l as int,
        None => DEFAULT_LIMIT as int,
    };
    if l < 1 {
        1
    } else if l > MAX_LIMIT {
        MAX_LIMIT as int
    } else {
        l
    }
}

/// `limit.unwrap_or(DEFAULT_LIMIT).clamp(1, MAX_LIMIT)`.
pub fn search_limit(limit: Option<i64>) -> (r: i64)
    ensures
        r == clamped_limit(limit),
{
    let l = match limit {
        Some(l) => l,
        None => DEFAULT_LIMIT,
    };
    if l < 1 {
        1
    } else if l > MAX_LIMIT {
        MAX_LIMIT
    } else {
        l
    }
}

/// What `str::to_lowercase` answers: the Unicode lower-case mapping, which
/// takes tables to state.
pub uninterp spec fn unicode_lowercase(s: Seq<char>) -> Seq<char>;

/// `str::to_lowercase` from std.  The contract names the answer, and states
/// what std documents of ASCII text: it lowercases as
/// `to_ascii_lowercase` does (capitals to small letters, nothing else
/// changed).  The Unicode tables behind the rest are not restated here.
#[verifier::external_body]
pub(crate) fn to_lowercase(s: &str) -> (r: String)
    ensures
        r@ == unicode_lowercase(s@),
        all_ascii(s@) ==> r@ == lower_seq(s@),
{
    s.to_lowercase()
}

/// Text of ASCII characters only.
pub open spec fn all_ascii(s: Seq<char>) -> bool {
    forall|i: int| 0 <= i < s.len() ==> is_ascii_char(#[trigger] s[i])
}

/// A text in lower case: for ASCII text, capitals become small letters;
/// beyond ASCII, what the Unicode tables say.
pub open spec fn lowercase_text(s: Seq<char>) -> Seq<char> {
    if all_ascii(s) {
        lower_seq(s)
    } else {
        unicode_lowercase(s)
    }
}

/// The `LIKE` pattern that finds a text anywhere, ignoring case.
pub open spec fn contains_pattern(text: Seq<char>) -> Seq<char> {
    "%"@ + like_escaped(lowercase_text(text)) + "%"@
}

/// `format!("%{}%", escape_like_pattern(&text.to_lowercase()))`.
pub fn contains_like_pattern(text: &str) -> (r: String)
    ensures
        r@ == contains_pattern(text@),
{
    let lower = to_lowercase(text);
    let escaped = escape_like_pattern(lower.as_str());
    let mut out = chars_of("%");
    extend_str(&mut out, escaped.as_str());
    extend_str(&mut out, "%");
    string_of(&out)
}

/// The pattern a chat search looks for in titles and messages: none for a
/// blank query (every chat is listed), else the trimmed query as a
/// case-insensitive `LIKE` pattern.
pub fn chat_search_pattern(query: &str) -> (r: Option<String>)
    ensures
        opt_string_view(r) == if trim(query@).len() == 0 {
            None::<Seq<char>>
        } else {
            Some(contains_pattern(trim(query@)))
        },
{
    let t = trim_str(query);
    if t.len() == 0 {
        return None;
    }
    let s = string_of(&t);
    Some(contains_like_pattern(s.as_str()))
}

/// What a conversation search asks of the database: `None` when the query
/// has no term to search for.
pub open spec fn plan_matches(plan: SearchPlan, q: QueryView, limit: Option<i64>) -> bool {
    &&& plan.fts_query@ == fts_query_text(q.terms)
    &&& plan.limit == clamped_limit(limit)
    &&& opt_string_view(plan.chat_pattern) == match q.chat_filter {
        Some(c) => Some(contains_pattern(c)),
        None => None,
    }
    &&& plan.include_titles == (q.model_filter is None && !q.has_code)
}

/// What a conversation search asks of the
/// database: nothing when no term is left, else the full-text query, the
/// clamped limit, the chat pattern, and whether titles are searched (not
/// when a model or code filter is given).
pub fn plan_search(parsed: &ParsedSearchQuery, limit: Option<i64>) -> (r: Option<SearchPlan>)
    ensures
        match r {
            Some(plan) => fts_query_text(parsed@.terms).len() > 0 && plan_matches(
                plan,
                parsed@,
                limit,
            ),
            None => fts_query_text(parsed@.terms).len() == 0,
        },
{
    let fts_query = build_search_fts_query(parsed);
    if chars_of(fts_query.as_str()).len() == 0 {
        return None;
    }
    let chat_pattern = match &parsed.chat_filter {
        Some(c) => Some(contains_like_pattern(c.as_str())),
        None => None,
    };
    Some(
        SearchPlan {
            fts_query,
            limit: search_limit(limit),
            chat_pattern,
            include_titles: parsed.model_filter.is_none() && !parsed.has_code,
        },
    )
}

// ---------------------------------------------------------------------------
// Snippets
// ---------------------------------------------------------------------------

/// Marks the start of a highlighted match in a snippet.
pub const MATCH_START: char = '\u{1f}';

/// Marks the end of a highlighted match in a snippet.
pub const MATCH_END: char = '\u{1e}';

/// A piece of a snippet, highlighted or not.
pub struct SearchSnippetPart {
    pub text: String,
    pub is_match: bool,
}

pub open spec fn parts_view(v: Seq<SearchSnippetPart>) -> Seq<(Seq<char>, bool)> {
    v.map_values(|p: SearchSnippetPart| (p.text@, p.is_match))
}

/// Appends text to a list of parts: nothing for empty text, merged into the
/// last part when it has the same highlighting.
pub open spec fn add_text(parts: Seq<(Seq<char>, bool)>, text: Seq<char>, is_match: bool) -> Seq<
    (Seq<char>, bool),
> {
    if text.len() == 0 {
        parts
    } else if parts.len() > 0 && parts.last().1 == is_match {
        parts.update(parts.len() - 1, (parts.last().0 + text, is_match))
    } else {
        parts.push((text, is_match))
    }
}

/// The scan of a snippet: outside a match, `MATCH_START` opens one; inside,
/// `MATCH_END` closes it; every other character is text of the current kind.
pub open spec fn snippet_scan(s: Seq<char>) -> (Seq<(Seq<char>, bool)>, bool)
    decreases s.len(),
{
    if s.len() == 0 {
        (Seq::empty(), false)
    } else {
        let (parts, m) = snippet_scan(s.drop_last());
        let c = s.last();
        if (!m && c == MATCH_START) || (m && c == MATCH_END) {
            (parts, !m)
        } else {
            (add_text(parts, seq![c], m), m)
        }
    }
}

/// What `parse_snippet_parts` answers.
pub open spec fn snippet_parts(s: Seq<char>) -> Seq<(Seq<char>, bool)> {
    snippet_scan(s).0
}

/// `push_snippet_part`.
pub fn push_snippet_part(parts: &mut Vec<SearchSnippetPart>, text: &str, is_match: bool)
    ensures
        parts_view(final(parts)@) == add_text(parts_view(old(parts)@), text@, is_match),
{
    let ghost before = parts_view(parts@);
    if chars_of(text).len() == 0 {
        return;
    }
    let n = parts.len();
    if n > 0 && parts[n - 1].is_match == is_match {
        let last = parts.pop().unwrap();
        let mut t = chars_of(last.text.as_str());
        extend_str(&mut t, text);
        parts.push(SearchSnippetPart { text: string_of(&t), is_match });
        assert(parts_view(parts@) =~= add_text(before, text@, is_match));
        return;
    }
    parts.push(SearchSnippetPart { text: String::from_str(text), is_match });
    assert(parts_view(parts@) =~= add_text(before, text@, is_match));
}

proof fn lemma_add_text_concat(
    parts: Seq<(Seq<char>, bool)>,
    a: Seq<char>,
    c: char,
    m: bool,
)
    ensures
        add_text(add_text(parts, a, m), seq![c], m) == add_text(parts, a.push(c), m),
{
    assert(a + seq![c] =~= a.push(c));
    if a.len() > 0 {
        let p1 = add_text(parts, a, m);
        if parts.len() > 0 && parts.last().1 == m {
            assert(parts.last().0 + a + seq![c] =~= parts.last().0 + a.push(c));
            assert(add_text(p1, seq![c], m) =~= add_text(parts, a.push(c), m));
        } else {
            assert(p1 =~= parts.push((a, m)));
            assert(add_text(p1, seq![c], m) =~= parts.push((a.push(c), m)));
        }
    } else {
        assert(a.push(c) =~= seq![c]);
    }
}

/// `parse_snippet_parts`: splits a snippet at its match markers into
/// highlighted and plain parts.
pub fn parse_snippet_parts(snippet: &str) -> (r: Vec<SearchSnippetPart>)
    ensures
        parts_view(r@) == snippet_parts(snippet@),
{
    let v = chars_of(snippet);
    let mut parts: Vec<SearchSnippetPart> = Vec::new();
    let mut cur: Vec<char> = Vec::new();
    let mut m = false;
    let mut i: usize = 0;
    while i < v.len()
        invariant
            i <= v@.len(),
            v@ == snippet@,
            ({
                let (ps, mm) = snippet_scan(v@.take(i as int));
                &&& mm == m
                &&& add_text(parts_view(parts@), cur@, m) == ps
            }),
        decreases v@.len() - i,
    {
        let c = v[i];
        let ghost t = v@.take(i as int + 1);
        assert(t.drop_last() =~= v@.take(i as int));
        assert(t.last() == c);
        if (!m && c == MATCH_START) || (m && c == MATCH_END) {
            let s = string_of(&cur);
            push_snippet_part(&mut parts, s.as_str(), m);
            cur = Vec::new();
            m = !m;
            proof {
                let (ps, mm) = snippet_scan(t);
                assert(add_text(parts_view(parts@), cur@, m) =~= parts_view(parts@));
            }
        } else {
            let ghost before = cur@;
            proof {
                lemma_add_text_concat(parts_view(parts@), cur@, c, m);
            }
            cur.push(c);
        }
        i = i + 1;
    }
    assert(v@.take(v@.len() as int) =~= v@);
    let s = string_of(&cur);
    push_snippet_part(&mut parts, s.as_str(), m);
    parts
}

/// Parts that are never empty, and where neighbours always differ in
/// highlighting.
pub open spec fn parts_well_formed(parts: Seq<(Seq<char>, bool)>) -> bool {
    &&& forall|i: int| 0 <= i < parts.len() ==> (#[trigger] parts[i]).0.len() > 0
    &&& forall|i: int| 0 <= i < parts.len() - 1 ==> (#[trigger] parts[i]).1 != parts[i + 1].1
}

proof fn lemma_add_text_well_formed(parts: Seq<(Seq<char>, bool)>, text: Seq<char>, m: bool)
    requires
        parts_well_formed(parts),
    ensures
        parts_well_formed(add_text(parts, text, m)),
{
    let r = add_text(parts, text, m);
    if text.len() > 0 {
        if parts.len() > 0 && parts.last().1 == m {
            assert forall|i: int| 0 <= i < r.len() implies (#[trigger] r[i]).0.len() > 0 by {
                if i < parts.len() - 1 {
                    assert(r[i] == parts[i]);
                }
            }
            assert forall|i: int| 0 <= i < r.len() - 1 implies (#[trigger] r[i]).1 != r[i + 1].1 by {
                assert(r[i] == parts[i]);
                if i + 1 < parts.len() - 1 {
                    assert(r[i + 1] == parts[i + 1]);
                }
            }
        } else {
            assert forall|i: int| 0 <= i < r.len() implies (#[trigger] r[i]).0.len() > 0 by {
                if i < parts.len() {
                    assert(r[i] == parts[i]);
                }
            }
            assert forall|i: int| 0 <= i < r.len() - 1 implies (#[trigger] r[i]).1 != r[i + 1].1 by {
                assert(r[i] == parts[i]);
                if i + 1 < parts.len() {
                    assert(r[i + 1] == parts[i + 1]);
                }
            }
        }
    }
}

/// A snippet splits into parts that are never empty and alternate between
/// plain and highlighted text; a snippet without a match marker is a single
/// plain part (none when it is empty).
pub proof fn lemma_snippet_parts_alternate(s: Seq<char>)
    ensures
        parts_well_formed(snippet_parts(s)),
        (forall|i: int| 0 <= i < s.len() ==> #[trigger] s[i] != MATCH_START) ==> snippet_scan(s)
            == (if s.len() == 0 {
            Seq::<(Seq<char>, bool)>::empty()
        } else {
            seq![(s, false)]
        }, false),
    decreases s.len(),
{
    if s.len() > 0 {
        let rest = s.drop_last();
        lemma_snippet_parts_alternate(rest);
        let (parts, m) = snippet_scan(rest);
        let c = s.last();
        if !((!m && c == MATCH_START) || (m && c == MATCH_END)) {
            lemma_add_text_well_formed(parts, seq![c], m);
        }
        if forall|i: int| 0 <= i < s.len() ==> #[trigger] s[i] != MATCH_START {
            assert forall|i: int| 0 <= i < rest.len() implies #[trigger] rest[i] != MATCH_START by {
                assert(rest[i] == s[i]);
            }
            assert(c != MATCH_START);
            if rest.len() == 0 {
                assert(seq![c] =~= s);
            } else {
                assert(rest + seq![c] =~= s);
            }
        }
    }
}

} // verus!
