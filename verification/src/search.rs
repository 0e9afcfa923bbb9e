//! Query-side logic of the library database: turning user input into an
//! FTS5 match expression, whitelisting sort parameters, splitting fetched
//! rows into pages, and the budget of the search-suggestion dropdown.
//!
//! The queries themselves run against SQLite outside this crate; these
//! functions decide what is asked and how the answers are shaped.

use vstd::prelude::*;

use crate::models::{
    AlbumCursor, AlbumListItem, ArtistCursor, ArtistListItem, OffsetCursor, Page, SearchHit,
    SearchSuggestResponse,
};
use crate::text::{
    push_chars, split_whitespace_chars, str_chars, str_eq, string_from_chars, words,
};

verus! {

/// Characters with a meaning in FTS5 query syntax that are stripped from
/// both ends of every token.
pub open spec fn is_fts_operator(c: char) -> bool {
    c == '(' || c == ')' || c == ':' || c == '*' || c == '^'
}

/// `t` with every `"` doubled, as FTS5 string literals require.
pub open spec fn escape_quotes(t: Seq<char>) -> Seq<char>
    decreases t.len(),
{
    if t.len() == 0 {
        Seq::empty()
    } else if t.last() == '"' {
        escape_quotes(t.drop_last()) + seq!['"', '"']
    } else {
        escape_quotes(t.drop_last()).push(t.last())
    }
}

/// `t` without its leading FTS operator characters.
pub open spec fn trim_start_operators(t: Seq<char>) -> Seq<char>
    decreases t.len(),
{
    if t.len() > 0 && is_fts_operator(t[0]) {
        trim_start_operators(t.drop_first())
    } else {
        t
    }
}

/// `t` without its trailing FTS operator characters.
pub open spec fn trim_end_operators(t: Seq<char>) -> Seq<char>
    decreases t.len(),
{
    if t.len() > 0 && is_fts_operator(t.last()) {
        trim_end_operators(t.drop_last())
    } else {
        t
    }
}

/// `t` without FTS operator characters at either end.
pub open spec fn strip_operators(t: Seq<char>) -> Seq<char> {
    trim_end_operators(trim_start_operators(t))
}

/// Whether the UTF-8 encoding of `t` takes at least two bytes.
pub open spec fn utf8_len_at_least_two(t: Seq<char>) -> bool {
    t.len() >= 2 || (t.len() == 1 && (t[0] as u32) >= 0x80)
}

/// The FTS5 term for one whitespace-separated word of the input: the quoted
/// word, a prefix query when it is at least two bytes long, nothing when no
/// character is left once operators are stripped.
pub open spec fn fts_token(word: Seq<char>) -> Option<Seq<char>> {
    let t = strip_operators(escape_quotes(word));
    if t.len() == 0 {
        None
    } else if utf8_len_at_least_two(t) {
        Some(seq!['"'] + t + seq!['"', '*'])
    } else {
        Some(seq!['"'] + t + seq!['"'])
    }
}

/// The terms of all words that yield one, in order.
pub open spec fn fts_tokens(ws: Seq<Seq<char>>) -> Seq<Seq<char>>
    decreases ws.len(),
{
    if ws.len() == 0 {
        Seq::empty()
    } else {
        let rest = fts_tokens(ws.drop_last());
        match fts_token(ws.last()) {
            Some(q) => rest.push(q),
            None => rest,
        }
    }
}

/// The separator between terms: every term must match.
pub open spec fn and_separator() -> Seq<char> {
    seq![' ', 'A', 'N', 'D', ' ']
}

/// The terms joined by `" AND "`.
pub open spec fn join_with_and(toks: Seq<Seq<char>>) -> Seq<char>
    decreases toks.len(),
{
    if toks.len() == 0 {
        Seq::empty()
    } else if toks.len() == 1 {
        toks[0]
    } else {
        join_with_and(toks.drop_last()) + and_separator() + toks.last()
    }
}

/// The match expression for a search input, `None` when it has no usable term.
pub open spec fn spec_normalize_search_query(input: Seq<char>) -> Option<Seq<char>> {
    let toks = fts_tokens(words(input));
    if toks.len() == 0 {
        None
    } else {
        Some(join_with_and(toks))
    }
}

/// Double quotes in `s` come only in adjacent pairs, as an FTS5 string
/// literal requires between its enclosing quotes.
pub open spec fn paired_quotes(s: Seq<char>) -> bool
    decreases s.len(),
{
    if s.len() == 0 {
        true
    } else if s[0] == '"' {
        s.len() >= 2 && s[1] == '"' && paired_quotes(s.skip(2))
    } else {
        paired_quotes(s.skip(1))
    }
}

proof fn lemma_paired_concat(a: Seq<char>, b: Seq<char>)
    requires
        paired_quotes(a),
        paired_quotes(b),
    ensures
        paired_quotes(a + b),
    decreases a.len(),
{
    if a.len() == 0 {
        assert(a + b =~= b);
    } else if a[0] == '"' {
        assert((a + b).skip(2) =~= a.skip(2) + b);
        lemma_paired_concat(a.skip(2), b);
    } else {
        assert((a + b).skip(1) =~= a.skip(1) + b);
        lemma_paired_concat(a.skip(1), b);
    }
}

proof fn lemma_escape_paired(t: Seq<char>)
    ensures
        paired_quotes(escape_quotes(t)),
    decreases t.len(),
{
    if t.len() > 0 {
        lemma_escape_paired(t.drop_last());
        let tail: Seq<char> = if t.last() == '"' {
            seq!['"', '"']
        } else {
            seq![t.last()]
        };
        if t.last() == '"' {
            assert(tail.skip(2) =~= Seq::<char>::empty());
        } else {
            assert(tail.skip(1) =~= Seq::<char>::empty());
        }
        assert(paired_quotes(tail)) by {
            reveal_with_fuel(paired_quotes, 2);
        }
        if t.last() == '"' {
            assert(escape_quotes(t) == escape_quotes(t.drop_last()) + tail);
        } else {
            assert(escape_quotes(t) =~= escape_quotes(t.drop_last()) + tail);
        }
        lemma_paired_concat(escape_quotes(t.drop_last()), tail);
    }
}

proof fn lemma_paired_drop_last(s: Seq<char>)
    requires
        paired_quotes(s),
        s.len() > 0,
        s.last() != '"',
    ensures
        paired_quotes(s.drop_last()),
    decreases s.len(),
{
    if s.len() == 1 {
        assert(s.drop_last() =~= Seq::<char>::empty());
    } else if s[0] == '"' {
        if s.len() == 2 {
            assert(false);
        } else {
            lemma_paired_drop_last(s.skip(2));
            assert(s.drop_last().skip(2) =~= s.skip(2).drop_last());
        }
    } else {
        lemma_paired_drop_last(s.skip(1));
        assert(s.drop_last().skip(1) =~= s.skip(1).drop_last());
    }
}

proof fn lemma_trim_start_paired(s: Seq<char>)
    requires
        paired_quotes(s),
    ensures
        paired_quotes(trim_start_operators(s)),
    decreases s.len(),
{
    if s.len() > 0 && is_fts_operator(s[0]) {
        assert(s.drop_first() =~= s.skip(1));
        lemma_trim_start_paired(s.drop_first());
    }
}

proof fn lemma_trim_end_paired(s: Seq<char>)
    requires
        paired_quotes(s),
    ensures
        paired_quotes(trim_end_operators(s)),
    decreases s.len(),
{
    if s.len() > 0 && is_fts_operator(s.last()) {
        lemma_paired_drop_last(s);
        lemma_trim_end_paired(s.drop_last());
    }
}

/// Every term of a match expression is a well-formed FTS5 string literal:
/// the word's text in double quotes (followed by the prefix marker `*`
/// when it is a prefix query), with every double quote inside escaped as a
/// pair. Whatever a user types, it is searched for as text and never read
/// as query syntax.
pub proof fn lemma_fts_token_is_string_literal(word: Seq<char>)
    ensures
        fts_token(word) matches Some(q) ==> {
            let body = strip_operators(escape_quotes(word));
            &&& paired_quotes(body)
            &&& body.len() > 0
            &&& (q == seq!['"'] + body + seq!['"'] || q == seq!['"'] + body + seq!['"', '*'])
        },
{
    lemma_escape_paired(word);
    lemma_trim_start_paired(escape_quotes(word));
    lemma_trim_end_paired(trim_start_operators(escape_quotes(word)));
}

/// A word that FTS5 reads as plain text: no double quote in it, and no
/// operator character at either end.
pub open spec fn plain_word(w: Seq<char>) -> bool {
    &&& w.len() > 0
    &&& !w.contains('"')
    &&& !is_fts_operator(w[0])
    &&& !is_fts_operator(w.last())
}

proof fn lemma_escape_plain(t: Seq<char>)
    requires
        !t.contains('"'),
    ensures
        escape_quotes(t) == t,
    decreases t.len(),
{
    if t.len() > 0 {
        assert(!t.drop_last().contains('"')) by {
            if t.drop_last().contains('"') {
                let j = choose|j: int| 0 <= j < t.drop_last().len() && t.drop_last()[j] == '"';
                assert(t[j] == '"');
            }
        }
        lemma_escape_plain(t.drop_last());
        assert(t.last() != '"') by {
            assert(t[t.len() - 1] == t.last());
        }
        assert(t.drop_last().push(t.last()) =~= t);
    }
}

/// A plain word of at least two characters is searched for as a prefix:
/// the word itself in double quotes, then `*`.
pub proof fn lemma_plain_word_is_prefix_term(w: Seq<char>)
    requires
        plain_word(w),
        w.len() >= 2,
    ensures
        fts_token(w) == Some(seq!['"'] + w + seq!['"', '*']),
{
    lemma_escape_plain(w);
    assert(trim_start_operators(w) == w);
    assert(trim_end_operators(w) == w);
}

/// A search for two plain words of at least two characters each finds
/// what matches both, each as a prefix: `"a"* AND "b"*`.
pub proof fn lemma_two_plain_words_both_required(input: Seq<char>, a: Seq<char>, b: Seq<char>)
    requires
        words(input) == seq![a, b],
        plain_word(a),
        plain_word(b),
        a.len() >= 2,
        b.len() >= 2,
    ensures
        spec_normalize_search_query(input) == Some(
            seq!['"'] + a + seq!['"', '*'] + seq![' ', 'A', 'N', 'D', ' '] + seq!['"'] + b + seq![
                '"',
                '*',
            ],
        ),
{
    lemma_plain_word_is_prefix_term(a);
    lemma_plain_word_is_prefix_term(b);
    let ws = words(input);
    assert(ws.drop_last() =~= seq![a]);
    assert(ws.drop_last().drop_last() =~= Seq::<Seq<char>>::empty());
    let toks = fts_tokens(ws);
    assert(seq![a].drop_last() =~= Seq::<Seq<char>>::empty());
    assert(fts_tokens(Seq::<Seq<char>>::empty()) == Seq::<Seq<char>>::empty());
    assert(seq![a].last() == a);
    assert(fts_tokens(seq![a]) =~= seq![seq!['"'] + a + seq!['"', '*']]);
    assert(ws.last() == b);
    assert(toks =~= seq![seq!['"'] + a + seq!['"', '*'], seq!['"'] + b + seq!['"', '*']]);
    assert(toks.drop_last() =~= seq![seq!['"'] + a + seq!['"', '*']]);
    let ta = seq!['"'] + a + seq!['"', '*'];
    let tb = seq!['"'] + b + seq!['"', '*'];
    assert(join_with_and(toks.drop_last()) == ta);
    assert(toks.last() == tb);
    assert(join_with_and(toks) == ta + and_separator() + tb);
    assert(ta + and_separator() + tb =~= seq!['"'] + a + seq!['"', '*'] + seq![' ', 'A', 'N', 'D', ' ']
        + seq!['"'] + b + seq!['"', '*']);
}

/// `q` is an FTS5 string literal, optionally a prefix query.
pub open spec fn is_fts_literal(q: Seq<char>) -> bool {
    exists|body: Seq<char>|
        paired_quotes(body) && body.len() > 0 && (q == seq!['"'] + body + seq!['"'] || q
            == seq!['"'] + body + seq!['"', '*'])
}

/// Every term the words of a search input produce is an FTS5 string
/// literal; the match expression is these terms joined by ` AND `.
pub proof fn lemma_all_terms_are_literals(ws: Seq<Seq<char>>)
    ensures
        forall|i: int| 0 <= i < fts_tokens(ws).len() ==> is_fts_literal(#[trigger] fts_tokens(ws)[i]),
    decreases ws.len(),
{
    if ws.len() > 0 {
        lemma_all_terms_are_literals(ws.drop_last());
        lemma_fts_token_is_string_literal(ws.last());
        let rest = fts_tokens(ws.drop_last());
        match fts_token(ws.last()) {
            Some(q) => {
                let body = strip_operators(escape_quotes(ws.last()));
                assert(is_fts_literal(q)) by {
                    assert(paired_quotes(body) && body.len() > 0 && (q == seq!['"'] + body + seq!['"']
                        || q == seq!['"'] + body + seq!['"', '*']));
                }
                assert forall|i: int| 0 <= i < fts_tokens(ws).len() implies is_fts_literal(
                    #[trigger] fts_tokens(ws)[i],
                ) by {
                    if i < rest.len() {
                        assert(fts_tokens(ws)[i] == rest[i]);
                    } else {
                        assert(fts_tokens(ws)[i] == q);
                    }
                }
            },
            None => {},
        }
    }
}

fn is_fts_operator_char(c: char) -> (b: bool)
    ensures
        b == is_fts_operator(c),
{
    c == '(' || c == ')' || c == ':' || c == '*' || c == '^'
}

fn escape_quote_chars(word: &[char]) -> (r: Vec<char>)
    ensures
        r@ == escape_quotes(word@),
{
    let n = word.len();
    let mut r: Vec<char> = Vec::new();
    let mut i: usize = 0;
    while i < n
        invariant
            n == word@.len(),
            0 <= i <= n,
            r@ == escape_quotes(word@.take(i as int)),
        decreases n - i,
    {
        proof {
            assert(word@.take(i + 1).drop_last() =~= word@.take(i as int));
            assert(word@.take(i + 1).last() == word@[i as int]);
        }
        if word[i] == '"' {
            r.push('"');
            r.push('"');
            assert(r@ =~= escape_quotes(word@.take(i as int)) + seq!['"', '"']);
        } else {
            r.push(word[i]);
        }
        i = i + 1;
    }
    assert(word@.take(n as int) =~= word@);
    r
}

/// The FTS5 term for one word, computed as `fts_token` says.
fn fts_token_chars(word: &[char]) -> (r: Option<Vec<char>>)
    ensures
        match fts_token(word@) {
            Some(q) => r is Some && r->0@ == q,
            None => r is None,
        },
{
    let t = escape_quote_chars(word);
    let n = t.len();
    let mut s: usize = 0;
    assert(t@.subrange(0, n as int) =~= t@);
    while s < n && is_fts_operator_char(t[s])
        invariant
            n == t@.len(),
            0 <= s <= n,
            trim_start_operators(t@.subrange(s as int, n as int)) == trim_start_operators(t@),
        decreases n - s,
    {
        proof {
            assert(t@.subrange(s as int, n as int).drop_first() =~= t@.subrange(s + 1, n as int));
        }
        s = s + 1;
    }
    assert(trim_start_operators(t@) == t@.subrange(s as int, n as int));
    let mut e: usize = n;
    while e > s && is_fts_operator_char(t[e - 1])
        invariant
            n == t@.len(),
            0 <= s <= e <= n,
            trim_end_operators(t@.subrange(s as int, e as int)) == trim_end_operators(
                t@.subrange(s as int, n as int),
            ),
        decreases e - s,
    {
        proof {
            assert(t@.subrange(s as int, e as int).drop_last() =~= t@.subrange(s as int, e - 1));
        }
        e = e - 1;
    }
    let ghost core = t@.subrange(s as int, e as int);
    assert(strip_operators(t@) == core);
    if e == s {
        return None;
    }
    let mut out: Vec<char> = Vec::new();
    out.push('"');
    let mut k: usize = s;
    while k < e
        invariant
            n == t@.len(),
            s <= k <= e <= n,
            out@ == seq!['"'] + t@.subrange(s as int, k as int),
        decreases e - k,
    {
        out.push(t[k]);
        proof {
            assert(t@.subrange(s as int, k + 1) =~= t@.subrange(s as int, k as int).push(t@[k as int]));
        }
        k = k + 1;
    }
    out.push('"');
    let wide = e - s >= 2 || (e - s == 1 && (t[s] as u32) >= 0x80);
    if wide {
        out.push('*');
        assert(out@ =~= seq!['"'] + core + seq!['"', '*']);
    } else {
        assert(out@ =~= seq!['"'] + core + seq!['"']);
    }
    Some(out)
}

/// The FTS5 match expression for a search input: each whitespace-separated
/// word becomes a quoted term (quotes doubled, FTS operator characters
/// stripped from its ends), a prefix query (`"term"*`) when it is at least
/// two bytes long; terms are joined by ` AND `. `None` when no word yields a
/// term, in particular for blank input.
pub fn normalize_search_query(input: &str) -> (r: Option<String>)
    ensures
        match spec_normalize_search_query(input@) {
            Some(q) => r is Some && r->0@ == q,
            None => r is None,
        },
{
    let chars = str_chars(input);
    let ws = split_whitespace_chars(chars.as_slice());
    let ghost wsv = words(chars@);
    let mut out: Vec<char> = Vec::new();
    let mut count: usize = 0;
    let mut i: usize = 0;
    while i < ws.len()
        invariant
            ws@.len() == wsv.len(),
            forall|k: int| 0 <= k < ws@.len() ==> (#[trigger] ws@[k])@ == wsv[k],
            0 <= i <= ws@.len(),
            count <= i,
            count == fts_tokens(wsv.take(i as int)).len(),
            out@ == join_with_and(fts_tokens(wsv.take(i as int))),
        decreases ws@.len() - i,
    {
        let tok = fts_token_chars(ws[i].as_slice());
        let ghost before = fts_tokens(wsv.take(i as int));
        proof {
            assert(wsv.take(i + 1).drop_last() =~= wsv.take(i as int));
            assert(wsv.take(i + 1).last() == wsv[i as int]);
        }
        match tok {
            Some(t) => {
                if count > 0 {
                    out.push(' ');
                    out.push('A');
                    out.push('N');
                    out.push('D');
                    out.push(' ');
                }
                push_chars(&mut out, t.as_slice());
                proof {
                    let after = before.push(t@);
                    assert(after.drop_last() =~= before);
                    if before.len() == 0 {
                        assert(out@ =~= join_with_and(after));
                    } else {
                        assert(out@ =~= join_with_and(before) + and_separator() + t@);
                    }
                }
                count = count + 1;
            },
            None => {},
        }
        i = i + 1;
    }
    assert(wsv.take(ws@.len() as int) =~= wsv);
    if count == 0 {
        None
    } else {
        Some(string_from_chars(out.as_slice()))
    }
}

/// Sort columns a track listing may be ordered by.
pub open spec fn allowed_sort_column(s: Seq<char>) -> bool {
    s == "title"@ || s == "artist"@ || s == "album"@ || s == "path"@ || s == "id"@
}

/// The sort column to use: the requested one when it is whitelisted,
/// `id` otherwise (nothing else ever reaches the SQL text).
pub fn safe_sort_column<'a>(sort_by: &'a str) -> (r: &'a str)
    ensures
        r@ == (if allowed_sort_column(sort_by@) {
            sort_by@
        } else {
            "id"@
        }),
        allowed_sort_column(r@),
{
    if str_eq(sort_by, "title") || str_eq(sort_by, "artist") || str_eq(sort_by, "album")
        || str_eq(sort_by, "path") || str_eq(sort_by, "id") {
        sort_by
    } else {
        "id"
    }
}

/// Whether `s` upper-cases to `DESC`: the only characters whose upper case
/// is `D`, `E`, `S`, `C` are those letters, their lower case, and the long
/// s (U+017F) for `S`.
pub open spec fn is_desc_keyword(s: Seq<char>) -> bool {
    &&& s.len() == 4
    &&& (s[0] == 'd' || s[0] == 'D')
    &&& (s[1] == 'e' || s[1] == 'E')
    &&& (s[2] == 's' || s[2] == 'S' || s[2] == '\u{17F}')
    &&& (s[3] == 'c' || s[3] == 'C')
}

/// The sort direction to use: `DESC` when the request upper-cases to it,
/// `ASC` otherwise.
pub fn safe_sort_direction(direction: &str) -> (r: &'static str)
    ensures
        r@ == (if is_desc_keyword(direction@) {
            "DESC"@
        } else {
            "ASC"@
        }),
{
    let c = str_chars(direction);
    if c.len() == 4 && (c[0] == 'd' || c[0] == 'D') && (c[1] == 'e' || c[1] == 'E') && (c[2]
        == 's' || c[2] == 'S' || c[2] == '\u{17F}') && (c[3] == 'c' || c[3] == 'C') {
        "DESC"
    } else {
        "ASC"
    }
}

/// Whether `len` fetched rows hold more than a page of `limit` rows; the
/// queries fetch `limit + 1` rows to find out.
pub open spec fn page_has_more(len: nat, limit: int) -> bool {
    limit >= 0 && len > limit
}

/// Split the rows fetched for a page: when there are more than `limit`, the
/// last one is taken off and handed back (it starts the next page).
pub fn split_page<T>(items: Vec<T>, limit: i64) -> (r: (Vec<T>, Option<T>))
    ensures
        page_has_more(items@.len(), limit as int) ==> r.0@ == items@.drop_last() && r.1
            == Some(items@.last()),
        !page_has_more(items@.len(), limit as int) ==> r.0@ == items@ && r.1 is None,
        r.0@ + (match r.1 {
            Some(x) => seq![x],
            None => Seq::empty(),
        }) == items@,
{
    let mut items = items;
    if limit >= 0 && items.len() as u64 > limit as u64 {
        let last = items.pop();
        (items, last)
    } else {
        (items, None)
    }
}

/// A page of albums; the cursor is the sort key of the album left over.
pub fn albums_page(items: Vec<AlbumListItem>, limit: i64) -> (p: Page<AlbumListItem, AlbumCursor>)
    ensures
        page_has_more(items@.len(), limit as int) ==> {
            &&& p.items@ == items@.drop_last()
            &&& p.next_cursor is Some
            &&& p.next_cursor->0.album_artist_sort == items@.last().album_artist_sort
            &&& p.next_cursor->0.album_title_sort == items@.last().album_title_sort
        },
        !page_has_more(items@.len(), limit as int) ==> p.items@ == items@ && p.next_cursor is None,
{
    let (items, extra) = split_page(items, limit);
    let next_cursor = match extra {
        Some(last) => Some(
            AlbumCursor {
                album_artist_sort: last.album_artist_sort,
                album_title_sort: last.album_title_sort,
            },
        ),
        None => None,
    };
    Page { items, next_cursor }
}

/// A page of artists; the cursor is the sort key of the artist left over.
pub fn artists_page(items: Vec<ArtistListItem>, limit: i64) -> (p: Page<
    ArtistListItem,
    ArtistCursor,
>)
    ensures
        page_has_more(items@.len(), limit as int) ==> {
            &&& p.items@ == items@.drop_last()
            &&& p.next_cursor is Some
            &&& p.next_cursor->0.artist_sort == items@.last().artist_sort
        },
        !page_has_more(items@.len(), limit as int) ==> p.items@ == items@ && p.next_cursor is None,
{
    let (items, extra) = split_page(items, limit);
    let next_cursor = match extra {
        Some(last) => Some(ArtistCursor { artist_sort: last.artist_sort }),
        None => None,
    };
    Page { items, next_cursor }
}

/// An offset-paged list; the next page starts `limit` rows further on.
pub fn offset_page<T>(items: Vec<T>, limit: i64, offset: i64) -> (p: Page<T, OffsetCursor>)
    requires
        page_has_more(items@.len(), limit as int) ==> offset + limit <= i64::MAX,
    ensures
        page_has_more(items@.len(), limit as int) ==> {
            &&& p.items@ == items@.drop_last()
            &&& p.next_cursor is Some
            &&& p.next_cursor->0.offset == offset + limit
        },
        !page_has_more(items@.len(), limit as int) ==> p.items@ == items@ && p.next_cursor is None,
{
    let (items, extra) = split_page(items, limit);
    let next_cursor = match extra {
        Some(_) => Some(OffsetCursor { offset: offset + limit }),
        None => None,
    };
    Page { items, next_cursor }
}

/// `max(trunc(limit / d), floor)`, Rust's truncating division.
pub open spec fn share_of_limit(limit: int, d: int, floor: int) -> int {
    if limit >= 0 && limit / d > floor {
        limit / d
    } else {
        floor
    }
}

/// What the suggestion dropdown asks for: the match expression and how many
/// tracks, albums and artists to fetch.
#[derive(Debug, Clone)]
pub struct SuggestPlan {
    pub match_query: String,
    pub track_limit: i64,
    pub album_limit: i64,
    pub artist_limit: i64,
}

/// Plan the suggestion queries for `query`, `None` when it holds no term
/// (the answer is then empty). Half of `limit` goes to tracks (at least
/// four), a quarter to albums and to artists (at least two each).
pub fn plan_suggest(query: &str, limit: i64) -> (r: Option<SuggestPlan>)
    ensures
        match spec_normalize_search_query(query@) {
            None => r is None,
            Some(q) => {
                &&& r is Some
                &&& r->0.match_query@ == q
                &&& r->0.track_limit == share_of_limit(limit as int, 2, 4)
                &&& r->0.album_limit == share_of_limit(limit as int, 4, 2)
                &&& r->0.artist_limit == share_of_limit(limit as int, 4, 2)
            },
        },
{
    let match_query = match normalize_search_query(query) {
        Some(q) => q,
        None => return None,
    };
    let track_limit: i64 = if limit >= 0 && (limit as u64) / 2 > 4 {
        ((limit as u64) / 2) as i64
    } else {
        4
    };
    let quarter: i64 = if limit >= 0 && (limit as u64) / 4 > 2 {
        ((limit as u64) / 4) as i64
    } else {
        2
    };
    Some(SuggestPlan { match_query, track_limit, album_limit: quarter, artist_limit: quarter })
}

/// The dropdown's answer: tracks first, then albums, then artists, cut to
/// `limit` results (a negative limit cuts nothing).
pub fn assemble_suggestions(
    tracks: Vec<SearchHit>,
    albums: Vec<SearchHit>,
    artists: Vec<SearchHit>,
    limit: i64,
) -> (r: SearchSuggestResponse)
    ensures
        ({
            let all = tracks@ + albums@ + artists@;
            r.results@ == (if page_has_more(all.len(), limit as int) {
                all.take(limit as int)
            } else {
                all
            })
        }),
{
    let mut results = tracks;
    let mut albums = albums;
    let mut artists = artists;
    results.append(&mut albums);
    results.append(&mut artists);
    if limit >= 0 && results.len() as u64 > limit as u64 {
        results.truncate(limit as usize);
    }
    SearchSuggestResponse { results }
}

/// Sort columns a search result listing may be ordered by.
pub open spec fn allowed_search_sort_column(s: Seq<char>) -> bool {
    s == "title"@ || s == "artist"@ || s == "album"@ || s == "id"@
}

/// The sort column of a search result listing: the requested one when it
/// is whitelisted, `id` otherwise.
pub fn safe_search_sort_column<'a>(sort_by: &'a str) -> (r: &'a str)
    ensures
        r@ == (if allowed_search_sort_column(sort_by@) {
            sort_by@
        } else {
            "id"@
        }),
        allowed_search_sort_column(r@),
{
    if str_eq(sort_by, "title") || str_eq(sort_by, "artist") || str_eq(sort_by, "album")
        || str_eq(sort_by, "id") {
        sort_by
    } else {
        "id"
    }
}

} // verus!
