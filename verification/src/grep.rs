//! Line search: split a document into lines, keep the lines that contain
//! a query as a substring, and trim surrounding whitespace from each kept
//! line. The specification model lives in the spec functions at the top;
//! the executable functions are proved against it.

use vstd::prelude::*;

verus! {

/// The characters with the Unicode `White_Space` property: exactly the
/// characters that trimming removes from the ends of a line.
pub open spec fn is_space(c: char) -> bool {
    ||| c == '\t'
    ||| c == '\n'
    ||| c == '\u{000B}'
    ||| c == '\u{000C}'
    ||| c == '\r'
    ||| c == ' '
    ||| c == '\u{0085}'
    ||| c == '\u{00A0}'
    ||| c == '\u{1680}'
    ||| c == '\u{2000}'
    ||| c == '\u{2001}'
    ||| c == '\u{2002}'
    ||| c == '\u{2003}'
    ||| c == '\u{2004}'
    ||| c == '\u{2005}'
    ||| c == '\u{2006}'
    ||| c == '\u{2007}'
    ||| c == '\u{2008}'
    ||| c == '\u{2009}'
    ||| c == '\u{200A}'
    ||| c == '\u{2028}'
    ||| c == '\u{2029}'
    ||| c == '\u{202F}'
    ||| c == '\u{205F}'
    ||| c == '\u{3000}'
}

/// The needle occurs in the haystack starting at position `i`.
pub open spec fn matches_at(hay: Seq<char>, needle: Seq<char>, i: int) -> bool {
    &&& 0 <= i
    &&& i + needle.len() <= hay.len()
    &&& forall|k: int| 0 <= k < needle.len() ==> hay[i + k] == needle[k]
}

/// Substring containment. An empty needle occurs in every haystack
/// (at position 0).
pub open spec fn contains_seq(hay: Seq<char>, needle: Seq<char>) -> bool {
    exists|i: int| matches_at(hay, needle, i)
}

/// Remove leading whitespace.
pub open spec fn trim_front(s: Seq<char>) -> Seq<char>
    decreases s.len(),
{
    if s.len() > 0 && is_space(s[0]) {
        trim_front(s.drop_first())
    } else {
        s
    }
}

/// Remove trailing whitespace.
pub open spec fn trim_back(s: Seq<char>) -> Seq<char>
    decreases s.len(),
{
    if s.len() > 0 && is_space(s.last()) {
        trim_back(s.drop_last())
    } else {
        s
    }
}

/// Remove both leading and trailing whitespace.
pub open spec fn trim_spec(s: Seq<char>) -> Seq<char> {
    trim_back(trim_front(s))
}

/// Remove one trailing carriage return, if present: the tail of a line
/// that ended in a carriage-return/line-feed pair.
pub open spec fn strip_cr(line: Seq<char>) -> Seq<char> {
    if line.len() > 0 && line.last() == '\r' {
        line.drop_last()
    } else {
        line
    }
}

/// Position of the first line feed in `s`, or `s.len()` if there is none.
pub open spec fn nl_index(s: Seq<char>) -> nat
    decreases s.len(),
{
    if s.len() == 0 {
        0
    } else if s[0] == '\n' {
        0
    } else {
        1 + nl_index(s.drop_first())
    }
}

proof fn lemma_nl_index_props(s: Seq<char>)
    ensures
        nl_index(s) <= s.len(),
        forall|j: int| 0 <= j < nl_index(s) ==> s[j] != '\n',
        nl_index(s) < s.len() ==> s[nl_index(s) as int] == '\n',
    decreases s.len(),
{
    if s.len() > 0 && s[0] != '\n' {
        let rest = s.drop_first();
        lemma_nl_index_props(rest);
        assert(forall|j: int| 1 <= j < s.len() ==> s[j] == rest[j - 1]);
    }
}

/// `nl_index` is the unique cut point: no line feed before it, and a line
/// feed (or the end of the sequence) at it.
proof fn lemma_nl_index_unique(s: Seq<char>, m: int)
    requires
        0 <= m <= s.len(),
        forall|j: int| 0 <= j < m ==> s[j] != '\n',
        m < s.len() ==> s[m] == '\n',
    ensures
        nl_index(s) == m,
{
    lemma_nl_index_props(s);
}

/// The lines of a document, as the line-splitting convention has them:
/// lines are separated by a line feed, a carriage return directly before
/// a line feed is removed, and a final line without a trailing line feed
/// still counts (while a trailing line feed adds no empty final line).
pub open spec fn lines_of(s: Seq<char>) -> Seq<Seq<char>>
    decreases s.len() via lines_of_decreases
{
    if s.len() == 0 {
        Seq::empty()
    } else {
        let i = nl_index(s) as int;
        if i == s.len() {
            seq![s]
        } else {
            seq![strip_cr(s.subrange(0, i))] + lines_of(s.subrange(i + 1, s.len() as int))
        }
    }
}

#[via_fn]
proof fn lines_of_decreases(s: Seq<char>) {
    lemma_nl_index_props(s);
}

/// The lines among `ls` that contain the query, in order, each trimmed.
pub open spec fn matching_lines(query: Seq<char>, ls: Seq<Seq<char>>) -> Seq<Seq<char>>
    decreases ls.len(),
{
    if ls.len() == 0 {
        Seq::empty()
    } else {
        let rest = matching_lines(query, ls.drop_last());
        if contains_seq(ls.last(), query) {
            rest.push(trim_spec(ls.last()))
        } else {
            rest
        }
    }
}

/// What `search` returns, over the views of its arguments.
pub open spec fn search_spec(query: Seq<char>, contents: Seq<char>) -> Seq<Seq<char>> {
    matching_lines(query, lines_of(contents))
}

/// The views of a sequence of string slices.
pub open spec fn views_of<'a>(lines: Seq<&'a str>) -> Seq<Seq<char>> {
    lines.map_values(|l: &'a str| l@)
}

/// The indices of the lines among `ls` that contain the query, in the
/// order the lines stand.
pub open spec fn match_indices(query: Seq<char>, ls: Seq<Seq<char>>) -> Seq<int>
    decreases ls.len(),
{
    if ls.len() == 0 {
        Seq::empty()
    } else {
        let rest = match_indices(query, ls.drop_last());
        if contains_seq(ls.last(), query) {
            rest.push(ls.len() - 1)
        } else {
            rest
        }
    }
}

/// Every search result is a trimmed line of the document that contains
/// the query, and the results follow the document's line order: the
/// selected line indices are strictly increasing, so no line is
/// reordered and none is used twice.
pub proof fn lemma_matching_lines_ordered(query: Seq<char>, ls: Seq<Seq<char>>)
    ensures
        match_indices(query, ls).len() == matching_lines(query, ls).len(),
        matching_lines(query, ls).len() <= ls.len(),
        forall|k: int|
            0 <= k < matching_lines(query, ls).len() ==> {
                &&& 0 <= #[trigger] match_indices(query, ls)[k] < ls.len()
                &&& contains_seq(ls[match_indices(query, ls)[k]], query)
                &&& matching_lines(query, ls)[k] == trim_spec(ls[match_indices(query, ls)[k]])
            },
        forall|k1: int, k2: int|
            0 <= k1 < k2 < matching_lines(query, ls).len() ==> #[trigger] match_indices(
                query,
                ls,
            )[k1] < #[trigger] match_indices(query, ls)[k2],
    decreases ls.len(),
{
    if ls.len() > 0 {
        let rest = ls.drop_last();
        lemma_matching_lines_ordered(query, rest);
        assert(forall|i: int| 0 <= i < rest.len() ==> rest[i] == #[trigger] ls[i]);
    }
}

/// Searching a document means searching its lines in order.
pub proof fn lemma_search_in_document_order(query: Seq<char>, contents: Seq<char>)
    ensures
        match_indices(query, lines_of(contents)).len() == search_spec(query, contents).len(),
        search_spec(query, contents).len() <= lines_of(contents).len(),
        forall|k: int|
            0 <= k < search_spec(query, contents).len() ==> {
                &&& 0 <= #[trigger] match_indices(query, lines_of(contents))[k] < lines_of(
                    contents,
                ).len()
                &&& contains_seq(
                    lines_of(contents)[match_indices(query, lines_of(contents))[k]],
                    query,
                )
                &&& search_spec(query, contents)[k] == trim_spec(
                    lines_of(contents)[match_indices(query, lines_of(contents))[k]],
                )
            },
        forall|k1: int, k2: int|
            0 <= k1 < k2 < search_spec(query, contents).len() ==> #[trigger] match_indices(
                query,
                lines_of(contents),
            )[k1] < #[trigger] match_indices(query, lines_of(contents))[k2],
{
    lemma_matching_lines_ordered(query, lines_of(contents));
}

/// An empty query is contained in every line, so searching with it
/// returns every line of the document, trimmed.
pub proof fn lemma_empty_query_returns_all_lines(contents: Seq<char>)
    ensures
        search_spec(Seq::empty(), contents) == lines_of(contents).map_values(
            |l: Seq<char>| trim_spec(l),
        ),
{
    lemma_empty_query_matches_all(lines_of(contents));
}

proof fn lemma_empty_query_matches_all(ls: Seq<Seq<char>>)
    ensures
        matching_lines(Seq::empty(), ls) == ls.map_values(|l: Seq<char>| trim_spec(l)),
    decreases ls.len(),
{
    let q = Seq::<char>::empty();
    let f = |l: Seq<char>| trim_spec(l);
    if ls.len() == 0 {
        assert(matching_lines(q, ls) =~= ls.map_values(f));
    } else {
        let rest = ls.drop_last();
        lemma_empty_query_matches_all(rest);
        assert(matches_at(ls.last(), q, 0));
        assert(ls.map_values(f) =~= rest.map_values(f).push(f(ls.last())));
    }
}

/// Searching an empty document with a non-empty query returns nothing.
pub proof fn lemma_empty_document_no_results(query: Seq<char>)
    requires
        query.len() > 0,
    ensures
        search_spec(query, Seq::empty()) == Seq::<Seq<char>>::empty(),
{
}

/// Search is pure: the specified result is a function of the query and
/// the document alone, so two searches with identical inputs agree.
pub proof fn lemma_search_deterministic(
    query1: Seq<char>,
    contents1: Seq<char>,
    query2: Seq<char>,
    contents2: Seq<char>,
)
    requires
        query1 == query2,
        contents1 == contents2,
    ensures
        search_spec(query1, contents1) == search_spec(query2, contents2),
{
}

/// Whether `c` is trimmed away as whitespace.
pub fn char_is_space(c: char) -> (b: bool)
    ensures
        b == is_space(c),
{
    c == '\t' || c == '\n' || c == '\u{000B}' || c == '\u{000C}' || c == '\r' || c == ' '
        || c == '\u{0085}' || c == '\u{00A0}' || c == '\u{1680}' || c == '\u{2000}'
        || c == '\u{2001}' || c == '\u{2002}' || c == '\u{2003}' || c == '\u{2004}'
        || c == '\u{2005}' || c == '\u{2006}' || c == '\u{2007}' || c == '\u{2008}'
        || c == '\u{2009}' || c == '\u{200A}' || c == '\u{2028}' || c == '\u{2029}'
        || c == '\u{202F}' || c == '\u{205F}' || c == '\u{3000}'
}

/// Whether `needle` occurs in `hay` starting at character position `i`.
fn occurs_at(hay: &str, needle: &str, i: usize) -> (b: bool)
    requires
        i + needle@.len() <= hay@.len(),
    ensures
        b == matches_at(hay@, needle@, i as int),
{
    let hay_len = hay.unicode_len();
    let needle_len = needle.unicode_len();
    let mut k: usize = 0;
    while k < needle_len
        invariant
            i + needle_len <= hay_len,
            needle_len == needle@.len(),
            hay_len == hay@.len(),
            k <= needle_len,
            forall|t: int| 0 <= t < k ==> hay@[i + t] == needle@[t],
        decreases needle_len - k,
    {
        if hay.get_char(i + k) != needle.get_char(k) {
            return false;
        }
        k += 1;
    }
    true
}

/// Whether `hay` contains `needle` as a substring. An empty needle is
/// contained in every haystack.
pub fn contains_substr(hay: &str, needle: &str) -> (b: bool)
    ensures
        b == contains_seq(hay@, needle@),
{
    let hay_len = hay.unicode_len();
    let needle_len = needle.unicode_len();
    if needle_len > hay_len {
        proof {
            assert forall|i: int| !matches_at(hay@, needle@, i) by {
                assert(i >= 0 ==> i + needle@.len() > hay@.len());
            }
        }
        return false;
    }
    let mut i: usize = 0;
    while i <= hay_len - needle_len
        invariant
            needle_len <= hay_len,
            needle_len == needle@.len(),
            hay_len == hay@.len(),
            i <= hay_len - needle_len + 1,
            forall|j: int| 0 <= j < i ==> !matches_at(hay@, needle@, j),
        decreases hay_len - needle_len - i + 1,
    {
        if occurs_at(hay, needle, i) {
            return true;
        }
        i += 1;
    }
    proof {
        assert forall|j: int| !matches_at(hay@, needle@, j) by {
            if j >= i {
                assert(j + needle@.len() > hay@.len());
            }
        }
    }
    false
}

/// Remove leading and trailing whitespace, returning a slice of `s`.
pub fn trim_str<'a>(s: &'a str) -> (r: &'a str)
    ensures
        r@ == trim_spec(s@),
{
    let n = s.unicode_len();
    proof {
        assert(s@.subrange(0, n as int) =~= s@);
    }
    let mut start: usize = 0;
    while start < n && char_is_space(s.get_char(start))
        invariant
            n == s@.len(),
            start <= n,
            trim_front(s@) == trim_front(s@.subrange(start as int, n as int)),
        decreases n - start,
    {
        proof {
            let cur = s@.subrange(start as int, n as int);
            assert(cur.drop_first() =~= s@.subrange(start as int + 1, n as int));
        }
        start += 1;
    }
    proof {
        let cur = s@.subrange(start as int, n as int);
        if start < n {
            assert(!is_space(cur[0]));
        }
        assert(trim_front(s@) == s@.subrange(start as int, n as int));
    }
    let mut end: usize = n;
    while end > start && char_is_space(s.get_char(end - 1))
        invariant
            n == s@.len(),
            start <= end <= n,
            trim_front(s@) == s@.subrange(start as int, n as int),
            trim_back(s@.subrange(start as int, n as int))
                == trim_back(s@.subrange(start as int, end as int)),
        decreases end,
    {
        proof {
            let cur = s@.subrange(start as int, end as int);
            assert(cur.last() == s@[end - 1]);
            assert(cur.drop_last() =~= s@.subrange(start as int, end as int - 1));
        }
        end -= 1;
    }
    proof {
        let cur = s@.subrange(start as int, end as int);
        if end > start {
            assert(cur.last() == s@[end - 1]);
            assert(!is_space(cur.last()));
        }
        assert(trim_spec(s@) == s@.subrange(start as int, end as int));
    }
    s.substring_char(start, end)
}

/// Split a document into its lines, each a slice of `contents`.
pub fn split_lines<'a>(contents: &'a str) -> (lines: Vec<&'a str>)
    ensures
        views_of(lines@) == lines_of(contents@),
{
    let n = contents.unicode_len();
    let mut lines: Vec<&'a str> = Vec::new();
    let mut pos: usize = 0;
    proof {
        assert(contents@.subrange(0, n as int) =~= contents@);
        assert(views_of(lines@) =~= Seq::<Seq<char>>::empty());
        assert(lines_of(contents@) =~= views_of(lines@) + lines_of(contents@));
    }
    while pos < n
        invariant
            n == contents@.len(),
            pos <= n,
            lines_of(contents@) == views_of(lines@)
                + lines_of(contents@.subrange(pos as int, n as int)),
        decreases n - pos,
    {
        let mut j: usize = pos;
        while j < n && contents.get_char(j) != '\n'
            invariant
                n == contents@.len(),
                pos <= j <= n,
                forall|t: int| pos <= t < j ==> contents@[t] != '\n',
            decreases n - j,
        {
            j += 1;
        }
        let ghost suffix = contents@.subrange(pos as int, n as int);
        let ghost prev = lines@;
        proof {
            assert forall|t: int| 0 <= t < j - pos implies suffix[t] != '\n' by {
                assert(suffix[t] == contents@[pos + t]);
            }
            if j < n {
                assert(suffix[j - pos] == contents@[j as int]);
            }
            lemma_nl_index_unique(suffix, j - pos);
        }
        if j < n {
            let line_end: usize = if j > pos && contents.get_char(j - 1) == '\r' {
                j - 1
            } else {
                j
            };
            let line = contents.substring_char(pos, line_end);
            lines.push(line);
            proof {
                let head = suffix.subrange(0, j - pos);
                assert(head =~= contents@.subrange(pos as int, j as int));
                if j > pos && contents@[j - 1] == '\r' {
                    assert(head.last() == suffix[j - pos - 1]);
                    assert(head.drop_last() =~= contents@.subrange(pos as int, j - 1));
                    assert(strip_cr(head) == line@);
                } else {
                    if head.len() > 0 {
                        assert(head.last() == contents@[j - 1]);
                    }
                    assert(strip_cr(head) == line@);
                }
                let next = contents@.subrange(j + 1, n as int);
                assert(suffix.subrange(j - pos + 1, suffix.len() as int) =~= next);
                assert(lines_of(suffix) == seq![line@] + lines_of(next));
                assert(views_of(lines@) =~= views_of(prev) + seq![line@]);
                assert((views_of(prev) + seq![line@]) + lines_of(next) =~= views_of(prev)
                    + (seq![line@] + lines_of(next)));
            }
            pos = j + 1;
        } else {
            let line = contents.substring_char(pos, n);
            lines.push(line);
            proof {
                assert(line@ == suffix);
                assert(lines_of(suffix) == seq![suffix]);
                assert(views_of(lines@) =~= views_of(prev) + seq![line@]);
                assert(contents@.subrange(n as int, n as int) =~= Seq::<char>::empty());
                assert((views_of(prev) + seq![line@])
                    + lines_of(contents@.subrange(n as int, n as int)) =~= views_of(prev)
                    + (seq![line@] + lines_of(contents@.subrange(n as int, n as int))));
                assert(seq![line@] + lines_of(contents@.subrange(n as int, n as int))
                    =~= lines_of(suffix));
            }
            pos = n;
        }
    }
    proof {
        assert(contents@.subrange(n as int, n as int) =~= Seq::<char>::empty());
        assert(views_of(lines@) + lines_of(contents@.subrange(pos as int, n as int))
            =~= views_of(lines@));
    }
    lines
}

/// Return the lines of `contents` that contain `query` as a substring,
/// trimmed of surrounding whitespace, in document order.
pub fn search<'a>(query: &str, contents: &'a str) -> (results: Vec<&'a str>)
    ensures
        views_of(results@) == search_spec(query@, contents@),
{
    let lines = split_lines(contents);
    let ghost lv = views_of(lines@);
    let mut results: Vec<&'a str> = Vec::new();
    let mut idx: usize = 0;
    proof {
        assert(lv.take(0) =~= Seq::<Seq<char>>::empty());
        assert(views_of(results@) =~= Seq::<Seq<char>>::empty());
    }
    while idx < lines.len()
        invariant
            lv == views_of(lines@),
            lv == lines_of(contents@),
            idx <= lines.len(),
            views_of(results@) == matching_lines(query@, lv.take(idx as int)),
        decreases lines.len() - idx,
    {
        let line = lines[idx];
        let ghost prev = results@;
        if contains_substr(line, query) {
            results.push(trim_str(line));
            proof {
                assert(views_of(results@) =~= views_of(prev).push(trim_spec(line@)));
            }
        }
        proof {
            assert(lv.take(idx + 1).drop_last() =~= lv.take(idx as int));
            assert(lv.take(idx + 1).last() == line@);
        }
        idx += 1;
    }
    proof {
        assert(lv.take(lines@.len() as int) =~= lv);
    }
    results
}

/// The query and file name that drive one search run, taken from a raw
/// argument list.
pub struct Config {
    pub query: String,
    pub filename: String,
}

impl Config {
    /// Build a `Config` from raw argument tokens: token 0 is the program
    /// name, token 1 the query, token 2 the file name; extra tokens are
    /// ignored. Fails exactly when fewer than 3 tokens are supplied.
    pub fn new(args: &[String]) -> (result: Result<Config, &'static str>)
        ensures
            args@.len() >= 3 ==> (result matches Ok(config) && config.query@ == args@[1]@
                && config.filename@ == args@[2]@),
            args@.len() < 3 ==> (result matches Err(message) && message@
                == "Not enough arguments"@),
    {
        if args.len() < 3 {
            return Err("Not enough arguments");
        }
        let query = args[1].clone();
        let filename = args[2].clone();
        Ok(Config { query, filename })
    }
}

} // verus!
