//! The track-listing grammar: from an entry's free text to search queries.
//!
//! A listing line reads `<index> <artist> -- <title> (<year>)`. Every line of
//! the text is held against that shape on its own; a line that does not fit
//! is passed over, so every text has a listing, possibly an empty one.

use vstd::prelude::*;
use vstd::string::*;

verus! {

/// An ASCII decimal digit.
pub open spec fn is_digit(c: char) -> bool {
    '0' <= c && c <= '9'
}

/// A white-space character (the Unicode property `White_Space`).
pub open spec fn is_space(c: char) -> bool {
    ||| c == ' '
    ||| ('\t' <= c && c <= '\r')
    ||| c == '\u{85}'
    ||| c == '\u{a0}'
    ||| c == '\u{1680}'
    ||| ('\u{2000}' <= c && c <= '\u{200a}')
    ||| c == '\u{2028}'
    ||| c == '\u{2029}'
    ||| c == '\u{202f}'
    ||| c == '\u{205f}'
    ||| c == '\u{3000}'
}

/// Where the run of digits that starts at `i` ends.
pub open spec fn digits_end(s: Seq<char>, i: int) -> int
    decreases s.len() - i,
{
    if 0 <= i < s.len() && is_digit(s[i]) {
        digits_end(s, i + 1)
    } else {
        i
    }
}

/// Where the run of white space that starts at `i` ends.
pub open spec fn spaces_end(s: Seq<char>, i: int) -> int
    decreases s.len() - i,
{
    if 0 <= i < s.len() && is_space(s[i]) {
        spaces_end(s, i + 1)
    } else {
        i
    }
}

/// Where the run of white space that ends just before `j` starts.
pub open spec fn spaces_start(s: Seq<char>, j: int) -> int
    decreases j,
{
    if 0 < j <= s.len() && is_space(s[j - 1]) {
        spaces_start(s, j - 1)
    } else {
        j
    }
}

/// The delimiter `" -- "` stands at position `p`.
pub open spec fn delimiter_at(s: Seq<char>, p: int) -> bool {
    &&& 0 <= p
    &&& p + 4 <= s.len()
    &&& s[p] == ' '
    &&& s[p + 1] == '-'
    &&& s[p + 2] == '-'
    &&& s[p + 3] == ' '
}

/// The first position at or after `p` where the delimiter stands, or the
/// length of `s` where there is none.
pub open spec fn delimiter_from(s: Seq<char>, p: int) -> int
    decreases s.len() - p,
{
    if p < 0 || p >= s.len() {
        s.len() as int
    } else if delimiter_at(s, p) {
        p
    } else {
        delimiter_from(s, p + 1)
    }
}

/// The line ends in a four-digit year in round brackets.
pub open spec fn has_year_suffix(s: Seq<char>) -> bool {
    &&& s.len() >= 6
    &&& s[s.len() - 6] == '('
    &&& is_digit(s[s.len() - 5])
    &&& is_digit(s[s.len() - 4])
    &&& is_digit(s[s.len() - 3])
    &&& is_digit(s[s.len() - 2])
    &&& s[s.len() - 1] == ')'
}

/// Where the first line break at or after `i` stands, or the length of `s`.
pub open spec fn line_break_from(s: Seq<char>, i: int) -> int
    decreases s.len() - i,
{
    if 0 <= i < s.len() && s[i] != '\n' {
        line_break_from(s, i + 1)
    } else {
        i
    }
}

/// What a query is: the two fields of a listing line.
pub struct QueryView {
    pub artist: Seq<char>,
    pub title: Seq<char>,
}

/// One line of a track listing: who plays, and what.
#[derive(Clone, Debug, PartialEq, Eq)]
pub struct TrackQuery {
    pub artist: String,
    pub title: String,
}

impl View for TrackQuery {
    type V = QueryView;

    open spec fn view(&self) -> QueryView {
        QueryView { artist: self.artist@, title: self.title@ }
    }
}

/// The text a query is searched by: artist, one space, title.
pub open spec fn search_text_of(q: QueryView) -> Seq<char> {
    q.artist + seq![' '] + q.title
}

impl TrackQuery {
    /// The text this query is searched by, with nothing normalised.
    pub fn search_text(&self) -> (text: String)
        ensures
            text@ == search_text_of(self@),
    {
        proof {
            reveal_strlit(" ");
            assert(" "@ =~= seq![' ']);
        }
        self.artist.clone().concat(" ").concat(self.title.as_str())
    }
}

/// Where the title that starts at `title_start` ends: where the white space
/// in front of the year begins, but behind one character at least.
pub open spec fn title_end(s: Seq<char>, title_start: int) -> int {
    let gap_start = spaces_start(s, s.len() - 6);
    if gap_start > title_start {
        gap_start
    } else {
        title_start + 1
    }
}

/// The fields of a line whose artist starts at `artist_start` and ends at
/// `artist_end`, where the delimiter is to stand, if the rest of the line
/// leaves room for a title and the white space in front of the year.
pub open spec fn fields_at(s: Seq<char>, artist_start: int, artist_end: int) -> Option<QueryView> {
    if artist_end < s.len() && title_end(s, artist_end + 4) < s.len() - 6 {
        Some(
            QueryView {
                artist: s.subrange(artist_start, artist_end),
                title: s.subrange(artist_end + 4, title_end(s, artist_end + 4)),
            },
        )
    } else {
        None
    }
}

/// The query that one line holds, if it is a listing line.
///
/// The index is the leading digits and is dropped. The white space behind
/// it is taken as far as it goes; the artist starts there and ends at the
/// first delimiter that leaves it a character. The title starts behind that
/// delimiter and ends before the white space in front of the year, keeping
/// one character at least.
///
/// One kind of line fits the shape only if the white space behind the index
/// is cut short: the line in which that white space runs into the delimiter
/// itself. There the delimiter's own space ends the run, and the artist is
/// the one white-space character in front of it.
pub open spec fn line_query(s: Seq<char>) -> Option<QueryView> {
    let index_end = digits_end(s, 0);
    let run_end = spaces_end(s, index_end);
    if index_end > 0 && run_end > index_end && has_year_suffix(s) {
        let plain = fields_at(s, run_end, delimiter_from(s, run_end + 1));
        if plain is Some {
            plain
        } else if run_end - 2 > index_end && delimiter_at(s, run_end - 1) {
            fields_at(s, run_end - 2, run_end - 1)
        } else {
            None
        }
    } else {
        None
    }
}

/// The queries of one line: one or none.
pub open spec fn line_listing(s: Seq<char>) -> Seq<QueryView> {
    match line_query(s) {
        Some(q) => seq![q],
        None => Seq::<QueryView>::empty(),
    }
}

/// The listing of a text: the queries of its lines, in the lines' order.
/// Lines are parted by `'\n'`.
pub open spec fn listing(text: Seq<char>) -> Seq<QueryView>
    decreases text.len(),
{
    let end = line_break_from(text, 0);
    if 0 <= end < text.len() {
        line_listing(text.subrange(0, end)) + listing(text.subrange(end + 1, text.len() as int))
    } else {
        line_listing(text)
    }
}

/// The views of a sequence of queries.
pub open spec fn views(queries: Seq<TrackQuery>) -> Seq<QueryView> {
    queries.map_values(|q: TrackQuery| q@)
}

fn digit(c: char) -> (b: bool)
    ensures
        b == is_digit(c),
{
    '0' <= c && c <= '9'
}

fn space(c: char) -> (b: bool)
    ensures
        b == is_space(c),
{
    c == ' ' || ('\t' <= c && c <= '\r') || c == '\u{85}' || c == '\u{a0}' || c == '\u{1680}' || (
    '\u{2000}' <= c && c <= '\u{200a}') || c == '\u{2028}' || c == '\u{2029}' || c == '\u{202f}'
        || c == '\u{205f}' || c == '\u{3000}'
}

/// The characters of a text, one by one.
fn chars_of(text: &str) -> (chars: Vec<char>)
    ensures
        chars@ == text@,
{
    let mut chars: Vec<char> = Vec::new();
    for c in it: text.chars()
        invariant
            it.seq() == text@,
            chars@ == it.seq().take(it.index()),
    {
        chars.push(c);
    }
    chars
}

fn scan_digits(chars: &Vec<char>, lo: usize, hi: usize, from: usize) -> (end: usize)
    requires
        lo <= hi <= chars.len(),
        from <= hi - lo,
    ensures
        end == digits_end(chars@.subrange(lo as int, hi as int), from as int),
        from <= end <= hi - lo,
{
    let ghost s = chars@.subrange(lo as int, hi as int);
    let mut k: usize = from;
    while k < hi - lo && digit(chars[lo + k])
        invariant
            lo <= hi <= chars.len(),
            from <= k <= hi - lo,
            s == chars@.subrange(lo as int, hi as int),
            digits_end(s, k as int) == digits_end(s, from as int),
        decreases hi - lo - k,
    {
        k += 1;
    }
    k
}

fn scan_spaces(chars: &Vec<char>, lo: usize, hi: usize, from: usize) -> (end: usize)
    requires
        lo <= hi <= chars.len(),
        from <= hi - lo,
    ensures
        end == spaces_end(chars@.subrange(lo as int, hi as int), from as int),
        from <= end <= hi - lo,
{
    let ghost s = chars@.subrange(lo as int, hi as int);
    let mut k: usize = from;
    while k < hi - lo && space(chars[lo + k])
        invariant
            lo <= hi <= chars.len(),
            from <= k <= hi - lo,
            s == chars@.subrange(lo as int, hi as int),
            spaces_end(s, k as int) == spaces_end(s, from as int),
        decreases hi - lo - k,
    {
        k += 1;
    }
    k
}

fn scan_spaces_back(chars: &Vec<char>, lo: usize, hi: usize, upto: usize) -> (start: usize)
    requires
        lo <= hi <= chars.len(),
        upto <= hi - lo,
    ensures
        start == spaces_start(chars@.subrange(lo as int, hi as int), upto as int),
        start <= upto,
{
    let ghost s = chars@.subrange(lo as int, hi as int);
    let mut j: usize = upto;
    while j > 0 && space(chars[lo + j - 1])
        invariant
            lo <= hi <= chars.len(),
            j <= upto <= hi - lo,
            s == chars@.subrange(lo as int, hi as int),
            spaces_start(s, j as int) == spaces_start(s, upto as int),
        decreases j,
    {
        j -= 1;
    }
    j
}

fn find_delimiter(chars: &Vec<char>, lo: usize, hi: usize, from: usize) -> (p: usize)
    requires
        lo <= hi <= chars.len(),
        from <= hi - lo,
    ensures
        p == delimiter_from(chars@.subrange(lo as int, hi as int), from as int),
        from <= p <= hi - lo,
{
    let ghost s = chars@.subrange(lo as int, hi as int);
    let n: usize = hi - lo;
    let mut p: usize = from;
    while p < n
        invariant
            lo <= hi <= chars.len(),
            n == hi - lo,
            from <= p <= n,
            s == chars@.subrange(lo as int, hi as int),
            delimiter_from(s, p as int) == delimiter_from(s, from as int),
        decreases n - p,
    {
        if n - p >= 4 && chars[lo + p] == ' ' && chars[lo + p + 1] == '-' && chars[lo + p + 2]
            == '-' && chars[lo + p + 3] == ' ' {
            return p;
        }
        p += 1;
    }
    n
}

fn ends_in_year(chars: &Vec<char>, lo: usize, hi: usize) -> (b: bool)
    requires
        lo <= hi <= chars.len(),
    ensures
        b == has_year_suffix(chars@.subrange(lo as int, hi as int)),
{
    hi - lo >= 6 && chars[hi - 6] == '(' && digit(chars[hi - 5]) && digit(chars[hi - 4]) && digit(
        chars[hi - 3],
    ) && digit(chars[hi - 2]) && chars[hi - 1] == ')'
}

fn find_line_break(chars: &Vec<char>, lo: usize) -> (hi: usize)
    requires
        lo <= chars.len(),
    ensures
        lo <= hi <= chars.len(),
        hi - lo == line_break_from(chars@.subrange(lo as int, chars.len() as int), 0),
{
    let ghost s = chars@.subrange(lo as int, chars.len() as int);
    let mut k: usize = lo;
    while k < chars.len() && chars[k] != '\n'
        invariant
            lo <= k <= chars.len(),
            s == chars@.subrange(lo as int, chars.len() as int),
            line_break_from(s, k - lo) == line_break_from(s, 0),
        decreases chars.len() - k,
    {
        k += 1;
    }
    k
}

/// The fields of the line that `chars` holds from `lo` up to `hi`, for an
/// artist from `artist_start` up to `artist_end`.
fn read_fields(
    text: &str,
    chars: &Vec<char>,
    lo: usize,
    hi: usize,
    artist_start: usize,
    artist_end: usize,
) -> (query: Option<TrackQuery>)
    requires
        chars@ == text@,
        lo <= hi <= chars.len(),
        hi - lo >= 6,
        artist_start <= artist_end <= hi - lo,
    ensures
        match query {
            Some(q) => fields_at(
                chars@.subrange(lo as int, hi as int),
                artist_start as int,
                artist_end as int,
            ) == Some(q@),
            None => fields_at(
                chars@.subrange(lo as int, hi as int),
                artist_start as int,
                artist_end as int,
            ) is None,
        },
{
    let ghost s = chars@.subrange(lo as int, hi as int);
    let n: usize = hi - lo;
    let year_start: usize = n - 6;
    if artist_end >= n || n - artist_end <= 10 {
        return None;
    }
    let title_start: usize = artist_end + 4;
    let gap_start = scan_spaces_back(chars, lo, hi, year_start);
    let title_end: usize = if gap_start > title_start {
        gap_start
    } else {
        title_start + 1
    };
    if title_end >= year_start {
        return None;
    }
    let artist = text.substring_char(lo + artist_start, lo + artist_end).to_owned();
    let title = text.substring_char(lo + title_start, lo + title_end).to_owned();
    proof {
        assert(artist@ =~= s.subrange(artist_start as int, artist_end as int));
        assert(title@ =~= s.subrange(title_start as int, title_end as int));
    }
    Some(TrackQuery { artist, title })
}

/// The query of the line that `chars` holds from `lo` up to `hi`.
fn parse_line(text: &str, chars: &Vec<char>, lo: usize, hi: usize) -> (query: Option<TrackQuery>)
    requires
        chars@ == text@,
        lo <= hi <= chars.len(),
    ensures
        match query {
            Some(q) => line_query(chars@.subrange(lo as int, hi as int)) == Some(q@),
            None => line_query(chars@.subrange(lo as int, hi as int)) is None,
        },
{
    let ghost s = chars@.subrange(lo as int, hi as int);
    let n: usize = hi - lo;
    let index_end = scan_digits(chars, lo, hi, 0);
    let run_end = scan_spaces(chars, lo, hi, index_end);
    if index_end == 0 || run_end == index_end || !ends_in_year(chars, lo, hi) {
        return None;
    }
    if run_end < n {
        let artist_end = find_delimiter(chars, lo, hi, run_end + 1);
        let plain = read_fields(text, chars, lo, hi, run_end, artist_end);
        if plain.is_some() {
            return plain;
        }
    }
    if run_end - index_end > 2 && n - run_end >= 3 && chars[lo + run_end - 1] == ' ' && chars[lo
        + run_end] == '-' && chars[lo + run_end + 1] == '-' && chars[lo + run_end + 2] == ' ' {
        read_fields(text, chars, lo, hi, run_end - 2, run_end - 1)
    } else {
        None
    }
}

/// Reads the track listing out of an entry's text.
///
/// Never fails: a text without listing lines has the empty listing.
pub fn parse_tracks(text: &str) -> (queries: Vec<TrackQuery>)
    ensures
        views(queries@) == listing(text@),
{
    let chars = chars_of(text);
    let n: usize = chars.len();
    let mut queries: Vec<TrackQuery> = Vec::new();
    let mut lo: usize = 0;
    let mut done = false;
    proof {
        assert(text@.subrange(0, n as int) =~= text@);
        assert(views(queries@) =~= Seq::<QueryView>::empty());
        assert(views(queries@) + listing(text@) =~= listing(text@));
    }
    while !done
        invariant
            chars@ == text@,
            n == chars.len(),
            lo <= n,
            done ==> views(queries@) == listing(text@),
            !done ==> views(queries@) + listing(text@.subrange(lo as int, n as int)) == listing(
                text@,
            ),
        decreases n - lo + if done { 0int } else { 1int },
    {
        let ghost rest = text@.subrange(lo as int, n as int);
        let ghost before = views(queries@);
        let hi = find_line_break(&chars, lo);
        let found = parse_line(text, &chars, lo, hi);
        proof {
            assert(rest.subrange(0, hi - lo) =~= chars@.subrange(lo as int, hi as int));
            if hi < n {
                assert(rest.subrange(hi - lo + 1, rest.len() as int) =~= text@.subrange(
                    hi + 1,
                    n as int,
                ));
            } else {
                assert(rest =~= chars@.subrange(lo as int, hi as int));
            }
        }
        match found {
            Some(q) => {
                queries.push(q);
                proof {
                    assert(views(queries@) =~= before + line_listing(
                        chars@.subrange(lo as int, hi as int),
                    ));
                }
            },
            None => {
                proof {
                    assert(views(queries@) =~= before + line_listing(
                        chars@.subrange(lo as int, hi as int),
                    ));
                }
            },
        }
        if hi < n {
            proof {
                let line = line_listing(chars@.subrange(lo as int, hi as int));
                let tail = listing(text@.subrange(hi + 1, n as int));
                assert(listing(rest) == line + tail);
                assert((before + line) + tail =~= before + (line + tail));
            }
            lo = hi + 1;
        } else {
            done = true;
        }
    }
    queries
}

/// A line that ends in no bracketed year holds no query.
pub proof fn line_without_year_has_no_query(s: Seq<char>)
    requires
        !has_year_suffix(s),
    ensures
        line_query(s) is None,
{
}

proof fn no_delimiter_from(s: Seq<char>, p: int)
    requires
        forall|q: int| !delimiter_at(s, q),
    ensures
        delimiter_from(s, p) == s.len(),
    decreases s.len() - p,
{
    if 0 <= p < s.len() {
        no_delimiter_from(s, p + 1);
    }
}

/// A line in which the delimiter stands nowhere holds no query.
pub proof fn line_without_delimiter_has_no_query(s: Seq<char>)
    requires
        forall|q: int| !delimiter_at(s, q),
    ensures
        line_query(s) is None,
{
    no_delimiter_from(s, spaces_end(s, digits_end(s, 0)) + 1);
    assert(!delimiter_at(s, spaces_end(s, digits_end(s, 0)) - 1));
}

/// The empty text has the empty listing.
pub proof fn empty_text_has_empty_listing()
    ensures
        listing(Seq::<char>::empty()) == Seq::<QueryView>::empty(),
{
    let s = Seq::<char>::empty();
    assert(digits_end(s, 0) == 0);
}

proof fn line_break_is_first(s: Seq<char>, i: int)
    requires
        0 <= i <= s.len(),
    ensures
        i <= line_break_from(s, i) <= s.len(),
        forall|k: int| i <= k < line_break_from(s, i) ==> s[k] != '\n',
        line_break_from(s, i) < s.len() ==> s[line_break_from(s, i)] == '\n',
    decreases s.len() - i,
{
    if i < s.len() && s[i] != '\n' {
        line_break_is_first(s, i + 1);
    }
}

proof fn first_line_break_is(s: Seq<char>, i: int, r: int)
    requires
        0 <= i <= r <= s.len(),
        forall|k: int| i <= k < r ==> s[k] != '\n',
        r < s.len() ==> s[r] == '\n',
    ensures
        line_break_from(s, i) == r,
    decreases r - i,
{
    if i < r {
        first_line_break_is(s, i + 1, r);
    }
}

/// A text without a line break is one line.
pub proof fn listing_of_one_line(line: Seq<char>)
    requires
        forall|k: int| 0 <= k < line.len() ==> line[k] != '\n',
    ensures
        listing(line) == line_listing(line),
{
    first_line_break_is(line, 0, line.len() as int);
}

/// The listing keeps the order of the text: where two texts are joined by a
/// line break, the queries of the first come first and those of the second
/// follow, none lost and none added.
pub proof fn listing_of_joined_texts(a: Seq<char>, b: Seq<char>)
    ensures
        listing(a + seq!['\n'] + b) == listing(a) + listing(b),
    decreases a.len(),
{
    let t = a + seq!['\n'] + b;
    let e = line_break_from(a, 0);
    line_break_is_first(a, 0);
    first_line_break_is(t, 0, e);
    assert(t.subrange(0, e) =~= a.subrange(0, e));
    if e < a.len() {
        let a_rest = a.subrange(e + 1, a.len() as int);
        assert(t.subrange(e + 1, t.len() as int) =~= a_rest + seq!['\n'] + b);
        listing_of_joined_texts(a_rest, b);
        assert((line_listing(a.subrange(0, e)) + listing(a_rest)) + listing(b) =~= line_listing(
            a.subrange(0, e),
        ) + (listing(a_rest) + listing(b)));
    } else {
        assert(a.subrange(0, e) =~= a);
        assert(t.subrange(e + 1, t.len() as int) =~= b);
    }
}

/// Swapping two lines swaps their queries.
pub proof fn listing_of_two_lines(first: Seq<char>, second: Seq<char>)
    requires
        forall|k: int| 0 <= k < first.len() ==> first[k] != '\n',
        forall|k: int| 0 <= k < second.len() ==> second[k] != '\n',
    ensures
        listing(first + seq!['\n'] + second) == line_listing(first) + line_listing(second),
        listing(second + seq!['\n'] + first) == line_listing(second) + line_listing(first),
{
    listing_of_one_line(first);
    listing_of_one_line(second);
    listing_of_joined_texts(first, second);
    listing_of_joined_texts(second, first);
}

/// The shape of a listing line, with its parts laid out: an index of
/// digits up to `index_end`, white space up to `artist_start`, an artist up
/// to `artist_end`, the delimiter, a title up to `title_end`, white space,
/// and the year in brackets up to the line's end. Index, both runs of white
/// space, artist and title hold a character each at least.
pub open spec fn fits_listing_line(
    s: Seq<char>,
    index_end: int,
    artist_start: int,
    artist_end: int,
    title_end: int,
) -> bool {
    &&& 0 < index_end < artist_start < artist_end
    &&& forall|k: int| 0 <= k < index_end ==> is_digit(#[trigger] s[k])
    &&& forall|k: int| index_end <= k < artist_start ==> is_space(#[trigger] s[k])
    &&& delimiter_at(s, artist_end)
    &&& artist_end + 4 < title_end < s.len() - 6
    &&& forall|k: int| title_end <= k < s.len() - 6 ==> is_space(#[trigger] s[k])
    &&& has_year_suffix(s)
}

proof fn digits_run(s: Seq<char>, i: int)
    requires
        0 <= i <= s.len(),
    ensures
        i <= digits_end(s, i) <= s.len(),
        forall|k: int| i <= k < digits_end(s, i) ==> is_digit(#[trigger] s[k]),
        digits_end(s, i) < s.len() ==> !is_digit(s[digits_end(s, i)]),
    decreases s.len() - i,
{
    if i < s.len() && is_digit(s[i]) {
        digits_run(s, i + 1);
    }
}

proof fn spaces_run(s: Seq<char>, i: int)
    requires
        0 <= i <= s.len(),
    ensures
        i <= spaces_end(s, i) <= s.len(),
        forall|k: int| i <= k < spaces_end(s, i) ==> is_space(#[trigger] s[k]),
        spaces_end(s, i) < s.len() ==> !is_space(s[spaces_end(s, i)]),
    decreases s.len() - i,
{
    if i < s.len() && is_space(s[i]) {
        spaces_run(s, i + 1);
    }
}

proof fn spaces_run_back(s: Seq<char>, j: int)
    requires
        0 <= j <= s.len(),
    ensures
        0 <= spaces_start(s, j) <= j,
        forall|k: int| spaces_start(s, j) <= k < j ==> is_space(#[trigger] s[k]),
        spaces_start(s, j) > 0 ==> !is_space(s[spaces_start(s, j) - 1]),
    decreases j,
{
    if 0 < j && is_space(s[j - 1]) {
        spaces_run_back(s, j - 1);
    }
}

proof fn delimiter_is_first(s: Seq<char>, p: int)
    requires
        0 <= p,
    ensures
        delimiter_from(s, p) <= s.len(),
        p <= s.len() ==> p <= delimiter_from(s, p),
        forall|k: int| p <= k < delimiter_from(s, p) ==> !delimiter_at(s, k),
        delimiter_from(s, p) < s.len() ==> delimiter_at(s, delimiter_from(s, p)),
    decreases s.len() - p,
{
    if p < s.len() && !delimiter_at(s, p) {
        delimiter_is_first(s, p + 1);
    }
}

/// Every line of the shape holds a query: no listing line is passed over.
pub proof fn line_of_the_shape_has_a_query(
    s: Seq<char>,
    index_end: int,
    artist_start: int,
    artist_end: int,
    title_end: int,
)
    requires
        fits_listing_line(s, index_end, artist_start, artist_end, title_end),
    ensures
        line_query(s) is Some,
{
    let digits = digits_end(s, 0);
    digits_run(s, 0);
    assert(digits == index_end) by {
        if digits < index_end {
            assert(is_digit(s[digits]));
        }
        if index_end < digits {
            assert(is_digit(s[index_end]) && is_space(s[index_end]));
        }
    }
    let run_end = spaces_end(s, digits);
    spaces_run(s, digits);
    assert(artist_start <= run_end) by {
        if run_end < artist_start {
            assert(is_space(s[run_end]));
        }
    }
    let year_start = s.len() - 6;
    let gap_start = spaces_start(s, year_start);
    spaces_run_back(s, year_start);
    assert(gap_start <= title_end) by {
        if title_end < gap_start {
            assert(is_space(s[gap_start - 1]));
        }
    }
    if artist_end > run_end {
        delimiter_is_first(s, run_end + 1);
        assert(delimiter_from(s, run_end + 1) <= artist_end);
    } else {
        assert(is_space(s[artist_end]));
        assert(!is_space(s[artist_end + 1]));
        assert(artist_end + 1 >= run_end) by {
            if artist_end + 1 < run_end {
                assert(is_space(s[artist_end + 1]));
            }
        }
        assert(artist_end == run_end - 1);
    }
}

/// Every query comes from a line of the shape, and says what the line
/// says: its artist and title are the line's, the artist holds no
/// delimiter behind its first character, and the title ends where the
/// white space in front of the year begins, unless it is one character.
pub proof fn query_comes_from_line_of_the_shape(s: Seq<char>)
    requires
        line_query(s) is Some,
    ensures
        exists|index_end: int, artist_start: int, artist_end: int, title_end: int|
            {
                &&& #[trigger] fits_listing_line(s, index_end, artist_start, artist_end, title_end)
                &&& line_query(s) == Some(
                    QueryView {
                        artist: s.subrange(artist_start, artist_end),
                        title: s.subrange(artist_end + 4, title_end),
                    },
                )
                &&& forall|k: int| artist_start < k < artist_end ==> !delimiter_at(s, k)
                &&& title_end == artist_end + 5 || !is_space(s[title_end - 1])
            },
{
    let index_end = digits_end(s, 0);
    let run_end = spaces_end(s, index_end);
    let year_start = s.len() - 6;
    digits_run(s, 0);
    spaces_run(s, index_end);
    spaces_run_back(s, year_start);
    delimiter_is_first(s, run_end + 1);
    let first = delimiter_from(s, run_end + 1);
    if fields_at(s, run_end, first) is Some {
        assert(fits_listing_line(s, index_end, run_end, first, title_end(s, first + 4)));
    } else {
        assert(fits_listing_line(
            s,
            index_end,
            run_end - 2,
            run_end - 1,
            title_end(s, run_end + 3),
        ));
    }
}

} // verus!
