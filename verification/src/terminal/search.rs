//! Searching the terminal's text for a literal.
use vstd::prelude::*;
use crate::memory::{capped, deque_capacity, more_items_take_more, room, vec_capacity};
use std::collections::VecDeque;
use crate::terminal::screen::{TerminalScreen, Token};
use crate::terminal::snapshot::{GridSize, SearchBuffer};
use crate::text::{chars_of, is_control, is_control_char};
use crate::time::Instant;
use vstd::utf8::encode_utf8;

verus! {

/// The longest search query, in characters.
pub const MAX_SEARCH_QUERY_SCALARS: usize = 256;

/// The longest search query, in bytes.
pub const MAX_SEARCH_QUERY_BYTES: usize = 1_024;

/// The most matches that one step may find.
pub const MAX_SEARCH_MATCHES: usize = 10_000;

/// The most rows that one step may read.
pub const MAX_SEARCH_SLICE_ROWS: usize = 256;

/// The longest soft-wrapped line that a regular expression is matched on, in bytes.
pub const MAX_REGEX_LOGICAL_LINE_BYTES: usize = 65_536;

/// The content that a search runs on. It changes whenever the text may have changed.
#[derive(Clone, Copy, Debug, PartialEq, Eq, Structural)]
pub struct SearchContentId {
    pub content_revision: u64,
    pub columns: u16,
    pub lines: u16,
    pub buffer: SearchBuffer,
}

impl SearchContentId {
    pub fn new(content_revision: u64, grid: GridSize, buffer: SearchBuffer) -> (result:
        SearchContentId)
        ensures
            result == (SearchContentId {
                content_revision,
                columns: grid.columns,
                lines: grid.lines,
                buffer,
            }),
    {
        SearchContentId { content_revision, columns: grid.columns, lines: grid.lines, buffer }
    }
}

/// Where a character stands. Lines of the history are negative.
#[derive(Clone, Copy, Debug, PartialEq, Eq, PartialOrd, Ord, Structural)]
pub struct SearchAnchor {
    pub history_line: i32,
    pub column: u16,
    pub scalar_offset: u8,
}

impl SearchAnchor {
    /// Whether this anchor stands after another: by line, then by column, then by character.
    pub open spec fn is_after(self, other: SearchAnchor) -> bool {
        ||| self.history_line > other.history_line
        ||| self.history_line == other.history_line && self.column > other.column
        ||| self.history_line == other.history_line && self.column == other.column
            && self.scalar_offset > other.scalar_offset
    }

    /// Decides [`SearchAnchor::is_after`].
    pub fn after(self, other: SearchAnchor) -> (result: bool)
        ensures
            result == self.is_after(other),
    {
        self.history_line > other.history_line || (self.history_line == other.history_line && (
        self.column > other.column || (self.column == other.column && self.scalar_offset
            > other.scalar_offset)))
    }
}

/// The first and the last character of a match.
#[derive(Clone, Copy, Debug, PartialEq, Eq, Structural)]
pub struct SearchMatch {
    pub start: SearchAnchor,
    pub end: SearchAnchor,
}

#[derive(Clone, Copy, Debug, PartialEq, Eq, Structural)]
pub enum SearchError {
    EmptyQuery,
    QueryTooLong,
    ControlCharacter,
    StaleContent,
    Allocation,
    InvalidCoordinate,
    InvalidRegex,
    RegexLineTooLong,
}

impl SearchError {
    /// The message shown for the error.
    pub fn message(&self) -> (result: &'static str)
        ensures
            result@ == match *self {
                SearchError::EmptyQuery => "search query is empty"@,
                SearchError::QueryTooLong => "search query exceeds its resource limit"@,
                SearchError::ControlCharacter => "search query contains a control character"@,
                SearchError::StaleContent => "search content changed while scanning"@,
                SearchError::Allocation => "search allocation failed"@,
                SearchError::InvalidCoordinate =>
                    "search coordinate is outside the terminal grid"@,
                SearchError::InvalidRegex => "invalid regular expression"@,
                SearchError::RegexLineTooLong =>
                    "a soft-wrapped logical line exceeds the regex search limit"@,
            },
    {
        match self {
            SearchError::EmptyQuery => "search query is empty",
            SearchError::QueryTooLong => "search query exceeds its resource limit",
            SearchError::ControlCharacter => "search query contains a control character",
            SearchError::StaleContent => "search content changed while scanning",
            SearchError::Allocation => "search allocation failed",
            SearchError::InvalidCoordinate => "search coordinate is outside the terminal grid",
            SearchError::InvalidRegex => "invalid regular expression",
            SearchError::RegexLineTooLong =>
                "a soft-wrapped logical line exceeds the regex search limit",
        }
    }
}

/// Why a query is refused, if it is.
pub open spec fn query_error(query: Seq<char>) -> Option<SearchError> {
    if query.len() == 0 {
        Some(SearchError::EmptyQuery)
    } else if encode_utf8(query).len() > MAX_SEARCH_QUERY_BYTES || query.len()
        > MAX_SEARCH_QUERY_SCALARS {
        Some(SearchError::QueryTooLong)
    } else if exists|i: int| 0 <= i < query.len() && is_control(#[trigger] query[i]) {
        Some(SearchError::ControlCharacter)
    } else {
        None
    }
}

/// The characters of a query that is not refused.
pub fn query_chars(query: &str) -> (result: Result<Vec<char>, SearchError>)
    ensures
        match query_error(query@) {
            Some(error) => result == Err::<Vec<char>, SearchError>(error),
            None => result is Ok && result->Ok_0@ == query@,
        },
{
    if query.is_empty() {
        return Err(SearchError::EmptyQuery);
    }
    if query.as_bytes().len() > MAX_SEARCH_QUERY_BYTES {
        return Err(SearchError::QueryTooLong);
    }
    let chars = chars_of(query);
    if chars.len() > MAX_SEARCH_QUERY_SCALARS {
        return Err(SearchError::QueryTooLong);
    }
    let mut i: usize = 0;
    while i < chars.len()
        invariant
            i <= chars@.len(),
            chars@ == query@,
            query@.len() > 0,
            encode_utf8(query@).len() <= MAX_SEARCH_QUERY_BYTES,
            query@.len() <= MAX_SEARCH_QUERY_SCALARS,
            forall|k: int| 0 <= k < i ==> !is_control(#[trigger] query@[k]),
        decreases chars@.len() - i,
    {
        if is_control_char(chars[i]) {
            assert(is_control(query@[i as int]));
            return Err(SearchError::ControlCharacter);
        }
        i += 1;
    }
    Ok(chars)
}

/// The first `k` characters of `pattern` are the last `k` of `text`.
pub open spec fn overlaps(pattern: Seq<char>, text: Seq<char>, k: int) -> bool {
    &&& 0 <= k <= pattern.len()
    &&& k <= text.len()
    &&& forall|i: int| 0 <= i < k ==> #[trigger] pattern[i] == text[text.len() - k + i]
}

/// `k` is the longest overlap of `pattern` with the end of `text` that is shorter than `below`.
pub open spec fn longest_overlap(pattern: Seq<char>, text: Seq<char>, below: int, k: int) -> bool {
    &&& overlaps(pattern, text, k)
    &&& k < below
    &&& forall|j: int| k < j < below ==> !#[trigger] overlaps(pattern, text, j)
}

/// A query, compiled for a scan that never looks back.
#[derive(Clone, Debug)]
pub struct CompiledLiteral {
    pattern: Vec<char>,
    prefix: Vec<usize>,
}

impl View for CompiledLiteral {
    type V = Seq<char>;

    /// The query.
    closed spec fn view(&self) -> Seq<char> {
        self.pattern@
    }
}

/// The table holds, for each prefix of the pattern, its longest proper border.
pub open spec fn is_border_table(pattern: Seq<char>, table: Seq<usize>, len: int) -> bool {
    forall|i: int|
        0 <= i < len ==> longest_overlap(pattern, pattern.take(i + 1), i + 1, (#[trigger] table[i]) as int)
}

impl CompiledLiteral {
    /// The query is valid and its table is right.
    pub closed spec fn wf(&self) -> bool {
        &&& query_error(self.pattern@) is None
        &&& self.prefix@.len() == self.pattern@.len()
        &&& is_border_table(self.pattern@, self.prefix@, self.pattern@.len() as int)
    }

    pub fn scalar_len(&self) -> (result: usize)
        ensures
            result == self@.len(),
    {
        self.pattern.len()
    }
}

/// If `pattern` overlaps the end of `text` by `k`, its shorter overlaps with `text` are those
/// with its own first `k` characters.
proof fn shorter_overlaps(pattern: Seq<char>, text: Seq<char>, k: int, j: int)
    requires
        overlaps(pattern, text, k),
        0 <= j < k,
    ensures
        overlaps(pattern, text, j) <==> overlaps(pattern, pattern.take(k), j),
{
    let head = pattern.take(k);
    assert forall|i: int| 0 <= i < j implies text[text.len() - j + i] == head[head.len() - j + i]
        && #[trigger] pattern[i] == pattern[i] by {
        assert(pattern[k - j + i] == text[text.len() - k + (k - j + i)]);
    }
}

/// An overlap of `k + 1` with a longer text is an overlap of `k` before its last character.
proof fn overlap_extends(pattern: Seq<char>, text: Seq<char>, c: char, k: int)
    requires
        0 <= k < pattern.len(),
    ensures
        overlaps(pattern, text.push(c), k + 1) <==> overlaps(pattern, text, k) && pattern[k] == c,
{
    let longer = text.push(c);
    if overlaps(pattern, longer, k + 1) {
        assert(pattern[k] == longer[longer.len() - (k + 1) + k]);
        assert forall|i: int| 0 <= i < k implies #[trigger] pattern[i] == text[text.len() - k
            + i] by {
            assert(pattern[i] == longer[longer.len() - (k + 1) + i]);
        }
    }
    if overlaps(pattern, text, k) && pattern[k] == c {
        assert forall|i: int| 0 <= i < k + 1 implies #[trigger] pattern[i] == longer[longer.len()
            - (k + 1) + i] by {
            if i < k {
                assert(pattern[i] == text[text.len() - k + i]);
            }
        }
    }
}

/// Finds the longest overlap with `text.push(c)` from the longest one with `text`.
fn extend_overlap(
    pattern: &Vec<char>,
    prefix: &Vec<usize>,
    start: usize,
    c: char,
    text: Ghost<Seq<char>>,
    below: Ghost<int>,
) -> (result: usize)
    requires
        0 < below@ <= pattern@.len(),
        prefix@.len() >= start,
        is_border_table(pattern@, prefix@, start as int),
        longest_overlap(pattern@, text@, below@, start as int),
    ensures
        longest_overlap(pattern@, text@.push(c), below@ + 1, result as int),
{
    let mut matched: usize = start;
    let limit: usize = pattern.len();
    while matched > 0 && c != pattern[matched]
        invariant
            0 < below@ <= pattern@.len(),
            limit == pattern@.len(),
            matched <= start < below@,
            prefix@.len() >= start,
            is_border_table(pattern@, prefix@, start as int),
            overlaps(pattern@, text@, matched as int),
            forall|j: int|
                matched < j < below@ && #[trigger] overlaps(pattern@, text@, j) ==> pattern@[j] != c,
        decreases matched,
    {
        let next: usize = prefix[matched - 1];
        proof {
            assert(longest_overlap(
                pattern@,
                pattern@.take(matched as int),
                matched as int,
                next as int,
            ));
            shorter_overlaps(pattern@, text@, matched as int, next as int);
            assert forall|j: int|
                next < j < below@ && #[trigger] overlaps(pattern@, text@, j) implies pattern@[j]
                != c by {
                if j < matched {
                    shorter_overlaps(pattern@, text@, matched as int, j);
                }
            }
        }
        matched = next;
    }
    if c == pattern[matched] {
        proof {
            overlap_extends(pattern@, text@, c, matched as int);
            assert forall|j: int| matched + 1 < j < below@ + 1 implies !#[trigger] overlaps(
                pattern@,
                text@.push(c),
                j,
            ) by {
                overlap_extends(pattern@, text@, c, j - 1);
            }
        }
        matched += 1;
    } else {
        proof {
            assert forall|j: int| 0 < j < below@ + 1 implies !#[trigger] overlaps(
                pattern@,
                text@.push(c),
                j,
            ) by {
                overlap_extends(pattern@, text@, c, j - 1);
            }
        }
    }
    matched
}

/// Compiles a query that is not refused.
pub fn compile(query: &str) -> (result: Result<CompiledLiteral, SearchError>)
    ensures
        match query_error(query@) {
            Some(error) => result is Err && result->Err_0 == error,
            None => result is Ok && result->Ok_0@ == query@ && result->Ok_0.wf(),
        },
{
    let pattern = match query_chars(query) {
        Ok(chars) => chars,
        Err(error) => {
            return Err(error);
        },
    };
    let mut prefix: Vec<usize> = Vec::new();
    prefix.push(0);
    let mut index: usize = 1;
    let mut matched: usize = 0;
    proof {
        assert forall|j: int| 0 < j < 1 implies !#[trigger] overlaps(
            pattern@,
            pattern@.take(1),
            j,
        ) by {}
        assert(longest_overlap(pattern@, pattern@.take(1), 1, 0));
    }
    while index < pattern.len()
        invariant
            1 <= index <= pattern@.len(),
            prefix@.len() == index,
            is_border_table(pattern@, prefix@, index as int),
            matched == prefix@[index - 1],
        decreases pattern@.len() - index,
    {
        assert(longest_overlap(
            pattern@,
            pattern@.take(index as int),
            index as int,
            matched as int,
        ));
        matched =
        extend_overlap(
            &pattern,
            &prefix,
            matched,
            pattern[index],
            Ghost(pattern@.take(index as int)),
            Ghost(index as int),
        );
        assert(pattern@.take(index as int).push(pattern@[index as int]) =~= pattern@.take(
            index + 1,
        ));
        prefix.push(matched);
        index += 1;
    }
    Ok(CompiledLiteral { pattern, prefix })
}

/// The characters since the last end of a line.
pub open spec fn line_chars(tokens: Seq<Token>) -> Seq<char>
    decreases tokens.len(),
{
    if tokens.len() == 0 {
        Seq::empty()
    } else {
        match tokens.last() {
            Token::Break => Seq::empty(),
            Token::Scalar(_, c) => line_chars(tokens.drop_last()).push(c),
        }
    }
}

/// Where the characters since the last end of a line stand.
pub open spec fn line_anchors(tokens: Seq<Token>) -> Seq<SearchAnchor>
    decreases tokens.len(),
{
    if tokens.len() == 0 {
        Seq::empty()
    } else {
        match tokens.last() {
            Token::Break => Seq::empty(),
            Token::Scalar(anchor, _) => line_anchors(tokens.drop_last()).push(anchor),
        }
    }
}

/// The occurrences of a literal, overlapping ones too, in the order in which they end. None
/// crosses the end of a line.
pub open spec fn occurrences(pattern: Seq<char>, tokens: Seq<Token>) -> Seq<SearchMatch>
    decreases tokens.len(),
{
    if tokens.len() == 0 {
        Seq::empty()
    } else {
        let before = occurrences(pattern, tokens.drop_last());
        match tokens.last() {
            Token::Break => before,
            Token::Scalar(end, _) => if overlaps(
                pattern,
                line_chars(tokens),
                pattern.len() as int,
            ) {
                let anchors = line_anchors(tokens);
                before.push(SearchMatch { start: anchors[anchors.len() - pattern.len()], end })
            } else {
                before
            },
        }
    }
}

proof fn line_lengths(tokens: Seq<Token>)
    ensures
        line_chars(tokens).len() == line_anchors(tokens).len(),
    decreases tokens.len(),
{
    if tokens.len() > 0 {
        line_lengths(tokens.drop_last());
    }
}

/// The last `count` of a sequence, or all where there are fewer.
pub open spec fn tail<T>(s: Seq<T>, count: int) -> Seq<T> {
    if s.len() <= count {
        s
    } else {
        s.skip(s.len() - count)
    }
}

/// Where a scan for a literal stands.
#[derive(Clone, Debug)]
pub struct SearchScanCursor {
    content: SearchContentId,
    line: i32,
    column: usize,
    scalar_offset: usize,
    progress: usize,
    recent: VecDeque<SearchAnchor>,
}

impl SearchScanCursor {
    /// The content that the scan was started on.
    pub closed spec fn content(&self) -> SearchContentId {
        self.content
    }

    pub closed spec fn row(&self, screen: &TerminalScreen) -> int {
        self.line + screen.history_size
    }

    /// What the scan has read.
    pub closed spec fn read(&self, screen: &TerminalScreen) -> Seq<Token> {
        screen.before(self.row(screen), self.column as int, self.scalar_offset as int)
    }

    /// Whether the scan stands further on than another.
    pub closed spec fn is_past(&self, other: &SearchScanCursor) -> bool {
        ||| self.line > other.line
        ||| self.line == other.line && self.column > other.column
        ||| self.line == other.line && self.column == other.column && self.scalar_offset
            > other.scalar_offset
    }

    /// The scan stands on the screen, and remembers of what it has read what the pattern needs.
    pub closed spec fn valid(&self, pattern: Seq<char>, screen: &TerminalScreen) -> bool {
        let row = self.row(screen);
        let tokens = self.read(screen);
        &&& 0 <= row <= screen.rows@.len()
        &&& self.column < screen.size.columns
        &&& row < screen.rows@.len() ==> self.scalar_offset <= screen.cell(
            row,
            self.column as int,
        ).scalars().len()
        &&& row == screen.rows@.len() ==> self.column == 0 && self.scalar_offset == 0
        &&& longest_overlap(
            pattern,
            line_chars(tokens),
            pattern.len() as int,
            self.progress as int,
        )
        &&& self.recent@ == tail(line_anchors(tokens), pattern.len() as int)
    }

    pub fn content_id(&self) -> (result: SearchContentId)
        ensures
            result == self.content(),
    {
        self.content
    }

    /// The start of a scan.
    pub fn start(content: SearchContentId, screen: &TerminalScreen) -> (result: SearchScanCursor)
        requires
            screen.wf(),
        ensures
            result.content() == content,
            result.read(screen) == Seq::<Token>::empty(),
            forall|pattern: Seq<char>|
                pattern.len() > 0 ==> #[trigger] result.valid(pattern, screen),
    {
        let result = SearchScanCursor {
            content,
            line: -(screen.history_size as i32),
            column: 0,
            scalar_offset: 0,
            progress: 0,
            recent: VecDeque::new(),
        };
        proof {
            assert(result.read(screen) =~= Seq::empty());
            assert forall|pattern: Seq<char>| pattern.len() > 0 implies #[trigger] result.valid(
                pattern,
                screen,
            ) by {
                assert(result.recent@ =~= tail(
                    line_anchors(result.read(screen)),
                    pattern.len() as int,
                ));
            }
        }
        result
    }
}

/// How much one step of a scan may do.
#[derive(Clone, Copy, Debug)]
pub struct SearchBudget {
    pub deadline: Instant,
    pub max_rows: usize,
    pub max_matches: usize,
}

impl SearchBudget {
    /// The most that one step may do until `deadline`.
    pub fn new(deadline: Instant) -> (result: SearchBudget)
        ensures
            result.deadline == deadline,
            result.max_rows == MAX_SEARCH_SLICE_ROWS,
            result.max_matches == MAX_SEARCH_MATCHES,
    {
        SearchBudget { deadline, max_rows: MAX_SEARCH_SLICE_ROWS, max_matches: MAX_SEARCH_MATCHES }
    }
}

/// How a clock keeps to a deadline: it never reads the deadline or later, or it always does.
pub struct Pace {
    pub punctual: bool,
    pub late: bool,
}

/// The clock never reads `deadline` or later.
pub open spec fn never_late<C: Fn() -> Instant>(clock: C, deadline: Instant) -> bool {
    forall|t: Instant| #[trigger] clock.ensures((), t) ==> t.nanos < deadline.nanos
}

/// The clock always reads `deadline` or later.
pub open spec fn always_late<C: Fn() -> Instant>(clock: C, deadline: Instant) -> bool {
    forall|t: Instant| #[trigger] clock.ensures((), t) ==> t.nanos >= deadline.nanos
}

pub open spec fn pace<C: Fn() -> Instant>(clock: C, deadline: Instant) -> Pace {
    Pace { punctual: never_late(clock, deadline), late: always_late(clock, deadline) }
}

/// How many characters a scan reads before it looks at the clock.
pub const CLOCK_CHARACTERS: usize = 64;

/// What one step of a scan found, and where the next one starts.
#[derive(Clone, Debug)]
pub struct SearchScanStep {
    pub content: SearchContentId,
    pub matches: Vec<SearchMatch>,
    pub next: Option<SearchScanCursor>,
    pub scanned_rows: usize,
}

pub open spec fn at_most(a: usize, b: usize) -> usize {
    if a <= b {
        a
    } else {
        b
    }
}

pub(crate) fn smaller(a: usize, b: usize) -> (result: usize)
    ensures
        result == at_most(a, b),
{
    if a <= b {
        a
    } else {
        b
    }
}

impl SearchScanStep {
    /// What has been read when the step is done.
    pub open spec fn reads(&self, screen: &TerminalScreen) -> Seq<Token> {
        match self.next {
            Some(cursor) => cursor.read(screen),
            None => screen.all_tokens(),
        }
    }

    /// What a step found is what occurs in what it read, and it left off where the next one
    /// starts; without a next one everything has been read.
    pub open spec fn continues(
        &self,
        pattern: Seq<char>,
        screen: &TerminalScreen,
        read: Seq<Token>,
    ) -> bool {
        &&& occurrences(pattern, self.reads(screen)) == occurrences(pattern, read) + self.matches@
        &&& match self.next {
            Some(cursor) => cursor.valid(pattern, screen) && cursor.content() == self.content,
            None => true,
        }
    }

    /// What a step does with its budget: it keeps within it, it counts the rows that it leaves, it
    /// gets on where the budget lets it, one that is never late only stops where the budget is
    /// used up, and one that is late from the first stops when it first looks at the clock.
    pub open spec fn uses(
        &self,
        budget: SearchBudget,
        pace: Pace,
        cursor: &SearchScanCursor,
        screen: &TerminalScreen,
    ) -> bool {
        let rows = at_most(budget.max_rows, MAX_SEARCH_SLICE_ROWS);
        let most = at_most(budget.max_matches, MAX_SEARCH_MATCHES);
        &&& self.matches@.len() <= most
        &&& self.scanned_rows <= rows
        &&& match self.next {
            Some(next) => {
                &&& next.row(screen) == cursor.row(screen) + self.scanned_rows
                &&& rows > 0 && most > 0 ==> next.is_past(cursor)
                &&& pace.punctual ==> self.matches@.len() == most || self.scanned_rows == rows
            },
            None => screen.rows@.len() == cursor.row(screen) + self.scanned_rows,
        }
        &&& pace.late ==> {
            &&& self.scanned_rows <= 1
            &&& self.reads(screen).len() <= cursor.read(screen).len() + CLOCK_CHARACTERS
        }
    }
}

/// Reads one character: the longest overlap of the pattern moves on, and a full one is a match.
fn read_scalar(
    compiled: &CompiledLiteral,
    cursor: &mut SearchScanCursor,
    matches: &mut Vec<SearchMatch>,
    value: char,
    anchor: SearchAnchor,
    tokens: Ghost<Seq<Token>>,
)
    requires
        compiled.wf(),
        longest_overlap(
            compiled@,
            line_chars(tokens@),
            compiled@.len() as int,
            old(cursor).progress as int,
        ),
        old(cursor).recent@ == tail(line_anchors(tokens@), compiled@.len() as int),
    ensures
        ({
            let now = tokens@.push(Token::Scalar(anchor, value));
            &&& longest_overlap(
                compiled@,
                line_chars(now),
                compiled@.len() as int,
                final(cursor).progress as int,
            )
            &&& final(cursor).recent@ == tail(line_anchors(now), compiled@.len() as int)
            &&& occurrences(compiled@, now) == occurrences(compiled@, tokens@)
                + final(matches)@.skip(old(matches)@.len() as int)
        }),
        old(matches)@.len() <= final(matches)@.len() <= old(matches)@.len() + 1,
        final(matches)@.take(old(matches)@.len() as int) == old(matches)@,
        final(cursor).content == old(cursor).content,
        final(cursor).line == old(cursor).line,
        final(cursor).column == old(cursor).column,
        final(cursor).scalar_offset == old(cursor).scalar_offset,
{
    let ghost pattern = compiled@;
    let ghost now = tokens@.push(Token::Scalar(anchor, value));
    let ghost text = line_chars(tokens@);
    let length: usize = compiled.pattern.len();
    proof {
        assert(now.drop_last() =~= tokens@);
        line_lengths(tokens@);
    }
    cursor.progress =
    extend_overlap(
        &compiled.pattern,
        &compiled.prefix,
        cursor.progress,
        value,
        Ghost(text),
        Ghost(length as int),
    );
    let ghost anchors = line_anchors(now);
    let ghost kept = cursor.recent@;
    cursor.recent.push_back(anchor);
    if cursor.recent.len() > length {
        cursor.recent.pop_front();
    }
    assert(cursor.recent@ =~= tail(anchors, length as int));
    if cursor.progress == length {
        let start = cursor.recent[0];
        assert(start == anchors[anchors.len() - length]);
        matches.push(SearchMatch { start, end: anchor });
        let next: usize = compiled.prefix[length - 1];
        proof {
            assert(pattern.take(length as int) =~= pattern);
            assert(longest_overlap(pattern, pattern.take(length as int), length as int, next as int));
            shorter_overlaps(pattern, line_chars(now), length as int, next as int);
            assert forall|j: int| next < j < length implies !#[trigger] overlaps(
                pattern,
                line_chars(now),
                j,
            ) by {
                shorter_overlaps(pattern, line_chars(now), length as int, j);
            }
        }
        cursor.progress = next;
        assert(occurrences(pattern, now) =~= occurrences(pattern, tokens@) + matches@.skip(
            old(matches)@.len() as int,
        ));
    } else {
        assert(!overlaps(pattern, line_chars(now), length as int));
        assert(occurrences(pattern, now) =~= occurrences(pattern, tokens@) + matches@.skip(
            old(matches)@.len() as int,
        ));
    }
    assert(matches@.take(old(matches)@.len() as int) =~= old(matches)@);
}

/// Scans on from a cursor until a limit of the budget is reached, the clock passes its deadline
/// or everything has been read. The clock is read after every [`CLOCK_CHARACTERS`] characters and
/// every row.
pub fn scan_literal<C: Fn() -> Instant>(
    screen: &TerminalScreen,
    content: SearchContentId,
    compiled: &CompiledLiteral,
    cursor: SearchScanCursor,
    budget: SearchBudget,
    clock: &C,
) -> (result: Result<SearchScanStep, SearchError>)
    requires
        screen.wf(),
        compiled.wf(),
        cursor.content() == content ==> cursor.valid(compiled@, screen),
        clock.requires(()),
    ensures
        cursor.content() != content ==> result is Err && result->Err_0 == SearchError::StaleContent,
        cursor.content() == content ==> {
            &&& result is Ok
            &&& result->Ok_0.content == content
            &&& result->Ok_0.continues(compiled@, screen, cursor.read(screen))
            &&& result->Ok_0.uses(budget, pace(*clock, budget.deadline), &cursor, screen)
        },
{
    if cursor.content != content {
        return Err(SearchError::StaleContent);
    }
    let ghost pattern = compiled@;
    let ghost read = cursor.read(screen);
    let mut at = cursor;
    let max_rows: usize = smaller(budget.max_rows, MAX_SEARCH_SLICE_ROWS);
    let max_matches: usize = smaller(budget.max_matches, MAX_SEARCH_MATCHES);
    let last_line: i32 = screen.size.lines as i32 - 1;
    let columns: usize = screen.size.columns();
    let mut matches: Vec<SearchMatch> = Vec::new();
    let mut scanned_rows: usize = 0;
    let mut since_clock: usize = 0;
    let mut late = false;
    assert(occurrences(pattern, read) + matches@ =~= occurrences(pattern, read));
    while !late && at.line <= last_line && scanned_rows < max_rows && matches.len() < max_matches
        invariant
            screen.wf(),
            compiled.wf(),
            clock.requires(()),
            pattern == compiled@,
            cursor.content() == content,
            read == cursor.read(screen),
            at.content == content,
            at.valid(pattern, screen),
            columns == screen.size.columns,
            last_line == screen.size.lines - 1,
            occurrences(pattern, at.read(screen)) == occurrences(pattern, read) + matches@,
            matches@.len() <= max_matches,
            scanned_rows <= max_rows,
            max_matches == at_most(budget.max_matches, MAX_SEARCH_MATCHES),
            max_rows == at_most(budget.max_rows, MAX_SEARCH_SLICE_ROWS),
            since_clock < CLOCK_CHARACTERS,
            at.row(screen) == cursor.row(screen) + scanned_rows,
            at == cursor || at.is_past(&cursor),
            at == cursor ==> !late && scanned_rows == 0 && matches@.len() == 0,
            late ==> !never_late(*clock, budget.deadline),
            always_late(*clock, budget.deadline) ==> if late {
                scanned_rows == 1 && at.read(screen).len() <= read.len() + CLOCK_CHARACTERS
            } else {
                scanned_rows == 0 && at.read(screen).len() == read.len() + since_clock
            },
        decreases
            screen.rows@.len() - at.row(screen),
            columns - at.column,
    {
        let row: usize = (at.line as i64 + screen.history_size as i64) as usize;
        let cell = &screen.rows[row][at.column];
        let scalar_count: usize = cell.scalar_count();
        let ghost col = at.column as int;
        while at.scalar_offset < scalar_count
            invariant
                screen.wf(),
                compiled.wf(),
                clock.requires(()),
                pattern == compiled@,
                cursor.content() == content,
                read == cursor.read(screen),
                at.content == content,
                at.valid(pattern, screen),
                at.line <= last_line,
                last_line == screen.size.lines - 1,
                at.row(screen) == row,
                row == cursor.row(screen) + scanned_rows,
                at.column == col,
                col < screen.size.columns,
                columns == screen.size.columns,
                *cell == screen.cell(row as int, col),
                scalar_count == cell.scalars().len(),
                scalar_count <= 65,
                occurrences(pattern, at.read(screen)) == occurrences(pattern, read) + matches@,
                matches@.len() <= max_matches,
                at.scalar_offset < scalar_count ==> matches@.len() < max_matches,
                scanned_rows < max_rows,
                max_matches == at_most(budget.max_matches, MAX_SEARCH_MATCHES),
                max_rows == at_most(budget.max_rows, MAX_SEARCH_SLICE_ROWS),
                since_clock < CLOCK_CHARACTERS,
                at == cursor || at.is_past(&cursor),
                !late,
                always_late(*clock, budget.deadline) ==> scanned_rows == 0 && at.read(
                    screen,
                ).len() == read.len() + since_clock,
            decreases scalar_count - at.scalar_offset,
        {
            let value = cell.scalar(at.scalar_offset);
            let anchor = SearchAnchor {
                history_line: at.line,
                column: at.column as u16,
                scalar_offset: at.scalar_offset as u8,
            };
            let ghost tokens = at.read(screen);
            let ghost found = matches@;
            proof {
                screen.before_next(row as int, col, at.scalar_offset as int);
                assert(anchor == screen.anchor(row as int, col, at.scalar_offset as int));
            }
            read_scalar(compiled, &mut at, &mut matches, value, anchor, Ghost(tokens));
            at.scalar_offset += 1;
            proof {
                let fresh = matches@.skip(found.len() as int);
                assert(matches@ =~= matches@.take(found.len() as int) + fresh);
                assert(occurrences(pattern, read) + matches@ =~= occurrences(pattern, read) + found
                    + fresh);
            }
            since_clock += 1;
            if since_clock == CLOCK_CHARACTERS {
                since_clock = 0;
                if clock().nanos >= budget.deadline.nanos {
                    return Ok(
                        SearchScanStep { content, matches, next: Some(at), scanned_rows },
                    );
                }
            }
            if matches.len() == max_matches {
                return Ok(SearchScanStep { content, matches, next: Some(at), scanned_rows });
            }
        }
        proof {
            screen.before_leave(row as int, col);
            let here = at.read(screen);
            assert(here.push(Token::Break).drop_last() =~= here);
        }
        at.scalar_offset = 0;
        at.column += 1;
        if at.column == columns {
            let wrapped = cell.flags.wrapline;
            at.column = 0;
            at.line += 1;
            scanned_rows += 1;
            if !wrapped {
                at.progress = 0;
                at.recent.clear();
                assert(at.recent@ =~= Seq::empty());
            }
            late = clock().nanos >= budget.deadline.nanos;
        }
    }
    if at.line <= last_line {
        Ok(SearchScanStep { content, matches, next: Some(at), scanned_rows })
    } else {
        assert(at.read(screen) =~= screen.all_tokens());
        Ok(SearchScanStep { content, matches, next: None, scanned_rows })
    }
}

/// A scan may be cut into steps anywhere: two steps in turn find what lies in the text that they
/// read, nothing twice and nothing left out.
pub proof fn steps_add_up(
    pattern: Seq<char>,
    screen: &TerminalScreen,
    read: Seq<Token>,
    first: SearchScanStep,
    second: SearchScanStep,
)
    requires
        first.continues(pattern, screen, read),
        first.next is Some,
        second.continues(pattern, screen, first.next->0.read(screen)),
    ensures
        occurrences(pattern, second.reads(screen)) == occurrences(pattern, read) + (first.matches@
            + second.matches@),
{
    assert(occurrences(pattern, read) + first.matches@ + second.matches@ =~= occurrences(
        pattern,
        read,
    ) + (first.matches@ + second.matches@));
}

/// A match is as long as the literal, lies in one line and spells the literal there.
pub proof fn matches_spell_the_literal(pattern: Seq<char>, tokens: Seq<Token>, i: int)
    requires
        0 <= i < occurrences(pattern, tokens).len(),
        pattern.len() > 0,
    ensures
        exists|n: int|
            {
                let line = #[trigger] tokens.take(n);
                let anchors = line_anchors(line);
                &&& 0 < n <= tokens.len()
                &&& pattern.len() <= anchors.len()
                &&& line_chars(line).skip(anchors.len() - pattern.len()) == pattern
                &&& occurrences(pattern, tokens)[i].start == anchors[anchors.len() - pattern.len()]
                &&& occurrences(pattern, tokens)[i].end == anchors.last()
            },
    decreases tokens.len(),
{
    let init = tokens.drop_last();
    line_lengths(tokens);
    assert(tokens.take(tokens.len() as int) =~= tokens);
    if i < occurrences(pattern, init).len() {
        matches_spell_the_literal(pattern, init, i);
        let n = choose|n: int|
            {
                let line = #[trigger] init.take(n);
                let anchors = line_anchors(line);
                &&& 0 < n <= init.len()
                &&& pattern.len() <= anchors.len()
                &&& line_chars(line).skip(anchors.len() - pattern.len()) == pattern
                &&& occurrences(pattern, init)[i].start == anchors[anchors.len() - pattern.len()]
                &&& occurrences(pattern, init)[i].end == anchors.last()
            };
        assert(tokens.take(n) =~= init.take(n));
    } else {
        let line = tokens.take(tokens.len() as int);
        let anchors = line_anchors(line);
        assert(line_chars(line).skip(anchors.len() - pattern.len()) =~= pattern);
    }
}

/// Where all characters stand.
pub open spec fn all_anchors(tokens: Seq<Token>) -> Seq<SearchAnchor>
    decreases tokens.len(),
{
    if tokens.len() == 0 {
        Seq::empty()
    } else {
        match tokens.last() {
            Token::Break => all_anchors(tokens.drop_last()),
            Token::Scalar(anchor, _) => all_anchors(tokens.drop_last()).push(anchor),
        }
    }
}

/// Whether each of some places is after those before it.
pub open spec fn in_order(anchors: Seq<SearchAnchor>) -> bool {
    forall|i: int, j: int|
        0 <= i < j < anchors.len() ==> (#[trigger] anchors[j]).is_after(#[trigger] anchors[i])
}

proof fn anchors_join(a: Seq<Token>, b: Seq<Token>)
    ensures
        all_anchors(a + b) == all_anchors(a) + all_anchors(b),
    decreases b.len(),
{
    if b.len() == 0 {
        assert(a + b =~= a);
        assert(all_anchors(a) + all_anchors(b) =~= all_anchors(a));
    } else {
        anchors_join(a, b.drop_last());
        assert((a + b).drop_last() =~= a + b.drop_last());
        assert((a + b).last() == b.last());
        assert(all_anchors(a + b) =~= all_anchors(a) + all_anchors(b));
    }
}

proof fn some_of_a_cell_in_order(screen: &TerminalScreen, r: int, c: int, n: int)
    requires
        screen.wf(),
        0 <= r < screen.rows@.len(),
        0 <= c < screen.size.columns,
        0 <= n <= screen.cell(r, c).scalars().len(),
    ensures
        ({
            let anchors = all_anchors(screen.cell_tokens(r, c).take(n));
            &&& anchors.len() == n
            &&& forall|k: int| 0 <= k < n ==> #[trigger] anchors[k] == screen.anchor(r, c, k)
        }),
    decreases n,
{
    let tokens = screen.cell_tokens(r, c);
    if n > 0 {
        some_of_a_cell_in_order(screen, r, c, n - 1);
        assert(tokens.take(n).drop_last() =~= tokens.take(n - 1));
        assert(tokens.take(n).last() == screen.token(r, c, n - 1));
    }
}

proof fn a_cell_in_order(screen: &TerminalScreen, r: int, c: int)
    requires
        screen.wf(),
        0 <= r < screen.rows@.len(),
        0 <= c < screen.size.columns,
    ensures
        ({
            let anchors = all_anchors(screen.cell_tokens(r, c));
            &&& in_order(anchors)
            &&& forall|k: int|
                0 <= k < anchors.len() ==> (#[trigger] anchors[k]).history_line == r
                    - screen.history_size && anchors[k].column == c
        }),
{
    let tokens = screen.cell_tokens(r, c);
    let n = screen.cell(r, c).scalars().len() as int;
    some_of_a_cell_in_order(screen, r, c, n);
    if screen.ends_line(r, c) {
        assert(tokens.drop_last() =~= tokens.take(n));
        assert(tokens.last() == Token::Break);
    } else {
        assert(tokens.take(n) =~= tokens);
    }
    assert(n <= 256);
}

proof fn a_row_in_order(screen: &TerminalScreen, r: int, c: int)
    requires
        screen.wf(),
        0 <= r < screen.rows@.len(),
        0 <= c <= screen.size.columns,
    ensures
        ({
            let anchors = all_anchors(screen.row_to(r, c));
            &&& in_order(anchors)
            &&& forall|k: int|
                0 <= k < anchors.len() ==> (#[trigger] anchors[k]).history_line == r
                    - screen.history_size && anchors[k].column < c
        }),
    decreases c,
{
    if c > 0 {
        a_row_in_order(screen, r, c - 1);
        a_cell_in_order(screen, r, c - 1);
        anchors_join(screen.row_to(r, c - 1), screen.cell_tokens(r, c - 1));
    }
}

proof fn rows_in_order(screen: &TerminalScreen, r: int)
    requires
        screen.wf(),
        0 <= r <= screen.rows@.len(),
    ensures
        ({
            let anchors = all_anchors(screen.rows_to(r));
            &&& in_order(anchors)
            &&& forall|k: int|
                0 <= k < anchors.len() ==> (#[trigger] anchors[k]).history_line < r
                    - screen.history_size
        }),
    decreases r,
{
    if r > 0 {
        rows_in_order(screen, r - 1);
        a_row_in_order(screen, r - 1, screen.size.columns as int);
        anchors_join(screen.rows_to(r - 1), screen.row_to(r - 1, screen.size.columns as int));
    }
}

proof fn a_line_ends_the_text(tokens: Seq<Token>)
    ensures
        ({
            let all = all_anchors(tokens);
            let line = line_anchors(tokens);
            &&& line.len() <= all.len()
            &&& forall|k: int|
                0 <= k < line.len() ==> #[trigger] line[k] == all[all.len() - line.len() + k]
        }),
    decreases tokens.len(),
{
    if tokens.len() > 0 {
        a_line_ends_the_text(tokens.drop_last());
    }
}

/// The numbers of the characters at which the occurrences of a literal start.
spec fn start_numbers(pattern: Seq<char>, tokens: Seq<Token>) -> Seq<int>
    decreases tokens.len(),
{
    if tokens.len() == 0 {
        Seq::empty()
    } else {
        let before = start_numbers(pattern, tokens.drop_last());
        if tokens.last() is Scalar && overlaps(
            pattern,
            line_chars(tokens),
            pattern.len() as int,
        ) {
            before.push(all_anchors(tokens).len() - pattern.len())
        } else {
            before
        }
    }
}

proof fn numbers_of_starts(pattern: Seq<char>, tokens: Seq<Token>)
    requires
        pattern.len() > 0,
    ensures
        ({
            let found = occurrences(pattern, tokens);
            let numbers = start_numbers(pattern, tokens);
            let all = all_anchors(tokens);
            &&& numbers.len() == found.len()
            &&& forall|i: int|
                0 <= i < numbers.len() ==> 0 <= #[trigger] numbers[i] <= all.len() - pattern.len()
            &&& forall|i: int|
                0 <= i < numbers.len() ==> #[trigger] found[i].start == all[numbers[i]]
            &&& forall|i: int, j: int|
                0 <= i < j < numbers.len() ==> #[trigger] numbers[i] < #[trigger] numbers[j]
        }),
    decreases tokens.len(),
{
    if tokens.len() > 0 {
        numbers_of_starts(pattern, tokens.drop_last());
        a_line_ends_the_text(tokens);
        line_lengths(tokens);
    }
}

/// The occurrences of a literal on a screen come in order: each starts after those before it.
pub proof fn matches_come_in_order(pattern: Seq<char>, screen: &TerminalScreen, i: int, j: int)
    requires
        screen.wf(),
        pattern.len() > 0,
        0 <= i < j < occurrences(pattern, screen.all_tokens()).len(),
    ensures
        occurrences(pattern, screen.all_tokens())[j].start.is_after(
            occurrences(pattern, screen.all_tokens())[i].start,
        ),
{
    let tokens = screen.all_tokens();
    rows_in_order(screen, screen.rows@.len() as int);
    numbers_of_starts(pattern, tokens);
    let numbers = start_numbers(pattern, tokens);
    let all = all_anchors(tokens);
    assert(numbers[i] < numbers[j]);
    assert(occurrences(pattern, tokens)[i].start == all[numbers[i]]);
    assert(occurrences(pattern, tokens)[j].start == all[numbers[j]]);
    assert(all[numbers[j]].is_after(all[numbers[i]]));
}

impl CompiledLiteral {
    /// How many overlaps the literal remembers: as many as it has characters.
    pub closed spec fn borders(&self) -> nat {
        self.prefix@.len()
    }

    /// The bytes of a literal that has room for so many characters and overlaps.
    pub open spec fn bytes(characters: nat, overlaps: nat) -> nat {
        characters * vstd::layout::size_of::<char>() + overlaps * vstd::layout::size_of::<usize>()
    }

    /// What the literal needs in memory.
    pub open spec fn least_bytes(&self) -> nat {
        CompiledLiteral::bytes(self@.len(), self.borders())
    }

    /// The bytes of a literal, by what it has room for.
    pub fn bytes_of(characters: usize, overlaps: usize) -> (result: usize)
        ensures
            result == capped(CompiledLiteral::bytes(characters as nat, overlaps as nat)),
    {
        room(characters, core::mem::size_of::<char>()).saturating_add(
            room(overlaps, core::mem::size_of::<usize>()),
        )
    }

    /// What the literal holds in memory. How much room it has beyond what it needs depends on the
    /// allocator.
    pub fn allocated_bytes(&self) -> (result: usize)
        ensures
            exists|characters: usize, overlaps: usize|
                characters >= self@.len() && overlaps >= self.borders() && result == capped(
                    #[trigger] CompiledLiteral::bytes(characters as nat, overlaps as nat),
                ),
            result >= capped(self.least_bytes()),
            self.wf() ==> self.borders() == self@.len(),
    {
        let characters: usize = vec_capacity(&self.pattern);
        let overlaps: usize = vec_capacity(&self.prefix);
        proof {
            more_items_take_more(
                self@.len(),
                characters as nat,
                vstd::layout::size_of::<char>(),
            );
            more_items_take_more(
                self.borders(),
                overlaps as nat,
                vstd::layout::size_of::<usize>(),
            );
        }
        CompiledLiteral::bytes_of(characters, overlaps)
    }
}

impl SearchScanCursor {
    /// The places that the scan remembers.
    pub closed spec fn remembered(&self) -> nat {
        self.recent@.len()
    }

    /// The bytes of a scan that has room for so many places.
    pub open spec fn bytes(places: nat) -> nat {
        places * vstd::layout::size_of::<SearchAnchor>()
    }

    /// What the scan needs in memory.
    pub open spec fn least_bytes(&self) -> nat {
        SearchScanCursor::bytes(self.remembered())
    }

    /// The bytes of a scan, by what it has room for.
    pub fn bytes_of(places: usize) -> (result: usize)
        ensures
            result == capped(SearchScanCursor::bytes(places as nat)),
    {
        room(places, core::mem::size_of::<SearchAnchor>())
    }

    /// What the scan holds in memory. How much room it has beyond what it needs depends on the
    /// allocator.
    pub fn allocated_bytes(&self) -> (result: usize)
        ensures
            exists|places: usize|
                places >= self.remembered() && result == capped(
                    #[trigger] SearchScanCursor::bytes(places as nat),
                ),
            result >= capped(self.least_bytes()),
    {
        let places: usize = deque_capacity(&self.recent);
        proof {
            more_items_take_more(
                self.remembered(),
                places as nat,
                vstd::layout::size_of::<SearchAnchor>(),
            );
        }
        SearchScanCursor::bytes_of(places)
    }
}

} // verus!
