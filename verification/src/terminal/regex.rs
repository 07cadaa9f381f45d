//! Searching the terminal's text with a regular expression.
use vstd::prelude::*;
use crate::memory::{capped, more_items_take_more, room, string_capacity, vec_capacity};
use crate::terminal::screen::{TerminalScreen, Token};
use crate::terminal::search::{
    always_late, at_most, line_anchors, line_chars, pace, query_chars, query_error, smaller, Pace,
    SearchAnchor, SearchBudget, SearchContentId, SearchError, SearchMatch, CLOCK_CHARACTERS,
    MAX_REGEX_LOGICAL_LINE_BYTES, MAX_SEARCH_MATCHES, MAX_SEARCH_SLICE_ROWS,
};
use crate::text::{
    byte_offset, byte_offset_grows, byte_offset_next, encode_concat, utf8_len,
};
use crate::time::Instant;
use vstd::utf8::encode_utf8;

verus! {

/// What one regular expression may hold in memory.
pub const REGEX_ENGINE_BUDGET: usize = 393_216;

/// How large the parts of a compiled expression may be.
#[derive(Clone, Copy, Debug, PartialEq, Eq, Structural)]
pub struct RegexLimits {
    pub nfa_bytes: usize,
    pub dfa_bytes: usize,
    pub cache_bytes: usize,
    pub pool: usize,
}

impl RegexLimits {
    /// The limits of every expression.
    pub open spec fn standard() -> RegexLimits {
        RegexLimits { nfa_bytes: 262_144, dfa_bytes: 65_536, cache_bytes: 65_536, pool: 1 }
    }
}

/// The limits of every expression. Together the parts keep within [`REGEX_ENGINE_BUDGET`].
pub fn regex_limits() -> (result: RegexLimits)
    ensures
        result == RegexLimits::standard(),
        result.nfa_bytes + result.dfa_bytes + result.cache_bytes == REGEX_ENGINE_BUDGET,
{
    RegexLimits { nfa_bytes: 262_144, dfa_bytes: 65_536, cache_bytes: 65_536, pool: 1 }
}

/// A compiled expression of `regex_automata`.
#[verifier::external_type_specification]
#[verifier::external_body]
pub struct ExRegex(regex_automata::meta::Regex);

/// How an expression was built: from which text and within which limits, with everything else as
/// `regex_automata` has it by default. `None` tells that it was built in another way.
pub uninterp spec fn regex_setup(regex: regex_automata::meta::Regex) -> Option<
    (Seq<char>, RegexLimits),
>;

/// The bytes of the leftmost match in a text, from a byte on, of an expression that was built with
/// the defaults of `regex_automata`.
pub uninterp spec fn regex_find(pattern: Seq<char>, text: Seq<char>, from: int) -> Option<
    (int, int),
>;

/// `regex_automata::meta::Builder::build`, with limits on the sizes of the automata and of the
/// cache, in bytes, and on how many callers share it; nothing else is configured, so that the
/// expression is one over UTF-8. An expression that comes back was built that way. Which
/// expressions it takes is left open: what an automaton takes is counted in words of the machine.
#[verifier::external_body]
fn build_regex(query: &str, limits: &RegexLimits) -> (result: Option<regex_automata::meta::Regex>)
    ensures
        result is Some ==> regex_setup(result->0) == Some((query@, *limits)),
{
    let config = regex_automata::meta::Regex::config()
        .nfa_size_limit(Some(limits.nfa_bytes))
        .dfa_size_limit(Some(limits.dfa_bytes))
        .hybrid_cache_capacity(limits.cache_bytes)
        .pool_capacity(limits.pool);
    regex_automata::meta::Regex::builder().configure(config).build(query).ok()
}

/// The bytes from `s` to `e` are whole characters of a text.
pub open spec fn on_characters(text: Seq<char>, s: int, e: int) -> bool {
    exists|i: int, j: int|
        0 <= i <= j <= text.len() && s == #[trigger] byte_offset(text, i) && e
            == #[trigger] byte_offset(text, j)
}

/// `regex_automata::meta::Regex::find` on the part of a text from byte `from` on, which starts
/// with a character, for an expression that [`build_regex`] built. A match lies in that part.
/// Such an expression matches valid UTF-8 only and no empty text within a character, so that a
/// match starts and ends between characters. The limits bear on how a match is searched for and
/// not on which one is found.
#[verifier::external_body]
fn find_from(regex: &regex_automata::meta::Regex, text: &str, from: usize) -> (result: Option<
    (usize, usize),
>)
    requires
        regex_setup(*regex) is Some,
        on_characters(text@, from as int, from as int),
    ensures
        match regex_find((regex_setup(*regex)->0).0, text@, from as int) {
            Some((s, e)) => {
                &&& result is Some
                &&& (result->0).0 == s
                &&& (result->0).1 == e
                &&& from <= s
                &&& on_characters(text@, s, e)
            },
            None => result is None,
        },
{
    let input = regex_automata::Input::new(text).span(from..text.len());
    regex.find(input).map(|found| (found.start(), found.end()))
}

/// A regular expression, compiled.
#[derive(Debug)]
pub struct CompiledRegex {
    regex: regex_automata::meta::Regex,
}

impl View for CompiledRegex {
    type V = Seq<char>;

    /// The expression.
    closed spec fn view(&self) -> Seq<char> {
        (regex_setup(self.regex)->0).0
    }
}

impl CompiledRegex {
    /// Every expression is built with the defaults, within the standard limits.
    #[verifier::type_invariant]
    closed spec fn built(&self) -> bool {
        regex_setup(self.regex) is Some && self.limits() == RegexLimits::standard()
    }

    /// The limits that the expression was built within.
    pub closed spec fn limits(&self) -> RegexLimits {
        (regex_setup(self.regex)->0).1
    }

    /// The expression that was built, if one was.
    fn from_built(built: Option<regex_automata::meta::Regex>) -> (result: Result<
        CompiledRegex,
        SearchError,
    >)
        requires
            built is Some ==> regex_setup(built->0) is Some && (regex_setup(built->0)->0).1
                == RegexLimits::standard(),
        ensures
            match built {
                Some(regex) => {
                    &&& result is Ok
                    &&& result->Ok_0@ == (regex_setup(regex)->0).0
                    &&& result->Ok_0.limits() == RegexLimits::standard()
                },
                None => result is Err && result->Err_0 == SearchError::InvalidRegex,
            },
    {
        match built {
            Some(regex) => Ok(CompiledRegex { regex }),
            None => Err(SearchError::InvalidRegex),
        }
    }

    /// What the expression may hold in memory: as much as its limits let its parts grow.
    pub fn allocated_bytes(&self) -> (result: usize)
        ensures
            result == REGEX_ENGINE_BUDGET,
            result == self.limits().nfa_bytes + self.limits().dfa_bytes
                + self.limits().cache_bytes,
    {
        proof {
            use_type_invariant(self);
        }
        REGEX_ENGINE_BUDGET
    }
}

/// Compiles an expression within the standard limits. One that is not refused as a query may still
/// not be an expression, or be too large for them.
pub fn compile_regex(query: &str) -> (result: Result<CompiledRegex, SearchError>)
    ensures
        match query_error(query@) {
            Some(error) => result is Err && result->Err_0 == error,
            None => match result {
                Ok(compiled) => compiled@ == query@ && compiled.limits()
                    == RegexLimits::standard(),
                Err(error) => error == SearchError::InvalidRegex,
            },
        },
{
    match query_chars(query) {
        Ok(_) => {},
        Err(error) => {
            return Err(error);
        },
    }
    CompiledRegex::from_built(build_regex(query, &regex_limits()))
}

/// How many characters start before a byte.
pub open spec fn chars_before(text: Seq<char>, byte: int) -> int
    decreases text.len(),
{
    if text.len() == 0 {
        0
    } else {
        chars_before(text.drop_last(), byte) + if byte_offset(text, text.len() - 1) < byte {
            1int
        } else {
            0
        }
    }
}

proof fn chars_before_is(text: Seq<char>, byte: int, k: int)
    requires
        0 <= k <= text.len(),
        forall|i: int| 0 <= i < k ==> #[trigger] byte_offset(text, i) < byte,
        forall|i: int| k <= i < text.len() ==> #[trigger] byte_offset(text, i) >= byte,
    ensures
        chars_before(text, byte) == k,
    decreases text.len(),
{
    if text.len() > 0 {
        let init = text.drop_last();
        assert forall|i: int| 0 <= i <= init.len() implies #[trigger] byte_offset(init, i)
            == byte_offset(text, i) by {
            assert(init.take(i) =~= text.take(i));
        }
        let last = text.len() - 1;
        if k == text.len() {
            assert(byte_offset(text, last) < byte);
            chars_before_is(init, byte, k - 1);
        } else {
            assert(byte_offset(text, last) >= byte);
            chars_before_is(init, byte, k);
        }
    }
}

/// The offsets of the characters of a text.
pub open spec fn are_offsets(offsets: Seq<usize>, text: Seq<char>) -> bool {
    &&& offsets.len() == text.len()
    &&& forall|i: int| 0 <= i < text.len() ==> #[trigger] offsets[i] == byte_offset(text, i)
}

fn count_below(offsets: &Vec<usize>, byte: usize, text: Ghost<Seq<char>>) -> (result: usize)
    requires
        are_offsets(offsets@, text@),
    ensures
        result == chars_before(text@, byte as int),
        result <= text@.len(),
        forall|i: int| 0 <= i < result ==> #[trigger] offsets@[i] < byte,
        forall|i: int| result <= i < text@.len() ==> #[trigger] offsets@[i] >= byte,
{
    let mut low: usize = 0;
    let mut high: usize = offsets.len();
    while low < high
        invariant
            low <= high <= offsets@.len(),
            are_offsets(offsets@, text@),
            forall|i: int| 0 <= i < low ==> #[trigger] offsets@[i] < byte,
            forall|i: int| high <= i < text@.len() ==> #[trigger] offsets@[i] >= byte,
        decreases high - low,
    {
        let middle: usize = low + (high - low) / 2;
        if offsets[middle] < byte {
            assert forall|i: int| 0 <= i < middle + 1 implies #[trigger] offsets@[i] < byte by {
                if i < middle {
                    byte_offset_grows(text@, i, middle as int);
                    assert(offsets@[middle as int] == byte_offset(text@, middle as int));
                }
            }
            low = middle + 1;
        } else {
            assert forall|i: int| middle <= i < text@.len() implies #[trigger] offsets@[i]
                >= byte by {
                if i > middle {
                    byte_offset_grows(text@, middle as int, i);
                    assert(offsets@[middle as int] == byte_offset(text@, middle as int));
                }
            }
            high = middle;
        }
    }
    proof {
        assert forall|i: int| 0 <= i < low implies #[trigger] byte_offset(text@, i) < byte by {
            assert(offsets@[i] < byte);
        }
        assert forall|i: int| low <= i < text@.len() implies #[trigger] byte_offset(text@, i)
            >= byte by {
            assert(offsets@[i] >= byte);
        }
        chars_before_is(text@, byte as int, low as int);
    }
    low
}

/// What follows a search in a line.
#[derive(Clone, Copy, Debug, PartialEq, Eq, Structural)]
pub enum FoundStep {
    /// The line has no further match.
    Finished,
    /// An empty match counts for nothing; the search goes on at the next character.
    Skip { next: usize },
    /// A match; the search goes on where it ends.
    Match { value: SearchMatch, next: usize },
    /// What was found does not start and end between characters.
    Invalid,
}

/// What follows when `found` was found.
pub open spec fn found_step(
    text: Seq<char>,
    anchors: Seq<SearchAnchor>,
    found: Option<(int, int)>,
) -> FoundStep {
    match found {
        None => FoundStep::Finished,
        Some((s, e)) => if !on_characters(text, s, e) {
            FoundStep::Invalid
        } else if s == e {
            if e >= encode_utf8(text).len() {
                FoundStep::Finished
            } else {
                FoundStep::Skip { next: byte_offset(text, chars_before(text, e) + 1) as usize }
            }
        } else {
            FoundStep::Match {
                value: SearchMatch {
                    start: anchors[chars_before(text, s)],
                    end: anchors[chars_before(text, e) - 1],
                },
                next: e as usize,
            }
        },
    }
}

/// The view of what was found.
pub open spec fn found_view(found: Option<(usize, usize)>) -> Option<(int, int)> {
    match found {
        Some((s, e)) => Some((s as int, e as int)),
        None => None,
    }
}

/// Whether a byte is the one at which the character at `index` starts, or the end of the text where
/// there is none. It is asked of the first character that does not start before the byte, so that
/// it tells whether any character starts there.
fn is_offset(
    offsets: &Vec<usize>,
    index: usize,
    byte: usize,
    length: usize,
    text: Ghost<Seq<char>>,
) -> (result: bool)
    requires
        are_offsets(offsets@, text@),
        length == encode_utf8(text@).len(),
        index <= text@.len(),
        forall|i: int| 0 <= i < index ==> #[trigger] offsets@[i] < byte,
        forall|i: int| index <= i < text@.len() ==> #[trigger] offsets@[i] >= byte,
    ensures
        result == (byte == byte_offset(text@, index as int)),
        !result ==> forall|i: int|
            0 <= i <= text@.len() ==> #[trigger] byte_offset(text@, i) != byte,
{
    assert(text@.take(text@.len() as int) =~= text@);
    let result = if index < offsets.len() {
        offsets[index] == byte
    } else {
        length == byte
    };
    proof {
        if !result {
            assert forall|i: int| 0 <= i <= text@.len() implies #[trigger] byte_offset(text@, i)
                != byte by {
                if i < index {
                    assert(offsets@[i] < byte);
                } else if index < i {
                    byte_offset_grows(text@, index as int, i);
                    assert(offsets@[index as int] >= byte);
                }
            }
        }
    }
    result
}

/// Decides what follows a search in a line: `found` holds the bytes of the match, `offsets` and
/// `anchors` say where each character starts and stands.
pub fn take_found(
    text: &str,
    offsets: &Vec<usize>,
    anchors: &Vec<SearchAnchor>,
    found: Option<(usize, usize)>,
) -> (result: FoundStep)
    requires
        are_offsets(offsets@, text@),
        anchors@.len() == text@.len(),
    ensures
        result == found_step(text@, anchors@, found_view(found)),
        match result {
            FoundStep::Finished | FoundStep::Invalid => true,
            FoundStep::Skip { next } => {
                &&& (found->0).1 < next
                &&& on_characters(text@, next as int, next as int)
            },
            FoundStep::Match { value, next } => {
                &&& (found->0).0 < next
                &&& on_characters(text@, next as int, next as int)
            },
        },
{
    let length: usize = text.as_bytes().len();
    let count: usize = offsets.len();
    assert(text@.take(text@.len() as int) =~= text@);
    match found {
        None => FoundStep::Finished,
        Some((start, end)) => {
            let first: usize = count_below(offsets, start, Ghost(text@));
            let after: usize = count_below(offsets, end, Ghost(text@));
            let starts = is_offset(offsets, first, start, length, Ghost(text@));
            let ends = is_offset(offsets, after, end, length, Ghost(text@));
            if !starts || !ends || start > end {
                proof {
                    if on_characters(text@, start as int, end as int) {
                        let (i, j) = choose|i: int, j: int|
                            0 <= i <= j <= text@.len() && start == #[trigger] byte_offset(text@, i)
                                && end == #[trigger] byte_offset(text@, j);
                        if i < j {
                            byte_offset_grows(text@, i, j);
                        }
                        assert(false);
                    }
                }
                return FoundStep::Invalid;
            }
            let ghost i = first as int;
            let ghost j = after as int;
            proof {
                if j < i {
                    byte_offset_grows(text@, j, i);
                }
                assert(on_characters(text@, start as int, end as int));
                if j < text@.len() {
                    byte_offset_grows(text@, j, text@.len() as int);
                    byte_offset_next(text@, j);
                }
            }
            if start == end {
                if end == length {
                    return FoundStep::Finished;
                }
                assert(j < text@.len()) by {
                    if j == text@.len() {
                        assert(byte_offset(text@, j) == length);
                    }
                }
                let next: usize = if after + 1 < count {
                    offsets[after + 1]
                } else {
                    length
                };
                assert(next == byte_offset(text@, j + 1));
                assert(on_characters(text@, next as int, next as int));
                FoundStep::Skip { next }
            } else {
                proof {
                    assert(i < j);
                    assert(end == byte_offset(text@, j));
                    assert(on_characters(text@, end as int, end as int));
                }
                FoundStep::Match {
                    value: SearchMatch { start: anchors[first], end: anchors[after - 1] },
                    next: end,
                }
            }
        },
    }
}

/// The matches of an expression in one line, from a byte on.
pub open spec fn line_matches(
    pattern: Seq<char>,
    text: Seq<char>,
    anchors: Seq<SearchAnchor>,
    from: int,
) -> Seq<SearchMatch>
    decreases encode_utf8(text).len() - from,
{
    match found_step(text, anchors, regex_find(pattern, text, from)) {
        FoundStep::Finished | FoundStep::Invalid => Seq::empty(),
        FoundStep::Skip { next } => if from < next <= encode_utf8(text).len() {
            line_matches(pattern, text, anchors, next as int)
        } else {
            Seq::empty()
        },
        FoundStep::Match { value, next } => if from < next <= encode_utf8(text).len() {
            seq![value] + line_matches(pattern, text, anchors, next as int)
        } else {
            seq![value]
        },
    }
}

/// The matches in the lines that have come to their end.
pub open spec fn closed_matches(pattern: Seq<char>, tokens: Seq<Token>) -> Seq<SearchMatch>
    decreases tokens.len(),
{
    if tokens.len() == 0 {
        Seq::empty()
    } else {
        let init = tokens.drop_last();
        match tokens.last() {
            Token::Break => closed_matches(pattern, init) + line_matches(
                pattern,
                line_chars(init),
                line_anchors(init),
                0,
            ),
            Token::Scalar(_, _) => closed_matches(pattern, init),
        }
    }
}

/// The last row of the screen was wrapped, so its last line has not come to its end.
pub open spec fn open_end(screen: &TerminalScreen) -> bool {
    screen.cell(screen.rows@.len() - 1, screen.size.columns - 1).flags.wrapline
}

/// All matches on a screen: those in the lines that come to their end, and those in a last line
/// that does not.
pub open spec fn all_matches(pattern: Seq<char>, screen: &TerminalScreen) -> Seq<SearchMatch> {
    let tokens = screen.all_tokens();
    if open_end(screen) {
        closed_matches(pattern, tokens) + line_matches(
            pattern,
            line_chars(tokens),
            line_anchors(tokens),
            0,
        )
    } else {
        closed_matches(pattern, tokens)
    }
}

/// Where a scan with an expression stands.
#[derive(Clone, Debug)]
pub struct RegexScanCursor {
    content: SearchContentId,
    line: i32,
    column: usize,
    scalar_offset: usize,
    text: String,
    anchors: Vec<SearchAnchor>,
    byte_offsets: Vec<usize>,
    matching: bool,
    match_offset: usize,
}

impl RegexScanCursor {
    /// The content that the scan was started on.
    pub closed spec fn content(&self) -> SearchContentId {
        self.content
    }

    pub closed spec fn row(&self, screen: &TerminalScreen) -> int {
        self.line + screen.history_size
    }

    /// What the scan has read.
    pub closed spec fn read(&self, screen: &TerminalScreen) -> Seq<Token> {
        screen.before(self.row(screen), self.column as int, self.scalar_offset as int)
    }

    /// Whether the scan stands further on than another.
    pub closed spec fn is_past(&self, other: &RegexScanCursor) -> bool {
        ||| self.line > other.line
        ||| self.line == other.line && self.column > other.column
        ||| self.line == other.line && self.column == other.column && self.scalar_offset
            > other.scalar_offset
    }

    closed spec fn same_place(&self, other: &RegexScanCursor) -> bool {
        self.line == other.line && self.column == other.column && self.scalar_offset
            == other.scalar_offset
    }

    /// The line held is a line of the screen, with the place of each of its characters.
    closed spec fn holds(&self, tokens: Seq<Token>) -> bool {
        &&& self.text@ == line_chars(tokens)
        &&& self.anchors@ == line_anchors(tokens)
        &&& are_offsets(self.byte_offsets@, self.text@)
        &&& self.anchors@.len() == self.text@.len()
        &&& encode_utf8(self.text@).len() <= MAX_REGEX_LOGICAL_LINE_BYTES
    }

    /// The matches that the scan owes for what it has read.
    pub closed spec fn owed(&self, pattern: Seq<char>) -> Seq<SearchMatch> {
        if self.matching {
            line_matches(pattern, self.text@, self.anchors@, self.match_offset as int)
        } else {
            Seq::empty()
        }
    }

    /// The matches in what the scan has read; at the end of the screen a line that is left open
    /// counts too.
    pub closed spec fn reached(&self, pattern: Seq<char>, screen: &TerminalScreen) -> Seq<
        SearchMatch,
    > {
        if self.row(screen) == screen.rows@.len() {
            all_matches(pattern, screen)
        } else {
            closed_matches(pattern, self.read(screen))
        }
    }

    closed spec fn ends_open(&self, screen: &TerminalScreen) -> bool {
        self.row(screen) == screen.rows@.len() && open_end(screen)
    }

    /// The matches that the scan has handed out.
    pub closed spec fn found(&self, pattern: Seq<char>, screen: &TerminalScreen) -> Seq<
        SearchMatch,
    > {
        let all = self.reached(pattern, screen);
        all.take(all.len() - self.owed(pattern).len())
    }

    /// The scan stands on the screen and holds the line that it is in. Where it is about to
    /// match a line, that line has just come to its end.
    pub closed spec fn valid(&self, pattern: Seq<char>, screen: &TerminalScreen) -> bool {
        let row = self.row(screen);
        let tokens = self.read(screen);
        &&& 0 <= row <= screen.rows@.len()
        &&& self.column < screen.size.columns
        &&& row < screen.rows@.len() ==> self.scalar_offset <= screen.cell(
            row,
            self.column as int,
        ).scalars().len()
        &&& row == screen.rows@.len() ==> self.column == 0 && self.scalar_offset == 0
        &&& if self.matching {
            let line = if self.ends_open(screen) {
                tokens
            } else {
                tokens.drop_last()
            };
            &&& self.holds(line)
            &&& self.ends_open(screen) || tokens.len() > 0 && tokens.last() is Break
            &&& on_characters(self.text@, self.match_offset as int, self.match_offset as int)
            &&& self.reached(pattern, screen) == self.found(pattern, screen) + self.owed(pattern)
            &&& self.owed(pattern).len() <= self.reached(pattern, screen).len()
            &&& self.column == 0 && self.scalar_offset == 0
        } else {
            &&& self.holds(tokens)
            &&& row < screen.rows@.len()
        }
    }

    pub fn content_id(&self) -> (result: SearchContentId)
        ensures
            result == self.content(),
    {
        self.content
    }

    /// The start of a scan.
    pub fn start(content: SearchContentId, screen: &TerminalScreen) -> (result: RegexScanCursor)
        requires
            screen.wf(),
        ensures
            result.content() == content,
            result.read(screen) == Seq::<Token>::empty(),
            forall|pattern: Seq<char>| #[trigger] result.valid(pattern, screen),
            forall|pattern: Seq<char>| (#[trigger] result.found(pattern, screen)).len() == 0,
    {
        let result = RegexScanCursor {
            content,
            line: -(screen.history_size as i32),
            column: 0,
            scalar_offset: 0,
            text: String::new(),
            anchors: Vec::new(),
            byte_offsets: Vec::new(),
            matching: false,
            match_offset: 0,
        };
        proof {
            assert(result.read(screen) =~= Seq::empty());
            assert(result.anchors@ =~= Seq::empty());
            assert forall|pattern: Seq<char>| (#[trigger] result.found(pattern, screen)).len()
                == 0 by {
                assert(result.reached(pattern, screen).len() == 0);
            }
        }
        result
    }
}

/// Collects matches in the line that a cursor holds, until there is no further one or there is
/// no room for one. What the engine finds in a text starts and ends between characters, so that
/// no place is invalid.
fn collect_regex_matches(
    compiled: &CompiledRegex,
    cursor: &mut RegexScanCursor,
    matches: &mut Vec<SearchMatch>,
    max_matches: usize,
) -> (result: Result<(), SearchError>)
    requires
        old(cursor).matching,
        are_offsets(old(cursor).byte_offsets@, old(cursor).text@),
        old(cursor).anchors@.len() == old(cursor).text@.len(),
        on_characters(
            old(cursor).text@,
            old(cursor).match_offset as int,
            old(cursor).match_offset as int,
        ),
        old(matches)@.len() <= max_matches,
    ensures
        result is Ok,
        ({
            let fresh = final(matches)@.skip(old(matches)@.len() as int);
            &&& final(matches)@.len() >= old(matches)@.len()
            &&& final(matches)@ == old(matches)@ + fresh
            &&& old(cursor).owed(compiled@) == fresh + final(cursor).owed(compiled@)
        }),
        final(matches)@.len() <= max_matches,
        final(cursor).matching ==> final(matches)@.len() == max_matches,
        !final(cursor).matching ==> final(matches)@.len() < max_matches,
        final(cursor).content == old(cursor).content,
        final(cursor).line == old(cursor).line,
        final(cursor).column == old(cursor).column,
        final(cursor).scalar_offset == old(cursor).scalar_offset,
        final(cursor).text == old(cursor).text,
        final(cursor).anchors == old(cursor).anchors,
        final(cursor).byte_offsets == old(cursor).byte_offsets,
        on_characters(
            final(cursor).text@,
            final(cursor).match_offset as int,
            final(cursor).match_offset as int,
        ),
{
    proof {
        use_type_invariant(compiled);
    }
    let ghost text = cursor.text@;
    let ghost anchors = cursor.anchors@;
    let ghost start = matches@;
    let ghost owed = cursor.owed(compiled@);
    let length: usize = cursor.text.as_str().as_bytes().len();
    proof {
        assert(matches@.skip(start.len() as int) + cursor.owed(compiled@) =~= owed);
        assert(start + matches@.skip(start.len() as int) =~= matches@);
    }
    while matches.len() < max_matches
        invariant
            cursor.matching,
            regex_setup(compiled.regex) is Some,
            cursor.content == old(cursor).content,
            cursor.line == old(cursor).line,
            cursor.column == old(cursor).column,
            cursor.scalar_offset == old(cursor).scalar_offset,
            cursor.text == old(cursor).text,
            cursor.anchors == old(cursor).anchors,
            cursor.byte_offsets == old(cursor).byte_offsets,
            text == cursor.text@,
            anchors == cursor.anchors@,
            start == old(matches)@,
            owed == old(cursor).owed(compiled@),
            length == encode_utf8(text).len(),
            are_offsets(cursor.byte_offsets@, text),
            anchors.len() == text.len(),
            on_characters(text, cursor.match_offset as int, cursor.match_offset as int),
            start.len() <= matches@.len() <= max_matches,
            matches@ == start + matches@.skip(start.len() as int),
            owed == matches@.skip(start.len() as int) + cursor.owed(compiled@),
        decreases length - cursor.match_offset,
    {
        let found = find_from(&compiled.regex, cursor.text.as_str(), cursor.match_offset);
        let step = take_found(
            cursor.text.as_str(),
            &cursor.byte_offsets,
            &cursor.anchors,
            found,
        );
        let ghost fresh = matches@.skip(start.len() as int);
        let ghost from = cursor.match_offset as int;
        proof {
            characters_fit(text, from);
            assert(found_view(found) == regex_find(compiled@, text, from));
        }
        match step {
            FoundStep::Finished => {
                cursor.matching = false;
                assert(owed =~= fresh + Seq::<SearchMatch>::empty());
                return Ok(());
            },
            FoundStep::Invalid => {
                return Err(SearchError::InvalidCoordinate);
            },
            FoundStep::Skip { next } => {
                proof {
                    characters_fit(text, next as int);
                }
                cursor.match_offset = next;
            },
            FoundStep::Match { value, next } => {
                proof {
                    characters_fit(text, next as int);
                }
                let ghost old_matches = matches@;
                matches.push(value);
                cursor.match_offset = next;
                proof {
                    assert(matches@.skip(start.len() as int) =~= fresh.push(value));
                    let rest = cursor.owed(compiled@);
                    assert(fresh + (seq![value] + rest) =~= fresh.push(value) + rest);
                    assert(matches@ =~= start + matches@.skip(start.len() as int));
                }
            },
        }
    }
    Ok(())
}

proof fn characters_fit(text: Seq<char>, byte: int)
    requires
        on_characters(text, byte, byte),
    ensures
        byte <= encode_utf8(text).len(),
{
    let i = choose|i: int, j: int|
        0 <= i <= j <= text.len() && byte == #[trigger] byte_offset(text, i) && byte
            == #[trigger] byte_offset(text, j);
    assert(text.take(text.len() as int) =~= text);
    let (i, j) = i;
    if i < text.len() {
        byte_offset_grows(text, i, text.len() as int);
    }
}

/// What one step of a scan found, and where the next one starts.
#[derive(Clone, Debug)]
pub struct RegexScanStep {
    pub content: SearchContentId,
    pub matches: Vec<SearchMatch>,
    pub next: Option<RegexScanCursor>,
    pub scanned_rows: usize,
}

impl RegexScanStep {
    /// What has been read when the step is done.
    pub open spec fn reads(&self, screen: &TerminalScreen) -> Seq<Token> {
        match self.next {
            Some(cursor) => cursor.read(screen),
            None => screen.all_tokens(),
        }
    }

    /// A step adds to what had been found, in order; without a next one that is everything.
    pub open spec fn continues(
        &self,
        pattern: Seq<char>,
        screen: &TerminalScreen,
        found: Seq<SearchMatch>,
    ) -> bool {
        match self.next {
            Some(cursor) => {
                &&& cursor.valid(pattern, screen)
                &&& cursor.content() == self.content
                &&& cursor.found(pattern, screen) == found + self.matches@
            },
            None => all_matches(pattern, screen) == found + self.matches@,
        }
    }

    /// What a step does with its budget: it keeps within it, it counts the rows that it leaves, it
    /// gets on or finds something where the budget lets it, one that is never late only stops
    /// where the budget is used up, one that is late from the first stops when it first looks at
    /// the clock, and no line that it read was too long.
    pub open spec fn uses(
        &self,
        budget: SearchBudget,
        pace: Pace,
        cursor: &RegexScanCursor,
        screen: &TerminalScreen,
    ) -> bool {
        let rows = at_most(budget.max_rows, MAX_SEARCH_SLICE_ROWS);
        let most = at_most(budget.max_matches, MAX_SEARCH_MATCHES);
        &&& self.matches@.len() <= most
        &&& self.scanned_rows <= rows
        &&& match self.next {
            Some(next) => {
                &&& next.row(screen) == cursor.row(screen) + self.scanned_rows
                &&& rows > 0 && most > 0 ==> self.matches@.len() > 0 || next.is_past(cursor)
                &&& pace.punctual ==> self.matches@.len() == most || self.scanned_rows == rows
            },
            None => screen.rows@.len() == cursor.row(screen) + self.scanned_rows,
        }
        &&& pace.late ==> {
            &&& self.scanned_rows <= 1
            &&& self.reads(screen).len() <= cursor.read(screen).len() + CLOCK_CHARACTERS
        }
        &&& fit_from(self.reads(screen), cursor.read(screen).len() as int)
    }
}

/// Whether a line has grown too long to be matched when it has been read up to a character of one
/// of some rows.
pub open spec fn too_long_within(screen: &TerminalScreen, from: int, rows: int) -> bool {
    exists|r: int, c: int, k: int|
        {
            &&& from <= r < from + rows
            &&& r < screen.rows@.len()
            &&& 0 <= c < screen.size.columns
            &&& 0 < k <= screen.cell(r, c).scalars().len()
            &&& encode_utf8(line_chars(#[trigger] screen.before(r, c, k))).len()
                > MAX_REGEX_LOGICAL_LINE_BYTES
        }
}

/// Every line of the screen is short enough to be matched.
pub open spec fn lines_fit(screen: &TerminalScreen) -> bool {
    forall|r: int, c: int, k: int|
        encode_utf8(line_chars(#[trigger] screen.before(r, c, k))).len()
            <= MAX_REGEX_LOGICAL_LINE_BYTES
}

/// Whether every line was short enough to be matched while a text was read on from a token.
pub open spec fn fit_from(tokens: Seq<Token>, from: int) -> bool {
    forall|n: int|
        from <= n <= tokens.len() ==> encode_utf8(line_chars(#[trigger] tokens.take(n))).len()
            <= MAX_REGEX_LOGICAL_LINE_BYTES
}

/// Reading one token more.
proof fn fits_one_more(tokens: Seq<Token>, from: int, token: Token)
    requires
        0 <= from,
        fit_from(tokens, from),
        encode_utf8(line_chars(tokens.push(token))).len() <= MAX_REGEX_LOGICAL_LINE_BYTES,
    ensures
        fit_from(tokens.push(token), from),
{
    let now = tokens.push(token);
    assert forall|n: int| from <= n <= now.len() implies encode_utf8(
        line_chars(#[trigger] now.take(n)),
    ).len() <= MAX_REGEX_LOGICAL_LINE_BYTES by {
        if n == now.len() {
            assert(now.take(n) =~= now);
        } else {
            assert(now.take(n) =~= tokens.take(n));
        }
    }
}

/// Adds a character to the line that a cursor holds, unless the line grows too long.
fn push_scalar(cursor: &mut RegexScanCursor, value: char, anchor: SearchAnchor, tokens: Ghost<
    Seq<Token>,
>) -> (result: bool)
    requires
        old(cursor).holds(tokens@),
    ensures
        ({
            let now = tokens@.push(Token::Scalar(anchor, value));
            &&& result == (encode_utf8(line_chars(now)).len() <= MAX_REGEX_LOGICAL_LINE_BYTES)
            &&& result ==> final(cursor).holds(now)
        }),
        final(cursor).content == old(cursor).content,
        final(cursor).line == old(cursor).line,
        final(cursor).column == old(cursor).column,
        final(cursor).scalar_offset == old(cursor).scalar_offset,
        final(cursor).matching == old(cursor).matching,
        final(cursor).match_offset == old(cursor).match_offset,
{
    let ghost now = tokens@.push(Token::Scalar(anchor, value));
    let ghost text = cursor.text@;
    let length: usize = cursor.text.as_str().as_bytes().len();
    proof {
        assert(now.drop_last() =~= tokens@);
        assert(text.push(value) =~= text + seq![value]);
        encode_concat(text, seq![value]);
    }
    if length + utf8_len(value) > MAX_REGEX_LOGICAL_LINE_BYTES {
        return false;
    }
    cursor.byte_offsets.push(length);
    cursor.anchors.push(anchor);
    cursor.text.push(value);
    proof {
        assert forall|i: int| 0 <= i < cursor.text@.len() implies #[trigger] cursor.byte_offsets@[i]
            == byte_offset(cursor.text@, i) by {
            assert(cursor.text@.take(i) =~= text.take(i));
            if i == text.len() {
                assert(text.take(i) =~= text);
            }
        }
    }
    true
}

/// Scans on from a cursor until a limit of the budget is reached, the clock passes its deadline
/// or everything has been read and matched. A line is matched when it has come to its end. The
/// clock is read after every [`CLOCK_CHARACTERS`] characters and every row.
#[verifier::rlimit(40)]
pub fn scan_regex<C: Fn() -> Instant>(
    screen: &TerminalScreen,
    content: SearchContentId,
    compiled: &CompiledRegex,
    cursor: RegexScanCursor,
    budget: SearchBudget,
    clock: &C,
) -> (result: Result<RegexScanStep, SearchError>)
    requires
        screen.wf(),
        cursor.content() == content ==> cursor.valid(compiled@, screen),
        clock.requires(()),
    ensures
        cursor.content() != content ==> result is Err && result->Err_0 == SearchError::StaleContent,
        cursor.content() == content ==> match result {
            Ok(step) => {
                &&& step.content == content
                &&& step.continues(compiled@, screen, cursor.found(compiled@, screen))
                &&& step.uses(budget, pace(*clock, budget.deadline), &cursor, screen)
            },
            Err(error) => {
                &&& error == SearchError::RegexLineTooLong
                &&& too_long_within(
                    screen,
                    cursor.row(screen),
                    at_most(budget.max_rows, MAX_SEARCH_SLICE_ROWS) as int,
                )
                &&& !lines_fit(screen)
            },
        },
{
    if cursor.content != content {
        return Err(SearchError::StaleContent);
    }
    let ghost pattern = compiled@;
    let ghost done = cursor.found(pattern, screen);
    let ghost read = cursor.read(screen);
    let max_rows: usize = smaller(budget.max_rows, MAX_SEARCH_SLICE_ROWS);
    let max_matches: usize = smaller(budget.max_matches, MAX_SEARCH_MATCHES);
    let last_line: i32 = screen.size.lines as i32 - 1;
    let columns: usize = screen.size.columns();
    let mut at = cursor;
    let mut matches: Vec<SearchMatch> = Vec::new();
    let mut scanned_rows: usize = 0;
    let mut since_clock: usize = 0;
    let mut late = false;
    proof {
        assert(done + matches@ =~= done);
        assert(read.take(read.len() as int) =~= read);
        assert(fit_from(read, read.len() as int));
    }
    loop
        invariant
            screen.wf(),
            clock.requires(()),
            pattern == compiled@,
            cursor.content() == content,
            done == cursor.found(pattern, screen),
            at.content == content,
            at.valid(pattern, screen),
            columns == screen.size.columns,
            last_line == screen.size.lines - 1,
            at.found(pattern, screen) == done + matches@,
            matches@.len() <= max_matches,
            scanned_rows <= max_rows,
            max_matches == at_most(budget.max_matches, MAX_SEARCH_MATCHES),
            max_rows == at_most(budget.max_rows, MAX_SEARCH_SLICE_ROWS),
            since_clock < CLOCK_CHARACTERS,
            at.row(screen) == cursor.row(screen) + scanned_rows,
            at.same_place(&cursor) || at.is_past(&cursor),
            at.same_place(&cursor) ==> scanned_rows == 0,
            !late,
            read == cursor.read(screen),
            fit_from(at.read(screen), read.len() as int),
            always_late(*clock, budget.deadline) ==> scanned_rows == 0 && at.read(screen).len()
                == read.len() + since_clock,
        decreases
            screen.rows@.len() - at.row(screen),
            columns - at.column,
    {
        if at.matching {
            let ghost before = at;
            let ghost old_matches = matches@;
            match collect_regex_matches(compiled, &mut at, &mut matches, max_matches) {
                Ok(_) => {},
                Err(error) => {
                    return Err(error);
                },
            }
            let ghost fresh = matches@.skip(old_matches.len() as int);
            proof {
                after_collecting(pattern, screen, before, at, fresh);
                assert(done + old_matches + fresh =~= done + matches@);
            }
            if at.matching {
                return Ok(RegexScanStep { content, matches, next: Some(at), scanned_rows });
            }
            at.text = String::new();
            at.anchors.clear();
            at.byte_offsets.clear();
            at.match_offset = 0;
            assert(at.anchors@ =~= Seq::empty());
            assert(at.found(pattern, screen) =~= at.reached(pattern, screen));
            if at.line > last_line {
                return Ok(RegexScanStep { content, matches, next: None, scanned_rows });
            }
        }
        if scanned_rows == max_rows {
            return Ok(RegexScanStep { content, matches, next: Some(at), scanned_rows });
        }
        let row: usize = (at.line as i64 + screen.history_size as i64) as usize;
        let cell = &screen.rows[row][at.column];
        let scalar_count: usize = cell.scalar_count();
        let ghost col = at.column as int;
        while at.scalar_offset < scalar_count
            invariant
                screen.wf(),
                clock.requires(()),
                pattern == compiled@,
                cursor.content() == content,
                done == cursor.found(pattern, screen),
                at.content == content,
                at.valid(pattern, screen),
                !at.matching,
                at.row(screen) == row,
                row == cursor.row(screen) + scanned_rows,
                row < screen.rows@.len(),
                at.column == col,
                col < screen.size.columns,
                *cell == screen.cell(row as int, col),
                scalar_count == cell.scalars().len(),
                scalar_count <= 65,
                at.found(pattern, screen) == done + matches@,
                matches@.len() <= max_matches,
                scanned_rows < max_rows,
                max_matches == at_most(budget.max_matches, MAX_SEARCH_MATCHES),
                max_rows == at_most(budget.max_rows, MAX_SEARCH_SLICE_ROWS),
                since_clock < CLOCK_CHARACTERS,
                at.same_place(&cursor) || at.is_past(&cursor),
                !late,
                read == cursor.read(screen),
                fit_from(at.read(screen), read.len() as int),
                always_late(*clock, budget.deadline) ==> scanned_rows == 0 && at.read(
                    screen,
                ).len() == read.len() + since_clock,
            decreases scalar_count - at.scalar_offset,
        {
            let value = cell.scalar(at.scalar_offset);
            let anchor = SearchAnchor {
                history_line: at.line,
                column: at.column as u16,
                scalar_offset: at.scalar_offset as u8,
            };
            let ghost tokens = at.read(screen);
            proof {
                screen.before_next(row as int, col, at.scalar_offset as int);
                assert(anchor == screen.anchor(row as int, col, at.scalar_offset as int));
            }
            let ghost before = at;
            if !push_scalar(&mut at, value, anchor, Ghost(tokens)) {
                proof {
                    let r = row as int;
                    let now = screen.before(r, col, at.scalar_offset + 1);
                    assert(encode_utf8(line_chars(now)).len() > MAX_REGEX_LOGICAL_LINE_BYTES);
                    assert(too_long_within(screen, cursor.row(screen), max_rows as int));
                }
                return Err(SearchError::RegexLineTooLong);
            }
            at.scalar_offset += 1;
            proof {
                let now = at.read(screen);
                assert(now == tokens.push(Token::Scalar(anchor, value)));
                assert(now.drop_last() =~= tokens);
                assert(at.found(pattern, screen) =~= before.found(pattern, screen));
                fits_one_more(tokens, read.len() as int, Token::Scalar(anchor, value));
            }
            since_clock += 1;
            if since_clock == CLOCK_CHARACTERS {
                since_clock = 0;
                if clock().nanos >= budget.deadline.nanos {
                    return Ok(
                        RegexScanStep { content, matches, next: Some(at), scanned_rows },
                    );
                }
            }
        }
        let ghost before = at;
        proof {
            let here = at.read(screen);
            screen.before_leave(row as int, col);
            assert(encode_utf8(line_chars(here.push(Token::Break))).len() == 0);
            fits_one_more(here, read.len() as int, Token::Break);
        }
        at.scalar_offset = 0;
        at.column += 1;
        if at.column == columns {
            let wrapped = cell.flags.wrapline;
            at.column = 0;
            at.line += 1;
            scanned_rows += 1;
            if !wrapped || at.line > last_line {
                at.matching = true;
                at.match_offset = 0;
            }
            proof {
                after_leaving(pattern, screen, before, at);
            }
            late = clock().nanos >= budget.deadline.nanos;
            if late {
                return Ok(RegexScanStep { content, matches, next: Some(at), scanned_rows });
            }
        } else {
            proof {
                after_leaving(pattern, screen, before, at);
            }
        }
    }
}

/// Matches that are handed out are no longer owed.
proof fn after_collecting(
    pattern: Seq<char>,
    screen: &TerminalScreen,
    before: RegexScanCursor,
    after: RegexScanCursor,
    fresh: Seq<SearchMatch>,
)
    requires
        before.matching,
        before.valid(pattern, screen),
        before.owed(pattern) == fresh + after.owed(pattern),
        after.line == before.line,
        after.column == before.column,
        after.scalar_offset == before.scalar_offset,
        after.text == before.text,
        after.anchors == before.anchors,
        after.byte_offsets == before.byte_offsets,
        on_characters(after.text@, after.match_offset as int, after.match_offset as int),
    ensures
        after.found(pattern, screen) == before.found(pattern, screen) + fresh,
        after.matching ==> after.valid(pattern, screen),
        !after.matching ==> after.found(pattern, screen) == after.reached(pattern, screen),
{
    let all = before.reached(pattern, screen);
    assert(after.reached(pattern, screen) == all);
    assert(after.read(screen) == before.read(screen));
    let owed = after.owed(pattern);
    assert(all =~= before.found(pattern, screen) + fresh + owed);
    assert(after.found(pattern, screen) =~= before.found(pattern, screen) + fresh);
    assert(all =~= after.found(pattern, screen) + owed);
    if !after.matching {
        assert(owed.len() == 0);
        assert(after.found(pattern, screen) =~= all);
    }
}

/// Leaving a cell that has been read: a line that comes to its end is owed its matches.
proof fn after_leaving(
    pattern: Seq<char>,
    screen: &TerminalScreen,
    before: RegexScanCursor,
    after: RegexScanCursor,
)
    requires
        screen.wf(),
        !before.matching,
        before.valid(pattern, screen),
        ({
            let row = before.row(screen);
            let col = before.column as int;
            let ends = col + 1 == screen.size.columns;
            &&& before.scalar_offset == screen.cell(row, col).scalars().len()
            &&& after.line == before.line + if ends {
                1int
            } else {
                0
            }
            &&& after.column == if ends {
                0
            } else {
                col + 1
            }
            &&& after.scalar_offset == 0
            &&& after.matching == (ends && (!screen.cell(row, col).flags.wrapline || row + 1
                == screen.rows@.len()))
            &&& after.matching ==> after.match_offset == 0
        }),
        after.text == before.text,
        after.anchors == before.anchors,
        after.byte_offsets == before.byte_offsets,
    ensures
        after.valid(pattern, screen),
        after.found(pattern, screen) == before.found(pattern, screen),
{
    let row = before.row(screen);
    let col = before.column as int;
    let here = before.read(screen);
    screen.before_leave(row, col);
    assert(here.push(Token::Break).drop_last() =~= here);
    let now = after.read(screen);
    assert(before.found(pattern, screen) =~= closed_matches(pattern, here));
    if after.matching {
        assert(after.text@.take(0) =~= Seq::empty());
        assert(byte_offset(after.text@, 0) == 0);
        assert(on_characters(after.text@, 0, 0));
        if row + 1 == screen.rows@.len() {
            assert(now =~= screen.all_tokens());
        }
        let owed = line_matches(pattern, line_chars(here), line_anchors(here), 0);
        assert(after.reached(pattern, screen) == closed_matches(pattern, here) + owed);
        assert(after.found(pattern, screen) =~= closed_matches(pattern, here));
    } else {
        assert(after.found(pattern, screen) =~= closed_matches(pattern, now));
    }
}

/// A scan may be cut into steps anywhere: two steps in turn find the matches in order, nothing
/// twice and nothing left out.
pub proof fn regex_steps_add_up(
    pattern: Seq<char>,
    screen: &TerminalScreen,
    found: Seq<SearchMatch>,
    first: RegexScanStep,
    second: RegexScanStep,
)
    requires
        first.continues(pattern, screen, found),
        first.next is Some,
        second.continues(pattern, screen, first.next->0.found(pattern, screen)),
    ensures
        match second.next {
            Some(cursor) => cursor.found(pattern, screen) == found + (first.matches@
                + second.matches@),
            None => all_matches(pattern, screen) == found + (first.matches@ + second.matches@),
        },
{
    assert(found + first.matches@ + second.matches@ =~= found + (first.matches@
        + second.matches@));
}

impl RegexScanCursor {
    /// The line that the scan has read so far.
    pub closed spec fn line_text(&self) -> Seq<char> {
        self.text@
    }

    /// How many places and how many offsets the scan remembers.
    pub closed spec fn remembered(&self) -> (nat, nat) {
        (self.anchors@.len(), self.byte_offsets@.len())
    }

    /// The bytes of a scan that has room for so many bytes of text, places and offsets.
    pub open spec fn bytes(text: nat, places: nat, offsets: nat) -> nat {
        text + places * vstd::layout::size_of::<SearchAnchor>() + offsets
            * vstd::layout::size_of::<usize>()
    }

    /// What the scan needs in memory.
    pub open spec fn least_bytes(&self) -> nat {
        RegexScanCursor::bytes(
            encode_utf8(self.line_text()).len(),
            self.remembered().0,
            self.remembered().1,
        )
    }

    /// The bytes of a scan, by what it has room for.
    pub fn bytes_of(text: usize, places: usize, offsets: usize) -> (result: usize)
        ensures
            result == capped(
                RegexScanCursor::bytes(text as nat, places as nat, offsets as nat),
            ),
    {
        text.saturating_add(room(places, core::mem::size_of::<SearchAnchor>())).saturating_add(
            room(offsets, core::mem::size_of::<usize>()),
        )
    }

    /// What the scan holds in memory. How much room it has beyond what it needs depends on the
    /// allocator.
    pub fn allocated_bytes(&self) -> (result: usize)
        ensures
            exists|text: usize, places: usize, offsets: usize|
                text >= encode_utf8(self.line_text()).len() && places >= self.remembered().0
                    && offsets >= self.remembered().1 && result == capped(
                    #[trigger] RegexScanCursor::bytes(
                        text as nat,
                        places as nat,
                        offsets as nat,
                    ),
                ),
            result >= capped(self.least_bytes()),
    {
        let text: usize = string_capacity(&self.text);
        let places: usize = vec_capacity(&self.anchors);
        let offsets: usize = vec_capacity(&self.byte_offsets);
        proof {
            more_items_take_more(
                self.remembered().0,
                places as nat,
                vstd::layout::size_of::<SearchAnchor>(),
            );
            more_items_take_more(
                self.remembered().1,
                offsets as nat,
                vstd::layout::size_of::<usize>(),
            );
        }
        RegexScanCursor::bytes_of(text, places, offsets)
    }
}

proof fn counted_back(text: Seq<char>, i: int)
    requires
        0 <= i <= text.len(),
    ensures
        chars_before(text, byte_offset(text, i) as int) == i,
{
    let byte = byte_offset(text, i) as int;
    assert forall|k: int| 0 <= k < i implies #[trigger] byte_offset(text, k) < byte by {
        byte_offset_grows(text, k, i);
    }
    assert forall|k: int| i <= k < text.len() implies #[trigger] byte_offset(text, k) >= byte by {
        if i < k {
            byte_offset_grows(text, i, k);
        }
    }
    chars_before_is(text, byte, i);
}

/// What an expression is found in goes from its first character to its last, both of them in it,
/// and the search goes on right behind it.
pub proof fn a_match_goes_from_its_first_to_its_last_character(
    text: Seq<char>,
    anchors: Seq<SearchAnchor>,
    i: int,
    j: int,
)
    requires
        0 <= i < j <= text.len(),
        anchors.len() == text.len(),
        encode_utf8(text).len() <= usize::MAX,
    ensures
        ({
            let found = (encode_utf8(text.take(i)).len() as int, encode_utf8(
                text.take(j),
            ).len() as int);
            &&& found_step(text, anchors, Some(found)) matches FoundStep::Match { value, next } && {
                &&& value.start == anchors[i]
                &&& value.end == anchors[j - 1]
                &&& next == found.1
            }
        }),
{
    counted_back(text, i);
    counted_back(text, j);
    byte_offset_grows(text, i, j);
    assert(text.take(text.len() as int) =~= text);
    if j < text.len() {
        byte_offset_grows(text, j, text.len() as int);
    }
    assert(on_characters(text, byte_offset(text, i) as int, byte_offset(text, j) as int));
}

/// An empty match is none, and the search goes on one character further. At the end of a line, or
/// where nothing is found, it is over.
pub proof fn an_empty_match_is_passed_over(text: Seq<char>, anchors: Seq<SearchAnchor>, i: int)
    requires
        0 <= i <= text.len(),
        anchors.len() == text.len(),
        encode_utf8(text).len() <= usize::MAX,
    ensures
        ({
            let here = encode_utf8(text.take(i)).len() as int;
            let step = found_step(text, anchors, Some((here, here)));
            &&& i < text.len() ==> step is Skip && step->Skip_next == encode_utf8(
                text.take(i + 1),
            ).len() && here < step->Skip_next
            &&& i == text.len() ==> step is Finished
            &&& found_step(text, anchors, None) is Finished
        }),
{
    counted_back(text, i);
    assert(text.take(text.len() as int) =~= text);
    if i < text.len() {
        byte_offset_grows(text, i, text.len() as int);
        byte_offset_grows(text, i, i + 1);
        if i + 1 < text.len() {
            byte_offset_grows(text, i + 1, text.len() as int);
        }
    }
    assert(on_characters(text, byte_offset(text, i) as int, byte_offset(text, i) as int));
}

} // verus!
