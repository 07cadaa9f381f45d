//! What someone who searches the scrollback relies on.
use vstd::prelude::*;
use crate::search::{
    candidate_error, chars_ahead, chars_back, destination, first_visible, is_visible, met_all, moved_to, scroll_target,
    ControllerScanCursor, NavigationProgress, SearchDirection, SearchEdit, SearchEffect, SearchModel,
    SEARCH_DEBOUNCE,
};
use crate::terminal::adapter::{visible_cell, CoreModel};
use crate::terminal::screen::{TerminalScreen, Token};
use crate::terminal::search::{
    line_anchors, line_chars, occurrences, overlaps, query_error, SearchAnchor, SearchError,
    SearchMatch, MAX_SEARCH_MATCHES,
};
use crate::text::encode_concat;
use crate::time::Instant;
use vstd::utf8::encode_utf8;

verus! {

/// One place comes after another where its line is below, or where it is further right on the same
/// line, or further on in the same cell. Of two places that differ one comes after the other, and
/// never both.
pub proof fn places_are_ordered_as_they_are_read(a: SearchAnchor, b: SearchAnchor, c: SearchAnchor)
    ensures
        a.history_line > b.history_line ==> a.is_after(b),
        a.history_line == b.history_line && a.column > b.column ==> a.is_after(b),
        a.history_line == b.history_line && a.column == b.column && a.scalar_offset
            > b.scalar_offset ==> a.is_after(b),
        !(a.is_after(b) && b.is_after(a)),
        a.is_after(b) || b.is_after(a) || a == b,
        !a.is_after(a),
        a.is_after(b) && b.is_after(c) ==> a.is_after(c),
{
}

/// A search that is done and has found something.
pub open spec fn is_done(m: SearchModel) -> bool {
    m.wf() && m.open && m.query().len() > 0 && m.phase is Ready && m.matches.len() > 0
}

/// On a finished search, the next match is the one after the current one and the previous match
/// the one before it; after the last comes the first, and before the first the last. Without a
/// current match, the next is the first and the previous the last. Nothing else changes.
pub proof fn a_move_leads_to_the_neighbour(
    m: SearchModel,
    n: SearchModel,
    effect: SearchEffect,
    direction: SearchDirection,
    core: CoreModel,
    screen: &TerminalScreen,
    now: Instant,
)
    requires
        is_done(m),
        moved_to(m, n, effect, direction, core, screen, now),
    ensures
        ({
            let last = m.matches.len() - 1;
            &&& n.saved is Some
            &&& n.current == Some(m.matches[n.saved->0 as int])
            &&& n == (SearchModel { saved: n.saved, current: n.current, ..m })
            &&& effect.needs_frame
            &&& effect.scroll_target == scroll_target(n.current->0, core, screen)
            &&& direction is Next ==> match m.saved {
                Some(k) => if k == last {
                    n.saved->0 == 0
                } else {
                    n.saved->0 == k + 1
                },
                None => n.saved->0 == 0,
            }
            &&& direction is Previous ==> match m.saved {
                Some(k) => if k == 0 {
                    n.saved->0 == last
                } else {
                    n.saved->0 + 1 == k
                },
                None => n.saved->0 == last,
            }
        }),
{
    let len = m.matches.len() as int;
    let at = match m.saved {
        Some(index) => index as int,
        None => if direction is Next {
            len - 1
        } else {
            0
        },
    };
    assert(0 <= at < len);
    if at + 1 < len {
        vstd::arithmetic::div_mod::lemma_small_mod((at + 1) as nat, len as nat);
    } else {
        vstd::arithmetic::div_mod::lemma_mod_self_0(len);
    }
    if at > 0 {
        vstd::arithmetic::div_mod::lemma_mod_add_multiples_vanish(at - 1, len);
        vstd::arithmetic::div_mod::lemma_small_mod((at - 1) as nat, len as nat);
    } else {
        vstd::arithmetic::div_mod::lemma_small_mod((len - 1) as nat, len as nat);
    }
}

/// On a finished search with a current match, a move to the next match and one to the previous
/// match undo each other.
pub proof fn moves_undo_each_other(
    m: SearchModel,
    there: SearchModel,
    back: SearchModel,
    effects: (SearchEffect, SearchEffect),
    directions: (SearchDirection, SearchDirection),
    core: CoreModel,
    screen: &TerminalScreen,
    now: Instant,
)
    requires
        is_done(m),
        m.saved is Some,
        m.current == Some(m.matches[m.saved->0 as int]),
        directions.0 != directions.1,
        moved_to(m, there, effects.0, directions.0, core, screen, now),
        moved_to(there, back, effects.1, directions.1, core, screen, now),
    ensures
        back == m,
{
    a_move_leads_to_the_neighbour(m, there, effects.0, directions.0, core, screen, now);
    a_move_leads_to_the_neighbour(there, back, effects.1, directions.1, core, screen, now);
}

/// Whether matches stand in the order in which they are read.
pub open spec fn are_in_order(matches: Seq<SearchMatch>) -> bool {
    forall|i: int, j: int|
        0 <= i < j < matches.len() ==> (#[trigger] matches[j]).start.is_after(
            (#[trigger] matches[i]).start,
        )
}

/// Where the matches stand in order, the next match starts after the current one and the previous
/// one before it, unless the move goes around the end, and no match that is kept lies between.
pub proof fn no_match_is_passed_over(
    m: SearchModel,
    n: SearchModel,
    effect: SearchEffect,
    direction: SearchDirection,
    core: CoreModel,
    screen: &TerminalScreen,
    now: Instant,
    i: int,
)
    requires
        is_done(m),
        m.saved is Some,
        are_in_order(m.matches),
        moved_to(m, n, effect, direction, core, screen, now),
        0 <= i < m.matches.len(),
    ensures
        ({
            let from = m.matches[m.saved->0 as int].start;
            let to = n.current->0.start;
            let other = m.matches[i].start;
            &&& direction is Next && m.saved->0 + 1 < m.matches.len() ==> to.is_after(from) && !(
            other.is_after(from) && to.is_after(other))
            &&& direction is Next && m.saved->0 + 1 == m.matches.len() ==> !to.is_after(other)
            &&& direction is Previous && m.saved->0 > 0 ==> from.is_after(to) && !(from.is_after(
                other,
            ) && other.is_after(to))
            &&& direction is Previous && m.saved->0 == 0 ==> !other.is_after(to)
        }),
{
    a_move_leads_to_the_neighbour(m, n, effect, direction, core, screen, now);
    let k = m.saved->0 as int;
    let t = n.saved->0 as int;
    places_are_ordered_as_they_are_read(m.matches[i].start, m.matches[t].start, m.matches[k].start);
    places_are_ordered_as_they_are_read(m.matches[i].start, m.matches[k].start, m.matches[t].start);
    if i < k {
        assert(m.matches[k].start.is_after(m.matches[i].start));
    } else if i > k {
        assert(m.matches[i].start.is_after(m.matches[k].start));
    }
    if i < t {
        assert(m.matches[t].start.is_after(m.matches[i].start));
    } else if i > t {
        assert(m.matches[i].start.is_after(m.matches[t].start));
    }
    if k < t {
        assert(m.matches[t].start.is_after(m.matches[k].start));
    } else if t < k {
        assert(m.matches[k].start.is_after(m.matches[t].start));
    }
}

proof fn what_was_met(n: NavigationProgress, matches: Seq<SearchMatch>)
    requires
        n.first is None,
        n.last is None,
        n.directional is None,
    ensures
        ({
            let done = met_all(n, matches);
            &&& done.direction == n.direction && done.origin == n.origin
            &&& matches.len() == 0 ==> done.first is None && done.last is None
            &&& matches.len() > 0 ==> done.first == Some(matches[0]) && done.last == Some(
                matches.last(),
            )
            &&& n.direction is Next ==> match done.directional {
                Some(value) => exists|i: int|
                    0 <= i < matches.len() && value == #[trigger] matches[i]
                        && value.start.is_after(n.origin) && forall|j: int|
                        0 <= j < i ==> !(#[trigger] matches[j]).start.is_after(n.origin),
                None => forall|j: int|
                    0 <= j < matches.len() ==> !(#[trigger] matches[j]).start.is_after(n.origin),
            }
            &&& n.direction is Previous ==> match done.directional {
                Some(value) => exists|i: int|
                    0 <= i < matches.len() && value == #[trigger] matches[i] && n.origin.is_after(
                        value.start,
                    ) && forall|j: int|
                        i < j < matches.len() ==> !n.origin.is_after((#[trigger] matches[j]).start),
                None => forall|j: int|
                    0 <= j < matches.len() ==> !n.origin.is_after((#[trigger] matches[j]).start),
            }
        }),
    decreases matches.len(),
{
    if matches.len() > 0 {
        let init = matches.drop_last();
        what_was_met(n, init);
        let before = met_all(n, init);
        let done = met_all(n, matches);
        assert forall|j: int| 0 <= j < init.len() implies #[trigger] init[j] == matches[j] by {}
        let last = matches.len() - 1;
        if n.direction is Next {
            match before.directional {
                Some(value) => {
                    let i = choose|i: int|
                        0 <= i < init.len() && value == #[trigger] init[i] && value.start.is_after(
                            n.origin,
                        ) && forall|j: int|
                            0 <= j < i ==> !(#[trigger] init[j]).start.is_after(n.origin);
                    assert(value == matches[i]);
                    assert forall|j: int| 0 <= j < i implies !(
                    #[trigger] matches[j]).start.is_after(n.origin) by {
                        assert(init[j] == matches[j]);
                    }
                },
                None => {
                    assert forall|j: int| 0 <= j < last implies !(
                    #[trigger] matches[j]).start.is_after(n.origin) by {
                        assert(init[j] == matches[j]);
                    }
                    assert(matches[last] == matches.last());
                },
            }
        } else if n.origin.is_after(matches.last().start) {
            assert(done.directional == Some(matches[last]));
        } else {
            match before.directional {
                Some(value) => {
                    let i = choose|i: int|
                        0 <= i < init.len() && value == #[trigger] init[i] && n.origin.is_after(
                            value.start,
                        ) && forall|j: int|
                            i < j < init.len() ==> !n.origin.is_after((#[trigger] init[j]).start);
                    assert(value == matches[i]);
                    assert forall|j: int| i < j < matches.len() implies !n.origin.is_after(
                        (#[trigger] matches[j]).start,
                    ) by {
                        if j < last {
                            assert(init[j] == matches[j]);
                        }
                    }
                },
                None => {
                    assert forall|j: int| 0 <= j < matches.len() implies !n.origin.is_after(
                        (#[trigger] matches[j]).start,
                    ) by {
                        if j < last {
                            assert(init[j] == matches[j]);
                        }
                    }
                },
            }
        }
    }
}

/// A scan past the matches that are kept leads to the nearest match: the first that starts after
/// its origin or, for the previous one, the last that starts before it; where there is none, around
/// the end to the first or to the last of all.
pub proof fn a_scan_leads_to_the_nearest_match(n: NavigationProgress, matches: Seq<SearchMatch>)
    requires
        n.first is None,
        n.last is None,
        n.directional is None,
        are_in_order(matches),
    ensures
        ({
            let to = destination(met_all(n, matches));
            &&& to is Some <==> matches.len() > 0
            &&& to is Some ==> matches.contains(to->0)
            &&& forall|i: int|
                0 <= i < matches.len() ==> {
                    let other = (#[trigger] matches[i]).start;
                    &&& n.direction is Next && other.is_after(n.origin) ==> to->0.start.is_after(
                        n.origin,
                    ) && !to->0.start.is_after(other)
                    &&& n.direction is Previous && n.origin.is_after(other) ==> n.origin.is_after(
                        to->0.start,
                    ) && !other.is_after(to->0.start)
                    &&& n.direction is Next && !to->0.start.is_after(n.origin)
                        ==> !to->0.start.is_after(other)
                    &&& n.direction is Previous && !n.origin.is_after(to->0.start)
                        ==> !other.is_after(to->0.start)
                }
        }),
{
    what_was_met(n, matches);
    let done = met_all(n, matches);
    let to = destination(done);
    if matches.len() > 0 {
        let t = if n.direction is Next {
            match done.directional {
                Some(value) => choose|i: int|
                    0 <= i < matches.len() && value == #[trigger] matches[i]
                        && value.start.is_after(n.origin) && forall|j: int|
                        0 <= j < i ==> !(#[trigger] matches[j]).start.is_after(n.origin),
                None => 0,
            }
        } else {
            match done.directional {
                Some(value) => choose|i: int|
                    0 <= i < matches.len() && value == #[trigger] matches[i] && n.origin.is_after(
                        value.start,
                    ) && forall|j: int|
                        i < j < matches.len() ==> !n.origin.is_after((#[trigger] matches[j]).start),
                None => matches.len() - 1,
            }
        };
        assert(to == Some(matches[t]));
        assert forall|i: int| 0 <= i < matches.len() implies {
            let other = (#[trigger] matches[i]).start;
            &&& n.direction is Next && other.is_after(n.origin) ==> to->0.start.is_after(n.origin)
                && !to->0.start.is_after(other)
            &&& n.direction is Previous && n.origin.is_after(other) ==> n.origin.is_after(
                to->0.start,
            ) && !other.is_after(to->0.start)
            &&& n.direction is Next && !to->0.start.is_after(n.origin) ==> !to->0.start.is_after(
                other,
            )
            &&& n.direction is Previous && !n.origin.is_after(to->0.start) ==> !other.is_after(
                to->0.start,
            )
        } by {
            places_are_ordered_as_they_are_read(matches[i].start, matches[t].start, n.origin);
            if i < t {
                assert(matches[t].start.is_after(matches[i].start));
            } else if t < i {
                assert(matches[i].start.is_after(matches[t].start));
            }
        }
    }
}

/// At the display offset that a match scrolls to, all of its lines are on the display, if they fit
/// there. A match that is on the display does not scroll it.
pub proof fn a_match_is_scrolled_into_view(
    value: SearchMatch,
    core: CoreModel,
    screen: &TerminalScreen,
)
    requires
        core.size.lines > 0,
        0 <= screen.display_offset <= screen.history_size,
        !value.start.is_after(value.end),
        -screen.history_size <= value.start.history_line,
        value.end.history_line < core.size.lines,
        value.end.history_line - value.start.history_line < core.size.lines,
    ensures
        ({
            let offset = scroll_target(value, core, screen);
            let lines = core.size.lines as int;
            &&& offset is Some
            &&& offset->0 <= screen.history_size
            &&& 0 <= value.start.history_line + offset->0 < lines
            &&& 0 <= value.end.history_line + offset->0 < lines
            &&& 0 <= value.start.history_line + screen.display_offset
                && value.end.history_line + screen.display_offset < lines
                ==> offset->0 == screen.display_offset
        }),
{
    assert(value.start.history_line <= value.end.history_line);
}

/// A cell is on the display in its own column, as many lines down as the display is scrolled up
/// beyond its own line; it is on the display where that is one of the lines there.
pub proof fn cells_are_shown_where_they_are(
    line: int,
    column: int,
    display_offset: int,
    lines: int,
    columns: int,
)
    requires
        0 <= column < columns <= 65_536,
        0 <= lines <= 65_536,
    ensures
        ({
            let shown = visible_cell(line, column, display_offset, lines, columns);
            &&& shown is Some <==> -display_offset <= line && line < lines - display_offset
            &&& shown is Some ==> (shown->0).0 == column && (shown->0).1 - display_offset == line
        }),
{
}

proof fn the_first_that_is_seen(matches: Seq<SearchMatch>, core: CoreModel, offset: int)
    requires
        matches.len() <= usize::MAX,
    ensures
        match first_visible(matches, core, offset) {
            Some(i) => i < matches.len() && is_visible(matches[i as int], core, offset) && forall|
                j: int,
            |
                0 <= j < i ==> !is_visible(#[trigger] matches[j], core, offset),
            None => forall|j: int|
                0 <= j < matches.len() ==> !is_visible(#[trigger] matches[j], core, offset),
        },
    decreases matches.len(),
{
    if matches.len() > 0 {
        let init = matches.drop_last();
        the_first_that_is_seen(init, core, offset);
        assert(forall|j: int| 0 <= j < init.len() ==> #[trigger] matches[j] == init[j]);
    }
}

/// When a search is done, a match is the current one, if there is any: the first that is on the
/// display or, where none is, the first of all, or the last if the previous one was asked for. No
/// match is lost or made up on the way.
pub proof fn a_finished_search_shows_a_match(
    m: SearchModel,
    fresh: Seq<SearchMatch>,
    core: CoreModel,
    screen: &TerminalScreen,
)
    requires
        m.current is None,
        m.matches.len() + fresh.len() < MAX_SEARCH_MATCHES,
    ensures
        ({
            let n = m.stepped(fresh, None, core, screen).search;
            let offset = screen.display_offset as int;
            &&& n.phase is Ready
            &&& n.matches == m.matches + fresh
            &&& n.current is Some <==> n.matches.len() > 0
            &&& n.matches.len() > 0 ==> {
                let k = n.saved->0 as int;
                &&& n.saved is Some && k < n.matches.len() && n.current == Some(n.matches[k])
                &&& n.pending is None
                &&& forall|j: int|
                    0 <= j < n.matches.len() && is_visible(#[trigger] n.matches[j], core, offset)
                        ==> k <= j && is_visible(n.matches[k], core, offset)
                &&& (forall|j: int|
                    0 <= j < n.matches.len() ==> !is_visible(#[trigger] n.matches[j], core, offset))
                    ==> k == if m.pending == Some(SearchDirection::Previous) {
                    n.matches.len() - 1
                } else {
                    0
                }
            }
        }),
{
    let all = m.matches + fresh;
    the_first_that_is_seen(all, core, screen.display_offset as int);
}

/// Wherever a line of the text reads as the pattern, there is a match from the first of those
/// characters to the last.
pub proof fn every_occurrence_is_found(pattern: Seq<char>, tokens: Seq<Token>, n: int)
    requires
        pattern.len() > 0,
        0 < n <= tokens.len(),
        tokens[n - 1] is Scalar,
        line_chars(tokens.take(n)).len() >= pattern.len(),
        line_chars(tokens.take(n)).skip(line_chars(tokens.take(n)).len() - pattern.len()) == pattern,
    ensures
        ({
            let anchors = line_anchors(tokens.take(n));
            occurrences(pattern, tokens).contains(
                SearchMatch {
                    start: anchors[anchors.len() - pattern.len()],
                    end: tokens[n - 1]->Scalar_0,
                },
            )
        }),
    decreases tokens.len(),
{
    let anchors = line_anchors(tokens.take(n));
    let value = SearchMatch {
        start: anchors[anchors.len() - pattern.len()],
        end: tokens[n - 1]->Scalar_0,
    };
    let init = tokens.drop_last();
    if n == tokens.len() {
        assert(tokens.take(n) =~= tokens);
        let text = line_chars(tokens);
        let tail = text.skip(text.len() - pattern.len());
        assert forall|i: int| 0 <= i < pattern.len() implies #[trigger] pattern[i] == text[text.len()
            - pattern.len() + i] by {
            assert(tail[i] == pattern[i]);
        }
        assert(overlaps(pattern, text, pattern.len() as int));
        let found = occurrences(pattern, tokens);
        assert(found.last() == value);
        assert(found[found.len() - 1] == value);
    } else {
        assert(init.take(n) =~= tokens.take(n));
        every_occurrence_is_found(pattern, init, n);
        let before = occurrences(pattern, init);
        let i = choose|i: int| 0 <= i < before.len() && before[i] == value;
        assert(occurrences(pattern, tokens)[i] == value);
    }
}

/// What is typed stands before the cursor, and a backspace takes one character of it away again;
/// a step to the left and one to the right undo each other, and neither changes the query.
pub proof fn edits_undo_each_other(m: SearchModel, typed: &str)
    ensures
        ({
            let left = m.edit_text(SearchEdit::Left);
            let right = m.edit_text(SearchEdit::Right);
            let home = m.edit_text(SearchEdit::Home);
            let end = m.edit_text(SearchEdit::End);
            let insert = m.edit_text(SearchEdit::Insert(typed));
            let inserted = SearchModel { before: insert.before, after: insert.after, ..m };
            let back = inserted.edit_text(SearchEdit::Backspace);
            let moved_left = SearchModel { before: left.before, after: left.after, ..m };
            let moved_right = SearchModel { before: right.before, after: right.after, ..m };
            &&& left.before + left.after == m.query() && !left.changed
            &&& right.before + right.after == m.query() && !right.changed
            &&& m.before.len() > 0 ==> left.before.len() + 1 == m.before.len()
            &&& m.after.len() > 0 ==> right.before.len() == m.before.len() + 1
            &&& m.before.len() > 0 ==> moved_left.edit_text(SearchEdit::Right).before == m.before
                && moved_left.edit_text(SearchEdit::Right).after == m.after
            &&& m.after.len() > 0 ==> moved_right.edit_text(SearchEdit::Left).before == m.before
                && moved_right.edit_text(SearchEdit::Left).after == m.after
            &&& home.before.len() == 0 && home.after == m.query() && !home.changed
            &&& end.after.len() == 0 && end.before == m.query() && !end.changed
            &&& insert.changed ==> insert.before == m.before + typed@ && insert.after == m.after
            &&& !insert.changed ==> insert.before == m.before && insert.after == m.after
                && insert.notice is Some
            &&& insert.changed && typed@.len() == 1 ==> back.before == m.before && back.after
                == m.after && back.changed
            &&& m.after.len() > 0 ==> m.edit_text(SearchEdit::Delete).after == m.after.skip(1)
                && m.edit_text(SearchEdit::Delete).before == m.before
        }),
{
    let left = m.edit_text(SearchEdit::Left);
    let right = m.edit_text(SearchEdit::Right);
    let insert = m.edit_text(SearchEdit::Insert(typed));
    assert(left.before + left.after =~= m.query());
    assert(right.before + right.after =~= m.query());
    if m.before.len() > 0 {
        assert(left.before.push(left.after[0]) =~= m.before);
        assert(left.after.skip(1) =~= m.after);
    }
    if m.after.len() > 0 {
        assert(right.before.drop_last() =~= m.before);
        assert(seq![right.before.last()] + right.after =~= m.after);
    }
    if insert.changed && typed@.len() == 1 {
        assert(insert.before.drop_last() =~= m.before);
    }
}

/// Closing the dialog keeps the query and drops the results; opening it again searches for that
/// query at once, with the cursor at its end.
pub proof fn a_closed_search_keeps_its_query(m: SearchModel, now: Instant)
    requires
        m.query().len() > 0,
    ensures
        ({
            let closed = m.cancelled().search;
            let again = closed.opened(now);
            &&& !closed.open && closed.query() == m.query()
            &&& closed.matches.len() == 0 && closed.current is None && closed.saved is None
            &&& again.search.open && again.search.before == m.query()
            &&& again.search.after.len() == 0
            &&& again.search.phase is Debouncing && again.search.deadline == Some(now)
            &&& again.effect.needs_deadline && again.effect.needs_frame && again.effect.ime_changed
            &&& m.cancelled().effect.needs_frame && m.cancelled().effect.ime_changed
        }),
{
    let closed = m.cancelled().search;
    assert(closed.before =~= m.before && closed.after =~= m.after);
}

/// A move that cannot be made yet is kept with its direction: until the search has begun, until it
/// has found something, or as a scan from the current match on past the matches that are kept. A
/// closed search and one without a query do not move.
pub proof fn a_move_that_has_to_wait_is_kept(
    m: SearchModel,
    n: SearchModel,
    effect: SearchEffect,
    direction: SearchDirection,
    core: CoreModel,
    screen: &TerminalScreen,
    now: Instant,
)
    requires
        m.wf(),
        moved_to(m, n, effect, direction, core, screen, now),
    ensures
        !m.open || m.query().len() == 0 ==> n == m && effect == SearchEffect::none(),
        m.open && m.query().len() > 0 && (m.phase is Debouncing || m.phase is Empty) ==> n.pending
            == Some(direction) && n.deadline == Some(now) && effect.needs_deadline,
        m.open && m.query().len() > 0 && m.phase is Ready && m.matches.len() == 0 ==> n.pending
            == Some(direction) && n.current == m.current && n.saved == m.saved,
        m.open && m.query().len() > 0 && (m.phase is Scanning || m.phase is Truncated)
            && m.matches.len() > 0 ==> {
            &&& n.navigation is Some
            &&& n.navigation->0.progress.direction == direction
            &&& m.current is Some ==> n.navigation->0.progress.origin == m.current->0.start
            &&& n.current == m.current && n.saved == m.saved && n.matches == m.matches
            &&& effect.needs_deadline
        },
{
}

/// An edit that changes the query drops what was found for the old one and waits for fifty
/// milliseconds before it is searched for; an empty query is not searched for. Moving the cursor
/// keeps the results.
pub proof fn edits_wait_before_they_are_searched_for(m: SearchModel, typed: &str, now: Instant)
    requires
        m.open,
        m.revision < u64::MAX,
        now.nanos < u64::MAX - 50_000_000,
    ensures
        ({
            let insert = m.edited(SearchEdit::Insert(typed), now);
            let left = m.edited(SearchEdit::Left, now);
            let back = m.edited(SearchEdit::Backspace, now);
            &&& m.edit_text(SearchEdit::Insert(typed)).changed && m.before.len() > 0 ==> {
                &&& insert.search.query() == m.before + typed@ + m.after
                &&& insert.search.matches.len() == 0 && insert.search.current is None
                &&& insert.search.phase is Debouncing
                &&& insert.search.deadline is Some && insert.search.deadline->0.nanos == now.nanos
                    + 50_000_000
                &&& insert.effect.needs_deadline
            }
            &&& m.before.len() == 1 && m.after.len() == 0 ==> back.search.phase is Empty
                && back.search.matches.len() == 0 && !back.effect.needs_deadline
            &&& left.search.matches == m.matches && left.search.current == m.current
                && left.search.phase == m.phase && left.search.deadline == m.deadline
        }),
{
    let insert = m.edited(SearchEdit::Insert(typed), now);
    let back = m.edited(SearchEdit::Backspace, now);
    if m.edit_text(SearchEdit::Insert(typed)).changed {
        assert(insert.search.query() =~= m.before + typed@ + m.after);
    }
    if m.before.len() == 1 && m.after.len() == 0 {
        assert(back.search.query().len() == 0);
    }
}

proof fn a_character_takes_a_byte(c: char)
    ensures
        encode_utf8(seq![c]).len() >= 1,
{
    reveal_with_fuel(encode_utf8, 2);
    assert(seq![c].drop_first() =~= Seq::<char>::empty());
}

proof fn back_over(kept: Seq<char>, gone: Seq<char>)
    ensures
        chars_back(kept + gone, encode_utf8(gone).len()) == Some(gone.len()),
    decreases gone.len(),
{
    let text = kept + gone;
    if gone.len() == 0 {
        assert(encode_utf8(gone).len() == 0);
    } else {
        let last = gone.last();
        back_over(kept, gone.drop_last());
        assert(gone =~= gone.drop_last() + seq![last]);
        encode_concat(gone.drop_last(), seq![last]);
        a_character_takes_a_byte(last);
        assert(text.drop_last() =~= kept + gone.drop_last());
        assert(text.last() == last);
    }
}

proof fn ahead_over(gone: Seq<char>, kept: Seq<char>)
    ensures
        chars_ahead(gone + kept, encode_utf8(gone).len()) == Some(gone.len()),
    decreases gone.len(),
{
    let text = gone + kept;
    if gone.len() == 0 {
        assert(encode_utf8(gone).len() == 0);
    } else {
        let first = gone[0];
        ahead_over(gone.skip(1), kept);
        assert(gone =~= seq![first] + gone.skip(1));
        encode_concat(seq![first], gone.skip(1));
        a_character_takes_a_byte(first);
        assert(text.skip(1) =~= gone.skip(1) + kept);
        assert(text[0] == first);
    }
}

proof fn back_takes(text: Seq<char>, bytes: nat)
    requires
        chars_back(text, bytes) is Some,
    ensures
        chars_back(text, bytes)->0 <= text.len(),
        encode_utf8(text.skip(text.len() - chars_back(text, bytes)->0)).len() == bytes,
    decreases text.len(),
{
    let n = chars_back(text, bytes)->0;
    if bytes == 0 {
        assert(text.skip(text.len() as int) =~= Seq::<char>::empty());
    } else {
        let last = text.last();
        let left = (bytes - encode_utf8(seq![last]).len()) as nat;
        let init = text.drop_last();
        back_takes(init, left);
        let inner = init.skip(init.len() - (n - 1));
        assert(text.skip(text.len() - n) =~= inner + seq![last]);
        encode_concat(inner, seq![last]);
    }
}

proof fn ahead_takes(text: Seq<char>, bytes: nat)
    requires
        chars_ahead(text, bytes) is Some,
    ensures
        chars_ahead(text, bytes)->0 <= text.len(),
        encode_utf8(text.take(chars_ahead(text, bytes)->0 as int)).len() == bytes,
    decreases text.len(),
{
    let n = chars_ahead(text, bytes)->0;
    if bytes == 0 {
        assert(text.take(0) =~= Seq::<char>::empty());
    } else {
        let first = text[0];
        let left = (bytes - encode_utf8(seq![first]).len()) as nat;
        let rest = text.skip(1);
        ahead_takes(rest, left);
        assert(text.take(n as int) =~= seq![first] + rest.take(n - 1));
        encode_concat(seq![first], rest.take(n - 1));
    }
}

/// What an input method deletes around the cursor is counted in bytes: so many of those just
/// before the cursor and so many of those just after it.
pub proof fn a_deletion_takes_what_is_next_to_the_cursor(
    m: SearchModel,
    kept_before: Seq<char>,
    gone_before: Seq<char>,
    gone_after: Seq<char>,
    kept_after: Seq<char>,
    before_bytes: u32,
    after_bytes: u32,
)
    requires
        m.before == kept_before + gone_before,
        m.after == gone_after + kept_after,
        encode_utf8(gone_before).len() == before_bytes,
        encode_utf8(gone_after).len() == after_bytes,
    ensures
        ({
            let text = m.edit_text(SearchEdit::DeleteSurrounding { before_bytes, after_bytes });
            &&& text.before == kept_before
            &&& text.after == kept_after
            &&& text.changed
            &&& text.notice == m.notice
        }),
{
    back_over(kept_before, gone_before);
    ahead_over(gone_after, kept_after);
    assert(m.before.take(m.before.len() - gone_before.len()) =~= kept_before);
    assert(m.after.skip(gone_after.len() as int) =~= kept_after);
}

/// A deletion that would take in part of a character, or more than there is, is refused, and the
/// text stays as it is.
pub proof fn a_deletion_goes_by_whole_characters(
    m: SearchModel,
    before_bytes: u32,
    after_bytes: u32,
)
    requires
        (forall|n: int|
            0 <= n <= m.before.len() ==> encode_utf8(#[trigger] m.before.skip(n)).len()
                != before_bytes) || (forall|n: int|
            0 <= n <= m.after.len() ==> encode_utf8(#[trigger] m.after.take(n)).len()
                != after_bytes),
    ensures
        ({
            let text = m.edit_text(SearchEdit::DeleteSurrounding { before_bytes, after_bytes });
            &&& text.before == m.before
            &&& text.after == m.after
            &&& !text.changed
            &&& text.notice == Some(SearchError::InvalidCoordinate)
        }),
{
    if chars_back(m.before, before_bytes as nat) is Some && chars_ahead(
        m.after,
        after_bytes as nat,
    ) is Some {
        back_takes(m.before, before_bytes as nat);
        ahead_takes(m.after, after_bytes as nat);
    }
}

/// What can be searched for: at least one character, at most 256 of them and at most 1024 bytes,
/// and no control character.
pub proof fn what_can_be_searched_for(query: Seq<char>)
    ensures
        query_error(query) is None <==> {
            &&& 1 <= query.len() <= 256
            &&& encode_utf8(query).len() <= 1024
            &&& forall|i: int|
                0 <= i < query.len() ==> (#[trigger] query[i]) as u32 >= 0x20 && !(0x7f
                    <= query[i] as u32 <= 0x9f)
        },
        query.len() == 0 ==> query_error(query) == Some(SearchError::EmptyQuery),
        query.len() > 256 ==> query_error(query) == Some(SearchError::QueryTooLong),
        query.len() > 0 ==> query_error(query) == candidate_error(query),
        query.len() == 0 ==> candidate_error(query) is None,
{
}

/// What a step finds comes behind what was found before, and nothing of it is dropped below the
/// limit of ten thousand matches. The search goes on where there is something left to read, and is
/// over where there is not or where the limit is reached.
pub proof fn what_is_found_is_kept_in_order(
    m: SearchModel,
    fresh: Seq<SearchMatch>,
    next: Option<ControllerScanCursor>,
    i: int,
)
    requires
        m.matches.len() <= 10_000,
    ensures
        ({
            let n = m.collected(fresh, next);
            &&& m.matches.len() + fresh.len() < 10_000 ==> {
                &&& n.matches.len() == m.matches.len() + fresh.len()
                &&& n.scan == next
                &&& next is Some ==> n.phase is Scanning
                &&& next is None ==> n.phase is Ready
            }
            &&& m.matches.len() + fresh.len() >= 10_000 ==> n.matches.len() == 10_000
                && n.scan is None && n.phase is Truncated
            &&& 0 <= i < m.matches.len() ==> n.matches[i] == m.matches[i]
            &&& m.matches.len() <= i < n.matches.len() ==> n.matches[i] == fresh[i
                - m.matches.len()]
            &&& n.query() == m.query()
            &&& n.current == m.current
        }),
{
}

/// When the text on the screen changes, an open search with a query drops all that it found and
/// looks again in a while. The query stays, and so does a search that is closed or looks for
/// nothing.
pub proof fn a_change_on_the_screen_makes_it_look_again(m: SearchModel, now: Instant)
    ensures
        m.open && m.query().len() > 0 ==> {
            let n = m.invalidated(now);
            &&& n.matches.len() == 0
            &&& n.current is None
            &&& n.saved is None
            &&& n.bound is None
            &&& n.scan is None
            &&& n.navigation is None
            &&& n.phase is Debouncing
            &&& n.deadline == Some(now.later(SEARCH_DEBOUNCE))
            &&& n.before == m.before && n.after == m.after
            &&& n.open
        },
        !m.open || m.query().len() == 0 ==> m.invalidated(now) == m,
{
}

} // verus!
