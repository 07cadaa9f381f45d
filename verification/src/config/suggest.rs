//! What a name that is not known may have been meant for.
use vstd::prelude::*;
use vstd::utf8::encode_utf8;
use crate::text::string_bytes;

verus! {

/// The least of three numbers.
pub open spec fn least(a: nat, b: nat, c: nat) -> nat {
    if a <= b && a <= c {
        a
    } else if b <= c {
        b
    } else {
        c
    }
}

/// How many bytes have to be added, taken away or replaced to turn one text into another.
pub open spec fn distance(a: Seq<u8>, b: Seq<u8>) -> nat
    decreases a.len() + b.len(),
{
    if a.len() == 0 {
        b.len()
    } else if b.len() == 0 {
        a.len()
    } else {
        least(
            distance(a.drop_last(), b) + 1,
            distance(a, b.drop_last()) + 1,
            distance(a.drop_last(), b.drop_last()) + if a.last() != b.last() {
                1nat
            } else {
                0
            },
        )
    }
}

/// The distance is the same both ways, and nothing exactly between equal texts.
pub proof fn distance_is_a_distance(a: Seq<u8>, b: Seq<u8>)
    ensures
        distance(a, b) == distance(b, a),
        distance(a, b) == 0 <==> a == b,
    decreases a.len() + b.len(),
{
    if a.len() == 0 {
        if b.len() == 0 {
            assert(a =~= b);
        }
    } else if b.len() == 0 {
    } else {
        distance_is_a_distance(a.drop_last(), b);
        distance_is_a_distance(a, b.drop_last());
        distance_is_a_distance(a.drop_last(), b.drop_last());
        if a == b {
            assert(a.last() == b.last());
        }
        if distance(a, b) == 0 {
            assert(a =~= a.drop_last().push(a.last()));
            assert(b =~= b.drop_last().push(b.last()));
        }
    }
}

proof fn distance_is_bounded(a: Seq<u8>, b: Seq<u8>)
    ensures
        distance(a, b) <= if a.len() >= b.len() {
            a.len()
        } else {
            b.len()
        },
    decreases a.len() + b.len(),
{
    if a.len() > 0 && b.len() > 0 {
        distance_is_bounded(a.drop_last(), b.drop_last());
    }
}

/// The distance of two texts.
pub fn edit_distance(left: &[u8], right: &[u8]) -> (result: usize)
    ensures
        result == distance(left@, right@),
{
    let width: usize = right.len();
    let height: usize = left.len();
    let mut previous: Vec<usize> = Vec::new();
    let mut k: usize = 0;
    let ghost none = left@.take(0);
    loop
        invariant_except_break
            previous@.len() == k,
        invariant
            k <= width,
            width == right@.len(),
            none == left@.take(0),
            forall|j: int|
                0 <= j < previous@.len() ==> #[trigger] previous@[j] == distance(
                    none,
                    right@.take(j),
                ),
        ensures
            previous@.len() == width + 1,
            forall|j: int|
                0 <= j < previous@.len() ==> #[trigger] previous@[j] == distance(
                    none,
                    right@.take(j),
                ),
        decreases width - k,
    {
        previous.push(k);
        if k == width {
            break;
        }
        k += 1;
    }
    let mut i: usize = 0;
    while i < height
        invariant
            i <= height,
            height == left@.len(),
            width == right@.len(),
            previous@.len() == width + 1,
            forall|j: int|
                0 <= j <= width ==> #[trigger] previous@[j] == distance(
                    left@.take(i as int),
                    right@.take(j),
                ),
        decreases height - i,
    {
        let a: u8 = left[i];
        let ghost above = left@.take(i as int);
        let ghost here = left@.take(i + 1);
        assert(here.drop_last() =~= above);
        let mut current: Vec<usize> = Vec::new();
        current.push(i + 1);
        assert(right@.take(0).len() == 0);
        let mut j: usize = 0;
        while j < width
            invariant
                j <= width,
                i < height,
                height == left@.len(),
                width == right@.len(),
                a == left@[i as int],
                above == left@.take(i as int),
                here == left@.take(i + 1),
                here.drop_last() == above,
                previous@.len() == width + 1,
                current@.len() == j + 1,
                forall|m: int|
                    0 <= m <= width ==> #[trigger] previous@[m] == distance(above, right@.take(m)),
                forall|m: int|
                    0 <= m <= j ==> #[trigger] current@[m] == distance(here, right@.take(m)),
            decreases width - j,
        {
            let ghost part = right@.take(j + 1);
            assert(part.drop_last() =~= right@.take(j as int));
            proof {
                distance_is_bounded(above, right@.take(j as int));
                distance_is_bounded(above, part);
                distance_is_bounded(here, right@.take(j as int));
            }
            let mut best: usize = previous[j];
            if a != right[j] {
                best += 1;
            }
            let up: usize = previous[j + 1];
            let up: usize = up.saturating_add(1);
            if up < best {
                best = up;
            }
            let side: usize = current[j].saturating_add(1);
            if side < best {
                best = side;
            }
            current.push(best);
            assert(best == distance(here, part));
            j += 1;
        }
        previous = current;
        i += 1;
    }
    assert(left@.take(height as int) =~= left@);
    assert(right@.take(width as int) =~= right@);
    previous[width]
}

/// The names that are near another.
pub open spec fn near(input: Seq<char>, candidates: Seq<&'static str>) -> Seq<Seq<char>>
    decreases candidates.len(),
{
    if candidates.len() == 0 {
        Seq::empty()
    } else {
        let before = near(input, candidates.drop_last());
        if distance(encode_utf8(input), encode_utf8(candidates.last()@)) <= 2 {
            before.push(candidates.last()@)
        } else {
            before
        }
    }
}

/// The one name that is near another.
pub open spec fn suggestion(input: Seq<char>, candidates: Seq<&'static str>) -> Option<Seq<char>> {
    if near(input, candidates).len() == 1 {
        Some(near(input, candidates)[0])
    } else {
        None
    }
}

/// The one name that may have been meant: there is none where several are near.
pub fn unique_suggestion(input: &str, candidates: &Vec<&'static str>) -> (result: Option<
    &'static str,
>)
    ensures
        match result {
            Some(name) => suggestion(input@, candidates@) == Some(name@),
            None => suggestion(input@, candidates@) is None,
        },
{
    let bytes = string_bytes(input);
    let mut found: Option<&'static str> = None;
    let mut many = false;
    let mut i: usize = 0;
    assert(candidates@.take(0) =~= Seq::empty());
    while i < candidates.len()
        invariant
            i <= candidates@.len(),
            bytes@ == encode_utf8(input@),
            found is None ==> !many && near(input@, candidates@.take(i as int)).len() == 0,
            found is Some && !many ==> near(input@, candidates@.take(i as int)) == seq![
                (found->0)@,
            ],
            many ==> near(input@, candidates@.take(i as int)).len() > 1,
        decreases candidates@.len() - i,
    {
        let ghost before = near(input@, candidates@.take(i as int));
        assert(candidates@.take(i + 1).drop_last() =~= candidates@.take(i as int));
        let name = candidates[i];
        if edit_distance(bytes.as_slice(), string_bytes(name).as_slice()) <= 2 {
            if found.is_some() {
                many = true;
            } else {
                found = Some(name);
                assert(before.push(name@) =~= seq![name@]);
            }
        }
        i += 1;
    }
    assert(candidates@.take(i as int) =~= candidates@);
    if many {
        None
    } else {
        found
    }
}

/// One byte more, or another byte in the place of one, is one step away, wherever it is.
pub proof fn one_change_is_one_step(a: Seq<u8>, b: Seq<u8>, x: u8, y: u8)
    requires
        x != y,
    ensures
        distance(a + seq![x] + b, a + b) == 1,
        distance(a + seq![x] + b, a + seq![y] + b) == 1,
{
    one_change(a, b, x, y);
    distance_is_a_distance(a + seq![x] + b, a + b);
    distance_is_a_distance(a + seq![x] + b, a + seq![y] + b);
    assert((a + seq![x] + b).len() != (a + b).len());
    assert((a + seq![x] + b)[a.len() as int] == x);
    assert((a + seq![y] + b)[a.len() as int] == y);
}

proof fn one_change(a: Seq<u8>, b: Seq<u8>, x: u8, y: u8)
    ensures
        distance(a + seq![x] + b, a + b) <= 1,
        distance(a + seq![x] + b, a + seq![y] + b) <= 1,
    decreases b.len(),
{
    let more = a + seq![x] + b;
    let other = a + seq![y] + b;
    let less = a + b;
    distance_is_a_distance(a, a);
    if b.len() == 0 {
        assert(more.drop_last() =~= a);
        assert(other.drop_last() =~= a);
        assert(less =~= a);
    } else {
        one_change(a, b.drop_last(), x, y);
        assert(more.drop_last() =~= a + seq![x] + b.drop_last());
        assert(other.drop_last() =~= a + seq![y] + b.drop_last());
        assert(less.drop_last() =~= a + b.drop_last());
        assert(more.last() == b.last() && other.last() == b.last() && less.last() == b.last());
    }
}

/// Every step makes a text longer or shorter by one byte at most.
pub proof fn no_step_is_more_than_a_byte(a: Seq<u8>, b: Seq<u8>)
    ensures
        a.len() <= b.len() + distance(a, b),
        b.len() <= a.len() + distance(a, b),
        distance(a, b) <= a.len() || distance(a, b) <= b.len(),
    decreases a.len() + b.len(),
{
    if a.len() > 0 && b.len() > 0 {
        no_step_is_more_than_a_byte(a.drop_last(), b);
        no_step_is_more_than_a_byte(a, b.drop_last());
        no_step_is_more_than_a_byte(a.drop_last(), b.drop_last());
    }
}

proof fn near_ones(input: Seq<char>, candidates: Seq<&'static str>, i: int)
    requires
        0 <= i < candidates.len(),
        distance(encode_utf8(input), encode_utf8(candidates[i]@)) <= 2,
    ensures
        near(input, candidates).len() >= 1,
    decreases candidates.len(),
{
    if i < candidates.len() - 1 {
        near_ones(input, candidates.drop_last(), i);
    }
}

/// A name is suggested where it is the only one within two steps.
pub proof fn the_only_near_name_is_suggested(
    input: Seq<char>,
    candidates: Seq<&'static str>,
    i: int,
)
    requires
        0 <= i < candidates.len(),
        distance(encode_utf8(input), encode_utf8(candidates[i]@)) <= 2,
        forall|k: int|
            0 <= k < candidates.len() && k != i ==> distance(
                encode_utf8(input),
                encode_utf8((#[trigger] candidates[k])@),
            ) > 2,
    ensures
        suggestion(input, candidates) == Some(candidates[i]@),
{
    the_only_near(input, candidates, i);
}

proof fn the_only_near(input: Seq<char>, candidates: Seq<&'static str>, i: int)
    requires
        i == candidates.len() || 0 <= i < candidates.len() && distance(
            encode_utf8(input),
            encode_utf8(candidates[i]@),
        ) <= 2,
        forall|k: int|
            0 <= k < candidates.len() && k != i ==> distance(
                encode_utf8(input),
                encode_utf8((#[trigger] candidates[k])@),
            ) > 2,
    ensures
        i < candidates.len() ==> near(input, candidates) == seq![candidates[i]@],
        i == candidates.len() ==> near(input, candidates).len() == 0,
    decreases candidates.len(),
{
    if candidates.len() > 0 {
        let init = candidates.drop_last();
        assert forall|k: int| 0 <= k < init.len() && k != i implies distance(
            encode_utf8(input),
            encode_utf8((#[trigger] init[k])@),
        ) > 2 by {
            assert(init[k] == candidates[k]);
        }
        if i == candidates.len() {
            assert(distance(
                encode_utf8(input),
                encode_utf8(candidates[candidates.len() - 1]@),
            ) > 2);
            the_only_near(input, init, init.len() as int);
        } else if i < init.len() {
            assert(init[i] == candidates[i]);
            assert(distance(
                encode_utf8(input),
                encode_utf8(candidates[candidates.len() - 1]@),
            ) > 2);
            the_only_near(input, init, i);
        } else {
            the_only_near(input, init, init.len() as int);
            assert(near(input, candidates) =~= seq![candidates[i]@]);
        }
    }
}

/// Where two names are within two steps, or none is, nothing is suggested.
pub proof fn nothing_is_suggested_where_it_is_not_plain(
    input: Seq<char>,
    candidates: Seq<&'static str>,
    i: int,
    j: int,
)
    requires
        0 <= i < j < candidates.len(),
    ensures
        distance(encode_utf8(input), encode_utf8(candidates[i]@)) <= 2 && distance(
            encode_utf8(input),
            encode_utf8(candidates[j]@),
        ) <= 2 ==> suggestion(input, candidates) is None,
        (forall|k: int|
            0 <= k < candidates.len() ==> distance(
                encode_utf8(input),
                encode_utf8((#[trigger] candidates[k])@),
            ) > 2) ==> suggestion(input, candidates) is None,
{
    if distance(encode_utf8(input), encode_utf8(candidates[i]@)) <= 2 && distance(
        encode_utf8(input),
        encode_utf8(candidates[j]@),
    ) <= 2 {
        two_near(input, candidates, i, j);
    }
    if forall|k: int|
        0 <= k < candidates.len() ==> distance(
            encode_utf8(input),
            encode_utf8((#[trigger] candidates[k])@),
        ) > 2 {
        the_only_near(input, candidates, candidates.len() as int);
    }
}

proof fn two_near(input: Seq<char>, candidates: Seq<&'static str>, i: int, j: int)
    requires
        0 <= i < j < candidates.len(),
        distance(encode_utf8(input), encode_utf8(candidates[i]@)) <= 2,
        distance(encode_utf8(input), encode_utf8(candidates[j]@)) <= 2,
    ensures
        near(input, candidates).len() >= 2,
    decreases candidates.len(),
{
    let init = candidates.drop_last();
    if j < init.len() {
        two_near(input, init, i, j);
    } else {
        near_ones(input, init, i);
    }
}

} // verus!
