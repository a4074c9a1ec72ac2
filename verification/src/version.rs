//! Release version comparison.
//!
//! A version string is read as a tuple of dotted integers. Characters before
//! the first digit (such as the `v` of `v2.2.4`) are not part of the version.
//! What remains is cut at every `.`; each piece that reads as an unsigned
//! 32-bit decimal number (digits only, with an optional leading `+`) yields
//! one component, and every other piece is passed over. Two versions are
//! compared component by component from the left, a missing component
//! counting as zero.

use vstd::prelude::*;
use crate::text::chars_of;

verus! {

/// Address of the latest-release record of the project.
pub const RELEASES_API_URL: &'static str =
    "https://api.github.com/repos/ssut/kakaotalk-adblock-rs/releases/latest";

/// Address of the release page shown to the user.
pub const RELEASES_PAGE_URL: &'static str = "https://github.com/ssut/kakaotalk-adblock-rs/releases";

/// `c` is one of the ten ASCII digits.
pub open spec fn is_digit(c: char) -> bool {
    '0' <= c && c <= '9'
}

/// The number a digit stands for.
pub open spec fn digit_value(c: char) -> nat
    recommends
        is_digit(c),
{
    (c as u32 - '0' as u32) as nat
}

/// `s` without the characters that precede its first digit.
pub open spec fn strip_prefix(s: Seq<char>) -> Seq<char>
    decreases s.len(),
{
    if s.len() > 0 && !is_digit(s[0]) {
        strip_prefix(s.skip(1))
    } else {
        s
    }
}

/// The pieces of `s` between its dots. There is always at least one piece,
/// and a piece may be empty.
pub open spec fn split_dots(s: Seq<char>) -> Seq<Seq<char>>
    decreases s.len(),
{
    if s.len() == 0 {
        seq![Seq::<char>::empty()]
    } else {
        let before = split_dots(s.drop_last());
        if s.last() == '.' {
            before.push(Seq::<char>::empty())
        } else {
            before.drop_last().push(before.last().push(s.last()))
        }
    }
}

/// Every character of `d` is a digit.
pub open spec fn all_digits(d: Seq<char>) -> bool {
    forall|i: int| 0 <= i < d.len() ==> is_digit(#[trigger] d[i])
}

/// The number that the digit string `d` writes in base ten.
pub open spec fn decimal_value(d: Seq<char>) -> nat
    decreases d.len(),
{
    if d.len() == 0 {
        0
    } else {
        decimal_value(d.drop_last()) * 10 + digit_value(d.last())
    }
}

/// The digits of a piece: the piece itself, less one leading `+`.
pub open spec fn digits_of(piece: Seq<char>) -> Seq<char> {
    if piece.len() > 0 && piece[0] == '+' {
        piece.skip(1)
    } else {
        piece
    }
}

/// The component that a piece yields, if it reads as a number that fits in
/// 32 bits.
pub open spec fn component_number(piece: Seq<char>) -> Option<u32> {
    let d = digits_of(piece);
    if d.len() > 0 && all_digits(d) && decimal_value(d) <= u32::MAX {
        Some(decimal_value(d) as u32)
    } else {
        None
    }
}

/// The components that a list of pieces yields, in order.
pub open spec fn numbers_of(pieces: Seq<Seq<char>>) -> Seq<u32>
    decreases pieces.len(),
{
    if pieces.len() == 0 {
        Seq::<u32>::empty()
    } else {
        let before = numbers_of(pieces.drop_last());
        match component_number(pieces.last()) {
            Some(n) => before.push(n),
            None => before,
        }
    }
}

/// The components of a version string.
pub open spec fn version_numbers(s: Seq<char>) -> Seq<u32> {
    numbers_of(split_dots(strip_prefix(s)))
}

/// Component `i` of a version, zero past its end.
pub open spec fn component(v: Seq<u32>, i: int) -> int {
    if 0 <= i < v.len() {
        v[i] as int
    } else {
        0
    }
}

/// `latest` is a later version than `current`: at the first position where
/// the two differ, `latest` holds the larger number.
pub open spec fn is_newer(current: Seq<u32>, latest: Seq<u32>) -> bool {
    exists|i: int|
        0 <= i && #[trigger] component(latest, i) > component(current, i) && forall|j: int|
            0 <= j < i ==> #[trigger] component(latest, j) == component(current, j)
}

/// The pieces put together again, with a dot between one piece and the
/// next.
pub open spec fn join_dots(pieces: Seq<Seq<char>>) -> Seq<char>
    decreases pieces.len(),
{
    if pieces.len() == 0 {
        Seq::<char>::empty()
    } else if pieces.len() == 1 {
        pieces[0]
    } else {
        join_dots(pieces.drop_last()).push('.') + pieces.last()
    }
}

/// Cutting a string at its dots loses nothing: the pieces, joined by dots,
/// are the string.
pub proof fn lemma_split_dots_joins_back(s: Seq<char>)
    ensures
        join_dots(split_dots(s)) == s,
    decreases s.len(),
{
    if s.len() == 0 {
        assert(split_dots(s)[0] =~= s);
    } else {
        lemma_split_dots_joins_back(s.drop_last());
        lemma_split_dots_pieces(s.drop_last());
        let before = split_dots(s.drop_last());
        if s.last() == '.' {
            let pieces = before.push(Seq::<char>::empty());
            assert(pieces.drop_last() == before);
            assert(join_dots(pieces) =~= s.drop_last().push('.'));
            assert(s.drop_last().push('.') =~= s);
        } else {
            let pieces = before.drop_last().push(before.last().push(s.last()));
            if before.len() == 1 {
                assert(join_dots(pieces) == before[0].push(s.last()));
                assert(before[0].push(s.last()) =~= s);
            } else {
                assert(pieces.drop_last() == before.drop_last());
                assert(join_dots(pieces) =~= join_dots(before).push(s.last()));
                assert(s.drop_last().push(s.last()) =~= s);
            }
        }
    }
}

/// No version is newer than itself.
pub proof fn lemma_not_newer_than_itself(v: Seq<u32>)
    ensures
        !is_newer(v, v),
{
}

/// Of two versions at most one is newer than the other.
pub proof fn lemma_newer_is_one_way(a: Seq<u32>, b: Seq<u32>)
    requires
        is_newer(a, b),
    ensures
        !is_newer(b, a),
{
    let i = choose|i: int|
        0 <= i && #[trigger] component(b, i) > component(a, i) && forall|j: int|
            0 <= j < i ==> #[trigger] component(b, j) == component(a, j);
    assert forall|k: int| 0 <= k && #[trigger] component(a, k) > component(b, k) implies !(
    forall|j: int| 0 <= j < k ==> #[trigger] component(a, j) == component(b, j)) by {
        if k < i {
            assert(component(b, k) == component(a, k));
        } else {
            assert(component(a, i) != component(b, i));
        }
    }
}

/// Zeros at the end of a version do not matter: a missing component counts
/// as zero.
pub proof fn lemma_trailing_zero_is_nothing(a: Seq<u32>, b: Seq<u32>)
    ensures
        is_newer(a.push(0), b) == is_newer(a, b),
        is_newer(a, b.push(0)) == is_newer(a, b),
{
    assert forall|i: int| component(a.push(0), i) == component(a, i) by {}
    assert forall|i: int| component(b.push(0), i) == component(b, i) by {}
    if is_newer(a, b) {
        let i = choose|i: int|
            0 <= i && #[trigger] component(b, i) > component(a, i) && forall|j: int|
                0 <= j < i ==> #[trigger] component(b, j) == component(a, j);
        assert(component(b, i) > component(a.push(0), i));
        assert(component(b.push(0), i) > component(a, i));
        assert forall|j: int| 0 <= j < i implies #[trigger] component(b, j) == component(
            a.push(0),
            j,
        ) by {
            assert(component(b, j) == component(a, j));
        }
        assert forall|j: int| 0 <= j < i implies #[trigger] component(b.push(0), j) == component(
            a,
            j,
        ) by {
            assert(component(b, j) == component(a, j));
        }
    }
    if is_newer(a.push(0), b) {
        let i = choose|i: int|
            0 <= i && #[trigger] component(b, i) > component(a.push(0), i) && forall|j: int|
                0 <= j < i ==> #[trigger] component(b, j) == component(a.push(0), j);
        assert(component(b, i) > component(a, i));
        assert forall|j: int| 0 <= j < i implies #[trigger] component(b, j) == component(a, j) by {
            assert(component(b, j) == component(a.push(0), j));
        }
    }
    if is_newer(a, b.push(0)) {
        let i = choose|i: int|
            0 <= i && #[trigger] component(b.push(0), i) > component(a, i) && forall|j: int|
                0 <= j < i ==> #[trigger] component(b.push(0), j) == component(a, j);
        assert(component(b, i) > component(a, i));
        assert forall|j: int| 0 <= j < i implies #[trigger] component(b, j) == component(a, j) by {
            assert(component(b.push(0), j) == component(a, j));
        }
    }
}

/// A string that is cut at dots has no piece that holds a dot, and always has
/// a piece.
pub proof fn lemma_split_dots_pieces(s: Seq<char>)
    ensures
        split_dots(s).len() >= 1,
        forall|k: int, i: int|
            0 <= k < split_dots(s).len() && 0 <= i < split_dots(s)[k].len() ==> (
            #[trigger] split_dots(s)[k][i]) != '.',
    decreases s.len(),
{
    if s.len() > 0 {
        lemma_split_dots_pieces(s.drop_last());
    }
}

/// The value of a digit string is at least the value of each of its initial
/// segments.
proof fn lemma_decimal_value_grows(d: Seq<char>, k: int)
    requires
        0 <= k <= d.len(),
    ensures
        decimal_value(d.take(k)) <= decimal_value(d),
    decreases d.len(),
{
    if k == d.len() {
        assert(d.take(k) == d);
    } else {
        lemma_decimal_value_grows(d.drop_last(), k);
        assert(d.drop_last().take(k) == d.take(k));
    }
}

fn is_digit_char(c: char) -> (r: bool)
    ensures
        r == is_digit(c),
{
    '0' <= c && c <= '9'
}

/// Reads the piece `chars[from..to]` as a component.
fn parse_component(chars: &Vec<char>, from: usize, to: usize) -> (r: Option<u32>)
    requires
        from <= to <= chars.len(),
    ensures
        r == component_number(chars@.subrange(from as int, to as int)),
{
    let ghost piece = chars@.subrange(from as int, to as int);
    let start: usize = if from < to && chars[from] == '+' {
        from + 1
    } else {
        from
    };
    let ghost d = chars@.subrange(start as int, to as int);
    assert(d == digits_of(piece));
    if start == to {
        return None;
    }
    let mut value: u64 = 0;
    let mut i: usize = start;
    while i < to
        invariant
            from <= start <= i <= to <= chars.len(),
            start < to,
            d == chars@.subrange(start as int, to as int),
            d == digits_of(chars@.subrange(from as int, to as int)),
            all_digits(d.take(i - start)),
            value == decimal_value(d.take(i - start)),
            value <= u32::MAX,
        decreases to - i,
    {
        let c = chars[i];
        assert(c == d[i - start]);
        if !is_digit_char(c) {
            assert(!is_digit(d[i - start]));
            return None;
        }
        let digit: u64 = (c as u32 - '0' as u32) as u64;
        assert(d.take(i - start + 1).drop_last() == d.take(i - start));
        assert(d.take(i - start + 1).last() == c);
        value = value * 10 + digit;
        if value > u32::MAX as u64 {
            proof {
                lemma_decimal_value_grows(d, i - start + 1);
            }
            return None;
        }
        i += 1;
    }
    assert(d.take(to - start) == d);
    Some(value as u32)
}

/// Reads a version string into its components.
pub fn parse_version(v: &str) -> (parts: Vec<u32>)
    ensures
        parts@ == version_numbers(v@),
{
    let chars = chars_of(v);
    let n = chars.len();
    let mut i: usize = 0;
    assert(chars@.skip(0) == chars@);
    while i < n && !is_digit_char(chars[i])
        invariant
            i <= n == chars.len(),
            strip_prefix(chars@) == strip_prefix(chars@.skip(i as int)),
        decreases n - i,
    {
        assert(chars@.skip(i as int).skip(1) == chars@.skip(i + 1));
        i += 1;
    }
    let first: usize = i;
    let ghost t = chars@.skip(first as int);
    assert(strip_prefix(chars@) == t);
    let mut parts: Vec<u32> = Vec::new();
    let mut piece_start: usize = i;
    assert(t.take(0) == Seq::<char>::empty());
    assert(numbers_of(split_dots(t.take(0)).drop_last()) == Seq::<u32>::empty());
    while i < n
        invariant
            first <= piece_start <= i <= n == chars.len(),
            t == chars@.skip(first as int),
            split_dots(t.take(i - first)).len() >= 1,
            split_dots(t.take(i - first)).last() == chars@.subrange(
                piece_start as int,
                i as int,
            ),
            parts@ == numbers_of(split_dots(t.take(i - first)).drop_last()),
        decreases n - i,
    {
        let ghost pieces = split_dots(t.take(i - first));
        let ghost next = t.take(i - first + 1);
        assert(next.drop_last() == t.take(i - first));
        assert(next.last() == chars@[i as int]);
        if chars[i] == '.' {
            let number = parse_component(&chars, piece_start, i);
            assert(split_dots(next) == pieces.push(Seq::<char>::empty()));
            assert(pieces.push(Seq::<char>::empty()).drop_last() == pieces);
            assert(pieces.drop_last().push(pieces.last()) == pieces);
            match number {
                Some(value) => {
                    parts.push(value);
                },
                None => {},
            }
            piece_start = i + 1;
        } else {
            let ghost grown = pieces.drop_last().push(pieces.last().push(chars@[i as int]));
            assert(split_dots(next) == grown);
            assert(grown.drop_last() == pieces.drop_last());
            assert(chars@.subrange(piece_start as int, i as int).push(chars@[i as int])
                == chars@.subrange(piece_start as int, i + 1));
        }
        i += 1;
    }
    assert(t.take(n - first) == t);
    let ghost pieces = split_dots(t);
    assert(pieces.drop_last().push(pieces.last()) == pieces);
    let number = parse_component(&chars, piece_start, n);
    match number {
        Some(value) => {
            parts.push(value);
        },
        None => {},
    }
    parts
}

/// Compares two versions given by their components.
pub fn newer_components(current: &Vec<u32>, latest: &Vec<u32>) -> (r: bool)
    ensures
        r == is_newer(current@, latest@),
{
    let n: usize = if current.len() > latest.len() {
        current.len()
    } else {
        latest.len()
    };
    let mut i: usize = 0;
    while i < n
        invariant
            i <= n,
            n >= current.len(),
            n >= latest.len(),
            forall|j: int| 0 <= j < i ==> #[trigger] component(latest@, j) == component(current@, j),
        decreases n - i,
    {
        let c: u32 = if i < current.len() {
            current[i]
        } else {
            0
        };
        let l: u32 = if i < latest.len() {
            latest[i]
        } else {
            0
        };
        if c > l {
            assert(component(latest@, i as int) < component(current@, i as int));
            assert forall|k: int|
                0 <= k && #[trigger] component(latest@, k) > component(current@, k) implies !(
            forall|j: int| 0 <= j < k ==> #[trigger] component(latest@, j) == component(current@, j))
            by {
                if k < i {
                } else {
                    assert(component(latest@, i as int) != component(current@, i as int));
                }
            }
            return false;
        } else if c < l {
            assert(component(latest@, i as int) > component(current@, i as int));
            return true;
        }
        i += 1;
    }
    assert forall|k: int| 0 <= k implies !(#[trigger] component(latest@, k) > component(
        current@,
        k,
    )) by {}
    false
}

/// Whether `latest` names a later release than `current`.
pub fn has_new_release(current: &str, latest: &str) -> (r: bool)
    ensures
        r == is_newer(version_numbers(current@), version_numbers(latest@)),
{
    let current_parts = parse_version(current);
    let latest_parts = parse_version(latest);
    newer_components(&current_parts, &latest_parts)
}

/// Turns the outcome of a look-up of the latest release into the pair of its
/// tag and whether it is newer than the running version. `fetched` is the tag
/// that the look-up returned, or `None` where it failed; a failed look-up
/// reports the running version itself, and nothing new.
pub fn check_latest_version(current_version: &str, fetched: Option<String>) -> (r: (String, bool))
    ensures
        match fetched {
            Some(tag) => r.0@ == tag@ && r.1 == is_newer(
                version_numbers(current_version@),
                version_numbers(tag@),
            ),
            None => r.0@ == current_version@ && !r.1,
        },
{
    match fetched {
        Some(tag) => {
            let has_new = has_new_release(current_version, tag.as_str());
            (tag, has_new)
        },
        None => (current_version.to_owned(), false),
    }
}

} // verus!
