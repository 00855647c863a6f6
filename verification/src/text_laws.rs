//! What the text primitives mean, character by character.

use crate::text::{
    ascii_lower, contains_text, decimal, joined_ports, lower_char, occurs_at, precedes,
    same_ignoring_case, trimmed, trimmed_end, trimmed_start, white_space,
};
use vstd::prelude::*;

verus! {

// ── Numbers ──────────────────────────────────────────────────────────────

/// The number that a row of decimal digits stands for.
pub open spec fn number(s: Seq<char>) -> int
    decreases s.len(),
{
    if s.len() == 0 {
        0
    } else {
        number(s.drop_last()) * 10 + (s.last() as int - '0' as int)
    }
}

/// The text is a row of decimal digits.
pub open spec fn all_digits(s: Seq<char>) -> bool {
    forall|i: int| 0 <= i < s.len() ==> '0' <= #[trigger] s[i] <= '9'
}

/// A number in decimal notation reads back as that number; it is a row of digits
/// without a leading zero.
pub proof fn decimal_is_read_back(n: nat)
    ensures
        number(decimal(n)) == n,
        all_digits(decimal(n)),
        decimal(n).len() > 0,
        decimal(n).len() > 1 ==> decimal(n)[0] != '0',
        n > 0 ==> decimal(n)[0] != '0',
    decreases n,
{
    let d = decimal(n);
    if n < 10 {
        assert(d.drop_last() =~= seq![]);
        assert(number(seq![]) == 0);
        assert(number(d) == n);
    } else {
        decimal_is_read_back(n / 10);
        assert(d.drop_last() =~= decimal(n / 10));
        assert(d[0] == decimal(n / 10)[0]);
    }
}

// ── Lists ────────────────────────────────────────────────────────────────

/// The parts of a text between the separators in it.
pub open spec fn split(s: Seq<char>, sep: char) -> Seq<Seq<char>>
    decreases s.len(),
{
    if s.len() == 0 {
        seq![s]
    } else {
        let parts = split(s.drop_last(), sep);
        if s.last() == sep {
            parts.push(seq![])
        } else {
            parts.drop_last().push(parts.last().push(s.last()))
        }
    }
}

proof fn split_has_a_part(s: Seq<char>, sep: char)
    ensures
        split(s, sep).len() > 0,
    decreases s.len(),
{
    if s.len() > 0 {
        split_has_a_part(s.drop_last(), sep);
    }
}

/// A text without separators is one part.
proof fn whole_is_a_part(s: Seq<char>, sep: char)
    requires
        !s.contains(sep),
    ensures
        split(s, sep) == seq![s],
    decreases s.len(),
{
    if s.len() > 0 {
        let front = s.drop_last();
        assert(!front.contains(sep)) by {
            assert forall|i: int| 0 <= i < front.len() implies front[i] != sep by {
                assert(front[i] == s[i]);
            }
        }
        assert(s.contains(s.last()));
        whole_is_a_part(front, sep);
        assert(front.push(s.last()) =~= s);
        assert(split(s, sep) =~= seq![s]);
    }
}

/// What stands behind a separator is a part of its own.
proof fn part_behind_separator(a: Seq<char>, sep: char, b: Seq<char>)
    requires
        !b.contains(sep),
    ensures
        split(a + seq![sep] + b, sep) == split(a, sep).push(b),
    decreases b.len(),
{
    let s = a + seq![sep] + b;
    if b.len() == 0 {
        assert(s.drop_last() =~= a);
        assert(s.last() == sep);
        assert(b =~= seq![]);
    } else {
        let front = b.drop_last();
        assert(!front.contains(sep)) by {
            assert forall|i: int| 0 <= i < front.len() implies front[i] != sep by {
                assert(front[i] == b[i]);
            }
        }
        assert(b.contains(b.last()));
        part_behind_separator(a, sep, front);
        assert(s.drop_last() =~= a + seq![sep] + front);
        assert(front.push(b.last()) =~= b);
        assert(split(s, sep) =~= split(a, sep).push(b));
    }
}

/// Joined port numbers, split at their separator and read as numbers, are the
/// ports, all of them and in order.
pub proof fn ports_are_read_back(ports: Seq<u16>, sep: char)
    requires
        ports.len() > 0,
        !('0' <= sep <= '9'),
    ensures
        split(joined_ports(ports, seq![sep]), sep).len() == ports.len(),
        forall|i: int|
            0 <= i < ports.len() ==> number(
                #[trigger] split(joined_ports(ports, seq![sep]), sep)[i],
            ) == ports[i],
    decreases ports.len(),
{
    let last = decimal(ports.last() as nat);
    decimal_is_read_back(ports.last() as nat);
    assert(!last.contains(sep));
    if ports.len() == 1 {
        whole_is_a_part(last, sep);
    } else {
        ports_are_read_back(ports.drop_last(), sep);
        part_behind_separator(joined_ports(ports.drop_last(), seq![sep]), sep, last);
        assert forall|i: int| 0 <= i < ports.len() implies number(
            #[trigger] split(joined_ports(ports, seq![sep]), sep)[i],
        ) == ports[i] by {
            if i < ports.len() - 1 {
                assert(ports.drop_last()[i] == ports[i]);
            }
        }
    }
}

/// No ports join to nothing, one to its number, and each further one stands behind
/// one more separator.
pub proof fn ports_are_joined_one_by_one(ports: Seq<u16>, port: u16, sep: Seq<char>)
    ensures
        joined_ports(seq![], sep).len() == 0,
        joined_ports(seq![port], sep) == decimal(port as nat),
        ports.len() > 0 ==> joined_ports(ports.push(port), sep) == joined_ports(ports, sep) + sep
            + decimal(port as nat),
{
    assert(ports.push(port).drop_last() =~= ports);
}

// ── White space ──────────────────────────────────────────────────────────

/// The character has the Unicode property `White_Space`, by its number.
pub open spec fn is_blank(c: char) -> bool {
    let n = c as int;
    9 <= n <= 13 || n == 32 || n == 133 || n == 160 || n == 5760 || 8192 <= n <= 8202 || n == 8232
        || n == 8233 || n == 8239 || n == 8287 || n == 12288
}

/// White space is what Unicode calls so.
pub proof fn white_space_is_blank(c: char)
    ensures
        white_space(c) <==> is_blank(c),
{
}

proof fn trimmed_start_is(s: Seq<char>) -> (a: int)
    ensures
        0 <= a <= s.len(),
        trimmed_start(s) == s.subrange(a, s.len() as int),
        forall|i: int| 0 <= i < a ==> is_blank(#[trigger] s[i]),
        a < s.len() ==> !is_blank(s[a]),
    decreases s.len(),
{
    if s.len() > 0 && white_space(s[0]) {
        let a = trimmed_start_is(s.drop_first());
        assert(s.drop_first().subrange(a, s.len() - 1) =~= s.subrange(a + 1, s.len() as int));
        assert forall|i: int| 0 <= i < a + 1 implies is_blank(#[trigger] s[i]) by {
            if i > 0 {
                assert(s.drop_first()[i - 1] == s[i]);
            }
        }
        a + 1
    } else {
        assert(s.subrange(0, s.len() as int) =~= s);
        0
    }
}

proof fn trimmed_end_is(s: Seq<char>) -> (b: int)
    ensures
        0 <= b <= s.len(),
        trimmed_end(s) == s.subrange(0, b),
        forall|i: int| b <= i < s.len() ==> is_blank(#[trigger] s[i]),
        b > 0 ==> !is_blank(s[b - 1]),
    decreases s.len(),
{
    if s.len() > 0 && white_space(s.last()) {
        let b = trimmed_end_is(s.drop_last());
        assert(s.drop_last().subrange(0, b) =~= s.subrange(0, b));
        assert forall|i: int| b <= i < s.len() implies is_blank(#[trigger] s[i]) by {
            if i < s.len() - 1 {
                assert(s.drop_last()[i] == s[i]);
            }
        }
        b
    } else {
        assert(s.subrange(0, s.len() as int) =~= s);
        s.len() as int
    }
}

proof fn trimmed_is(s: Seq<char>) -> (ends: (int, int))
    ensures
        0 <= ends.0 <= ends.1 <= s.len(),
        trimmed(s) == s.subrange(ends.0, ends.1),
        forall|i: int| 0 <= i < ends.0 ==> is_blank(#[trigger] s[i]),
        forall|i: int| ends.1 <= i < s.len() ==> is_blank(#[trigger] s[i]),
        ends.0 < ends.1 ==> !is_blank(s[ends.0]) && !is_blank(s[ends.1 - 1]),
{
    let a = trimmed_start_is(s);
    let rest = s.subrange(a, s.len() as int);
    let b = trimmed_end_is(rest);
    assert(rest.subrange(0, b) =~= s.subrange(a, a + b));
    assert forall|i: int| a + b <= i < s.len() implies is_blank(#[trigger] s[i]) by {
        assert(rest[i - a] == s[i]);
    }
    if b > 0 {
        assert(rest[b - 1] == s[a + b - 1]);
    }
    (a, a + b)
}

/// Trimming takes the white space off both ends and nothing else: what is left is
/// a part of the text with only white space on either side of it, and neither
/// begins nor ends with any.
pub proof fn trimming_takes_white_space_off_the_ends(s: Seq<char>)
    ensures
        exists|a: int, b: int|
            0 <= a <= b <= s.len() && trimmed(s) == #[trigger] s.subrange(a, b) && (forall|i: int|
                0 <= i < a ==> is_blank(#[trigger] s[i])) && (forall|i: int|
                b <= i < s.len() ==> is_blank(#[trigger] s[i])),
        trimmed(s).len() > 0 ==> !is_blank(trimmed(s)[0]) && !is_blank(trimmed(s).last()),
{
    let (a, b) = trimmed_is(s);
    assert(trimmed(s) == s.subrange(a, b));
}

/// A text of white space, and only such a text, trims to nothing.
pub proof fn white_space_trims_to_nothing(s: Seq<char>)
    ensures
        trimmed(s).len() == 0 <==> forall|i: int| 0 <= i < s.len() ==> is_blank(#[trigger] s[i]),
{
    let (a, b) = trimmed_is(s);
    if a < b {
        assert(!is_blank(s[a]));
    }
}

/// A text without white space at its ends stays as it is.
pub proof fn trimming_keeps_a_trimmed_text(s: Seq<char>)
    requires
        s.len() > 0,
        !is_blank(s[0]),
        !is_blank(s.last()),
    ensures
        trimmed(s) == s,
{
    let (a, b) = trimmed_is(s);
    assert(s[s.len() - 1] == s.last());
    assert(a == 0 && b == s.len());
    assert(s.subrange(0, s.len() as int) =~= s);
}

// ── Case ─────────────────────────────────────────────────────────────────

/// The same character, or the capital and the small form of one ASCII letter.
pub open spec fn same_letter(c: char, d: char) -> bool {
    ||| c == d
    ||| 'A' <= c <= 'Z' && d as int == c as int + 32
    ||| 'A' <= d <= 'Z' && c as int == d as int + 32
}

/// Lowering replaces each ASCII capital by its small letter and keeps every other
/// character.
pub proof fn lowering_replaces_capitals(s: Seq<char>)
    ensures
        ascii_lower(s).len() == s.len(),
        forall|i: int|
            0 <= i < s.len() ==> (#[trigger] ascii_lower(s)[i]) as int == if 'A' <= s[i] <= 'Z' {
                s[i] as int + 32
            } else {
                s[i] as int
            },
{
}

proof fn same_letter_iff_same_lower(c: char, d: char)
    ensures
        lower_char(c) == lower_char(d) <==> same_letter(c, d),
{
}

/// Two texts are the same up to case just if they are so letter by letter.
pub proof fn same_ignoring_case_is_by_letter(a: Seq<char>, b: Seq<char>)
    ensures
        same_ignoring_case(a, b) <==> a.len() == b.len() && forall|i: int|
            0 <= i < a.len() ==> same_letter(#[trigger] a[i], b[i]),
{
    let x = ascii_lower(a);
    let y = ascii_lower(b);
    if same_ignoring_case(a, b) {
        assert(x.len() == a.len() && y.len() == b.len());
        assert forall|i: int| 0 <= i < a.len() implies same_letter(#[trigger] a[i], b[i]) by {
            assert(x[i] == lower_char(a[i]));
            assert(y[i] == lower_char(b[i]));
            same_letter_iff_same_lower(a[i], b[i]);
        }
    }
    if a.len() == b.len() && forall|i: int| 0 <= i < a.len() ==> same_letter(#[trigger] a[i], b[i]) {
        assert forall|i: int| 0 <= i < a.len() implies x[i] == y[i] by {
            assert(same_letter(a[i], b[i]));
            same_letter_iff_same_lower(a[i], b[i]);
        }
        assert(x =~= y);
    }
}

// ── Searching and order ──────────────────────────────────────────────────

/// A text contains another just if it is something, the other, and something.
pub proof fn containing_is_standing_between(hay: Seq<char>, needle: Seq<char>)
    ensures
        contains_text(hay, needle) <==> exists|a: Seq<char>, b: Seq<char>|
            hay == #[trigger] (a + needle + b),
{
    if contains_text(hay, needle) {
        let at = choose|at: int| occurs_at(hay, needle, at);
        let a = hay.take(at);
        let b = hay.skip(at + needle.len());
        assert(hay.subrange(at, at + needle.len()) == needle);
        assert(hay =~= a + needle + b);
    }
    if exists|a: Seq<char>, b: Seq<char>| hay == #[trigger] (a + needle + b) {
        let (a, b) = choose|a: Seq<char>, b: Seq<char>| hay == #[trigger] (a + needle + b);
        assert(hay.subrange(a.len() as int, a.len() as int + needle.len()) =~= needle);
        assert(occurs_at(hay, needle, a.len() as int));
    }
}

/// The two texts agree up to position `k`, and there `a` ends or has the smaller
/// character.
pub open spec fn smaller_at(a: Seq<char>, b: Seq<char>, k: int) -> bool {
    &&& 0 <= k <= a.len()
    &&& k < b.len()
    &&& forall|i: int| 0 <= i < k ==> #[trigger] a[i] == b[i]
    &&& k == a.len() || (a[k] as int) < b[k] as int
}

/// One text stands before another just if it is smaller at the first position at
/// which they differ, or a proper beginning of it.
pub proof fn order_is_by_first_difference(a: Seq<char>, b: Seq<char>)
    ensures
        precedes(a, b) <==> exists|k: int| smaller_at(a, b, k),
    decreases b.len(),
{
    if b.len() == 0 {
    } else if a.len() == 0 {
        assert(smaller_at(a, b, 0));
    } else if a[0] != b[0] {
        if precedes(a, b) {
            assert(smaller_at(a, b, 0));
        }
        if exists|k: int| smaller_at(a, b, k) {
            let k = choose|k: int| smaller_at(a, b, k);
            if k > 0 {
                assert(a[0] == b[0]);
            }
        }
    } else {
        let x = a.drop_first();
        let y = b.drop_first();
        order_is_by_first_difference(x, y);
        if precedes(a, b) {
            let k = choose|k: int| smaller_at(x, y, k);
            assert forall|i: int| 0 <= i < k + 1 implies #[trigger] a[i] == b[i] by {
                if i > 0 {
                    assert(x[i - 1] == a[i]);
                    assert(y[i - 1] == b[i]);
                }
            }
            assert(smaller_at(a, b, k + 1));
        }
        if exists|k: int| smaller_at(a, b, k) {
            let k = choose|k: int| smaller_at(a, b, k);
            if k > 0 {
                assert forall|i: int| 0 <= i < k - 1 implies #[trigger] x[i] == y[i] by {
                    assert(a[i + 1] == b[i + 1]);
                }
                assert(smaller_at(x, y, k - 1));
            }
        }
    }
}

} // verus!
