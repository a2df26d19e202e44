//! Dice rolls: detecting `!roll 2d6` requests and rolling them.
use crate::text::{
    chars_of, decimal, is_ws, lemma_decimal_digits, lemma_trim_solid, parse_unsigned,
    parse_unsigned_range, range_starts_with, starts_with, trim, trim_bounds,
};
use rand::rngs::StdRng;
use rand::Rng;
use rand::SeedableRng;
use vstd::prelude::*;

verus! {

#[verifier::external_type_specification]
#[verifier::external_body]
pub struct ExStdRng(StdRng);

/// The roll request that follows the command word, trimmed: `!roll ` is
/// looked for after trimming the message, `!r ` at the very start of it.
pub open spec fn roll_body(s: Seq<char>) -> Option<Seq<char>> {
    let t = trim(s);
    if starts_with(t, "!roll "@) {
        Some(trim(t.skip(6)))
    } else if starts_with(s, "!r "@) {
        Some(trim(s.skip(3)))
    } else {
        None
    }
}

/// Index of the first `d` or `D` in `s`, or `s.len()`.
pub open spec fn first_die_mark(s: Seq<char>) -> nat
    decreases s.len(),
{
    if s.len() == 0 || s[0] == 'd' || s[0] == 'D' {
        0
    } else {
        1 + first_die_mark(s.drop_first())
    }
}

proof fn lemma_first_die_mark(s: Seq<char>, i: int)
    requires
        0 <= i <= s.len(),
        forall|j: int| 0 <= j < i ==> #[trigger] s[j] != 'd' && s[j] != 'D',
        i == s.len() || s[i] == 'd' || s[i] == 'D',
    ensures
        first_die_mark(s) == i,
    decreases i,
{
    if i > 0 {
        let t = s.drop_first();
        assert forall|j: int| 0 <= j < i - 1 implies #[trigger] t[j] != 'd' && t[j] != 'D' by {
            assert(t[j] == s[j + 1]);
        }
        assert(i - 1 == t.len() || t[i - 1] == s[i]);
        lemma_first_die_mark(t, i - 1);
    }
}

/// The `(count, sides)` a roll request asks for: `dN` is one die of `N`
/// sides, `MdN` is `M` dice (the letter may be upper case); both numbers
/// must be at least 1.
pub open spec fn parse_roll_spec(s: Seq<char>) -> Option<(nat, nat)> {
    match roll_body(s) {
        None => None,
        Some(b) => if b.len() > 0 && (b[0] == 'd' || b[0] == 'D') {
            match parse_unsigned(b.drop_first(), u64::MAX as nat) {
                Some(sides) => if sides < 1 {
                    None
                } else {
                    Some((1nat, sides))
                },
                None => None,
            }
        } else {
            let k = first_die_mark(b) as int;
            if k == b.len() {
                None
            } else {
                let count = if k == 0 {
                    Some(1nat)
                } else {
                    parse_unsigned(b.take(k), u64::MAX as nat)
                };
                match (count, parse_unsigned(trim(b.skip(k + 1)), u64::MAX as nat)) {
                    (Some(c), Some(sides)) => if c < 1 || sides < 1 {
                        None
                    } else {
                        Some((c, sides))
                    },
                    _ => None,
                }
            }
        },
    }
}

/// Bounds of the roll request in `v`.
fn roll_body_bounds(v: &Vec<char>) -> (r: Option<(usize, usize)>)
    ensures
        match r {
            Some((a, b)) => a <= b <= v@.len() && roll_body(v@) == Some(
                v@.subrange(a as int, b as int),
            ),
            None => roll_body(v@) is None,
        },
{
    let (a, b) = trim_bounds(v, 0, v.len());
    assert(v@.subrange(0, v@.len() as int) == v@);
    if range_starts_with(v, a, b, &chars_of("!roll ")) {
        proof {
            crate::text::lemma_lead_ws_bound(v@);
        }
        assert("!roll "@.len() == 6) by {
            reveal_strlit("!roll ");
        }
        let (c, d) = trim_bounds(v, a + 6, b);
        assert(v@.subrange(a as int, b as int).skip(6) == v@.subrange(a + 6, b as int));
        return Some((c, d));
    }
    if range_starts_with(v, 0, v.len(), &chars_of("!r ")) {
        assert("!r "@.len() == 3) by {
            reveal_strlit("!r ");
        }
        let (c, d) = trim_bounds(v, 3, v.len());
        assert(v@.skip(3) == v@.subrange(3, v@.len() as int));
        return Some((c, d));
    }
    None
}

/// Parse "!roll 2d6" or "!r 1d20" into (count, sides). Returns None if not a roll.
pub fn parse_roll(text: &str) -> (r: Option<(u64, u64)>)
    ensures
        match r {
            Some((c, s)) => parse_roll_spec(text@) == Some((c as nat, s as nat)),
            None => parse_roll_spec(text@) is None,
        },
{
    let v = chars_of(text);
    let (a, b) = match roll_body_bounds(&v) {
        Some(x) => x,
        None => return None,
    };
    let ghost body = v@.subrange(a as int, b as int);
    if a < b && (v[a] == 'd' || v[a] == 'D') {
        assert(body[0] == v@[a as int]);
        assert(body.drop_first() == v@.subrange(a + 1, b as int));
        let sides = match parse_unsigned_range(&v, a + 1, b, u64::MAX) {
            Some(n) => n,
            None => return None,
        };
        if sides < 1 {
            return None;
        }
        return Some((1, sides));
    }
    let mut k = a;
    while k < b && v[k] != 'd' && v[k] != 'D'
        invariant
            a <= k <= b <= v@.len(),
            body == v@.subrange(a as int, b as int),
            forall|j: int| a <= j < k ==> #[trigger] v@[j] != 'd' && v@[j] != 'D',
        decreases b - k,
    {
        k = k + 1;
    }
    proof {
        assert forall|j: int| 0 <= j < k - a implies #[trigger] body[j] != 'd' && body[j] != 'D' by {
            assert(body[j] == v@[a + j]);
        }
        if k < b {
            assert(body[k - a] == v@[k as int]);
        }
        lemma_first_die_mark(body, k - a);
    }
    if k == b {
        return None;
    }
    let count = if k == a {
        1
    } else {
        assert(body.take(k - a) == v@.subrange(a as int, k as int));
        match parse_unsigned_range(&v, a, k, u64::MAX) {
            Some(n) => n,
            None => return None,
        }
    };
    let (sa, sb) = trim_bounds(&v, k + 1, b);
    assert(body.skip(k - a + 1) == v@.subrange(k + 1, b as int));
    let sides = match parse_unsigned_range(&v, sa, sb, u64::MAX) {
        Some(n) => n,
        None => return None,
    };
    if count < 1 || sides < 1 {
        return None;
    }
    Some((count, sides))
}

/// A fresh generator seeded from the operating system (`StdRng::from_entropy`).
/// Nothing is stated of its state.
#[verifier::external_body]
fn new_rng() -> StdRng {
    StdRng::from_entropy()
}

/// A uniformly drawn number of `lo..=hi` (`Rng::gen_range`, which panics on
/// an empty range). The contract states only that the draw lies in the range.
#[verifier::external_body]
fn draw_inclusive(rng: &mut StdRng, lo: u64, hi: u64) -> (r: u64)
    requires
        lo <= hi,
    ensures
        lo <= r <= hi,
{
    rng.gen_range(lo..=hi)
}

/// The sum of some die results.
pub open spec fn sum_of(rolls: Seq<u64>) -> int
    decreases rolls.len(),
{
    if rolls.len() == 0 {
        0
    } else {
        sum_of(rolls.drop_last()) + rolls.last()
    }
}

/// `rolls` could be the results of `count` dice of `sides` sides.
pub open spec fn possible_rolls(rolls: Seq<u64>, count: u64, sides: u64) -> bool {
    &&& rolls.len() == count
    &&& forall|i: int| 0 <= i < rolls.len() ==> 1 <= #[trigger] rolls[i] <= sides
}

/// A prefix of some die results adds up to no more than all of them.
proof fn lemma_prefix_sum_le(rolls: Seq<u64>, i: int)
    requires
        0 <= i <= rolls.len(),
    ensures
        sum_of(rolls.take(i)) <= sum_of(rolls),
    decreases rolls.len(),
{
    if i < rolls.len() {
        assert(rolls.drop_last().take(i) == rolls.take(i));
        lemma_prefix_sum_le(rolls.drop_last(), i);
    } else {
        assert(rolls.take(i) == rolls);
    }
}

/// Die results add up to at least nothing.
proof fn lemma_sum_nonneg(rolls: Seq<u64>)
    ensures
        sum_of(rolls) >= 0,
    decreases rolls.len(),
{
    if rolls.len() > 0 {
        lemma_sum_nonneg(rolls.drop_last());
    }
}

/// The results of `n` dice of `sides` sides add up to between `n` and
/// `n * sides`.
proof fn lemma_sum_bounds(rolls: Seq<u64>, sides: u64)
    requires
        forall|i: int| 0 <= i < rolls.len() ==> 1 <= #[trigger] rolls[i] <= sides,
    ensures
        rolls.len() <= sum_of(rolls) <= rolls.len() * sides,
    decreases rolls.len(),
{
    if rolls.len() > 0 {
        let n = rolls.len() - 1;
        assert(forall|i: int| 0 <= i < rolls.drop_last().len() ==> rolls.drop_last()[i] == rolls[i]);
        lemma_sum_bounds(rolls.drop_last(), sides);
        assert(rolls.last() == rolls[n as int]);
        assert(rolls.len() * sides == n * sides + sides) by (nonlinear_arith)
            requires
                rolls.len() == n + 1,
        ;
    }
}

/// Draws `count` dice of `sides` sides, in order.
pub fn draw_rolls(count: u64, sides: u64) -> (rolls: Vec<u64>)
    requires
        sides >= 1,
    ensures
        possible_rolls(rolls@, count, sides),
{
    let mut rng = new_rng();
    let mut rolls: Vec<u64> = Vec::new();
    let mut i: u64 = 0;
    while i < count
        invariant
            i <= count,
            sides >= 1,
            possible_rolls(rolls@, i, sides),
        decreases count - i,
    {
        let d = draw_inclusive(&mut rng, 1, sides);
        rolls.push(d);
        i = i + 1;
    }
    rolls
}

/// The total of some die results.
pub fn sum_rolls(rolls: &Vec<u64>) -> (total: i64)
    requires
        sum_of(rolls@) <= i64::MAX,
    ensures
        total == sum_of(rolls@),
{
    let mut total: i64 = 0;
    let mut i: usize = 0;
    while i < rolls.len()
        invariant
            i <= rolls@.len(),
            sum_of(rolls@) <= i64::MAX,
            total == sum_of(rolls@.take(i as int)),
        decreases rolls.len() - i,
    {
        proof {
            let next = rolls@.take(i + 1);
            assert(next.drop_last() == rolls@.take(i as int));
            assert(next.last() == rolls@[i as int]);
            assert(sum_of(next) == sum_of(rolls@.take(i as int)) + rolls@[i as int]);
            lemma_prefix_sum_le(rolls@, i + 1);
            lemma_sum_nonneg(rolls@.take(i as int));
        }
        total = total + rolls[i] as i64;
        i = i + 1;
    }
    assert(rolls@.take(rolls@.len() as int) == rolls@);
    total
}

/// Roll `count` dice of `sides` sides and add them up: the total is the sum
/// of `count` results, each between 1 and `sides`; which ones is chance.
pub fn roll_dice(count: u64, sides: u64) -> (total: i64)
    requires
        sides >= 1,
        count * sides <= i64::MAX,
    ensures
        exists|rolls: Seq<u64>| possible_rolls(rolls, count, sides) && total == sum_of(rolls),
        count <= total <= count * sides,
{
    let rolls = draw_rolls(count, sides);
    proof {
        lemma_sum_bounds(rolls@, sides);
    }
    sum_rolls(&rolls)
}

/// The request after `!roll ` is the rest of a message without surrounding
/// whitespace.
proof fn lemma_roll_prefix(b: Seq<char>)
    requires
        b.len() > 0,
        !is_ws(b[0]),
        !is_ws(b.last()),
    ensures
        roll_body("!roll "@ + b) == Some(b),
{
    reveal_strlit("!roll ");
    let s = "!roll "@ + b;
    lemma_trim_solid(b);
    assert(s[0] == '!');
    assert(s.last() == b.last());
    lemma_trim_solid(s);
    assert(s.take(6) =~= "!roll "@);
    assert(s.skip(6) =~= b);
}

/// `M` then `d` then `N`, both in decimal, reads as `M` dice of `N` sides.
proof fn lemma_roll_counts(m: nat, n: nat)
    requires
        1 <= m <= u64::MAX,
        1 <= n <= u64::MAX,
    ensures
        ({
            let b = decimal(m) + seq!['d'] + decimal(n);
            &&& b.len() > 0
            &&& !is_ws(b[0])
            &&& !is_ws(b.last())
            &&& !(b[0] == 'd' || b[0] == 'D')
            &&& first_die_mark(b) == decimal(m).len()
            &&& b.take(decimal(m).len() as int) == decimal(m)
            &&& b.skip(decimal(m).len() as int + 1) == decimal(n)
        }),
{
    lemma_decimal_digits(m);
    lemma_decimal_digits(n);
    let dm = decimal(m);
    let dn = decimal(n);
    let b = dm + seq!['d'] + dn;
    assert(b[0] == dm[0]);
    assert(b.last() == dn[dn.len() - 1]);
    assert forall|j: int| 0 <= j < dm.len() implies #[trigger] b[j] != 'd' && b[j] != 'D' by {
        assert(b[j] == dm[j]);
    }
    assert(b[dm.len() as int] == 'd');
    lemma_first_die_mark(b, dm.len() as int);
    assert(b.take(dm.len() as int) =~= dm);
    assert(b.skip(dm.len() as int + 1) =~= dn);
}

/// A request `!roll MdN`, with `M` and `N` written in decimal and both at
/// least 1, asks for `M` dice of `N` sides: every digit of the count is
/// read, and every digit of the sides.
pub proof fn law_roll_request_reads_both_numbers(m: nat, n: nat)
    requires
        1 <= m <= u64::MAX,
        1 <= n <= u64::MAX,
    ensures
        parse_roll_spec("!roll "@ + decimal(m) + "d"@ + decimal(n)) == Some((m, n)),
{
    reveal_strlit("d");
    let b = decimal(m) + seq!['d'] + decimal(n);
    assert("!roll "@ + decimal(m) + "d"@ + decimal(n) =~= "!roll "@ + b);
    lemma_roll_counts(m, n);
    lemma_roll_prefix(b);
    lemma_decimal_digits(m);
    lemma_decimal_digits(n);
    lemma_trim_solid(decimal(n));
    assert(decimal(m)[0] != '+');
    assert(decimal(n)[0] != '+');
    assert(parse_unsigned(decimal(m), u64::MAX as nat) == Some(m));
    assert(parse_unsigned(decimal(n), u64::MAX as nat) == Some(n));
}

/// A request `!roll dN` asks for one die of `N` sides.
pub proof fn law_roll_request_single_die(n: nat)
    requires
        1 <= n <= u64::MAX,
    ensures
        parse_roll_spec("!roll d"@ + decimal(n)) == Some((1nat, n)),
{
    reveal_strlit("!roll d");
    reveal_strlit("!roll ");
    lemma_decimal_digits(n);
    let dn = decimal(n);
    let s = "!roll d"@ + dn;
    let b = seq!['d'] + dn;
    assert(s.last() == dn.last());
    assert(dn.last() == dn[dn.len() - 1]);
    assert(b.last() == dn.last());
    assert(s[0] == '!');
    lemma_trim_solid(s);
    assert(s.take(6) =~= "!roll "@);
    assert(s.skip(6) =~= b);
    lemma_trim_solid(b);
    assert(roll_body(s) == Some(b));
    assert(b.drop_first() =~= dn);
    assert(dn[0] != '+');
}

} // verus!
