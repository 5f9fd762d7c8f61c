use vstd::prelude::*;

verus! {

/// Largest representable amount in micro-units: 10^26 whole units.
pub const AMOUNT_LIMIT: u128 = 100_000_000_000_000_000_000_000_000_000_000;

/// Largest whole-unit value a textual amount may carry: 10^26.
pub const WHOLE_LIMIT: u128 = 100_000_000_000_000_000_000_000_000;

/// An exact fixed-point decimal amount with six fractional digits,
/// stored as a count of micro-units. All monetary arithmetic in this
/// crate is integer arithmetic on this representation, so sums are
/// exact, commutative and associative.
#[derive(Clone, Copy, Debug, PartialEq, Eq, Structural)]
pub struct Amount {
    pub units: u128,
}

pub open spec fn is_digit_char(c: char) -> bool {
    '0' <= c && c <= '9'
}

pub open spec fn digit_value(c: char) -> int {
    (c as u32) - ('0' as u32)
}

pub open spec fn all_digits(s: Seq<char>) -> bool {
    forall|i: int| 0 <= i < s.len() ==> is_digit_char(#[trigger] s[i])
}

/// The natural number denoted by a string of decimal digits, most
/// significant digit first.
pub open spec fn digits_value(s: Seq<char>) -> int
    decreases s.len(),
{
    if s.len() == 0 {
        0
    } else {
        digits_value(s.drop_last()) * 10 + digit_value(s.last())
    }
}

pub open spec fn pow10(n: nat) -> int
    decreases n,
{
    if n == 0 {
        1
    } else {
        10 * pow10((n - 1) as nat)
    }
}

/// Index of the first '.' in `s`, or -1 if there is none.
pub open spec fn find_dot(s: Seq<char>) -> int
    decreases s.len(),
{
    if s.len() == 0 {
        -1
    } else if s[0] == '.' {
        0
    } else {
        let r = find_dot(s.subrange(1, s.len() as int));
        if r < 0 {
            -1
        } else {
            r + 1
        }
    }
}

proof fn lemma_find_dot(s: Seq<char>)
    ensures
        find_dot(s) == -1 ==> forall|k: int| 0 <= k < s.len() ==> s[k] != '.',
        find_dot(s) >= 0 ==> 0 <= find_dot(s) < s.len() && s[find_dot(s)] == '.' && forall|k: int|
            0 <= k < find_dot(s) ==> s[k] != '.',
    decreases s.len(),
{
    if s.len() > 0 && s[0] != '.' {
        let t = s.subrange(1, s.len() as int);
        lemma_find_dot(t);
        if find_dot(t) == -1 {
            assert(find_dot(s) == -1);
            assert forall|k: int| 0 <= k < s.len() implies s[k] != '.' by {
                if k >= 1 {
                    assert(t[k - 1] != '.');
                }
            }
        } else {
            assert(find_dot(s) == find_dot(t) + 1);
            assert(s[find_dot(s)] == t[find_dot(t)]);
            assert forall|k: int| 0 <= k < find_dot(s) implies s[k] != '.' by {
                if k >= 1 {
                    assert(t[k - 1] != '.');
                }
            }
        }
    }
}

proof fn lemma_digits_value_nonneg(s: Seq<char>)
    requires
        all_digits(s),
    ensures
        digits_value(s) >= 0,
    decreases s.len(),
{
    if s.len() > 0 {
        assert(all_digits(s.drop_last()));
        lemma_digits_value_nonneg(s.drop_last());
    }
}

proof fn lemma_pow10_pos(n: nat)
    ensures
        pow10(n) >= 1,
    decreases n,
{
    if n > 0 {
        lemma_pow10_pos((n - 1) as nat);
    }
}

/// Splitting a digit string: the value of the whole is the value of a
/// prefix shifted left by the length of the rest, plus the rest.
proof fn lemma_digits_value_split(s: Seq<char>, i: int)
    requires
        0 <= i <= s.len(),
    ensures
        digits_value(s) == digits_value(s.take(i)) * pow10((s.len() - i) as nat) + digits_value(
            s.skip(i),
        ),
    decreases s.len() - i,
{
    if i == s.len() {
        assert(s.take(i) =~= s);
        assert(s.skip(i) =~= Seq::<char>::empty());
    } else {
        lemma_digits_value_split(s.drop_last(), i);
        assert(s.drop_last().take(i) =~= s.take(i));
        assert(s.drop_last().skip(i) =~= s.skip(i).drop_last());
        assert(s.skip(i).last() == s.last());
        assert(s.skip(i).len() > 0);
        let n = (s.len() - i - 1) as nat;
        assert(pow10(n + 1) == 10 * pow10(n));
        assert(digits_value(s.take(i)) * pow10(n) * 10 == digits_value(s.take(i)) * pow10(n + 1))
            by (nonlinear_arith);
    }
}

/// Whether `s` is a well-formed unsigned decimal numeral: one or more
/// digits, optionally followed by '.' and one to six fractional digits.
pub open spec fn amount_syntax_ok(s: Seq<char>) -> bool {
    let d = find_dot(s);
    if d < 0 {
        s.len() > 0 && all_digits(s)
    } else {
        &&& d >= 1
        &&& all_digits(s.take(d))
        &&& 1 <= s.len() - d - 1 <= 6
        &&& all_digits(s.skip(d + 1))
    }
}

/// The micro-unit value denoted by a well-formed numeral.
pub open spec fn amount_micro_value(s: Seq<char>) -> int {
    let d = find_dot(s);
    if d < 0 {
        digits_value(s) * 1000000
    } else {
        let frac = s.skip(d + 1);
        digits_value(s.take(d)) * 1000000 + digits_value(frac) * pow10((6 - frac.len()) as nat)
    }
}

/// What parsing an amount yields: the exact micro-unit value for a
/// well-formed numeral within range, and nothing otherwise.
pub open spec fn spec_parse_amount(s: Seq<char>) -> Option<Amount> {
    if amount_syntax_ok(s) && amount_micro_value(s) <= AMOUNT_LIMIT {
        Some(Amount { units: amount_micro_value(s) as u128 })
    } else {
        None
    }
}

fn exec_pow10(n: usize) -> (r: u128)
    requires
        n <= 6,
    ensures
        r == pow10(n as nat),
        r <= 1000000,
{
    proof {
        reveal_with_fuel(pow10, 8);
    }
    if n == 0 {
        1
    } else if n == 1 {
        10
    } else if n == 2 {
        100
    } else if n == 3 {
        1000
    } else if n == 4 {
        10000
    } else if n == 5 {
        100000
    } else {
        1000000
    }
}

/// Parse the decimal digits `s[from..to]`, failing once the value
/// exceeds `WHOLE_LIMIT`.
#[verifier::loop_isolation(false)]
fn parse_digits(s: &str, from: usize, to: usize) -> (r: Option<u128>)
    requires
        from <= to <= s@.len(),
    ensures
        match r {
            Some(v) => all_digits(s@.subrange(from as int, to as int)) && v == digits_value(
                s@.subrange(from as int, to as int),
            ) && v <= WHOLE_LIMIT,
            None => !all_digits(s@.subrange(from as int, to as int)) || digits_value(
                s@.subrange(from as int, to as int),
            ) > WHOLE_LIMIT,
        },
{
    let ghost whole = s@.subrange(from as int, to as int);
    let mut acc: u128 = 0;
    let mut i: usize = from;
    while i < to
        invariant
            from <= i <= to,
            all_digits(whole.take(i - from)),
            acc == digits_value(whole.take(i - from)),
            acc <= WHOLE_LIMIT,
        decreases to - i,
    {
        let c = s.get_char(i);
        proof {
            assert(whole[i - from] == s@[i as int]);
        }
        if !(c >= '0' && c <= '9') {
            proof {
                assert(!is_digit_char(whole[i - from]));
            }
            return None;
        }
        let d: u32 = (c as u32) - ('0' as u32);
        proof {
            assert(whole.take(i - from + 1).drop_last() =~= whole.take(i - from));
            assert(whole.take(i - from + 1).last() == whole[i - from]);
        }
        let next: u128 = acc * 10 + (d as u128);
        if next > WHOLE_LIMIT {
            proof {
                let done = i - from + 1;
                assert(digits_value(whole.take(done)) > WHOLE_LIMIT);
                if all_digits(whole) {
                    lemma_digits_value_split(whole, done);
                    lemma_pow10_pos((whole.len() - done) as nat);
                    assert(all_digits(whole.skip(done)));
                    lemma_digits_value_nonneg(whole.skip(done));
                    assert(digits_value(whole.take(done)) * pow10((whole.len() - done) as nat)
                        >= digits_value(whole.take(done))) by (nonlinear_arith)
                        requires
                            digits_value(whole.take(done)) >= 0,
                            pow10((whole.len() - done) as nat) >= 1,
                    ;
                }
            }
            return None;
        }
        acc = next;
        i = i + 1;
    }
    proof {
        assert(whole.take(to - from) =~= whole);
    }
    Some(acc)
}

/// Parse a monetary amount written as an unsigned decimal numeral with
/// at most six fractional digits, exactly as `spec_parse_amount` states.
#[verifier::loop_isolation(false)]
pub fn parse_amount(s: &str) -> (r: Option<Amount>)
    ensures
        r == spec_parse_amount(s@),
        r matches Some(a) ==> a.units <= AMOUNT_LIMIT,
{
    let n = s.unicode_len();
    proof {
        lemma_find_dot(s@);
    }
    // locate the first dot, if any
    let mut dot: Option<usize> = None;
    let mut i: usize = 0;
    while i < n
        invariant
            0 <= i <= n,
            dot is None ==> forall|k: int| 0 <= k < i ==> s@[k] != '.',
            dot matches Some(dd) ==> dd == find_dot(s@),
        decreases n - i,
    {
        if dot.is_none() && s.get_char(i) == '.' {
            proof {
                assert(s@[i as int] == '.');
                assert(find_dot(s@) >= 0);
                assert(find_dot(s@) == i) by {
                    if find_dot(s@) < i {
                        assert(s@[find_dot(s@)] != '.');
                    }
                    if find_dot(s@) > i {
                        assert(s@[i as int] != '.');
                    }
                }
            }
            dot = Some(i);
        }
        i = i + 1;
    }
    match dot {
        None => {
            proof {
                assert(find_dot(s@) < 0) by {
                    if find_dot(s@) >= 0 {
                        assert(s@[find_dot(s@)] == '.');
                    }
                }
            }
            if n == 0 {
                proof {
                    assert(spec_parse_amount(s@) is None);
                }
                return None;
            }
            let digits = parse_digits(s, 0, n);
            proof {
                assert(s@.subrange(0, n as int) =~= s@);
            }
            match digits {
                None => {
                    proof {
                        if amount_syntax_ok(s@) {
                            assert(digits_value(s@) > WHOLE_LIMIT);
                            assert(digits_value(s@) * 1000000 > WHOLE_LIMIT * 1000000)
                                by (nonlinear_arith)
                                requires
                                    digits_value(s@) > WHOLE_LIMIT,
                            ;
                            assert(amount_micro_value(s@) > AMOUNT_LIMIT);
                        }
                        assert(spec_parse_amount(s@) is None);
                    }
                    None
                },
                Some(v) => {
                    proof {
                        assert(v * 1000000 <= WHOLE_LIMIT * 1000000) by (nonlinear_arith)
                            requires
                                0 <= v <= WHOLE_LIMIT,
                        ;
                        assert(amount_syntax_ok(s@));
                        assert(amount_micro_value(s@) == v * 1000000);
                        assert(spec_parse_amount(s@) == Some(Amount { units: (v * 1000000) as u128 }));
                    }
                    Some(Amount { units: v * 1000000 })
                },
            }
        },
        Some(d) => {
            if d < 1 || n - d < 2 || n - d > 7 {
                return None;
            }
            let frac_len = n - d - 1;
            let int_part = parse_digits(s, 0, d);
            let frac_part = parse_digits(s, d + 1, n);
            let ghost iseq = s@.subrange(0, d as int);
            let ghost fseq = s@.subrange(d + 1, n as int);
            proof {
                assert(iseq =~= s@.take(d as int));
                assert(fseq =~= s@.skip(d + 1));
            }
            match (int_part, frac_part) {
                (Some(v), Some(f)) => {
                    let p = exec_pow10(6 - frac_len);
                    proof {
                        assert(v * 1000000 <= WHOLE_LIMIT * 1000000) by (nonlinear_arith)
                            requires
                                0 <= v <= WHOLE_LIMIT,
                        ;
                        assert(f * p <= WHOLE_LIMIT * 1000000) by (nonlinear_arith)
                            requires
                                0 <= f <= WHOLE_LIMIT,
                                0 <= p <= 1000000,
                        ;
                    }
                    let micro: u128 = v * 1000000 + f * p;
                    if micro <= AMOUNT_LIMIT {
                        Some(Amount { units: micro })
                    } else {
                        None
                    }
                },
                _ => {
                    proof {
                        if amount_syntax_ok(s@) {
                            // the fractional part is at most six digits, so its
                            // value never exceeds the limit; the whole part must
                            // be the one out of range
                            if all_digits(fseq) && digits_value(fseq) > WHOLE_LIMIT {
                                lemma_digits_value_bounded_by_len(fseq);
                            }
                            assert(all_digits(iseq) && digits_value(iseq) > WHOLE_LIMIT);
                            lemma_digits_value_nonneg(fseq);
                            lemma_pow10_pos((6 - fseq.len()) as nat);
                            assert(digits_value(iseq) * 1000000 > WHOLE_LIMIT * 1000000)
                                by (nonlinear_arith)
                                requires
                                    digits_value(iseq) > WHOLE_LIMIT,
                            ;
                            assert(digits_value(fseq) * pow10((6 - fseq.len()) as nat) >= 0)
                                by (nonlinear_arith)
                                requires
                                    digits_value(fseq) >= 0,
                                    pow10((6 - fseq.len()) as nat) >= 1,
                            ;
                        }
                    }
                    None
                },
            }
        },
    }
}

/// A digit string of at most six digits denotes a value below 10^6.
proof fn lemma_digits_value_bounded_by_len(s: Seq<char>)
    requires
        all_digits(s),
        s.len() <= 6,
    ensures
        digits_value(s) < 1000000,
    decreases s.len(),
{
    reveal_with_fuel(pow10, 8);
    lemma_digits_value_upper(s);
    lemma_pow10_mono(s.len(), 6);
}

proof fn lemma_digits_value_upper(s: Seq<char>)
    requires
        all_digits(s),
    ensures
        digits_value(s) < pow10(s.len()),
    decreases s.len(),
{
    if s.len() > 0 {
        assert(all_digits(s.drop_last()));
        lemma_digits_value_upper(s.drop_last());
        let d = digit_value(s.last());
        assert(digits_value(s.drop_last()) * 10 + d < pow10(s.len())) by (nonlinear_arith)
            requires
                digits_value(s.drop_last()) < pow10((s.len() - 1) as nat),
                0 <= d <= 9,
                pow10(s.len()) == 10 * pow10((s.len() - 1) as nat),
        ;
    }
}

proof fn lemma_pow10_mono(a: nat, b: nat)
    requires
        a <= b,
    ensures
        pow10(a) <= pow10(b),
    decreases b,
{
    if a < b {
        lemma_pow10_mono(a, (b - 1) as nat);
        lemma_pow10_pos((b - 1) as nat);
    }
}

} // verus!
