//! Fixed-point numeric helpers: powers of ten, the base-10 integer
//! logarithm used by pool scoring, and a decimal-text parser that turns
//! numeric strings into scaled integers.

use vstd::prelude::*;

verus! {

/// 10 to the power `n`.
pub open spec fn pow10(n: nat) -> int
    decreases n,
{
    if n == 0 {
        1
    } else {
        10 * pow10((n - 1) as nat)
    }
}

pub proof fn lemma_pow10_pos(n: nat)
    ensures
        pow10(n) >= 1,
    decreases n,
{
    if n > 0 {
        lemma_pow10_pos((n - 1) as nat);
    }
}

pub proof fn lemma_pow10_mono(a: nat, b: nat)
    requires
        a <= b,
    ensures
        pow10(a) <= pow10(b),
    decreases b,
{
    if a < b {
        lemma_pow10_mono(a, (b - 1) as nat);
        lemma_pow10_pos((b - 1) as nat);
    }
}

pub proof fn lemma_pow10_18()
    ensures
        pow10(18) == 1_000_000_000_000_000_000,
{
    reveal_with_fuel(pow10, 19);
}

/// Computes 10^e.
pub fn pow10_u128(e: u32) -> (r: u128)
    requires
        e <= 18,
    ensures
        r == pow10(e as nat),
{
    proof {
        lemma_pow10_18();
    }
    let mut r: u128 = 1;
    let mut c: u32 = 0;
    while c < e
        invariant
            c <= e <= 18,
            r == pow10(c as nat),
        decreases e - c,
    {
        proof {
            lemma_pow10_mono(c as nat, 17);
            reveal_with_fuel(pow10, 19);
        }
        r = r * 10;
        c = c + 1;
    }
    r
}

/// Base-10 integer logarithm; 0 for every input under 10, including 0.
/// This is the number of decimal digits minus one for positive inputs.
pub open spec fn log10_floor(n: int) -> int
    decreases n,
{
    if n < 10 {
        0
    } else {
        1 + log10_floor(n / 10)
    }
}

pub proof fn lemma_log10_nonneg(n: int)
    ensures
        log10_floor(n) >= 0,
    decreases n,
{
    if n >= 10 {
        lemma_log10_nonneg(n / 10);
    }
}

pub proof fn lemma_log10_le(n: int)
    requires
        n >= 0,
    ensures
        log10_floor(n) <= n,
    decreases n,
{
    if n >= 10 {
        lemma_log10_le(n / 10);
    }
}

/// Computes the base-10 integer logarithm of a non-negative value.
pub fn log10_floor_i64(n: i64) -> (r: i64)
    requires
        n >= 0,
    ensures
        r == log10_floor(n as int),
        0 <= r <= n,
{
    proof {
        lemma_log10_le(n as int);
    }
    let mut m: i64 = n;
    let mut r: i64 = 0;
    while m >= 10
        invariant
            0 <= m,
            0 <= r,
            log10_floor(n as int) == r + log10_floor(m as int),
            log10_floor(n as int) <= n,
        decreases m,
    {
        proof {
            lemma_log10_nonneg(m as int / 10);
        }
        m = m / 10;
        r = r + 1;
    }
    r
}

/// Whether a character is a decimal digit.
pub open spec fn is_digit(c: char) -> bool {
    48 <= c as int <= 57
}

/// The numeric value of a digit character.
pub open spec fn digit_val(c: char) -> int {
    c as int - 48
}

pub open spec fn all_digits(s: Seq<char>) -> bool {
    forall|i: int| 0 <= i < s.len() ==> is_digit(#[trigger] s[i])
}

/// The value of a digit string, most significant first.
pub open spec fn digits_val(s: Seq<char>) -> int
    decreases s.len(),
{
    if s.len() == 0 {
        0
    } else {
        10 * digits_val(s.drop_last()) + digit_val(s.last())
    }
}

/// The index of the first `'.'`, or the length when there is none.
pub open spec fn find_dot(s: Seq<char>) -> int
    decreases s.len(),
{
    if s.len() == 0 {
        0
    } else if s[0] == '.' {
        0
    } else {
        1 + find_dot(s.drop_first())
    }
}

pub proof fn lemma_find_dot_is(s: Seq<char>, k: int)
    requires
        0 <= k <= s.len(),
        forall|j: int| 0 <= j < k ==> s[j] != '.',
        k < s.len() ==> s[k] == '.',
    ensures
        find_dot(s) == k,
    decreases s.len(),
{
    if s.len() > 0 && k > 0 {
        let t = s.drop_first();
        assert forall|j: int| 0 <= j < k - 1 implies t[j] != '.' by {
            assert(t[j] == s[j + 1]);
        }
        if k - 1 < t.len() {
            assert(t[k - 1] == s[k]);
        }
        lemma_find_dot_is(t, k - 1);
    }
}

/// The contribution of the fractional digits, scaled to `frac` decimal
/// places: digits past the `frac`-th are truncated, missing ones count as
/// trailing zeros.
pub open spec fn frac_scaled(fr: Seq<char>, frac: nat) -> int {
    let used = if fr.len() <= frac { fr } else { fr.take(frac as int) };
    digits_val(used) * pow10((frac - used.len()) as nat)
}

/// The fixed-point reading of a decimal string at `frac` decimal places:
/// an optional sign, one or more integer digits, then optionally a dot and
/// any run of fractional digits. `None` for any other shape, and for a
/// magnitude beyond `i64::MAX`. Exponent forms are not accepted.
pub open spec fn parse_fixed_spec(s: Seq<char>, frac: nat) -> Option<int> {
    if s.len() == 0 {
        None
    } else {
        let neg = s[0] == '-';
        let start: int = if s[0] == '-' || s[0] == '+' {
            1
        } else {
            0
        };
        parse_fixed_body(s.subrange(start, s.len() as int), frac, neg)
    }
}

pub open spec fn parse_fixed_body(body: Seq<char>, frac: nat, neg: bool) -> Option<int> {
    let dot = find_dot(body);
    let int_part = body.take(dot);
    let frac_part = if dot < body.len() {
        body.subrange(dot + 1, body.len() as int)
    } else {
        Seq::<char>::empty()
    };
    if int_part.len() == 0 || !all_digits(int_part) || !all_digits(frac_part) {
        None
    } else {
        let m = digits_val(int_part) * pow10(frac) + frac_scaled(frac_part, frac);
        if m > i64::MAX {
            None
        } else {
            Some(
                if neg {
                    -m
                } else {
                    m
                },
            )
        }
    }
}

pub proof fn lemma_digits_val_nonneg(s: Seq<char>)
    requires
        all_digits(s),
    ensures
        digits_val(s) >= 0,
    decreases s.len(),
{
    if s.len() > 0 {
        assert(all_digits(s.drop_last()));
        lemma_digits_val_nonneg(s.drop_last());
    }
}

pub proof fn lemma_find_dot_bounds(s: Seq<char>)
    ensures
        0 <= find_dot(s) <= s.len(),
        find_dot(s) < s.len() ==> s[find_dot(s)] == '.',
    decreases s.len(),
{
    if s.len() > 0 && s[0] != '.' {
        let t = s.drop_first();
        lemma_find_dot_bounds(t);
        if find_dot(t) < t.len() {
            assert(t[find_dot(t)] == s[find_dot(t) + 1]);
        }
    }
}

/// A parsed value always fits an `i64`.
pub proof fn lemma_parse_fixed_range(s: Seq<char>, frac: nat)
    ensures
        parse_fixed_spec(s, frac) matches Some(v) ==> -(i64::MAX as int) <= v <= i64::MAX as int,
{
    if parse_fixed_spec(s, frac) is Some {
        let start: int = if s[0] == '-' || s[0] == '+' {
            1
        } else {
            0
        };
        let body = s.subrange(start, s.len() as int);
        let dot = find_dot(body);
        let int_part = body.take(dot);
        let frac_part = if dot < body.len() {
            body.subrange(dot + 1, body.len() as int)
        } else {
            Seq::<char>::empty()
        };
        assert(int_part.len() > 0 && all_digits(int_part) && all_digits(frac_part));
        lemma_digits_val_nonneg(int_part);
        lemma_pow10_pos(frac);
        let used = if frac_part.len() <= frac {
            frac_part
        } else {
            frac_part.take(frac as int)
        };
        assert forall|i: int| 0 <= i < used.len() implies is_digit(#[trigger] used[i]) by {
            assert(used[i] == frac_part[i]);
        }
        lemma_digits_val_nonneg(used);
        lemma_pow10_pos((frac - used.len()) as nat);
        let a = digits_val(int_part);
        let p = pow10(frac);
        assert(a * p >= 0) by (nonlinear_arith)
            requires
                a >= 0,
                p >= 0,
        ;
        let du = digits_val(used);
        let pu = pow10((frac - used.len()) as nat);
        assert(du * pu >= 0) by (nonlinear_arith)
            requires
                du >= 0,
                pu >= 0,
        ;
    }
}

/// Parses a decimal string into a scaled integer at `frac` decimal
/// places, exactly as `parse_fixed_spec` reads it.
#[verifier::rlimit(80)]
pub fn parse_fixed(s: &str, frac: u32) -> (r: Option<i64>)
    requires
        frac <= 18,
    ensures
        r is Some <==> parse_fixed_spec(s@, frac as nat) is Some,
        r matches Some(v) ==> parse_fixed_spec(s@, frac as nat) == Some(v as int),
{
    let n = s.unicode_len();
    if n == 0 {
        return None;
    }
    let first = s.get_char(0);
    let neg = first == '-';
    let start: usize = if first == '-' || first == '+' {
        1
    } else {
        0
    };
    let ghost body = s@.subrange(start as int, n as int);
    proof {
        lemma_find_dot_bounds(body);
    }

    // Scan the integer digits, tracking their value until it leaves range.
    let mut i: usize = start;
    let mut int_acc: u128 = 0;
    let mut too_big = false;
    loop
        invariant
            start <= i <= n,
            n == s@.len(),
            forall|j: int| start <= j < i ==> is_digit(#[trigger] s@[j]),
            !too_big ==> int_acc <= i64::MAX && int_acc == digits_val(
                s@.subrange(start as int, i as int),
            ),
            too_big ==> digits_val(s@.subrange(start as int, i as int)) > i64::MAX,
        ensures
            start <= i <= n,
            n == s@.len(),
            i == n || !is_digit(s@[i as int]),
            forall|j: int| start <= j < i ==> is_digit(#[trigger] s@[j]),
            !too_big ==> int_acc <= i64::MAX && int_acc == digits_val(
                s@.subrange(start as int, i as int),
            ),
            too_big ==> digits_val(s@.subrange(start as int, i as int)) > i64::MAX,
        decreases n - i,
    {
        if i >= n {
            break;
        }
        let c = s.get_char(i);
        let u = c as u32;
        if !(48 <= u && u <= 57) {
            break;
        }
        proof {
            assert(s@.subrange(start as int, (i + 1) as int).drop_last() =~= s@.subrange(
                start as int,
                i as int,
            ));
        }
        if too_big {
            // The value is already beyond range; keep checking the shape.
        } else {
            let cand: u128 = int_acc * 10 + (u - 48) as u128;
            if cand > i64::MAX as u128 {
                too_big = true;
            } else {
                int_acc = cand;
            }
        }
        i = i + 1;
    }

    if i == start {
        // No integer digits: either the body is empty, starts with the
        // dot, or starts with a stray character.
        proof {
            if start < n {
                assert(body[0] == s@[start as int]);
                if s@[start as int] == '.' {
                    lemma_find_dot_is(body, 0);
                } else {
                    assert(find_dot(body) >= 1) by {
                        lemma_find_dot_bounds(body.drop_first());
                    }
                    assert(body.take(find_dot(body))[0] == body[0]);
                    assert(!is_digit(s@[start as int]));
                    assert(!all_digits(body.take(find_dot(body))));
                }
            } else {
                assert(body.len() == 0);
            }
            assert(parse_fixed_spec(s@, frac as nat) is None);
        }
        return None;
    }

    let ghost dot_rel = i - start;
    let ghost int_part = s@.subrange(start as int, i as int);
    proof {
        assert forall|j: int| 0 <= j < dot_rel implies body[j] != '.' by {
            assert(body[j] == s@[start + j]);
            assert(is_digit(s@[start + j]));
        }
        assert forall|j: int| 0 <= j < int_part.len() implies is_digit(#[trigger] int_part[j]) by {
            assert(int_part[j] == s@[start + j]);
        }
    }

    if i < n {
        let c = s.get_char(i);
        if c != '.' {
            // A stray character ends the integer digits: the shape is bad.
            proof {
                lemma_find_dot_is_ge(body, dot_rel);
                let fd = find_dot(body);
                if fd == dot_rel {
                    assert(body[fd] == s@[i as int]);
                    assert(false);
                }
                assert(body.take(fd)[dot_rel] == body[dot_rel]);
                assert(body[dot_rel] == s@[i as int]);
                assert(!is_digit(body.take(fd)[dot_rel]));
                assert(!all_digits(body.take(fd)));
                assert(parse_fixed_spec(s@, frac as nat) is None);
            }
            return None;
        }
        proof {
            assert(body[dot_rel] == s@[i as int]);
            lemma_find_dot_is(body, dot_rel);
            assert(body.take(dot_rel) =~= int_part);
        }
    } else {
        proof {
            lemma_find_dot_is(body, dot_rel);
            assert(body.take(dot_rel) =~= int_part);
        }
    }

    if i == n {
        // No fractional part.
        proof {
            assert(find_dot(body) == dot_rel == body.len());
            assert(parse_fixed_spec(s@, frac as nat) == parse_fixed_body(body, frac as nat, neg));
            assert(parse_fixed_body(body, frac as nat, neg) == parse_fixed_body_value(
                int_part,
                Seq::<char>::empty(),
                frac as nat,
                neg,
            ));
        }
        if too_big {
            proof {
                lemma_int_part_dominates(int_part, frac as nat);
            }
            return None;
        }
        return finish(
            int_acc,
            0,
            0,
            neg,
            frac,
            Ghost(s@),
            Ghost(int_part),
            Ghost(Seq::<char>::empty()),
        );
    }

    // Scan the fractional digits, keeping the first `frac` of them.
    let ghost fr = s@.subrange((i + 1) as int, n as int);
    let dot_idx = i;
    let mut j: usize = i + 1;
    let mut frac_acc: u128 = 0;
    let mut f_taken: u32 = 0;
    loop
        invariant
            dot_idx + 1 <= j <= n,
            dot_idx == i,
            n == s@.len(),
            frac <= 18,
            fr == s@.subrange((dot_idx + 1) as int, n as int),
            forall|k: int| dot_idx + 1 <= k < j ==> is_digit(#[trigger] s@[k]),
            if j - (dot_idx + 1) <= frac {
                f_taken == j - (dot_idx + 1)
            } else {
                f_taken == frac
            },
            frac_acc == digits_val(s@.subrange((dot_idx + 1) as int, (dot_idx + 1 + f_taken) as int)),
            frac_acc < pow10(f_taken as nat),
        ensures
            dot_idx + 1 <= j <= n,
            j == n || !is_digit(s@[j as int]),
            forall|k: int| dot_idx + 1 <= k < j ==> is_digit(#[trigger] s@[k]),
            if j - (dot_idx + 1) <= frac {
                f_taken == j - (dot_idx + 1)
            } else {
                f_taken == frac
            },
            frac_acc == digits_val(s@.subrange((dot_idx + 1) as int, (dot_idx + 1 + f_taken) as int)),
            frac_acc < pow10(f_taken as nat),
        decreases n - j,
    {
        if j >= n {
            break;
        }
        let c = s.get_char(j);
        let u = c as u32;
        if !(48 <= u && u <= 57) {
            break;
        }
        if f_taken < frac {
            proof {
                lemma_pow10_mono((f_taken + 1) as nat, 18);
                lemma_pow10_18();
                assert(s@.subrange((dot_idx + 1) as int, (dot_idx + 1 + f_taken + 1) as int)
                    .drop_last() =~= s@.subrange(
                    (dot_idx + 1) as int,
                    (dot_idx + 1 + f_taken) as int,
                ));
            }
            frac_acc = frac_acc * 10 + (u - 48) as u128;
            f_taken = f_taken + 1;
        }
        j = j + 1;
    }

    let ghost fp = body.subrange(dot_rel + 1, body.len() as int);
    proof {
        assert(fp =~= fr);
    }

    if j < n {
        // A stray character inside the fractional digits: the shape is bad.
        proof {
            assert(fr[j - (i + 1)] == s@[j as int]);
            assert(!all_digits(fp));
            assert(parse_fixed_spec(s@, frac as nat) is None);
        }
        return None;
    }

    proof {
        assert forall|k: int| 0 <= k < fr.len() implies is_digit(#[trigger] fr[k]) by {
            assert(fr[k] == s@[i + 1 + k]);
        }
        assert(parse_fixed_spec(s@, frac as nat) == parse_fixed_body(body, frac as nat, neg));
        assert(parse_fixed_body(body, frac as nat, neg) == parse_fixed_body_value(
            int_part,
            fr,
            frac as nat,
            neg,
        ));
        let used = if fr.len() <= frac {
            fr
        } else {
            fr.take(frac as int)
        };
        assert(used =~= s@.subrange((i + 1) as int, (i + 1 + f_taken) as int));
    }
    if too_big {
        proof {
            lemma_int_part_dominates_frac(int_part, fr, frac as nat);
        }
        return None;
    }
    finish(int_acc, frac_acc, f_taken, neg, frac, Ghost(s@), Ghost(int_part), Ghost(fr))
}

/// The integer digits alone already place the magnitude beyond range.
proof fn lemma_int_part_dominates(int_part: Seq<char>, frac: nat)
    requires
        digits_val(int_part) > i64::MAX,
    ensures
        digits_val(int_part) * pow10(frac) + frac_scaled(Seq::<char>::empty(), frac) > i64::MAX,
{
    lemma_pow10_pos(frac);
    let dv = digits_val(int_part);
    let p = pow10(frac);
    assert(dv * p >= dv) by (nonlinear_arith)
        requires
            dv >= 0,
            p >= 1,
    ;
    assert(frac_scaled(Seq::<char>::empty(), frac) == 0);
}

/// As above, with a well-formed fractional part present.
proof fn lemma_int_part_dominates_frac(int_part: Seq<char>, fr: Seq<char>, frac: nat)
    requires
        digits_val(int_part) > i64::MAX,
        all_digits(fr),
    ensures
        digits_val(int_part) * pow10(frac) + frac_scaled(fr, frac) > i64::MAX,
{
    lemma_pow10_pos(frac);
    let dv = digits_val(int_part);
    let p = pow10(frac);
    assert(dv * p >= dv) by (nonlinear_arith)
        requires
            dv >= 0,
            p >= 1,
    ;
    let used = if fr.len() <= frac {
        fr
    } else {
        fr.take(frac as int)
    };
    assert(all_digits(used));
    lemma_digits_val_nonneg(used);
    lemma_pow10_pos((frac - used.len()) as nat);
    let dvu = digits_val(used);
    let pu = pow10((frac - used.len()) as nat);
    assert(dvu * pu >= 0) by (nonlinear_arith)
        requires
            dvu >= 0,
            pu >= 0,
    ;
}

/// `find_dot` cannot fall short of a dot-free prefix.
proof fn lemma_find_dot_is_ge(s: Seq<char>, k: int)
    requires
        0 <= k <= s.len(),
        forall|j: int| 0 <= j < k ==> s[j] != '.',
    ensures
        find_dot(s) >= k,
    decreases s.len(),
{
    if s.len() > 0 && k > 0 {
        assert(s[0] != '.');
        let t = s.drop_first();
        assert forall|j: int| 0 <= j < k - 1 implies t[j] != '.' by {
            assert(t[j] == s[j + 1]);
        }
        lemma_find_dot_is_ge(t, k - 1);
    } else {
        lemma_find_dot_bounds(s);
    }
}

/// Assembles the scaled magnitude from the scanned digit values and
/// applies the sign, matching the body reading of the spec.
fn finish(
    int_acc: u128,
    frac_acc: u128,
    f_taken: u32,
    neg: bool,
    frac: u32,
    Ghost(s): Ghost<Seq<char>>,
    Ghost(int_part): Ghost<Seq<char>>,
    Ghost(fr): Ghost<Seq<char>>,
) -> (r: Option<i64>)
    requires
        frac <= 18,
        int_acc <= i64::MAX,
        int_acc == digits_val(int_part),
        all_digits(int_part),
        int_part.len() > 0,
        all_digits(fr),
        if fr.len() <= frac {
            f_taken == fr.len()
        } else {
            f_taken == frac
        },
        frac_acc == digits_val(
            if fr.len() <= frac {
                fr
            } else {
                fr.take(frac as int)
            },
        ),
        frac_acc < pow10(f_taken as nat),
        parse_fixed_spec(s, frac as nat) == parse_fixed_body_value(int_part, fr, frac as nat, neg),
    ensures
        r is Some <==> parse_fixed_spec(s, frac as nat) is Some,
        r matches Some(v) ==> parse_fixed_spec(s, frac as nat) == Some(v as int),
{
    proof {
        lemma_pow10_18();
        lemma_pow10_mono(f_taken as nat, 18);
        lemma_pow10_mono((frac - f_taken) as nat, 18);
        lemma_pow10_mono(frac as nat, 18);
    }
    let scale = pow10_u128(frac);
    let rest = pow10_u128(frac - f_taken);
    proof {
        let dv = int_acc as int;
        let p = scale as int;
        assert(dv * p <= 0x7fff_ffff_ffff_ffff * 1_000_000_000_000_000_000) by (nonlinear_arith)
            requires
                0 <= dv <= 0x7fff_ffff_ffff_ffff,
                0 <= p <= 1_000_000_000_000_000_000,
        ;
        assert(dv * p >= 0) by (nonlinear_arith)
            requires
                dv >= 0,
                p >= 0,
        ;
        let fa = frac_acc as int;
        let pr = rest as int;
        assert(fa * pr <= 1_000_000_000_000_000_000 * 1_000_000_000_000_000_000)
            by (nonlinear_arith)
            requires
                0 <= fa <= 1_000_000_000_000_000_000,
                0 <= pr <= 1_000_000_000_000_000_000,
        ;
        assert(fa * pr >= 0) by (nonlinear_arith)
            requires
                fa >= 0,
                pr >= 0,
        ;
    }
    let scaled_frac: u128 = frac_acc * rest;
    let total: u128 = int_acc * scale + scaled_frac;
    if total > i64::MAX as u128 {
        return None;
    }
    let magnitude = total as i64;
    if neg {
        Some(-magnitude)
    } else {
        Some(magnitude)
    }
}

/// The value of a well-formed body, split into its two digit runs.
pub open spec fn parse_fixed_body_value(
    int_part: Seq<char>,
    fr: Seq<char>,
    frac: nat,
    neg: bool,
) -> Option<int> {
    let m = digits_val(int_part) * pow10(frac) + frac_scaled(fr, frac);
    if m > i64::MAX {
        None
    } else {
        Some(
            if neg {
                -m
            } else {
                m
            },
        )
    }
}

} // verus!
