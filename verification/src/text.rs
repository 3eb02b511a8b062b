//! Text helpers: character access, literal substitution, decimal rendering.
//!
//! Everything here is stated over `Seq<char>`, the view of `str` and `String`.

use vstd::prelude::*;
use vstd::string::StrSliceExecFns;
use vstd::string::StringExecFns;

verus! {

/// Whether `pat` stands in `s` at index `i`. The empty text stands nowhere.
pub open spec fn occurs_at(s: Seq<char>, pat: Seq<char>, i: int) -> bool {
    &&& pat.len() > 0
    &&& 0 <= i
    &&& i + pat.len() <= s.len()
    &&& s.subrange(i, i + pat.len()) == pat
}

/// Whether `pat` stands somewhere in `s`.
pub open spec fn occurs_in(s: Seq<char>, pat: Seq<char>) -> bool {
    exists|i: int| occurs_at(s, pat, i)
}

/// `s` with every occurrence of `pat` replaced by `with`.
///
/// The scan runs left to right. An occurrence is consumed whole, so two
/// occurrences never overlap, and the replacement text is not scanned again.
/// An empty `pat` occurs nowhere: `s` comes back unchanged.
pub open spec fn replaced(s: Seq<char>, pat: Seq<char>, with: Seq<char>) -> Seq<char>
    decreases s.len(),
{
    if pat.len() == 0 || s.len() < pat.len() {
        s
    } else if occurs_at(s, pat, 0) {
        with + replaced(s.skip(pat.len() as int), pat, with)
    } else {
        seq![s[0]] + replaced(s.skip(1), pat, with)
    }
}

/// The decimal digit for `d`, for `d` below ten.
pub open spec fn digit_char(d: nat) -> char {
    if d == 0 {
        '0'
    } else if d == 1 {
        '1'
    } else if d == 2 {
        '2'
    } else if d == 3 {
        '3'
    } else if d == 4 {
        '4'
    } else if d == 5 {
        '5'
    } else if d == 6 {
        '6'
    } else if d == 7 {
        '7'
    } else if d == 8 {
        '8'
    } else {
        '9'
    }
}

/// `n` in decimal, most significant digit first, without leading zeros.
pub open spec fn decimal(n: nat) -> Seq<char>
    decreases n,
{
    if n < 10 {
        seq![digit_char(n)]
    } else {
        decimal(n / 10).push(digit_char(n % 10))
    }
}

/// `n` in decimal, with a leading minus sign when it is negative.
pub open spec fn signed_decimal(n: int) -> Seq<char> {
    if n < 0 {
        seq!['-'] + decimal((-n) as nat)
    } else {
        decimal(n as nat)
    }
}

/// Whether `c` is one of the ten decimal digits.
pub open spec fn is_digit(c: char) -> bool {
    c == '0' || c == '1' || c == '2' || c == '3' || c == '4' || c == '5' || c == '6' || c == '7'
        || c == '8' || c == '9'
}

/// A number in decimal is never empty and holds digits only.
pub proof fn lemma_decimal_is_digits(n: nat)
    ensures
        decimal(n).len() > 0,
        forall|i: int| 0 <= i < decimal(n).len() ==> is_digit(#[trigger] decimal(n)[i]),
    decreases n,
{
    if n >= 10 {
        lemma_decimal_is_digits(n / 10);
    }
}

/// One step of the scan at index `i`, where `pat` stands.
proof fn lemma_replaced_step_hit(s: Seq<char>, pat: Seq<char>, with: Seq<char>, i: int)
    requires
        pat.len() > 0,
        occurs_at(s, pat, i),
    ensures
        replaced(s.skip(i), pat, with) == with + replaced(s.skip(i + pat.len()), pat, with),
{
    let rest = s.skip(i);
    assert(rest.subrange(0, pat.len() as int) =~= s.subrange(i, i + pat.len()));
    assert(rest.skip(pat.len() as int) =~= s.skip(i + pat.len()));
}

/// One step of the scan at index `i`, where `pat` does not stand but could fit.
proof fn lemma_replaced_step_miss(s: Seq<char>, pat: Seq<char>, with: Seq<char>, i: int)
    requires
        pat.len() > 0,
        0 <= i,
        i + pat.len() <= s.len(),
        !occurs_at(s, pat, i),
    ensures
        replaced(s.skip(i), pat, with) == seq![s[i]] + replaced(s.skip(i + 1), pat, with),
{
    let rest = s.skip(i);
    assert(rest.subrange(0, pat.len() as int) =~= s.subrange(i, i + pat.len()));
    assert(rest.skip(1) =~= s.skip(i + 1));
}

/// A text in which the pattern does not occur is left as it is.
pub proof fn lemma_replaced_without_occurrence(s: Seq<char>, pat: Seq<char>, with: Seq<char>)
    requires
        !occurs_in(s, pat),
    ensures
        replaced(s, pat, with) == s,
    decreases s.len(),
{
    if pat.len() > 0 && s.len() >= pat.len() {
        let rest = s.skip(1);
        assert forall|j: int| !occurs_at(rest, pat, j) by {
            if occurs_at(rest, pat, j) {
                assert(rest.subrange(j, j + pat.len()) =~= s.subrange(j + 1, j + 1 + pat.len()));
                assert(occurs_at(s, pat, j + 1));
            }
        }
        lemma_replaced_without_occurrence(rest, pat, with);
        assert(!occurs_at(s, pat, 0));
        assert(seq![s[0]] + rest =~= s);
    }
}

/// What stands before the first occurrence of the pattern is kept, the
/// occurrence gives way to the replacement, and what follows it is treated
/// in the same way. With the law above this says that every occurrence met
/// on the way from left to right is replaced.
pub proof fn lemma_replaced_at_first_occurrence(
    s: Seq<char>,
    pat: Seq<char>,
    with: Seq<char>,
    i: int,
)
    requires
        occurs_at(s, pat, i),
        forall|j: int| 0 <= j < i ==> !occurs_at(s, pat, j),
    ensures
        replaced(s, pat, with) == s.take(i) + with + replaced(s.skip(i + pat.len()), pat, with),
    decreases i,
{
    if i == 0 {
        assert(s.take(0) + with =~= with);
    } else {
        let rest = s.skip(1);
        assert(rest.subrange(i - 1, i - 1 + pat.len()) =~= s.subrange(i, i + pat.len()));
        assert forall|j: int| 0 <= j < i - 1 implies !occurs_at(rest, pat, j) by {
            if occurs_at(rest, pat, j) {
                assert(rest.subrange(j, j + pat.len()) =~= s.subrange(j + 1, j + 1 + pat.len()));
                assert(occurs_at(s, pat, j + 1));
            }
        }
        lemma_replaced_at_first_occurrence(rest, pat, with, i - 1);
        assert(!occurs_at(s, pat, 0));
        assert(seq![s[0]] + rest.take(i - 1) =~= s.take(i));
        assert(rest.skip(i - 1 + pat.len()) =~= s.skip(i + pat.len()));
        assert(seq![s[0]] + (rest.take(i - 1) + with + replaced(
            rest.skip(i - 1 + pat.len()),
            pat,
            with,
        )) =~= seq![s[0]] + rest.take(i - 1) + with + replaced(
            rest.skip(i - 1 + pat.len()),
            pat,
            with,
        ));
    }
}

/// Whether no character of `a` is a character of `b`.
pub open spec fn shares_no_char(a: Seq<char>, b: Seq<char>) -> bool {
    forall|i: int, j: int| 0 <= i < a.len() && 0 <= j < b.len() ==> a[i] != b[j]
}

/// Where the result of a replacement begins with a text that shares no
/// character with the replacement, the text that went in begins with it too.
proof fn lemma_replaced_prefix(s: Seq<char>, pat: Seq<char>, with: Seq<char>, q: Seq<char>)
    requires
        with.len() > 0,
        shares_no_char(with, q),
        q.len() <= replaced(s, pat, with).len(),
        replaced(s, pat, with).take(q.len() as int) == q,
    ensures
        q.len() <= s.len(),
        s.take(q.len() as int) == q,
    decreases s.len(),
{
    let r = replaced(s, pat, with);
    if pat.len() == 0 || s.len() < pat.len() || q.len() == 0 {
        assert(s.take(0) =~= Seq::<char>::empty());
    } else if occurs_at(s, pat, 0) {
        assert(r[0] == with[0]);
        assert(r.take(q.len() as int)[0] == q[0]);
    } else {
        let rest = replaced(s.skip(1), pat, with);
        let tail = q.skip(1);
        assert(r.take(q.len() as int)[0] == q[0]);
        assert(rest.take(tail.len() as int) =~= r.take(q.len() as int).skip(1));
        assert(shares_no_char(with, tail)) by {
            assert forall|i: int, j: int| 0 <= i < with.len() && 0 <= j < tail.len() implies with[i]
                != tail[j] by {
                assert(tail[j] == q[j + 1]);
            }
        }
        lemma_replaced_prefix(s.skip(1), pat, with, tail);
        assert(s.take(q.len() as int) =~= seq![s[0]] + s.skip(1).take(tail.len() as int));
        assert(seq![q[0]] + tail =~= q);
    }
}

/// Where the replacement is not empty and shares no character with the
/// pattern, no occurrence of the pattern is left in the result.
///
/// Without the condition an occurrence can be left: taking `ab` out of
/// `aabb` leaves `ab`, which the two ends have formed.
pub proof fn lemma_replaced_leaves_no_occurrence(s: Seq<char>, pat: Seq<char>, with: Seq<char>)
    requires
        with.len() > 0,
        shares_no_char(with, pat),
    ensures
        !occurs_in(replaced(s, pat, with), pat),
    decreases s.len(),
{
    let r = replaced(s, pat, with);
    let m = pat.len() as int;
    assert forall|j: int| !occurs_at(r, pat, j) by {
        if occurs_at(r, pat, j) {
            assert(r.subrange(j, j + m)[0] == pat[0]);
            if s.len() < m {
            } else if occurs_at(s, pat, 0) {
                let rest = replaced(s.skip(m), pat, with);
                lemma_replaced_leaves_no_occurrence(s.skip(m), pat, with);
                if j < with.len() {
                    assert(r[j] == with[j]);
                } else {
                    assert(rest.subrange(j - with.len(), j - with.len() + m) =~= r.subrange(
                        j,
                        j + m,
                    ));
                    assert(occurs_at(rest, pat, j - with.len()));
                }
            } else {
                let rest = replaced(s.skip(1), pat, with);
                lemma_replaced_leaves_no_occurrence(s.skip(1), pat, with);
                if j > 0 {
                    assert(rest.subrange(j - 1, j - 1 + m) =~= r.subrange(j, j + m));
                    assert(occurs_at(rest, pat, j - 1));
                } else {
                    let tail = pat.skip(1);
                    assert(rest.take(tail.len() as int) =~= r.subrange(0, m).skip(1));
                    assert(shares_no_char(with, tail)) by {
                        assert forall|i: int, k: int|
                            0 <= i < with.len() && 0 <= k < tail.len() implies with[i]
                            != tail[k] by {
                            assert(tail[k] == pat[k + 1]);
                        }
                    }
                    lemma_replaced_prefix(s.skip(1), pat, with, tail);
                    assert(s[0] == pat[0]);
                    assert(s.subrange(0, m) =~= seq![s[0]] + s.skip(1).take(tail.len() as int));
                    assert(seq![pat[0]] + tail =~= pat);
                    assert(occurs_at(s, pat, 0));
                }
            }
        }
    }
}

/// The characters of `s`, in order.
pub fn chars_of(s: &str) -> (out: Vec<char>)
    ensures
        out@ == s@,
{
    let mut out: Vec<char> = Vec::new();
    for c in it: s.chars()
        invariant
            out@ == it.seq().take(it.index() as int),
    {
        out.push(c);
    }
    out
}

/// Whether `pat` stands in `hay` at index `at`.
pub fn stands_at(hay: &Vec<char>, pat: &Vec<char>, at: usize) -> (found: bool)
    ensures
        found == occurs_at(hay@, pat@, at as int),
{
    let n: usize = hay.len();
    let m: usize = pat.len();
    if m == 0 || m > n || at > n - m {
        return false;
    }
    let mut k: usize = 0;
    while k < m
        invariant
            n == hay@.len(),
            m == pat@.len(),
            0 < m <= n,
            at <= n - m,
            k <= m,
            forall|j: int| 0 <= j < k ==> hay@[at + j] == pat@[j],
        decreases m - k,
    {
        if hay[at + k] != pat[k] {
            assert(hay@.subrange(at as int, at + m)[k as int] == hay@[at + k]);
            return false;
        }
        k += 1;
    }
    assert(hay@.subrange(at as int, at + m) =~= pat@);
    true
}

/// `text` with every occurrence of `from` replaced by `to`, scanning left to
/// right without overlap. An empty `from` leaves `text` unchanged.
pub fn replace_all(text: &str, from: &str, to: &str) -> (out: String)
    ensures
        out@ == replaced(text@, from@, to@),
{
    let hay = chars_of(text);
    let pat = chars_of(from);
    let n: usize = hay.len();
    let m: usize = pat.len();
    if m == 0 || n < m {
        return String::from_str(text);
    }
    let mut out = String::new();
    let mut start: usize = 0;
    let mut i: usize = 0;
    assert(hay@.skip(0) =~= hay@);
    while i <= n - m
        invariant
            hay@ == text@,
            pat@ == from@,
            n == hay@.len(),
            m == pat@.len(),
            0 < m <= n,
            start <= i <= n,
            out@ + hay@.subrange(start as int, i as int) + replaced(hay@.skip(i as int), pat@, to@)
                == replaced(hay@, pat@, to@),
        decreases n - i,
    {
        if stands_at(&hay, &pat, i) {
            proof {
                lemma_replaced_step_hit(hay@, pat@, to@, i as int);
            }
            out.append(text.substring_char(start, i));
            out.append(to);
            i += m;
            start = i;
            assert(hay@.subrange(start as int, i as int) =~= Seq::<char>::empty());
        } else {
            proof {
                lemma_replaced_step_miss(hay@, pat@, to@, i as int);
                assert(hay@.subrange(start as int, i as int) + seq![hay@[i as int]]
                    =~= hay@.subrange(start as int, i + 1));
            }
            i += 1;
        }
    }
    assert(hay@.subrange(start as int, i as int) + hay@.skip(i as int) =~= hay@.subrange(
        start as int,
        n as int,
    ));
    out.append(text.substring_char(start, n));
    out
}

/// The one-character text for the digit `d`.
fn digit_str(d: u8) -> (s: &'static str)
    requires
        d < 10,
    ensures
        s@ == seq![digit_char(d as nat)],
{
    proof {
        reveal_strlit("0");
        reveal_strlit("1");
        reveal_strlit("2");
        reveal_strlit("3");
        reveal_strlit("4");
        reveal_strlit("5");
        reveal_strlit("6");
        reveal_strlit("7");
        reveal_strlit("8");
        reveal_strlit("9");
    }
    let s = if d == 0 {
        "0"
    } else if d == 1 {
        "1"
    } else if d == 2 {
        "2"
    } else if d == 3 {
        "3"
    } else if d == 4 {
        "4"
    } else if d == 5 {
        "5"
    } else if d == 6 {
        "6"
    } else if d == 7 {
        "7"
    } else if d == 8 {
        "8"
    } else {
        "9"
    };
    assert(s@ =~= seq![digit_char(d as nat)]);
    s
}

/// Appends `n` in decimal to `out`.
pub fn push_decimal(out: &mut String, n: u64)
    ensures
        final(out)@ == old(out)@ + decimal(n as nat),
    decreases n,
{
    if n >= 10 {
        push_decimal(out, n / 10);
    }
    out.append(digit_str((n % 10) as u8));
    assert(final(out)@ =~= old(out)@ + decimal(n as nat));
}

/// `n` in decimal.
pub fn decimal_of_u64(n: u64) -> (out: String)
    ensures
        out@ == decimal(n as nat),
{
    let mut out = String::new();
    push_decimal(&mut out, n);
    assert(out@ =~= decimal(n as nat));
    out
}

/// `n` in decimal, with a minus sign in front when it is negative.
pub fn decimal_of_i32(n: i32) -> (out: String)
    ensures
        out@ == signed_decimal(n as int),
{
    let mut out = String::new();
    if n < 0 {
        out.append("-");
        proof {
            reveal_strlit("-");
        }
        let magnitude: u64 = (-(n as i64)) as u64;
        push_decimal(&mut out, magnitude);
        assert(out@ =~= seq!['-'] + decimal((-n) as nat));
    } else {
        push_decimal(&mut out, n as u64);
        assert(out@ =~= decimal(n as nat));
    }
    out
}

} // verus!
