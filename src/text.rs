//! Character-level helpers: whitespace, word splitting, decimal numbers.
use vstd::prelude::*;
use vstd::string::*;

verus! {

/// The characters that `char::is_whitespace` accepts (Unicode `White_Space`).
pub open spec fn is_ws(c: char) -> bool {
    c == ' ' || ('\t' <= c && c <= '\r') || c == '\u{85}' || c == '\u{A0}' || c == '\u{1680}'
        || ('\u{2000}' <= c && c <= '\u{200A}') || c == '\u{2028}' || c == '\u{2029}'
        || c == '\u{202F}' || c == '\u{205F}' || c == '\u{3000}'
}

/// The maximal runs of non-whitespace characters of `s`, in order.
pub open spec fn words(s: Seq<char>) -> Seq<Seq<char>>
    decreases s.len(),
{
    if s.len() == 0 {
        seq![]
    } else if is_ws(s.last()) {
        words(s.drop_last())
    } else if s.len() > 1 && !is_ws(s[s.len() - 2]) {
        let w = words(s.drop_last());
        w.update(w.len() - 1, w.last().push(s.last()))
    } else {
        words(s.drop_last()).push(seq![s.last()])
    }
}

/// The value of a digit character.
pub open spec fn digit_value(c: char) -> nat {
    (c as nat - '0' as nat) as nat
}

pub open spec fn is_digit(c: char) -> bool {
    '0' <= c && c <= '9'
}

/// The number that a string of decimal digits spells.
pub open spec fn digits_value(s: Seq<char>) -> nat
    decreases s.len(),
{
    if s.len() == 0 {
        0
    } else {
        digits_value(s.drop_last()) * 10 + digit_value(s.last())
    }
}

/// `s` read as a decimal `usize`: one or more digits whose value fits.
pub open spec fn parse_usize(s: Seq<char>) -> Option<usize> {
    if s.len() > 0 && (forall|i: int| 0 <= i < s.len() ==> is_digit(#[trigger] s[i]))
        && digits_value(s) <= usize::MAX {
        Some(digits_value(s) as usize)
    } else {
        None
    }
}

pub open spec fn digit_char(d: nat) -> char {
    ('0' as nat + d) as char
}

/// The decimal spelling of `n`, without leading zeros.
pub open spec fn decimal(n: nat) -> Seq<char>
    decreases n,
{
    if n < 10 {
        seq![digit_char(n)]
    } else {
        decimal(n / 10).push(digit_char(n % 10))
    }
}

pub fn is_whitespace(c: char) -> (r: bool)
    ensures
        r == is_ws(c),
{
    c == ' ' || ('\t' <= c && c <= '\r') || c == '\u{85}' || c == '\u{A0}' || c == '\u{1680}'
        || ('\u{2000}' <= c && c <= '\u{200A}') || c == '\u{2028}' || c == '\u{2029}'
        || c == '\u{202F}' || c == '\u{205F}' || c == '\u{3000}'
}

/// The characters of `s`, in order.
pub fn chars_of(s: &str) -> (r: Vec<char>)
    ensures
        r@ == s@,
{
    let n = s.unicode_len();
    let mut r: Vec<char> = Vec::new();
    let mut i: usize = 0;
    while i < n
        invariant
            n == s@.len(),
            i <= n,
            r@ == s@.subrange(0, i as int),
        decreases n - i,
    {
        r.push(s.get_char(i));
        i = i + 1;
        assert(r@ =~= s@.subrange(0, i as int));
    }
    assert(r@ =~= s@);
    r
}

/// Whether the characters `s[a..b]` are exactly those of `lit`.
pub fn range_is(s: &Vec<char>, a: usize, b: usize, lit: &str) -> (r: bool)
    requires
        a <= b <= s@.len(),
    ensures
        r == (s@.subrange(a as int, b as int) == lit@),
{
    let n = lit.unicode_len();
    if b - a != n {
        return false;
    }
    let mut k: usize = 0;
    while k < n
        invariant
            n == lit@.len(),
            b - a == n,
            a <= b <= s@.len(),
            k <= n,
            forall|j: int| 0 <= j < k ==> s@[a + j] == lit@[j],
        decreases n - k,
    {
        if s[a + k] != lit.get_char(k) {
            assert(s@.subrange(a as int, b as int)[k as int] != lit@[k as int]);
            return false;
        }
        k = k + 1;
    }
    assert(s@.subrange(a as int, b as int) =~= lit@);
    true
}

proof fn lemma_words_step(s: Seq<char>, i: int)
    requires
        0 <= i < s.len(),
    ensures
        words(s.subrange(0, i + 1)) == (if is_ws(s[i]) {
            words(s.subrange(0, i))
        } else if i > 0 && !is_ws(s[i - 1]) {
            words(s.subrange(0, i)).update(
                words(s.subrange(0, i)).len() - 1,
                words(s.subrange(0, i)).last().push(s[i]),
            )
        } else {
            words(s.subrange(0, i)).push(seq![s[i]])
        }),
{
    let t = s.subrange(0, i + 1);
    assert(t.drop_last() =~= s.subrange(0, i));
    assert(t.last() == s[i]);
    if i > 0 {
        assert(t[t.len() - 2] == s[i - 1]);
    }
}

proof fn lemma_words_last_nonempty(s: Seq<char>)
    requires
        s.len() > 0,
        !is_ws(s.last()),
    ensures
        words(s).len() > 0,
    decreases s.len(),
{
    if s.len() > 1 && !is_ws(s[s.len() - 2]) {
        let t = s.drop_last();
        assert(t.last() == s[s.len() - 2]);
        lemma_words_last_nonempty(t);
    }
}

/// Splits `s` at whitespace: the result holds, for each word in order, its
/// start and end index in `s`.
pub fn split_words(s: &Vec<char>) -> (r: Vec<(usize, usize)>)
    ensures
        r@.len() == words(s@).len(),
        forall|k: int| #![trigger r@[k]]
            0 <= k < r@.len() ==> {
                &&& r@[k].0 <= r@[k].1 <= s@.len()
                &&& s@.subrange(r@[k].0 as int, r@[k].1 as int) == words(s@)[k]
            },
{
    let n = s.len();
    let mut r: Vec<(usize, usize)> = Vec::new();
    let mut i: usize = 0;
    while i < n
        invariant
            n == s@.len(),
            i <= n,
            r@.len() == words(s@.subrange(0, i as int)).len(),
            forall|k: int| #![trigger r@[k]]
                0 <= k < r@.len() ==> {
                    &&& r@[k].0 <= r@[k].1 <= i
                    &&& s@.subrange(r@[k].0 as int, r@[k].1 as int) == words(
                        s@.subrange(0, i as int),
                    )[k]
                },
            i > 0 && !is_ws(s@[i - 1]) ==> r@.len() > 0 && r@.last().1 == i,
        decreases n - i,
    {
        proof {
            lemma_words_step(s@, i as int);
        }
        let c = s[i];
        let ghost before = words(s@.subrange(0, i as int));
        let ghost old_r = r@;
        if is_whitespace(c) {
            proof {
                let after = words(s@.subrange(0, i + 1));
                assert(after == before);
                assert forall|k: int| #![trigger r@[k]] 0 <= k < r@.len() implies {
                    &&& r@[k].0 <= r@[k].1 <= i + 1
                    &&& s@.subrange(r@[k].0 as int, r@[k].1 as int) == after[k]
                } by {
                    assert(s@.subrange(old_r[k].0 as int, old_r[k].1 as int) == before[k]);
                }
            }
        } else if i > 0 && !is_whitespace(s[i - 1]) {
            proof {
                lemma_words_last_nonempty(s@.subrange(0, i as int));
                assert(s@.subrange(0, i as int).last() == s@[i - 1]);
            }
            let last = r.len() - 1;
            let (a, _) = r[last];
            assert(s@.subrange(a as int, i as int) == before[last as int]);
            r.set(last, (a, i + 1));
            proof {
                let after = words(s@.subrange(0, i + 1));
                assert(s@.subrange(a as int, i + 1) =~= s@.subrange(a as int, i as int).push(c));
                assert forall|k: int| #![trigger r@[k]] 0 <= k < r@.len() implies {
                    &&& r@[k].0 <= r@[k].1 <= i + 1
                    &&& s@.subrange(r@[k].0 as int, r@[k].1 as int) == after[k]
                } by {
                    if k != last {
                        assert(r@[k] == old_r[k]);
                        assert(s@.subrange(old_r[k].0 as int, old_r[k].1 as int) == before[k]);
                        assert(after[k] == before[k]);
                    }
                }
            }
        } else {
            r.push((i, i + 1));
            proof {
                let after = words(s@.subrange(0, i + 1));
                assert(s@.subrange(i as int, i + 1) =~= seq![c]);
                assert forall|k: int| #![trigger r@[k]] 0 <= k < r@.len() implies {
                    &&& r@[k].0 <= r@[k].1 <= i + 1
                    &&& s@.subrange(r@[k].0 as int, r@[k].1 as int) == after[k]
                } by {
                    if k < before.len() {
                        assert(r@[k] == old_r[k]);
                        assert(s@.subrange(old_r[k].0 as int, old_r[k].1 as int) == before[k]);
                        assert(after[k] == before[k]);
                    }
                }
            }
        }
        i = i + 1;
    }
    assert(s@.subrange(0, n as int) =~= s@);
    assert forall|k: int| #![trigger r@[k]] 0 <= k < r@.len() implies {
        &&& r@[k].0 <= r@[k].1 <= s@.len()
        &&& s@.subrange(r@[k].0 as int, r@[k].1 as int) == words(s@)[k]
    } by {
        assert(s@.subrange(r@[k].0 as int, r@[k].1 as int) == words(s@.subrange(0, n as int))[k]);
    }
    r
}

proof fn lemma_digits_step(t: Seq<char>, i: int)
    requires
        0 <= i < t.len(),
    ensures
        digits_value(t.subrange(0, i + 1)) == digits_value(t.subrange(0, i)) * 10 + digit_value(
            t[i],
        ),
{
    assert(t.subrange(0, i + 1).drop_last() =~= t.subrange(0, i));
}

proof fn lemma_digits_grow(t: Seq<char>, i: int, j: int)
    requires
        0 <= i <= j <= t.len(),
    ensures
        digits_value(t.subrange(0, i)) <= digits_value(t.subrange(0, j)),
    decreases j - i,
{
    if i < j {
        lemma_digits_grow(t, i, j - 1);
        lemma_digits_step(t, j - 1);
    }
}

/// `s[a..b]` read as a decimal `usize` (see [`parse_usize`]).
pub fn parse_decimal(s: &Vec<char>, a: usize, b: usize) -> (r: Option<usize>)
    requires
        a <= b <= s@.len(),
    ensures
        r == parse_usize(s@.subrange(a as int, b as int)),
{
    let ghost t = s@.subrange(a as int, b as int);
    if a == b {
        return None;
    }
    let mut k: usize = a;
    while k < b
        invariant
            a <= k <= b <= s@.len(),
            t == s@.subrange(a as int, b as int),
            forall|j: int| 0 <= j < k - a ==> is_digit(#[trigger] t[j]),
        decreases b - k,
    {
        if !('0' <= s[k] && s[k] <= '9') {
            assert(!is_digit(t[k - a]));
            return None;
        }
        k = k + 1;
    }
    let mut acc: usize = 0;
    let mut i: usize = a;
    assert(t.subrange(0, 0) =~= Seq::<char>::empty());
    while i < b
        invariant
            a <= i <= b <= s@.len(),
            t == s@.subrange(a as int, b as int),
            forall|j: int| 0 <= j < t.len() ==> is_digit(#[trigger] t[j]),
            acc == digits_value(t.subrange(0, i - a)),
        decreases b - i,
    {
        proof {
            lemma_digits_step(t, i - a);
        }
        let d = (s[i] as u32 - '0' as u32) as usize;
        assert(is_digit(t[i - a]));
        assert(d == digit_value(t[i - a]));
        match acc.checked_mul(10) {
            Some(m) => match m.checked_add(d) {
                Some(v) => {
                    acc = v;
                },
                None => {
                    proof {
                        lemma_digits_grow(t, i - a + 1, t.len() as int);
                        assert(t.subrange(0, t.len() as int) =~= t);
                    }
                    return None;
                },
            },
            None => {
                proof {
                    lemma_digits_grow(t, i - a + 1, t.len() as int);
                    assert(t.subrange(0, t.len() as int) =~= t);
                }
                return None;
            },
        }
        i = i + 1;
    }
    assert(t.subrange(0, b - a) =~= t);
    Some(acc)
}

/// The one-character text of a decimal digit.
fn digit_str(d: usize) -> (r: &'static str)
    requires
        d < 10,
    ensures
        r@ == seq![digit_char(d as nat)],
{
    proof {
        reveal_strlit("0");
        reveal_strlit("1");
        reveal_strlit("2");
        reveal_strlit("3");
        reveal_strlit("4");
        reveal_strlit("5");
        reveal_strlit("6");
        reveal_strlit("7");
        reveal_strlit("8");
        reveal_strlit("9");
    }
    let r = if d == 0 {
        "0"
    } else if d == 1 {
        "1"
    } else if d == 2 {
        "2"
    } else if d == 3 {
        "3"
    } else if d == 4 {
        "4"
    } else if d == 5 {
        "5"
    } else if d == 6 {
        "6"
    } else if d == 7 {
        "7"
    } else if d == 8 {
        "8"
    } else {
        "9"
    };
    assert(r@ =~= seq![digit_char(d as nat)]);
    r
}

/// The decimal spelling of `n`.
pub fn decimal_text(n: usize) -> (r: String)
    ensures
        r@ == decimal(n as nat),
    decreases n,
{
    if n < 10 {
        String::from_str(digit_str(n))
    } else {
        let mut r = decimal_text(n / 10);
        r.append(digit_str(n % 10));
        r
    }
}

} // verus!
