//! Character-level groundwork: ASCII whitespace, whitespace-separated
//! tokenization, and decimal rendering/reading of numbers.

use vstd::prelude::*;
use vstd::string::*;

verus! {

/// ASCII whitespace, exactly the characters that
/// `char::is_ascii_whitespace` counts: space, tab, newline, form feed and
/// carriage return.
pub open spec fn is_ws(c: char) -> bool {
    c == ' ' || c == '\t' || c == '\n' || c == '\x0c' || c == '\r'
}

/// Exec mirror of [`is_ws`].
pub fn is_ws_char(c: char) -> (r: bool)
    ensures
        r == is_ws(c),
{
    c == ' ' || c == '\t' || c == '\n' || c == '\x0c' || c == '\r'
}

/// The character for a single decimal digit value below ten.
pub open spec fn digit_char(d: nat) -> char {
    if d == 0 {
        '0'
    } else if d == 1 {
        '1'
    } else if d == 2 {
        '2'
    } else if d == 3 {
        '3'
    } else if d == 4 {
        '4'
    } else if d == 5 {
        '5'
    } else if d == 6 {
        '6'
    } else if d == 7 {
        '7'
    } else if d == 8 {
        '8'
    } else {
        '9'
    }
}

/// Whether `c` is a decimal digit.
pub open spec fn is_digit(c: char) -> bool {
    c == '0' || c == '1' || c == '2' || c == '3' || c == '4' || c == '5' || c == '6' || c == '7'
        || c == '8' || c == '9'
}

/// The numeric value of a decimal digit character; zero for any other
/// character.
pub open spec fn digit_val(c: char) -> nat {
    if c == '1' {
        1
    } else if c == '2' {
        2
    } else if c == '3' {
        3
    } else if c == '4' {
        4
    } else if c == '5' {
        5
    } else if c == '6' {
        6
    } else if c == '7' {
        7
    } else if c == '8' {
        8
    } else if c == '9' {
        9
    } else {
        0
    }
}

/// The usual decimal rendering of `n`, most significant digit first, with
/// no sign and no leading zeros (a single `'0'` for zero).
pub open spec fn dec_digits(n: nat) -> Seq<char>
    decreases n,
{
    if n < 10 {
        seq![digit_char(n)]
    } else {
        dec_digits(n / 10).push(digit_char(n % 10))
    }
}

/// Whether every character of `s` is a decimal digit.
pub open spec fn all_digits(s: Seq<char>) -> bool {
    forall|i: int| 0 <= i < s.len() ==> is_digit(#[trigger] s[i])
}

/// The number a digit string denotes, most significant digit first.
/// Non-digit characters count as zero; [`all_digits`] rules them out where
/// it matters.
pub open spec fn dec_val(s: Seq<char>) -> nat
    decreases s.len(),
{
    if s.len() == 0 {
        0
    } else {
        dec_val(s.drop_last()) * 10 + digit_val(s.last())
    }
}

/// Reading back the decimal rendering of `n` gives `n` again, and the
/// rendering is a nonempty digit string.
pub proof fn lemma_dec_digits_val(n: nat)
    ensures
        dec_val(dec_digits(n)) == n,
        dec_digits(n).len() >= 1,
        all_digits(dec_digits(n)),
    decreases n,
{
    if n < 10 {
        let s = dec_digits(n);
        assert(s == seq![digit_char(n)]);
        assert(s.drop_last() =~= Seq::<char>::empty());
        assert(dec_val(Seq::<char>::empty()) == 0);
        assert(s.last() == digit_char(n));
        assert(dec_val(s) == digit_val(digit_char(n)));
    } else {
        lemma_dec_digits_val(n / 10);
        let s = dec_digits(n);
        assert(s == dec_digits(n / 10).push(digit_char(n % 10)));
        assert(s.drop_last() =~= dec_digits(n / 10));
        assert(s.last() == digit_char(n % 10));
        assert(dec_val(s) == (n / 10) * 10 + digit_val(digit_char(n % 10)));
        assert(digit_val(digit_char(n % 10)) == n % 10);
        assert((n / 10) * 10 + n % 10 == n) by {
            vstd::arithmetic::div_mod::lemma_fundamental_div_mod(n as int, 10);
        }
    }
}

/// Distinct numbers render to distinct digit strings.
pub proof fn lemma_dec_digits_injective(a: nat, b: nat)
    requires
        a != b,
    ensures
        dec_digits(a) != dec_digits(b),
{
    lemma_dec_digits_val(a);
    lemma_dec_digits_val(b);
}

/// Reading one more digit multiplies the value so far by ten and adds the
/// digit.
pub proof fn lemma_dec_val_take_step(s: Seq<char>, k: int)
    requires
        0 <= k < s.len(),
    ensures
        dec_val(s.take(k + 1)) == dec_val(s.take(k)) * 10 + digit_val(s[k]),
{
    assert(s.take(k + 1).drop_last() =~= s.take(k));
    assert(s.take(k + 1).last() == s[k]);
}

/// The value of a digit string never shrinks as more digits are read.
pub proof fn lemma_dec_val_monotone(s: Seq<char>, i: int, j: int)
    requires
        0 <= i <= j <= s.len(),
    ensures
        dec_val(s.take(i)) <= dec_val(s.take(j)),
    decreases j - i,
{
    if i < j {
        lemma_dec_val_monotone(s, i, j - 1);
        lemma_dec_val_take_step(s, j - 1);
    }
}

/// Digit strings contain no whitespace.
pub proof fn lemma_digits_not_ws(s: Seq<char>)
    requires
        all_digits(s),
    ensures
        forall|i: int| 0 <= i < s.len() ==> !is_ws(#[trigger] s[i]),
{
}

fn digit_str(d: u64) -> (r: &'static str)
    requires
        d < 10,
    ensures
        r@ == seq![digit_char(d as nat)],
{
    proof {
        reveal_strlit("0");
        reveal_strlit("1");
        reveal_strlit("2");
        reveal_strlit("3");
        reveal_strlit("4");
        reveal_strlit("5");
        reveal_strlit("6");
        reveal_strlit("7");
        reveal_strlit("8");
        reveal_strlit("9");
    }
    let r: &'static str = if d == 0 {
        "0"
    } else if d == 1 {
        "1"
    } else if d == 2 {
        "2"
    } else if d == 3 {
        "3"
    } else if d == 4 {
        "4"
    } else if d == 5 {
        "5"
    } else if d == 6 {
        "6"
    } else if d == 7 {
        "7"
    } else if d == 8 {
        "8"
    } else {
        "9"
    };
    proof {
        assert(r@ =~= seq![digit_char(d as nat)]);
    }
    r
}

/// Renders `n` in decimal, as [`dec_digits`] describes.
pub fn u64_to_string(n: u64) -> (r: String)
    ensures
        r@ == dec_digits(n as nat),
    decreases n,
{
    if n < 10 {
        String::from_str(digit_str(n))
    } else {
        let mut prefix = u64_to_string(n / 10);
        prefix.append(digit_str(n % 10));
        proof {
            assert(prefix@ =~= dec_digits(n as nat));
        }
        prefix
    }
}

/// Whether two string slices hold the same characters.
pub fn str_eq(a: &str, b: &str) -> (r: bool)
    ensures
        r == (a@ == b@),
{
    let alen = a.unicode_len();
    let blen = b.unicode_len();
    if alen != blen {
        return false;
    }
    let mut i: usize = 0;
    while i < alen
        invariant
            alen == a@.len(),
            blen == b@.len(),
            alen == blen,
            i <= alen,
            forall|j: int| 0 <= j < i ==> a@[j] == b@[j],
        decreases alen - i,
    {
        let ca = a.get_char(i);
        let cb = b.get_char(i);
        if ca != cb {
            return false;
        }
        i = i + 1;
    }
    proof {
        assert(a@ =~= b@);
    }
    true
}

/// The index that ends the run of non-whitespace characters beginning at
/// `i`: the first index at or after `i` that is out of range or holds
/// whitespace.
pub open spec fn run_end(s: Seq<char>, i: int) -> int
    decreases s.len() - i when 0 <= i
{
    if i >= s.len() || is_ws(s[i]) {
        i
    } else {
        run_end(s, i + 1)
    }
}

/// What [`run_end`] returns: a position after `i`, within the string,
/// with no whitespace strictly before it and whitespace (or the end) at it.
pub proof fn lemma_run_end_bounds(s: Seq<char>, i: int)
    requires
        0 <= i <= s.len(),
    ensures
        i <= run_end(s, i) <= s.len(),
        i < s.len() && !is_ws(s[i]) ==> run_end(s, i) > i,
        forall|m: int| i <= m < run_end(s, i) ==> !is_ws(#[trigger] s[m]),
        run_end(s, i) < s.len() ==> is_ws(s[run_end(s, i)]),
    decreases s.len() - i,
{
    if i < s.len() && !is_ws(s[i]) {
        lemma_run_end_bounds(s, i + 1);
    }
}

/// [`run_end`] lands exactly on a given boundary `j` when everything
/// before `j` is non-whitespace and `j` is the end or whitespace.
pub proof fn lemma_run_end_exact(s: Seq<char>, i: int, j: int)
    requires
        0 <= i <= j <= s.len(),
        forall|m: int| i <= m < j ==> !is_ws(#[trigger] s[m]),
        j == s.len() || is_ws(s[j]),
    ensures
        run_end(s, i) == j,
    decreases j - i,
{
    if i < j {
        lemma_run_end_exact(s, i + 1, j);
    }
}

#[via_fn]
proof fn tokens_from_decreases(s: Seq<char>, i: int) {
    if 0 <= i < s.len() && !is_ws(s[i]) {
        lemma_run_end_bounds(s, i);
    }
}

/// The whitespace-separated tokens of `s` from position `i` on, in order.
pub open spec fn tokens_from(s: Seq<char>, i: int) -> Seq<Seq<char>>
    decreases s.len() - i when 0 <= i via tokens_from_decreases
{
    if i >= s.len() {
        Seq::empty()
    } else if is_ws(s[i]) {
        tokens_from(s, i + 1)
    } else {
        seq![s.subrange(i, run_end(s, i))] + tokens_from(s, run_end(s, i))
    }
}

/// The whitespace-separated tokens of `s`, in order: the maximal runs of
/// non-whitespace characters.
pub open spec fn tokens(s: Seq<char>) -> Seq<Seq<char>> {
    tokens_from(s, 0)
}

/// A string that is whitespace from position `i` on contributes no
/// further tokens.
pub proof fn lemma_tokens_of_ws(s: Seq<char>, i: int)
    requires
        0 <= i <= s.len(),
        forall|m: int| i <= m < s.len() ==> is_ws(#[trigger] s[m]),
    ensures
        tokens_from(s, i) == Seq::<Seq<char>>::empty(),
    decreases s.len() - i,
{
    if i < s.len() {
        lemma_tokens_of_ws(s, i + 1);
    }
}

/// Joining three nonempty whitespace-free words with single spaces gives
/// a string whose tokens are exactly those three words.
pub proof fn lemma_tokens_of_three(a: Seq<char>, b: Seq<char>, c: Seq<char>)
    requires
        a.len() > 0,
        b.len() > 0,
        c.len() > 0,
        forall|i: int| 0 <= i < a.len() ==> !is_ws(#[trigger] a[i]),
        forall|i: int| 0 <= i < b.len() ==> !is_ws(#[trigger] b[i]),
        forall|i: int| 0 <= i < c.len() ==> !is_ws(#[trigger] c[i]),
    ensures
        tokens(a + " "@ + b + " "@ + c) == seq![a, b, c],
{
    reveal_strlit(" ");
    let sp = " "@;
    assert(sp.len() == 1 && sp[0] == ' ');
    let s = a + sp + b + sp + c;
    let la = a.len() as int;
    let lb = b.len() as int;
    let lc = c.len() as int;
    assert(s.len() == la + lb + lc + 2);
    assert forall|m: int| 0 <= m < la implies !is_ws(s[m]) by {
        assert(s[m] == a[m]);
    }
    assert(s[la] == ' ');
    assert forall|m: int| la + 1 <= m < la + 1 + lb implies !is_ws(s[m]) by {
        assert(s[m] == b[m - la - 1]);
    }
    assert(s[la + 1 + lb] == ' ');
    assert forall|m: int| la + 2 + lb <= m < s.len() implies !is_ws(s[m]) by {
        assert(s[m] == c[m - la - 2 - lb]);
    }
    lemma_run_end_exact(s, 0, la);
    assert(!is_ws(s[0]));
    assert(tokens_from(s, 0) == seq![s.subrange(0, la)] + tokens_from(s, la));
    assert(s.subrange(0, la) =~= a);
    assert(is_ws(s[la]));
    assert(tokens_from(s, la) == tokens_from(s, la + 1));
    lemma_run_end_exact(s, la + 1, la + 1 + lb);
    assert(!is_ws(s[la + 1]));
    assert(tokens_from(s, la + 1) == seq![s.subrange(la + 1, la + 1 + lb)] + tokens_from(
        s,
        la + 1 + lb,
    ));
    assert(s.subrange(la + 1, la + 1 + lb) =~= b);
    assert(is_ws(s[la + 1 + lb]));
    assert(tokens_from(s, la + 1 + lb) == tokens_from(s, la + 2 + lb));
    lemma_run_end_exact(s, la + 2 + lb, s.len() as int);
    assert(!is_ws(s[la + 2 + lb]));
    assert(tokens_from(s, la + 2 + lb) == seq![s.subrange(la + 2 + lb, s.len() as int)]
        + tokens_from(s, s.len() as int));
    assert(s.subrange(la + 2 + lb, s.len() as int) =~= c);
    assert(tokens_from(s, s.len() as int) == Seq::<Seq<char>>::empty());
    assert(tokens(s) =~= seq![a, b, c]);
}

/// Splits `s` into its whitespace-separated tokens.
pub fn tokenize(s: &str) -> (toks: Vec<String>)
    ensures
        toks.deep_view() == tokens(s@),
{
    let n = s.unicode_len();
    let mut toks: Vec<String> = Vec::new();
    let mut i: usize = 0;
    while i < n
        invariant
            n == s@.len(),
            i <= n,
            tokens(s@) == toks.deep_view() + tokens_from(s@, i as int),
        decreases n - i,
    {
        let c = s.get_char(i);
        if is_ws_char(c) {
            i = i + 1;
        } else {
            let ghost prev = toks.deep_view();
            let start = i;
            let mut j = i;
            while j < n && !is_ws_char(s.get_char(j))
                invariant
                    n == s@.len(),
                    i <= j <= n,
                    forall|m: int| i <= m < j ==> !is_ws(#[trigger] s@[m]),
                decreases n - j,
            {
                j = j + 1;
            }
            proof {
                lemma_run_end_exact(s@, i as int, j as int);
            }
            let tok = s.substring_char(start, j);
            toks.push(tok.to_owned());
            proof {
                assert(toks.deep_view() =~= prev.push(tok@));
                assert(prev.push(tok@) + tokens_from(s@, j as int) =~= prev + tokens_from(
                    s@,
                    i as int,
                ));
            }
            i = j;
        }
    }
    proof {
        assert(toks.deep_view() + tokens_from(s@, n as int) =~= toks.deep_view());
    }
    toks
}

} // verus!
