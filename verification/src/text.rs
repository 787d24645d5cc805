//! Work on text: decimal numerals, the search for a key and its removal,
//! and the facts about them that the file layout relies on.

use vstd::prelude::*;
use vstd::string::*;

verus! {

/// The views of a list of strings.
pub open spec fn views(v: Seq<String>) -> Seq<Seq<char>> {
    Seq::new(v.len(), |i: int| v[i]@)
}

/// The view of a text that may be absent.
pub open spec fn text_view(text: Option<String>) -> Option<Seq<char>> {
    match text {
        Some(t) => Some(t@),
        None => None,
    }
}

/// A copy of a list of strings.
pub fn copy_strings(list: &Vec<String>) -> (copy: Vec<String>)
    ensures
        views(copy@) == views(list@),
{
    let mut copy: Vec<String> = Vec::new();
    let mut i: usize = 0;
    while i < list.len()
        invariant
            i <= list@.len(),
            copy@.len() == i,
            forall|k: int| 0 <= k < i ==> (#[trigger] copy@[k])@ == list@[k]@,
        decreases list@.len() - i,
    {
        copy.push(list[i].clone());
        i = i + 1;
    }
    assert(views(copy@) =~= views(list@));
    copy
}

/// The character that stands for the digit `d` (for `d < 10`).
pub open spec fn digit_char(d: nat) -> char {
    if d == 0 {
        '0'
    } else if d == 1 {
        '1'
    } else if d == 2 {
        '2'
    } else if d == 3 {
        '3'
    } else if d == 4 {
        '4'
    } else if d == 5 {
        '5'
    } else if d == 6 {
        '6'
    } else if d == 7 {
        '7'
    } else if d == 8 {
        '8'
    } else {
        '9'
    }
}

/// Whether `c` is one of the ten decimal digits.
pub open spec fn is_digit(c: char) -> bool {
    c == '0' || c == '1' || c == '2' || c == '3' || c == '4' || c == '5' || c == '6' || c == '7'
        || c == '8' || c == '9'
}

/// The decimal numeral of `n`: most significant digit first, no leading
/// zero, and `"0"` for zero.
pub open spec fn decimal(n: nat) -> Seq<char>
    decreases n,
{
    if n < 10 {
        seq![digit_char(n)]
    } else {
        decimal(n / 10).push(digit_char(n % 10))
    }
}

/// Every character of a decimal numeral is a digit, and the numeral is never empty.
pub proof fn lemma_decimal_digits(n: nat)
    ensures
        decimal(n).len() >= 1,
        forall|i: int| 0 <= i < decimal(n).len() ==> is_digit(#[trigger] decimal(n)[i]),
    decreases n,
{
    if n >= 10 {
        lemma_decimal_digits(n / 10);
    }
}

/// Different digits are written with different characters.
pub proof fn lemma_digit_char_injective(a: nat, b: nat)
    requires
        a < 10,
        b < 10,
        digit_char(a) == digit_char(b),
    ensures
        a == b,
{
}

/// Different numbers have different decimal numerals.
pub proof fn lemma_decimal_injective(a: nat, b: nat)
    requires
        decimal(a) == decimal(b),
    ensures
        a == b,
    decreases a,
{
    if a < 10 {
        if b >= 10 {
            lemma_decimal_digits(b / 10);
            assert(decimal(b).len() == decimal(b / 10).len() + 1);
        } else {
            assert(decimal(a)[0] == digit_char(a));
            assert(decimal(b)[0] == digit_char(b));
            lemma_digit_char_injective(a, b);
        }
    } else {
        if b < 10 {
            lemma_decimal_digits(a / 10);
            assert(decimal(a).len() == decimal(a / 10).len() + 1);
        } else {
            let da = decimal(a / 10);
            let db = decimal(b / 10);
            assert(decimal(a) == da.push(digit_char(a % 10)));
            assert(decimal(b) == db.push(digit_char(b % 10)));
            assert(da =~= decimal(a).drop_last());
            assert(db =~= decimal(b).drop_last());
            assert(decimal(a).last() == digit_char(a % 10));
            assert(decimal(b).last() == digit_char(b % 10));
            lemma_decimal_injective(a / 10, b / 10);
            lemma_digit_char_injective(a % 10, b % 10);
            assert(a == 10 * (a / 10) + a % 10);
            assert(b == 10 * (b / 10) + b % 10);
        }
    }
}

/// Whether `c` occurs nowhere in `s`.
pub open spec fn free_of(s: Seq<char>, c: char) -> bool {
    forall|i: int| 0 <= i < s.len() ==> s[i] != c
}

/// A decimal numeral holds no character that is not a digit.
pub proof fn lemma_decimal_free_of(n: nat, c: char)
    requires
        !is_digit(c),
    ensures
        free_of(decimal(n), c),
{
    lemma_decimal_digits(n);
}

/// A text is cut at the first occurrence of a separator in one way only.
pub proof fn lemma_split_at_first(
    sep: char,
    head1: Seq<char>,
    rest1: Seq<char>,
    head2: Seq<char>,
    rest2: Seq<char>,
)
    requires
        free_of(head1, sep),
        free_of(head2, sep),
        head1 + seq![sep] + rest1 == head2 + seq![sep] + rest2,
    ensures
        head1 == head2,
        rest1 == rest2,
{
    let t1 = head1 + seq![sep] + rest1;
    let t2 = head2 + seq![sep] + rest2;
    if head1.len() < head2.len() {
        assert(t1[head1.len() as int] == sep);
        assert(t2[head1.len() as int] == head2[head1.len() as int]);
        assert(false);
    }
    if head2.len() < head1.len() {
        assert(t2[head2.len() as int] == sep);
        assert(t1[head2.len() as int] == head1[head2.len() as int]);
        assert(false);
    }
    assert(t1.len() == t2.len());
    assert forall|i: int| 0 <= i < head1.len() implies head1[i] == head2[i] by {
        assert(t1[i] == head1[i]);
        assert(t2[i] == head2[i]);
    }
    assert(head1 =~= head2);
    assert forall|i: int| 0 <= i < rest1.len() implies rest1[i] == rest2[i] by {
        assert(t1[head1.len() + 1 + i] == rest1[i]);
        assert(t2[head2.len() + 1 + i] == rest2[i]);
    }
    assert(rest1 =~= rest2);
}

/// A text is cut at the last occurrence of a separator in one way only.
pub proof fn lemma_split_at_last(
    sep: char,
    head1: Seq<char>,
    tail1: Seq<char>,
    head2: Seq<char>,
    tail2: Seq<char>,
)
    requires
        free_of(tail1, sep),
        free_of(tail2, sep),
        head1 + seq![sep] + tail1 == head2 + seq![sep] + tail2,
    ensures
        head1 == head2,
        tail1 == tail2,
{
    let t1 = head1 + seq![sep] + tail1;
    let t2 = head2 + seq![sep] + tail2;
    assert(t1.len() == head1.len() + 1 + tail1.len());
    assert(t2.len() == head2.len() + 1 + tail2.len());
    if tail1.len() < tail2.len() {
        assert(t1[head1.len() as int] == sep);
        assert(t2[head1.len() as int] == tail2[head1.len() - head2.len() - 1]);
        assert(false);
    }
    if tail2.len() < tail1.len() {
        assert(t2[head2.len() as int] == sep);
        assert(t1[head2.len() as int] == tail1[head2.len() - head1.len() - 1]);
        assert(false);
    }
    assert forall|i: int| 0 <= i < head1.len() implies head1[i] == head2[i] by {
        assert(t1[i] == head1[i]);
        assert(t2[i] == head2[i]);
    }
    assert(head1 =~= head2);
    assert forall|i: int| 0 <= i < tail1.len() implies tail1[i] == tail2[i] by {
        assert(t1[head1.len() + 1 + i] == tail1[i]);
        assert(t2[head2.len() + 1 + i] == tail2[i]);
    }
    assert(tail1 =~= tail2);
}

/// Texts that are equal after the same text was put in front of them are equal.
pub proof fn lemma_cancel_prefix(prefix: Seq<char>, a: Seq<char>, b: Seq<char>)
    requires
        prefix + a == prefix + b,
    ensures
        a == b,
{
    assert((prefix + a).len() == prefix.len() + a.len());
    assert((prefix + b).len() == prefix.len() + b.len());
    assert forall|i: int| 0 <= i < a.len() implies a[i] == b[i] by {
        assert((prefix + a)[prefix.len() + i] == a[i]);
        assert((prefix + b)[prefix.len() + i] == b[i]);
    }
    assert(a =~= b);
}

/// Texts that are equal after the same text was put behind them are equal.
pub proof fn lemma_cancel_suffix(a: Seq<char>, b: Seq<char>, suffix: Seq<char>)
    requires
        a + suffix == b + suffix,
    ensures
        a == b,
{
    assert((a + suffix).len() == a.len() + suffix.len());
    assert((b + suffix).len() == b.len() + suffix.len());
    assert forall|i: int| 0 <= i < a.len() implies a[i] == b[i] by {
        assert((a + suffix)[i] == a[i]);
        assert((b + suffix)[i] == b[i]);
    }
    assert(a =~= b);
}

/// Whether `key` stands in `text` at position `at`.
pub open spec fn occurs_at(text: Seq<char>, at: int, key: Seq<char>) -> bool {
    0 <= at && at + key.len() <= text.len() && text.subrange(at, at + key.len()) == key
}

/// `text` with every occurrence of `key` taken out, read from the left;
/// occurrences do not overlap. An empty `key` takes nothing out.
pub open spec fn without(text: Seq<char>, key: Seq<char>) -> Seq<char>
    decreases text.len(),
{
    if key.len() == 0 || text.len() < key.len() {
        text
    } else if occurs_at(text, 0, key) {
        without(text.subrange(key.len() as int, text.len() as int), key)
    } else {
        seq![text[0]] + without(text.subrange(1, text.len() as int), key)
    }
}

/// Whether `key` stands in `text` at position `at`.
pub fn has_at(text: &str, at: usize, key: &str) -> (found: bool)
    ensures
        found == occurs_at(text@, at as int, key@),
{
    let n: usize = text.unicode_len();
    let k: usize = key.unicode_len();
    if at > n || k > n - at {
        return false;
    }
    let mut j: usize = 0;
    while j < k
        invariant
            n == text@.len(),
            k == key@.len(),
            at + k <= n,
            j <= k,
            forall|m: int| 0 <= m < j ==> text@[at + m] == key@[m],
        decreases k - j,
    {
        if text.get_char(at + j) != key.get_char(j) {
            assert(text@.subrange(at as int, at + k)[j as int] == text@[at + j]);
            return false;
        }
        j = j + 1;
    }
    assert(text@.subrange(at as int, at + k) =~= key@);
    true
}

/// Whether `key` stands somewhere in `text`. The empty text stands everywhere.
pub open spec fn occurs_in(text: Seq<char>, key: Seq<char>) -> bool {
    exists|at: int| occurs_at(text, at, key)
}

/// Whether `key` stands somewhere in `text`.
pub fn contains_text(text: &str, key: &str) -> (found: bool)
    ensures
        found == occurs_in(text@, key@),
{
    let n: usize = text.unicode_len();
    let mut at: usize = 0;
    while at <= n
        invariant
            n == text@.len(),
            at <= n + 1,
            forall|i: int| 0 <= i < at ==> !occurs_at(text@, i, key@),
        decreases n + 1 - at,
    {
        if has_at(text, at, key) {
            return true;
        }
        if at == n {
            assert forall|i: int| !occurs_at(text@, i, key@) by {
                if 0 <= i <= n {
                    assert(i < at || i == at);
                }
            }
            return false;
        }
        at = at + 1;
    }
    assert forall|i: int| !occurs_at(text@, i, key@) by {}
    false
}

/// Takes every occurrence of `key` out of `text`.
pub fn remove_all(text: &str, key: &str) -> (out: String)
    ensures
        out@ == without(text@, key@),
{
    let n: usize = text.unicode_len();
    let k: usize = key.unicode_len();
    let mut out = String::new();
    if k == 0 {
        out.append(text);
        assert(Seq::<char>::empty() + text@ =~= text@);
        return out;
    }
    let mut i: usize = 0;
    assert(text@.subrange(0, n as int) =~= text@);
    assert(Seq::<char>::empty() + without(text@, key@) =~= without(text@, key@));
    while i < n
        invariant
            n == text@.len(),
            k == key@.len(),
            k > 0,
            i <= n,
            out@ + without(text@.subrange(i as int, n as int), key@) == without(text@, key@),
        decreases n - i,
    {
        let ghost rest = text@.subrange(i as int, n as int);
        if has_at(text, i, key) {
            proof {
                assert(rest.subrange(0, k as int) =~= text@.subrange(i as int, i + k));
                assert(rest.subrange(k as int, rest.len() as int) =~= text@.subrange(
                    i + k,
                    n as int,
                ));
            }
            i = i + k;
        } else {
            let piece = text.substring_char(i, i + 1);
            proof {
                assert(piece@ =~= seq![rest[0]]);
                assert(rest.subrange(1, rest.len() as int) =~= text@.subrange(i + 1, n as int));
                if rest.len() >= k {
                    assert(rest.subrange(0, k as int) =~= text@.subrange(i as int, i + k));
                    assert(!occurs_at(rest, 0, key@));
                    assert(without(rest, key@) == seq![rest[0]] + without(
                        rest.subrange(1, rest.len() as int),
                        key@,
                    ));
                } else {
                    lemma_without_short(rest, key@);
                }
                assert(out@ + piece@ + without(text@.subrange(i + 1, n as int), key@) =~= out@
                    + (piece@ + without(text@.subrange(i + 1, n as int), key@)));
            }
            out.append(piece);
            i = i + 1;
        }
    }
    assert(text@.subrange(n as int, n as int) =~= Seq::<char>::empty());
    assert(out@ + Seq::<char>::empty() =~= out@);
    out
}

/// A text shorter than the key is left as it is, and so is what follows
/// its first character.
pub proof fn lemma_without_short(text: Seq<char>, key: Seq<char>)
    requires
        text.len() < key.len(),
        text.len() > 0,
    ensures
        without(text, key) == seq![text[0]] + without(text.subrange(1, text.len() as int), key),
{
    assert(seq![text[0]] + text.subrange(1, text.len() as int) =~= text);
}

/// The one-character string of a digit.
fn digit_str(d: usize) -> (s: &'static str)
    requires
        d < 10,
    ensures
        s@ == seq![digit_char(d as nat)],
{
    proof {
        reveal_strlit("0");
        reveal_strlit("1");
        reveal_strlit("2");
        reveal_strlit("3");
        reveal_strlit("4");
        reveal_strlit("5");
        reveal_strlit("6");
        reveal_strlit("7");
        reveal_strlit("8");
        reveal_strlit("9");
    }
    let s: &'static str = if d == 0 {
        "0"
    } else if d == 1 {
        "1"
    } else if d == 2 {
        "2"
    } else if d == 3 {
        "3"
    } else if d == 4 {
        "4"
    } else if d == 5 {
        "5"
    } else if d == 6 {
        "6"
    } else if d == 7 {
        "7"
    } else if d == 8 {
        "8"
    } else {
        "9"
    };
    assert(s@ =~= seq![digit_char(d as nat)]);
    s
}

/// Appends the decimal numeral of `n` to `out`.
pub fn push_decimal(out: &mut String, n: usize)
    ensures
        final(out)@ == old(out)@ + decimal(n as nat),
    decreases n,
{
    if n >= 10 {
        push_decimal(out, n / 10);
    }
    out.append(digit_str(n % 10));
    proof {
        if n >= 10 {
            assert(old(out)@ + decimal((n / 10) as nat) + seq![digit_char((n % 10) as nat)]
                =~= old(out)@ + decimal(n as nat));
        }
    }
}

/// The decimal numeral of `n` as a string.
pub fn decimal_string(n: usize) -> (s: String)
    ensures
        s@ == decimal(n as nat),
{
    let mut s = String::new();
    push_decimal(&mut s, n);
    assert(Seq::<char>::empty() + decimal(n as nat) =~= decimal(n as nat));
    s
}

} // verus!
