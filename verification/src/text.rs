//! Text: comparison, prefixes, suffixes, decimal numbers and the order of strings.

use vstd::prelude::*;
use vstd::string::*;

verus! {

/// The number of bytes that a text takes in UTF-8.
pub open spec fn byte_len(text: Seq<char>) -> usize {
    vstd::utf8::encode_utf8(text).len() as usize
}

/// The digit `d`, for `d` below ten.
pub open spec fn digit(d: nat) -> char {
    (48 + d) as char
}

/// A number in decimal digits, without leading zeros.
pub open spec fn decimal(n: nat) -> Seq<char>
    decreases n,
{
    if n < 10 {
        seq![digit(n)]
    } else {
        decimal(n / 10).push(digit(n % 10))
    }
}

/// The order of strings: by the first character in which they differ, a proper prefix before the
/// longer text. It is the order of the UTF-8 bytes too.
pub open spec fn text_less(a: Seq<char>, b: Seq<char>) -> bool
    decreases a.len(),
{
    if b.len() == 0 {
        false
    } else if a.len() == 0 {
        true
    } else if a[0] != b[0] {
        (a[0] as u32) < (b[0] as u32)
    } else {
        text_less(a.drop_first(), b.drop_first())
    }
}

/// Whether two texts are equal.
pub fn same_text(a: &str, b: &str) -> (same: bool)
    ensures
        same == (a@ == b@),
{
    a.to_owned() == b.to_owned()
}

/// Whether `text` begins with `prefix`.
pub fn has_prefix(text: &str, prefix: &str) -> (yes: bool)
    ensures
        yes == prefix@.is_prefix_of(text@),
{
    let long: usize = text.unicode_len();
    let short: usize = prefix.unicode_len();
    if short > long {
        return false;
    }
    same_text(text.substring_char(0, short), prefix)
}

/// Whether `text` ends with `suffix`.
pub fn has_suffix(text: &str, suffix: &str) -> (yes: bool)
    ensures
        yes == suffix@.is_suffix_of(text@),
{
    let long: usize = text.unicode_len();
    let short: usize = suffix.unicode_len();
    if short > long {
        return false;
    }
    same_text(text.substring_char(long - short, long), suffix)
}

/// `text` without its first `count` characters.
pub fn text_after(text: &str, count: usize) -> (rest: String)
    requires
        count <= text@.len(),
    ensures
        rest@ == text@.skip(count as int),
{
    let long: usize = text.unicode_len();
    text.substring_char(count, long).to_owned()
}

/// The characters of a text.
fn chars_of(text: &str) -> (chars: Vec<char>)
    ensures
        chars@ == text@,
{
    let mut chars: Vec<char> = Vec::new();
    for c in it: text.chars()
        invariant
            it.seq() == text@,
            chars@ == text@.take(it.index() as int),
    {
        chars.push(c);
    }
    chars
}

/// Where two texts agree in their first `i` characters, they compare as what follows does.
proof fn lemma_less_after_common_prefix(a: Seq<char>, b: Seq<char>, i: int)
    requires
        0 <= i <= a.len(),
        i <= b.len(),
        a.take(i) == b.take(i),
    ensures
        text_less(a, b) == text_less(a.skip(i), b.skip(i)),
    decreases i,
{
    if i == 0 {
        assert(a.skip(0) == a && b.skip(0) == b);
    } else {
        assert(a[0] == a.take(i)[0] && b[0] == b.take(i)[0]);
        let ta = a.drop_first();
        let tb = b.drop_first();
        assert(ta.take(i - 1) == a.take(i).drop_first());
        assert(tb.take(i - 1) == b.take(i).drop_first());
        lemma_less_after_common_prefix(ta, tb, i - 1);
        assert(ta.skip(i - 1) == a.skip(i));
        assert(tb.skip(i - 1) == b.skip(i));
    }
}

/// Whether `a` stands before `b` in the order of strings.
pub fn is_less(a: &str, b: &str) -> (less: bool)
    ensures
        less == text_less(a@, b@),
{
    let left: Vec<char> = chars_of(a);
    let right: Vec<char> = chars_of(b);
    let mut i: usize = 0;
    while i < left.len() && i < right.len()
        invariant
            left@ == a@,
            right@ == b@,
            i <= left@.len(),
            i <= right@.len(),
            a@.take(i as int) == b@.take(i as int),
        decreases left@.len() - i,
    {
        if left[i] != right[i] {
            proof {
                lemma_less_after_common_prefix(a@, b@, i as int);
            }
            return (left[i] as u32) < (right[i] as u32);
        }
        proof {
            assert(a@.take(i + 1) =~= a@.take(i as int).push(a@[i as int]));
            assert(b@.take(i + 1) =~= b@.take(i as int).push(b@[i as int]));
        }
        i = i + 1;
    }
    proof {
        lemma_less_after_common_prefix(a@, b@, i as int);
    }
    i < right.len()
}

/// A number in decimal digits.
pub fn decimal_text(n: u64) -> (text: String)
    ensures
        text@ == decimal(n as nat),
    decreases n,
{
    if n < 10 {
        let text: String = digit_text(n);
        text
    } else {
        let mut text: String = decimal_text(n / 10);
        let last: String = digit_text(n % 10);
        text.append(last.as_str());
        proof {
            assert(text@ =~= decimal((n / 10) as nat).push(digit((n % 10) as nat)));
        }
        text
    }
}

/// One decimal digit.
fn digit_text(d: u64) -> (text: String)
    requires
        d < 10,
    ensures
        text@ == seq![digit(d as nat)],
{
    let all: &str = "0123456789";
    proof {
        reveal_strlit("0123456789");
    }
    all.substring_char(d as usize, d as usize + 1).to_owned()
}

/// No text stands before itself.
pub proof fn lemma_less_irreflexive(a: Seq<char>)
    ensures
        !text_less(a, a),
    decreases a.len(),
{
    if a.len() > 0 {
        lemma_less_irreflexive(a.drop_first());
    }
}

/// The order of strings is transitive.
pub proof fn lemma_less_transitive(a: Seq<char>, b: Seq<char>, c: Seq<char>)
    requires
        text_less(a, b),
        text_less(b, c),
    ensures
        text_less(a, c),
    decreases a.len(),
{
    if a.len() > 0 && a[0] == b[0] && b[0] == c[0] {
        lemma_less_transitive(a.drop_first(), b.drop_first(), c.drop_first());
    }
}

/// Of two different texts one stands before the other.
pub proof fn lemma_less_total(a: Seq<char>, b: Seq<char>)
    ensures
        a == b || text_less(a, b) || text_less(b, a),
    decreases a.len(),
{
    if a.len() > 0 && b.len() > 0 && a[0] == b[0] {
        lemma_less_total(a.drop_first(), b.drop_first());
        if a.drop_first() == b.drop_first() {
            assert(a =~= seq![a[0]] + a.drop_first());
            assert(b =~= seq![b[0]] + b.drop_first());
        }
    } else if a.len() == 0 && b.len() == 0 {
        assert(a =~= b);
    } else if a.len() > 0 && b.len() > 0 {
        vstd::utf8::char_u32_cast(a[0], a[0] as u32);
        vstd::utf8::char_u32_cast(b[0], b[0] as u32);
    }
}

/// The number that decimal digits stand for.
pub open spec fn digits_value(digits: Seq<char>) -> int
    decreases digits.len(),
{
    if digits.len() == 0 {
        0
    } else {
        10 * digits_value(digits.drop_last()) + (digits.last() as u32 - 48)
    }
}

/// A number in decimal digits stands for that number, has digits only, and begins with a zero only
/// where it is zero.
pub proof fn law_decimal(n: nat)
    ensures
        digits_value(decimal(n)) == n,
        decimal(n).len() > 0,
        forall|i: int| 0 <= i < decimal(n).len() ==> '0' <= #[trigger] decimal(n)[i] <= '9',
        decimal(n)[0] == '0' <==> n == 0,
        n == 0 ==> decimal(n).len() == 1,
    decreases n,
{
    if n < 10 {
        assert(decimal(n).drop_last() =~= Seq::empty());
        reveal_with_fuel(digits_value, 2);
    } else {
        law_decimal(n / 10);
        assert(decimal(n).drop_last() =~= decimal(n / 10));
        assert(decimal(n)[0] == decimal(n / 10)[0]);
    }
}

/// Of two texts that agree up to some character, the one with the lesser character there stands
/// first, whatever follows; and a text stands before what continues it.
pub proof fn law_text_order(
    common: Seq<char>,
    x: char,
    y: char,
    after_x: Seq<char>,
    after_y: Seq<char>,
)
    ensures
        (x as u32) < (y as u32) ==> text_less(common.push(x) + after_x, common.push(y) + after_y)
            && !text_less(common.push(y) + after_y, common.push(x) + after_x),
        text_less(common, common.push(x) + after_x),
        !text_less(common.push(x) + after_x, common),
{
    let n = common.len() as int;
    let a = common.push(x) + after_x;
    let b = common.push(y) + after_y;
    assert(a.take(n) =~= common);
    assert(b.take(n) =~= common);
    assert(common.take(n) =~= common);
    assert(a.skip(n)[0] == x);
    assert(b.skip(n)[0] == y);
    lemma_less_after_common_prefix(a, b, n);
    lemma_less_after_common_prefix(b, a, n);
    lemma_less_after_common_prefix(common, a, n);
    lemma_less_after_common_prefix(a, common, n);
}

} // verus!
