//! Text helpers: characters, letter case, substrings and decimal numbers.
use vstd::prelude::*;

verus! {

/// The characters of `text`, in order.
pub(crate) fn chars_of(text: &str) -> (chars: Vec<char>)
    ensures
        chars@ == text@,
{
    let mut chars: Vec<char> = Vec::new();
    for c in it: text.chars()
        invariant
            it.seq() == text@,
            chars@ == text@.take(it.index()),
    {
        chars.push(c);
        assert(text@.take(it.index() + 1) == text@.take(it.index()).push(text@[it.index()]));
    }
    assert(text@.take(text@.len() as int) == text@);
    chars
}

/// Whether two texts are the same.
pub(crate) fn same(a: &str, b: &str) -> (equal: bool)
    ensures
        equal == (a@ == b@),
{
    a.to_owned() == b.to_owned()
}

/// `c` in lower case, if it is an ASCII letter in upper case; else `c` itself.
pub open spec fn ascii_lower(c: char) -> char {
    if 'A' <= c <= 'Z' {
        (c as u32 + 32) as char
    } else {
        c
    }
}

/// `text` with each ASCII letter in lower case.
pub open spec fn lowercase(text: Seq<char>) -> Seq<char> {
    text.map_values(|c: char| ascii_lower(c))
}

fn lower_char(c: char) -> (l: char)
    ensures
        l == ascii_lower(c),
{
    if 'A' <= c && c <= 'Z' {
        ((c as u8) + 32) as char
    } else {
        c
    }
}

/// Whether ASCII `text`, in lower case, reads `word`.
pub(crate) fn lowercase_is(text: &str, word: &str) -> (same: bool)
    requires
        text.is_ascii(),
    ensures
        same == (lowercase(text@) == word@),
{
    let a = chars_of(text);
    let b = chars_of(word);
    if a.len() != b.len() {
        assert(lowercase(text@).len() != word@.len());
        return false;
    }
    let mut i: usize = 0;
    while i < a.len()
        invariant
            a@ == text@,
            b@ == word@,
            a@.len() == b@.len(),
            i <= a@.len(),
            forall|k: int| 0 <= k < i ==> ascii_lower(#[trigger] a@[k]) == b@[k],
        decreases a@.len() - i,
    {
        if lower_char(a[i]) != b[i] {
            assert(lowercase(text@)[i as int] != word@[i as int]);
            return false;
        }
        i += 1;
    }
    assert(lowercase(text@) =~= word@);
    true
}

/// Whether `part` occurs in `text` at index `at`.
pub open spec fn occurs_at(text: Seq<char>, part: Seq<char>, at: int) -> bool {
    0 <= at <= text.len() - part.len() && text.subrange(at, at + part.len()) == part
}

/// Whether `part` occurs somewhere in `text`.
pub open spec fn occurs(text: Seq<char>, part: Seq<char>) -> bool {
    exists|at: int| occurs_at(text, part, at)
}

fn matches_at(text: &Vec<char>, part: &Vec<char>, at: usize) -> (found: bool)
    requires
        at + part@.len() <= text@.len(),
    ensures
        found == occurs_at(text@, part@, at as int),
{
    let len: usize = text.len();
    let mut i: usize = 0;
    while i < part.len()
        invariant
            at + part@.len() <= text@.len(),
            text@.len() == len,
            i <= part@.len(),
            forall|k: int| 0 <= k < i ==> text@[at + k] == #[trigger] part@[k],
        decreases part@.len() - i,
    {
        if text[at + i] != part[i] {
            assert(text@.subrange(at as int, at + part@.len())[i as int] != part@[i as int]);
            return false;
        }
        i += 1;
    }
    assert(text@.subrange(at as int, at + part@.len()) =~= part@);
    true
}

/// Whether `part` occurs in `text`.
pub(crate) fn contains(text: &str, part: &str) -> (found: bool)
    ensures
        found == occurs(text@, part@),
{
    let t = chars_of(text);
    let p = chars_of(part);
    if p.len() > t.len() {
        return false;
    }
    let last: usize = t.len() - p.len();
    let mut at: usize = 0;
    while at <= last
        invariant
            t@ == text@,
            p@ == part@,
            last + p@.len() == t@.len(),
            at <= last + 1,
            forall|k: int| 0 <= k < at ==> !occurs_at(text@, part@, k),
        decreases last + 1 - at,
    {
        if matches_at(&t, &p, at) {
            return true;
        }
        if at == last {
            return false;
        }
        at += 1;
    }
    false
}

/// The decimal digit of `d`.
pub open spec fn digit(d: nat) -> char {
    "0123456789"@[d as int]
}

/// `n` in decimal, without leading zeros.
pub open spec fn decimal(n: nat) -> Seq<char>
    decreases n,
{
    if n < 10 {
        seq![digit(n)]
    } else {
        decimal(n / 10).push(digit(n % 10))
    }
}

/// Appends `n` in decimal to `out`.
pub(crate) fn push_decimal(out: &mut String, n: u16)
    ensures
        final(out)@ == old(out)@ + decimal(n as nat),
    decreases n,
{
    if n >= 10 {
        push_decimal(out, n / 10);
    }
    let d: usize = (n % 10) as usize;
    let digits = "0123456789";
    proof {
        reveal_strlit("0123456789");
    }
    out.append(digits.substring_ascii(d, d + 1));
    assert(digits@.subrange(d as int, d + 1) =~= seq![digit(d as nat)]);
    assert(out@ =~= old(out)@ + decimal(n as nat));
}

/// A number in decimal is made of the digits `0` to `9`, has no needless zero in front, and
/// stands for the number again when it is read from left to right.
pub proof fn decimal_reads_as_the_number(n: nat)
    ensures
        decimal(n).len() > 0,
        forall|i: int| 0 <= i < decimal(n).len() ==> '0' <= #[trigger] decimal(n)[i] <= '9',
        decimal(n)[0] == '0' ==> decimal(n).len() == 1,
        decimal(n).fold_left(0int, |value: int, c: char| value * 10 + (c as int - '0' as int)) == n,
    decreases n,
{
    let step = |value: int, c: char| value * 10 + (c as int - '0' as int);
    let d = decimal(n);
    reveal_strlit("0123456789");
    assert(digit(n % 10) as int == '0' as int + n % 10);
    if n < 10 {
        assert(d.drop_last() =~= Seq::<char>::empty());
        reveal_with_fuel(Seq::fold_left, 2);
    } else {
        let front = decimal(n / 10);
        decimal_reads_as_the_number(n / 10);
        assert(d.drop_last() =~= front);
        assert(d.last() == digit(n % 10));
        assert(d[0] == front[0]);
        assert(d.fold_left(0int, step) == step(front.fold_left(0int, step), digit(n % 10)));
        if d[0] == '0' {
            assert(front =~= seq!['0']);
            assert(front.drop_last() =~= Seq::<char>::empty());
            reveal_with_fuel(Seq::fold_left, 2);
            assert(front.fold_left(0int, step) == 0);
        }
    }
}

/// Letters from `A` to `Z` are replaced by those from `a` to `z`, in order, and every other
/// character stays; so no capital is left, and lower case is lower case already.
pub proof fn lowercase_replaces_capitals_only(text: Seq<char>)
    ensures
        lowercase(text).len() == text.len(),
        forall|i: int|
            0 <= i < text.len() && 'A' <= #[trigger] text[i] <= 'Z' ==> lowercase(text)[i] as int - 'a' as int
                == text[i] as int - 'A' as int,
        forall|i: int|
            0 <= i < text.len() && !('A' <= #[trigger] text[i] <= 'Z') ==> lowercase(text)[i] == text[i],
        lowercase(lowercase(text)) == lowercase(text),
{
    assert(lowercase(lowercase(text)) =~= lowercase(text));
}

/// A part occurs in a text exactly if the text is something, then the part, then something.
pub proof fn a_part_stands_between_the_rest(text: Seq<char>, part: Seq<char>)
    ensures
        occurs(text, part) <==> exists|front: Seq<char>, back: Seq<char>| #[trigger] (front + part + back) == text,
{
    if occurs(text, part) {
        let at = choose|at: int| occurs_at(text, part, at);
        let front = text.subrange(0, at);
        let back = text.subrange(at + part.len(), text.len() as int);
        assert(front + part + back =~= text);
    }
    assert forall|front: Seq<char>, back: Seq<char>| #[trigger] (front + part + back) == text implies occurs(
        text,
        part,
    ) by {
        let at = front.len() as int;
        assert(text.subrange(at, at + part.len()) =~= part);
        assert(occurs_at(text, part, at));
    }
}

/// Every digit is told apart from the others and from the separators of an address.
proof fn digits_are_distinct(a: nat, b: nat)
    requires
        a < 10,
        b < 10,
        digit(a) == digit(b),
    ensures
        a == b,
        digit(a) != '.',
        digit(a) != ':',
{
    reveal_strlit("0123456789");
}

/// A decimal number holds digits only.
pub proof fn decimal_holds_digits(n: nat, i: int)
    requires
        0 <= i < decimal(n).len(),
    ensures
        decimal(n)[i] != '.',
        decimal(n)[i] != ':',
    decreases n,
{
    if n < 10 {
        digits_are_distinct(n, n);
    } else {
        digits_are_distinct(n % 10, n % 10);
        if i < decimal(n / 10).len() {
            decimal_holds_digits(n / 10, i);
        }
    }
}

/// Two numbers that read alike in decimal are the same number.
pub proof fn decimal_is_injective(a: nat, b: nat)
    requires
        decimal(a) == decimal(b),
    ensures
        a == b,
    decreases a,
{
    let da = decimal(a);
    let db = decimal(b);
    if a < 10 && b < 10 {
        assert(da[0] == digit(a) && db[0] == digit(b));
        digits_are_distinct(a, b);
    } else if a < 10 {
        decimal_is_not_empty(b / 10);
        assert(da.len() == 1 && db.len() > 1);
    } else if b < 10 {
        decimal_is_not_empty(a / 10);
        assert(db.len() == 1 && da.len() > 1);
    } else {
        assert(da.last() == digit(a % 10) && db.last() == digit(b % 10));
        digits_are_distinct(a % 10, b % 10);
        assert(da.drop_last() =~= decimal(a / 10));
        assert(db.drop_last() =~= decimal(b / 10));
        decimal_is_injective(a / 10, b / 10);
    }
}

/// A decimal number has at least one digit.
pub proof fn decimal_is_not_empty(n: nat)
    ensures
        decimal(n).len() >= 1,
{
}

} // verus!
