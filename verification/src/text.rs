//! Texts: their characters, decimal numerals for line numbers and counts in
//! messages, and the order of texts.

use vstd::prelude::*;
use vstd::string::*;

verus! {

/// Appends a character to a text.
///
/// Calls `String::push`, of which the standard library says that it appends
/// the given character to the end of the string.
#[verifier::external_body]
fn push_char(text: &mut String, c: char)
    ensures
        final(text)@ == old(text)@.push(c),
{
    text.push(c);
}

/// The characters of a text.
pub fn characters(text: &str) -> (r: Vec<char>)
    ensures
        r@ == text@,
{
    broadcast use vstd::string::group_string_axioms;

    let mut found: Vec<char> = Vec::new();
    for c in rest: text.chars()
        invariant
            rest.seq() == text@,
            found@ == text@.take(rest.index() as int),
    {
        assert(text@.take(rest.index() + 1) =~= text@.take(rest.index() as int).push(c));
        found.push(c);
    }
    assert(text@.take(text@.len() as int) =~= text@);
    found
}

/// The text that the characters from `from` to `to` spell.
pub fn text_of(characters: &Vec<char>, from: usize, to: usize) -> (r: String)
    requires
        from <= to <= characters.len(),
    ensures
        r@ == characters@.subrange(from as int, to as int),
{
    let mut text = String::new();
    let mut at = from;
    assert(text@ =~= characters@.subrange(from as int, at as int));
    while at < to
        invariant
            from <= at <= to <= characters.len(),
            text@ == characters@.subrange(from as int, at as int),
        decreases to - at,
    {
        push_char(&mut text, characters[at]);
        at += 1;
        assert(text@ =~= characters@.subrange(from as int, at as int));
    }
    text
}

/// The views of a sequence of texts.
pub open spec fn text_views(texts: Seq<String>) -> Seq<Seq<char>> {
    texts.map_values(|text: String| text@)
}

/// The character of a decimal digit.
pub open spec fn digit_char(digit: nat) -> char
    recommends
        digit < 10,
{
    if digit == 0 {
        '0'
    } else if digit == 1 {
        '1'
    } else if digit == 2 {
        '2'
    } else if digit == 3 {
        '3'
    } else if digit == 4 {
        '4'
    } else if digit == 5 {
        '5'
    } else if digit == 6 {
        '6'
    } else if digit == 7 {
        '7'
    } else if digit == 8 {
        '8'
    } else {
        '9'
    }
}

/// The decimal numeral of a number, without leading zeros.
pub open spec fn decimal_text(n: nat) -> Seq<char>
    decreases n,
{
    if n < 10 {
        seq![digit_char(n)]
    } else {
        decimal_text(n / 10).push(digit_char(n % 10))
    }
}

fn digit_text(digit: usize) -> (r: &'static str)
    requires
        digit < 10,
    ensures
        r@ == seq![digit_char(digit as nat)],
{
    proof {
        reveal_strlit("0");
        reveal_strlit("1");
        reveal_strlit("2");
        reveal_strlit("3");
        reveal_strlit("4");
        reveal_strlit("5");
        reveal_strlit("6");
        reveal_strlit("7");
        reveal_strlit("8");
        reveal_strlit("9");
    }
    let r = match digit {
        0 => "0",
        1 => "1",
        2 => "2",
        3 => "3",
        4 => "4",
        5 => "5",
        6 => "6",
        7 => "7",
        8 => "8",
        _ => "9",
    };
    assert(r@ =~= seq![digit_char(digit as nat)]);
    r
}

/// The decimal numeral of a number.
pub fn decimal(n: usize) -> (r: String)
    ensures
        r@ == decimal_text(n as nat),
{
    let mut digits = String::from_str(digit_text(n % 10));
    let mut rest = n / 10;
    assert(n >= 10 ==> decimal_text(n as nat) =~= decimal_text(rest as nat) + digits@);
    while rest > 0
        invariant
            rest > 0 ==> decimal_text(n as nat) == decimal_text(rest as nat) + digits@,
            rest == 0 ==> decimal_text(n as nat) == digits@,
        decreases rest,
    {
        let ghost before = digits@;
        digits = String::from_str(digit_text(rest % 10)).concat(digits.as_str());
        assert(rest >= 10 ==> decimal_text(rest as nat) + before =~= decimal_text(
            (rest / 10) as nat,
        ) + digits@);
        assert(rest < 10 ==> decimal_text(rest as nat) + before =~= digits@);
        rest = rest / 10;
    }
    digits
}

/// Which of two texts comes first: -1 if the first does, 1 if the second
/// does, 0 if they are the same. The first characters in which the texts
/// differ decide; where one text starts the other, the shorter comes first.
pub open spec fn text_rank(a: Seq<char>, b: Seq<char>) -> int
    decreases a.len(),
{
    if a.len() == 0 {
        if b.len() == 0 {
            0
        } else {
            -1
        }
    } else if b.len() == 0 {
        1
    } else if a[0] < b[0] {
        -1
    } else if a[0] > b[0] {
        1
    } else {
        text_rank(a.drop_first(), b.drop_first())
    }
}

/// Compares two texts character by character.
pub fn rank_texts(a: &Vec<char>, b: &Vec<char>) -> (r: i8)
    ensures
        r == text_rank(a@, b@),
{
    let mut i: usize = 0;
    assert(a@.skip(0) =~= a@);
    assert(b@.skip(0) =~= b@);
    loop
        invariant
            i <= a.len(),
            i <= b.len(),
            text_rank(a@.skip(i as int), b@.skip(i as int)) == text_rank(a@, b@),
        decreases a.len() - i,
    {
        let ghost rest_a = a@.skip(i as int);
        let ghost rest_b = b@.skip(i as int);
        if i == a.len() {
            if i == b.len() {
                return 0;
            }
            return -1;
        }
        if i == b.len() {
            return 1;
        }
        assert(rest_a[0] == a@[i as int]);
        assert(rest_b[0] == b@[i as int]);
        if a[i] < b[i] {
            return -1;
        }
        if a[i] > b[i] {
            return 1;
        }
        assert(rest_a.drop_first() =~= a@.skip(i + 1));
        assert(rest_b.drop_first() =~= b@.skip(i + 1));
        i += 1;
    }
}

/// Two texts are of the same rank exactly when they are the same.
pub proof fn lemma_same_rank(a: Seq<char>, b: Seq<char>)
    ensures
        text_rank(a, b) == 0 <==> a == b,
        -1 <= text_rank(a, b) <= 1,
    decreases a.len(),
{
    if a.len() > 0 && b.len() > 0 && a[0] == b[0] {
        lemma_same_rank(a.drop_first(), b.drop_first());
        if a.drop_first() == b.drop_first() {
            assert(a =~= seq![a[0]] + a.drop_first());
            assert(b =~= seq![b[0]] + b.drop_first());
        }
    } else if a.len() == 0 && b.len() == 0 {
        assert(a =~= b);
    }
}

} // verus!
