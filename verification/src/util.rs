use crate::text::{char_is_whitespace, chars_of, text_of, whitespace};
use vstd::prelude::*;

verus! {

/// A decimal digit.
pub open spec fn is_digit(c: char) -> bool {
    '0' <= c && c <= '9'
}

/// The number that the digit `c` stands for.
pub open spec fn digit_value(c: char) -> nat {
    (c as int - '0' as int) as nat
}

/// The digit that stands for `d`, which is below ten.
pub open spec fn digit_char(d: nat) -> char {
    ('0' as int + d) as char
}

pub open spec fn all_digits(s: Seq<char>) -> bool {
    forall|i: int| 0 <= i < s.len() ==> is_digit(#[trigger] s[i])
}

/// The number that a string of digits denotes. Leading zeros count for nothing.
pub open spec fn decimal_value(digits: Seq<char>) -> nat
    decreases digits.len(),
{
    if digits.len() == 0 {
        0
    } else {
        decimal_value(digits.drop_last()) * 10 + digit_value(digits.last())
    }
}

/// The shortest string of digits that denotes `n`.
pub open spec fn decimal_text(n: nat) -> Seq<char>
    decreases n,
{
    if n < 10 {
        seq![digit_char(n)]
    } else {
        decimal_text(n / 10).push(digit_char(n % 10))
    }
}

/// Where the last component of a dotted number begins: behind its last dot, or at 0.
pub open spec fn last_component_start(number: Seq<char>) -> int
    decreases number.len(),
{
    if number.len() == 0 {
        0
    } else if number.last() == '.' {
        number.len() as int
    } else {
        last_component_start(number.drop_last())
    }
}

/// The components before the last one, with the dot that ends them.
pub open spec fn leading_components(number: Seq<char>) -> Seq<char> {
    number.take(last_component_start(number))
}

pub open spec fn last_component(number: Seq<char>) -> Seq<char> {
    number.skip(last_component_start(number))
}

/// A number that can be counted up: its last component is a string of digits.
pub open spec fn is_counter(number: Seq<char>) -> bool {
    last_component(number).len() > 0 && all_digits(last_component(number))
}

/// Digits separated by single dots, such as `1`, `1.2` or `1.2.3`.
pub open spec fn is_dotted_number(number: Seq<char>) -> bool {
    &&& number.len() > 0
    &&& number[0] != '.'
    &&& number.last() != '.'
    &&& forall|i: int| 0 <= i < number.len() ==> is_digit(#[trigger] number[i]) || number[i] == '.'
    &&& forall|i: int| 0 < i < number.len() ==> !(number[i - 1] == '.' && #[trigger] number[i] == '.')
}

/// The number that follows `number` among its siblings: the last component is counted up by
/// one and written without leading zeros, the components before it stay.
pub open spec fn next_number(number: Seq<char>) -> Seq<char> {
    leading_components(number) + decimal_text(decimal_value(last_component(number)) + 1)
}

/// `number` after `steps` steps of [`next_number`].
pub open spec fn nth_number(number: Seq<char>, steps: nat) -> Seq<char>
    decreases steps,
{
    if steps == 0 {
        number
    } else {
        next_number(nth_number(number, (steps - 1) as nat))
    }
}

/// The digits of `digits` counted up by one, with as many leading zeros as before.
pub open spec fn successor(digits: Seq<char>) -> Seq<char>
    decreases digits.len(),
{
    if digits.len() == 0 {
        seq!['1']
    } else if digits.last() == '9' {
        successor(digits.drop_last()).push('0')
    } else {
        digits.drop_last().push(digit_char(digit_value(digits.last()) + 1))
    }
}

/// How many zeros `digits` begins with.
pub open spec fn leading_zeros(digits: Seq<char>) -> nat
    decreases digits.len(),
{
    if digits.len() > 0 && digits[0] == '0' {
        1 + leading_zeros(digits.skip(1))
    } else {
        0
    }
}

pub proof fn lemma_last_component_bounds(number: Seq<char>)
    ensures
        0 <= last_component_start(number) <= number.len(),
        last_component_start(number) > 0 ==> number[last_component_start(number) - 1] == '.',
        forall|i: int| last_component_start(number) <= i < number.len() ==> number[i] != '.',
    decreases number.len(),
{
    if number.len() > 0 && number.last() != '.' {
        let front = number.drop_last();
        lemma_last_component_bounds(front);
        assert forall|i: int| last_component_start(number) <= i < number.len() implies number[i]
            != '.' by {
            if i < front.len() {
                assert(number[i] == front[i]);
            }
        }
    }
}

/// A string that ends in a component without dots has its last component there.
pub proof fn lemma_last_component_of_concat(head: Seq<char>, tail: Seq<char>)
    requires
        head.len() == 0 || head.last() == '.',
        forall|i: int| 0 <= i < tail.len() ==> tail[i] != '.',
    ensures
        last_component_start(head + tail) == head.len(),
    decreases tail.len(),
{
    let whole = head + tail;
    if tail.len() == 0 {
        assert(whole == head);
    } else {
        assert(whole.last() == tail.last());
        assert(whole.drop_last() == head + tail.drop_last());
        lemma_last_component_of_concat(head, tail.drop_last());
    }
}

pub proof fn lemma_decimal_text_digits(n: nat)
    ensures
        decimal_text(n).len() > 0,
        all_digits(decimal_text(n)),
        n > 0 ==> decimal_text(n)[0] != '0',
        decimal_value(decimal_text(n)) == n,
    decreases n,
{
    if n < 10 {
        let text = decimal_text(n);
        assert(text.drop_last() == Seq::<char>::empty());
        assert(decimal_value(text.drop_last()) == 0);
    } else {
        lemma_decimal_text_digits(n / 10);
        let text = decimal_text(n);
        assert(text.drop_last() == decimal_text(n / 10));
        assert(text[0] == decimal_text(n / 10)[0]);
    }
}

/// Digits that do not begin with a zero are the shortest way to write their number.
pub proof fn lemma_decimal_text_of_value(digits: Seq<char>)
    requires
        digits.len() > 0,
        all_digits(digits),
        digits[0] != '0',
    ensures
        decimal_text(decimal_value(digits)) == digits,
        decimal_value(digits) > 0,
    decreases digits.len(),
{
    let front = digits.drop_last();
    let d = digit_value(digits.last());
    if front.len() == 0 {
        assert(decimal_value(front) == 0);
        assert(digits.last() == digits[0]);
        assert(decimal_text(d) == seq![digit_char(d)]);
        assert(seq![digit_char(d)] == digits);
    } else {
        assert(front[0] == digits[0]);
        lemma_decimal_text_of_value(front);
        let n = decimal_value(digits);
        assert(n == decimal_value(front) * 10 + d);
        assert(n / 10 == decimal_value(front));
        assert(n % 10 == d);
        assert(decimal_text(n) == decimal_text(n / 10).push(digit_char(n % 10)));
        assert(front.push(digits.last()) == digits);
    }
}

pub proof fn lemma_successor(digits: Seq<char>)
    requires
        all_digits(digits),
    ensures
        all_digits(successor(digits)),
        successor(digits).len() >= digits.len(),
        successor(digits).len() > 0,
        decimal_value(successor(digits)) == decimal_value(digits) + 1,
    decreases digits.len(),
{
    if digits.len() == 0 {
        let one = seq!['1'];
        assert(one.drop_last() == Seq::<char>::empty());
        assert(decimal_value(one.drop_last()) == 0);
    } else if digits.last() == '9' {
        let front = digits.drop_last();
        lemma_successor(front);
        let next = successor(front).push('0');
        assert(next.drop_last() == successor(front));
    } else {
        let front = digits.drop_last();
        let next = front.push(digit_char(digit_value(digits.last()) + 1));
        assert(is_digit(digits.last()));
        assert(next.drop_last() == front);
    }
}

pub proof fn lemma_leading_zeros(digits: Seq<char>)
    requires
        all_digits(digits),
    ensures
        leading_zeros(digits) <= digits.len(),
        forall|i: int| 0 <= i < leading_zeros(digits) ==> digits[i] == '0',
        leading_zeros(digits) < digits.len() ==> digits[leading_zeros(digits) as int] != '0',
        decimal_value(digits.skip(leading_zeros(digits) as int)) == decimal_value(digits),
    decreases digits.len(),
{
    if digits.len() > 0 && digits[0] == '0' {
        let rest = digits.skip(1);
        lemma_leading_zeros(rest);
        let k = leading_zeros(rest);
        assert(digits.skip(k as int + 1) == rest.skip(k as int));
        lemma_value_without_zero(digits);
        assert forall|i: int| 0 <= i < leading_zeros(digits) implies digits[i] == '0' by {
            if i > 0 {
                assert(digits[i] == rest[i - 1]);
            }
        }
        if leading_zeros(digits) < digits.len() {
            assert(digits[leading_zeros(digits) as int] == rest[k as int]);
        }
    } else {
        assert(digits.skip(0) == digits);
    }
}

/// A zero in front does not change what digits denote.
pub proof fn lemma_value_without_zero(digits: Seq<char>)
    requires
        digits.len() > 0,
        digits[0] == '0',
    ensures
        decimal_value(digits.skip(1)) == decimal_value(digits),
    decreases digits.len(),
{
    let rest = digits.skip(1);
    if rest.len() == 0 {
        assert(digits.drop_last() == Seq::<char>::empty());
        assert(decimal_value(digits.drop_last()) == 0);
        assert(digits.last() == '0');
    } else {
        let front = digits.drop_last();
        assert(front[0] == '0');
        lemma_value_without_zero(front);
        assert(front.skip(1) == rest.drop_last());
        assert(rest.last() == digits.last());
    }
}

/// What [`next_number`] does to a number with a counting last component, in one statement
/// for the implementation: count the digits up, then drop the zeros in front.
pub proof fn lemma_next_digits(digits: Seq<char>)
    requires
        all_digits(digits),
    ensures
        decimal_text(decimal_value(digits) + 1) == successor(digits).skip(
            leading_zeros(successor(digits)) as int,
        ),
{
    let next = successor(digits);
    lemma_successor(digits);
    lemma_leading_zeros(next);
    let k = leading_zeros(next) as int;
    let short = next.skip(k);
    if k == next.len() {
        assert(short == Seq::<char>::empty());
        assert(decimal_value(short) == 0);
    } else {
        assert(short[0] == next[k]);
        assert(all_digits(short)) by {
            assert forall|i: int| 0 <= i < short.len() implies is_digit(#[trigger] short[i]) by {
                assert(short[i] == next[k + i]);
            }
        }
        lemma_decimal_text_of_value(short);
    }
}

/// `n` in decimal digits.
pub fn decimal(n: usize) -> (text: Vec<char>)
    ensures
        text@ == decimal_text(n as nat),
    decreases n,
{
    if n < 10 {
        let mut text: Vec<char> = Vec::new();
        text.push(digit(n as u8));
        text
    } else {
        let mut text = decimal(n / 10);
        text.push(digit((n % 10) as u8));
        text
    }
}

/// The digit for a number below ten.
fn digit(d: u8) -> (c: char)
    requires
        d < 10,
    ensures
        c == digit_char(d as nat),
{
    (d + 48) as char
}

/// `text` without its white space.
pub open spec fn without_whitespace(text: Seq<char>) -> Seq<char> {
    text.filter(|c: char| !char_is_whitespace(c))
}

/// Removes every character that is white space, and keeps the others in their order.
pub fn remove_whitespace(s: &str) -> (rest: String)
    ensures
        rest@ == without_whitespace(s@),
{
    let chars = chars_of(s);
    let mut rest: Vec<char> = Vec::new();
    let mut i: usize = 0;
    let ghost kept = |c: char| !char_is_whitespace(c);
    proof {
        reveal(Seq::filter);
    }
    while i < chars.len()
        invariant
            i <= chars.len(),
            kept == |c: char| !char_is_whitespace(c),
            rest@ == chars@.take(i as int).filter(kept),
        decreases chars.len() - i,
    {
        proof {
            reveal(Seq::filter);
            assert(chars@.take(i + 1).drop_last() == chars@.take(i as int));
        }
        if !whitespace(chars[i]) {
            rest.push(chars[i]);
        }
        i += 1;
    }
    assert(chars@.take(chars.len() as int) == chars@);
    text_of(&rest)
}

/// Takes a chapter number and counts its last component up by one.
///
/// `3` gives `4`, and `1.2.3` gives `1.2.4`. The last component is read as a decimal number
/// of any length and written back without leading zeros.
pub fn next_chapter_number(number: &str) -> (next: String)
    requires
        is_counter(number@),
    ensures
        next@ == next_number(number@),
{
    let chars = chars_of(number);
    let next = next_counter(&chars);
    text_of(&next)
}

/// [`next_chapter_number`] on characters.
pub fn next_counter(number: &Vec<char>) -> (next: Vec<char>)
    requires
        is_counter(number@),
    ensures
        next@ == next_number(number@),
        is_counter(next@),
{
    let start = component_start(number);
    let mut digits: Vec<char> = Vec::new();
    let mut i: usize = start;
    while i < number.len()
        invariant
            start <= i <= number.len(),
            digits@ == number@.subrange(start as int, i as int),
        decreases number.len() - i,
    {
        digits.push(number[i]);
        i += 1;
    }
    let counted = count_up(&digits);
    let mut next: Vec<char> = Vec::new();
    let mut j: usize = 0;
    while j < start
        invariant
            j <= start <= number.len(),
            next@ == number@.take(j as int),
        decreases start - j,
    {
        next.push(number[j]);
        j += 1;
    }
    let mut k: usize = 0;
    while k < counted.len()
        invariant
            k <= counted.len(),
            next@ == number@.take(start as int) + counted@.take(k as int),
        decreases counted.len() - k,
    {
        next.push(counted[k]);
        k += 1;
    }
    proof {
        assert(counted@.take(counted.len() as int) == counted@);
        lemma_next_is_counter(number@);
    }
    next
}

/// A counted-up number can be counted up again, and keeps its leading components.
pub proof fn lemma_next_is_counter(number: Seq<char>)
    requires
        is_counter(number),
    ensures
        is_counter(next_number(number)),
        last_component_start(next_number(number)) == last_component_start(number),
        leading_components(next_number(number)) == leading_components(number),
        last_component(next_number(number)) == decimal_text(
            decimal_value(last_component(number)) + 1,
        ),
{
    let head = leading_components(number);
    let tail = decimal_text(decimal_value(last_component(number)) + 1);
    lemma_last_component_bounds(number);
    lemma_decimal_text_digits(decimal_value(last_component(number)) + 1);
    assert forall|i: int| 0 <= i < tail.len() implies tail[i] != '.' by {
        assert(is_digit(tail[i]));
    }
    lemma_last_component_of_concat(head, tail);
    assert((head + tail).take(head.len() as int) == head);
    assert((head + tail).skip(head.len() as int) == tail);
}

/// A dotted number can be counted up: behind its last dot stand digits, and at least one.
pub proof fn lemma_dotted_number_is_counter(number: Seq<char>)
    requires
        is_dotted_number(number),
    ensures
        is_counter(number),
{
    lemma_last_component_bounds(number);
    let start = last_component_start(number);
    let last = last_component(number);
    assert(start < number.len());
    assert forall|i: int| 0 <= i < last.len() implies is_digit(#[trigger] last[i]) by {
        assert(last[i] == number[start + i]);
    }
}

/// Counting a dotted number up gives a dotted number.
pub proof fn lemma_next_is_dotted_number(number: Seq<char>)
    requires
        is_dotted_number(number),
    ensures
        is_dotted_number(next_number(number)),
{
    lemma_dotted_number_is_counter(number);
    lemma_last_component_bounds(number);
    let head = leading_components(number);
    let tail = decimal_text(decimal_value(last_component(number)) + 1);
    lemma_decimal_text_digits(decimal_value(last_component(number)) + 1);
    let next = head + tail;
    assert forall|i: int| 0 <= i < next.len() implies is_digit(#[trigger] next[i]) || next[i]
        == '.' by {
        if i < head.len() {
            assert(next[i] == number[i]);
        } else {
            assert(next[i] == tail[i - head.len()]);
        }
    }
    assert forall|i: int| 0 < i < next.len() implies !(next[i - 1] == '.' && #[trigger] next[i]
        == '.') by {
        if i < head.len() {
            assert(next[i] == number[i]);
            assert(next[i - 1] == number[i - 1]);
        } else {
            assert(next[i] == tail[i - head.len()]);
            assert(is_digit(tail[i - head.len()]));
        }
    }
    assert(next.last() == tail.last());
    assert(is_digit(tail.last()));
    if head.len() > 0 {
        assert(next[0] == number[0]);
    } else {
        assert(next[0] == tail[0]);
        assert(is_digit(tail[0]));
    }
}

/// Counting a dotted number up twice raises its last component by exactly two and leaves
/// every component before it as it was.
pub proof fn lemma_next_twice(number: Seq<char>)
    requires
        is_dotted_number(number),
    ensures
        next_number(next_number(number)) == leading_components(number) + decimal_text(
            decimal_value(last_component(number)) + 2,
        ),
        leading_components(next_number(next_number(number))) == leading_components(number),
        decimal_value(last_component(next_number(next_number(number)))) == decimal_value(
            last_component(number),
        ) + 2,
{
    lemma_dotted_number_is_counter(number);
    lemma_next_is_counter(number);
    let once = next_number(number);
    lemma_next_is_counter(once);
    let value = decimal_value(last_component(number));
    lemma_decimal_text_digits(value + 1);
    lemma_decimal_text_digits(value + 2);
}

/// The index behind the last dot of `number`, or 0 where it has none.
fn component_start(number: &Vec<char>) -> (start: usize)
    ensures
        start == last_component_start(number@),
        start <= number.len(),
{
    let mut i: usize = number.len();
    assert(number@.take(i as int) == number@);
    while i > 0 && number[i - 1] != '.'
        invariant
            i <= number.len(),
            last_component_start(number@) == last_component_start(number@.take(i as int)),
        decreases i,
    {
        assert(number@.take(i as int).drop_last() == number@.take(i - 1));
        i -= 1;
    }
    proof {
        lemma_last_component_bounds(number@.take(i as int));
    }
    i
}

/// Digits counted up by one, without leading zeros.
fn count_up(digits: &Vec<char>) -> (next: Vec<char>)
    requires
        all_digits(digits@),
    ensures
        next@ == decimal_text(decimal_value(digits@) + 1),
{
    // The digits behind `nines` are all nines: they turn into zeros.
    let mut nines: usize = digits.len();
    while nines > 0 && digits[nines - 1] == '9'
        invariant
            nines <= digits.len(),
            forall|i: int| nines <= i < digits.len() ==> digits@[i] == '9',
        decreases nines,
    {
        nines -= 1;
    }
    let mut counted: Vec<char> = Vec::new();
    if nines == 0 {
        counted.push('1');
    } else {
        let mut i: usize = 0;
        while i < nines - 1
            invariant
                0 < nines <= digits.len(),
                i <= nines - 1,
                counted@ == digits@.take(i as int),
            decreases nines - 1 - i,
        {
            counted.push(digits[i]);
            i += 1;
        }
        let last = digits[nines - 1];
        counted.push(char_after(last));
    }
    let ghost head = counted@;
    let mut zeros: usize = nines;
    while zeros < digits.len()
        invariant
            nines <= zeros <= digits.len(),
            counted@ == head + Seq::new((zeros - nines) as nat, |i: int| '0'),
        decreases digits.len() - zeros,
    {
        counted.push('0');
        zeros += 1;
    }
    proof {
        lemma_successor_of_nines(digits@, nines as int);
        lemma_next_digits(digits@);
        lemma_successor(digits@);
        lemma_leading_zeros(counted@);
    }
    strip_zeros(&counted)
}

/// The digit after `c`, which is not `9`.
fn char_after(c: char) -> (next: char)
    requires
        is_digit(c),
        c != '9',
    ensures
        next == digit_char(digit_value(c) + 1),
{
    let code: u32 = c as u32;
    let next: u8 = (code + 1) as u8;
    next as char
}

/// `digits` without the zeros in front.
fn strip_zeros(digits: &Vec<char>) -> (short: Vec<char>)
    requires
        all_digits(digits@),
    ensures
        short@ == digits@.skip(leading_zeros(digits@) as int),
{
    let mut first: usize = 0;
    assert(digits@.skip(0) == digits@);
    while first < digits.len() && digits[first] == '0'
        invariant
            first <= digits.len(),
            leading_zeros(digits@) == first + leading_zeros(digits@.skip(first as int)),
        decreases digits.len() - first,
    {
        assert(digits@.skip(first as int).skip(1) == digits@.skip(first + 1));
        first += 1;
    }
    assert(leading_zeros(digits@) == first);
    let mut short: Vec<char> = Vec::new();
    let mut i: usize = first;
    while i < digits.len()
        invariant
            first <= i <= digits.len(),
            short@ == digits@.subrange(first as int, i as int),
        decreases digits.len() - i,
    {
        short.push(digits[i]);
        i += 1;
    }
    short
}

/// Counting up turns the nines at the end into zeros and raises the digit before them.
proof fn lemma_successor_of_nines(digits: Seq<char>, nines: int)
    requires
        all_digits(digits),
        0 <= nines <= digits.len(),
        forall|i: int| nines <= i < digits.len() ==> digits[i] == '9',
        nines > 0 ==> digits[nines - 1] != '9',
    ensures
        successor(digits) == (if nines == 0 {
            seq!['1']
        } else {
            digits.take(nines - 1).push(digit_char(digit_value(digits[nines - 1]) + 1))
        }) + Seq::new((digits.len() - nines) as nat, |i: int| '0'),
    decreases digits.len(),
{
    let zeros = Seq::new((digits.len() - nines) as nat, |i: int| '0');
    if digits.len() == nines {
        if nines == 0 {
            assert(successor(digits) == seq!['1'] + zeros);
        } else {
            assert(digits.drop_last() == digits.take(nines - 1));
            assert(successor(digits) == digits.take(nines - 1).push(
                digit_char(digit_value(digits[nines - 1]) + 1),
            ) + zeros);
        }
    } else {
        let front = digits.drop_last();
        lemma_successor_of_nines(front, nines);
        let fewer = Seq::new((front.len() - nines) as nat, |i: int| '0');
        assert(fewer.push('0') == zeros);
        if nines > 0 {
            assert(front.take(nines - 1) == digits.take(nines - 1));
        }
    }
}

} // verus!
