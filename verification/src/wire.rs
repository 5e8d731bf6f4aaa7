//! The text of the protocol at its lowest level: white space, tokens and
//! decimal numbers.

use vstd::prelude::*;
use vstd::string::*;

verus! {

/// The characters that separate tokens: Unicode's white space.
pub open spec fn is_space(c: char) -> bool {
    let u = c as u32;
    ||| 0x09 <= u <= 0x0D
    ||| u == 0x20
    ||| u == 0x85
    ||| u == 0xA0
    ||| u == 0x1680
    ||| 0x2000 <= u <= 0x200A
    ||| u == 0x2028
    ||| u == 0x2029
    ||| u == 0x202F
    ||| u == 0x205F
    ||| u == 0x3000
}

/// Whether a character separates tokens.
pub fn space(c: char) -> (b: bool)
    ensures
        b == is_space(c),
{
    let u: u32 = c as u32;
    (0x09 <= u && u <= 0x0D) || u == 0x20 || u == 0x85 || u == 0xA0 || u == 0x1680 || (0x2000 <= u
        && u <= 0x200A) || u == 0x2028 || u == 0x2029 || u == 0x202F || u == 0x205F || u == 0x3000
}

/// The ten decimal digits of ASCII.
pub open spec fn is_digit(c: char) -> bool {
    0x30 <= c as u32 <= 0x39
}

/// The value of a decimal digit; zero for any other character.
pub open spec fn digit_of(c: char) -> nat {
    if is_digit(c) {
        (c as u32 - 0x30) as nat
    } else {
        0
    }
}

/// Every character of the text is a decimal digit.
pub open spec fn all_digits(s: Seq<char>) -> bool {
    forall|i: int| 0 <= i < s.len() ==> #[trigger] is_digit(s[i])
}

/// The number that a run of decimal digits writes, most significant first.
pub open spec fn digits_value(s: Seq<char>) -> nat
    decreases s.len(),
{
    if s.len() == 0 {
        0
    } else {
        digits_value(s.drop_last()) * 10 + digit_of(s.last())
    }
}

/// The text without one leading plus sign.
pub open spec fn unsigned_part(s: Seq<char>) -> Seq<char> {
    if s.len() > 0 && s[0] == '+' {
        s.subrange(1, s.len() as int)
    } else {
        s
    }
}

/// The number a token writes: an optional plus sign, then one or more decimal
/// digits whose value fits 32 bits. Anything else writes no number.
pub open spec fn number_of(s: Seq<char>) -> Option<u32> {
    let digits = unsigned_part(s);
    if digits.len() > 0 && all_digits(digits) && digits_value(digits) <= u32::MAX {
        Some(digits_value(digits) as u32)
    } else {
        None
    }
}

/// A numeric field of a message: the number it writes, or zero where it
/// writes none.
pub open spec fn field_of(s: Seq<char>) -> u32 {
    match number_of(s) {
        Some(n) => n,
        None => 0,
    }
}

/// A prefix of a run of digits never writes more than the whole run.
pub proof fn prefix_value_bounded(s: Seq<char>, k: int)
    requires
        0 <= k <= s.len(),
    ensures
        digits_value(s.take(k)) <= digits_value(s),
    decreases s.len(),
{
    if k == s.len() {
        assert(s.take(k) =~= s);
    } else {
        assert(s.take(k) =~= s.drop_last().take(k));
        prefix_value_bounded(s.drop_last(), k);
    }
}

/// Reads a token as a number.
pub fn parse_number(text: &str) -> (number: Option<u32>)
    ensures
        number == number_of(text@),
{
    let n: usize = text.unicode_len();
    if n == 0 {
        return None;
    }
    let start: usize = if text.get_char(0) == '+' {
        1
    } else {
        0
    };
    let ghost digits = unsigned_part(text@);
    if start == n {
        return None;
    }
    let mut acc: u32 = 0;
    let mut i: usize = start;
    while i < n
        invariant
            start <= i <= n,
            n == text@.len(),
            digits == text@.subrange(start as int, n as int),
            digits == unsigned_part(text@),
            all_digits(digits.take(i - start)),
            acc == digits_value(digits.take(i - start)),
        decreases n - i,
    {
        let c: char = text.get_char(i);
        let code: u32 = c as u32;
        if code < 0x30 || code > 0x39 {
            assert(!is_digit(digits[i - start]));
            return None;
        }
        let d: u32 = code - 0x30;
        proof {
            let next = digits.take(i + 1 - start);
            assert(next.drop_last() =~= digits.take(i - start));
            assert(next.last() == c);
            assert(digits_value(next) == acc * 10 + d);
            assert forall|k: int| 0 <= k < next.len() implies #[trigger] is_digit(next[k]) by {
                if k < next.len() - 1 {
                    assert(is_digit(digits.take(i - start)[k]));
                }
            }
        }
        if acc > (u32::MAX - d) / 10 {
            proof {
                prefix_value_bounded(digits, i + 1 - start);
            }
            return None;
        }
        acc = acc * 10 + d;
        i = i + 1;
    }
    assert(digits.take(n - start) =~= digits);
    Some(acc)
}

/// The character that writes a decimal digit.
pub open spec fn digit_char(d: nat) -> char {
    if d == 0 {
        '0'
    } else if d == 1 {
        '1'
    } else if d == 2 {
        '2'
    } else if d == 3 {
        '3'
    } else if d == 4 {
        '4'
    } else if d == 5 {
        '5'
    } else if d == 6 {
        '6'
    } else if d == 7 {
        '7'
    } else if d == 8 {
        '8'
    } else {
        '9'
    }
}

/// A number in decimal, without sign or leading zeros.
pub open spec fn decimal(n: nat) -> Seq<char>
    decreases n,
{
    if n < 10 {
        seq![digit_char(n)]
    } else {
        decimal(n / 10).push(digit_char(n % 10))
    }
}

fn digit_text(d: u64) -> (text: &'static str)
    requires
        d < 10,
    ensures
        text@ == seq![digit_char(d as nat)],
{
    proof {
        reveal_strlit("0");
        reveal_strlit("1");
        reveal_strlit("2");
        reveal_strlit("3");
        reveal_strlit("4");
        reveal_strlit("5");
        reveal_strlit("6");
        reveal_strlit("7");
        reveal_strlit("8");
        reveal_strlit("9");
    }
    let text = if d == 0 {
        "0"
    } else if d == 1 {
        "1"
    } else if d == 2 {
        "2"
    } else if d == 3 {
        "3"
    } else if d == 4 {
        "4"
    } else if d == 5 {
        "5"
    } else if d == 6 {
        "6"
    } else if d == 7 {
        "7"
    } else if d == 8 {
        "8"
    } else {
        "9"
    };
    assert(text@ =~= seq![digit_char(d as nat)]);
    text
}

/// Writes a number in decimal.
pub fn render_decimal(n: u64) -> (text: String)
    ensures
        text@ == decimal(n as nat),
    decreases n,
{
    if n < 10 {
        String::from_str(digit_text(n))
    } else {
        let mut text = render_decimal(n / 10);
        text.append(digit_text(n % 10));
        assert(text@ =~= decimal(n as nat));
        text
    }
}

/// Writes a 32-bit number in decimal.
pub fn render_number(n: u32) -> (text: String)
    ensures
        text@ == decimal(n as nat),
{
    render_decimal(n as u64)
}

/// What is written in decimal is read back as the same number.
pub proof fn decimal_reads_back(n: nat)
    ensures
        decimal(n).len() > 0,
        all_digits(decimal(n)),
        unsigned_part(decimal(n)) == decimal(n),
        digits_value(decimal(n)) == n,
        n <= u32::MAX ==> number_of(decimal(n)) == Some(n as u32) && field_of(decimal(n)) == n,
    decreases n,
{
    let text = decimal(n);
    if n < 10 {
        assert(text.drop_last() =~= Seq::<char>::empty());
        assert(digits_value(text.drop_last()) == 0);
        assert(is_digit(text[0]));
    } else {
        decimal_reads_back(n / 10);
        let front = decimal(n / 10);
        assert(text.drop_last() =~= front);
        assert(text.last() == digit_char(n % 10));
        assert(text[0] == front[0]);
        assert(is_digit(front[0]));
        assert forall|k: int| 0 <= k < text.len() implies #[trigger] is_digit(text[k]) by {
            if k < front.len() {
                assert(is_digit(front[k]));
            }
        }
    }
}

/// Where the run of white space (or, with `spaces` false, of other
/// characters) that begins at `from` ends.
pub open spec fn run_end(s: Seq<char>, from: int, spaces: bool) -> int
    decreases s.len() - from,
{
    if 0 <= from < s.len() && is_space(s[from]) == spaces {
        run_end(s, from + 1, spaces)
    } else {
        from
    }
}

/// The tokens of a text from a position on: the maximal runs of characters
/// that are not white space, in order.
pub open spec fn tokens_from(s: Seq<char>, from: int) -> Seq<Seq<char>>
    decreases s.len() - from,
{
    let a = run_end(s, from, true);
    let b = run_end(s, a, false);
    if from <= a < b <= s.len() {
        seq![s.subrange(a, b)] + tokens_from(s, b)
    } else {
        Seq::empty()
    }
}

/// The tokens of a whole text.
pub open spec fn tokens(s: Seq<char>) -> Seq<Seq<char>> {
    tokens_from(s, 0)
}

/// A run ends inside the text, holds only characters of its kind, and stops
/// at the first character of the other kind.
pub proof fn run_end_is_maximal(s: Seq<char>, from: int, spaces: bool)
    requires
        0 <= from <= s.len(),
    ensures
        from <= run_end(s, from, spaces) <= s.len(),
        forall|k: int| from <= k < run_end(s, from, spaces) ==> is_space(#[trigger] s[k]) == spaces,
        run_end(s, from, spaces) < s.len() ==> is_space(s[run_end(s, from, spaces)]) != spaces,
    decreases s.len() - from,
{
    if from < s.len() && is_space(s[from]) == spaces {
        run_end_is_maximal(s, from + 1, spaces);
    }
}

/// A word: one character or more, none of them white space.
pub open spec fn spaceless(w: Seq<char>) -> bool {
    w.len() > 0 && forall|i: int| 0 <= i < w.len() ==> !is_space(#[trigger] w[i])
}

/// Every token is a word.
pub proof fn tokens_are_words(s: Seq<char>, from: int)
    requires
        0 <= from <= s.len(),
    ensures
        forall|i: int| 0 <= i < tokens_from(s, from).len() ==> spaceless(#[trigger] tokens_from(s, from)[i]),
    decreases s.len() - from,
{
    run_end_is_maximal(s, from, true);
    let a = run_end(s, from, true);
    run_end_is_maximal(s, a, false);
    let b = run_end(s, a, false);
    if a < b {
        tokens_are_words(s, b);
        let word = s.subrange(a, b);
        assert forall|k: int| 0 <= k < word.len() implies !is_space(#[trigger] word[k]) by {
            assert(word[k] == s[a + k]);
        }
        assert(spaceless(word));
        let rest = tokens_from(s, b);
        assert forall|i: int| 0 <= i < tokens_from(s, from).len() implies spaceless(
            #[trigger] tokens_from(s, from)[i],
        ) by {
            if i > 0 {
                assert(tokens_from(s, from)[i] == rest[i - 1]);
            }
        }
    }
}

/// Words written one after another with a single blank between them.
pub open spec fn joined(words: Seq<Seq<char>>) -> Seq<char>
    decreases words.len(),
{
    if words.len() == 0 {
        Seq::empty()
    } else if words.len() == 1 {
        words[0]
    } else {
        words[0] + seq![' '] + joined(words.drop_first())
    }
}

proof fn run_end_shift(p: Seq<char>, r: Seq<char>, k: int, spaces: bool)
    requires
        0 <= k <= r.len(),
    ensures
        run_end(p + r, p.len() + k, spaces) == p.len() + run_end(r, k, spaces),
    decreases r.len() - k,
{
    if k < r.len() {
        assert((p + r)[p.len() + k] == r[k]);
        if is_space(r[k]) == spaces {
            run_end_shift(p, r, k + 1, spaces);
        }
    }
}

proof fn tokens_shift(p: Seq<char>, r: Seq<char>, k: int)
    requires
        0 <= k <= r.len(),
    ensures
        tokens_from(p + r, p.len() + k) == tokens_from(r, k),
    decreases r.len() - k,
{
    let s = p + r;
    run_end_shift(p, r, k, true);
    run_end_is_maximal(r, k, true);
    let a = run_end(r, k, true);
    run_end_shift(p, r, a, false);
    run_end_is_maximal(r, a, false);
    let b = run_end(r, a, false);
    if a < b {
        tokens_shift(p, r, b);
        assert(s.subrange(p.len() + a, p.len() + b) =~= r.subrange(a, b));
    }
}

proof fn run_over_word(s: Seq<char>, w: Seq<char>, k: int)
    requires
        spaceless(w),
        w.len() <= s.len(),
        forall|i: int| 0 <= i < w.len() ==> s[i] == w[i],
        s.len() == w.len() || is_space(s[w.len() as int]),
        0 <= k <= w.len(),
    ensures
        run_end(s, k, false) == w.len(),
    decreases w.len() - k,
{
    if k < w.len() {
        assert(!is_space(w[k]));
        run_over_word(s, w, k + 1);
    }
}

/// Words that are written with single blanks between them are the tokens of
/// what was written.
pub proof fn joined_words_split_back(words: Seq<Seq<char>>)
    requires
        forall|i: int| 0 <= i < words.len() ==> spaceless(#[trigger] words[i]),
    ensures
        tokens(joined(words)) == words,
    decreases words.len(),
{
    let s = joined(words);
    if words.len() == 0 {
        assert(tokens(s) =~= words);
    } else {
        let w = words[0];
        assert(spaceless(w));
        assert(!is_space(w[0]));
        if words.len() == 1 {
            run_over_word(s, w, 0);
            assert(s.subrange(0, w.len() as int) =~= w);
            assert(tokens_from(s, w.len() as int) =~= Seq::<Seq<char>>::empty());
            assert(tokens(s) =~= words);
        } else {
            let tail = words.drop_first();
            assert forall|i: int| 0 <= i < tail.len() implies spaceless(#[trigger] tail[i]) by {
                assert(tail[i] == words[i + 1]);
            }
            joined_words_split_back(tail);
            let p = w + seq![' '];
            let r = joined(tail);
            assert(s == p + r);
            assert(s[0] == w[0]);
            assert(s[w.len() as int] == ' ');
            assert(is_space(' '));
            assert forall|i: int| 0 <= i < w.len() implies s[i] == w[i] by {}
            run_over_word(s, w, 0);
            assert(s.subrange(0, w.len() as int) =~= w);
            tokens_shift(p, r, 0);
            run_end_is_maximal(s, w.len() as int + 1, true);
            assert(run_end(s, w.len() as int, true) == run_end(s, w.len() as int + 1, true));
            assert(tokens_from(s, w.len() as int) == tokens_from(s, w.len() as int + 1));
            assert(tokens(s) =~= seq![w] + tail);
            assert(seq![w] + tail =~= words);
        }
    }
}

/// A number in decimal is a word.
pub proof fn decimal_is_a_word(n: nat)
    ensures
        spaceless(decimal(n)),
{
    decimal_reads_back(n);
    assert forall|i: int| 0 <= i < decimal(n).len() implies !is_space(#[trigger] decimal(n)[i]) by {
        assert(is_digit(decimal(n)[i]));
    }
}

/// The texts that a vector of strings holds.
pub open spec fn texts_of(parts: Seq<String>) -> Seq<Seq<char>> {
    Seq::new(parts.len(), |i: int| parts[i]@)
}

/// Splits a text at white space into its tokens.
pub fn split_tokens(text: &str) -> (parts: Vec<String>)
    ensures
        texts_of(parts@) == tokens(text@),
{
    let n: usize = text.unicode_len();
    let mut parts: Vec<String> = Vec::new();
    let mut pos: usize = 0;
    let mut done: bool = false;
    assert(texts_of(parts@) + tokens_from(text@, 0) =~= tokens(text@));
    while !done
        invariant
            pos <= n,
            n == text@.len(),
            tokens(text@) == texts_of(parts@) + tokens_from(text@, pos as int),
            done ==> tokens_from(text@, pos as int).len() == 0,
        decreases n - pos + (if done { 0int } else { 1int }),
    {
        let mut a: usize = pos;
        while a < n && space(text.get_char(a))
            invariant
                pos <= a <= n,
                n == text@.len(),
                run_end(text@, a as int, true) == run_end(text@, pos as int, true),
            decreases n - a,
        {
            a = a + 1;
        }
        let mut b: usize = a;
        while b < n && !space(text.get_char(b))
            invariant
                a <= b <= n,
                n == text@.len(),
                run_end(text@, b as int, false) == run_end(text@, a as int, false),
            decreases n - b,
        {
            b = b + 1;
        }
        assert(run_end(text@, pos as int, true) == a);
        assert(run_end(text@, a as int, false) == b);
        if a == b {
            done = true;
        } else {
            let token = String::from_str(text.substring_char(a, b));
            let ghost before = texts_of(parts@);
            parts.push(token);
            assert(texts_of(parts@) =~= before + seq![text@.subrange(a as int, b as int)]);
            assert(tokens(text@) =~= texts_of(parts@) + tokens_from(text@, b as int));
            pos = b;
        }
    }
    assert(texts_of(parts@) + tokens_from(text@, pos as int) =~= texts_of(parts@));
    parts
}

} // verus!
