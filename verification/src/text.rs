//! Text helpers: comparison, splitting and decimal numerals over characters.

use vstd::prelude::*;
use vstd::string::*;

verus! {

/// The characters of a string.
pub fn chars_of(s: &str) -> (r: Vec<char>)
    ensures
        r@ == s@,
{
    let mut out: Vec<char> = Vec::new();
    for c in it: s.chars()
        invariant
            it.seq() == s@,
            out@ == s@.take(it.index() as int),
    {
        out.push(c);
        assert(out@ =~= s@.take(it.index() as int + 1));
    }
    assert(s@.take(s@.len() as int) =~= s@);
    out
}

/// Whether two strings hold the same characters.
pub fn same_text(a: &str, b: &str) -> (r: bool)
    ensures
        r == (a@ == b@),
{
    let mut x = a.chars();
    let mut y = b.chars();
    let ghost mut k: int = 0;
    loop
        invariant
            0 <= k <= a@.len(),
            0 <= k <= b@.len(),
            a@.take(k) == b@.take(k),
            vstd::std_specs::iter::IteratorSpec::remaining(&x) == a@.skip(k),
            vstd::std_specs::iter::IteratorSpec::remaining(&y) == b@.skip(k),
        decreases a@.len() - k,
    {
        let p = x.next();
        let q = y.next();
        match (p, q) {
            (Some(c), Some(d)) => {
                if c != d {
                    assert(a@[k] != b@[k]);
                    return false;
                }
                proof {
                    assert(a@.take(k + 1) =~= a@.take(k).push(c));
                    assert(b@.take(k + 1) =~= b@.take(k).push(d));
                    assert(a@.skip(k).drop_first() =~= a@.skip(k + 1));
                    assert(b@.skip(k).drop_first() =~= b@.skip(k + 1));
                    k = k + 1;
                }
            },
            (None, None) => {
                assert(a@ =~= a@.take(k));
                assert(b@ =~= b@.take(k));
                return true;
            },
            _ => {
                return false;
            },
        }
    }
}

/// Whether a character has the Unicode `White_Space` property.
pub open spec fn white(c: char) -> bool {
    let u = c as u32;
    ||| 0x09 <= u <= 0x0d
    ||| u == 0x20
    ||| u == 0x85
    ||| u == 0xa0
    ||| u == 0x1680
    ||| 0x2000 <= u <= 0x200a
    ||| u == 0x2028
    ||| u == 0x2029
    ||| u == 0x202f
    ||| u == 0x205f
    ||| u == 0x3000
}

/// Tests a character for the Unicode `White_Space` property.
pub fn is_white(c: char) -> (r: bool)
    ensures
        r == white(c),
{
    let u: u32 = c as u32;
    (0x09 <= u && u <= 0x0d) || u == 0x20 || u == 0x85 || u == 0xa0 || u == 0x1680 || (0x2000 <= u
        && u <= 0x200a) || u == 0x2028 || u == 0x2029 || u == 0x202f || u == 0x205f || u == 0x3000
}

/// The first position at or after `from` whose character is not white space,
/// or the length.
pub open spec fn word_start(s: Seq<char>, from: int) -> int
    decreases s.len() - from,
{
    if from < 0 || from >= s.len() || !white(s[from]) {
        from
    } else {
        word_start(s, from + 1)
    }
}

/// The first position at or after `from` whose character is white space, or
/// the length.
pub open spec fn word_end(s: Seq<char>, from: int) -> int
    decreases s.len() - from,
{
    if from < 0 || from >= s.len() || white(s[from]) {
        from
    } else {
        word_end(s, from + 1)
    }
}

/// The maximal runs of characters other than white space, from position
/// `from` on, in order.
pub open spec fn words_from(s: Seq<char>, from: int) -> Seq<Seq<char>>
    decreases s.len() - from,
    when 0 <= from <= s.len()
    via words_from_decreases
{
    let a = word_start(s, from);
    if a >= s.len() {
        seq![]
    } else {
        let b = word_end(s, a);
        seq![s.subrange(a, b)] + words_from(s, b)
    }
}

#[via_fn]
proof fn words_from_decreases(s: Seq<char>, from: int) {
    lemma_word_bounds(s, from);
    let a = word_start(s, from);
    if a < s.len() {
        lemma_word_bounds(s, a);
    }
}

/// The words of a text: its maximal runs of characters other than white space.
pub open spec fn words(s: Seq<char>) -> Seq<Seq<char>> {
    words_from(s, 0)
}

proof fn lemma_word_bounds(s: Seq<char>, from: int)
    requires
        0 <= from <= s.len(),
    ensures
        from <= word_start(s, from) <= s.len(),
        from <= word_end(s, from) <= s.len(),
        from < s.len() && !white(s[from]) ==> from < word_end(s, from),
        word_start(s, from) < s.len() ==> !white(s[word_start(s, from)]),
    decreases s.len() - from,
{
    if from < s.len() {
        lemma_word_bounds(s, from + 1);
    }
}

/// Splits a text into its words.
pub fn split_words<'a>(s: &'a str) -> (r: Vec<&'a str>)
    ensures
        r@.map_values(|w: &str| w@) == words(s@),
{
    let chars = chars_of(s);
    let n: usize = chars.len();
    let mut out: Vec<&'a str> = Vec::new();
    let mut at: usize = 0;
    while at < n
        invariant
            chars@ == s@,
            n == s@.len(),
            at <= n,
            out@.map_values(|w: &str| w@) + words_from(s@, at as int) == words(s@),
        decreases n - at,
    {
        let ghost begun = at as int;
        proof {
            lemma_word_bounds(s@, begun);
        }
        while at < n && is_white(chars[at])
            invariant
                chars@ == s@,
                n == s@.len(),
                begun <= at <= n,
                word_start(s@, begun) == word_start(s@, at as int),
            decreases n - at,
        {
            at = at + 1;
        }
        if at < n {
            let start: usize = at;
            proof {
                lemma_word_bounds(s@, start as int);
            }
            while at < n && !is_white(chars[at])
                invariant
                    chars@ == s@,
                    n == s@.len(),
                    start <= at <= n,
                    word_end(s@, start as int) == word_end(s@, at as int),
                decreases n - at,
            {
                at = at + 1;
            }
            let ghost before = out@;
            out.push(s.substring_char(start, at));
            proof {
                let f = |w: &str| w@;
                assert(out@.map_values(f) =~= before.map_values(f).push(
                    s@.subrange(start as int, at as int),
                ));
                assert(before.map_values(f) + words_from(s@, begun) =~= out@.map_values(f)
                    + words_from(s@, at as int));
            }
        } else {
            assert(words_from(s@, n as int) =~= seq![]);
            assert(words_from(s@, begun) =~= seq![]);
        }
    }
    assert(words_from(s@, n as int) =~= seq![]);
    out
}

/// The position of the first occurrence of a character, or the length.
pub open spec fn first_at(s: Seq<char>, c: char, from: int) -> int
    decreases s.len() - from,
{
    if from < 0 || from >= s.len() || s[from] == c {
        from
    } else {
        first_at(s, c, from + 1)
    }
}

/// A text cut in two at the first occurrence of a character, which neither
/// half keeps.
pub open spec fn cut_at(s: Seq<char>, c: char) -> Option<(Seq<char>, Seq<char>)> {
    let i = first_at(s, c, 0);
    if i < s.len() {
        Some((s.take(i), s.skip(i + 1)))
    } else {
        None
    }
}

/// Cuts a text in two at the first occurrence of a character.
pub fn split_once<'a>(s: &'a str, c: char) -> (r: Option<(&'a str, &'a str)>)
    ensures
        match r {
            Some(p) => cut_at(s@, c) == Some((p.0@, p.1@)),
            None => cut_at(s@, c) is None,
        },
{
    let chars = chars_of(s);
    let n: usize = chars.len();
    let mut i: usize = 0;
    while i < n && chars[i] != c
        invariant
            chars@ == s@,
            n == s@.len(),
            i <= n,
            first_at(s@, c, 0) == first_at(s@, c, i as int),
        decreases n - i,
    {
        i = i + 1;
    }
    if i < n {
        let left = s.substring_char(0, i);
        let right = s.substring_char(i + 1, n);
        assert(left@ =~= s@.take(i as int));
        assert(right@ =~= s@.skip(i as int + 1));
        Some((left, right))
    } else {
        None
    }
}

/// Whether a text holds a character.
pub fn holds_char(s: &str, c: char) -> (r: bool)
    ensures
        r == s@.contains(c),
{
    let chars = chars_of(s);
    for i in 0..chars.len()
        invariant
            chars@ == s@,
            forall|j: int| 0 <= j < i ==> s@[j] != c,
    {
        if chars[i] == c {
            assert(s@[i as int] == c);
            return true;
        }
    }
    false
}

/// A text without its last character, where that is `c`.
pub open spec fn without_suffix(s: Seq<char>, c: char) -> Option<Seq<char>> {
    if s.len() > 0 && s.last() == c {
        Some(s.drop_last())
    } else {
        None
    }
}

/// Takes a final character off a text.
pub fn strip_suffix<'a>(s: &'a str, c: char) -> (r: Option<&'a str>)
    ensures
        match r {
            Some(t) => without_suffix(s@, c) == Some(t@),
            None => without_suffix(s@, c) is None,
        },
{
    let n: usize = s.unicode_len();
    if n > 0 && s.get_char(n - 1) == c {
        let t = s.substring_char(0, n - 1);
        assert(t@ =~= s@.drop_last());
        Some(t)
    } else {
        None
    }
}

/// Whether a character is a decimal digit.
pub open spec fn digit(c: char) -> bool {
    '0' <= c <= '9'
}

/// The value of a decimal digit.
pub open spec fn digit_value(c: char) -> int {
    c as int - '0' as int
}

/// The number that a row of decimal digits denotes.
pub open spec fn digits_value(s: Seq<char>) -> int
    decreases s.len(),
{
    if s.len() == 0 {
        0
    } else {
        10 * digits_value(s.drop_last()) + digit_value(s.last())
    }
}

/// Whether a text is a row of decimal digits, and not empty.
pub open spec fn all_digits(s: Seq<char>) -> bool {
    s.len() > 0 && forall|i: int| 0 <= i < s.len() ==> digit(#[trigger] s[i])
}

/// The digits of a numeral: an initial plus sign is not one of them.
pub open spec fn unsigned_digits(s: Seq<char>) -> Seq<char> {
    if s.len() > 0 && s[0] == '+' {
        s.skip(1)
    } else {
        s
    }
}

/// The number that a text denotes: digits, with or without a plus sign in
/// front, that denote no more than `max`.
pub open spec fn unsigned_value(s: Seq<char>, max: int) -> Option<int> {
    let d = unsigned_digits(s);
    if all_digits(d) && digits_value(d) <= max {
        Some(digits_value(d))
    } else {
        None
    }
}

proof fn lemma_digits_value_grows(s: Seq<char>, i: int)
    requires
        all_digits(s),
        0 <= i <= s.len(),
    ensures
        0 <= digits_value(s.take(i)) <= digits_value(s),
    decreases s.len(),
{
    if i == s.len() {
        assert(s.take(i) =~= s);
        if s.len() > 1 {
            let t = s.drop_last();
            assert forall|j: int| 0 <= j < t.len() implies digit(#[trigger] t[j]) by {
                assert(t[j] == s[j]);
            }
            lemma_digits_value_grows(t, t.len() as int);
            assert(t.take(t.len() as int) =~= t);
            assert(digit(s[s.len() - 1]));
        } else {
            assert(s.drop_last() =~= Seq::<char>::empty());
            assert(digits_value(s.drop_last()) == 0);
            assert(digit(s[0]));
        }
    } else if s.len() > 1 {
        let t = s.drop_last();
        assert forall|j: int| 0 <= j < t.len() implies digit(#[trigger] t[j]) by {
            assert(t[j] == s[j]);
        }
        lemma_digits_value_grows(t, i);
        assert(t.take(i) =~= s.take(i));
        assert(digit(s[s.len() - 1]));
    } else {
        assert(s.take(i) =~= Seq::<char>::empty());
        assert(s.drop_last() =~= Seq::<char>::empty());
        assert(digits_value(Seq::<char>::empty()) == 0);
        assert(digit(s[0]));
    }
}

/// The number that a text denotes is not negative.
pub proof fn unsigned_value_in_range(s: Seq<char>, max: int)
    ensures
        unsigned_value(s, max) matches Some(v) ==> 0 <= v <= max,
{
    let d = unsigned_digits(s);
    if all_digits(d) {
        lemma_digits_value_grows(d, 0);
    }
}

/// Reads an unsigned decimal numeral of at most `max`.
pub fn parse_unsigned(s: &str, max: u64) -> (r: Option<u64>)
    ensures
        match r {
            Some(v) => unsigned_value(s@, max as int) == Some(v as int),
            None => unsigned_value(s@, max as int) is None,
        },
{
    let chars = chars_of(s);
    let n: usize = chars.len();
    let start: usize = if n > 0 && chars[0] == '+' {
        1
    } else {
        0
    };
    let ghost d = unsigned_digits(s@);
    assert(d =~= s@.skip(start as int));
    if start == n {
        return None;
    }
    let mut value: u64 = 0;
    let mut i: usize = start;
    assert(d.take(0) =~= Seq::<char>::empty());
    while i < n
        invariant
            chars@ == s@,
            n == s@.len(),
            start <= i <= n,
            start < n,
            d == unsigned_digits(s@),
            d == s@.skip(start as int),
            d.len() == n - start,
            value as int == digits_value(d.take(i - start)),
            value <= max,
            forall|j: int| 0 <= j < i - start ==> digit(#[trigger] d[j]),
        decreases n - i,
    {
        let c: char = chars[i];
        assert(d[i - start] == c);
        if c < '0' || c > '9' {
            assert(!digit(d[i - start]));
            return None;
        }
        let v: u64 = (c as u32 - '0' as u32) as u64;
        assert(d.take(i + 1 - start).drop_last() =~= d.take(i - start));
        assert(d.take(i + 1 - start).last() == c);
        if value > (u64::MAX - v) / 10 || value * 10 + v > max {
            proof {
                if all_digits(d) {
                    lemma_digits_value_grows(d, i + 1 - start);
                }
            }
            return None;
        }
        value = value * 10 + v;
        i = i + 1;
    }
    assert(d.take(n - start) =~= d);
    Some(value)
}

/// The decimal digit that stands for a value below ten.
pub open spec fn digit_char(d: int) -> char {
    ('0' as int + d) as char
}

/// The decimal numeral of a number, without leading zeros.
pub open spec fn decimal(n: nat) -> Seq<char>
    decreases n,
{
    if n < 10 {
        seq![digit_char(n as int)]
    } else {
        decimal(n / 10).push(digit_char((n % 10) as int))
    }
}

fn digit_text(d: u64) -> (r: &'static str)
    requires
        d < 10,
    ensures
        r@ == seq![digit_char(d as int)],
{
    proof {
        reveal_strlit("0");
        reveal_strlit("1");
        reveal_strlit("2");
        reveal_strlit("3");
        reveal_strlit("4");
        reveal_strlit("5");
        reveal_strlit("6");
        reveal_strlit("7");
        reveal_strlit("8");
        reveal_strlit("9");
    }
    let r = match d {
        0 => "0",
        1 => "1",
        2 => "2",
        3 => "3",
        4 => "4",
        5 => "5",
        6 => "6",
        7 => "7",
        8 => "8",
        _ => "9",
    };
    assert(r@ =~= seq![digit_char(d as int)]);
    r
}

/// Writes a number in decimal.
pub fn decimal_text(n: u64) -> (r: String)
    ensures
        r@ == decimal(n as nat),
    decreases n,
{
    if n < 10 {
        digit_text(n).to_owned()
    } else {
        let mut head = decimal_text(n / 10);
        head.append(digit_text(n % 10));
        assert(head@ =~= decimal(n as nat));
        head
    }
}

/// Reading back the decimal numeral of a number gives the number.
pub proof fn decimal_round_trip(n: nat, max: int)
    requires
        n <= max,
    ensures
        unsigned_value(decimal(n), max) == Some(n as int),
{
    lemma_decimal(n);
    assert(digit(decimal(n)[0]));
    assert(unsigned_digits(decimal(n)) == decimal(n));
}

/// Different numbers have different decimal numerals.
pub proof fn decimal_injective(m: nat, n: nat)
    requires
        decimal(m) == decimal(n),
    ensures
        m == n,
{
    lemma_decimal(m);
    lemma_decimal(n);
}

proof fn lemma_decimal(n: nat)
    ensures
        all_digits(decimal(n)),
        digits_value(decimal(n)) == n,
    decreases n,
{
    if n < 10 {
        assert(decimal(n).drop_last() =~= Seq::<char>::empty());
        assert(digits_value(decimal(n).drop_last()) == 0);
    } else {
        lemma_decimal(n / 10);
        let t = decimal(n / 10);
        let s = decimal(n);
        assert(s.drop_last() =~= t);
        assert forall|i: int| 0 <= i < s.len() implies digit(#[trigger] s[i]) by {
            if i < t.len() {
                assert(digit(t[i]));
            }
        }
    }
}


/// The first position at or after `from` that holds no decimal digit, or the
/// length.
pub open spec fn digit_run_end(s: Seq<char>, from: int) -> int
    decreases s.len() - from,
{
    if from < 0 || from >= s.len() || !digit(s[from]) {
        from
    } else {
        digit_run_end(s, from + 1)
    }
}

/// Whether a character is a sign.
pub open spec fn sign(c: char) -> bool {
    c == '+' || c == '-'
}

/// The position behind a sign at `at`, or `at` where there is none.
pub open spec fn past_sign(s: Seq<char>, at: int) -> int {
    if 0 <= at < s.len() && sign(s[at]) {
        at + 1
    } else {
        at
    }
}

/// Whether `word`, in lower case, is what a text holds from `at` on, in either
/// case.
pub open spec fn spells(s: Seq<char>, at: int, word: Seq<char>) -> bool {
    &&& s.len() - at == word.len()
    &&& forall|i: int|
        0 <= i < word.len() ==> (s[at + i] == #[trigger] word[i] || s[at + i] as int
            == word[i] as int - 32)
}

/// Whether the text from `at` on is empty or an exponent: the letter e, with
/// or without a sign behind it, and at least one digit.
pub open spec fn exponent_from(s: Seq<char>, at: int) -> bool {
    ||| at == s.len()
    ||| {
        &&& 0 <= at < s.len()
        &&& s[at] == 'e' || s[at] == 'E'
        &&& past_sign(s, at + 1) < s.len()
        &&& digit_run_end(s, past_sign(s, at + 1)) == s.len()
    }
}

/// The position behind the digits and the point that start at `at`; `None`
/// where no digit stands on either side of the point.
pub open spec fn mantissa_end(s: Seq<char>, at: int) -> Option<int> {
    let a = digit_run_end(s, at);
    if 0 <= a < s.len() && s[a] == '.' {
        let b = digit_run_end(s, a + 1);
        if a > at || b > a + 1 {
            Some(b)
        } else {
            None
        }
    } else if a > at {
        Some(a)
    } else {
        None
    }
}

/// Whether a text is the numeral of a floating-point number: with or without a
/// sign, then `inf`, `infinity`, `nan`, or digits with at most one point among
/// them and with or without an exponent.
pub open spec fn float_numeral(s: Seq<char>) -> bool {
    let p = past_sign(s, 0);
    ||| spells(s, p, seq!['i', 'n', 'f'])
    ||| spells(s, p, seq!['i', 'n', 'f', 'i', 'n', 'i', 't', 'y'])
    ||| spells(s, p, seq!['n', 'a', 'n'])
    ||| (mantissa_end(s, p) matches Some(e) && exponent_from(s, e))
}

fn scan_digits(chars: &Vec<char>, from: usize) -> (r: usize)
    requires
        from <= chars@.len(),
    ensures
        r == digit_run_end(chars@, from as int),
        from <= r <= chars@.len(),
{
    let mut at: usize = from;
    while at < chars.len() && chars[at] >= '0' && chars[at] <= '9'
        invariant
            from <= at <= chars@.len(),
            digit_run_end(chars@, from as int) == digit_run_end(chars@, at as int),
        decreases chars@.len() - at,
    {
        at = at + 1;
    }
    at
}

fn skip_sign(chars: &Vec<char>, at: usize) -> (r: usize)
    requires
        at <= chars@.len(),
    ensures
        r == past_sign(chars@, at as int),
        at <= r <= chars@.len(),
{
    if at < chars.len() && (chars[at] == '+' || chars[at] == '-') {
        at + 1
    } else {
        at
    }
}

fn same_letter(c: char, lower: char) -> (r: bool)
    requires
        'a' <= lower <= 'z',
    ensures
        r == (c == lower || c as int == lower as int - 32),
{
    c == lower || c as u32 == lower as u32 - 32
}

fn spells_word(chars: &Vec<char>, at: usize, word: &Vec<char>) -> (r: bool)
    requires
        at <= chars@.len(),
        forall|i: int| 0 <= i < word@.len() ==> 'a' <= #[trigger] word@[i] <= 'z',
    ensures
        r == spells(chars@, at as int, word@),
{
    if chars.len() - at != word.len() {
        return false;
    }
    let mut i: usize = 0;
    while i < word.len()
        invariant
            at + word@.len() == chars.len(),
            i <= word@.len(),
            forall|j: int| 0 <= j < word@.len() ==> 'a' <= #[trigger] word@[j] <= 'z',
            forall|j: int|
                0 <= j < i ==> (chars@[at + j] == #[trigger] word@[j] || chars@[at + j] as int
                    == word@[j] as int - 32),
        decreases word@.len() - i,
    {
        let c: char = chars[at + i];
        let w: char = word[i];
        assert('a' <= word@[i as int] <= 'z');
        if !same_letter(c, w) {
            assert(chars@[at + i] != word@[i as int]);
            return false;
        }
        i = i + 1;
    }
    true
}

/// Tests a text for being the numeral of a floating-point number.
pub fn is_float_numeral(s: &str) -> (r: bool)
    ensures
        r == float_numeral(s@),
{
    let chars = chars_of(s);
    let p: usize = skip_sign(&chars, 0);
    let inf: Vec<char> = vec!['i', 'n', 'f'];
    let infinity: Vec<char> = vec!['i', 'n', 'f', 'i', 'n', 'i', 't', 'y'];
    let nan: Vec<char> = vec!['n', 'a', 'n'];
    assert(inf@ =~= seq!['i', 'n', 'f']);
    assert(infinity@ =~= seq!['i', 'n', 'f', 'i', 'n', 'i', 't', 'y']);
    assert(nan@ =~= seq!['n', 'a', 'n']);
    if spells_word(&chars, p, &inf) || spells_word(&chars, p, &infinity) || spells_word(
        &chars,
        p,
        &nan,
    ) {
        return true;
    }
    let a: usize = scan_digits(&chars, p);
    let mut end: usize = a;
    if a < chars.len() && chars[a] == '.' {
        end = scan_digits(&chars, a + 1);
        if a == p && end == a + 1 {
            return false;
        }
    } else if a == p {
        return false;
    }
    if end == chars.len() {
        return true;
    }
    if chars[end] != 'e' && chars[end] != 'E' {
        return false;
    }
    let first: usize = skip_sign(&chars, end + 1);
    first < chars.len() && scan_digits(&chars, first) == chars.len()
}

/// The characters of each string in a row.
pub open spec fn texts(s: Seq<String>) -> Seq<Seq<char>> {
    s.map_values(|t: String| t@)
}

/// The characters of a string that may be absent.
pub open spec fn opt_text(s: Option<String>) -> Option<Seq<char>> {
    match s {
        Some(t) => Some(t@),
        None => None,
    }
}

/// The characters of a string slice that may be absent.
pub open spec fn opt_str(s: Option<&str>) -> Option<Seq<char>> {
    match s {
        Some(s) => Some(s@),
        None => None,
    }
}

/// The characters of each string in a row that may be absent.
pub open spec fn opt_texts(s: Option<Vec<String>>) -> Option<Seq<Seq<char>>> {
    match s {
        Some(v) => Some(texts(v@)),
        None => None,
    }
}

/// Copies a row of strings.
pub fn copy_texts(v: &Vec<String>) -> (r: Vec<String>)
    ensures
        r@ == v@,
{
    let r = v.clone();
    assert(r@ =~= v@);
    r
}

/// Copies a row of strings that may be absent.
pub fn copy_opt_texts(v: &Option<Vec<String>>) -> (r: Option<Vec<String>>)
    ensures
        opt_texts(r) == opt_texts(*v),
{
    match v {
        Some(t) => Some(copy_texts(t)),
        None => None,
    }
}

/// Copies a string that may be absent.
pub fn copy_opt_text(v: &Option<String>) -> (r: Option<String>)
    ensures
        r == *v,
{
    match v {
        Some(t) => Some(t.clone()),
        None => None,
    }
}

/// Whether a text that may be left out is there and is a given one.
pub fn is_text(a: &Option<String>, b: &str) -> (r: bool)
    ensures
        r == (opt_text(*a) == Some(b@)),
{
    match a {
        Some(a) => same_text(a.as_str(), b),
        None => false,
    }
}

/// Whether two texts that may be left out are the same, or both left out.
pub fn same_opt_text(a: &Option<String>, b: &Option<String>) -> (r: bool)
    ensures
        r == (opt_text(*a) == opt_text(*b)),
{
    match (a, b) {
        (Some(a), Some(b)) => same_text(a.as_str(), b.as_str()),
        (None, None) => true,
        _ => false,
    }
}

proof fn lemma_first_at(s: Seq<char>, c: char, from: int)
    requires
        0 <= from <= s.len(),
    ensures
        from <= first_at(s, c, from) <= s.len(),
        first_at(s, c, from) < s.len() ==> s[first_at(s, c, from)] == c,
        forall|i: int| from <= i < first_at(s, c, from) ==> #[trigger] s[i] != c,
    decreases s.len() - from,
{
    if from < s.len() && s[from] != c {
        lemma_first_at(s, c, from + 1);
    }
}

/// A text is cut at the first occurrence of a character: what stands before it
/// does not hold the character, and what stands behind it is kept as it is. A text
/// without the character is not cut.
pub proof fn text_is_cut_at_the_first(a: Seq<char>, c: char, b: Seq<char>)
    requires
        !a.contains(c),
    ensures
        cut_at(a.push(c) + b, c) == Some((a, b)),
        cut_at(a, c) is None,
{
    let s = a.push(c) + b;
    lemma_first_at(s, c, 0);
    lemma_first_at(a, c, 0);
    let i = first_at(s, c, 0);
    assert(s[a.len() as int] == c);
    if i < a.len() {
        assert(a[i] == s[i]);
        assert(a.contains(c));
    }
    assert(i == a.len());
    assert(s.take(i) =~= a);
    assert(s.skip(i + 1) =~= b);
    if first_at(a, c, 0) < a.len() {
        assert(a.contains(a[first_at(a, c, 0)]));
    }
}

/// Only the character itself is taken off the end of a text, and once.
pub proof fn last_character_is_taken_off(a: Seq<char>, c: char, d: char)
    ensures
        without_suffix(a.push(c), c) == Some(a),
        c != d ==> without_suffix(a.push(d), c) is None,
        without_suffix(Seq::<char>::empty(), c) is None,
{
    assert(a.push(c).drop_last() =~= a);
}

/// Among the ASCII characters, the blanks are the space, the tabs, the line and
/// form feeds and the carriage return.
pub proof fn ascii_blanks(c: char)
    requires
        c as u32 <= 0x7f,
    ensures
        white(c) <==> c == ' ' || c == '\t' || c == '\n' || c == '\r' || c as u32 == 11 || c as u32
            == 12,
{
}

proof fn lemma_word_shift(pre: Seq<char>, t: Seq<char>, k: int)
    requires
        0 <= k <= t.len(),
    ensures
        word_start(pre + t, pre.len() + k) == pre.len() + word_start(t, k),
        word_end(pre + t, pre.len() + k) == pre.len() + word_end(t, k),
    decreases t.len() - k,
{
    if k < t.len() {
        assert((pre + t)[pre.len() + k] == t[k]);
        lemma_word_shift(pre, t, k + 1);
    }
}

proof fn lemma_words_shift(pre: Seq<char>, t: Seq<char>, k: int)
    requires
        0 <= k <= t.len(),
    ensures
        words_from(pre + t, pre.len() + k) == words_from(t, k),
    decreases t.len() - k,
{
    let s = pre + t;
    lemma_word_shift(pre, t, k);
    lemma_word_bounds(t, k);
    let a = word_start(t, k);
    if a < t.len() {
        lemma_word_shift(pre, t, a);
        lemma_word_bounds(t, a);
        let b = word_end(t, a);
        lemma_words_shift(pre, t, b);
        assert(s.subrange(pre.len() + a, pre.len() + b) =~= t.subrange(a, b));
    }
}

proof fn lemma_word_before_blank(a: Seq<char>, c: char, b: Seq<char>, from: int)
    requires
        white(c),
        0 <= from <= a.len(),
    ensures
        word_end(a.push(c) + b, from) == word_end(a, from),
        word_start(a, from) < a.len() ==> word_start(a.push(c) + b, from) == word_start(a, from),
        word_start(a, from) >= a.len() ==> word_start(a.push(c) + b, from) == word_start(
            a.push(c) + b,
            a.len() as int,
        ),
    decreases a.len() - from,
{
    let s = a.push(c) + b;
    if from < a.len() {
        assert(s[from] == a[from]);
        lemma_word_before_blank(a, c, b, from + 1);
    } else {
        assert(s[from] == c);
    }
}

proof fn lemma_words_before_blank(a: Seq<char>, c: char, b: Seq<char>, from: int)
    requires
        white(c),
        0 <= from <= a.len(),
    ensures
        words_from(a.push(c) + b, from) == words_from(a, from) + words_from(
            a.push(c) + b,
            a.len() as int,
        ),
    decreases a.len() - from,
{
    let s = a.push(c) + b;
    let rest = words_from(s, a.len() as int);
    lemma_word_before_blank(a, c, b, from);
    lemma_word_bounds(a, from);
    let x = word_start(a, from);
    if x >= a.len() {
        assert(words_from(a, from) =~= Seq::<Seq<char>>::empty());
        assert(words_from(s, from) =~= rest);
        assert(words_from(a, from) + rest =~= rest);
    } else {
        lemma_word_before_blank(a, c, b, x);
        lemma_word_bounds(a, x);
        let y = word_end(a, x);
        lemma_words_before_blank(a, c, b, y);
        assert(s.subrange(x, y) =~= a.subrange(x, y));
        assert(words_from(s, from) == seq![s.subrange(x, y)] + words_from(s, y));
        assert(words_from(a, from) == seq![a.subrange(x, y)] + words_from(a, y));
        assert(words_from(s, from) =~= words_from(a, from) + rest);
    }
}

/// A blank separates words: those of a text with a blank in it are those before
/// the blank, then those behind it.
pub proof fn blanks_separate_words(a: Seq<char>, c: char, b: Seq<char>)
    requires
        white(c),
    ensures
        words(a.push(c) + b) == words(a) + words(b),
{
    let s = a.push(c) + b;
    let n = a.len() as int;
    lemma_words_before_blank(a, c, b, 0);
    lemma_words_shift(a.push(c), b, 0);
    assert(s[n] == c);
    assert(word_start(s, n) == word_start(s, n + 1));
    assert(words_from(s, n) =~= words_from(s, n + 1));
}

proof fn lemma_word_goes_on(s: Seq<char>, from: int)
    requires
        0 <= from <= s.len(),
        forall|i: int| 0 <= i < s.len() ==> !white(#[trigger] s[i]),
    ensures
        word_end(s, from) == s.len(),
    decreases s.len() - from,
{
    if from < s.len() {
        lemma_word_goes_on(s, from + 1);
    }
}

/// A text without blanks is one word, and an empty text has none.
pub proof fn text_without_blanks_is_one_word(s: Seq<char>)
    requires
        forall|i: int| 0 <= i < s.len() ==> !white(#[trigger] s[i]),
    ensures
        s.len() > 0 ==> words(s) == seq![s],
        s.len() == 0 ==> words(s).len() == 0,
{
    if s.len() > 0 {
        assert(!white(s[0]));
        lemma_word_goes_on(s, 0);
        reveal_with_fuel(words_from, 2);
        assert(s.subrange(0, s.len() as int) =~= s);
        assert(words_from(s, s.len() as int) =~= Seq::<Seq<char>>::empty());
        assert(words(s) =~= seq![s]);
    }
}

/// One more digit behind a numeral makes its number ten times as large, plus the
/// digit, as long as it is not too large.
pub proof fn digits_count_ten_times(s: Seq<char>, c: char, max: int)
    requires
        s.len() > 0,
        forall|i: int| 0 <= i < s.len() ==> '0' <= #[trigger] s[i] <= '9',
        '0' <= c <= '9',
        unsigned_value(s, max) is Some,
    ensures
        ({
            let v = 10 * unsigned_value(s, max)->0 + (c as int - 48);
            unsigned_value(s.push(c), max) == (if v <= max {
                Some(v)
            } else {
                None::<int>
            })
        }),
{
    let t = s.push(c);
    assert(digit(s[0]));
    assert(t[0] == s[0]);
    assert(t.drop_last() =~= s);
    assert forall|i: int| 0 <= i < t.len() implies digit(#[trigger] t[i]) by {
        if i < s.len() {
            assert(t[i] == s[i]);
        }
    }
}

/// A single digit denotes itself, and a plus sign in front of digits changes
/// nothing. A sign alone denotes no number, nor does an empty text.
pub proof fn plus_signs_do_not_count(s: Seq<char>, c: char, max: int)
    requires
        s.len() > 0 ==> s[0] != '+',
    ensures
        '0' <= c <= '9' && c as int - 48 <= max ==> unsigned_value(seq![c], max) == Some(
            c as int - 48,
        ),
        unsigned_value(seq!['+'] + s, max) == unsigned_value(s, max),
        s.len() == 0 ==> unsigned_value(s, max) is None,
{
    let one = seq![c];
    assert(one.drop_last() =~= Seq::<char>::empty());
    assert(digits_value(one.drop_last()) == 0);
    assert((seq!['+'] + s).skip(1) =~= s);
}

/// A text that holds anything but digits, behind a plus sign in front, denotes no
/// number.
pub proof fn only_digits_denote_numbers(s: Seq<char>, i: int, max: int)
    requires
        0 <= i < s.len(),
        s[i] < '0' || s[i] > '9',
        i > 0 || s[i] != '+',
    ensures
        unsigned_value(s, max) is None,
{
    let d = unsigned_digits(s);
    if s[0] == '+' {
        assert(d[i - 1] == s[i]);
        assert(!digit(d[i - 1]));
    } else {
        assert(!digit(d[i]));
    }
}

/// A number is written without leading zeros: ten times a number, plus a digit, is
/// written as the number with that digit behind it.
pub proof fn decimals_have_no_leading_zeros(n: nat, d: nat)
    requires
        d < 10,
    ensures
        n > 0 ==> decimal(10 * n + d) == decimal(n).push((48 + d) as char),
        n > 0 ==> decimal(n)[0] != '0',
        decimal(d) == seq![(48 + d) as char],
    decreases n,
{
    if n > 0 {
        assert((10 * n + d) / 10 == n && (10 * n + d) % 10 == d);
        if n >= 10 {
            decimals_have_no_leading_zeros(n / 10, n % 10);
            assert(decimal(n / 10).len() > 0) by {
                lemma_decimal(n / 10);
            }
        }
    }
}

proof fn lemma_digit_run(s: Seq<char>, from: int)
    requires
        0 <= from <= s.len(),
    ensures
        from <= digit_run_end(s, from) <= s.len(),
        forall|i: int| from <= i < digit_run_end(s, from) ==> '0' <= #[trigger] s[i] <= '9',
        digit_run_end(s, from) < s.len() ==> !digit(s[digit_run_end(s, from)]),
    decreases s.len() - from,
{
    if from < s.len() && digit(s[from]) {
        lemma_digit_run(s, from + 1);
    }
}

proof fn lemma_digit_run_ends(s: Seq<char>, from: int, to: int)
    requires
        0 <= from <= to <= s.len(),
        forall|i: int| from <= i < to ==> '0' <= #[trigger] s[i] <= '9',
        to < s.len() ==> s[to] < '0' || s[to] > '9',
    ensures
        digit_run_end(s, from) == to,
    decreases to - from,
{
    if from < to {
        assert(digit(s[from]));
        lemma_digit_run_ends(s, from + 1, to);
    }
}

/// Digits with a point among them are the numeral of a floating-point number, with
/// or without a sign in front, unless there is no digit at all; so are digits
/// without a point.
pub proof fn digits_with_a_point_are_a_numeral(sgn: Seq<char>, a: Seq<char>, b: Seq<char>)
    requires
        sgn.len() == 0 || (sgn.len() == 1 && (sgn[0] == '+' || sgn[0] == '-')),
        forall|i: int| 0 <= i < a.len() ==> '0' <= #[trigger] a[i] <= '9',
        forall|i: int| 0 <= i < b.len() ==> '0' <= #[trigger] b[i] <= '9',
    ensures
        float_numeral(sgn + a + seq!['.'] + b) <==> a.len() + b.len() > 0,
        float_numeral(sgn + a) <==> a.len() > 0,
{
    let s = sgn + a + seq!['.'] + b;
    let p = sgn.len() as int;
    let n = p + a.len();
    assert(s[n] == '.');
    assert forall|i: int| p <= i < n implies '0' <= #[trigger] s[i] <= '9' by {
        assert(s[i] == a[i - p]);
    }
    assert forall|i: int| n < i < s.len() implies '0' <= #[trigger] s[i] <= '9' by {
        assert(s[i] == b[i - n - 1]);
    }
    if p == 0 {
        if a.len() > 0 {
            assert(s[0] == a[0]);
        }
    } else {
        assert(s[0] == sgn[0]);
    }
    assert(past_sign(s, 0) == p);
    lemma_digit_run_ends(s, p, n);
    lemma_digit_run_ends(s, n + 1, s.len() as int);
    lemma_no_word(s, p);
    let t = sgn + a;
    assert forall|i: int| p <= i < t.len() implies '0' <= #[trigger] t[i] <= '9' by {
        assert(t[i] == a[i - p]);
    }
    if p == 0 {
        if a.len() > 0 {
            assert(t[0] == a[0]);
        }
    } else {
        assert(t[0] == sgn[0]);
    }
    assert(past_sign(t, 0) == p);
    lemma_digit_run_ends(t, p, t.len() as int);
    lemma_no_word(t, p);
}

proof fn lemma_no_word(s: Seq<char>, p: int)
    requires
        0 <= p <= s.len(),
        p < s.len() ==> s[p] == '.' || '0' <= s[p] <= '9',
    ensures
        !spells(s, p, seq!['i', 'n', 'f']),
        !spells(s, p, seq!['i', 'n', 'f', 'i', 'n', 'i', 't', 'y']),
        !spells(s, p, seq!['n', 'a', 'n']),
{
    let inf = seq!['i', 'n', 'f'];
    let infinity = seq!['i', 'n', 'f', 'i', 'n', 'i', 't', 'y'];
    let nan = seq!['n', 'a', 'n'];
    assert(inf[0] == 'i' && infinity[0] == 'i' && nan[0] == 'n');
    if p < s.len() {
        assert(s[p + 0] == s[p]);
    }
}

/// An exponent is the letter e behind the digits, in either case, and at least one
/// digit, with or without a sign between them.
pub proof fn exponents_have_digits(a: Seq<char>, e: char, sgn: Seq<char>, b: Seq<char>)
    requires
        a.len() > 0,
        forall|i: int| 0 <= i < a.len() ==> '0' <= #[trigger] a[i] <= '9',
        forall|i: int| 0 <= i < b.len() ==> '0' <= #[trigger] b[i] <= '9',
        sgn.len() == 0 || (sgn.len() == 1 && (sgn[0] == '+' || sgn[0] == '-')),
        e != '.',
        e < '0' || e > '9',
    ensures
        float_numeral(a + seq![e] + sgn + b) <==> (e == 'e' || e == 'E') && b.len() > 0,
{
    let s = a + seq![e] + sgn + b;
    let n = a.len() as int;
    let m = n + 1 + sgn.len();
    assert(s[n] == e);
    assert(s[0] == a[0]);
    assert forall|i: int| 0 <= i < n implies '0' <= #[trigger] s[i] <= '9' by {
        assert(s[i] == a[i]);
    }
    assert forall|i: int| m <= i < s.len() implies '0' <= #[trigger] s[i] <= '9' by {
        assert(s[i] == b[i - m]);
    }
    lemma_no_word(s, 0);
    lemma_digit_run_ends(s, 0, n);
    lemma_digit_run_ends(s, m, s.len() as int);
    assert(past_sign(s, 0) == 0);
    if sgn.len() == 1 {
        assert(s[n + 1] == sgn[0]);
    } else if b.len() > 0 {
        assert(s[n + 1] == b[0]);
    }
    assert(past_sign(s, n + 1) == m);
}

/// A text that holds anything but digits, points, signs and letters is no numeral
/// of a floating-point number, and neither is an empty one.
pub proof fn numerals_hold_no_other_characters(s: Seq<char>, i: int)
    requires
        s.len() > 0 ==> 0 <= i < s.len() && !('0' <= s[i] <= '9') && s[i] != '.' && s[i] != '+'
            && s[i] != '-' && !('a' <= s[i] <= 'z') && !('A' <= s[i] <= 'Z'),
    ensures
        !float_numeral(s),
{
    let p = past_sign(s, 0);
    let inf = seq!['i', 'n', 'f'];
    let infinity = seq!['i', 'n', 'f', 'i', 'n', 'i', 't', 'y'];
    let nan = seq!['n', 'a', 'n'];
    if s.len() > 0 {
        lemma_digit_run(s, p);
        let a = digit_run_end(s, p);
        if spells(s, p, inf) {
            assert(s[p + (i - p)] == inf[i - p] || s[i] as int == inf[i - p] as int - 32);
        }
        if spells(s, p, infinity) {
            assert(s[p + (i - p)] == infinity[i - p] || s[i] as int == infinity[i - p] as int - 32);
        }
        if spells(s, p, nan) {
            assert(s[p + (i - p)] == nan[i - p] || s[i] as int == nan[i - p] as int - 32);
        }
        if a < s.len() && s[a] == '.' {
            lemma_digit_run(s, a + 1);
        }
        if let Some(e) = mantissa_end(s, p) {
            if e < s.len() {
                let q = past_sign(s, e + 1);
                if q <= s.len() {
                    lemma_digit_run(s, q);
                }
            }
        }
    }
}

/// Whether a character is a given letter, which is in lower case, in either case.
pub open spec fn either_case(c: char, lower: char) -> bool {
    c == lower || c as int + 32 == lower as int
}

/// A text of letters, with or without a sign in front, is the numeral of a
/// floating-point number exactly where the letters spell inf, infinity or nan, in
/// either case.
pub proof fn infinity_and_nan_are_numerals(sgn: Seq<char>, w: Seq<char>)
    requires
        sgn.len() == 0 || (sgn.len() == 1 && (sgn[0] == '+' || sgn[0] == '-')),
        w.len() > 0,
        forall|i: int|
            0 <= i < w.len() ==> 'a' <= #[trigger] w[i] <= 'z' || 'A' <= w[i] <= 'Z',
    ensures
        float_numeral(sgn + w) <==> {
            ||| w.len() == 3 && either_case(w[0], 'i') && either_case(w[1], 'n') && either_case(
                w[2],
                'f',
            )
            ||| w.len() == 3 && either_case(w[0], 'n') && either_case(w[1], 'a') && either_case(
                w[2],
                'n',
            )
            ||| w.len() == 8 && either_case(w[0], 'i') && either_case(w[1], 'n') && either_case(
                w[2],
                'f',
            ) && either_case(w[3], 'i') && either_case(w[4], 'n') && either_case(w[5], 'i')
                && either_case(w[6], 't') && either_case(w[7], 'y')
        },
{
    let s = sgn + w;
    let p = sgn.len() as int;
    let inf = seq!['i', 'n', 'f'];
    let infinity = seq!['i', 'n', 'f', 'i', 'n', 'i', 't', 'y'];
    let nan = seq!['n', 'a', 'n'];
    assert forall|i: int| 0 <= i < w.len() implies s[p + i] == #[trigger] w[i] by {}
    if p == 1 {
        assert(s[0] == sgn[0]);
    } else {
        assert(s[0] == w[0]);
    }
    assert(past_sign(s, 0) == p);
    assert(s[p] == w[0]);
    assert(digit_run_end(s, p) == p);
    assert(mantissa_end(s, p) is None);
    if spells(s, p, inf) {
        assert(inf[0] == 'i' && inf[1] == 'n' && inf[2] == 'f');
        assert(s[p + 0] == w[0] && s[p + 1] == w[1] && s[p + 2] == w[2]);
    }
    if spells(s, p, nan) {
        assert(nan[0] == 'n' && nan[1] == 'a' && nan[2] == 'n');
        assert(s[p + 0] == w[0] && s[p + 1] == w[1] && s[p + 2] == w[2]);
    }
    if spells(s, p, infinity) {
        assert(infinity[0] == 'i' && infinity[1] == 'n' && infinity[2] == 'f' && infinity[3] == 'i'
            && infinity[4] == 'n' && infinity[5] == 'i' && infinity[6] == 't' && infinity[7]
            == 'y');
        assert(s[p + 0] == w[0] && s[p + 1] == w[1] && s[p + 2] == w[2] && s[p + 3] == w[3]);
        assert(s[p + 4] == w[4] && s[p + 5] == w[5] && s[p + 6] == w[6] && s[p + 7] == w[7]);
    }
    if w.len() == 3 {
        assert(s[p + 0] == w[0] && s[p + 1] == w[1] && s[p + 2] == w[2]);
    }
    if w.len() == 8 {
        assert(s[p + 0] == w[0] && s[p + 1] == w[1] && s[p + 2] == w[2] && s[p + 3] == w[3]);
        assert(s[p + 4] == w[4] && s[p + 5] == w[5] && s[p + 6] == w[6] && s[p + 7] == w[7]);
    }
}

} // verus!
