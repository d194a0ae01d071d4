//! Text as sequences of characters: decimal numbers, ordering, trimming and concatenation.
use vstd::prelude::*;
use vstd::string::*;

verus! {

/// The texts of a sequence of strings.
pub open spec fn texts(strings: Seq<String>) -> Seq<Seq<char>> {
    strings.map_values(|s: String| s@)
}

/// The characters of a decimal digit.
pub open spec fn digit_char(digit: int) -> char {
    if digit == 0 {
        '0'
    } else if digit == 1 {
        '1'
    } else if digit == 2 {
        '2'
    } else if digit == 3 {
        '3'
    } else if digit == 4 {
        '4'
    } else if digit == 5 {
        '5'
    } else if digit == 6 {
        '6'
    } else if digit == 7 {
        '7'
    } else if digit == 8 {
        '8'
    } else {
        '9'
    }
}

/// Whether a character is one of `0` to `9`.
pub open spec fn is_digit(c: char) -> bool {
    '0' <= c <= '9'
}

/// The number that a digit stands for.
pub open spec fn digit_value(c: char) -> nat {
    (c as u32 - '0' as u32) as nat
}

/// A natural number in decimal notation, without leading zeros.
pub open spec fn digits(n: nat) -> Seq<char>
    decreases n,
{
    if n < 10 {
        seq![digit_char(n as int)]
    } else {
        digits(n / 10).push(digit_char((n % 10) as int))
    }
}

/// An integer in decimal notation: a `-` for a negative number, then its digits.
pub open spec fn decimal(v: int) -> Seq<char> {
    if v < 0 {
        seq!['-'] + digits((-v) as nat)
    } else {
        digits(v as nat)
    }
}

/// The number that a run of digits stands for; underscores between them do not count.
pub open spec fn digits_value(s: Seq<char>) -> nat
    decreases s.len(),
{
    if s.len() == 0 {
        0
    } else if s.last() == '_' {
        digits_value(s.drop_last())
    } else {
        digits_value(s.drop_last()) * 10 + digit_value(s.last())
    }
}

/// The text behind an optional sign.
pub open spec fn unsigned_part(s: Seq<char>) -> Seq<char> {
    if s.len() > 0 && (s[0] == '-' || s[0] == '+') {
        s.skip(1)
    } else {
        s
    }
}

/// The number that a text of an optional sign and digits stands for.
pub open spec fn signed_value(s: Seq<char>) -> int {
    if s.len() > 0 && s[0] == '-' {
        -(digits_value(unsigned_part(s)) as int)
    } else {
        digits_value(unsigned_part(s)) as int
    }
}

/// Whether a text consists of digits alone, at least one.
pub open spec fn all_digits(s: Seq<char>) -> bool {
    s.len() > 0 && forall|i: int| 0 <= i < s.len() ==> is_digit(#[trigger] s[i])
}

/// The 32-bit number that a text of an optional sign and digits stands for.
pub open spec fn int32_of(s: Seq<char>) -> Option<i32> {
    if all_digits(unsigned_part(s)) && i32::MIN <= signed_value(s) <= i32::MAX {
        Some(signed_value(s) as i32)
    } else {
        None
    }
}

/// Alphabetical order by character code: a proper prefix comes first.
pub open spec fn precedes(a: Seq<char>, b: Seq<char>) -> bool
    decreases a.len(),
{
    if b.len() == 0 {
        false
    } else if a.len() == 0 {
        true
    } else if a[0] == b[0] {
        precedes(a.skip(1), b.skip(1))
    } else {
        a[0] < b[0]
    }
}

/// A text without its trailing repetitions of one character.
pub open spec fn trim_end(s: Seq<char>, c: char) -> Seq<char>
    decreases s.len(),
{
    if s.len() > 0 && s.last() == c {
        trim_end(s.drop_last(), c)
    } else {
        s
    }
}

/// A text without its leading repetitions of one character.
pub open spec fn trim_start(s: Seq<char>, c: char) -> Seq<char>
    decreases s.len(),
{
    if s.len() > 0 && s[0] == c {
        trim_start(s.skip(1), c)
    } else {
        s
    }
}

/// No text precedes itself.
pub proof fn lemma_precedes_irreflexive(a: Seq<char>)
    ensures
        !precedes(a, a),
    decreases a.len(),
{
    if a.len() > 0 {
        lemma_precedes_irreflexive(a.skip(1));
    }
}

/// The order is transitive.
pub proof fn lemma_precedes_transitive(a: Seq<char>, b: Seq<char>, c: Seq<char>)
    requires
        precedes(a, b),
        precedes(b, c),
    ensures
        precedes(a, c),
    decreases a.len(),
{
    if a.len() > 0 && b.len() > 0 && c.len() > 0 && a[0] == b[0] && b[0] == c[0] {
        lemma_precedes_transitive(a.skip(1), b.skip(1), c.skip(1));
    }
}

/// Of two different texts one precedes the other.
pub proof fn lemma_precedes_total(a: Seq<char>, b: Seq<char>)
    ensures
        precedes(a, b) || precedes(b, a) || a == b,
    decreases a.len(),
{
    if a.len() > 0 && b.len() > 0 && a[0] == b[0] {
        lemma_precedes_total(a.skip(1), b.skip(1));
        if a.skip(1) == b.skip(1) {
            assert(a =~= seq![a[0]] + a.skip(1));
            assert(b =~= seq![b[0]] + b.skip(1));
        }
    } else if a.len() == 0 && b.len() == 0 {
        assert(a =~= b);
    }
}

/// Whether `a` comes before `b` in alphabetical order.
pub fn comes_before(a: &str, b: &str) -> (r: bool)
    ensures
        r == precedes(a@, b@),
{
    let la: usize = a.unicode_len();
    let lb: usize = b.unicode_len();
    let mut i: usize = 0;
    assert(a@.skip(0) =~= a@);
    assert(b@.skip(0) =~= b@);
    while i < la && i < lb
        invariant
            la == a@.len(),
            lb == b@.len(),
            i <= la,
            i <= lb,
            precedes(a@, b@) == precedes(a@.skip(i as int), b@.skip(i as int)),
        decreases la - i,
    {
        let x: char = a.get_char(i);
        let y: char = b.get_char(i);
        if x != y {
            return x < y;
        }
        assert(a@.skip(i as int).skip(1) =~= a@.skip(i + 1));
        assert(b@.skip(i as int).skip(1) =~= b@.skip(i + 1));
        i = i + 1;
    }
    i < lb
}

/// The text without its trailing repetitions of `c`.
pub fn trim_end_char<'a>(s: &'a str, c: char) -> (r: &'a str)
    ensures
        r@ == trim_end(s@, c),
        r@.len() <= s@.len(),
        r@ == s@.take(r@.len() as int),
        forall|i: int| r@.len() <= i < s@.len() ==> #[trigger] s@[i] == c,
        r@.len() > 0 ==> r@.last() != c,
{
    proof {
        law_trim_end(s@, c);
    }
    let mut end: usize = s.unicode_len();
    assert(s@.take(end as int) =~= s@);
    while end > 0 && s.get_char(end - 1) == c
        invariant
            end <= s@.len(),
            trim_end(s@, c) == trim_end(s@.take(end as int), c),
        decreases end,
    {
        assert(s@.take(end as int).drop_last() =~= s@.take(end - 1));
        end = end - 1;
    }
    assert(s@.subrange(0, end as int) =~= s@.take(end as int));
    s.substring_char(0, end)
}

/// The text without its leading repetitions of `c`.
pub fn trim_start_char<'a>(s: &'a str, c: char) -> (r: &'a str)
    ensures
        r@ == trim_start(s@, c),
        r@.len() <= s@.len(),
        r@ == s@.skip(s@.len() - r@.len()),
        forall|i: int| 0 <= i < s@.len() - r@.len() ==> #[trigger] s@[i] == c,
        r@.len() > 0 ==> r@[0] != c,
{
    proof {
        law_trim_start(s@, c);
    }
    let end: usize = s.unicode_len();
    let mut start: usize = 0;
    assert(s@.skip(0) =~= s@);
    while start < end && s.get_char(start) == c
        invariant
            start <= end,
            end == s@.len(),
            trim_start(s@, c) == trim_start(s@.skip(start as int), c),
        decreases end - start,
    {
        assert(s@.skip(start as int).skip(1) =~= s@.skip(start + 1));
        start = start + 1;
    }
    assert(s@.subrange(start as int, end as int) =~= s@.skip(start as int));
    s.substring_char(start, end)
}

/// The one-character text of a digit.
fn digit_text(d: u64) -> (r: &'static str)
    requires
        d < 10,
    ensures
        r@ == seq![digit_char(d as int)],
{
    proof {
        reveal_strlit("0");
        reveal_strlit("1");
        reveal_strlit("2");
        reveal_strlit("3");
        reveal_strlit("4");
        reveal_strlit("5");
        reveal_strlit("6");
        reveal_strlit("7");
        reveal_strlit("8");
        reveal_strlit("9");
    }
    if d == 0 {
        "0"
    } else if d == 1 {
        "1"
    } else if d == 2 {
        "2"
    } else if d == 3 {
        "3"
    } else if d == 4 {
        "4"
    } else if d == 5 {
        "5"
    } else if d == 6 {
        "6"
    } else if d == 7 {
        "7"
    } else if d == 8 {
        "8"
    } else {
        "9"
    }
}

/// The decimal digits of a number.
pub fn digits_text(n: u64) -> (r: String)
    ensures
        r@ == digits(n as nat),
    decreases n,
{
    if n < 10 {
        digit_text(n).to_owned()
    } else {
        let mut r: String = digits_text(n / 10);
        r.append(digit_text(n % 10));
        r
    }
}

/// A 32-bit number in decimal notation.
pub fn int32_text(v: i32) -> (r: String)
    ensures
        r@ == decimal(v as int),
{
    if v < 0 {
        proof {
            reveal_strlit("-");
        }
        let magnitude: u64 = (-(v as i64)) as u64;
        let mut r: String = "-".to_owned();
        r.append(digits_text(magnitude).as_str());
        assert(r@ =~= seq!['-'] + digits((-(v as int)) as nat));
        r
    } else {
        digits_text(v as u64)
    }
}

/// What the error says with which a text is refused that is no 32-bit number.
pub uninterp spec fn int32_refusal(s: Seq<char>) -> Seq<char>;

/// Calls `str::parse::<i32>`. Trusted: the standard library reads an optional `+` or `-`
/// followed by decimal digits only, and refuses every other text and every number that does not
/// fit 32 bits. What its error says depends on the text alone; the words are not stated here.
#[verifier::external_body]
pub(crate) fn parse_int32(s: &str) -> (r: Result<i32, String>)
    ensures
        match int32_of(s@) {
            Some(v) => r == Ok::<i32, String>(v),
            None => r is Err && r->Err_0@ == int32_refusal(s@),
        },
{
    s.parse::<i32>().map_err(|e| e.to_string())
}

/// Decimal notation is read back as the number it was written for: no digit is lost, no sign is
/// changed.
pub proof fn lemma_digits_read_back(n: nat)
    ensures
        all_digits(digits(n)),
        digits_value(digits(n)) == n,
    decreases n,
{
    if n >= 10 {
        lemma_digits_read_back(n / 10);
        let shorter = digits(n / 10);
        let d = digit_char((n % 10) as int);
        assert(digits(n) == shorter.push(d));
        assert(shorter.push(d).drop_last() =~= shorter);
        assert(digit_value(d) == n % 10);
        assert forall|i: int| 0 <= i < shorter.push(d).len() implies is_digit(
            #[trigger] shorter.push(d)[i],
        ) by {
            if i < shorter.len() {
                assert(shorter.push(d)[i] == shorter[i]);
            }
        }
    } else {
        let s = seq![digit_char(n as int)];
        assert(s.drop_last() =~= Seq::<char>::empty());
        assert(digits_value(s.drop_last()) == 0);
        assert(digit_value(s.last()) == n);
    }
}

/// Trimming the end takes off repetitions of the character and nothing else, and leaves none.
pub proof fn law_trim_end(s: Seq<char>, c: char)
    ensures
        ({
            let kept = trim_end(s, c);
            &&& kept.len() <= s.len()
            &&& kept == s.take(kept.len() as int)
            &&& forall|i: int| kept.len() <= i < s.len() ==> #[trigger] s[i] == c
            &&& kept.len() > 0 ==> kept.last() != c
        }),
    decreases s.len(),
{
    if s.len() > 0 && s.last() == c {
        law_trim_end(s.drop_last(), c);
        let kept = trim_end(s, c);
        assert(s.take(kept.len() as int) =~= s.drop_last().take(kept.len() as int));
        assert forall|i: int| kept.len() <= i < s.len() implies #[trigger] s[i] == c by {
            if i < s.len() - 1 {
                assert(s.drop_last()[i] == s[i]);
            }
        }
    } else {
        assert(s.take(s.len() as int) =~= s);
    }
}

/// Trimming the start takes off repetitions of the character and nothing else, and leaves none.
pub proof fn law_trim_start(s: Seq<char>, c: char)
    ensures
        ({
            let kept = trim_start(s, c);
            &&& kept.len() <= s.len()
            &&& kept == s.skip(s.len() - kept.len())
            &&& forall|i: int| 0 <= i < s.len() - kept.len() ==> #[trigger] s[i] == c
            &&& kept.len() > 0 ==> kept[0] != c
        }),
    decreases s.len(),
{
    if s.len() > 0 && s[0] == c {
        let rest = s.skip(1);
        law_trim_start(rest, c);
        let kept = trim_start(s, c);
        assert(s.skip(s.len() - kept.len()) =~= rest.skip(rest.len() - kept.len()));
        assert forall|i: int| 0 <= i < s.len() - kept.len() implies #[trigger] s[i] == c by {
            if i > 0 {
                assert(rest[i - 1] == s[i]);
            }
        }
    } else {
        assert(s.skip(0) =~= s);
    }
}

/// A text that does not end with a character is what is left of it and any repetitions behind it.
pub proof fn lemma_trim_end_run(s: Seq<char>, run: Seq<char>, c: char)
    requires
        s.len() > 0 ==> s.last() != c,
        forall|i: int| 0 <= i < run.len() ==> #[trigger] run[i] == c,
    ensures
        trim_end(s + run, c) == s,
    decreases run.len(),
{
    if run.len() > 0 {
        assert((s + run).last() == run.last());
        assert((s + run).drop_last() =~= s + run.drop_last());
        lemma_trim_end_run(s, run.drop_last(), c);
    } else {
        assert(s + run =~= s);
    }
}

/// A text that does not begin with a character is what is left of it behind one of them.
pub proof fn lemma_trim_start_one(s: Seq<char>, c: char)
    requires
        s.len() > 0 ==> s[0] != c,
    ensures
        trim_start(seq![c] + s, c) == s,
{
    assert((seq![c] + s).skip(1) =~= s);
    reveal_with_fuel(trim_start, 2);
}

/// A text that does not begin with a character is what is left of it behind any repetitions.
pub proof fn lemma_trim_start_run(run: Seq<char>, s: Seq<char>, c: char)
    requires
        s.len() > 0 ==> s[0] != c,
        forall|i: int| 0 <= i < run.len() ==> #[trigger] run[i] == c,
    ensures
        trim_start(run + s, c) == s,
    decreases run.len(),
{
    if run.len() > 0 {
        assert((run + s)[0] == run[0]);
        assert((run + s).skip(1) =~= run.skip(1) + s);
        lemma_trim_start_run(run.skip(1), s, c);
    } else {
        assert(run + s =~= s);
    }
}

/// The decimal notation of an integer is not empty; it is a `-` and digits for a negative number,
/// and digits alone for any other one.
pub proof fn lemma_decimal_chars(v: int)
    ensures
        decimal(v).len() > 0,
        forall|i: int|
            0 <= i < decimal(v).len() ==> is_digit(#[trigger] decimal(v)[i]) || (i == 0
                && decimal(v)[i] == '-' && v < 0),
        is_digit(decimal(v).last()),
{
    let n = if v < 0 {
        (-v) as nat
    } else {
        v as nat
    };
    lemma_digits_read_back(n);
    assert(all_digits(digits(n)));
    assert(decimal(v).last() == digits(n).last());
    assert(is_digit(digits(n)[digits(n).len() - 1]));
    if v < 0 {
        assert forall|i: int| 0 <= i < decimal(v).len() implies is_digit(#[trigger] decimal(v)[i])
            || (i == 0 && decimal(v)[i] == '-') by {
            if i > 0 {
                assert(decimal(v)[i] == digits(n)[i - 1]);
            }
        }
    }
}

/// A 32-bit number is read back from its decimal notation.
pub proof fn law_int32_text_read_back(v: i32)
    ensures
        int32_of(decimal(v as int)) == Some(v),
{
    let n = if v < 0 {
        (-v) as nat
    } else {
        v as nat
    };
    lemma_digits_read_back(n);
    let s = decimal(v as int);
    if v < 0 {
        assert(unsigned_part(s) =~= digits(n));
    } else {
        assert(is_digit(digits(n)[0]));
        assert(unsigned_part(s) == digits(n));
    }
}

/// Alphabetical order goes by the first character in which two texts differ, and the shorter text
/// comes first where they do not differ.
pub proof fn law_alphabetical_order(common: Seq<char>, a: Seq<char>, b: Seq<char>)
    ensures
        a.len() > 0 && b.len() > 0 && a[0] != b[0] ==> precedes(common + a, common + b) == (a[0]
            < b[0]),
        a.len() == 0 ==> precedes(common + a, common + b) == (b.len() > 0),
        b.len() == 0 ==> !precedes(common + a, common + b),
    decreases common.len(),
{
    if common.len() > 0 {
        let rest = common.skip(1);
        assert((common + a).skip(1) =~= rest + a);
        assert((common + b).skip(1) =~= rest + b);
        law_alphabetical_order(rest, a, b);
    } else {
        assert(common + a =~= a);
        assert(common + b =~= b);
    }
}

/// The digits of a number other than zero do not begin with a zero, and the last one is the rest of
/// a division by ten.
pub proof fn law_digits_have_no_leading_zero(n: nat)
    ensures
        n > 0 ==> digits(n)[0] != '0',
        digits(n).len() == 1 <==> n < 10,
        digit_value(digits(n).last()) == n % 10,
        n >= 10 ==> digits(n).drop_last() == digits(n / 10),
    decreases n,
{
    if n >= 10 {
        law_digits_have_no_leading_zero(n / 10);
        assert(digits(n)[0] == digits(n / 10)[0]);
        assert(digits(n).drop_last() =~= digits(n / 10));
    }
}

} // verus!
