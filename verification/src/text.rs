//! Text as sequences of characters: searching, trimming and comparing.
//!
//! Every function here is stated over the view of a string, its sequence of
//! `char`s. Two strings hold the same bytes exactly when they hold the same
//! characters, so a prefix or an occurrence found character by character is
//! the one a byte-wise search finds.

use vstd::prelude::*;
use vstd::std_specs::iter::IteratorSpec;
use vstd::string::StringExecFns;

verus! {

/// The value of an optional string.
pub open spec fn text_of(s: Option<String>) -> Option<Seq<char>> {
    match s {
        Some(s) => Some(s@),
        None => None,
    }
}

/// Whether `c` has the Unicode property `White_Space`.
pub open spec fn white_space(c: char) -> bool {
    let u = c as u32;
    ||| 0x09 <= u <= 0x0D
    ||| u == 0x20
    ||| u == 0x85
    ||| u == 0xA0
    ||| u == 0x1680
    ||| 0x2000 <= u <= 0x200A
    ||| u == 0x2028
    ||| u == 0x2029
    ||| u == 0x202F
    ||| u == 0x205F
    ||| u == 0x3000
}

/// Whether `pattern` stands in `text` at position `at`.
pub open spec fn occurs_at(text: Seq<char>, pattern: Seq<char>, at: int) -> bool {
    &&& 0 <= at
    &&& at + pattern.len() <= text.len()
    &&& text.subrange(at, at + pattern.len()) == pattern
}

/// Whether `pattern` stands anywhere in `text`.
pub open spec fn occurs(text: Seq<char>, pattern: Seq<char>) -> bool {
    exists|at: int| occurs_at(text, pattern, at)
}

/// Whether `at` is the leftmost position at which `pattern` stands in `text`.
pub open spec fn is_first_occurrence(text: Seq<char>, pattern: Seq<char>, at: int) -> bool {
    &&& occurs_at(text, pattern, at)
    &&& forall|before: int| 0 <= before < at ==> !occurs_at(text, pattern, before)
}

/// The leftmost position at which `pattern` stands in `text`, where it stands
/// there at all.
pub open spec fn first_occurrence(text: Seq<char>, pattern: Seq<char>) -> int {
    choose|at: int| is_first_occurrence(text, pattern, at)
}

/// A class of characters, by which a text is cut into runs.
#[derive(Clone, Copy, Debug, PartialEq, Eq, Structural)]
pub enum CharClass {
    /// White space.
    Space,
    /// Everything but white space: what a field is made of.
    Word,
    /// Everything but the line feed: what a line is made of.
    Line,
}

/// Whether `c` is of the class `class`.
pub open spec fn in_class(c: char, class: CharClass) -> bool {
    match class {
        CharClass::Space => white_space(c),
        CharClass::Word => !white_space(c),
        CharClass::Line => c != '\n',
    }
}

/// Whether the first `n` characters of `s` are of the class `class` and the
/// next one, if there is one, is not.
pub open spec fn is_run(s: Seq<char>, class: CharClass, n: int) -> bool {
    &&& 0 <= n <= s.len()
    &&& forall|i: int| 0 <= i < n ==> in_class(#[trigger] s[i], class)
    &&& n < s.len() ==> !in_class(s[n], class)
}

/// How many characters of the class `class` the text `s` begins with.
pub open spec fn run_len(s: Seq<char>, class: CharClass) -> nat
    decreases s.len(),
{
    if s.len() > 0 && in_class(s[0], class) {
        1 + run_len(s.drop_first(), class)
    } else {
        0
    }
}

/// `s` without the white space it begins with.
pub open spec fn trim_start_of(s: Seq<char>) -> Seq<char> {
    s.skip(run_len(s, CharClass::Space) as int)
}

/// `run_len` is the length of the run that `s` begins with.
pub proof fn lemma_run_len(s: Seq<char>, class: CharClass)
    ensures
        is_run(s, class, run_len(s, class) as int),
    decreases s.len(),
{
    if s.len() > 0 && in_class(s[0], class) {
        let rest = s.drop_first();
        lemma_run_len(rest, class);
        let n = run_len(s, class) as int;
        assert forall|i: int| 0 <= i < n implies in_class(#[trigger] s[i], class) by {
            if i > 0 {
                assert(rest[i - 1] == s[i]);
            }
        }
        if n < s.len() {
            assert(rest[n - 1] == s[n]);
        }
    }
}

/// A text begins with one run of a class only.
pub proof fn lemma_run_is_unique(s: Seq<char>, class: CharClass, n: int)
    requires
        is_run(s, class, n),
    ensures
        run_len(s, class) == n,
{
    lemma_run_len(s, class);
    let m = run_len(s, class) as int;
    if m < n {
        assert(in_class(s[m], class));
    } else if n < m {
        assert(in_class(s[n], class));
    }
}

/// A leftmost occurrence is the one `first_occurrence` names.
pub proof fn lemma_first_occurrence(text: Seq<char>, pattern: Seq<char>, at: int)
    requires
        is_first_occurrence(text, pattern, at),
    ensures
        occurs(text, pattern),
        first_occurrence(text, pattern) == at,
{
    let chosen = first_occurrence(text, pattern);
    assert(is_first_occurrence(text, pattern, chosen));
    if chosen < at {
        assert(!occurs_at(text, pattern, chosen));
    } else if at < chosen {
        assert(!occurs_at(text, pattern, at));
    }
}

/// Tells whether `c` is white space.
pub fn is_whitespace(c: char) -> (r: bool)
    ensures
        r == white_space(c),
{
    let u: u32 = c as u32;
    (0x09 <= u && u <= 0x0D) || u == 0x20 || u == 0x85 || u == 0xA0 || u == 0x1680 || (0x2000 <= u
        && u <= 0x200A) || u == 0x2028 || u == 0x2029 || u == 0x202F || u == 0x205F || u == 0x3000
}

/// The characters of `s`, in order.
pub fn to_chars(s: &str) -> (v: Vec<char>)
    ensures
        v@ == s@,
{
    let mut v: Vec<char> = Vec::new();
    let chars = s.chars();
    proof {
        broadcast use vstd::string::axiom_spec_iter;

        assert(chars.remaining() == s@);
    }
    for c in it: chars
        invariant
            it.seq() == s@,
            v@ == s@.take(it.index()),
    {
        v.push(c);
    }
    assert(v@ == s@);
    v
}

/// Tells whether `pattern` stands in `text` at position `at`.
pub fn matches_at(text: &Vec<char>, pattern: &Vec<char>, at: usize) -> (r: bool)
    ensures
        r == occurs_at(text@, pattern@, at as int),
{
    let m = pattern.len();
    if at > text.len() || m > text.len() - at {
        return false;
    }
    let mut k: usize = 0;
    while k < m
        invariant
            k <= m,
            m == pattern.len(),
            at + m <= text.len(),
            forall|j: int| 0 <= j < k ==> text@[at + j] == pattern@[j],
        decreases m - k,
    {
        if text[at + k] != pattern[k] {
            assert(text@.subrange(at as int, at + m)[k as int] == text@[at + k]);
            return false;
        }
        k += 1;
    }
    assert(text@.subrange(at as int, at + m) =~= pattern@);
    true
}

/// Tells whether `text` begins with `pattern`.
pub fn starts_with(text: &Vec<char>, pattern: &Vec<char>) -> (r: bool)
    ensures
        r == pattern@.is_prefix_of(text@),
{
    if pattern.len() > text.len() {
        false
    } else {
        matches_at(text, pattern, 0)
    }
}

/// Tells whether `a` and `b` hold the same characters.
pub fn same_chars(a: &Vec<char>, b: &Vec<char>) -> (r: bool)
    ensures
        r == (a@ == b@),
{
    if a.len() != b.len() {
        false
    } else {
        let r = matches_at(a, b, 0);
        assert(a@.subrange(0, a@.len() as int) =~= a@);
        r
    }
}

/// Tells whether two strings hold the same text.
pub fn same_text(a: &str, b: &str) -> (r: bool)
    ensures
        r == (a@ == b@),
{
    let a_chars = to_chars(a);
    let b_chars = to_chars(b);
    same_chars(&a_chars, &b_chars)
}

/// Finds the leftmost position at which `pattern` stands in `text`.
///
/// An empty pattern stands at position 0 of every text.
pub fn find(text: &Vec<char>, pattern: &Vec<char>) -> (r: Option<usize>)
    ensures
        r is Some <==> occurs(text@, pattern@),
        r matches Some(at) ==> at as int == first_occurrence(text@, pattern@) && at
            + pattern@.len() <= text@.len(),
{
    let n = text.len();
    let m = pattern.len();
    if m > n {
        return None;
    }
    let last = n - m;
    let mut at: usize = 0;
    while at < last
        invariant
            n == text.len(),
            m == pattern.len(),
            last == n - m,
            at <= last,
            forall|before: int| 0 <= before < at ==> !occurs_at(text@, pattern@, before),
        decreases last - at,
    {
        if matches_at(text, pattern, at) {
            proof {
                lemma_first_occurrence(text@, pattern@, at as int);
            }
            return Some(at);
        }
        at += 1;
    }
    if matches_at(text, pattern, at) {
        proof {
            lemma_first_occurrence(text@, pattern@, at as int);
        }
        Some(at)
    } else {
        None
    }
}

/// Tells whether `c` is of the class `class`.
pub fn is_in_class(c: char, class: CharClass) -> (r: bool)
    ensures
        r == in_class(c, class),
{
    match class {
        CharClass::Space => is_whitespace(c),
        CharClass::Word => !is_whitespace(c),
        CharClass::Line => c != '\n',
    }
}

/// Counts the characters of the class `class` that `text` holds from position
/// `from` on, up to the first character that is not of the class or up to `to`.
pub(crate) fn count_run(text: &Vec<char>, from: usize, to: usize, class: CharClass) -> (n: usize)
    requires
        from <= to <= text.len(),
    ensures
        n == run_len(text@.subrange(from as int, to as int), class),
        from + n <= to,
{
    let ghost s = text@.subrange(from as int, to as int);
    let mut n: usize = 0;
    while from + n < to && is_in_class(text[from + n], class)
        invariant
            from + n <= to,
            to <= text.len(),
            s == text@.subrange(from as int, to as int),
            forall|i: int| 0 <= i < n ==> in_class(#[trigger] s[i], class),
        decreases to - from - n,
    {
        n += 1;
    }
    proof {
        if n < s.len() {
            assert(s[n as int] == text@[from + n]);
        }
        lemma_run_is_unique(s, class, n as int);
    }
    n
}

/// Appends the given character to the end of the string: the specification of
/// `String::push`, which the standard library documents in these words.
pub assume_specification[ String::push ](s: &mut String, ch: char)
    ensures
        final(s)@ == old(s)@.push(ch),
;

/// The text made of the characters of `chars` from position `from` up to `to`.
pub(crate) fn text_between(chars: &Vec<char>, from: usize, to: usize) -> (s: String)
    requires
        from <= to <= chars.len(),
    ensures
        s@ == chars@.subrange(from as int, to as int),
{
    let mut s = String::new();
    let mut at: usize = from;
    while at < to
        invariant
            from <= at <= to,
            to <= chars.len(),
            s@ == chars@.subrange(from as int, at as int),
        decreases to - at,
    {
        s.push(chars[at]);
        at += 1;
        assert(s@ =~= chars@.subrange(from as int, at as int));
    }
    s
}

/// The character that writes the decimal digit `d`.
pub open spec fn digit_char(d: int) -> char {
    if d == 0 {
        '0'
    } else if d == 1 {
        '1'
    } else if d == 2 {
        '2'
    } else if d == 3 {
        '3'
    } else if d == 4 {
        '4'
    } else if d == 5 {
        '5'
    } else if d == 6 {
        '6'
    } else if d == 7 {
        '7'
    } else if d == 8 {
        '8'
    } else {
        '9'
    }
}

/// A natural number written in decimal, without leading zeros.
pub open spec fn decimal_of_nat(n: nat) -> Seq<char>
    decreases n,
{
    if n < 10 {
        seq![digit_char(n as int)]
    } else {
        decimal_of_nat(n / 10).push(digit_char((n % 10) as int))
    }
}

/// An integer written in decimal, with a minus sign where it is negative.
pub open spec fn decimal_of(n: int) -> Seq<char> {
    if n < 0 {
        seq!['-'] + decimal_of_nat((-n) as nat)
    } else {
        decimal_of_nat(n as nat)
    }
}

/// Whether `c` is one of the ten ASCII digits.
pub open spec fn is_digit(c: char) -> bool {
    48 <= c as u32 <= 57
}

/// The number that the digit `c` stands for.
pub open spec fn digit_value(c: char) -> int {
    c as u32 - 48
}

/// Whether `s` holds ASCII digits only.
pub open spec fn all_digits(s: Seq<char>) -> bool {
    forall|i: int| 0 <= i < s.len() ==> is_digit(#[trigger] s[i])
}

/// The number that the digits of `s` write in decimal; 0 for no digits.
pub open spec fn decimal_value(s: Seq<char>) -> nat
    decreases s.len(),
{
    if s.len() == 0 {
        0
    } else {
        (decimal_value(s.drop_last()) * 10 + digit_value(s.last())) as nat
    }
}

/// The number that `s` writes, where `s` is one digit or more and the number
/// is no greater than `limit`.
pub open spec fn decimal_up_to(s: Seq<char>, limit: nat) -> Option<nat> {
    if s.len() > 0 && all_digits(s) && decimal_value(s) <= limit {
        Some(decimal_value(s))
    } else {
        None
    }
}

/// The digits read so far never write more than all of them do.
pub proof fn lemma_decimal_value_grows(s: Seq<char>, k: int)
    requires
        all_digits(s),
        0 <= k <= s.len(),
    ensures
        decimal_value(s.take(k)) <= decimal_value(s),
    decreases s.len() - k,
{
    if k == s.len() {
        assert(s.take(k) =~= s);
    } else {
        let longer = s.take(k + 1);
        assert(longer.drop_last() =~= s.take(k));
        assert(longer.last() == s[k]);
        assert(is_digit(s[k]));
        lemma_decimal_value_grows(s, k + 1);
    }
}

/// The one-character text of the decimal digit `d`.
fn digit_text(d: u64) -> (s: &'static str)
    requires
        d < 10,
    ensures
        s@ == seq![digit_char(d as int)],
{
    proof {
        reveal_strlit("0");
        reveal_strlit("1");
        reveal_strlit("2");
        reveal_strlit("3");
        reveal_strlit("4");
        reveal_strlit("5");
        reveal_strlit("6");
        reveal_strlit("7");
        reveal_strlit("8");
        reveal_strlit("9");
    }
    let s = if d == 0 {
        "0"
    } else if d == 1 {
        "1"
    } else if d == 2 {
        "2"
    } else if d == 3 {
        "3"
    } else if d == 4 {
        "4"
    } else if d == 5 {
        "5"
    } else if d == 6 {
        "6"
    } else if d == 7 {
        "7"
    } else if d == 8 {
        "8"
    } else {
        "9"
    };
    assert(s@ =~= seq![digit_char(d as int)]);
    s
}

/// Writes `n` in decimal at the end of `out`.
pub fn append_decimal_nat(out: &mut String, n: u64)
    ensures
        final(out)@ == old(out)@ + decimal_of_nat(n as nat),
    decreases n,
{
    if n >= 10 {
        append_decimal_nat(out, n / 10);
    }
    out.append(digit_text(n % 10));
    assert(final(out)@ =~= old(out)@ + decimal_of_nat(n as nat));
}

/// Writes `n` in decimal at the end of `out`, with a minus sign where `n` is
/// negative.
pub fn append_decimal(out: &mut String, n: i64)
    ensures
        final(out)@ == old(out)@ + decimal_of(n as int),
{
    if n < 0 {
        out.append("-");
        let magnitude: u64 = (-(n + 1)) as u64 + 1;
        append_decimal_nat(out, magnitude);
        proof {
            reveal_strlit("-");
            assert("-"@ =~= seq!['-']);
            assert(final(out)@ =~= old(out)@ + decimal_of(n as int));
        }
    } else {
        append_decimal_nat(out, n as u64);
    }
}

/// `n` written in decimal.
pub fn decimal(n: i64) -> (s: String)
    ensures
        s@ == decimal_of(n as int),
{
    let mut s = String::new();
    append_decimal(&mut s, n);
    assert(s@ =~= decimal_of(n as int));
    s
}

/// Reads the characters of `text` from `from` up to `to` as a decimal number.
///
/// The result is the number where the range holds one ASCII digit or more and
/// nothing else, and they write a number that is no greater than `limit`;
/// otherwise none. Leading zeros are read like any digit.
pub(crate) fn parse_decimal(text: &Vec<char>, from: usize, to: usize, limit: u32) -> (r: Option<u32>)
    requires
        from <= to <= text.len(),
    ensures
        match r {
            Some(n) => decimal_up_to(text@.subrange(from as int, to as int), limit as nat) == Some(
                n as nat,
            ),
            None => decimal_up_to(text@.subrange(from as int, to as int), limit as nat) is None,
        },
{
    let ghost digits = text@.subrange(from as int, to as int);
    if from == to {
        return None;
    }
    let mut value: u64 = 0;
    let mut at: usize = from;
    while at < to
        invariant
            from <= at <= to,
            to <= text.len(),
            digits == text@.subrange(from as int, to as int),
            all_digits(digits.take(at - from)),
            value == decimal_value(digits.take(at - from)),
            value <= limit,
        decreases to - at,
    {
        let c = text[at];
        let code: u32 = c as u32;
        if code < 48 || code > 57 {
            assert(!is_digit(digits[at - from]));
            return None;
        }
        let ghost longer = digits.take(at - from + 1);
        proof {
            assert(longer.drop_last() =~= digits.take(at - from));
            assert(longer.last() == c);
            assert forall|i: int| 0 <= i < longer.len() implies is_digit(#[trigger] longer[i]) by {
                if i < at - from {
                    assert(digits.take(at - from)[i] == longer[i]);
                }
            }
        }
        value = value * 10 + (code - 48) as u64;
        if value > limit as u64 {
            proof {
                if all_digits(digits) {
                    lemma_decimal_value_grows(digits, at - from + 1);
                }
            }
            return None;
        }
        at += 1;
    }
    assert(digits.take(at - from) =~= digits);
    Some(value as u32)
}

/// Whether a line of `text` begins at position `at`: at the first character,
/// or after a line feed.
pub open spec fn is_line_start(text: Seq<char>, at: int) -> bool {
    &&& 0 <= at <= text.len()
    &&& at == 0 || text[at - 1] == '\n'
}

/// The line of `text` that begins at position `at`, without its line feed.
pub open spec fn line_at(text: Seq<char>, at: int) -> Seq<char> {
    let rest = text.skip(at);
    rest.take(run_len(rest, CharClass::Line) as int)
}

/// Whether `at` is where the first line of `text` begins that begins with
/// `prefix`.
pub open spec fn is_first_line_with(text: Seq<char>, prefix: Seq<char>, at: int) -> bool {
    &&& is_line_start(text, at)
    &&& prefix.is_prefix_of(line_at(text, at))
    &&& forall|before: int|
        0 <= before < at && is_line_start(text, before) ==> !prefix.is_prefix_of(
            #[trigger] line_at(text, before),
        )
}

/// Whether a line of `text` begins with `prefix`.
pub open spec fn has_line_with(text: Seq<char>, prefix: Seq<char>) -> bool {
    exists|at: int| is_first_line_with(text, prefix, at)
}

/// Where the first line of `text` begins that begins with `prefix`, where
/// there is such a line.
pub open spec fn first_line_with(text: Seq<char>, prefix: Seq<char>) -> int {
    choose|at: int| is_first_line_with(text, prefix, at)
}

/// A first line with a prefix is the one `first_line_with` names.
pub proof fn lemma_first_line_with(text: Seq<char>, prefix: Seq<char>, at: int)
    requires
        is_first_line_with(text, prefix, at),
    ensures
        has_line_with(text, prefix),
        first_line_with(text, prefix) == at,
{
    let chosen = first_line_with(text, prefix);
    assert(is_first_line_with(text, prefix, chosen));
    if chosen < at {
        assert(!prefix.is_prefix_of(line_at(text, chosen)));
    } else if at < chosen {
        assert(!prefix.is_prefix_of(line_at(text, at)));
    }
}

/// Field `k` of `s`, counted from 0: the fields of a text are its runs of
/// characters that are no white space. None where `s` has no more than `k`
/// fields.
pub open spec fn field_of(s: Seq<char>, k: nat) -> Option<Seq<char>>
    decreases s.len(),
{
    let rest = s.skip(run_len(s, CharClass::Space) as int);
    let n = run_len(rest, CharClass::Word) as int;
    if n == 0 {
        None
    } else if k == 0 {
        Some(rest.take(n))
    } else {
        proof {
            lemma_run_len(s, CharClass::Space);
            lemma_run_len(rest, CharClass::Word);
        }
        field_of(rest.skip(n), (k - 1) as nat)
    }
}

/// Finds the first line of `text` that begins with `prefix`, and says where it
/// begins and where it ends.
pub fn find_line_with(text: &Vec<char>, prefix: &Vec<char>) -> (r: Option<(usize, usize)>)
    ensures
        r is Some <==> has_line_with(text@, prefix@),
        r matches Some((start, end)) ==> start <= end <= text.len() && start == first_line_with(
            text@,
            prefix@,
        ) && text@.subrange(start as int, end as int) == line_at(text@, start as int),
{
    let n = text.len();
    let m = prefix.len();
    let mut start: usize = 0;
    loop
        invariant
            n == text.len(),
            m == prefix.len(),
            is_line_start(text@, start as int),
            forall|before: int|
                0 <= before < start && is_line_start(text@, before) ==> !prefix@.is_prefix_of(
                    #[trigger] line_at(text@, before),
                ),
        decreases n - start,
    {
        let len = count_run(text, start, n, CharClass::Line);
        let end = start + len;
        let ghost rest = text@.skip(start as int);
        let ghost line = line_at(text@, start as int);
        proof {
            assert(text@.subrange(start as int, n as int) =~= rest);
            lemma_run_len(rest, CharClass::Line);
            assert(line =~= text@.subrange(start as int, end as int));
        }
        if m <= len && matches_at(text, prefix, start) {
            proof {
                assert(line.subrange(0, m as int) =~= text@.subrange(start as int, start + m));
                lemma_first_line_with(text@, prefix@, start as int);
            }
            return Some((start, end));
        }
        proof {
            if m <= len {
                assert(line.subrange(0, m as int) =~= text@.subrange(start as int, start + m));
            }
            assert(!prefix@.is_prefix_of(line));
            assert forall|at: int| start < at <= end implies !is_line_start(text@, at) by {
                assert(rest[at - 1 - start] == text@[at - 1]);
                assert(in_class(rest[at - 1 - start], CharClass::Line));
            }
        }
        if end == n {
            proof {
                assert forall|at: int| !is_first_line_with(text@, prefix@, at) by {
                    if is_line_start(text@, at) && at != start {
                        assert(at < start);
                    }
                }
            }
            return None;
        }
        proof {
            assert(rest[len as int] == text@[end as int]);
        }
        start = end + 1;
    }
}

/// Finds field `k` of the characters of `text` from `from` up to `to`, and
/// says where it begins and where it ends.
pub(crate) fn find_field(text: &Vec<char>, from: usize, to: usize, k: usize) -> (r: Option<(usize, usize)>)
    requires
        from <= to <= text.len(),
    ensures
        match r {
            Some((start, end)) => from <= start <= end <= to && field_of(
                text@.subrange(from as int, to as int),
                k as nat,
            ) == Some(text@.subrange(start as int, end as int)),
            None => field_of(text@.subrange(from as int, to as int), k as nat) is None,
        },
{
    let ghost whole = text@.subrange(from as int, to as int);
    let mut at: usize = from;
    let mut left: usize = k;
    loop
        invariant
            from <= at <= to,
            to <= text.len(),
            whole == text@.subrange(from as int, to as int),
            field_of(whole, k as nat) == field_of(text@.subrange(at as int, to as int), left as nat),
        decreases to - at,
    {
        let ghost s = text@.subrange(at as int, to as int);
        let spaces = count_run(text, at, to, CharClass::Space);
        let start = at + spaces;
        let ghost rest = s.skip(spaces as int);
        assert(rest =~= text@.subrange(start as int, to as int));
        let n = count_run(text, start, to, CharClass::Word);
        if n == 0 {
            return None;
        }
        if left == 0 {
            assert(rest.take(n as int) =~= text@.subrange(start as int, start + n));
            return Some((start, start + n));
        }
        assert(rest.skip(n as int) =~= text@.subrange(start + n, to as int));
        left -= 1;
        at = start + n;
    }
}

/// The number that `s` writes: decimal digits, after a plus sign or after
/// none, that write a number no greater than the greatest `u32`.
pub open spec fn unsigned_of(s: Seq<char>) -> Option<u32> {
    let digits = if s.len() > 0 && s[0] == '+' {
        s.skip(1)
    } else {
        s
    };
    match decimal_up_to(digits, u32::MAX as nat) {
        Some(n) => Some(n as u32),
        None => None,
    }
}

/// Reads the characters of `text` from `from` up to `to` as an unsigned number.
pub(crate) fn parse_unsigned(text: &Vec<char>, from: usize, to: usize) -> (r: Option<u32>)
    requires
        from <= to <= text.len(),
    ensures
        r == unsigned_of(text@.subrange(from as int, to as int)),
{
    let ghost s = text@.subrange(from as int, to as int);
    if from < to && text[from] == '+' {
        assert(s.skip(1) =~= text@.subrange(from + 1, to as int));
        parse_decimal(text, from + 1, to, u32::MAX)
    } else {
        parse_decimal(text, from, to, u32::MAX)
    }
}

/// `s` without the white space it begins with.
pub fn trim_start(s: &str) -> (trimmed: String)
    ensures
        trimmed@ == trim_start_of(s@),
{
    let chars = to_chars(s);
    let spaces = count_run(&chars, 0, chars.len(), CharClass::Space);
    assert(chars@.subrange(0, chars@.len() as int) =~= s@);
    let trimmed = text_between(&chars, spaces, chars.len());
    assert(trimmed@ =~= trim_start_of(s@));
    trimmed
}

/// Field `k` of `line`, counted from 0: the fields are what white space parts.
pub fn field(line: &str, k: usize) -> (found: Option<String>)
    ensures
        text_of(found) == field_of(line@, k as nat),
{
    let chars = to_chars(line);
    assert(chars@.subrange(0, chars@.len() as int) =~= line@);
    match find_field(&chars, 0, chars.len(), k) {
        Some((start, end)) => Some(text_between(&chars, start, end)),
        None => None,
    }
}

/// Reads `s` as an unsigned number: decimal digits, after a plus sign or after
/// none, that write a number no greater than the greatest `u32`.
pub fn parse_u32(s: &str) -> (n: Option<u32>)
    ensures
        n == unsigned_of(s@),
{
    let chars = to_chars(s);
    assert(chars@.subrange(0, chars@.len() as int) =~= s@);
    parse_unsigned(&chars, 0, chars.len())
}

} // verus!
