//! Text helpers shared by the planners: character scans, decimal rendering
//! and the lexicographic order used for ordered string maps.

use vstd::prelude::*;
use vstd::std_specs::iter::IteratorSpec;

verus! {

/// The characters of `s`, in order.
pub fn chars_of(s: &str) -> (out: Vec<char>)
    ensures
        out@ == s@,
{
    let mut out: Vec<char> = Vec::new();
    let mut it = s.chars();
    proof {
        vstd::string::axiom_spec_iter(s);
    }
    loop
        invariant
            it.obeys_prophetic_iter_laws(),
            it.decrease() is Some,
            out@ + it.remaining() == s@,
        decreases it.decrease()->0,
    {
        let ghost before = it;
        match it.next() {
            Some(c) => {
                proof {
                    vstd::string::next_postcondition(&before, &it, Some(c));
                    assert(out@.push(c) + it.remaining() =~= out@ + before.remaining());
                }
                out.push(c);
            },
            None => {
                proof {
                    vstd::string::next_postcondition(&before, &it, None);
                    assert(out@ + it.remaining() =~= out@);
                }
                return out;
            },
        }
    }
}

/// The decimal digit that stands for `d`, for `d` below ten.
pub open spec fn digit_char(d: nat) -> char {
    if d == 0 {
        '0'
    } else if d == 1 {
        '1'
    } else if d == 2 {
        '2'
    } else if d == 3 {
        '3'
    } else if d == 4 {
        '4'
    } else if d == 5 {
        '5'
    } else if d == 6 {
        '6'
    } else if d == 7 {
        '7'
    } else if d == 8 {
        '8'
    } else {
        '9'
    }
}

/// The shortest decimal numeral of `n`: no sign, no leading zero, `"0"` for zero.
pub open spec fn decimal(n: nat) -> Seq<char>
    decreases n,
{
    if n < 10 {
        seq![digit_char(n)]
    } else {
        decimal(n / 10).push(digit_char(n % 10))
    }
}

fn digit_str(d: u64) -> (s: &'static str)
    requires
        d < 10,
    ensures
        s@ == seq![digit_char(d as nat)],
{
    proof {
        reveal_strlit("0");
        reveal_strlit("1");
        reveal_strlit("2");
        reveal_strlit("3");
        reveal_strlit("4");
        reveal_strlit("5");
        reveal_strlit("6");
        reveal_strlit("7");
        reveal_strlit("8");
        reveal_strlit("9");
    }
    let s = if d == 0 {
        "0"
    } else if d == 1 {
        "1"
    } else if d == 2 {
        "2"
    } else if d == 3 {
        "3"
    } else if d == 4 {
        "4"
    } else if d == 5 {
        "5"
    } else if d == 6 {
        "6"
    } else if d == 7 {
        "7"
    } else if d == 8 {
        "8"
    } else {
        "9"
    };
    assert(s@ =~= seq![digit_char(d as nat)]);
    s
}

/// Renders `n` as its decimal numeral.
pub fn decimal_string(n: u64) -> (out: String)
    ensures
        out@ == decimal(n as nat),
    decreases n,
{
    if n < 10 {
        String::from_str(digit_str(n))
    } else {
        let mut out = decimal_string(n / 10);
        out.append(digit_str(n % 10));
        assert(out@ =~= decimal((n / 10) as nat).push(digit_char((n % 10) as nat)));
        out
    }
}

/// A decimal numeral has at least one character and only digits.
pub proof fn lemma_decimal_digits(n: nat)
    ensures
        decimal(n).len() >= 1,
        forall|i: int| 0 <= i < decimal(n).len() ==> '0' <= #[trigger] decimal(n)[i] <= '9',
    decreases n,
{
    if n >= 10 {
        lemma_decimal_digits(n / 10);
    }
}

/// Whether `s` holds a NUL character, which no C string can carry.
pub fn contains_nul(s: &str) -> (found: bool)
    ensures
        found == s@.contains('\0'),
{
    let chars = chars_of(s);
    let mut i: usize = 0;
    while i < chars.len()
        invariant
            i <= chars.len(),
            chars@ == s@,
            forall|j: int| 0 <= j < i ==> s@[j] != '\0',
        decreases chars.len() - i,
    {
        if chars[i] == '\0' {
            return true;
        }
        i += 1;
    }
    false
}

/// Whether two texts hold the same characters.
pub fn same_text(a: &str, b: &str) -> (same: bool)
    ensures
        same == (a@ == b@),
{
    let x = chars_of(a);
    let y = chars_of(b);
    if x.len() != y.len() {
        return false;
    }
    let mut i: usize = 0;
    while i < x.len()
        invariant
            i <= x.len(),
            x.len() == y.len(),
            x@ == a@,
            y@ == b@,
            forall|j: int| 0 <= j < i ==> a@[j] == b@[j],
        decreases x.len() - i,
    {
        if x[i] != y[i] {
            return false;
        }
        i += 1;
    }
    assert(a@ =~= b@);
    true
}

/// How two texts stand to each other in an order.
#[derive(Clone, Copy, Debug, PartialEq, Eq, Structural)]
pub enum Rank {
    Before,
    Same,
    After,
}

/// The order of texts by character, the first difference deciding; a text
/// comes before every longer text that starts with it.
pub open spec fn text_lt(a: Seq<char>, b: Seq<char>) -> bool {
    exists|k: int| #[trigger] differs_at(a, b, k)
}

/// `a` and `b` agree before position `k`, and at `k` either `a` ends while
/// `b` goes on, or `a` holds the smaller character.
pub open spec fn differs_at(a: Seq<char>, b: Seq<char>, k: int) -> bool {
    &&& 0 <= k <= a.len()
    &&& k < b.len()
    &&& a.take(k) == b.take(k)
    &&& (k == a.len() || (a[k] as int) < (b[k] as int))
}

/// No text comes before itself.
pub proof fn lemma_text_lt_irreflexive(a: Seq<char>)
    ensures
        !text_lt(a, a),
{
}

/// The order of texts is transitive.
pub proof fn lemma_text_lt_transitive(a: Seq<char>, b: Seq<char>, c: Seq<char>)
    requires
        text_lt(a, b),
        text_lt(b, c),
    ensures
        text_lt(a, c),
{
    let i = choose|k: int| #[trigger] differs_at(a, b, k);
    let j = choose|k: int| #[trigger] differs_at(b, c, k);
    let k = if i <= j {
        i
    } else {
        j
    };
    assert(a.take(k) =~= a.take(i).take(k));
    assert(b.take(k) =~= b.take(i).take(k));
    assert(b.take(k) =~= b.take(j).take(k));
    assert(c.take(k) =~= c.take(j).take(k));
    if i < j {
        assert(b.take(j)[i] == c.take(j)[i]);
    }
    if j < i {
        assert(a.take(i)[j] == b.take(i)[j]);
    }
    assert(differs_at(a, c, k));
}

/// A text that comes before another is not that other text, and does not
/// come after it.
pub proof fn lemma_text_lt_asymmetric(a: Seq<char>, b: Seq<char>)
    requires
        text_lt(a, b),
    ensures
        !text_lt(b, a),
        a != b,
{
    if text_lt(b, a) {
        lemma_text_lt_transitive(a, b, a);
    }
}

/// Of two different texts one comes before the other.
pub proof fn lemma_order_total(a: Seq<char>, b: Seq<char>)
    ensures
        text_lt(a, b) || a == b || text_lt(b, a),
    decreases a.len(),
{
    if a != b {
        let k = first_difference(a, b, 0);
        assert(a.take(0) =~= b.take(0));
        lemma_first_difference(a, b, 0);
        if k == a.len() {
            assert(differs_at(a, b, k));
        } else if k == b.len() {
            assert(differs_at(b, a, k));
        } else if (a[k] as int) < (b[k] as int) {
            assert(differs_at(a, b, k));
        } else {
            assert(differs_at(b, a, k));
        }
    }
}

spec fn first_difference(a: Seq<char>, b: Seq<char>, from: int) -> int
    decreases a.len() - from,
{
    if from < 0 || from >= a.len() || from >= b.len() || a[from] != b[from] {
        from
    } else {
        first_difference(a, b, from + 1)
    }
}

proof fn lemma_first_difference(a: Seq<char>, b: Seq<char>, from: int)
    requires
        0 <= from <= a.len(),
        from <= b.len(),
        a.take(from) == b.take(from),
        a != b,
    ensures
        from <= first_difference(a, b, from) <= a.len(),
        first_difference(a, b, from) <= b.len(),
        a.take(first_difference(a, b, from)) == b.take(first_difference(a, b, from)),
        first_difference(a, b, from) < a.len() || first_difference(a, b, from) < b.len(),
        first_difference(a, b, from) < a.len() && first_difference(a, b, from) < b.len() ==> a[first_difference(
            a,
            b,
            from,
        )] != b[first_difference(a, b, from)],
    decreases a.len() - from,
{
    if from >= a.len() || from >= b.len() {
        if from == a.len() && from == b.len() {
            assert(a =~= a.take(from));
            assert(b =~= b.take(from));
        }
    } else if a[from] == b[from] {
        assert(a.take(from + 1) =~= a.take(from).push(a[from]));
        assert(b.take(from + 1) =~= b.take(from).push(b[from]));
        lemma_first_difference(a, b, from + 1);
    }
}

/// Ranks `a` against `b` in the order of texts.
pub fn rank_text(a: &str, b: &str) -> (rank: Rank)
    ensures
        rank == Rank::Before <==> text_lt(a@, b@),
        rank == Rank::Same <==> a@ == b@,
        rank == Rank::After <==> text_lt(b@, a@),
{
    let x = chars_of(a);
    let y = chars_of(b);
    let mut i: usize = 0;
    while i < x.len() && i < y.len()
        invariant
            i <= x.len(),
            i <= y.len(),
            x@ == a@,
            y@ == b@,
            a@.take(i as int) == b@.take(i as int),
        decreases x.len() - i,
    {
        let cx: char = x[i];
        let cy: char = y[i];
        if cx < cy {
            assert(differs_at(a@, b@, i as int));
            proof {
                lemma_text_lt_asymmetric(a@, b@);
            }
            return Rank::Before;
        }
        if cy < cx {
            assert(differs_at(b@, a@, i as int));
            proof {
                lemma_text_lt_asymmetric(b@, a@);
            }
            return Rank::After;
        }
        assert(cx == cy);
        assert(a@.take(i + 1) =~= a@.take(i as int).push(a@[i as int]));
        assert(b@.take(i + 1) =~= b@.take(i as int).push(b@[i as int]));
        i += 1;
    }
    if i < y.len() {
        assert(differs_at(a@, b@, i as int));
        proof {
            lemma_text_lt_asymmetric(a@, b@);
        }
        Rank::Before
    } else if i < x.len() {
        assert(differs_at(b@, a@, i as int));
        proof {
            lemma_text_lt_asymmetric(b@, a@);
        }
        Rank::After
    } else {
        assert(a@ =~= a@.take(i as int));
        assert(b@ =~= b@.take(i as int));
        Rank::Same
    }
}

/// `s` without the slashes it ends in.
pub open spec fn trim_end_slashes(s: Seq<char>) -> Seq<char>
    decreases s.len(),
{
    if s.len() > 0 && s.last() == '/' {
        trim_end_slashes(s.drop_last())
    } else {
        s
    }
}

/// `s` without the slashes it begins with.
pub open spec fn trim_start_slashes(s: Seq<char>) -> Seq<char>
    decreases s.len(),
{
    if s.len() > 0 && s.first() == '/' {
        trim_start_slashes(s.drop_first())
    } else {
        s
    }
}

/// The path of `rest` below `base`: the two joined by exactly one slash,
/// whatever slashes `base` ends in or `rest` begins with.
pub open spec fn join_path(base: Seq<char>, rest: Seq<char>) -> Seq<char> {
    trim_end_slashes(base) + seq!['/'] + trim_start_slashes(rest)
}

/// Joins `rest` to `base` by one slash.
pub fn joined_path(base: &str, rest: &str) -> (path: String)
    ensures
        path@ == join_path(base@, rest@),
{
    let head = chars_of(base);
    let tail = chars_of(rest);
    let mut end: usize = head.len();
    assert(base@.take(head.len() as int) =~= base@);
    while end > 0 && head[end - 1] == '/'
        invariant
            end <= head.len(),
            head@ == base@,
            trim_end_slashes(base@) == trim_end_slashes(base@.take(end as int)),
        decreases end,
    {
        assert(base@.take(end as int).drop_last() =~= base@.take(end - 1));
        end -= 1;
    }
    let mut start: usize = 0;
    assert(rest@.skip(0) =~= rest@);
    while start < tail.len() && tail[start] == '/'
        invariant
            start <= tail.len(),
            tail@ == rest@,
            trim_start_slashes(rest@) == trim_start_slashes(rest@.skip(start as int)),
        decreases tail.len() - start,
    {
        assert(rest@.skip(start as int).drop_first() =~= rest@.skip(start + 1));
        start += 1;
    }
    proof {
        reveal_strlit("/");
    }
    let mut path = String::from_str(base.substring_char(0, end));
    path.append("/");
    path.append(rest.substring_char(start, tail.len()));
    proof {
        assert(base@.subrange(0, end as int) =~= base@.take(end as int));
        assert(rest@.subrange(start as int, tail.len() as int) =~= rest@.skip(start as int));
        assert("/"@ =~= seq!['/']);
    }
    path
}

/// A copy of an optional text.
pub fn clone_text(text: &Option<String>) -> (copy: Option<String>)
    ensures
        copy.deep_view() == text.deep_view(),
{
    match text {
        Some(t) => Some(t.clone()),
        None => None,
    }
}

/// A copy of a list of texts.
pub fn clone_texts(texts: &Vec<String>) -> (copy: Vec<String>)
    ensures
        copy.deep_view() == texts.deep_view(),
{
    let mut copy: Vec<String> = Vec::new();
    let mut i: usize = 0;
    while i < texts.len()
        invariant
            i <= texts.len(),
            copy.deep_view() == texts.deep_view().take(i as int),
        decreases texts.len() - i,
    {
        let ghost before = copy.deep_view();
        let text = texts[i].clone();
        copy.push(text);
        assert(copy.deep_view() =~= before.push(text@));
        assert(copy.deep_view() =~= texts.deep_view().take(i + 1));
        i += 1;
    }
    assert(texts.deep_view().take(texts.len() as int) =~= texts.deep_view());
    copy
}

/// The decimal numeral of an integer: a minus sign before the numeral of a
/// negative one.
pub open spec fn signed_decimal(n: int) -> Seq<char> {
    if n < 0 {
        seq!['-'] + decimal((-n) as nat)
    } else {
        decimal(n as nat)
    }
}

/// Renders `n` as its decimal numeral.
pub fn signed_decimal_string(n: i64) -> (out: String)
    ensures
        out@ == signed_decimal(n as int),
{
    if n < 0 {
        proof {
            reveal_strlit("-");
        }
        let magnitude: u64 = if n == i64::MIN {
            9223372036854775808u64
        } else {
            (-n) as u64
        };
        let mut out = String::from_str("-");
        out.append(decimal_string(magnitude).as_str());
        assert(out@ =~= seq!['-'] + decimal((-n) as nat));
        out
    } else {
        decimal_string(n as u64)
    }
}

/// The value of a run of decimal digits; a character that is no digit counts
/// as nine.
pub open spec fn digits_value(digits: Seq<char>) -> nat
    decreases digits.len(),
{
    if digits.len() == 0 {
        0
    } else {
        digits_value(digits.drop_last()) * 10 + digit_value(digits.last())
    }
}

/// The value of one decimal digit.
pub open spec fn digit_value(c: char) -> nat {
    if c == '0' {
        0
    } else if c == '1' {
        1
    } else if c == '2' {
        2
    } else if c == '3' {
        3
    } else if c == '4' {
        4
    } else if c == '5' {
        5
    } else if c == '6' {
        6
    } else if c == '7' {
        7
    } else if c == '8' {
        8
    } else {
        9
    }
}

/// Whether `c` is one of the ten decimal digits.
pub open spec fn is_digit(c: char) -> bool {
    c == '0' || c == '1' || c == '2' || c == '3' || c == '4' || c == '5' || c == '6' || c == '7'
        || c == '8' || c == '9'
}

/// Whether `s` is made of decimal digits only.
pub open spec fn all_digits(s: Seq<char>) -> bool {
    forall|i: int| 0 <= i < s.len() ==> is_digit(#[trigger] s[i])
}

/// The digits of a numeral, after its sign if it has one.
pub open spec fn numeral_digits(s: Seq<char>) -> Seq<char> {
    if s.len() > 0 && (s[0] == '-' || s[0] == '+') {
        s.skip(1)
    } else {
        s
    }
}

/// The integer that a numeral denotes.
pub open spec fn numeral_value(s: Seq<char>) -> int {
    if s.len() > 0 && s[0] == '-' {
        -(digits_value(numeral_digits(s)) as int)
    } else {
        digits_value(numeral_digits(s)) as int
    }
}

/// The 32-bit integer written as `s`: an optional sign, then at least one
/// decimal digit and nothing else, denoting a value the type can hold.
pub open spec fn parsed_i32(s: Seq<char>) -> Option<i32> {
    if numeral_digits(s).len() > 0 && all_digits(numeral_digits(s)) && i32::MIN <= numeral_value(s)
        <= i32::MAX {
        Some(numeral_value(s) as i32)
    } else {
        None
    }
}

proof fn lemma_digits_value_grows(digits: Seq<char>, k: int)
    requires
        0 <= k <= digits.len(),
    ensures
        digits_value(digits.take(k)) <= digits_value(digits),
    decreases digits.len() - k,
{
    if k < digits.len() {
        assert(digits.take(k + 1).drop_last() =~= digits.take(k));
        lemma_digits_value_grows(digits, k + 1);
    } else {
        assert(digits.take(k) =~= digits);
    }
}

fn digit_of(c: char) -> (d: Option<i64>)
    ensures
        d is Some <==> is_digit(c),
        d is Some ==> d->0 == digit_value(c),
{
    if c == '0' {
        Some(0)
    } else if c == '1' {
        Some(1)
    } else if c == '2' {
        Some(2)
    } else if c == '3' {
        Some(3)
    } else if c == '4' {
        Some(4)
    } else if c == '5' {
        Some(5)
    } else if c == '6' {
        Some(6)
    } else if c == '7' {
        Some(7)
    } else if c == '8' {
        Some(8)
    } else if c == '9' {
        Some(9)
    } else {
        None
    }
}

/// Reads a 32-bit integer from its decimal numeral.
pub fn parse_i32(s: &str) -> (value: Option<i32>)
    ensures
        value == parsed_i32(s@),
{
    let chars = chars_of(s);
    let mut i: usize = 0;
    let mut negative = false;
    if chars.len() > 0 && (chars[0] == '-' || chars[0] == '+') {
        negative = chars[0] == '-';
        i = 1;
    }
    let ghost digits = numeral_digits(s@);
    let start = i;
    assert(s@.skip(0) =~= s@);
    if i == chars.len() {
        return None;
    }
    let mut total: i64 = 0;
    assert(digits.take(0) =~= Seq::<char>::empty());
    while i < chars.len()
        invariant
            start <= i <= chars.len(),
            chars@ == s@,
            digits == s@.skip(start as int),
            digits == numeral_digits(s@),
            negative <==> (s@.len() > 0 && s@[0] == '-'),
            all_digits(digits.take(i - start)),
            total == digits_value(digits.take(i - start)),
            0 <= total <= 2147483648,
        decreases chars.len() - i,
    {
        let ghost k = i - start;
        assert(digits.take(k + 1).drop_last() =~= digits.take(k));
        assert(digits.take(k + 1).last() == chars@[i as int]);
        match digit_of(chars[i]) {
            Some(d) => {
                total = total * 10 + d;
                if total > 2147483648 {
                    proof {
                        lemma_digits_value_grows(digits, k + 1);
                    }
                    return None;
                }
                assert forall|j: int| 0 <= j < k + 1 implies is_digit(
                    #[trigger] digits.take(k + 1)[j],
                ) by {
                    if j < k {
                        assert(digits.take(k)[j] == digits.take(k + 1)[j]);
                    }
                }
            },
            None => {
                assert(!is_digit(digits[k]));
                return None;
            },
        }
        i += 1;
    }
    assert(digits.take(chars.len() - start) =~= digits);
    if negative {
        Some((-total) as i32)
    } else if total > 2147483647 {
        None
    } else {
        Some(total as i32)
    }
}

/// The text of a literal, owned.
pub fn owned(literal: &str) -> (out: String)
    ensures
        out@ == literal@,
{
    String::from_str(literal)
}

/// The two texts one after the other.
pub fn glued(a: &str, b: &str) -> (out: String)
    ensures
        out@ == a@ + b@,
{
    let mut out = String::from_str(a);
    out.append(b);
    out
}

/// What stands in `s` before the first `stop`; all of `s` where there is
/// none.
pub open spec fn until(s: Seq<char>, stop: char) -> Seq<char>
    decreases s.len(),
{
    if s.len() == 0 || s[0] == stop {
        Seq::empty()
    } else {
        seq![s[0]] + until(s.drop_first(), stop)
    }
}

proof fn lemma_until(s: Seq<char>, stop: char, end: int)
    requires
        0 <= end <= s.len(),
        forall|j: int| 0 <= j < end ==> s[j] != stop,
        end == s.len() || s[end] == stop,
    ensures
        until(s, stop) == s.take(end),
    decreases end,
{
    if end == 0 {
        assert(s.take(0) =~= Seq::<char>::empty());
    } else {
        let rest = s.drop_first();
        assert forall|j: int| 0 <= j < end - 1 implies rest[j] != stop by {
            assert(rest[j] == s[j + 1]);
        }
        lemma_until(rest, stop, end - 1);
        assert(s.take(end) =~= seq![s[0]] + rest.take(end - 1));
    }
}

/// What stands before the first `stop` is a beginning of the text, holds no
/// `stop`, and ends where the text ends or a `stop` stands.
pub proof fn lemma_until_is_prefix(s: Seq<char>, stop: char)
    ensures
        until(s, stop).len() <= s.len(),
        until(s, stop) == s.take(until(s, stop).len() as int),
        !until(s, stop).contains(stop),
        until(s, stop).len() < s.len() ==> s[until(s, stop).len() as int] == stop,
        until(s, stop).len() == s.len() <==> !s.contains(stop),
    decreases s.len(),
{
    if s.len() == 0 || s[0] == stop {
        assert(s.take(0) =~= Seq::<char>::empty());
        if s.len() > 0 {
            assert(s.contains(stop));
        }
    } else {
        let rest = s.drop_first();
        lemma_until_is_prefix(rest, stop);
        let n = until(rest, stop).len() as int;
        assert(s.take(n + 1) =~= seq![s[0]] + rest.take(n));
        let u = until(s, stop);
        assert forall|j: int| 0 <= j < u.len() implies u[j] != stop by {
            if j > 0 {
                assert(u[j] == until(rest, stop)[j - 1]);
            }
        }
        if n < rest.len() {
            assert(rest[n] == s[n + 1]);
            assert(s.contains(stop));
        } else {
            assert(rest =~= until(rest, stop));
            assert forall|j: int| 0 <= j < s.len() implies s[j] != stop by {
                if j > 0 {
                    assert(s[j] == rest[j - 1]);
                }
            }
        }
    }
}

/// The length of what stands in `s` before the first `stop`.
pub fn length_until(s: &str, stop: char) -> (end: usize)
    ensures
        end == until(s@, stop).len(),
        end <= s@.len(),
        until(s@, stop) == s@.take(end as int),
{
    let chars = chars_of(s);
    let mut end: usize = 0;
    while end < chars.len() && chars[end] != stop
        invariant
            end <= chars.len(),
            chars@ == s@,
            forall|j: int| 0 <= j < end ==> s@[j] != stop,
        decreases chars.len() - end,
    {
        end += 1;
    }
    proof {
        lemma_until(s@, stop, end as int);
    }
    end
}

/// The parts that the separator `sep` divides `s` into: one more than
/// there are separators, the empty text where two separators meet or the
/// text begins or ends with one.
pub open spec fn split(s: Seq<char>, sep: char) -> Seq<Seq<char>>
    decreases s.len(),
{
    if s.len() == 0 {
        seq![Seq::empty()]
    } else {
        let parts = split(s.drop_last(), sep);
        if s.last() == sep {
            parts.push(Seq::empty())
        } else {
            parts.drop_last().push(parts.last().push(s.last()))
        }
    }
}

/// A text always has at least one part.
pub proof fn lemma_split_nonempty(s: Seq<char>, sep: char)
    ensures
        split(s, sep).len() >= 1,
    decreases s.len(),
{
    if s.len() > 0 {
        lemma_split_nonempty(s.drop_last(), sep);
    }
}

/// Divides `s` at every `sep`.
pub fn split_text(s: &str, sep: char) -> (parts: Vec<String>)
    ensures
        parts.deep_view() == split(s@, sep),
{
    let chars = chars_of(s);
    let mut parts: Vec<String> = Vec::new();
    let mut start: usize = 0;
    let mut i: usize = 0;
    proof {
        assert(s@.take(0) =~= Seq::<char>::empty());
        assert(parts.deep_view() =~= Seq::<Seq<char>>::empty());
        assert(split(s@.take(0), sep) =~= parts.deep_view().push(s@.subrange(0, 0)));
    }
    while i < chars.len()
        invariant
            start <= i <= chars.len(),
            chars@ == s@,
            split(s@.take(i as int), sep) == parts.deep_view().push(
                s@.subrange(start as int, i as int),
            ),
        decreases chars.len() - i,
    {
        let ghost done = parts.deep_view();
        let ghost current = s@.subrange(start as int, i as int);
        proof {
            assert(s@.take(i + 1).drop_last() =~= s@.take(i as int));
            assert(s@.take(i + 1).last() == s@[i as int]);
            assert(done.push(current).drop_last() =~= done);
        }
        if chars[i] == sep {
            let part = String::from_str(s.substring_char(start, i));
            parts.push(part);
            start = i + 1;
            proof {
                assert(parts.deep_view() =~= done.push(current));
                assert(s@.subrange(i + 1, i + 1) =~= Seq::<char>::empty());
            }
        } else {
            proof {
                assert(s@.subrange(start as int, i + 1) =~= current.push(s@[i as int]));
            }
        }
        i += 1;
    }
    let ghost done = parts.deep_view();
    let last = String::from_str(s.substring_char(start, i));
    parts.push(last);
    proof {
        assert(s@.take(chars.len() as int) =~= s@);
        assert(parts.deep_view() =~= done.push(s@.subrange(start as int, i as int)));
    }
    parts
}

/// A joined path holds exactly one slash where its two parts meet: what
/// stands before that slash does not end in a slash, and what stands after
/// it does not begin with one.
pub proof fn lemma_join_path_single_slash(base: Seq<char>, rest: Seq<char>)
    ensures
        join_path(base, rest) == trim_end_slashes(base) + seq!['/'] + trim_start_slashes(rest),
        trim_end_slashes(base).len() == 0 || trim_end_slashes(base).last() != '/',
        trim_start_slashes(rest).len() == 0 || trim_start_slashes(rest).first() != '/',
        join_path(base, rest)[trim_end_slashes(base).len() as int] == '/',
{
    lemma_trim_end(base);
    lemma_trim_start(rest);
}

proof fn lemma_trim_end(s: Seq<char>)
    ensures
        trim_end_slashes(s).len() == 0 || trim_end_slashes(s).last() != '/',
    decreases s.len(),
{
    if s.len() > 0 && s.last() == '/' {
        lemma_trim_end(s.drop_last());
    }
}

proof fn lemma_trim_start(s: Seq<char>)
    ensures
        trim_start_slashes(s).len() == 0 || trim_start_slashes(s).first() != '/',
    decreases s.len(),
{
    if s.len() > 0 && s.first() == '/' {
        lemma_trim_start(s.drop_first());
    }
}

/// Parts put together again, with `sep` between each two.
pub open spec fn rejoined(parts: Seq<Seq<char>>, sep: char) -> Seq<char>
    decreases parts.len(),
{
    if parts.len() == 0 {
        Seq::empty()
    } else if parts.len() == 1 {
        parts[0]
    } else {
        rejoined(parts.drop_last(), sep) + seq![sep] + parts.last()
    }
}

/// Dividing a text loses nothing: no part holds the separator, and the
/// parts with the separator between them are the text.
pub proof fn lemma_split_rejoins(s: Seq<char>, sep: char)
    ensures
        split(s, sep).len() >= 1,
        forall|i: int| 0 <= i < split(s, sep).len() ==> !(#[trigger] split(s, sep)[i]).contains(sep),
        rejoined(split(s, sep), sep) == s,
    decreases s.len(),
{
    if s.len() == 0 {
        assert(rejoined(split(s, sep), sep) =~= s);
    } else {
        let t = s.drop_last();
        let c = s.last();
        let before = split(t, sep);
        let parts = split(s, sep);
        lemma_split_rejoins(t, sep);
        assert(s =~= t.push(c));
        if c == sep {
            assert(parts.drop_last() =~= before);
            assert(rejoined(parts, sep) =~= s);
            assert forall|i: int| 0 <= i < parts.len() implies !(#[trigger] parts[i]).contains(
                sep,
            ) by {
                if i < before.len() {
                    assert(parts[i] == before[i]);
                }
            }
        } else {
            let last = before.last().push(c);
            assert(parts.last() == last);
            assert(parts.drop_last() =~= before.drop_last());
            if before.len() == 1 {
                assert(rejoined(parts, sep) =~= s);
            } else {
                assert(rejoined(parts, sep) =~= rejoined(before, sep).push(c));
            }
            assert forall|i: int| 0 <= i < parts.len() implies !(#[trigger] parts[i]).contains(
                sep,
            ) by {
                if i < parts.len() - 1 {
                    assert(parts[i] == before[i]);
                } else {
                    let old = before[before.len() - 1];
                    assert(!old.contains(sep));
                    assert forall|j: int| 0 <= j < last.len() implies last[j] != sep by {
                        if j < old.len() {
                            assert(last[j] == old[j]);
                        }
                    }
                }
            }
        }
    }
}

/// The numeral of a number is made of digits, and its value is the number.
pub proof fn lemma_decimal_value(n: nat)
    ensures
        all_digits(decimal(n)),
        digits_value(decimal(n)) == n,
        decimal(n).len() >= 1,
    decreases n,
{
    if n < 10 {
        assert(decimal(n).drop_last() =~= Seq::<char>::empty());
        assert(digits_value(Seq::<char>::empty()) == 0);
        assert(decimal(n).last() == digit_char(n));
        assert(digit_value(digit_char(n)) == n);
    } else {
        lemma_decimal_value(n / 10);
        let head = decimal(n / 10);
        let all = decimal(n);
        assert(all.drop_last() =~= head);
        assert(all.last() == digit_char(n % 10));
        assert(digit_value(digit_char(n % 10)) == n % 10);
        assert forall|i: int| 0 <= i < all.len() implies is_digit(#[trigger] all[i]) by {
            if i < head.len() {
                assert(all[i] == head[i]);
            }
        }
    }
}

/// What is rendered of a 32-bit integer reads back as that integer.
pub proof fn lemma_parse_renders(n: i32)
    ensures
        parsed_i32(signed_decimal(n as int)) == Some(n),
{
    let s = signed_decimal(n as int);
    if n < 0 {
        lemma_decimal_value((-n) as nat);
        assert(s[0] == '-');
        assert(s.skip(1) =~= decimal((-n) as nat));
    } else {
        lemma_decimal_value(n as nat);
        assert(is_digit(s[0]));
    }
}

/// Whether `c` is white space: a blank, a tab, an end of line, or any other
/// character that Unicode counts as white space.
pub open spec fn is_space(c: char) -> bool {
    c == '\t'
        || c == '\n'
        || c == '\u{b}'
        || c == '\u{c}'
        || c == '\r'
        || c == ' '
        || c == '\u{85}'
        || c == '\u{a0}'
        || c == '\u{1680}'
        || c == '\u{2000}'
        || c == '\u{2001}'
        || c == '\u{2002}'
        || c == '\u{2003}'
        || c == '\u{2004}'
        || c == '\u{2005}'
        || c == '\u{2006}'
        || c == '\u{2007}'
        || c == '\u{2008}'
        || c == '\u{2009}'
        || c == '\u{200a}'
        || c == '\u{2028}'
        || c == '\u{2029}'
        || c == '\u{202f}'
        || c == '\u{205f}'
        || c == '\u{3000}'
}

/// `s` without the white space it begins with.
pub open spec fn skip_spaces(s: Seq<char>) -> Seq<char>
    decreases s.len(),
{
    if s.len() > 0 && is_space(s[0]) {
        skip_spaces(s.drop_first())
    } else {
        s
    }
}

/// The longest beginning of `s` that holds no white space.
pub open spec fn leading_word(s: Seq<char>) -> Seq<char>
    decreases s.len(),
{
    if s.len() == 0 || is_space(s[0]) {
        Seq::empty()
    } else {
        seq![s[0]] + leading_word(s.drop_first())
    }
}

/// The first of the words that white space parts `s` into; the empty text
/// where `s` is empty or all white space.
pub open spec fn first_word(s: Seq<char>) -> Seq<char> {
    leading_word(skip_spaces(s))
}

proof fn lemma_leading_word(s: Seq<char>, end: int)
    requires
        0 <= end <= s.len(),
        forall|j: int| 0 <= j < end ==> !is_space(s[j]),
        end == s.len() || is_space(s[end]),
    ensures
        leading_word(s) == s.take(end),
    decreases end,
{
    if end == 0 {
        assert(s.take(0) =~= Seq::<char>::empty());
    } else {
        let rest = s.drop_first();
        assert forall|j: int| 0 <= j < end - 1 implies !is_space(rest[j]) by {
            assert(rest[j] == s[j + 1]);
        }
        lemma_leading_word(rest, end - 1);
        assert(s.take(end) =~= seq![s[0]] + rest.take(end - 1));
    }
}

/// How many characters of white space `s` begins with.
pub open spec fn leading_spaces(s: Seq<char>) -> int {
    s.len() - skip_spaces(s).len()
}

proof fn lemma_skip_spaces(s: Seq<char>)
    ensures
        0 <= leading_spaces(s) <= s.len(),
        skip_spaces(s) == s.skip(leading_spaces(s)),
        forall|j: int| 0 <= j < leading_spaces(s) ==> is_space(#[trigger] s[j]),
        leading_spaces(s) == s.len() || !is_space(s[leading_spaces(s)]),
    decreases s.len(),
{
    if s.len() > 0 && is_space(s[0]) {
        let rest = s.drop_first();
        lemma_skip_spaces(rest);
        let n = leading_spaces(rest);
        assert(rest.skip(n) =~= s.skip(n + 1));
        assert forall|j: int| 0 <= j < n + 1 implies is_space(#[trigger] s[j]) by {
            if j > 0 {
                assert(s[j] == rest[j - 1]);
            }
        }
        if n < rest.len() {
            assert(rest[n] == s[n + 1]);
        }
    } else {
        assert(s.skip(0) =~= s);
    }
}

/// The first word of a text is a run of the characters of the text that
/// holds no white space. Nothing but white space stands before it, and
/// white space or the end of the text after it. It is empty only where the
/// text holds nothing but white space.
pub proof fn lemma_first_word(s: Seq<char>)
    ensures
        0 <= leading_spaces(s) <= leading_spaces(s) + first_word(s).len() <= s.len(),
        first_word(s) == s.subrange(leading_spaces(s), leading_spaces(s) + first_word(s).len()),
        forall|j: int| 0 <= j < leading_spaces(s) ==> is_space(#[trigger] s[j]),
        forall|j: int| 0 <= j < first_word(s).len() ==> !is_space(#[trigger] first_word(s)[j]),
        leading_spaces(s) + first_word(s).len() == s.len() || is_space(
            s[leading_spaces(s) + first_word(s).len()],
        ),
        first_word(s).len() == 0 <==> leading_spaces(s) == s.len(),
{
    lemma_skip_spaces(s);
    let rest = skip_spaces(s);
    lemma_word_shape(rest);
    let start = leading_spaces(s);
    let n = first_word(s).len() as int;
    assert(rest.take(n) =~= s.subrange(start, start + n));
    if start + n < s.len() {
        assert(rest[n] == s[start + n]);
    }
    if n == 0 && start < s.len() {
        assert(rest[0] == s[start]);
    }
}

proof fn lemma_word_shape(s: Seq<char>)
    ensures
        leading_word(s).len() <= s.len(),
        leading_word(s) == s.take(leading_word(s).len() as int),
        forall|j: int| 0 <= j < leading_word(s).len() ==> !is_space(#[trigger] leading_word(s)[j]),
        leading_word(s).len() == s.len() || is_space(s[leading_word(s).len() as int]),
        leading_word(s).len() == 0 ==> s.len() == 0 || is_space(s[0]),
    decreases s.len(),
{
    if s.len() == 0 || is_space(s[0]) {
        assert(s.take(0) =~= Seq::<char>::empty());
    } else {
        let rest = s.drop_first();
        lemma_word_shape(rest);
        let n = leading_word(rest).len() as int;
        let word = leading_word(s);
        assert(s.take(n + 1) =~= seq![s[0]] + rest.take(n));
        assert forall|j: int| 0 <= j < word.len() implies !is_space(#[trigger] word[j]) by {
            if j > 0 {
                assert(word[j] == leading_word(rest)[j - 1]);
            }
        }
        if n < rest.len() {
            assert(rest[n] == s[n + 1]);
        }
    }
}

/// Whether `c` is white space.
pub fn is_whitespace(c: char) -> (space: bool)
    ensures
        space == is_space(c),
{
    c == '\t'
        || c == '\n'
        || c == '\u{b}'
        || c == '\u{c}'
        || c == '\r'
        || c == ' '
        || c == '\u{85}'
        || c == '\u{a0}'
        || c == '\u{1680}'
        || c == '\u{2000}'
        || c == '\u{2001}'
        || c == '\u{2002}'
        || c == '\u{2003}'
        || c == '\u{2004}'
        || c == '\u{2005}'
        || c == '\u{2006}'
        || c == '\u{2007}'
        || c == '\u{2008}'
        || c == '\u{2009}'
        || c == '\u{200a}'
        || c == '\u{2028}'
        || c == '\u{2029}'
        || c == '\u{202f}'
        || c == '\u{205f}'
        || c == '\u{3000}'
}

/// Where the first word of `s` begins and where it ends, counted in
/// characters.
pub fn first_word_bounds(s: &str) -> (bounds: (usize, usize))
    ensures
        bounds.0 <= bounds.1 <= s@.len(),
        s@.subrange(bounds.0 as int, bounds.1 as int) == first_word(s@),
{
    let chars = chars_of(s);
    let mut start: usize = 0;
    assert(s@.skip(0) =~= s@);
    while start < chars.len() && is_whitespace(chars[start])
        invariant
            start <= chars.len(),
            chars@ == s@,
            skip_spaces(s@) == skip_spaces(s@.skip(start as int)),
        decreases chars.len() - start,
    {
        assert(s@.skip(start as int).drop_first() =~= s@.skip(start + 1));
        start += 1;
    }
    let ghost rest = s@.skip(start as int);
    assert(skip_spaces(s@) == rest);
    let mut end: usize = start;
    while end < chars.len() && !is_whitespace(chars[end])
        invariant
            start <= end <= chars.len(),
            chars@ == s@,
            rest == s@.skip(start as int),
            forall|j: int| 0 <= j < end - start ==> !is_space(rest[j]),
        decreases chars.len() - end,
    {
        end += 1;
    }
    proof {
        lemma_leading_word(rest, end - start);
        assert(rest.take(end - start) =~= s@.subrange(start as int, end as int));
    }
    (start, end)
}

} // verus!
