//! Small operations on text: splitting, trimming, numbers and paths.

use vstd::prelude::*;

verus! {

/// Whether two texts hold the same characters.
pub fn same_text(a: &str, b: &str) -> (same: bool)
    ensures
        same == (a@ == b@),
{
    let left = a.to_owned();
    let right = b.to_owned();
    left == right
}

/// The pieces of `s` between the occurrences of `sep`. There is always one
/// piece more than there are separators.
pub open spec fn pieces(s: Seq<char>, sep: char) -> Seq<Seq<char>>
    decreases s.len(),
{
    if s.len() == 0 {
        seq![Seq::empty()]
    } else {
        let before = pieces(s.drop_last(), sep);
        if s.last() == sep {
            before.push(Seq::empty())
        } else {
            before.drop_last().push(before.last().push(s.last()))
        }
    }
}

/// The texts of `parts`, one after the other, with `sep` between them.
pub open spec fn joined(parts: Seq<Seq<char>>, sep: char) -> Seq<char>
    decreases parts.len(),
{
    if parts.len() == 0 {
        Seq::empty()
    } else if parts.len() == 1 {
        parts[0]
    } else {
        joined(parts.drop_last(), sep).push(sep) + parts.last()
    }
}

/// Splitting never gives an empty list.
pub proof fn pieces_not_empty(s: Seq<char>, sep: char)
    ensures
        pieces(s, sep).len() > 0,
    decreases s.len(),
{
    if s.len() > 0 {
        pieces_not_empty(s.drop_last(), sep);
    }
}

/// Splitting loses nothing: the pieces joined by the separator are the text,
/// and no piece holds a separator.
pub proof fn pieces_join_back(s: Seq<char>, sep: char)
    ensures
        joined(pieces(s, sep), sep) == s,
        forall|i: int| 0 <= i < pieces(s, sep).len() ==> !(#[trigger] pieces(s, sep)[i]).contains(sep),
    decreases s.len(),
{
    if s.len() == 0 {
        assert(joined(pieces(s, sep), sep) =~= s);
    } else {
        let before = pieces(s.drop_last(), sep);
        pieces_join_back(s.drop_last(), sep);
        pieces_not_empty(s.drop_last(), sep);
        let now = pieces(s, sep);
        if s.last() == sep {
            assert(now.drop_last() =~= before);
            assert(joined(now, sep) =~= s);
        } else {
            assert(now.drop_last() =~= before.drop_last());
            let tail = before.last().push(s.last());
            assert(now.last() == tail);
            assert(s =~= s.drop_last().push(s.last()));
            if before.len() == 1 {
                assert(joined(before, sep) == before.last());
                assert(now[0] == tail);
                assert(joined(now, sep) == tail);
            } else {
                let front = joined(before.drop_last(), sep).push(sep);
                assert(joined(before, sep) == front + before.last());
                assert(joined(now, sep) == front + tail);
                assert(front + tail =~= (front + before.last()).push(s.last()));
            }
            assert forall|i: int| 0 <= i < now.len() implies !(#[trigger] now[i]).contains(sep) by {
                if i == now.len() - 1 {
                    assert(now[i] == tail);
                    assert(!before[before.len() - 1].contains(sep));
                    if tail.contains(sep) {
                        let k = choose|k: int| 0 <= k < tail.len() && tail[k] == sep;
                        assert(before.last()[k] == sep);
                    }
                } else {
                    assert(now[i] == before[i]);
                }
            }
        }
    }
}

/// Splits `s` at every `sep`.
pub fn split(s: &str, sep: char) -> (parts: Vec<String>)
    ensures
        parts.deep_view() == pieces(s@, sep),
{
    let len: usize = s.unicode_len();
    let mut parts: Vec<String> = Vec::new();
    let mut start: usize = 0;
    let mut i: usize = 0;
    assert(s@.take(0).len() == 0);
    assert(s@.subrange(0, 0) =~= Seq::<char>::empty());
    assert(pieces(s@.take(0), sep) =~= parts.deep_view().push(s@.subrange(0, 0)));
    while i < len
        invariant
            len == s@.len(),
            start <= i <= len,
            pieces(s@.take(i as int), sep) == parts.deep_view().push(
                s@.subrange(start as int, i as int),
            ),
        decreases len - i,
    {
        let c = s.get_char(i);
        let ghost before = parts.deep_view();
        let ghost held = s@.subrange(start as int, i as int);
        proof {
            assert(s@.take(i as int + 1).drop_last() =~= s@.take(i as int));
            assert(s@.take(i as int + 1).last() == c);
            assert(before.push(held).drop_last() =~= before);
        }
        if c == sep {
            let piece = s.substring_char(start, i).to_owned();
            parts.push(piece);
            start = i + 1;
            assert(parts.deep_view() =~= before.push(held));
            assert(s@.subrange(start as int, i as int + 1) =~= Seq::<char>::empty());
        } else {
            assert(s@.subrange(start as int, i as int + 1) =~= held.push(c));
        }
        i = i + 1;
    }
    let ghost before = parts.deep_view();
    let tail = s.substring_char(start, len).to_owned();
    parts.push(tail);
    assert(s@.take(len as int) =~= s@);
    assert(parts.deep_view() =~= before.push(s@.subrange(start as int, len as int)));
    parts
}

/// The first position of `sep` in `s`, or the length of `s`.
pub open spec fn position(s: Seq<char>, sep: char) -> int
    decreases s.len(),
{
    if s.len() == 0 || s[0] == sep {
        0
    } else {
        1 + position(s.drop_first(), sep)
    }
}

/// A position found is the first one that holds the separator.
pub proof fn position_is_first(s: Seq<char>, sep: char)
    ensures
        0 <= position(s, sep) <= s.len(),
        position(s, sep) < s.len() ==> s[position(s, sep)] == sep,
        forall|i: int| 0 <= i < position(s, sep) ==> s[i] != sep,
        s.contains(sep) == (position(s, sep) < s.len()),
    decreases s.len(),
{
    if s.len() == 0 || s[0] == sep {
    } else {
        position_is_first(s.drop_first(), sep);
        let rest = s.drop_first();
        let p = position(rest, sep);
        assert forall|i: int| 0 <= i < p + 1 implies s[i] != sep by {
            if i > 0 {
                assert(rest[i - 1] != sep);
            }
        }
        if p < rest.len() {
            assert(s[p + 1] == sep);
        }
    }
}

/// Splits `s` around the first `sep`; nothing where `s` holds none.
pub fn split_once(s: &str, sep: char) -> (halves: Option<(String, String)>)
    ensures
        match halves {
            Some((left, right)) => {
                &&& s@.contains(sep)
                &&& left@ == s@.take(position(s@, sep))
                &&& right@ == s@.skip(position(s@, sep) + 1)
            },
            None => !s@.contains(sep),
        },
{
    let len: usize = s.unicode_len();
    let mut i: usize = 0;
    proof {
        position_is_first(s@, sep);
    }
    while i < len
        invariant
            len == s@.len(),
            i <= len,
            forall|k: int| 0 <= k < i ==> s@[k] != sep,
            s@.contains(sep) == (position(s@, sep) < s@.len()),
            0 <= position(s@, sep) <= s@.len(),
            position(s@, sep) < s@.len() ==> s@[position(s@, sep)] == sep,
            forall|k: int| 0 <= k < position(s@, sep) ==> s@[k] != sep,
        decreases len - i,
    {
        if s.get_char(i) == sep {
            assert(position(s@, sep) == i);
            let left = s.substring_char(0, i).to_owned();
            let right = s.substring_char(i + 1, len).to_owned();
            assert(left@ =~= s@.take(i as int));
            assert(right@ =~= s@.skip(i as int + 1));
            return Some((left, right));
        }
        i = i + 1;
    }
    None
}

/// Whether Unicode gives `c` the property `White_Space`.
pub open spec fn white(c: char) -> bool {
    ||| '\u{9}' <= c <= '\u{d}'
    ||| c == '\u{20}'
    ||| c == '\u{85}'
    ||| c == '\u{a0}'
    ||| c == '\u{1680}'
    ||| '\u{2000}' <= c <= '\u{200a}'
    ||| c == '\u{2028}'
    ||| c == '\u{2029}'
    ||| c == '\u{202f}'
    ||| c == '\u{205f}'
    ||| c == '\u{3000}'
}

/// Whether `c` is white space.
pub fn is_white(c: char) -> (yes: bool)
    ensures
        yes == white(c),
{
    ('\u{9}' <= c && c <= '\u{d}') || c == '\u{20}' || c == '\u{85}' || c == '\u{a0}' || c
        == '\u{1680}' || ('\u{2000}' <= c && c <= '\u{200a}') || c == '\u{2028}' || c == '\u{2029}'
        || c == '\u{202f}' || c == '\u{205f}' || c == '\u{3000}'
}

/// `s` without the white space at its two ends.
pub open spec fn trimmed(s: Seq<char>) -> Seq<char>
    decreases s.len(),
{
    if s.len() == 0 {
        s
    } else if white(s[0]) {
        trimmed(s.drop_first())
    } else if white(s.last()) {
        trimmed(s.drop_last())
    } else {
        s
    }
}

/// Removes the white space at both ends of `s`.
pub fn trim(s: &str) -> (rest: String)
    ensures
        rest@ == trimmed(s@),
{
    let len: usize = s.unicode_len();
    let mut lo: usize = 0;
    assert(s@.subrange(0, len as int) =~= s@);
    while lo < len && is_white(s.get_char(lo))
        invariant
            len == s@.len(),
            lo <= len,
            trimmed(s@) == trimmed(s@.subrange(lo as int, len as int)),
        decreases len - lo,
    {
        assert(s@.subrange(lo as int, len as int).drop_first() =~= s@.subrange(
            lo as int + 1,
            len as int,
        ));
        lo = lo + 1;
    }
    let mut hi: usize = len;
    while lo < hi && is_white(s.get_char(hi - 1))
        invariant
            len == s@.len(),
            lo <= hi <= len,
            lo < hi ==> !white(s@[lo as int]),
            trimmed(s@) == trimmed(s@.subrange(lo as int, hi as int)),
        decreases hi,
    {
        assert(s@.subrange(lo as int, hi as int).drop_last() =~= s@.subrange(
            lo as int,
            hi as int - 1,
        ));
        hi = hi - 1;
    }
    s.substring_char(lo, hi).to_owned()
}

/// Whether `c` is one of the ten digits.
pub open spec fn digit(c: char) -> bool {
    '0' <= c <= '9'
}

/// The number that a row of digits stands for.
pub open spec fn digits_value(s: Seq<char>) -> int
    decreases s.len(),
{
    if s.len() == 0 {
        0
    } else {
        digits_value(s.drop_last()) * 10 + (s.last() as int - '0' as int)
    }
}

/// What follows the sign of a number, if it has one.
pub open spec fn unsigned_part(s: Seq<char>) -> Seq<char> {
    if s.len() > 0 && (s[0] == '+' || s[0] == '-') {
        s.drop_first()
    } else {
        s
    }
}

/// The `i32` that `s` spells in decimal: an optional sign and at least one
/// digit, within range. Nothing else is a number.
pub open spec fn i32_value(s: Seq<char>) -> Option<int> {
    let body = unsigned_part(s);
    let size = digits_value(body);
    let value = if s.len() > 0 && s[0] == '-' {
        -size
    } else {
        size
    };
    if body.len() > 0 && (forall|i: int| 0 <= i < body.len() ==> digit(body[i])) && i32::MIN
        <= value <= i32::MAX {
        Some(value)
    } else {
        None
    }
}

proof fn digits_value_grows(s: Seq<char>, n: int)
    requires
        0 <= n <= s.len(),
        forall|i: int| 0 <= i < s.len() ==> digit(s[i]),
    ensures
        0 <= digits_value(s.take(n)) <= digits_value(s),
    decreases s.len() - n, n,
{
    if n == s.len() {
        assert(s.take(n) =~= s);
        if n > 0 {
            assert(s.drop_last() =~= s.take(n - 1));
            digits_value_nonnegative(s);
        }
    } else {
        digits_value_grows(s, n + 1);
        assert(s.take(n + 1).drop_last() =~= s.take(n));
        assert(s.take(n + 1).last() == s[n]);
        digits_value_nonnegative(s.take(n));
    }
}

proof fn digits_value_nonnegative(s: Seq<char>)
    requires
        forall|i: int| 0 <= i < s.len() ==> digit(s[i]),
    ensures
        0 <= digits_value(s),
    decreases s.len(),
{
    if s.len() > 0 {
        digits_value_nonnegative(s.drop_last());
    }
}

/// Reads a decimal `i32`.
pub fn parse_i32(s: &str) -> (value: Option<i32>)
    ensures
        match value {
            Some(v) => i32_value(s@) == Some(v as int),
            None => i32_value(s@) is None,
        },
{
    let len: usize = s.unicode_len();
    let mut from: usize = 0;
    let mut negative = false;
    if len > 0 {
        let first = s.get_char(0);
        if first == '-' {
            negative = true;
            from = 1;
        } else if first == '+' {
            from = 1;
        }
    }
    let ghost body = unsigned_part(s@);
    assert(body =~= s@.skip(from as int));
    if from == len {
        return None;
    }
    let mut size: i64 = 0;
    let mut i: usize = from;
    while i < len
        invariant
            len == s@.len(),
            from <= i <= len,
            from < len,
            body == s@.skip(from as int),
            body == unsigned_part(s@),
            0 <= size <= 2147483648,
            forall|k: int| 0 <= k < i - from ==> digit(body[k]),
            size == digits_value(body.take(i - from)),
            negative == (s@.len() > 0 && s@[0] == '-'),
        decreases len - i,
    {
        let c = s.get_char(i);
        assert(c == body[i - from]);
        if c < '0' || c > '9' {
            return None;
        }
        let d: i64 = (c as u32 - '0' as u32) as i64;
        assert(body.take(i - from + 1).drop_last() =~= body.take(i - from));
        size = size * 10 + d;
        if size > 2147483648 {
            proof {
                if forall|k: int| 0 <= k < body.len() ==> digit(body[k]) {
                    digits_value_grows(body, i - from + 1);
                }
            }
            return None;
        }
        i = i + 1;
    }
    assert(body.take(len - from) =~= body);
    let value: i64 = if negative {
        -size
    } else {
        size
    };
    if value > 2147483647 {
        None
    } else {
        Some(value as i32)
    }
}

/// `n` in decimal.
pub open spec fn decimal_digits(n: nat) -> Seq<char>
    decreases n,
{
    let last = seq!['0', '1', '2', '3', '4', '5', '6', '7', '8', '9'][n as int % 10];
    if n < 10 {
        seq![last]
    } else {
        decimal_digits(n / 10).push(last)
    }
}

fn digit_text(d: u64) -> (text: &'static str)
    requires
        d < 10,
    ensures
        text@ == seq![seq!['0', '1', '2', '3', '4', '5', '6', '7', '8', '9'][d as int]],
{
    proof {
        reveal_strlit("0");
        reveal_strlit("1");
        reveal_strlit("2");
        reveal_strlit("3");
        reveal_strlit("4");
        reveal_strlit("5");
        reveal_strlit("6");
        reveal_strlit("7");
        reveal_strlit("8");
        reveal_strlit("9");
    }
    if d == 0 {
        "0"
    } else if d == 1 {
        "1"
    } else if d == 2 {
        "2"
    } else if d == 3 {
        "3"
    } else if d == 4 {
        "4"
    } else if d == 5 {
        "5"
    } else if d == 6 {
        "6"
    } else if d == 7 {
        "7"
    } else if d == 8 {
        "8"
    } else {
        "9"
    }
}

/// Writes `n` in decimal.
pub fn decimal(n: u64) -> (text: String)
    ensures
        text@ == decimal_digits(n as nat),
    decreases n,
{
    let last = digit_text(n % 10);
    if n < 10 {
        last.to_owned()
    } else {
        let mut text = decimal(n / 10);
        text.append(last);
        assert(text@ =~= decimal_digits(n as nat));
        text
    }
}

proof fn decimal_digits_value(n: nat)
    ensures
        digits_value(decimal_digits(n)) == n,
        decimal_digits(n).len() > 0,
        forall|i: int| 0 <= i < decimal_digits(n).len() ==> digit(decimal_digits(n)[i]),
    decreases n,
{
    let all = decimal_digits(n);
    if n < 10 {
        assert(all.drop_last() =~= Seq::<char>::empty());
        assert(digits_value(all.drop_last()) == 0);
    } else {
        decimal_digits_value(n / 10);
        assert(all.drop_last() =~= decimal_digits(n / 10));
    }
}

/// `n` in decimal, with a minus sign where it is negative.
pub open spec fn signed_decimal(n: int) -> Seq<char> {
    if n < 0 {
        seq!['-'] + decimal_digits((-n) as nat)
    } else {
        decimal_digits(n as nat)
    }
}

/// Writes `n` in decimal.
pub fn decimal_i32(n: i32) -> (text: String)
    ensures
        text@ == signed_decimal(n as int),
{
    if n < 0 {
        let size: u64 = (-(n as i64)) as u64;
        proof {
            reveal_strlit("-");
        }
        let digits = decimal(size);
        let text = "-".to_owned().concat(digits.as_str());
        assert(text@ =~= seq!['-'] + decimal_digits(size as nat));
        text
    } else {
        decimal(n as u64)
    }
}

/// A number has no white space at its ends.
pub proof fn signed_decimal_is_not_white(n: int)
    ensures
        signed_decimal(n).len() > 0,
        !white(signed_decimal(n)[0]),
        !white(signed_decimal(n).last()),
{
    let digits = decimal_digits((if n < 0 {
        -n
    } else {
        n
    }) as nat);
    decimal_digits_value((if n < 0 {
        -n
    } else {
        n
    }) as nat);
    assert(digit(digits[0]));
    assert(digit(digits[digits.len() - 1]));
}

/// A number is read back from its decimal text.
pub proof fn signed_decimal_reads_back(n: int)
    requires
        i32::MIN <= n <= i32::MAX,
    ensures
        i32_value(signed_decimal(n)) == Some(n),
{
    if n < 0 {
        decimal_digits_value((-n) as nat);
        assert(signed_decimal(n).drop_first() =~= decimal_digits((-n) as nat));
    } else {
        decimal_digits_value(n as nat);
        assert(digit(decimal_digits(n as nat)[0]));
    }
}

/// `path` seen from `base`: one slash stands between the two, unless `base` is
/// empty or ends in one. A path that starts with a slash stands for itself.
pub open spec fn path_below(base: Seq<char>, path: Seq<char>) -> Seq<char> {
    if path.len() > 0 && path[0] == '/' {
        path
    } else if base.len() == 0 || base.last() == '/' {
        base + path
    } else {
        base.push('/') + path
    }
}

/// Joins a path to `base`.
pub fn join_path(base: &str, path: &str) -> (joined: String)
    ensures
        joined@ == path_below(base@, path@),
{
    if path.unicode_len() > 0 && path.get_char(0) == '/' {
        return path.to_owned();
    }
    let len: usize = base.unicode_len();
    let start = base.to_owned();
    if len == 0 || base.get_char(len - 1) == '/' {
        start.concat(path)
    } else {
        proof {
            reveal_strlit("/");
        }
        let joined = start.concat("/").concat(path);
        assert(joined@ =~= base@.push('/') + path@);
        joined
    }
}

/// Two texts are the same when they have the same length and the same character
/// at every place.
pub proof fn same_texts_agree_everywhere(a: &str, b: &str, same: bool)
    requires
        call_ensures(same_text, (a, b), same),
    ensures
        same <==> a@.len() == b@.len() && forall|i: int|
            0 <= i < a@.len() ==> #[trigger] a@[i] == b@[i],
{
    if a@.len() == b@.len() && (forall|i: int| 0 <= i < a@.len() ==> #[trigger] a@[i] == b@[i]) {
        assert(a@ =~= b@);
    }
}

/// Joining one part is that part; each further part follows the others after one
/// separator.
pub proof fn joining_puts_one_separator_between(
    parts: Seq<Seq<char>>,
    more: Seq<char>,
    sep: char,
)
    ensures
        joined(seq![more], sep) == more,
        parts.len() > 0 ==> joined(parts.push(more), sep) == joined(parts, sep) + seq![sep] + more,
{
    if parts.len() > 0 {
        assert(parts.push(more).drop_last() =~= parts);
        assert(joined(parts.push(more), sep) =~= joined(parts, sep) + seq![sep] + more);
    }
}

/// The parts of a text hold no separator, and joined by it they are the text.
pub proof fn splitting_is_undone_by_joining(s: &str, sep: char, parts: Vec<String>, i: int)
    requires
        call_ensures(split, (s, sep), parts),
    ensures
        parts@.len() > 0,
        0 <= i < parts@.len() ==> !parts@[i]@.contains(sep),
        joined(parts.deep_view(), sep) == s@,
{
    pieces_not_empty(s@, sep);
    pieces_join_back(s@, sep);
    assert(parts.deep_view().len() == parts@.len());
    if 0 <= i < parts@.len() {
        assert(parts.deep_view()[i] == parts@[i]@);
    }
}

/// Splitting once gives what stands around the first separator, and fails exactly
/// where there is none.
pub proof fn splitting_once_takes_the_first(
    s: &str,
    sep: char,
    halves: Option<(String, String)>,
)
    requires
        call_ensures(split_once, (s, sep), halves),
    ensures
        halves is Some <==> s@.contains(sep),
        halves matches Some((left, right)) ==> {
            &&& left@ + seq![sep] + right@ == s@
            &&& !left@.contains(sep)
        },
{
    position_is_first(s@, sep);
    if let Some((left, right)) = halves {
        let p = position(s@, sep);
        assert(left@ + seq![sep] + right@ =~= s@);
        if left@.contains(sep) {
            let k = choose|k: int| 0 <= k < left@.len() && left@[k] == sep;
            assert(s@[k] == sep);
        }
    }
}

/// White space is what Unicode lists as such.
pub proof fn white_space_is_listed(c: char, yes: bool)
    requires
        call_ensures(is_white, (c,), yes),
    ensures
        yes <==> {
            let n = c as int;
            ||| 9 <= n <= 13
            ||| n == 32
            ||| n == 133
            ||| n == 160
            ||| n == 5760
            ||| 8192 <= n <= 8202
            ||| n == 8232
            ||| n == 8233
            ||| n == 8239
            ||| n == 8287
            ||| n == 12288
        },
{
}

proof fn trimmed_is_a_part(s: Seq<char>) -> (part: (int, int))
    ensures
        0 <= part.0 <= part.1 <= s.len(),
        trimmed(s) == s.subrange(part.0, part.1),
        forall|i: int| 0 <= i < part.0 ==> white(#[trigger] s[i]),
        forall|i: int| part.1 <= i < s.len() ==> white(#[trigger] s[i]),
        part.0 < part.1 ==> !white(s[part.0]) && !white(s[part.1 - 1]),
    decreases s.len(),
{
    if s.len() == 0 {
        assert(s =~= s.subrange(0, 0));
        (0, 0)
    } else if white(s[0]) {
        let rest = s.drop_first();
        let part = trimmed_is_a_part(rest);
        assert(rest.subrange(part.0, part.1) =~= s.subrange(part.0 + 1, part.1 + 1));
        assert forall|i: int| 0 <= i < part.0 + 1 implies white(#[trigger] s[i]) by {
            if i > 0 {
                assert(white(rest[i - 1]));
            }
        }
        assert forall|i: int| part.1 + 1 <= i < s.len() implies white(#[trigger] s[i]) by {
            assert(white(rest[i - 1]));
        }
        (part.0 + 1, part.1 + 1)
    } else if white(s.last()) {
        let rest = s.drop_last();
        let part = trimmed_is_a_part(rest);
        assert(rest.subrange(part.0, part.1) =~= s.subrange(part.0, part.1));
        assert forall|i: int| 0 <= i < part.0 implies white(#[trigger] s[i]) by {
            assert(white(rest[i]));
        }
        assert forall|i: int| part.1 <= i < s.len() implies white(#[trigger] s[i]) by {
            if i < rest.len() {
                assert(white(rest[i]));
            }
        }
        part
    } else {
        assert(s =~= s.subrange(0, s.len() as int));
        (0, s.len() as int)
    }
}

/// Trimming takes white space from both ends, and nothing else: what is left is a
/// part of the text that neither starts nor ends with white space, and all that
/// stands outside of it is white space.
pub proof fn trimming_takes_white_space_only(s: &str, rest: String)
    requires
        call_ensures(trim, (s,), rest),
    ensures
        rest@.len() > 0 ==> !white(rest@[0]) && !white(rest@[rest@.len() - 1]),
        exists|from: int|
            #![trigger s@.subrange(from, from + rest@.len())]
            {
                &&& 0 <= from <= s@.len() - rest@.len()
                &&& s@.subrange(from, from + rest@.len()) == rest@
                &&& forall|i: int|
                    0 <= i < from || from + rest@.len() <= i < s@.len() ==> white(#[trigger] s@[i])
            },
{
    let part = trimmed_is_a_part(s@);
    assert(rest@.len() == part.1 - part.0);
    assert(s@.subrange(part.0, part.0 + rest@.len()) == rest@);
}

/// Each further digit is worth a tenth of the one before it.
pub proof fn digits_count_in_tens(s: Seq<char>, d: char)
    ensures
        digits_value(Seq::<char>::empty()) == 0,
        digits_value(s.push(d)) == 10 * digits_value(s) + (d as int - 48),
{
    assert(s.push(d).drop_last() =~= s);
}

/// A number is read exactly where a text has digits only, at least one of them,
/// after at most one sign, and what they count fits; a minus sign turns it over.
pub proof fn numbers_are_read_by_their_digits(s: &str, value: Option<i32>, body: Seq<char>)
    requires
        call_ensures(parse_i32, (s,), value),
        s@ == body || s@ == seq!['+'] + body || s@ == seq!['-'] + body,
        body.len() > 0 ==> body[0] != '+' && body[0] != '-',
    ensures
        ({
            let negative = s@ == seq!['-'] + body;
            let counted = if negative {
                -digits_value(body)
            } else {
                digits_value(body)
            };
            &&& value is Some <==> {
                &&& body.len() > 0
                &&& forall|i: int| 0 <= i < body.len() ==> 48 <= (#[trigger] body[i]) as int <= 57
                &&& -2147483648 <= counted <= 2147483647
            }
            &&& value matches Some(v) ==> v == counted
        }),
{
    if s@ == body {
        if body.len() > 0 {
            assert((seq!['-'] + body)[0] == '-');
        }
        assert((seq!['-'] + body).len() == body.len() + 1);
    } else {
        assert(s@.drop_first() =~= body);
        assert((seq!['+'] + body)[0] == '+');
        assert((seq!['-'] + body)[0] == '-');
    }
    assert(unsigned_part(s@) == body);
    assert forall|i: int| 0 <= i < body.len() implies digit(body[i]) == (48 <= (
    #[trigger] body[i]) as int <= 57) by {}
    if forall|i: int| 0 <= i < body.len() ==> 48 <= (#[trigger] body[i]) as int <= 57 {
        assert(forall|i: int| 0 <= i < body.len() ==> digit(body[i]));
    }
    if forall|i: int| 0 <= i < body.len() ==> digit(body[i]) {
        assert forall|i: int| 0 <= i < body.len() implies 48 <= (#[trigger] body[i]) as int
            <= 57 by {
            assert(digit(body[i]));
        }
    }
}

proof fn decimal_digits_lead_with_no_zero(n: nat)
    ensures
        n > 0 ==> decimal_digits(n)[0] != '0',
        n == 0 ==> decimal_digits(n) == seq!['0'],
    decreases n,
{
    decimal_digits_value(n);
    if n >= 10 {
        decimal_digits_lead_with_no_zero(n / 10);
        decimal_digits_value(n / 10);
        assert(decimal_digits(n)[0] == decimal_digits(n / 10)[0]);
    }
}

/// A number is written with digits only, without a zero in front, so that they
/// count the number.
pub proof fn numbers_are_written_in_digits(n: u64, text: String, i: int)
    requires
        call_ensures(decimal, (n,), text),
    ensures
        text@.len() > 0,
        0 <= i < text@.len() ==> 48 <= text@[i] as int <= 57,
        digits_value(text@) == n,
        text@[0] == '0' ==> n == 0 && text@.len() == 1,
{
    decimal_digits_value(n as nat);
    decimal_digits_lead_with_no_zero(n as nat);
    if 0 <= i < text@.len() {
        assert(digit(text@[i]));
    }
}

/// A number is written with a minus sign exactly where it is negative, and its
/// size in digits after that.
pub proof fn signed_numbers_are_written_with_their_sign(n: i32, text: String, i: int)
    requires
        call_ensures(decimal_i32, (n,), text),
    ensures
        ({
            let size = if n < 0 {
                text@.drop_first()
            } else {
                text@
            };
            &&& n < 0 <==> text@[0] == '-'
            &&& size.len() > 0
            &&& 0 <= i < size.len() ==> 48 <= size[i] as int <= 57
            &&& digits_value(size) == (if n < 0 {
                -n
            } else {
                n as int
            })
            &&& size[0] == '0' ==> n == 0 && size.len() == 1
        }),
{
    let m = (if n < 0 {
        -n
    } else {
        n as int
    }) as nat;
    decimal_digits_value(m);
    decimal_digits_lead_with_no_zero(m);
    if n < 0 {
        assert(text@.drop_first() =~= decimal_digits(m));
    }
    assert(digit(decimal_digits(m)[0]));
    if 0 <= i < decimal_digits(m).len() {
        assert(digit(decimal_digits(m)[i]));
    }
}

/// A path that starts at the root stands for itself. Any other follows the path
/// that it is joined to, after exactly one slash, unless that one is empty.
pub proof fn paths_are_joined_by_one_slash(base: &str, path: &str, all: String)
    requires
        call_ensures(join_path, (base, path), all),
    ensures
        path@.len() > 0 && path@[0] == '/' ==> all@ == path@,
        !(path@.len() > 0 && path@[0] == '/') ==> {
            &&& base@.len() == 0 ==> all@ == path@
            &&& base@.len() > 0 && base@[base@.len() - 1] == '/' ==> all@ == base@ + path@
            &&& base@.len() > 0 && base@[base@.len() - 1] != '/' ==> all@ == base@ + seq!['/']
                + path@
        },
{
    if base@.len() == 0 {
        assert(base@ + path@ =~= path@);
    } else {
        assert(base@.push('/') + path@ =~= base@ + seq!['/'] + path@);
    }
}

} // verus!
