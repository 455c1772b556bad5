//! Verified text primitives: whitespace handling, searching, trimming,
//! line splitting, decimal tokens and decimal rendering.
//!
//! Everything here is pure computation over the characters of a string; each
//! executable function is specified by a spec function over `Seq<char>`.

use vstd::prelude::*;

verus! {

/// A whitespace character: the Unicode `White_Space` set, the one Rust's
/// `char::is_whitespace` recognises.
pub open spec fn is_space(c: char) -> bool {
    let u = c as u32;
    u == 0x9 || u == 0xA || u == 0xB || u == 0xC || u == 0xD || u == 0x20 || u == 0x85
        || u == 0xA0 || u == 0x1680 || (0x2000 <= u && u <= 0x200A) || u == 0x2028 || u == 0x2029
        || u == 0x202F || u == 0x205F || u == 0x3000
}

/// Whether `c` is a whitespace character.
pub fn char_is_space(c: char) -> (r: bool)
    ensures
        r == is_space(c),
{
    let u = c as u32;
    u == 0x9 || u == 0xA || u == 0xB || u == 0xC || u == 0xD || u == 0x20 || u == 0x85
        || u == 0xA0 || u == 0x1680 || (0x2000 <= u && u <= 0x200A) || u == 0x2028 || u == 0x2029
        || u == 0x202F || u == 0x205F || u == 0x3000
}

/// The index of the first character of `s` satisfying `p`, or `s.len()` if
/// none does.
pub open spec fn find_if(s: Seq<char>, p: spec_fn(char) -> bool) -> int
    decreases s.len(),
{
    if s.len() == 0 {
        0
    } else if p(s[0]) {
        0
    } else {
        1 + find_if(s.subrange(1, s.len() as int), p)
    }
}

/// `find_if` returns the first satisfying index: it lies in `[0, s.len()]`,
/// nothing before it satisfies `p`, and it satisfies `p` unless it is the
/// length.
pub proof fn lemma_find_if(s: Seq<char>, p: spec_fn(char) -> bool)
    ensures
        0 <= find_if(s, p) <= s.len(),
        forall|k: int| 0 <= k < find_if(s, p) ==> !p(s[k]),
        find_if(s, p) < s.len() ==> p(s[find_if(s, p)]),
    decreases s.len(),
{
    if s.len() == 0 {
    } else if p(s[0]) {
    } else {
        let t = s.subrange(1, s.len() as int);
        lemma_find_if(t, p);
        assert forall|k: int| 0 <= k < find_if(s, p) implies !p(s[k]) by {
            if k > 0 {
                assert(s[k] == t[k - 1]);
            }
        }
        if find_if(s, p) < s.len() {
            assert(s[find_if(s, p)] == t[find_if(s, p) - 1]);
        }
    }
}

/// Any index with the first-satisfying property is `find_if`.
pub proof fn lemma_find_if_unique(s: Seq<char>, p: spec_fn(char) -> bool, i: int)
    requires
        0 <= i <= s.len(),
        forall|k: int| 0 <= k < i ==> !p(s[k]),
        i < s.len() ==> p(s[i]),
    ensures
        i == find_if(s, p),
{
    lemma_find_if(s, p);
    let f = find_if(s, p);
    if i < f {
        assert(!p(s[i]));
    } else if f < i {
        assert(!p(s[f]));
    }
}

/// The predicate holding exactly on the character `c`.
pub open spec fn eq_char_pred(c: char) -> spec_fn(char) -> bool {
    |x: char| x == c
}

/// The predicate holding on whitespace characters.
pub open spec fn space_pred() -> spec_fn(char) -> bool {
    |x: char| is_space(x)
}

/// The predicate holding on non-whitespace characters.
pub open spec fn non_space_pred() -> spec_fn(char) -> bool {
    |x: char| !is_space(x)
}

/// The index of the first occurrence of `c` in `s`, or `s.len()` if absent.
pub open spec fn find_char(s: Seq<char>, c: char) -> int {
    find_if(s, eq_char_pred(c))
}

/// The index of the first whitespace character of `s`, or `s.len()`.
pub open spec fn find_space(s: Seq<char>) -> int {
    find_if(s, space_pred())
}

/// The index of the first non-whitespace character of `s`, or `s.len()`.
pub open spec fn skip_spaces(s: Seq<char>) -> int {
    find_if(s, non_space_pred())
}

/// `s` without its leading whitespace.
pub open spec fn trim_start_spec(s: Seq<char>) -> Seq<char> {
    s.subrange(skip_spaces(s), s.len() as int)
}

/// The length of `s` once trailing whitespace is dropped.
pub open spec fn end_trim(s: Seq<char>) -> int
    decreases s.len(),
{
    if s.len() > 0 && is_space(s.last()) {
        end_trim(s.drop_last())
    } else {
        s.len() as int
    }
}

/// `end_trim` keeps exactly the part before the trailing whitespace run.
pub proof fn lemma_end_trim(s: Seq<char>)
    ensures
        0 <= end_trim(s) <= s.len(),
        forall|k: int| end_trim(s) <= k < s.len() ==> is_space(s[k]),
        end_trim(s) > 0 ==> !is_space(s[end_trim(s) - 1]),
    decreases s.len(),
{
    if s.len() > 0 && is_space(s.last()) {
        lemma_end_trim(s.drop_last());
        assert forall|k: int| end_trim(s) <= k < s.len() implies is_space(s[k]) by {
            if k < s.len() - 1 {
                assert(s[k] == s.drop_last()[k]);
            }
        }
    }
}

/// Any cut with the trailing-whitespace property is `end_trim`.
pub proof fn lemma_end_trim_unique(s: Seq<char>, i: int)
    requires
        0 <= i <= s.len(),
        forall|k: int| i <= k < s.len() ==> is_space(s[k]),
        i > 0 ==> !is_space(s[i - 1]),
    ensures
        i == end_trim(s),
{
    lemma_end_trim(s);
    let e = end_trim(s);
    if i < e {
        assert(is_space(s[e - 1]));
    } else if e < i {
        assert(is_space(s[i - 1]));
    }
}

/// `s` without leading and trailing whitespace.
pub open spec fn trim_spec(s: Seq<char>) -> Seq<char> {
    trim_start_spec(s.subrange(0, end_trim(s)))
}

/// Whether `p` is a prefix of `s`.
pub open spec fn starts_with(s: Seq<char>, p: Seq<char>) -> bool {
    s.len() >= p.len() && s.subrange(0, p.len() as int) == p
}

/// Whether the string `s` starts with the string `p`.
pub fn starts_with_str(s: &str, p: &str) -> (r: bool)
    ensures
        r == starts_with(s@, p@),
{
    let n = s.unicode_len();
    let m = p.unicode_len();
    if n < m {
        return false;
    }
    let mut i: usize = 0;
    while i < m
        invariant
            0 <= i <= m,
            m <= n,
            m == p@.len(),
            n == s@.len(),
            forall|k: int| 0 <= k < i ==> s@[k] == p@[k],
        decreases m - i,
    {
        if s.get_char(i) != p.get_char(i) {
            assert(s@.subrange(0, m as int)[i as int] != p@[i as int]);
            return false;
        }
        i += 1;
    }
    assert(s@.subrange(0, m as int) =~= p@);
    true
}

/// Whether two strings hold the same characters.
pub fn str_eq(a: &str, b: &str) -> (r: bool)
    ensures
        r == (a@ == b@),
{
    let n = a.unicode_len();
    if n != b.unicode_len() {
        return false;
    }
    let mut i: usize = 0;
    while i < n
        invariant
            0 <= i <= n,
            n == a@.len(),
            n == b@.len(),
            forall|k: int| 0 <= k < i ==> a@[k] == b@[k],
        decreases n - i,
    {
        if a.get_char(i) != b.get_char(i) {
            return false;
        }
        i += 1;
    }
    assert(a@ =~= b@);
    true
}

/// The string `s` without leading whitespace.
pub fn trim_start_str<'a>(s: &'a str) -> (r: &'a str)
    ensures
        r@ == trim_start_spec(s@),
{
    let n = s.unicode_len();
    let mut i: usize = 0;
    while i < n && char_is_space(s.get_char(i))
        invariant
            0 <= i <= n,
            n == s@.len(),
            forall|k: int| 0 <= k < i ==> is_space(s@[k]),
        decreases n - i,
    {
        i += 1;
    }
    proof {
        let p = non_space_pred();
        assert(forall|k: int| 0 <= k < i ==> !p(#[trigger] s@[k]));
        assert(i < n ==> p(s@[i as int]));
        lemma_find_if_unique(s@, p, i as int);
    }
    s.substring_char(i, n)
}

/// The string `s` without leading and trailing whitespace.
pub fn trim_str<'a>(s: &'a str) -> (r: &'a str)
    ensures
        r@ == trim_spec(s@),
{
    let n = s.unicode_len();
    let mut e: usize = n;
    while e > 0 && char_is_space(s.get_char(e - 1))
        invariant
            0 <= e <= n,
            n == s@.len(),
            forall|k: int| e <= k < n ==> is_space(s@[k]),
        decreases e,
    {
        e -= 1;
    }
    proof {
        lemma_end_trim_unique(s@, e as int);
    }
    let head = s.substring_char(0, e);
    trim_start_str(head)
}

/// `s` with every leading repetition of the two-character link marker `=>`
/// removed.
pub open spec fn strip_markers(s: Seq<char>) -> Seq<char>
    decreases s.len(),
{
    if s.len() >= 2 && s[0] == '=' && s[1] == '>' {
        strip_markers(s.subrange(2, s.len() as int))
    } else {
        s
    }
}

/// The string `s` with every leading `=>` removed.
pub fn strip_markers_str<'a>(s: &'a str) -> (r: &'a str)
    ensures
        r@ == strip_markers(s@),
{
    let n = s.unicode_len();
    let mut i: usize = 0;
    proof {
        assert(s@.subrange(0, n as int) =~= s@);
    }
    while n - i >= 2 && s.get_char(i) == '=' && s.get_char(i + 1) == '>'
        invariant
            0 <= i <= n,
            n == s@.len(),
            strip_markers(s@) == strip_markers(s@.subrange(i as int, n as int)),
        decreases n - i,
    {
        proof {
            let t = s@.subrange(i as int, n as int);
            assert(t[0] == '=' && t[1] == '>');
            assert(t.subrange(2, t.len() as int) =~= s@.subrange(i + 2, n as int));
        }
        i += 2;
    }
    proof {
        let t = s@.subrange(i as int, n as int);
        assert(!(t.len() >= 2 && t[0] == '=' && t[1] == '>'));
    }
    s.substring_char(i, n)
}

/// A line with one trailing carriage return removed, as the line splitter
/// does to a line it cut at a newline.
pub open spec fn strip_cr(l: Seq<char>) -> Seq<char> {
    if l.len() > 0 && l.last() == '\r' {
        l.drop_last()
    } else {
        l
    }
}

/// The lines of `s`: pieces cut at each newline, each with a trailing
/// carriage return removed; a piece after the last newline only if nonempty;
/// no line keeps its terminator. The empty text has no lines.
pub open spec fn spec_lines(s: Seq<char>) -> Seq<Seq<char>>
    decreases s.len(),
{
    if s.len() == 0 {
        Seq::empty()
    } else {
        let i = find_char(s, '\n');
        if 0 <= i < s.len() {
            seq![strip_cr(s.subrange(0, i))] + spec_lines(s.subrange(i + 1, s.len() as int))
        } else {
            seq![s]
        }
    }
}

/// The index of the first `c` at or after `from` in `s`, or the length of
/// `s` if there is none.
pub fn find_char_from(s: &str, from: usize, c: char) -> (r: usize)
    requires
        from <= s@.len(),
    ensures
        from <= r <= s@.len(),
        r - from == find_char(s@.subrange(from as int, s@.len() as int), c),
{
    let n = s.unicode_len();
    let mut i: usize = from;
    while i < n && s.get_char(i) != c
        invariant
            from <= i <= n,
            n == s@.len(),
            forall|k: int| from <= k < i ==> s@[k] != c,
        decreases n - i,
    {
        i += 1;
    }
    proof {
        let t = s@.subrange(from as int, n as int);
        let p = eq_char_pred(c);
        assert forall|k: int| 0 <= k < i - from implies !p(t[k]) by {
            assert(t[k] == s@[from + k]);
        }
        assert(i < n ==> p(t[i as int - from as int]));
        lemma_find_if_unique(t, p, i as int - from as int);
    }
    i
}

/// The index of the first whitespace character at or after `from` in `s`, or
/// the length of `s` if there is none.
pub fn find_space_from(s: &str, from: usize) -> (r: usize)
    requires
        from <= s@.len(),
    ensures
        from <= r <= s@.len(),
        r - from == find_space(s@.subrange(from as int, s@.len() as int)),
{
    let n = s.unicode_len();
    let mut i: usize = from;
    while i < n && !char_is_space(s.get_char(i))
        invariant
            from <= i <= n,
            n == s@.len(),
            forall|k: int| from <= k < i ==> !is_space(#[trigger] s@[k]),
        decreases n - i,
    {
        i += 1;
    }
    proof {
        let t = s@.subrange(from as int, n as int);
        let p = space_pred();
        assert forall|k: int| 0 <= k < i - from implies !p(t[k]) by {
            assert(t[k] == s@[from + k]);
        }
        assert(i < n ==> p(t[i as int - from as int]));
        lemma_find_if_unique(t, p, i as int - from as int);
    }
    i
}

/// The index of the first non-whitespace character at or after `from` in
/// `s`, or the length of `s` if there is none.
pub fn skip_spaces_from(s: &str, from: usize) -> (r: usize)
    requires
        from <= s@.len(),
    ensures
        from <= r <= s@.len(),
        r - from == skip_spaces(s@.subrange(from as int, s@.len() as int)),
{
    let n = s.unicode_len();
    let mut i: usize = from;
    while i < n && char_is_space(s.get_char(i))
        invariant
            from <= i <= n,
            n == s@.len(),
            forall|k: int| from <= k < i ==> is_space(#[trigger] s@[k]),
        decreases n - i,
    {
        i += 1;
    }
    proof {
        let t = s@.subrange(from as int, n as int);
        let p = non_space_pred();
        assert forall|k: int| 0 <= k < i - from implies !p(t[k]) by {
            assert(t[k] == s@[from + k]);
        }
        assert(i < n ==> p(t[i as int - from as int]));
        lemma_find_if_unique(t, p, i as int - from as int);
    }
    i
}

/// The lines of the string `s`, per `spec_lines`.
pub fn split_lines<'a>(s: &'a str) -> (r: Vec<&'a str>)
    ensures
        r@.map_values(|l: &str| l@) == spec_lines(s@),
    decreases s@.len(),
{
    let n = s.unicode_len();
    if n == 0 {
        let r: Vec<&'a str> = Vec::new();
        assert(r@.map_values(|l: &str| l@) =~= spec_lines(s@));
        return r;
    }
    let i = find_char_from(s, 0, '\n');
    proof {
        assert(s@.subrange(0, n as int) =~= s@);
        lemma_find_if(s@, |x: char| x == '\n');
    }
    if i == n {
        let mut r: Vec<&'a str> = Vec::new();
        r.push(s);
        assert(r@.map_values(|l: &str| l@) =~= spec_lines(s@));
        return r;
    }
    let head_end = if i > 0 && s.get_char(i - 1) == '\r' {
        i - 1
    } else {
        i
    };
    let head = s.substring_char(0, head_end);
    let tail = s.substring_char(i + 1, n);
    proof {
        assert(head@ =~= strip_cr(s@.subrange(0, i as int)));
    }
    let mut r: Vec<&'a str> = Vec::new();
    r.push(head);
    let mut rest = split_lines(tail);
    r.append(&mut rest);
    proof {
        assert(r@.map_values(|l: &str| l@) =~= spec_lines(s@));
    }
    r
}

/// The given lines joined with newline separators: empty for no lines, and
/// no terminator after the last.
pub open spec fn spec_join(lines: Seq<Seq<char>>) -> Seq<char>
    decreases lines.len(),
{
    if lines.len() == 0 {
        Seq::empty()
    } else if lines.len() == 1 {
        lines[0]
    } else {
        spec_join(lines.drop_last()) + seq!['\n'] + lines.last()
    }
}

/// The given lines joined with newline separators, per `spec_join`.
pub fn join_lines(lines: &Vec<String>) -> (r: String)
    ensures
        r@ == spec_join(lines@.map_values(|l: String| l@)),
{
    let ghost model = lines@.map_values(|l: String| l@);
    let mut r = String::new();
    let mut i: usize = 0;
    while i < lines.len()
        invariant
            0 <= i <= lines.len(),
            model == lines@.map_values(|l: String| l@),
            r@ == spec_join(model.subrange(0, i as int)),
        decreases lines.len() - i,
    {
        if i > 0 {
            r.append("\n");
        }
        r.append(lines[i].as_str());
        proof {
            reveal_strlit("\n");
            let pre = model.subrange(0, i as int);
            let cur = model.subrange(0, i + 1);
            assert(cur.drop_last() =~= pre);
            assert(cur.last() == model[i as int]);
            if i == 0 {
                assert(r@ =~= spec_join(cur));
            } else {
                assert("\n"@ =~= seq!['\n']);
                assert(r@ =~= spec_join(cur));
            }
        }
        i += 1;
    }
    proof {
        assert(model.subrange(0, lines.len() as int) =~= model);
    }
    r
}

/// A decimal digit.
pub open spec fn is_digit(c: char) -> bool {
    48 <= c as u32 <= 57
}

/// The value of a decimal digit.
pub open spec fn digit_val(c: char) -> nat {
    (c as u32 - 48) as nat
}

/// Whether every character of `s` is a decimal digit.
pub open spec fn all_digits(s: Seq<char>) -> bool {
    forall|k: int| 0 <= k < s.len() ==> is_digit(#[trigger] s[k])
}

/// The value of the digit string `s`, most significant digit first.
pub open spec fn digits_val(s: Seq<char>) -> nat
    decreases s.len(),
{
    if s.len() == 0 {
        0
    } else {
        10 * digits_val(s.drop_last()) + digit_val(s.last())
    }
}

/// A longer digit prefix never has a smaller value.
pub proof fn lemma_digits_val_mono(s: Seq<char>, i: int, j: int)
    requires
        0 <= i <= j <= s.len(),
    ensures
        digits_val(s.subrange(0, i)) <= digits_val(s.subrange(0, j)),
    decreases j - i,
{
    if i < j {
        lemma_digits_val_mono(s, i, j - 1);
        let pre = s.subrange(0, j - 1);
        let cur = s.subrange(0, j);
        assert(cur.drop_last() =~= pre);
    }
}

/// A decimal token with an optional leading `+` removed.
pub open spec fn dec_token(s: Seq<char>) -> Seq<char> {
    if s.len() > 0 && s[0] == '+' {
        s.subrange(1, s.len() as int)
    } else {
        s
    }
}

/// The decimal number a token denotes: an optional leading `+`, then one or
/// more digits, with no other character and no sign alone; `None` otherwise.
pub open spec fn spec_parse_dec(s: Seq<char>) -> Option<nat> {
    if dec_token(s).len() > 0 && all_digits(dec_token(s)) {
        Some(digits_val(dec_token(s)))
    } else {
        None
    }
}

/// The token `s` read as a status code: a decimal number up to 255, else
/// nothing. Matches what `u8` parsing accepts, but for its sign handling:
/// a leading `+` is taken, a leading `-` is not.
pub open spec fn spec_parse_u8(s: Seq<char>) -> Option<u8> {
    match spec_parse_dec(s) {
        Some(n) => if n <= 255 {
            Some(n as u8)
        } else {
            None
        },
        None => None,
    }
}

/// Reads a decimal token bounded by `max`: `Some(n)` exactly when the token
/// denotes a number `n <= max`.
pub fn parse_dec_bounded(s: &str, max: usize) -> (r: Option<usize>)
    ensures
        match spec_parse_dec(s@) {
            Some(n) => if n <= max {
                r == Some(n as usize)
            } else {
                r is None
            },
            None => r is None,
        },
{
    let n = s.unicode_len();
    let start: usize = if n > 0 && s.get_char(0) == '+' {
        1
    } else {
        0
    };
    let ghost t = dec_token(s@);
    assert(t =~= s@.subrange(start as int, n as int));
    if start == n {
        return None;
    }
    let mut acc: u128 = 0;
    let mut i: usize = start;
    while i < n
        invariant
            start <= i <= n,
            n == s@.len(),
            t == dec_token(s@),
            t == s@.subrange(start as int, n as int),
            all_digits(t.subrange(0, i - start)),
            acc == digits_val(t.subrange(0, i - start)),
            acc <= max as u128,
            max as u128 <= u128::MAX / 16,
        decreases n - i,
    {
        let c = s.get_char(i);
        let u = c as u32;
        if u < 48 || u > 57 {
            proof {
                assert(t[i - start] == s@[i as int]);
                assert(!is_digit(t[i - start]));
                assert(!all_digits(t));
            }
            return None;
        }
        let d: u128 = (u - 48) as u128;
        let next: u128 = acc * 10 + d;
        proof {
            let pre = t.subrange(0, i - start);
            let cur = t.subrange(0, i - start + 1);
            assert(cur.drop_last() =~= pre);
            assert(cur.last() == t[i - start]);
            assert(t[i - start] == s@[i as int]);
        }
        if next > max as u128 {
            proof {
                let cur = t.subrange(0, i - start + 1);
                assert(digits_val(cur) == next);
                lemma_digits_val_mono(t, i - start + 1, t.len() as int);
                assert(t.subrange(0, t.len() as int) =~= t);
                assert(digits_val(t) >= next > max);
            }
            return None;
        }
        acc = next;
        i += 1;
    }
    proof {
        assert(t.subrange(0, t.len() as int) =~= t);
    }
    Some(acc as usize)
}

/// Reads a status-code token, per `spec_parse_u8`.
pub fn parse_u8_token(s: &str) -> (r: Option<u8>)
    ensures
        r == spec_parse_u8(s@),
{
    match parse_dec_bounded(s, 255) {
        Some(v) => Some(v as u8),
        None => None,
    }
}

/// The digit character for `d`.
pub open spec fn digit_char(d: nat) -> char {
    if d == 0 {
        '0'
    } else if d == 1 {
        '1'
    } else if d == 2 {
        '2'
    } else if d == 3 {
        '3'
    } else if d == 4 {
        '4'
    } else if d == 5 {
        '5'
    } else if d == 6 {
        '6'
    } else if d == 7 {
        '7'
    } else if d == 8 {
        '8'
    } else {
        '9'
    }
}

/// The decimal rendering of `n`, most significant digit first, no sign and
/// no leading zero except for zero itself.
pub open spec fn dec_digits(n: nat) -> Seq<char>
    decreases n,
{
    if n < 10 {
        seq![digit_char(n)]
    } else {
        dec_digits(n / 10).push(digit_char(n % 10))
    }
}

/// The one-character string for the digit `d`.
fn digit_str(d: usize) -> (r: &'static str)
    requires
        d < 10,
    ensures
        r@ == seq![digit_char(d as nat)],
{
    proof {
        reveal_strlit("0");
        reveal_strlit("1");
        reveal_strlit("2");
        reveal_strlit("3");
        reveal_strlit("4");
        reveal_strlit("5");
        reveal_strlit("6");
        reveal_strlit("7");
        reveal_strlit("8");
        reveal_strlit("9");
    }
    let r = match d {
        0 => "0",
        1 => "1",
        2 => "2",
        3 => "3",
        4 => "4",
        5 => "5",
        6 => "6",
        7 => "7",
        8 => "8",
        _ => "9",
    };
    proof {
        assert(r@ =~= seq![digit_char(d as nat)]);
    }
    r
}

/// The decimal rendering of `n`, per `dec_digits`.
pub fn render_dec(n: usize) -> (r: String)
    ensures
        r@ == dec_digits(n as nat),
    decreases n,
{
    if n < 10 {
        let r = String::from_str(digit_str(n));
        return r;
    }
    let mut r = render_dec(n / 10);
    r.append(digit_str(n % 10));
    proof {
        assert((n as nat) / 10 == (n / 10) as nat);
        assert((n as nat) % 10 == (n % 10) as nat);
        assert(r@ =~= dec_digits((n as nat) / 10).push(digit_char((n as nat) % 10)));
    }
    r
}

} // verus!
