//! Character-level helpers: building strings, Unicode whitespace, splitting
//! on whitespace, and decimal integers (printing and parsing).

use vstd::prelude::*;

verus! {

/// Appends one character to a `String`.
///
/// Calls std's `String::push`; the contract claims only what its
/// documentation says: the character is appended at the end.
#[verifier::external_body]
pub(crate) fn push_char(s: &mut String, c: char)
    ensures
        final(s)@ == old(s)@.push(c),
{
    s.push(c);
}

/// The characters of `s`, in order.
pub fn chars_of(s: &str) -> (res: Vec<char>)
    ensures
        res@ == s@,
{
    let n = s.unicode_len();
    let mut v: Vec<char> = Vec::new();
    for i in 0..n
        invariant
            n == s@.len(),
            v@ == s@.take(i as int),
    {
        let c = s.get_char(i);
        v.push(c);
        assert(s@.take(i + 1) =~= s@.take(i as int).push(c));
    }
    assert(s@.take(n as int) =~= s@);
    v
}

/// A `String` holding the characters of `v`.
pub fn string_from_chars(v: &[char]) -> (res: String)
    ensures
        res@ == v@,
{
    let mut s = String::new();
    for i in 0..v.len()
        invariant
            s@ == v@.take(i as int),
    {
        push_char(&mut s, v[i]);
        assert(v@.take(i + 1) =~= v@.take(i as int).push(v@[i as int]));
    }
    assert(v@.take(v@.len() as int) =~= v@);
    s
}

/// The Unicode `White_Space` characters, which `char::is_whitespace` accepts.
pub open spec fn is_whitespace(c: char) -> bool {
    let u = c as u32;
    ||| 0x09 <= u <= 0x0d
    ||| u == 0x20
    ||| u == 0x85
    ||| u == 0xa0
    ||| u == 0x1680
    ||| 0x2000 <= u <= 0x200a
    ||| u == 0x2028
    ||| u == 0x2029
    ||| u == 0x202f
    ||| u == 0x205f
    ||| u == 0x3000
}

/// Whether `c` is a Unicode whitespace character.
pub fn char_is_whitespace(c: char) -> (res: bool)
    ensures
        res == is_whitespace(c),
{
    let u = c as u32;
    (0x09 <= u && u <= 0x0d) || u == 0x20 || u == 0x85 || u == 0xa0 || u == 0x1680 || (0x2000
        <= u && u <= 0x200a) || u == 0x2028 || u == 0x2029 || u == 0x202f || u == 0x205f || u
        == 0x3000
}

/// The maximal runs of non-whitespace characters of `s`, in order: what
/// `str::split_whitespace` yields.
pub open spec fn words(s: Seq<char>) -> Seq<Seq<char>>
    decreases s.len(),
{
    if s.len() == 0 {
        seq![]
    } else {
        let w = words(s.drop_last());
        if is_whitespace(s.last()) {
            w
        } else if s.len() >= 2 && !is_whitespace(s[s.len() - 2]) {
            w.update(w.len() - 1, w.last().push(s.last()))
        } else {
            w.push(seq![s.last()])
        }
    }
}

/// The view of a sequence of character vectors.
pub open spec fn views_of(v: Seq<Vec<char>>) -> Seq<Seq<char>> {
    v.map_values(|x: Vec<char>| x@)
}

/// Splits `s` on Unicode whitespace, dropping empty pieces.
pub fn split_whitespace(s: &[char]) -> (res: Vec<Vec<char>>)
    ensures
        views_of(res@) == words(s@),
{
    let mut done: Vec<Vec<char>> = Vec::new();
    let mut cur: Vec<char> = Vec::new();
    let n = s.len();
    for i in 0..n
        invariant
            n == s@.len(),
            cur@.len() > 0 <==> (i > 0 && !is_whitespace(s@[i - 1])),
            words(s@.take(i as int)) == if cur@.len() > 0 {
                views_of(done@).push(cur@)
            } else {
                views_of(done@)
            },
    {
        let c = s[i];
        let ghost prefix = s@.take(i + 1);
        assert(prefix.drop_last() =~= s@.take(i as int));
        assert(prefix.last() == c);
        if char_is_whitespace(c) {
            if cur.len() > 0 {
                let ghost old_done = done@;
                let w = cur;
                cur = Vec::new();
                done.push(w);
                assert(views_of(done@) =~= views_of(old_done).push(w@));
            }
        } else {
            if cur.len() > 0 {
                assert(s@[i - 1] == prefix[prefix.len() - 2]);
                let ghost w0 = views_of(done@).push(cur@);
                cur.push(c);
                assert(w0.update(w0.len() - 1, w0.last().push(c)) =~= views_of(done@).push(cur@));
            } else {
                let ghost d = views_of(done@);
                cur.push(c);
                assert(cur@ =~= seq![c]);
                if i > 0 {
                    assert(is_whitespace(prefix[prefix.len() - 2]));
                }
                assert(d.push(seq![c]) =~= views_of(done@).push(cur@));
            }
        }
    }
    assert(s@.take(n as int) =~= s@);
    if cur.len() > 0 {
        let ghost old_done = done@;
        let ghost last = cur@;
        done.push(cur);
        assert(views_of(done@) =~= views_of(old_done).push(last));
    }
    done
}

/// The character that shows the decimal digit `d`.
pub open spec fn digit_char(d: nat) -> char {
    (d + 48) as char
}

/// Whether `c` is an ASCII decimal digit.
pub open spec fn is_digit(c: char) -> bool {
    48 <= (c as u32) <= 57
}

/// The decimal notation of `n`, without sign or leading zeros: what std's
/// `Display` of an unsigned integer writes.
pub open spec fn decimal(n: nat) -> Seq<char>
    decreases n,
{
    if n < 10 {
        seq![digit_char(n)]
    } else {
        decimal(n / 10).push(digit_char(n % 10))
    }
}

/// The value of a run of decimal digits (the empty run has value 0).
pub open spec fn digits_value(s: Seq<char>) -> nat
    decreases s.len(),
{
    if s.len() == 0 {
        0
    } else {
        digits_value(s.drop_last()) * 10 + ((s.last() as u32) - 48) as nat
    }
}

/// Whether every character of `t` is an ASCII digit.
pub open spec fn all_digits(t: Seq<char>) -> bool {
    forall|i: int| 0 <= i < t.len() ==> is_digit(#[trigger] t[i])
}

/// `s` without its leading `+`, if it has one.
pub open spec fn without_plus(s: Seq<char>) -> Seq<char> {
    if s.len() > 0 && s[0] == '+' {
        s.drop_first()
    } else {
        s
    }
}

/// What std's `u64::from_str` returns: an optional `+` followed by at least
/// one ASCII digit, whose value fits in a `u64`.
pub open spec fn parse_u64_spec(s: Seq<char>) -> Option<u64> {
    let body = without_plus(s);
    if body.len() > 0 && all_digits(body) && digits_value(body) <= u64::MAX {
        Some(digits_value(body) as u64)
    } else {
        None
    }
}

/// Writes `n` in decimal.
pub fn u64_to_decimal(n: u64) -> (res: String)
    ensures
        res@ == decimal(n as nat),
{
    // digits, least significant first
    let mut rev: Vec<char> = Vec::new();
    let mut m: u64 = n;
    loop
        invariant_except_break
            decimal(n as nat) == decimal(m as nat) + rev@.reverse(),
        invariant
            m <= n,
        ensures
            decimal(n as nat) == rev@.reverse(),
        decreases m,
    {
        let d = m % 10;
        let c = ((d + 48) as u8) as char;
        assert(c == digit_char(d as nat));
        let ghost old_rev = rev@;
        rev.push(c);
        assert(rev@.reverse() =~= seq![c] + old_rev.reverse());
        if m < 10 {
            assert(decimal(m as nat) == seq![c]);
            break ;
        }
        assert(decimal(m as nat) == decimal((m / 10) as nat).push(c));
        assert(decimal((m / 10) as nat).push(c) + old_rev.reverse() =~= decimal((m / 10) as nat)
            + rev@.reverse());
        m = m / 10;
    }
    let mut s = String::new();
    let len = rev.len();
    let mut i = len;
    while i > 0
        invariant
            i <= len == rev@.len(),
            s@ == rev@.reverse().take((len - i) as int),
        decreases i,
    {
        i = i - 1;
        push_char(&mut s, rev[i]);
        assert(rev@.reverse().take((len - i) as int) =~= rev@.reverse().take(
            (len - i - 1) as int,
        ).push(rev@[i as int]));
    }
    assert(rev@.reverse().take(len as int) =~= rev@.reverse());
    s
}

/// The value of a digit run never drops when the run grows.
pub proof fn lemma_digits_value_prefix(s: Seq<char>, k: int)
    requires
        0 <= k <= s.len(),
    ensures
        digits_value(s.take(k)) <= digits_value(s),
    decreases s.len(),
{
    if k < s.len() {
        let p = s.drop_last();
        assert(p.take(k) =~= s.take(k));
        lemma_digits_value_prefix(p, k);
    } else {
        assert(s.take(k) =~= s);
    }
}

/// Parses a `u64` written in decimal, as std's `u64::from_str` does.
pub fn parse_u64(s: &[char]) -> (res: Option<u64>)
    ensures
        res == parse_u64_spec(s@),
{
    let start: usize = if s.len() > 0 && s[0] == '+' {
        1
    } else {
        0
    };
    let ghost body = without_plus(s@);
    assert(body =~= s@.skip(start as int));
    if start >= s.len() {
        return None;
    }
    let mut acc: u64 = 0;
    let mut i: usize = start;
    while i < s.len()
        invariant
            start <= i <= s@.len(),
            body == s@.skip(start as int),
            body == without_plus(s@),
            body.len() > 0,
            acc == digits_value(body.take(i - start)),
            forall|j: int| 0 <= j < i - start ==> is_digit(#[trigger] body[j]),
        decreases s.len() - i,
    {
        let c = s[i];
        let u = c as u32;
        assert(u == (c as u32));
        assert(body[i - start] == c);
        if !(48 <= u && u <= 57) {
            assert(!is_digit(body[i - start]));
            return None;
        }
        let d = (u - 48) as u64;
        let ghost next = body.take(i + 1 - start);
        assert(next.drop_last() =~= body.take(i - start));
        assert(next.last() == c);
        assert(digits_value(next) == acc * 10 + d);
        match acc.checked_mul(10) {
            Some(t) => match t.checked_add(d) {
                Some(v) => {
                    acc = v;
                },
                None => {
                    proof {
                        lemma_digits_value_prefix(body, i + 1 - start);
                    }
                    return None;
                },
            },
            None => {
                proof {
                    lemma_digits_value_prefix(body, i + 1 - start);
                }
                return None;
            },
        }
        i = i + 1;
    }
    assert(body.take(i - start) =~= body);
    Some(acc)
}

/// The decimal notation of `n` is a non-empty run of digits worth `n`.
pub proof fn lemma_decimal_digits(n: nat)
    ensures
        decimal(n).len() > 0,
        forall|i: int| 0 <= i < decimal(n).len() ==> is_digit(#[trigger] decimal(n)[i]),
        digits_value(decimal(n)) == n,
    decreases n,
{
    assert((digit_char(n % 10) as u32) == n % 10 + 48);
    assert(((digit_char(n % 10) as u32) - 48) as nat == n % 10);
    assert(decimal(n).last() == digit_char(n % 10));
    if n >= 10 {
        lemma_decimal_digits(n / 10);
        assert(decimal(n).drop_last() =~= decimal(n / 10));
        assert(n == (n / 10) * 10 + n % 10);
    } else {
        assert(decimal(n).drop_last() =~= Seq::<char>::empty());
        assert(digits_value(Seq::<char>::empty()) == 0);
    }
}

/// Reading back what `u64_to_decimal` writes gives the number again.
pub proof fn law_decimal_round_trip(n: u64)
    ensures
        parse_u64_spec(decimal(n as nat)) == Some(n),
{
    lemma_decimal_digits(n as nat);
    assert(is_digit(decimal(n as nat)[0]));
    assert(without_plus(decimal(n as nat)) == decimal(n as nat));
}

/// Whether `w` holds no whitespace.
pub open spec fn no_whitespace(w: Seq<char>) -> bool {
    forall|i: int| 0 <= i < w.len() ==> !is_whitespace(#[trigger] w[i])
}

/// Appending a word `w` after a whitespace character adds `w` as the last
/// word, and the words before it stay.
pub proof fn lemma_words_append_word(s: Seq<char>, sep: char, w: Seq<char>)
    requires
        is_whitespace(sep),
        w.len() > 0,
        no_whitespace(w),
    ensures
        words(s + seq![sep] + w) == words(s).push(w),
    decreases w.len(),
{
    let t = s + seq![sep] + w;
    let p = w.drop_last();
    assert(t.drop_last() =~= s + seq![sep] + p);
    assert(t.last() == w.last());
    assert(!is_whitespace(w[w.len() - 1]));
    if p.len() == 0 {
        assert(s + seq![sep] + p =~= s.push(sep));
        assert((s.push(sep)).drop_last() =~= s);
        assert((s.push(sep)).last() == sep);
        assert(words(s.push(sep)) == words(s));
        assert(t[t.len() - 2] == sep);
        assert(w =~= seq![w.last()]);
        assert(words(t) == words(s.push(sep)).push(seq![t.last()]));
    } else {
        assert(no_whitespace(p)) by {
            assert forall|i: int| 0 <= i < p.len() implies !is_whitespace(#[trigger] p[i]) by {
                assert(p[i] == w[i]);
            }
        }
        lemma_words_append_word(s, sep, p);
        assert(t[t.len() - 2] == w[w.len() - 2]);
        let ws = words(s).push(p);
        assert(p.push(w.last()) =~= w);
        assert(ws.last() == p);
        assert(ws.update(ws.len() - 1, ws.last().push(w.last())) =~= words(s).push(w));
    }
}

/// A non-empty text without whitespace is one word.
pub proof fn lemma_words_single(w: Seq<char>)
    requires
        w.len() > 0,
        no_whitespace(w),
    ensures
        words(w) == seq![w],
    decreases w.len(),
{
    let p = w.drop_last();
    assert(!is_whitespace(w[w.len() - 1]));
    if p.len() == 0 {
        assert(w =~= seq![w.last()]);
        assert(words(p) =~= Seq::<Seq<char>>::empty());
    } else {
        assert(no_whitespace(p)) by {
            assert forall|i: int| 0 <= i < p.len() implies !is_whitespace(#[trigger] p[i]) by {
                assert(p[i] == w[i]);
            }
        }
        lemma_words_single(p);
        assert(w[w.len() - 2] == p.last());
        assert(p.push(w.last()) =~= w);
        assert(seq![p].last() == p);
        assert(seq![p].update(0, p.push(w.last())) =~= seq![w]);
    }
}

/// The lower-case hexadecimal digit for `d` (below sixteen).
pub open spec fn hex_digit(d: nat) -> char {
    if d < 10 {
        (d + 48) as char
    } else {
        (d + 87) as char
    }
}

/// How one character is written inside a JSON string by `serde_json`: a
/// quote and a backslash get a backslash, the control characters below
/// U+0020 are written `\b`, `\t`, `\n`, `\f`, `\r` or `\u00xx` (lower-case
/// hex), and every other character is written as it is.
pub open spec fn json_escape(c: char) -> Seq<char> {
    let u = c as u32;
    if c == '"' {
        seq!['\\', '"']
    } else if c == '\\' {
        seq!['\\', '\\']
    } else if u == 8 {
        seq!['\\', 'b']
    } else if u == 9 {
        seq!['\\', 't']
    } else if u == 10 {
        seq!['\\', 'n']
    } else if u == 12 {
        seq!['\\', 'f']
    } else if u == 13 {
        seq!['\\', 'r']
    } else if u < 32 {
        seq!['\\', 'u', '0', '0', hex_digit((u / 16) as nat), hex_digit((u % 16) as nat)]
    } else {
        seq![c]
    }
}

/// Whether `s` can stand inside a JSON string as it is: no quote, no
/// backslash, no control character below U+0020.
pub open spec fn json_plain(s: Seq<char>) -> bool {
    forall|i: int| 0 <= i < s.len() ==> {
        let c = #[trigger] s[i];
        c != '"' && c != '\\' && (c as u32) >= 32
    }
}

/// The escaped characters of a JSON string, without its quotes.
pub open spec fn json_escaped(s: Seq<char>) -> Seq<char>
    decreases s.len(),
{
    if s.len() == 0 {
        seq![]
    } else {
        json_escaped(s.drop_last()) + json_escape(s.last())
    }
}

/// The JSON text of the string `s`, as `serde_json::to_string` writes it.
pub open spec fn json_quote(s: Seq<char>) -> Seq<char> {
    seq!['"'] + json_escaped(s) + seq!['"']
}

/// The JSON strings of `items`, separated by commas.
pub open spec fn json_items(items: Seq<Seq<char>>) -> Seq<char>
    decreases items.len(),
{
    if items.len() == 0 {
        seq![]
    } else if items.len() == 1 {
        json_quote(items[0])
    } else {
        json_items(items.drop_last()) + seq![','] + json_quote(items.last())
    }
}

/// The JSON text of a list of strings, as `serde_json::to_string` writes
/// it (compact, no spaces).
pub open spec fn json_list_text(items: Seq<Seq<char>>) -> Seq<char> {
    seq!['['] + json_items(items) + seq![']']
}

} // verus!
