use vstd::prelude::*;

verus! {

/// The characters of `s`, in order.
pub fn chars_of(s: &str) -> (v: Vec<char>)
    ensures
        v@ == s@,
{
    let mut v: Vec<char> = Vec::new();
    for c in it: s.chars()
        invariant
            v@ == it.seq().take(it.index() as int),
            it.seq() == s@,
    {
        v.push(c);
    }
    v
}

/// The `White_Space` property of Unicode, which `char::is_whitespace` reports.
pub open spec fn is_whitespace(c: char) -> bool {
    ||| ('\u{9}' <= c && c <= '\u{d}')
    ||| c == ' '
    ||| c == '\u{85}'
    ||| c == '\u{a0}'
    ||| c == '\u{1680}'
    ||| ('\u{2000}' <= c && c <= '\u{200a}')
    ||| c == '\u{2028}'
    ||| c == '\u{2029}'
    ||| c == '\u{202f}'
    ||| c == '\u{205f}'
    ||| c == '\u{3000}'
}

pub fn char_is_whitespace(c: char) -> (r: bool)
    ensures
        r == is_whitespace(c),
{
    ('\u{9}' <= c && c <= '\u{d}') || c == ' ' || c == '\u{85}' || c == '\u{a0}' || c == '\u{1680}'
        || ('\u{2000}' <= c && c <= '\u{200a}') || c == '\u{2028}' || c == '\u{2029}' || c
        == '\u{202f}' || c == '\u{205f}' || c == '\u{3000}'
}

/// The words of `s` that follow the partial word `cur`: maximal runs of characters that
/// are not whitespace, scanned from the left.
pub open spec fn words_after(s: Seq<char>, cur: Seq<char>) -> Seq<Seq<char>>
    decreases s.len(),
{
    if s.len() == 0 {
        if cur.len() == 0 {
            seq![]
        } else {
            seq![cur]
        }
    } else if is_whitespace(s[0]) {
        if cur.len() == 0 {
            words_after(s.drop_first(), seq![])
        } else {
            seq![cur] + words_after(s.drop_first(), seq![])
        }
    } else {
        words_after(s.drop_first(), cur.push(s[0]))
    }
}

/// What `str::split_whitespace` yields for `s`.
pub open spec fn words(s: Seq<char>) -> Seq<Seq<char>> {
    words_after(s, seq![])
}

/// The position of the last `c` in `s`, as `str::rfind` finds it.
pub open spec fn last_index_of(s: Seq<char>, c: char) -> Option<int>
    decreases s.len(),
{
    if s.len() == 0 {
        None
    } else if s.last() == c {
        Some(s.len() - 1)
    } else {
        last_index_of(s.drop_last(), c)
    }
}

pub proof fn lemma_last_index_of_bounds(s: Seq<char>, c: char)
    ensures
        last_index_of(s, c) matches Some(i) ==> 0 <= i < s.len() && s[i] == c,
    decreases s.len(),
{
    if s.len() > 0 && s.last() != c {
        lemma_last_index_of_bounds(s.drop_last(), c);
    }
}

pub fn rfind_char(v: &Vec<char>, c: char) -> (r: Option<usize>)
    ensures
        match last_index_of(v@, c) {
            Some(i) => r == Some(i as usize),
            None => r is None,
        },
{
    let mut i = v.len();
    assert(v@.take(i as int) =~= v@);
    while i > 0
        invariant
            i <= v.len(),
            last_index_of(v@, c) == last_index_of(v@.take(i as int), c),
        decreases i,
    {
        assert(v@.take(i as int).drop_last() =~= v@.take(i - 1));
        if v[i - 1] == c {
            return Some(i - 1);
        }
        i = i - 1;
    }
    None
}

/// The character sequences held by a vector of character vectors.
pub open spec fn texts(v: Seq<Vec<char>>) -> Seq<Seq<char>> {
    v.map_values(|w: Vec<char>| w@)
}

pub proof fn lemma_texts_push(v: Seq<Vec<char>>, w: Vec<char>)
    ensures
        texts(v.push(w)) == texts(v).push(w@),
{
    assert(texts(v.push(w)) =~= texts(v).push(w@));
}

/// The words of `v[from..]`, as `split_whitespace` yields them.
pub fn split_words(v: &Vec<char>, from: usize) -> (r: Vec<Vec<char>>)
    requires
        from <= v.len(),
    ensures
        texts(r@) == words(v@.subrange(from as int, v@.len() as int)),
{
    let ghost all = v@.subrange(from as int, v@.len() as int);
    let mut out: Vec<Vec<char>> = Vec::new();
    let mut cur: Vec<char> = Vec::new();
    let mut i = from;
    assert(texts(out@) =~= seq![]);
    assert(seq![] + words(all) =~= words(all));
    assert(v@.subrange(i as int, v@.len() as int) == all);
    assert(cur@ =~= seq![]);
    while i < v.len()
        invariant
            from <= i <= v.len(),
            all == v@.subrange(from as int, v@.len() as int),
            texts(out@) + words_after(v@.subrange(i as int, v@.len() as int), cur@) == words(all),
        decreases v.len() - i,
    {
        let ghost rest = v@.subrange(i as int, v@.len() as int);
        assert(rest.drop_first() =~= v@.subrange(i + 1, v@.len() as int));
        assert(rest[0] == v@[i as int]);
        let c = v[i];
        if char_is_whitespace(c) {
            if cur.len() > 0 {
                let ghost before = texts(out@);
                let ghost w = cur@;
                proof {
                    lemma_texts_push(out@, cur);
                }
                out.push(cur);
                assert(before + (seq![w] + words_after(rest.drop_first(), seq![])) =~= before.push(
                    w,
                ) + words_after(rest.drop_first(), seq![]));
                cur = Vec::new();
                assert(cur@ =~= seq![]);
            } else {
                assert(cur@ =~= seq![]);
            }
        } else {
            cur.push(c);
        }
        i = i + 1;
    }
    assert(v@.subrange(i as int, v@.len() as int) =~= seq![]);
    if cur.len() > 0 {
        let ghost before = texts(out@);
        let ghost w = cur@;
        proof {
            lemma_texts_push(out@, cur);
        }
        out.push(cur);
        assert(before + seq![w] =~= before.push(w));
    } else {
        assert(texts(out@) + seq![] =~= texts(out@));
    }
    out
}

pub open spec fn is_decimal_digit(c: char) -> bool {
    '0' <= c && c <= '9'
}

/// The number that a string of decimal digits denotes.
pub open spec fn digits_value(d: Seq<char>) -> int
    decreases d.len(),
{
    if d.len() == 0 {
        0
    } else {
        digits_value(d.drop_last()) * 10 + (d.last() as int - '0' as int)
    }
}

/// The digits of an unsigned number's text: an optional leading `+` is dropped.
pub open spec fn unsigned_digits(s: Seq<char>) -> Seq<char> {
    if s.len() > 0 && s[0] == '+' {
        s.drop_first()
    } else {
        s
    }
}

/// What `str::parse` gives for an unsigned integer type whose largest value is `max`:
/// an optional `+`, then at least one decimal digit and nothing else, denoting at most `max`.
pub open spec fn parse_unsigned(s: Seq<char>, max: int) -> Option<int> {
    let d = unsigned_digits(s);
    if d.len() > 0 && (forall|i: int| 0 <= i < d.len() ==> is_decimal_digit(#[trigger] d[i]))
        && digits_value(d) <= max {
        Some(digits_value(d))
    } else {
        None
    }
}

/// Parses `s` as an unsigned integer no larger than `max`, as `str::parse` does.
pub fn parse_decimal(s: &Vec<char>, max: u64) -> (r: Option<u64>)
    ensures
        match r {
            Some(v) => parse_unsigned(s@, max as int) == Some(v as int),
            None => parse_unsigned(s@, max as int) is None,
        },
{
    let start: usize = if s.len() > 0 && s[0] == '+' {
        1
    } else {
        0
    };
    let ghost d = unsigned_digits(s@);
    assert(d =~= s@.subrange(start as int, s@.len() as int));
    if start >= s.len() {
        return None;
    }
    let mut value: u64 = 0;
    let mut over = false;
    let mut i = start;
    while i < s.len()
        invariant
            start <= i <= s.len(),
            d == s@.subrange(start as int, s@.len() as int),
            d == unsigned_digits(s@),
            forall|k: int| start <= k < i ==> is_decimal_digit(#[trigger] s@[k]),
            over ==> digits_value(d.take(i - start)) > max,
            !over ==> value == digits_value(d.take(i - start)) && value <= max,
        decreases s.len() - i,
    {
        let c = s[i];
        assert(d[i - start] == s@[i as int]);
        if !('0' <= c && c <= '9') {
            assert(!is_decimal_digit(d[i - start]));
            return None;
        }
        let digit: u64 = (c as u32 - '0' as u32) as u64;
        assert(d.take(i - start + 1).drop_last() =~= d.take(i - start));
        assert(d.take(i - start + 1).last() == c);
        if !over {
            let next: u128 = value as u128 * 10 + digit as u128;
            if next > max as u128 {
                over = true;
            } else {
                value = next as u64;
            }
        }
        i = i + 1;
    }
    assert(d.take(i - start) =~= d);
    assert forall|k: int| 0 <= k < d.len() implies is_decimal_digit(#[trigger] d[k]) by {
        assert(d[k] == s@[k + start]);
    }
    if over {
        None
    } else {
        Some(value)
    }
}

/// Words of a text followed by more text that starts with whitespace: the words of the
/// first part, then those of the second.
pub proof fn lemma_words_after_append(a: Seq<char>, b: Seq<char>, cur: Seq<char>)
    requires
        b.len() > 0,
        is_whitespace(b[0]),
    ensures
        words_after(a + b, cur) == words_after(a, cur) + words(b),
    decreases a.len(),
{
    if a.len() == 0 {
        assert(a + b =~= b);
        if cur.len() == 0 {
            assert(seq![] + words(b) =~= words(b));
        }
    } else {
        assert((a + b)[0] == a[0]);
        assert((a + b).drop_first() =~= a.drop_first() + b);
        if is_whitespace(a[0]) {
            lemma_words_after_append(a.drop_first(), b, seq![]);
            if cur.len() > 0 {
                assert(seq![cur] + (words_after(a.drop_first(), seq![]) + words(b)) =~= (seq![cur]
                    + words_after(a.drop_first(), seq![])) + words(b));
            }
        } else {
            lemma_words_after_append(a.drop_first(), b, cur.push(a[0]));
        }
    }
}

/// Appending text that holds no `c` keeps the last position of `c`.
pub proof fn lemma_last_index_append(a: Seq<char>, b: Seq<char>, c: char)
    requires
        forall|i: int| 0 <= i < b.len() ==> b[i] != c,
    ensures
        last_index_of(a + b, c) == last_index_of(a, c),
    decreases b.len(),
{
    if b.len() == 0 {
        assert(a + b =~= a);
    } else {
        assert((a + b).last() == b.last());
        assert((a + b).drop_last() =~= a + b.drop_last());
        lemma_last_index_append(a, b.drop_last(), c);
    }
}

/// The text of `ws`, each word preceded by one space.
pub open spec fn spaced(ws: Seq<Seq<char>>) -> Seq<char>
    decreases ws.len(),
{
    if ws.len() == 0 {
        seq![]
    } else {
        seq![' '] + ws[0] + spaced(ws.drop_first())
    }
}

/// A word: at least one character, none of them whitespace.
pub open spec fn is_word(w: Seq<char>) -> bool {
    w.len() > 0 && forall|i: int| 0 <= i < w.len() ==> !is_whitespace(#[trigger] w[i])
}

proof fn lemma_words_after_word(w: Seq<char>, t: Seq<char>, cur: Seq<char>)
    requires
        forall|i: int| 0 <= i < w.len() ==> !is_whitespace(#[trigger] w[i]),
    ensures
        words_after(w + t, cur) == words_after(t, cur + w),
    decreases w.len(),
{
    if w.len() == 0 {
        assert(w + t =~= t);
        assert(cur + w =~= cur);
    } else {
        assert((w + t)[0] == w[0]);
        assert((w + t).drop_first() =~= w.drop_first() + t);
        assert(!is_whitespace(w[0]));
        lemma_words_after_word(w.drop_first(), t, cur.push(w[0]));
        assert(cur.push(w[0]) + w.drop_first() =~= cur + w);
    }
}

/// Splitting spaced words gives the words back.
pub proof fn lemma_words_of_spaced(ws: Seq<Seq<char>>)
    requires
        forall|i: int| 0 <= i < ws.len() ==> is_word(#[trigger] ws[i]),
    ensures
        words(spaced(ws)) == ws,
    decreases ws.len(),
{
    if ws.len() == 0 {
    } else {
        let rest = spaced(ws.drop_first());
        let t = spaced(ws);
        assert(t == seq![' '] + ws[0] + rest);
        assert(t[0] == ' ');
        assert(t.drop_first() =~= ws[0] + rest);
        assert(is_word(ws[0]));
        lemma_words_after_word(ws[0], rest, seq![]);
        assert(seq![] + ws[0] =~= ws[0]);
        assert forall|i: int| 0 <= i < ws.drop_first().len() implies is_word(
            #[trigger] ws.drop_first()[i],
        ) by {
            assert(ws.drop_first()[i] == ws[i + 1]);
        }
        lemma_words_of_spaced(ws.drop_first());
        if ws.drop_first().len() == 0 {
            assert(rest =~= seq![]);
            assert(ws =~= seq![ws[0]]);
        } else {
            assert(rest[0] == ' ');
            assert(words(rest) == words_after(rest.drop_first(), seq![]));
            assert(ws =~= seq![ws[0]] + ws.drop_first());
        }
    }
}

/// Spaced words hold a `c` only where a word does.
pub proof fn lemma_spaced_lacks(ws: Seq<Seq<char>>, c: char)
    requires
        c != ' ',
        forall|i: int, j: int| 0 <= i < ws.len() && 0 <= j < ws[i].len() ==> ws[i][j] != c,
    ensures
        forall|k: int| 0 <= k < spaced(ws).len() ==> spaced(ws)[k] != c,
    decreases ws.len(),
{
    if ws.len() > 0 {
        assert forall|i: int, j: int|
            0 <= i < ws.drop_first().len() && 0 <= j < ws.drop_first()[i].len() implies ws.drop_first()[i][j]
            != c by {
            assert(ws.drop_first()[i] == ws[i + 1]);
        }
        lemma_spaced_lacks(ws.drop_first(), c);
        let rest = spaced(ws.drop_first());
        assert forall|k: int| 0 <= k < spaced(ws).len() implies spaced(ws)[k] != c by {
            if k == 0 {
            } else if k < 1 + ws[0].len() {
                assert(spaced(ws)[k] == ws[0][k - 1]);
            } else {
                assert(spaced(ws)[k] == rest[k - 1 - ws[0].len()]);
            }
        }
    }
}

} // verus!
