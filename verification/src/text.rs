//! Text utilities: whitespace normalisation, joining, prefix and number parsing.
use vstd::prelude::*;
use vstd::string::*;

verus! {

/// The Unicode `White_Space` property, which `char::is_whitespace` follows.
pub open spec fn is_white_space(c: char) -> bool {
    let v = c as u32;
    ||| 0x9 <= v <= 0xd
    ||| v == 0x20
    ||| v == 0x85
    ||| v == 0xa0
    ||| v == 0x1680
    ||| 0x2000 <= v <= 0x200a
    ||| v == 0x2028
    ||| v == 0x2029
    ||| v == 0x202f
    ||| v == 0x205f
    ||| v == 0x3000
}

/// Whether `c` is a Unicode whitespace character.
pub fn is_white_space_char(c: char) -> (r: bool)
    ensures
        r == is_white_space(c),
{
    let v = c as u32;
    (0x9 <= v && v <= 0xd) || v == 0x20 || v == 0x85 || v == 0xa0 || v == 0x1680 || (0x2000 <= v
        && v <= 0x200a) || v == 0x2028 || v == 0x2029 || v == 0x202f || v == 0x205f || v == 0x3000
}

/// The maximal runs of non-whitespace characters of `s`, in order.
pub open spec fn words(s: Seq<char>) -> Seq<Seq<char>>
    decreases s.len(),
{
    if s.len() == 0 {
        seq![]
    } else {
        let w = words(s.drop_last());
        let c = s.last();
        if is_white_space(c) {
            w
        } else if s.len() >= 2 && !is_white_space(s[s.len() - 2]) {
            w.drop_last().push(w.last().push(c))
        } else {
            w.push(seq![c])
        }
    }
}

/// The pieces of `ws` joined with `sep` between consecutive pieces.
pub open spec fn join(ws: Seq<Seq<char>>, sep: Seq<char>) -> Seq<char>
    decreases ws.len(),
{
    if ws.len() == 0 {
        seq![]
    } else if ws.len() == 1 {
        ws[0]
    } else {
        join(ws.drop_last(), sep) + sep + ws.last()
    }
}

/// `s` with its whitespace runs collapsed to one space and trimmed at both ends.
pub open spec fn normalized(s: Seq<char>) -> Seq<char> {
    join(words(s), seq![' '])
}

proof fn lemma_words_nonempty_iff(s: Seq<char>)
    ensures
        (words(s).len() == 0) <==> (forall|i: int| 0 <= i < s.len() ==> is_white_space(#[trigger] s[i])),
        s.len() > 0 && !is_white_space(s.last()) ==> words(s).len() > 0,
    decreases s.len(),
{
    if s.len() > 0 {
        lemma_words_nonempty_iff(s.drop_last());
        if words(s).len() == 0 {
            assert forall|i: int| 0 <= i < s.len() implies is_white_space(#[trigger] s[i]) by {
                if i < s.len() - 1 {
                    assert(s[i] == s.drop_last()[i]);
                }
            }
        } else {
            if forall|i: int| 0 <= i < s.len() ==> is_white_space(#[trigger] s[i]) {
                assert forall|i: int| 0 <= i < s.drop_last().len() implies is_white_space(
                    #[trigger] s.drop_last()[i],
                ) by {
                    assert(s.drop_last()[i] == s[i]);
                }
                assert(is_white_space(s[s.len() - 1]));
            }
        }
    }
}

proof fn lemma_join_push(ws: Seq<Seq<char>>, sep: Seq<char>, x: Seq<char>)
    ensures
        ws.len() > 0 ==> join(ws.push(x), sep) == join(ws, sep) + sep + x,
        ws.len() == 0 ==> join(ws.push(x), sep) == x,
{
    assert(ws.push(x).drop_last() =~= ws);
}

proof fn lemma_join_extend_last(ws: Seq<Seq<char>>, sep: Seq<char>, c: char)
    requires
        ws.len() > 0,
    ensures
        join(ws.drop_last().push(ws.last().push(c)), sep) == join(ws, sep).push(c),
{
    let pre = ws.drop_last();
    if pre.len() == 0 {
        assert(ws.drop_last().push(ws.last().push(c)) =~= seq![ws.last().push(c)]);
        assert(ws =~= seq![ws.last()]);
    } else {
        lemma_join_push(pre, sep, ws.last().push(c));
        lemma_join_push(pre, sep, ws.last());
        assert(pre.push(ws.last()) =~= ws);
        assert(join(pre, sep) + sep + ws.last().push(c) =~= (join(pre, sep) + sep + ws.last()).push(
            c,
        ));
    }
}

/// A word: a non-empty run of characters none of which is whitespace.
pub open spec fn is_word(w: Seq<char>) -> bool {
    w.len() > 0 && forall|i: int| 0 <= i < w.len() ==> !is_white_space(#[trigger] w[i])
}

/// Every piece that `words` yields is a word.
pub proof fn lemma_words_are_words(s: Seq<char>)
    ensures
        forall|k: int| 0 <= k < words(s).len() ==> is_word(#[trigger] words(s)[k]),
    decreases s.len(),
{
    if s.len() > 0 {
        let pre = s.drop_last();
        lemma_words_are_words(pre);
        let w = words(pre);
        let c = s.last();
        if !is_white_space(c) && s.len() >= 2 && !is_white_space(s[s.len() - 2]) {
            assert(pre[pre.len() - 1] == s[s.len() - 2]);
            lemma_words_nonempty_iff(pre);
            let last = w.last().push(c);
            assert(is_word(w[w.len() - 1]));
            assert(is_word(last)) by {
                assert forall|i: int| 0 <= i < last.len() implies !is_white_space(#[trigger] last[i]) by {
                    if i < last.len() - 1 {
                        assert(last[i] == w[w.len() - 1][i]);
                    }
                }
            }
            let r = w.drop_last().push(last);
            assert forall|k: int| 0 <= k < r.len() implies is_word(#[trigger] r[k]) by {
                if k < r.len() - 1 {
                    assert(r[k] == w[k]);
                }
            }
        } else if !is_white_space(c) {
            let r = w.push(seq![c]);
            assert forall|k: int| 0 <= k < r.len() implies is_word(#[trigger] r[k]) by {
                if k < r.len() - 1 {
                    assert(r[k] == w[k]);
                } else {
                    assert(r[k] =~= seq![c]);
                }
            }
        }
    }
}

/// After a whitespace character (or at the start), a word `x` adds itself as one more word.
proof fn lemma_words_append_word(t: Seq<char>, x: Seq<char>)
    requires
        t.len() == 0 || is_white_space(t.last()),
        is_word(x),
    ensures
        words(t + x) == words(t).push(x),
    decreases x.len(),
{
    let s = t + x;
    let c = x.last();
    if x.len() == 1 {
        assert(s.drop_last() =~= t);
        assert(s.last() == x[0]);
        assert(x =~= seq![c]);
        if s.len() >= 2 {
            assert(s[s.len() - 2] == t.last());
        }
    } else {
        let xp = x.drop_last();
        assert(is_word(xp)) by {
            assert forall|i: int| 0 <= i < xp.len() implies !is_white_space(#[trigger] xp[i]) by {
                assert(xp[i] == x[i]);
            }
        }
        lemma_words_append_word(t, xp);
        assert(s.drop_last() =~= t + xp);
        assert(s[s.len() - 2] == x[x.len() - 2]);
        assert(x[x.len() - 1] == s.last());
        assert(words(t).push(xp).drop_last() =~= words(t));
        assert(xp.push(c) =~= x);
    }
}

/// Splitting words joined by single spaces gives the words back.
pub proof fn lemma_words_of_join(ws: Seq<Seq<char>>)
    requires
        forall|k: int| 0 <= k < ws.len() ==> is_word(#[trigger] ws[k]),
    ensures
        words(join(ws, seq![' '])) == ws,
    decreases ws.len(),
{
    if ws.len() == 0 {
        assert(words(Seq::<char>::empty()) =~= ws);
    } else if ws.len() == 1 {
        assert(is_word(ws[0]));
        lemma_words_append_word(Seq::<char>::empty(), ws[0]);
        assert(Seq::<char>::empty() + ws[0] =~= ws[0]);
        assert(seq![ws[0]] =~= ws);
        assert(words(Seq::<char>::empty()) =~= Seq::<Seq<char>>::empty());
        assert(Seq::<Seq<char>>::empty().push(ws[0]) =~= ws);
    } else {
        let pre = ws.drop_last();
        assert forall|k: int| 0 <= k < pre.len() implies is_word(#[trigger] pre[k]) by {
            assert(pre[k] == ws[k]);
        }
        lemma_words_of_join(pre);
        let j = join(pre, seq![' ']);
        let t = j + seq![' '];
        assert(t.drop_last() =~= j);
        assert(is_white_space(t.last()));
        assert(words(t) == words(j));
        assert(is_word(ws[ws.len() - 1]));
        lemma_words_append_word(t, ws.last());
        assert(pre.push(ws.last()) =~= ws);
    }
}

/// Law: normalising text that is already normalised changes nothing.
pub proof fn law_normalized_idempotent(s: Seq<char>)
    ensures
        normalized(normalized(s)) == normalized(s),
{
    lemma_words_are_words(s);
    lemma_words_of_join(words(s));
}

/// Whether two strings hold the same characters (`str` equality).
#[verifier::external_body]
pub(crate) fn str_eq(a: &str, b: &str) -> (r: bool)
    ensures
        r == (a@ == b@),
{
    a == b
}

/// Appends the character `c` to `s`.
#[verifier::external_body]
fn string_push(s: &mut String, c: char)
    ensures
        final(s)@ == old(s)@.push(c),
{
    s.push(c);
}

/// Collapses every run of whitespace in `input` to a single space and trims both ends.
pub fn normalize_text(input: &str) -> (out: String)
    ensures
        out@ == normalized(input@),
{
    let mut out = String::new();
    let mut prev_white = true;
    let mut has_word = false;
    let ghost s = input@;
    let mut chars_it = input.chars();
    proof {
        broadcast use vstd::string::group_string_axioms;
    }
    assert(s.take(0) =~= Seq::<char>::empty());
    for c in it: chars_it
        invariant
            it.seq() == s,
            0 <= it.index() <= s.len(),
            out@ == normalized(s.take(it.index())),
            prev_white == (it.index() == 0 || is_white_space(s[it.index() - 1])),
            has_word == (words(s.take(it.index())).len() > 0),
    {
        let ghost i = it.index();
        let ghost pre = s.take(i);
        let ghost cur = s.take(i + 1);
        assert(cur.drop_last() =~= pre);
        assert(cur.last() == c);
        let w = is_white_space_char(c);
        if !w {
            if prev_white {
                proof {
                    lemma_words_nonempty_iff(pre);
                    lemma_join_push(words(pre), seq![' '], seq![c]);
                }
                if has_word {
                    string_push(&mut out, ' ');
                }
                string_push(&mut out, c);
                assert(out@ =~= normalized(cur));
            } else {
                proof {
                    assert(pre[pre.len() - 1] == s[i - 1]);
                    lemma_words_nonempty_iff(pre);
                    lemma_join_extend_last(words(pre), seq![' '], c);
                }
                string_push(&mut out, c);
            }
            has_word = true;
        }
        prev_white = w;
    }
    assert(s.take(s.len() as int) =~= s);
    out
}

/// The character of a decimal digit `d` (0 to 9).
pub open spec fn digit_char(d: int) -> char {
    if d == 0 { '0' }
    else if d == 1 { '1' }
    else if d == 2 { '2' }
    else if d == 3 { '3' }
    else if d == 4 { '4' }
    else if d == 5 { '5' }
    else if d == 6 { '6' }
    else if d == 7 { '7' }
    else if d == 8 { '8' }
    else { '9' }
}

/// The decimal representation of `n`, without leading zeros.
pub open spec fn decimal(n: nat) -> Seq<char>
    decreases n,
{
    if n < 10 {
        seq![digit_char(n as int)]
    } else {
        decimal(n / 10).push(digit_char((n % 10) as int))
    }
}

/// The decimal representation of `i`, with a leading minus sign when negative.
pub open spec fn signed_decimal(i: int) -> Seq<char> {
    if i < 0 {
        seq!['-'] + decimal((-i) as nat)
    } else {
        decimal(i as nat)
    }
}

fn digit_to_char(d: u64) -> (c: char)
    requires
        d < 10,
    ensures
        c == digit_char(d as int),
{
    if d == 0 { '0' }
    else if d == 1 { '1' }
    else if d == 2 { '2' }
    else if d == 3 { '3' }
    else if d == 4 { '4' }
    else if d == 5 { '5' }
    else if d == 6 { '6' }
    else if d == 7 { '7' }
    else if d == 8 { '8' }
    else { '9' }
}

/// Appends the decimal representation of `n` to `out`.
pub fn push_decimal(out: &mut String, n: u64)
    ensures
        final(out)@ == old(out)@ + decimal(n as nat),
    decreases n,
{
    if n >= 10 {
        push_decimal(out, n / 10);
    }
    let c = digit_to_char(n % 10);
    string_push(out, c);
    assert(final(out)@ =~= old(out)@ + decimal(n as nat));
}

/// Appends the decimal representation of `v` (with its sign) to `out`.
pub fn push_signed_decimal(out: &mut String, v: i64)
    requires
        v > i64::MIN,
    ensures
        final(out)@ == old(out)@ + signed_decimal(v as int),
{
    if v < 0 {
        string_push(out, '-');
        push_decimal(out, (-v) as u64);
        assert(final(out)@ =~= old(out)@ + signed_decimal(v as int));
    } else {
        push_decimal(out, v as u64);
    }
}

/// Appends `s` to `out`.
pub fn push_str(out: &mut String, s: &str)
    ensures
        final(out)@ == old(out)@ + s@,
{
    out.append(s);
}

/// Whether `c` is an ASCII decimal digit.
pub open spec fn is_ascii_digit(c: char) -> bool {
    48 <= (c as u32) <= 57
}

/// The value of the decimal digits `d`, most significant first.
pub open spec fn digits_value(d: Seq<char>) -> int
    decreases d.len(),
{
    if d.len() == 0 {
        0
    } else {
        digits_value(d.drop_last()) * 10 + ((d.last() as u32) - 48)
    }
}

/// Whether every character of `d` is an ASCII digit.
pub open spec fn all_digits(d: Seq<char>) -> bool {
    forall|i: int| 0 <= i < d.len() ==> is_ascii_digit(#[trigger] d[i])
}

/// What `str::parse::<u32>` gives for `s`: an optional `+` followed by at least
/// one ASCII digit, with a value that fits in a `u32`.
pub open spec fn parse_u32(s: Seq<char>) -> Option<u32> {
    let d = if s.len() > 0 && s[0] == '+' { s.skip(1) } else { s };
    if d.len() > 0 && all_digits(d) && digits_value(d) <= u32::MAX {
        Some(digits_value(d) as u32)
    } else {
        None
    }
}

/// `s` without any occurrence of `c`.
pub open spec fn remove_char(s: Seq<char>, c: char) -> Seq<char>
    decreases s.len(),
{
    if s.len() == 0 {
        s
    } else if s.last() == c {
        remove_char(s.drop_last(), c)
    } else {
        remove_char(s.drop_last(), c).push(s.last())
    }
}

/// The number written in `input`, once its thousands separators (`,`) are dropped.
pub open spec fn parsed_number(input: Option<Seq<char>>) -> Option<u32> {
    match input {
        Some(v) => parse_u32(remove_char(v, ',')),
        None => None,
    }
}

proof fn lemma_digits_value_grows(d: Seq<char>, k: int)
    requires
        all_digits(d),
        0 <= k <= d.len(),
    ensures
        0 <= digits_value(d.take(k)) <= digits_value(d),
    decreases d.len() - k,
{
    if k < d.len() {
        lemma_digits_value_grows(d, k + 1);
        assert(d.take(k + 1).drop_last() =~= d.take(k));
        assert(is_ascii_digit(d[k]));
    } else {
        assert(d.take(k) =~= d);
        lemma_digits_value_nonneg(d);
    }
}

proof fn lemma_digits_value_nonneg(d: Seq<char>)
    requires
        all_digits(d),
    ensures
        digits_value(d) >= 0,
    decreases d.len(),
{
    if d.len() > 0 {
        assert(all_digits(d.drop_last())) by {
            assert forall|i: int| 0 <= i < d.drop_last().len() implies is_ascii_digit(
                #[trigger] d.drop_last()[i],
            ) by {
                assert(d.drop_last()[i] == d[i]);
            }
        }
        lemma_digits_value_nonneg(d.drop_last());
        assert(is_ascii_digit(d[d.len() - 1]));
    }
}

/// The characters of `s`, in order.
pub fn chars_of(s: &str) -> (v: Vec<char>)
    ensures
        v@ == s@,
{
    let mut v: Vec<char> = Vec::new();
    let ghost t = s@;
    let mut chars_it = s.chars();
    proof {
        broadcast use vstd::string::group_string_axioms;
    }
    for c in it: chars_it
        invariant
            it.seq() == t,
            0 <= it.index() <= t.len(),
            v@ == t.take(it.index()),
    {
        let ghost i = it.index();
        assert(t.take(i + 1) =~= t.take(i).push(c));
        v.push(c);
    }
    assert(t.take(t.len() as int) =~= t);
    v
}

/// Parses `v` as `str::parse::<u32>` does.
pub fn parse_u32_chars(v: &Vec<char>) -> (r: Option<u32>)
    ensures
        r == parse_u32(v@),
{
    let n = v.len();
    let start: usize = if n > 0 && v[0] == '+' { 1 } else { 0 };
    let ghost d = if v@.len() > 0 && v@[0] == '+' { v@.skip(1) } else { v@ };
    assert(d =~= v@.skip(start as int));
    if start == n {
        return None;
    }
    let mut acc: u64 = 0;
    let mut i = start;
    assert(d.take(0) =~= Seq::<char>::empty());
    while i < n
        invariant
            start <= i <= n,
            n == v@.len(),
            d == v@.skip(start as int),
            d == (if v@.len() > 0 && v@[0] == '+' { v@.skip(1) } else { v@ }),
            d.len() > 0,
            all_digits(d.take(i - start)),
            acc == digits_value(d.take(i - start)),
            acc <= u32::MAX,
        decreases n - i,
    {
        let c = v[i];
        let ghost j = i - start;
        assert(d[j] == c);
        if !(48 <= c as u32 && c as u32 <= 57) {
            assert(!all_digits(d));
            return None;
        }
        acc = acc * 10 + (c as u32 - 48) as u64;
        assert(d.take(j + 1).drop_last() =~= d.take(j));
        assert(all_digits(d.take(j + 1))) by {
            assert forall|k: int| 0 <= k < d.take(j + 1).len() implies is_ascii_digit(
                #[trigger] d.take(j + 1)[k],
            ) by {
                if k < j {
                    assert(d.take(j + 1)[k] == d.take(j)[k]);
                }
            }
        }
        if acc > 4294967295 {
            proof {
                if all_digits(d) {
                    lemma_digits_value_grows(d, j + 1);
                }
            }
            return None;
        }
        i = i + 1;
    }
    assert(d.take(n - start) =~= d);
    Some(acc as u32)
}

/// Parses a count shown on AO3, such as `1,234`: the thousands separators are
/// dropped and the rest is parsed as a `u32`; `None` when there is no input
/// or it is not such a number.
pub fn parse_number(input: Option<String>) -> (r: Option<u32>)
    ensures
        r == parsed_number(crate::metadata::opt_view(input)),
{
    match input {
        None => None,
        Some(value) => {
            let cs = chars_of(value.as_str());
            let mut kept: Vec<char> = Vec::new();
            for i in 0..cs.len()
                invariant
                    kept@ == remove_char(cs@.take(i as int), ','),
            {
                assert(cs@.take(i + 1).drop_last() =~= cs@.take(i as int));
                if cs[i] != ',' {
                    kept.push(cs[i]);
                }
            }
            assert(cs@.take(cs@.len() as int) =~= cs@);
            parse_u32_chars(&kept)
        },
    }
}

/// Whether `p` occurs in `s` at position `i`.
pub open spec fn occurs_at(s: Seq<char>, p: Seq<char>, i: int) -> bool {
    0 <= i && i + p.len() <= s.len() && s.subrange(i, i + p.len()) == p
}

/// Whether `s` begins with `p`.
pub open spec fn has_prefix(s: Seq<char>, p: Seq<char>) -> bool {
    occurs_at(s, p, 0)
}

/// The part of `s` before the first occurrence of `sep`, or all of `s` when
/// `sep` does not occur: the first piece that `str::split` yields.
pub open spec fn first_piece(s: Seq<char>, sep: Seq<char>) -> Seq<char> {
    if exists|i: int| occurs_at(s, sep, i) {
        s.take(choose|i: int| occurs_at(s, sep, i) && forall|j: int| 0 <= j < i ==> !occurs_at(s, sep, j))
    } else {
        s
    }
}

fn occurs_at_exec(s: &Vec<char>, p: &Vec<char>, i: usize) -> (r: bool)
    requires
        i <= s@.len(),
    ensures
        r == occurs_at(s@, p@, i as int),
{
    let sl = s.len();
    if p.len() > sl - i {
        return false;
    }
    let mut k: usize = 0;
    while k < p.len()
        invariant
            sl == s@.len(),
            i + p@.len() <= s@.len(),
            k <= p@.len(),
            forall|m: int| 0 <= m < k ==> s@[i + m] == p@[m],
        decreases p@.len() - k,
    {
        if s[i + k] != p[k] {
            assert(s@.subrange(i as int, i + p@.len())[k as int] != p@[k as int]);
            return false;
        }
        k = k + 1;
    }
    assert(s@.subrange(i as int, i + p@.len()) =~= p@);
    true
}

/// Whether `s` begins with `prefix`.
pub fn starts_with(s: &str, prefix: &str) -> (r: bool)
    ensures
        r == has_prefix(s@, prefix@),
{
    let sv = chars_of(s);
    let pv = chars_of(prefix);
    occurs_at_exec(&sv, &pv, 0)
}

/// The string made of the characters `v[from..to]`.
pub fn string_of_range(v: &Vec<char>, from: usize, to: usize) -> (r: String)
    requires
        from <= to <= v@.len(),
    ensures
        r@ == v@.subrange(from as int, to as int),
{
    let mut r = String::new();
    let mut i = from;
    while i < to
        invariant
            from <= i <= to,
            to <= v@.len(),
            r@ == v@.subrange(from as int, i as int),
        decreases to - i,
    {
        string_push(&mut r, v[i]);
        assert(v@.subrange(from as int, i + 1) =~= v@.subrange(from as int, i as int).push(v@[i as int]));
        i = i + 1;
    }
    r
}

/// The part of `s` before the first occurrence of `sep` (all of `s` when it does not occur).
pub fn split_first(s: &str, sep: &str) -> (r: String)
    ensures
        r@ == first_piece(s@, sep@),
{
    let sv = chars_of(s);
    let pv = chars_of(sep);
    let n = sv.len();
    let mut i: usize = 0;
    loop
        invariant
            i <= n,
            n == sv@.len(),
            sv@ == s@,
            pv@ == sep@,
            forall|j: int| 0 <= j < i ==> !occurs_at(s@, sep@, j),
        ensures
            forall|j: int| 0 <= j <= n ==> !occurs_at(s@, sep@, j),
        decreases n - i,
    {
        if occurs_at_exec(&sv, &pv, i) {
            let ghost m = choose|m: int| occurs_at(s@, sep@, m) && forall|j: int| 0 <= j < m ==> !occurs_at(s@, sep@, j);
            assert(occurs_at(s@, sep@, i as int));
            assert(m == i) by {
                if m < i {
                    assert(!occurs_at(s@, sep@, m));
                } else if m > i {
                    assert(!occurs_at(s@, sep@, i as int));
                }
            }
            return string_of_range(&sv, 0, i);
        }
        if i == n {
            break;
        }
        i = i + 1;
    }
    assert(!exists|j: int| occurs_at(s@, sep@, j));
    string_of_range(&sv, 0, n)
}

} // verus!
