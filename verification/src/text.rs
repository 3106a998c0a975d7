//! Character-level text operations with their specifications.

use vstd::prelude::*;

verus! {

/// The characters with the Unicode `White_Space` property (what `char::is_whitespace` accepts).
pub open spec fn is_ws(c: char) -> bool {
    ||| ('\u{9}' <= c && c <= '\u{d}')
    ||| c == ' '
    ||| c == '\u{85}'
    ||| c == '\u{a0}'
    ||| c == '\u{1680}'
    ||| ('\u{2000}' <= c && c <= '\u{200a}')
    ||| c == '\u{2028}'
    ||| c == '\u{2029}'
    ||| c == '\u{202f}'
    ||| c == '\u{205f}'
    ||| c == '\u{3000}'
}

/// Whether `c` is white space.
pub fn is_whitespace(c: char) -> (b: bool)
    ensures
        b == is_ws(c),
{
    ('\u{9}' <= c && c <= '\u{d}') || c == ' ' || c == '\u{85}' || c == '\u{a0}' || c == '\u{1680}'
        || ('\u{2000}' <= c && c <= '\u{200a}') || c == '\u{2028}' || c == '\u{2029}' || c
        == '\u{202f}' || c == '\u{205f}' || c == '\u{3000}'
}

/// The characters of `s`, in order.
pub fn chars_of(s: &str) -> (v: Vec<char>)
    ensures
        v@ == s@,
{
    let mut v: Vec<char> = Vec::new();
    for c in it: s.chars()
        invariant
            v@ == it.seq().take(it.index() as int),
    {
        v.push(c);
    }
    v
}


/// Appends one character to `s` with std `String::push`: the text afterwards is the text
/// before followed by `c`.
#[verifier::external_body]
pub(crate) fn push_char(s: &mut String, c: char)
    ensures
        final(s)@ == old(s)@.push(c),
{
    s.push(c);
}

/// A `String` holding the characters of `v`.
pub fn string_of(v: &[char]) -> (r: String)
    ensures
        r@ == v@,
{
    let mut r = String::new();
    let mut i: usize = 0;
    while i < v.len()
        invariant
            i <= v@.len(),
            r@ == v@.take(i as int),
        decreases v@.len() - i,
    {
        push_char(&mut r, v[i]);
        assert(v@.take(i + 1) =~= v@.take(i as int).push(v@[i as int]));
        i = i + 1;
    }
    assert(v@.take(v@.len() as int) =~= v@);
    r
}

/// The decimal digit character for `d` (`0 <= d < 10`).
pub open spec fn digit(d: int) -> char {
    (48 + d) as char
}

/// The decimal text of `n`, without sign or leading zeros (what `{}` prints for an integer).
pub open spec fn decimal(n: nat) -> Seq<char>
    decreases n,
{
    if n < 10 {
        seq![digit(n as int)]
    } else {
        decimal(n / 10).push(digit((n % 10) as int))
    }
}

/// Appends the decimal text of `n` to `out`.
pub fn push_decimal(out: &mut String, n: u64)
    ensures
        final(out)@ == old(out)@ + decimal(n as nat),
    decreases n,
{
    if n >= 10 {
        push_decimal(out, n / 10);
    }
    let d: u8 = (n % 10) as u8;
    let c: char = (48u8 + d) as char;
    assert(c == digit((n % 10) as int));
    push_char(out, c);
}

/// The decimal text of `n` as a `String`.
pub fn decimal_string(n: u64) -> (r: String)
    ensures
        r@ == decimal(n as nat),
{
    let mut r = String::new();
    push_decimal(&mut r, n);
    r
}


/// The lowercase hexadecimal digit for `d` (`0 <= d < 16`).
pub open spec fn hex_digit(d: int) -> char {
    if d < 10 {
        (48 + d) as char
    } else {
        (87 + d) as char
    }
}

/// The two lowercase hexadecimal digits of `b`, zero-padded (`{:02x}`).
pub open spec fn hex2(b: u8) -> Seq<char> {
    seq![hex_digit((b / 16) as int), hex_digit((b % 16) as int)]
}

/// Appends the two lowercase hexadecimal digits of `b` to `out`.
pub fn push_hex2(out: &mut String, b: u8)
    ensures
        final(out)@ == old(out)@ + hex2(b),
{
    let hi: u8 = b / 16;
    let lo: u8 = b % 16;
    let c1: char = if hi < 10 { (48u8 + hi) as char } else { (87u8 + hi) as char };
    let c2: char = if lo < 10 { (48u8 + lo) as char } else { (87u8 + lo) as char };
    push_char(out, c1);
    push_char(out, c2);
    assert(old(out)@.push(c1).push(c2) =~= old(out)@ + hex2(b));
}

/// `s` without its leading white space.
pub open spec fn trim_start(s: Seq<char>) -> Seq<char>
    decreases s.len(),
{
    if s.len() > 0 && is_ws(s[0]) {
        trim_start(s.drop_first())
    } else {
        s
    }
}

/// `s` without its trailing white space.
pub open spec fn trim_end(s: Seq<char>) -> Seq<char>
    decreases s.len(),
{
    if s.len() > 0 && is_ws(s.last()) {
        trim_end(s.drop_last())
    } else {
        s
    }
}

/// `s` without leading and trailing white space (`str::trim`).
pub open spec fn trim(s: Seq<char>) -> Seq<char> {
    trim_end(trim_start(s))
}

/// The characters `s[lo..hi]` as a new vector.
pub fn sub_vec(s: &Vec<char>, lo: usize, hi: usize) -> (r: Vec<char>)
    requires
        lo <= hi <= s@.len(),
    ensures
        r@ == s@.subrange(lo as int, hi as int),
{
    let mut r: Vec<char> = Vec::new();
    let mut i: usize = lo;
    while i < hi
        invariant
            lo <= i <= hi <= s@.len(),
            r@ == s@.subrange(lo as int, i as int),
        decreases hi - i,
    {
        r.push(s[i]);
        assert(s@.subrange(lo as int, i + 1) =~= s@.subrange(lo as int, i as int).push(s@[i as int]));
        i = i + 1;
    }
    r
}

/// `s` with leading and trailing white space removed.
pub fn trim_vec(s: &Vec<char>) -> (r: Vec<char>)
    ensures
        r@ == trim(s@),
{
    let len = s.len();
    let mut i: usize = 0;
    assert(s@.subrange(0, len as int) =~= s@);
    while i < len && is_whitespace(s[i])
        invariant
            i <= len == s@.len(),
            trim_start(s@) == trim_start(s@.subrange(i as int, len as int)),
        decreases len - i,
    {
        assert(s@.subrange(i as int, len as int).drop_first() =~= s@.subrange(i + 1, len as int));
        i = i + 1;
    }
    assert(trim_start(s@.subrange(i as int, len as int)) == s@.subrange(i as int, len as int));
    let mut j: usize = len;
    while j > i && is_whitespace(s[j - 1])
        invariant
            i <= j <= len == s@.len(),
            trim(s@) == trim_end(s@.subrange(i as int, j as int)),
        decreases j,
    {
        assert(s@.subrange(i as int, j as int).drop_last() =~= s@.subrange(i as int, j - 1));
        j = j - 1;
    }
    sub_vec(s, i, j)
}

/// `s` with every `"` preceded by a backslash (`str::replace('"', "\\\"")`).
pub open spec fn escape_quotes(s: Seq<char>) -> Seq<char>
    decreases s.len(),
{
    if s.len() == 0 {
        s
    } else if s.last() == '"' {
        escape_quotes(s.drop_last()) + seq!['\\', '"']
    } else {
        escape_quotes(s.drop_last()).push(s.last())
    }
}

/// Appends `s` to `out`, with every `"` escaped by a backslash.
pub fn push_escaped(out: &mut String, s: &str)
    ensures
        final(out)@ == old(out)@ + escape_quotes(s@),
{
    let v = chars_of(s);
    let mut i: usize = 0;
    while i < v.len()
        invariant
            i <= v@.len(),
            v@ == s@,
            out@ == old(out)@ + escape_quotes(v@.take(i as int)),
        decreases v@.len() - i,
    {
        let c = v[i];
        let ghost before = out@;
        assert(v@.take(i + 1).drop_last() =~= v@.take(i as int));
        if c == '"' {
            push_char(out, '\\');
            push_char(out, '"');
            assert(out@ =~= old(out)@ + escape_quotes(v@.take(i + 1)));
        } else {
            push_char(out, c);
            assert(out@ =~= old(out)@ + escape_quotes(v@.take(i + 1)));
        }
        i = i + 1;
    }
    assert(v@.take(v@.len() as int) =~= v@);
}


/// The pieces of `s` between occurrences of `sep` (`str::split` with a character):
/// one more piece than there are separators.
pub open spec fn split(s: Seq<char>, sep: char) -> Seq<Seq<char>>
    decreases s.len(),
{
    if s.len() == 0 {
        seq![Seq::empty()]
    } else {
        let p = split(s.drop_last(), sep);
        if s.last() == sep {
            p.push(Seq::empty())
        } else {
            p.update(p.len() - 1, p.last().push(s.last()))
        }
    }
}

/// Splitting yields at least one piece.
pub proof fn lemma_split_nonempty(s: Seq<char>, sep: char)
    ensures
        split(s, sep).len() >= 1,
    decreases s.len(),
{
    if s.len() > 0 {
        lemma_split_nonempty(s.drop_last(), sep);
    }
}

/// A separator between two texts splits them apart.
pub proof fn lemma_split_sep_concat(x: Seq<char>, y: Seq<char>, sep: char)
    ensures
        split(x.push(sep) + y, sep) == split(x, sep) + split(y, sep),
    decreases y.len(),
{
    lemma_split_nonempty(y, sep);
    if y.len() == 0 {
        assert(x.push(sep) + y =~= x.push(sep));
        assert(x.push(sep).drop_last() =~= x);
        assert(split(x, sep) + split(y, sep) =~= split(x, sep).push(Seq::empty()));
    } else {
        let y1 = y.drop_last();
        lemma_split_sep_concat(x, y1, sep);
        lemma_split_nonempty(y1, sep);
        assert((x.push(sep) + y).drop_last() =~= x.push(sep) + y1);
        let p = split(x, sep);
        let q = split(y1, sep);
        if y.last() == sep {
            assert((p + q).push(Seq::empty()) =~= p + q.push(Seq::empty()));
        } else {
            assert((p + q).update((p + q).len() - 1, (p + q).last().push(y.last())) =~= p + q.update(
                q.len() - 1,
                q.last().push(y.last()),
            ));
        }
    }
}

/// A text without the separator is a single piece.
pub proof fn lemma_split_no_sep(y: Seq<char>, sep: char)
    requires
        forall|i: int| 0 <= i < y.len() ==> y[i] != sep,
    ensures
        split(y, sep) == seq![y],
    decreases y.len(),
{
    if y.len() == 0 {
        assert(y =~= Seq::<char>::empty());
        assert(split(y, sep) =~= seq![y]);
    } else {
        let y1 = y.drop_last();
        assert forall|i: int| 0 <= i < y1.len() implies y1[i] != sep by {
            assert(y1[i] == y[i]);
        }
        lemma_split_no_sep(y1, sep);
        assert(y[y.len() - 1] != sep);
        assert(y1.push(y.last()) =~= y);
        assert(seq![y1].update(0, y1.push(y.last())) =~= seq![y]);
    }
}

/// `l` without one trailing carriage return.
pub open spec fn strip_cr(l: Seq<char>) -> Seq<char> {
    if l.len() > 0 && l.last() == '\r' {
        l.drop_last()
    } else {
        l
    }
}

/// The lines of `s` (`str::lines`): the text between line feeds, a carriage return just
/// before a line feed removed, and no final empty line after a trailing line feed.
pub open spec fn lines(s: Seq<char>) -> Seq<Seq<char>> {
    let p = split(s, '\n');
    let init = p.drop_last().map_values(|l: Seq<char>| strip_cr(l));
    if p.last().len() == 0 {
        init
    } else {
        init.push(p.last())
    }
}

/// The lines of `s`.
pub fn lines_of(s: &Vec<char>) -> (r: Vec<Vec<char>>)
    ensures
        r.deep_view() == lines(s@),
{
    let mut done: Vec<Vec<char>> = Vec::new();
    let mut cur: Vec<char> = Vec::new();
    let mut i: usize = 0;
    proof {
        assert(s@.take(0) =~= Seq::<char>::empty());
    }
    while i < s.len()
        invariant
            i <= s@.len(),
            split(s@.take(i as int), '\n').len() >= 1,
            done.deep_view() =~= split(s@.take(i as int), '\n').drop_last().map_values(
                |l: Seq<char>| strip_cr(l),
            ),
            cur@ == split(s@.take(i as int), '\n').last(),
        decreases s@.len() - i,
    {
        let c = s[i];
        let ghost p = split(s@.take(i as int), '\n');
        assert(s@.take(i + 1).drop_last() =~= s@.take(i as int));
        if c == '\n' {
            let n = cur.len();
            let line = if n > 0 && cur[n - 1] == '\r' {
                assert(cur@.subrange(0, n - 1) =~= cur@.drop_last());
                sub_vec(&cur, 0, n - 1)
            } else {
                assert(cur@.subrange(0, n as int) =~= cur@);
                sub_vec(&cur, 0, n)
            };
            assert(line@ == strip_cr(p.last()));
            let ghost before = done.deep_view();
            done.push(line);
            assert(line.deep_view() =~= line@);
            assert(done.deep_view() =~= before.push(line@));
            cur = Vec::new();
            assert(split(s@.take(i + 1), '\n') == p.push(Seq::empty()));
            assert(p.push(Seq::empty()).drop_last() =~= p);
            assert(p =~= p.drop_last().push(p.last()));
            assert(p.map_values(|l: Seq<char>| strip_cr(l)) =~= p.drop_last().map_values(
                |l: Seq<char>| strip_cr(l),
            ).push(strip_cr(p.last())));
        } else {
            cur.push(c);
            assert(split(s@.take(i + 1), '\n') == p.update(p.len() - 1, p.last().push(c)));
            assert(p.update(p.len() - 1, p.last().push(c)).drop_last() =~= p.drop_last());
        }
        i = i + 1;
    }
    assert(s@.take(s@.len() as int) =~= s@);
    if cur.len() > 0 {
        let ghost before = done.deep_view();
        done.push(cur);
        assert(cur.deep_view() =~= cur@);
        assert(done.deep_view() =~= before.push(cur@));
    }
    done
}

/// The maximal runs of non-white-space characters of `s` (`str::split_whitespace`).
pub open spec fn words(s: Seq<char>) -> Seq<Seq<char>>
    decreases s.len(),
{
    if s.len() == 0 {
        seq![]
    } else {
        let w = words(s.drop_last());
        let c = s.last();
        if is_ws(c) {
            w
        } else if s.len() >= 2 && !is_ws(s[s.len() - 2]) {
            w.update(w.len() - 1, w.last().push(c))
        } else {
            w.push(seq![c])
        }
    }
}

/// The white-space-separated words of `s`.
pub fn words_of(s: &Vec<char>) -> (r: Vec<Vec<char>>)
    ensures
        r.deep_view() == words(s@),
{
    let mut done: Vec<Vec<char>> = Vec::new();
    let mut cur: Vec<char> = Vec::new();
    let mut i: usize = 0;
    proof {
        assert(s@.take(0) =~= Seq::<char>::empty());
    }
    while i < s.len()
        invariant
            i <= s@.len(),
            cur@.len() > 0 <==> (i > 0 && !is_ws(s@[i - 1])),
            cur@.len() > 0 ==> words(s@.take(i as int)) =~= done.deep_view().push(cur@),
            cur@.len() == 0 ==> words(s@.take(i as int)) =~= done.deep_view(),
        decreases s@.len() - i,
    {
        let c = s[i];
        let ghost t = s@.take(i + 1);
        assert(t.drop_last() =~= s@.take(i as int));
        assert(t.last() == c);
        if is_whitespace(c) {
            if cur.len() > 0 {
                let ghost before = done.deep_view();
                done.push(cur);
                assert(cur.deep_view() =~= cur@);
                assert(done.deep_view() =~= before.push(cur@));
                cur = Vec::new();
            }
        } else {
            if cur.len() > 0 {
                assert(t[t.len() - 2] == s@[i - 1]);
                cur.push(c);
            } else {
                proof {
                    if i > 0 {
                        assert(t[t.len() - 2] == s@[i - 1]);
                    }
                }
                cur.push(c);
                assert(cur@ =~= seq![c]);
            }
        }
        i = i + 1;
    }
    assert(s@.take(s@.len() as int) =~= s@);
    if cur.len() > 0 {
        let ghost before = done.deep_view();
        done.push(cur);
        assert(cur.deep_view() =~= cur@);
        assert(done.deep_view() =~= before.push(cur@));
    }
    done
}


/// The position of the first `c` in `s`, or `s.len()` when there is none.
pub open spec fn first_index(s: Seq<char>, c: char) -> nat
    decreases s.len(),
{
    if s.len() == 0 {
        0
    } else if s[0] == c {
        0
    } else {
        first_index(s.drop_first(), c) + 1
    }
}

/// `first_index` is the position at which `c` first occurs, or the length.
pub proof fn lemma_first_index(s: Seq<char>, c: char, i: int)
    requires
        0 <= i <= s.len(),
        i == s.len() || s[i] == c,
        forall|j: int| 0 <= j < i ==> s[j] != c,
    ensures
        first_index(s, c) == i,
    decreases s.len(),
{
    if s.len() > 0 && s[0] != c {
        assert forall|j: int| 0 <= j < i - 1 implies s.drop_first()[j] != c by {
            assert(s.drop_first()[j] == s[j + 1]);
        }
        lemma_first_index(s.drop_first(), c, i - 1);
    }
}

/// The pieces of `s` around its first two occurrences of `sep` (`str::splitn(3, sep)`):
/// the last piece keeps any further separators.
pub open spec fn splitn3(s: Seq<char>, sep: char) -> Seq<Seq<char>> {
    let a = first_index(s, sep) as int;
    if a == s.len() {
        seq![s]
    } else {
        let rest = s.subrange(a + 1, s.len() as int);
        let b = first_index(rest, sep) as int;
        if b == rest.len() {
            seq![s.subrange(0, a), rest]
        } else {
            seq![s.subrange(0, a), rest.subrange(0, b), rest.subrange(b + 1, rest.len() as int)]
        }
    }
}

/// The position of the first `c` in `s` at or after `from`, or `s.len()`.
fn find_from(s: &Vec<char>, c: char, from: usize) -> (r: usize)
    requires
        from <= s@.len(),
    ensures
        r == from + first_index(s@.subrange(from as int, s@.len() as int), c),
        r <= s@.len(),
{
    let mut i = from;
    while i < s.len() && s[i] != c
        invariant
            from <= i <= s@.len(),
            forall|j: int| from <= j < i ==> s@[j] != c,
        decreases s@.len() - i,
    {
        i = i + 1;
    }
    proof {
        let t = s@.subrange(from as int, s@.len() as int);
        assert forall|j: int| 0 <= j < i - from implies t[j] != c by {
            assert(t[j] == s@[from + j]);
        }
        lemma_first_index(t, c, i - from);
    }
    i
}

/// The pieces of `s` around its first two occurrences of `sep`.
#[verifier::rlimit(50)]
pub fn splitn3_of(s: &Vec<char>, sep: char) -> (r: Vec<Vec<char>>)
    ensures
        r.deep_view() == splitn3(s@, sep),
{
    let len = s.len();
    assert(s@.subrange(0, len as int) =~= s@);
    let a = find_from(s, sep, 0);
    let mut r: Vec<Vec<char>> = Vec::new();
    if a == len {
        let whole = sub_vec(s, 0, len);
        assert(whole.deep_view() =~= whole@);
        r.push(whole);
        assert(r.deep_view() =~= seq![s@]);
        return r;
    }
    let ghost rest = s@.subrange(a + 1, len as int);
    let b = find_from(s, sep, a + 1);
    let first = sub_vec(s, 0, a);
    assert(first.deep_view() =~= first@);
    r.push(first);
    if b == len {
        let second = sub_vec(s, a + 1, len);
        assert(second.deep_view() =~= second@);
        r.push(second);
        assert(r.deep_view() =~= splitn3(s@, sep));
    } else {
        let second = sub_vec(s, a + 1, b);
        let third = sub_vec(s, b + 1, len);
        assert(second.deep_view() =~= second@);
        assert(third.deep_view() =~= third@);
        r.push(second);
        r.push(third);
        assert(rest.subrange(0, b - (a + 1)) =~= s@.subrange(a + 1, b as int));
        assert(rest.subrange(b - (a + 1) + 1, rest.len() as int) =~= s@.subrange(b + 1, len as int));
        assert(r.deep_view() =~= splitn3(s@, sep));
    }
    r
}

/// The number of occurrences of `c` in `s`.
pub open spec fn count_char(s: Seq<char>, c: char) -> nat
    decreases s.len(),
{
    if s.len() == 0 {
        0
    } else {
        count_char(s.drop_last(), c) + if s.last() == c { 1nat } else { 0nat }
    }
}

/// Counting distributes over concatenation.
pub proof fn lemma_count_concat(a: Seq<char>, b: Seq<char>, c: char)
    ensures
        count_char(a + b, c) == count_char(a, c) + count_char(b, c),
    decreases b.len(),
{
    if b.len() == 0 {
        assert(a + b =~= a);
    } else {
        lemma_count_concat(a, b.drop_last(), c);
        assert((a + b).drop_last() =~= a + b.drop_last());
    }
}


/// Whether `a` and `b` hold the same characters.
pub fn same_chars(a: &Vec<char>, b: &Vec<char>) -> (r: bool)
    ensures
        r == (a@ == b@),
{
    if a.len() != b.len() {
        return false;
    }
    let mut i: usize = 0;
    while i < a.len()
        invariant
            i <= a@.len() == b@.len(),
            forall|j: int| 0 <= j < i ==> a@[j] == b@[j],
        decreases a@.len() - i,
    {
        if a[i] != b[i] {
            return false;
        }
        i = i + 1;
    }
    assert(a@ =~= b@);
    true
}

/// Whether `a` and `b` are the same text.
pub fn str_eq(a: &str, b: &str) -> (r: bool)
    ensures
        r == (a@ == b@),
{
    let va = chars_of(a);
    let vb = chars_of(b);
    same_chars(&va, &vb)
}


/// The pieces of `s` between occurrences of `sep`.
pub fn split_of(s: &Vec<char>, sep: char) -> (r: Vec<Vec<char>>)
    ensures
        r.deep_view() == split(s@, sep),
{
    let mut done: Vec<Vec<char>> = Vec::new();
    let mut cur: Vec<char> = Vec::new();
    let mut i: usize = 0;
    proof {
        assert(s@.take(0) =~= Seq::<char>::empty());
    }
    while i < s.len()
        invariant
            i <= s@.len(),
            split(s@.take(i as int), sep) =~= done.deep_view().push(cur@),
        decreases s@.len() - i,
    {
        let c = s[i];
        let ghost p = split(s@.take(i as int), sep);
        assert(s@.take(i + 1).drop_last() =~= s@.take(i as int));
        if c == sep {
            let ghost before = done.deep_view();
            assert(cur.deep_view() =~= cur@);
            done.push(cur);
            assert(done.deep_view() =~= before.push(p.last()));
            cur = Vec::new();
        } else {
            cur.push(c);
        }
        i = i + 1;
    }
    assert(s@.take(s@.len() as int) =~= s@);
    let ghost before = done.deep_view();
    assert(cur.deep_view() =~= cur@);
    done.push(cur);
    assert(done.deep_view() =~= before.push(cur@));
    done
}


/// Whether `s` holds no curly brace.
pub open spec fn brace_free(s: Seq<char>) -> bool {
    forall|i: int| 0 <= i < s.len() ==> s[i] != '{' && s[i] != '}'
}

/// Opening braces minus closing braces in `s`.
pub open spec fn brace_balance(s: Seq<char>) -> int {
    count_char(s, '{') as int - count_char(s, '}') as int
}

/// The lowest brace balance over all prefixes of `s`, the empty prefix included: it is
/// never below zero exactly when no prefix closes more braces than it opens.
pub open spec fn brace_low(s: Seq<char>) -> int
    decreases s.len(),
{
    if s.len() == 0 {
        0
    } else {
        let l = brace_low(s.drop_last());
        let b = brace_balance(s);
        if b < l {
            b
        } else {
            l
        }
    }
}

/// The lowest prefix balance of a concatenation: the lowest of the first part, or the
/// first part's balance plus the lowest of the second.
pub broadcast proof fn lemma_brace_low_concat(a: Seq<char>, b: Seq<char>)
    ensures
        #[trigger] brace_low(a + b) == (if brace_low(a) < brace_balance(a) + brace_low(b) {
            brace_low(a)
        } else {
            brace_balance(a) + brace_low(b)
        }),
    decreases b.len(),
{
    if b.len() == 0 {
        assert(a + b =~= a);
        assert(brace_low(a) <= 0) by {
            lemma_brace_low_nonpositive(a);
        }
    } else {
        lemma_brace_low_concat(a, b.drop_last());
        assert((a + b).drop_last() =~= a + b.drop_last());
        lemma_brace_balance_concat(a, b);
    }
}

/// The empty prefix has balance zero, so the lowest balance is at most zero.
pub proof fn lemma_brace_low_nonpositive(s: Seq<char>)
    ensures
        brace_low(s) <= 0,
    decreases s.len(),
{
    if s.len() > 0 {
        lemma_brace_low_nonpositive(s.drop_last());
    }
}

/// Every prefix of `s` has a balance no lower than `brace_low(s)`.
pub proof fn lemma_brace_low_prefixes(s: Seq<char>)
    ensures
        forall|k: int| 0 <= k <= s.len() ==> brace_balance(#[trigger] s.take(k)) >= brace_low(s),
    decreases s.len(),
{
    if s.len() == 0 {
        assert forall|k: int| 0 <= k <= s.len() implies brace_balance(#[trigger] s.take(k))
            >= brace_low(s) by {
            assert(s.take(k) =~= Seq::<char>::empty());
        }
    } else {
        lemma_brace_low_prefixes(s.drop_last());
        assert forall|k: int| 0 <= k <= s.len() implies brace_balance(#[trigger] s.take(k))
            >= brace_low(s) by {
            if k == s.len() {
                assert(s.take(k) =~= s);
            } else {
                assert(s.take(k) =~= s.drop_last().take(k));
            }
        }
    }
}

/// The brace balance of a concatenation is the sum of the balances.
pub broadcast proof fn lemma_brace_balance_concat(a: Seq<char>, b: Seq<char>)
    ensures
        #[trigger] brace_balance(a + b) == brace_balance(a) + brace_balance(b),
{
    lemma_count_concat(a, b, '{');
    lemma_count_concat(a, b, '}');
}

/// A character that never occurs is counted zero times.
pub proof fn lemma_count_absent(s: Seq<char>, c: char)
    requires
        forall|i: int| 0 <= i < s.len() ==> s[i] != c,
    ensures
        count_char(s, c) == 0,
    decreases s.len(),
{
    if s.len() > 0 {
        assert(s[s.len() - 1] != c);
        assert forall|i: int| 0 <= i < s.drop_last().len() implies s.drop_last()[i] != c by {
            assert(s.drop_last()[i] == s[i]);
        }
        lemma_count_absent(s.drop_last(), c);
    }
}

/// Text without braces is balanced, with no brace of either kind.
pub proof fn lemma_brace_free_balance(s: Seq<char>)
    requires
        brace_free(s),
    ensures
        brace_balance(s) == 0,
        brace_low(s) == 0,
        count_char(s, '{') == 0,
        count_char(s, '}') == 0,
    decreases s.len(),
{
    lemma_count_absent(s, '{');
    lemma_count_absent(s, '}');
    if s.len() > 0 {
        assert(brace_free(s.drop_last())) by {
            assert forall|i: int| 0 <= i < s.drop_last().len() implies s.drop_last()[i] != '{'
                && s.drop_last()[i] != '}' by {
                assert(s.drop_last()[i] == s[i]);
            }
        }
        lemma_brace_free_balance(s.drop_last());
    }
}

/// The balance of a single character.
pub proof fn lemma_brace_balance_char(c: char)
    ensures
        brace_balance(seq![c]) == (if c == '{' { 1int } else if c == '}' { -1int } else { 0int }),
        brace_low(seq![c]) == (if c == '}' { -1int } else { 0int }),
{
    let s = seq![c];
    assert(s.drop_last() =~= Seq::<char>::empty());
    assert(s.last() == c);
    assert(count_char(s.drop_last(), '{') == 0);
    assert(count_char(s.drop_last(), '}') == 0);
    assert(brace_low(s.drop_last()) == 0);
}

/// Decimal text holds no brace.
pub proof fn lemma_decimal_brace_free(n: nat)
    ensures
        brace_free(decimal(n)),
    decreases n,
{
    if n >= 10 {
        lemma_decimal_brace_free(n / 10);
    }
}

/// Escaping quotes adds no brace.
pub proof fn lemma_escape_brace_free(s: Seq<char>)
    requires
        brace_free(s),
    ensures
        brace_free(escape_quotes(s)),
    decreases s.len(),
{
    if s.len() > 0 {
        assert(brace_free(s.drop_last())) by {
            assert forall|i: int| 0 <= i < s.drop_last().len() implies s.drop_last()[i] != '{'
                && s.drop_last()[i] != '}' by {
                assert(s.drop_last()[i] == s[i]);
            }
        }
        lemma_escape_brace_free(s.drop_last());
        assert(s[s.len() - 1] != '{' && s[s.len() - 1] != '}');
    }
}


/// `s` with leading and trailing white space removed, as a `String`.
pub fn trim_text(s: &str) -> (r: String)
    ensures
        r@ == trim(s@),
{
    let v = chars_of(s);
    let t = trim_vec(&v);
    string_of(t.as_slice())
}

/// The texts `items` with `sep` between each two (`join`).
pub open spec fn join(items: Seq<Seq<char>>, sep: Seq<char>) -> Seq<char>
    decreases items.len(),
{
    if items.len() == 0 {
        Seq::empty()
    } else if items.len() == 1 {
        items[0]
    } else {
        join(items.drop_last(), sep) + sep + items.last()
    }
}

/// Appends the texts `items`, with `sep` between each two.
pub fn push_joined(out: &mut String, items: &[&str], sep: &str)
    ensures
        final(out)@ == old(out)@ + join(items@.map_values(|a: &str| a@), sep@),
{
    let ghost views = items@.map_values(|a: &str| a@);
    let mut i: usize = 0;
    assert(views.take(0) =~= Seq::<Seq<char>>::empty());
    while i < items.len()
        invariant
            i <= items@.len(),
            views == items@.map_values(|a: &str| a@),
            out@ == old(out)@ + join(views.take(i as int), sep@),
        decreases items@.len() - i,
    {
        let ghost t = views.take(i + 1);
        assert(t.drop_last() =~= views.take(i as int));
        assert(t.last() == items@[i as int]@);
        if i != 0 {
            out.append(sep);
        } else {
            assert(t =~= seq![items@[0]@]);
        }
        out.append(items[i]);
        assert(out@ =~= old(out)@ + join(t, sep@));
        i = i + 1;
    }
    assert(views.take(items@.len() as int) =~= views);
}


/// Trimming the start leaves no white space in front.
proof fn lemma_trim_start_front(s: Seq<char>)
    ensures
        trim_start(s).len() == 0 || !is_ws(trim_start(s)[0]),
    decreases s.len(),
{
    if s.len() > 0 && is_ws(s[0]) {
        lemma_trim_start_front(s.drop_first());
    }
}

/// Trimming the end keeps a prefix and leaves no white space behind.
proof fn lemma_trim_end_prefix(s: Seq<char>)
    ensures
        trim_end(s).len() <= s.len(),
        trim_end(s) == s.subrange(0, trim_end(s).len() as int),
        trim_end(s).len() == 0 || !is_ws(trim_end(s).last()),
    decreases s.len(),
{
    if s.len() > 0 && is_ws(s.last()) {
        lemma_trim_end_prefix(s.drop_last());
        assert(s.drop_last().subrange(0, trim_end(s).len() as int) =~= s.subrange(
            0,
            trim_end(s).len() as int,
        ));
    } else {
        assert(s.subrange(0, s.len() as int) =~= s);
    }
}

/// Law: trimming twice is trimming once.
pub proof fn law_trim_idempotent(s: Seq<char>)
    ensures
        trim(trim(s)) == trim(s),
{
    let t = trim_start(s);
    let u = trim_end(t);
    lemma_trim_start_front(s);
    lemma_trim_end_prefix(t);
    if u.len() > 0 {
        assert(u[0] == t[0]);
    }
    assert(trim_start(u) == u);
    assert(trim_end(u) == u);
}

/// Whether every character of `s` is ASCII.
pub open spec fn is_ascii_text(s: Seq<char>) -> bool {
    forall|i: int| 0 <= i < s.len() ==> (#[trigger] s[i] as u32) < 128
}

/// The ASCII lowercase of `c`: `A`..`Z` become `a`..`z`, every other character stays.
pub open spec fn ascii_lower_char(c: char) -> char {
    if 'A' <= c && c <= 'Z' {
        ((c as u32) + 32) as char
    } else {
        c
    }
}

/// `s` with each ASCII capital letter lowercased.
pub open spec fn ascii_lower(s: Seq<char>) -> Seq<char> {
    Seq::new(s.len(), |i: int| ascii_lower_char(s[i]))
}

/// Lowercasing ASCII text gives ASCII text, and lowercasing it again changes nothing.
pub proof fn lemma_ascii_lower_again(s: Seq<char>)
    requires
        is_ascii_text(s),
    ensures
        is_ascii_text(ascii_lower(s)),
        ascii_lower(ascii_lower(s)) == ascii_lower(s),
{
    assert(ascii_lower(ascii_lower(s)) =~= ascii_lower(s));
}

/// Trimming the start keeps the text's end: the result is a suffix.
proof fn lemma_trim_start_suffix(s: Seq<char>)
    ensures
        trim_start(s).len() <= s.len(),
        trim_start(s) == s.subrange(s.len() - trim_start(s).len(), s.len() as int),
    decreases s.len(),
{
    if s.len() > 0 && is_ws(s[0]) {
        lemma_trim_start_suffix(s.drop_first());
        assert(s.drop_first().subrange(
            s.drop_first().len() - trim_start(s).len(),
            s.drop_first().len() as int,
        ) =~= s.subrange(s.len() - trim_start(s).len(), s.len() as int));
    } else {
        assert(s.subrange(0, s.len() as int) =~= s);
    }
}

/// Trimming ASCII text gives ASCII text.
pub proof fn lemma_trim_ascii(s: Seq<char>)
    requires
        is_ascii_text(s),
    ensures
        is_ascii_text(trim(s)),
{
    let t = trim_start(s);
    lemma_trim_start_suffix(s);
    lemma_trim_end_prefix(t);
    let u = trim_end(t);
    assert forall|i: int| 0 <= i < u.len() implies (#[trigger] u[i] as u32) < 128 by {
        assert(u[i] == t[i]);
        assert(t[i] == s[s.len() - t.len() + i]);
    }
}

/// Text that trimming leaves alone stays so once lowercased: lowercasing changes no
/// white space and makes none.
pub proof fn lemma_ascii_lower_trimmed(t: Seq<char>)
    requires
        trim(t) == t,
    ensures
        trim(ascii_lower(t)) == ascii_lower(t),
{
    let u = ascii_lower(t);
    lemma_trim_start_suffix(t);
    lemma_trim_end_prefix(trim_start(t));
    if t.len() > 0 {
        if is_ws(t[0]) {
            assert(trim_start(t) == trim_start(t.drop_first()));
            lemma_trim_start_suffix(t.drop_first());
            assert(false);
        }
        assert(trim_start(t) == t);
        if is_ws(t.last()) {
            assert(trim_end(t) == trim_end(t.drop_last()));
            lemma_trim_end_prefix(t.drop_last());
            assert(false);
        }
        assert(u[0] == ascii_lower_char(t[0]));
        assert(u.last() == ascii_lower_char(t.last()));
        assert(!is_ws(u[0]));
        assert(!is_ws(u.last()));
        assert(trim_start(u) == u);
        assert(trim_end(u) == u);
    } else {
        assert(u.len() == 0);
    }
}

/// Whether `s` is a nonempty run of decimal digits.
pub open spec fn is_digits(s: Seq<char>) -> bool {
    s.len() > 0 && forall|i: int| 0 <= i < s.len() ==> '0' <= #[trigger] s[i] && s[i] <= '9'
}

/// The number that the decimal digits `s` denote, read as an unsigned decimal.
pub open spec fn digits_value(s: Seq<char>) -> int
    decreases s.len(),
{
    if s.len() == 0 {
        0
    } else {
        digits_value(s.drop_last()) * 10 + ((s.last() as int) - 48)
    }
}

/// Law: the decimal text of `n` is a run of digits that reads back as `n`.
pub proof fn law_decimal_reads_back(n: nat)
    ensures
        is_digits(decimal(n)),
        digits_value(decimal(n)) == n,
    decreases n,
{
    if n >= 10 {
        law_decimal_reads_back(n / 10);
        let d = decimal(n);
        assert(d.drop_last() =~= decimal(n / 10));
        assert(digit((n % 10) as int) as int == 48 + n % 10);
        assert(n == (n / 10) * 10 + n % 10);
        assert(d.last() == digit((n % 10) as int));
        assert(digits_value(d) == digits_value(d.drop_last()) * 10 + ((d.last() as int) - 48));
    } else {
        let d = decimal(n);
        assert(digit(n as int) as int == 48 + n);
        assert(d.drop_last() =~= Seq::<char>::empty());
        assert(digits_value(d.drop_last()) == 0);
    }
}

} // verus!
