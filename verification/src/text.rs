//! Character-level text helpers used throughout the library.

use vstd::prelude::*;

verus! {

/// The characters of a string slice, in order.
pub fn chars_of(s: &str) -> (v: Vec<char>)
    ensures
        v@ == s@,
{
    broadcast use vstd::string::axiom_spec_iter;

    let mut v: Vec<char> = Vec::new();
    for c in it: s.chars()
        invariant
            v@ == it.history(),
    {
        v.push(c);
    }
    v
}

/// Builds a `String` from characters (`Iterator::collect` into `String`).
#[verifier::external_body]
pub(crate) fn string_of(v: &[char]) -> (s: String)
    ensures
        s@ == v@,
{
    v.iter().collect()
}

/// What `str::to_lowercase` returns for a given text (Unicode lowercase mapping).
pub uninterp spec fn lowercase_text(s: Seq<char>) -> Seq<char>;

/// `str::to_lowercase`: the result is the Unicode lowercase mapping of the
/// argument, which depends on the argument alone; the mapping itself is not
/// written out here.
#[verifier::external_body]
pub(crate) fn lowercase(s: &str) -> (r: String)
    ensures
        r@ == lowercase_text(s@),
{
    s.to_lowercase()
}

/// Unicode general category Cc (what `char::is_control` tests).
pub open spec fn is_control_spec(c: char) -> bool {
    (c as u32) <= 0x1f || (0x7f <= (c as u32) && (c as u32) <= 0x9f)
}

pub fn is_control(c: char) -> (b: bool)
    ensures
        b == is_control_spec(c),
{
    let n = c as u32;
    n <= 0x1f || (0x7f <= n && n <= 0x9f)
}

/// Unicode `White_Space` property (what `char::is_whitespace` tests).
pub open spec fn is_whitespace_spec(c: char) -> bool {
    let n = c as u32;
    (0x9 <= n && n <= 0xd) || n == 0x20 || n == 0x85 || n == 0xa0 || n == 0x1680 || (0x2000 <= n
        && n <= 0x200a) || n == 0x2028 || n == 0x2029 || n == 0x202f || n == 0x205f || n == 0x3000
}

pub fn is_whitespace(c: char) -> (b: bool)
    ensures
        b == is_whitespace_spec(c),
{
    let n = c as u32;
    (0x9 <= n && n <= 0xd) || n == 0x20 || n == 0x85 || n == 0xa0 || n == 0x1680 || (0x2000 <= n
        && n <= 0x200a) || n == 0x2028 || n == 0x2029 || n == 0x202f || n == 0x205f || n == 0x3000
}

/// Text with leading whitespace removed.
pub open spec fn trim_front(s: Seq<char>) -> Seq<char>
    decreases s.len(),
{
    if s.len() > 0 && is_whitespace_spec(s[0]) {
        trim_front(s.drop_first())
    } else {
        s
    }
}

/// Text with trailing whitespace removed.
pub open spec fn trim_back(s: Seq<char>) -> Seq<char>
    decreases s.len(),
{
    if s.len() > 0 && is_whitespace_spec(s.last()) {
        trim_back(s.drop_last())
    } else {
        s
    }
}

/// What `str::trim` returns: leading and trailing whitespace removed.
pub open spec fn trimmed(s: Seq<char>) -> Seq<char> {
    trim_back(trim_front(s))
}

proof fn lemma_trim_front_skip(s: Seq<char>, i: int)
    requires
        0 <= i <= s.len(),
        forall|k: int| 0 <= k < i ==> is_whitespace_spec(#[trigger] s[k]),
    ensures
        trim_front(s) == trim_front(s.subrange(i, s.len() as int)),
    decreases i,
{
    if i > 0 {
        assert(is_whitespace_spec(s[0]));
        assert forall|k: int| 0 <= k < i - 1 implies is_whitespace_spec(
            #[trigger] s.drop_first()[k],
        ) by {
            assert(s.drop_first()[k] == s[k + 1]);
        }
        lemma_trim_front_skip(s.drop_first(), i - 1);
        assert(s.drop_first().subrange(i - 1, s.drop_first().len() as int) =~= s.subrange(
            i,
            s.len() as int,
        ));
    } else {
        assert(s.subrange(0, s.len() as int) =~= s);
    }
}

proof fn lemma_trim_back_cut(s: Seq<char>, j: int)
    requires
        0 <= j <= s.len(),
        forall|k: int| j <= k < s.len() ==> is_whitespace_spec(#[trigger] s[k]),
    ensures
        trim_back(s) == trim_back(s.subrange(0, j)),
    decreases s.len() - j,
{
    if j < s.len() {
        assert(is_whitespace_spec(s.last()));
        lemma_trim_back_cut(s.drop_last(), j);
        assert(s.drop_last().subrange(0, j) =~= s.subrange(0, j));
    } else {
        assert(s.subrange(0, j) =~= s);
    }
}

/// Removes leading and trailing whitespace (`str::trim`).
pub fn trim(s: &str) -> (r: String)
    ensures
        r@ == trimmed(s@),
{
    let v = chars_of(s);
    let n = v.len();
    let mut i: usize = 0;
    while i < n && is_whitespace(v[i])
        invariant
            n == v@.len(),
            0 <= i <= n,
            forall|k: int| 0 <= k < i ==> is_whitespace_spec(#[trigger] v@[k]),
        decreases n - i,
    {
        i += 1;
    }
    proof {
        lemma_trim_front_skip(v@, i as int);
    }
    let ghost front = v@.subrange(i as int, n as int);
    assert(trim_front(v@) == front) by {
        if i < n {
            assert(!is_whitespace_spec(front[0]));
        }
    }
    let mut j: usize = n;
    while j > i && is_whitespace(v[j - 1])
        invariant
            n == v@.len(),
            i <= j <= n,
            forall|k: int| j <= k < n ==> is_whitespace_spec(#[trigger] v@[k]),
        decreases j,
    {
        j -= 1;
    }
    proof {
        lemma_trim_back_cut(front, j - i);
        assert(front.subrange(0, j - i) =~= v@.subrange(i as int, j as int));
    }
    let mut out: Vec<char> = Vec::new();
    let mut k: usize = i;
    while k < j
        invariant
            n == v@.len(),
            i <= k <= j <= n,
            out@ =~= v@.subrange(i as int, k as int),
        decreases j - k,
    {
        out.push(v[k]);
        k += 1;
    }
    assert(trim_back(v@.subrange(i as int, j as int)) == v@.subrange(i as int, j as int)) by {
        if j > i {
            assert(v@.subrange(i as int, j as int).last() == v@[j - 1]);
        }
    }
    string_of(&out)
}


/// `p` is a prefix of `s`.
pub open spec fn is_prefix(p: Seq<char>, s: Seq<char>) -> bool {
    p.len() <= s.len() && s.subrange(0, p.len() as int) == p
}

/// `p` matches `s` at position `i`.
pub open spec fn matches_at(s: Seq<char>, p: Seq<char>, i: int) -> bool {
    0 <= i && i + p.len() <= s.len() && s.subrange(i, i + p.len()) == p
}

/// `p` occurs somewhere in `s` (what `str::contains` tests for a text pattern).
pub open spec fn occurs_in(p: Seq<char>, s: Seq<char>) -> bool {
    exists|i: int| matches_at(s, p, i)
}

fn match_at(s: &Vec<char>, p: &Vec<char>, i: usize) -> (b: bool)
    requires
        i + p@.len() <= s@.len(),
    ensures
        b == (s@.subrange(i as int, i + p@.len()) == p@),
{
    let m = p.len();
    let sl = s.len();
    let mut k: usize = 0;
    while k < m
        invariant
            m == p@.len(),
            sl == s@.len(),
            i + m <= s@.len(),
            0 <= k <= m,
            forall|t: int| 0 <= t < k ==> s@[i + t] == p@[t],
        decreases m - k,
    {
        if s[i + k] != p[k] {
            assert(s@.subrange(i as int, i + p@.len())[k as int] != p@[k as int]);
            return false;
        }
        k += 1;
    }
    assert(s@.subrange(i as int, i + p@.len()) =~= p@);
    true
}

/// `s` starts with `p` (`str::starts_with` for a text pattern).
pub fn starts_with(s: &str, p: &str) -> (b: bool)
    ensures
        b == is_prefix(p@, s@),
{
    let sv = chars_of(s);
    let pv = chars_of(p);
    if pv.len() > sv.len() {
        return false;
    }
    match_at(&sv, &pv, 0)
}

/// `s` contains `p` (`str::contains` for a text pattern).
pub fn contains_text(s: &str, p: &str) -> (b: bool)
    ensures
        b == occurs_in(p@, s@),
{
    let sv = chars_of(s);
    let pv = chars_of(p);
    let n = sv.len();
    let m = pv.len();
    if m > n {
        assert(!occurs_in(p@, s@));
        return false;
    }
    if m == 0 {
        assert(s@.subrange(0, 0) =~= p@);
        assert(matches_at(s@, p@, 0));
        return true;
    }
    let mut i: usize = 0;
    while i <= n - m
        invariant
            n == sv@.len(),
            m == pv@.len(),
            1 <= m <= n,
            sv@ == s@,
            pv@ == p@,
            0 <= i <= n - m + 1,
            forall|t: int| 0 <= t < i ==> !matches_at(s@, p@, t),
        decreases n - m + 1 - i,
    {
        if match_at(&sv, &pv, i) {
            assert(matches_at(s@, p@, i as int));
            return true;
        }
        i += 1;
    }
    assert forall|t: int| !matches_at(s@, p@, t) by {
        if 0 <= t && t + p@.len() <= s@.len() {
            assert(t < i);
        }
    }
    false
}

/// Lexicographic order of texts by character code (the order of `str`'s
/// `Ord`, which compares UTF-8 bytes and so agrees with code point order):
/// negative, zero or positive.
pub open spec fn text_order_spec(a: Seq<char>, b: Seq<char>) -> int
    decreases a.len(),
{
    if a.len() == 0 {
        if b.len() == 0 {
            0
        } else {
            -1
        }
    } else if b.len() == 0 {
        1
    } else if (a[0] as int) < (b[0] as int) {
        -1
    } else if (a[0] as int) > (b[0] as int) {
        1
    } else {
        text_order_spec(a.drop_first(), b.drop_first())
    }
}

/// The order of texts is -1, 0 or 1.
pub proof fn lemma_text_order_range(a: Seq<char>, b: Seq<char>)
    ensures
        -1 <= text_order_spec(a, b) <= 1,
    decreases a.len(),
{
    if a.len() > 0 && b.len() > 0 {
        lemma_text_order_range(a.drop_first(), b.drop_first());
    }
}

proof fn lemma_text_order_suffix(a: Seq<char>, b: Seq<char>, i: int)
    requires
        0 <= i <= a.len(),
        i <= b.len(),
        forall|t: int| 0 <= t < i ==> a[t] == b[t],
    ensures
        text_order_spec(a, b) == text_order_spec(
            a.subrange(i, a.len() as int),
            b.subrange(i, b.len() as int),
        ),
    decreases i,
{
    if i == 0 {
        assert(a.subrange(0, a.len() as int) =~= a);
        assert(b.subrange(0, b.len() as int) =~= b);
    } else {
        assert forall|t: int| 0 <= t < i - 1 implies a.drop_first()[t] == b.drop_first()[t] by {
            assert(a[t + 1] == b[t + 1]);
        }
        lemma_text_order_suffix(a.drop_first(), b.drop_first(), i - 1);
        assert(a.drop_first().subrange(i - 1, a.drop_first().len() as int) =~= a.subrange(
            i,
            a.len() as int,
        ));
        assert(b.drop_first().subrange(i - 1, b.drop_first().len() as int) =~= b.subrange(
            i,
            b.len() as int,
        ));
        assert(a[0] == b[0]);
    }
}

/// Compares two texts as `str`'s `Ord` does: -1, 0 or 1.
pub fn text_order(a: &str, b: &str) -> (r: i8)
    ensures
        r as int == text_order_spec(a@, b@),
{
    let av = chars_of(a);
    let bv = chars_of(b);
    let mut i: usize = 0;
    while i < av.len() && i < bv.len() && av[i] == bv[i]
        invariant
            av@ == a@,
            bv@ == b@,
            0 <= i <= av@.len(),
            i <= bv@.len(),
            forall|t: int| 0 <= t < i ==> av@[t] == bv@[t],
        decreases av@.len() - i,
    {
        i += 1;
    }
    proof {
        lemma_text_order_suffix(a@, b@, i as int);
    }
    let ghost sa = a@.subrange(i as int, a@.len() as int);
    let ghost sb = b@.subrange(i as int, b@.len() as int);
    if i == av.len() {
        assert(sa.len() == 0);
        if i == bv.len() {
            assert(sb.len() == 0);
            0
        } else {
            assert(sb.len() > 0);
            -1
        }
    } else if i == bv.len() {
        assert(sa.len() > 0 && sb.len() == 0);
        1
    } else {
        assert(av@[i as int] != bv@[i as int]);
        assert(sa[0] == av@[i as int] && sb[0] == bv@[i as int]);
        if av[i] < bv[i] {
            -1
        } else {
            1
        }
    }
}

/// Character of a decimal digit.
pub open spec fn digit_char(d: nat) -> char {
    if d == 0 {
        '0'
    } else if d == 1 {
        '1'
    } else if d == 2 {
        '2'
    } else if d == 3 {
        '3'
    } else if d == 4 {
        '4'
    } else if d == 5 {
        '5'
    } else if d == 6 {
        '6'
    } else if d == 7 {
        '7'
    } else if d == 8 {
        '8'
    } else {
        '9'
    }
}

/// Decimal notation of a natural number (as `Display` writes an unsigned integer).
pub open spec fn decimal_text(n: nat) -> Seq<char>
    decreases n,
{
    if n < 10 {
        seq![digit_char(n)]
    } else {
        decimal_text(n / 10).push(digit_char(n % 10))
    }
}

fn digit(d: u64) -> (c: char)
    requires
        d < 10,
    ensures
        c == digit_char(d as nat),
{
    if d == 0 {
        '0'
    } else if d == 1 {
        '1'
    } else if d == 2 {
        '2'
    } else if d == 3 {
        '3'
    } else if d == 4 {
        '4'
    } else if d == 5 {
        '5'
    } else if d == 6 {
        '6'
    } else if d == 7 {
        '7'
    } else if d == 8 {
        '8'
    } else {
        '9'
    }
}

fn decimal_chars(n: u64) -> (v: Vec<char>)
    ensures
        v@ == decimal_text(n as nat),
    decreases n,
{
    if n < 10 {
        let mut v = Vec::new();
        v.push(digit(n));
        v
    } else {
        let mut v = decimal_chars(n / 10);
        v.push(digit(n % 10));
        v
    }
}

/// Decimal notation of a number (`to_string` on an unsigned integer).
pub fn number_text(n: u64) -> (s: String)
    ensures
        s@ == decimal_text(n as nat),
{
    let v = decimal_chars(n);
    string_of(&v)
}

/// `s` padded on the right with spaces to at least `width` characters
/// (what `format!("{:<width$}", s)` writes).
pub open spec fn padded(s: Seq<char>, width: nat) -> Seq<char> {
    if s.len() >= width {
        s
    } else {
        s + Seq::new((width - s.len()) as nat, |i: int| ' ')
    }
}

/// Pads `s` on the right with spaces to at least `width` characters.
pub fn pad_text(s: &str, width: usize) -> (r: String)
    ensures
        r@ == padded(s@, width as nat),
{
    let mut v = chars_of(s);
    let ghost orig = v@;
    if v.len() >= width {
        return string_of(&v);
    }
    while v.len() < width
        invariant
            orig.len() <= v@.len() <= width,
            v@ =~= orig + Seq::new((v@.len() - orig.len()) as nat, |i: int| ' '),
        decreases width - v@.len(),
    {
        v.push(' ');
    }
    string_of(&v)
}

/// Two texts are equal (`==` on `str`).
pub fn same_text(a: &str, b: &str) -> (r: bool)
    ensures
        r == (a@ == b@),
{
    let av = chars_of(a);
    let bv = chars_of(b);
    if av.len() != bv.len() {
        return false;
    }
    let r = match_at(&av, &bv, 0);
    assert(av@.subrange(0, bv@.len() as int) =~= av@);
    r
}

/// Text of a string literal made into an owned `String`.
pub fn owned(s: &str) -> (r: String)
    ensures
        r@ == s@,
{
    s.to_owned()
}

/// Concatenation of two texts.
pub fn concat(a: &str, b: &str) -> (r: String)
    ensures
        r@ == a@ + b@,
{
    let mut r = a.to_owned();
    r.append(b);
    r
}

/// The first `n` characters of `s` (all of it when shorter).
pub open spec fn first_chars(s: Seq<char>, n: nat) -> Seq<char> {
    if s.len() <= n {
        s
    } else {
        s.take(n as int)
    }
}

/// The first `n` characters of `s`.
pub fn take_chars(s: &str, n: usize) -> (r: String)
    ensures
        r@ == first_chars(s@, n as nat),
{
    let v = chars_of(s);
    let mut out: Vec<char> = Vec::new();
    let mut i: usize = 0;
    while i < v.len() && i < n
        invariant
            0 <= i <= v@.len(),
            i <= n,
            out@ == v@.take(i as int),
        decreases v@.len() - i,
    {
        out.push(v[i]);
        assert(v@.take(i + 1) =~= v@.take(i as int).push(v@[i as int]));
        i += 1;
    }
    assert(v@.len() <= n ==> v@.take(i as int) =~= v@);
    string_of(&out)
}

/// Lines put together, each but the last followed by a line break.
pub open spec fn lines_joined(lines: Seq<Seq<char>>) -> Seq<char>
    decreases lines.len(),
{
    if lines.len() == 0 {
        Seq::empty()
    } else if lines.len() == 1 {
        lines[0]
    } else {
        lines_joined(lines.drop_last()) + seq!['\n'] + lines.last()
    }
}

/// Models of a sequence of strings.
pub open spec fn strings_view(v: Seq<String>) -> Seq<Seq<char>> {
    v.map_values(|s: String| s@)
}

/// Joins lines with line breaks (`join("\n")`).
pub fn join_lines(lines: &Vec<String>) -> (r: String)
    ensures
        r@ == lines_joined(strings_view(lines@)),
{
    let ghost lv = strings_view(lines@);
    let mut out: Vec<char> = Vec::new();
    let mut i: usize = 0;
    while i < lines.len()
        invariant
            lv == strings_view(lines@),
            0 <= i <= lines@.len(),
            out@ == lines_joined(lv.take(i as int)),
        decreases lines@.len() - i,
    {
        if i > 0 {
            out.push('\n');
        }
        let cs = chars_of(lines[i].as_str());
        let ghost before = out@;
        let mut k: usize = 0;
        while k < cs.len()
            invariant
                0 <= k <= cs@.len(),
                out@ == before + cs@.take(k as int),
            decreases cs@.len() - k,
        {
            out.push(cs[k]);
            assert(cs@.take(k + 1) =~= cs@.take(k as int).push(cs@[k as int]));
            k += 1;
        }
        proof {
            assert(cs@.take(cs@.len() as int) =~= cs@);
            assert(lv.take(i + 1).drop_last() =~= lv.take(i as int));
            assert(lv.take(i + 1).last() == lv[i as int]);
            if i == 0 {
                assert(lv.take(1) =~= seq![lv[0]]);
            }
        }
        i += 1;
    }
    assert(lv.take(lv.len() as int) =~= lv);
    string_of(&out)
}

/// The pieces of `t` between occurrences of `sep` (what `str::split` with a
/// character yields): at least one piece.
pub open spec fn split_on(t: Seq<char>, sep: char) -> Seq<Seq<char>>
    decreases t.len(),
{
    if t.len() == 0 {
        seq![Seq::empty()]
    } else {
        let r = split_on(t.drop_last(), sep);
        if t.last() == sep {
            r.push(Seq::empty())
        } else {
            r.update(r.len() - 1, r.last().push(t.last()))
        }
    }
}

/// Splitting always yields at least one piece.
pub proof fn lemma_split_on_nonempty(t: Seq<char>, sep: char)
    ensures
        split_on(t, sep).len() >= 1,
    decreases t.len(),
{
    if t.len() > 0 {
        lemma_split_on_nonempty(t.drop_last(), sep);
    }
}

/// Splitting `a`, a separator, then `b` gives the pieces of `a` followed by
/// the pieces of `b`.
pub proof fn lemma_split_on_concat(a: Seq<char>, b: Seq<char>, sep: char)
    ensures
        split_on(a + seq![sep] + b, sep) == split_on(a, sep) + split_on(b, sep),
    decreases b.len(),
{
    lemma_split_on_nonempty(a, sep);
    if b.len() == 0 {
        assert((a + seq![sep] + b).drop_last() =~= a);
        assert(split_on(a + seq![sep] + b, sep) =~= split_on(a, sep) + split_on(b, sep));
    } else {
        let b0 = b.drop_last();
        lemma_split_on_concat(a, b0, sep);
        lemma_split_on_nonempty(b0, sep);
        assert((a + seq![sep] + b).drop_last() =~= a + seq![sep] + b0);
        assert((a + seq![sep] + b).last() == b.last());
        assert(split_on(a + seq![sep] + b, sep) =~= split_on(a, sep) + split_on(b, sep));
    }
}

/// No piece of a split holds the separator.
pub proof fn lemma_split_on_pieces(t: Seq<char>, sep: char)
    ensures
        forall|i: int|
            0 <= i < split_on(t, sep).len() ==> !(#[trigger] split_on(t, sep)[i]).contains(sep),
    decreases t.len(),
{
    if t.len() > 0 {
        lemma_split_on_pieces(t.drop_last(), sep);
        lemma_split_on_nonempty(t.drop_last(), sep);
        let r = split_on(t.drop_last(), sep);
        let q = split_on(t, sep);
        assert forall|i: int| 0 <= i < q.len() implies !(#[trigger] q[i]).contains(sep) by {
            if t.last() == sep {
                if i < r.len() {
                    assert(q[i] == r[i]);
                } else {
                    assert(q[i] =~= Seq::<char>::empty());
                }
            } else if i < r.len() - 1 {
                assert(q[i] == r[i]);
            } else {
                let p = r.last().push(t.last());
                assert(q[i] == p);
                assert(!r[r.len() - 1].contains(sep));
                if p.contains(sep) {
                    let j = choose|j: int| 0 <= j < p.len() && p[j] == sep;
                    if j < p.len() - 1 {
                        assert(r.last()[j] == sep);
                    }
                }
            }
        }
    }
}

/// A text without the separator is a single piece.
pub proof fn lemma_split_on_single(t: Seq<char>, sep: char)
    requires
        !t.contains(sep),
    ensures
        split_on(t, sep) == seq![t],
    decreases t.len(),
{
    if t.len() > 0 {
        assert(!t.drop_last().contains(sep)) by {
            if t.drop_last().contains(sep) {
                let k = choose|k: int| 0 <= k < t.drop_last().len() && t.drop_last()[k] == sep;
                assert(t[k] == sep);
            }
        }
        lemma_split_on_single(t.drop_last(), sep);
        assert(t.last() != sep) by {
            assert(t[t.len() - 1] == t.last());
        }
        assert(t.drop_last().push(t.last()) =~= t);
        assert(split_on(t, sep) =~= seq![t]);
    } else {
        assert(t =~= Seq::<char>::empty());
    }
}

/// The pieces of a text, each made a `String` (`split` then `collect`).
pub fn split_text(s: &str, sep: char) -> (r: Vec<String>)
    ensures
        strings_view(r@) == split_on(s@, sep),
        r@.len() >= 1,
{
    let v = chars_of(s);
    let mut done: Vec<String> = Vec::new();
    let mut cur: Vec<char> = Vec::new();
    let mut i: usize = 0;
    while i < v.len()
        invariant
            v@ == s@,
            0 <= i <= v@.len(),
            strings_view(done@).push(cur@) == split_on(v@.take(i as int), sep),
        decreases v@.len() - i,
    {
        let c = v[i];
        let ghost before = strings_view(done@).push(cur@);
        assert(v@.take(i + 1).drop_last() =~= v@.take(i as int));
        assert(v@.take(i + 1).last() == c);
        proof {
            lemma_split_on_nonempty(v@.take(i as int), sep);
        }
        if c == sep {
            let piece = string_of(&cur);
            let ghost d0 = done@;
            done.push(piece);
            cur = Vec::new();
            assert(strings_view(done@) =~= strings_view(d0).push(piece@));
            assert(strings_view(done@).push(cur@) =~= before.push(Seq::empty()));
        } else {
            cur.push(c);
            assert(strings_view(done@).push(cur@) =~= before.update(
                before.len() - 1,
                before.last().push(c),
            ));
        }
        i += 1;
    }
    assert(v@.take(v@.len() as int) =~= v@);
    let last = string_of(&cur);
    let ghost d0 = done@;
    done.push(last);
    assert(strings_view(done@) =~= strings_view(d0).push(cur@));
    done
}

proof fn lemma_joined_extend_last(lines: Seq<Seq<char>>, x: char)
    requires
        lines.len() >= 1,
    ensures
        lines_joined(lines.update(lines.len() - 1, lines.last().push(x))) == lines_joined(
            lines,
        ).push(x),
{
    let u = lines.update(lines.len() - 1, lines.last().push(x));
    if lines.len() == 1 {
        assert(u[0] == lines[0].push(x));
    } else {
        assert(u.drop_last() =~= lines.drop_last());
        assert(u.last() == lines.last().push(x));
        assert(lines_joined(u) =~= lines_joined(lines).push(x));
    }
}

/// Joining the lines of a text with line breaks gives the text back.
pub proof fn lemma_join_split(s: Seq<char>)
    ensures
        lines_joined(split_on(s, '\n')) == s,
    decreases s.len(),
{
    if s.len() == 0 {
        assert(lines_joined(seq![Seq::<char>::empty()]) == Seq::<char>::empty());
    } else {
        let s0 = s.drop_last();
        lemma_join_split(s0);
        lemma_split_on_nonempty(s0, '\n');
        let r = split_on(s0, '\n');
        if s.last() == '\n' {
            let p = r.push(Seq::<char>::empty());
            assert(p.drop_last() =~= r);
            assert(lines_joined(p) =~= lines_joined(r) + seq!['\n'] + Seq::<char>::empty());
            assert(s0.push('\n') =~= s);
        } else {
            lemma_joined_extend_last(r, s.last());
            assert(s0.push(s.last()) =~= s);
        }
    }
}

/// Splitting lines joined with line breaks gives the lines back, when no
/// line holds a line break.
pub proof fn lemma_split_join(lines: Seq<Seq<char>>)
    requires
        lines.len() >= 1,
        forall|i: int| 0 <= i < lines.len() ==> !(#[trigger] lines[i]).contains('\n'),
    ensures
        split_on(lines_joined(lines), '\n') == lines,
    decreases lines.len(),
{
    if lines.len() == 1 {
        lemma_split_on_single(lines[0], '\n');
        assert(lines =~= seq![lines[0]]);
    } else {
        let l0 = lines.drop_last();
        assert forall|i: int| 0 <= i < l0.len() implies !(#[trigger] l0[i]).contains('\n') by {
            assert(l0[i] == lines[i]);
        }
        lemma_split_join(l0);
        assert(!lines[lines.len() - 1].contains('\n'));
        lemma_split_on_single(lines.last(), '\n');
        lemma_split_on_concat(lines_joined(l0), lines.last(), '\n');
        assert(l0 + seq![lines.last()] =~= lines);
    }
}

/// Whether `v` holds the text `x`.
pub fn contains_text_in(v: &Vec<String>, x: &String) -> (r: bool)
    ensures
        r == strings_view(v@).contains(x@),
{
    let ghost sv = strings_view(v@);
    let mut i: usize = 0;
    while i < v.len()
        invariant
            sv == strings_view(v@),
            0 <= i <= v@.len(),
            forall|k: int| 0 <= k < i ==> sv[k] != x@,
        decreases v@.len() - i,
    {
        if same_text(v[i].as_str(), x.as_str()) {
            assert(sv[i as int] == x@);
            return true;
        }
        i += 1;
    }
    false
}

} // verus!
