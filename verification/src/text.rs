use vstd::prelude::*;

verus! {

broadcast use {vstd::utf8::encode_utf8_decode_utf8, vstd::string::group_string_axioms};

/// Whether two strings hold the same characters, compared byte by byte.
pub fn str_equal(a: &str, b: &str) -> (r: bool)
    ensures
        r == (a@ == b@),
{
    let x = a.as_bytes();
    let y = b.as_bytes();
    let same = if x.len() != y.len() {
        false
    } else {
        let mut i: usize = 0;
        let mut eq = true;
        while i < x.len()
            invariant
                x@.len() == y@.len(),
                i <= x@.len(),
                eq == (forall|j: int| 0 <= j < i ==> x@[j] == y@[j]),
            decreases x@.len() - i,
        {
            if x[i] != y[i] {
                eq = false;
            }
            i = i + 1;
        }
        proof {
            if eq {
                assert(x@ =~= y@);
            }
        }
        eq
    };
    proof {
        if a@ == b@ {
            assert(x@ == y@);
        }
        if x@ == y@ {
            assert(vstd::utf8::decode_utf8(x@) == a@);
        }
    }
    same
}

/// The Unicode `White_Space` property.
pub open spec fn is_white_space(c: char) -> bool {
    let u = c as u32;
    ||| 0x9 <= u <= 0xd
    ||| u == 0x20
    ||| u == 0x85
    ||| u == 0xa0
    ||| u == 0x1680
    ||| 0x2000 <= u <= 0x200a
    ||| u == 0x2028
    ||| u == 0x2029
    ||| u == 0x202f
    ||| u == 0x205f
    ||| u == 0x3000
}

/// Whether `s` trims to nothing: each of its characters is white space.
pub open spec fn blank(s: Seq<char>) -> bool {
    forall|i: int| 0 <= i < s.len() ==> is_white_space(s[i])
}

/// `char::is_whitespace`.
#[verifier::external_body]
fn char_is_whitespace(c: char) -> (r: bool)
    ensures
        r == is_white_space(c),
{
    c.is_whitespace()
}

/// `s.trim().is_empty()`.
pub fn is_blank(s: &str) -> (r: bool)
    ensures
        r == blank(s@),
{
    let mut all = true;
    for c in it: s.chars()
        invariant
            it.seq() == s@,
            all == (forall|j: int| 0 <= j < it.index() ==> is_white_space(s@[j])),
    {
        if !char_is_whitespace(c) {
            all = false;
        }
    }
    all
}

/// The decimal digit `d`.
pub open spec fn digit(d: nat) -> char {
    if d == 0 {
        '0'
    } else if d == 1 {
        '1'
    } else if d == 2 {
        '2'
    } else if d == 3 {
        '3'
    } else if d == 4 {
        '4'
    } else if d == 5 {
        '5'
    } else if d == 6 {
        '6'
    } else if d == 7 {
        '7'
    } else if d == 8 {
        '8'
    } else {
        '9'
    }
}

/// The decimal notation of `n`, without leading zeros.
pub open spec fn decimal(n: nat) -> Seq<char>
    decreases n,
{
    if n < 10 {
        seq![digit(n)]
    } else {
        decimal(n / 10).push(digit(n % 10))
    }
}

fn digit_str(d: u64) -> (r: &'static str)
    requires
        d < 10,
    ensures
        r@ == seq![digit(d as nat)],
{
    if d == 0 {
        proof { reveal_strlit("0"); }
        "0"
    } else if d == 1 {
        proof { reveal_strlit("1"); }
        "1"
    } else if d == 2 {
        proof { reveal_strlit("2"); }
        "2"
    } else if d == 3 {
        proof { reveal_strlit("3"); }
        "3"
    } else if d == 4 {
        proof { reveal_strlit("4"); }
        "4"
    } else if d == 5 {
        proof { reveal_strlit("5"); }
        "5"
    } else if d == 6 {
        proof { reveal_strlit("6"); }
        "6"
    } else if d == 7 {
        proof { reveal_strlit("7"); }
        "7"
    } else if d == 8 {
        proof { reveal_strlit("8"); }
        "8"
    } else {
        proof { reveal_strlit("9"); }
        "9"
    }
}

/// Appends the decimal notation of `n` to `out`.
pub fn push_decimal(out: &mut String, n: u64)
    ensures
        final(out)@ == old(out)@ + decimal(n as nat),
    decreases n,
{
    if n >= 10 {
        push_decimal(out, n / 10);
    }
    let d = digit_str(n % 10);
    out.append(d);
    assert(decimal(n as nat) =~= if n < 10 {
        seq![digit(n as nat)]
    } else {
        decimal((n / 10) as nat).push(digit((n % 10) as nat))
    });
}

/// `n.to_string()`.
pub fn decimal_string(n: u64) -> (r: String)
    ensures
        r@ == decimal(n as nat),
{
    let mut s = String::new();
    push_decimal(&mut s, n);
    assert(s@ =~= decimal(n as nat));
    s
}

/// `s` with every trailing `c` removed.
pub open spec fn trim_end(s: Seq<char>, c: char) -> Seq<char>
    decreases s.len(),
{
    if s.len() > 0 && s.last() == c {
        trim_end(s.drop_last(), c)
    } else {
        s
    }
}

proof fn lemma_trim_end_take(s: Seq<char>, c: char, k: int)
    requires
        0 <= k <= s.len(),
        forall|j: int| k <= j < s.len() ==> s[j] == c,
    ensures
        trim_end(s, c) == trim_end(s.take(k), c),
    decreases s.len() - k,
{
    if k < s.len() {
        assert(s.drop_last() =~= s.take(s.len() - 1));
        lemma_trim_end_take(s.drop_last(), c, k);
        assert(s.drop_last().take(k) =~= s.take(k));
    } else {
        assert(s.take(k) =~= s);
    }
}

/// Trimming leaves no trailing `c`, and trimming again changes nothing.
pub proof fn law_trim_end_leaves_no_trailing(s: Seq<char>, c: char)
    ensures
        trim_end(s, c).len() == 0 || trim_end(s, c).last() != c,
        trim_end(trim_end(s, c), c) == trim_end(s, c),
        trim_end(s, c).len() <= s.len(),
    decreases s.len(),
{
    if s.len() > 0 && s.last() == c {
        law_trim_end_leaves_no_trailing(s.drop_last(), c);
    }
}

/// `s.trim_end_matches('/')`, as an owned string.
pub fn trim_trailing_slashes(s: &str) -> (r: String)
    ensures
        r@ == trim_end(s@, '/'),
{
    let n = s.unicode_len();
    let mut k = n;
    while k > 0 && s.get_char(k - 1) == '/'
        invariant
            k <= n,
            n == s@.len(),
            forall|j: int| k <= j < n ==> s@[j] == '/',
        decreases k,
    {
        k = k - 1;
    }
    proof {
        lemma_trim_end_take(s@, '/', k as int);
        let t = s@.take(k as int);
        assert(!(t.len() > 0 && t.last() == '/'));
    }
    let sub = s.substring_char(0, k);
    String::from_str(sub)
}

/// `s.strip_prefix(prefix)`.
pub fn strip_prefix<'a>(s: &'a str, prefix: &str) -> (r: Option<&'a str>)
    ensures
        match r {
            Some(rest) => s@ == prefix@ + rest@,
            None => !(prefix@.len() <= s@.len() && s@.take(prefix@.len() as int) == prefix@),
        },
{
    let n = s.unicode_len();
    let m = prefix.unicode_len();
    if m > n {
        return None;
    }
    let mut i: usize = 0;
    while i < m
        invariant
            m <= n,
            n == s@.len(),
            m == prefix@.len(),
            i <= m,
            forall|j: int| 0 <= j < i ==> s@[j] == prefix@[j],
        decreases m - i,
    {
        if s.get_char(i) != prefix.get_char(i) {
            assert(s@.take(m as int)[i as int] != prefix@[i as int]);
            return None;
        }
        i = i + 1;
    }
    let rest = s.substring_char(m, n);
    assert(s@ =~= prefix@ + rest@);
    Some(rest)
}

/// `a + b` for string slices.
pub fn concat2(a: &str, b: &str) -> (r: String)
    ensures
        r@ == a@ + b@,
{
    let mut s = String::from_str(a);
    s.append(b);
    s
}

/// `a + b + c` for string slices.
pub fn concat3(a: &str, b: &str, c: &str) -> (r: String)
    ensures
        r@ == a@ + b@ + c@,
{
    let mut s = String::from_str(a);
    s.append(b);
    s.append(c);
    s
}

/// `s` followed by spaces up to `width` characters, as `{:<width}` formats it.
pub open spec fn pad_right(s: Seq<char>, width: nat) -> Seq<char> {
    if s.len() >= width {
        s
    } else {
        s + Seq::new((width - s.len()) as nat, |i: int| ' ')
    }
}

/// Appends `s` padded with spaces to `width` characters.
pub fn push_padded(out: &mut String, s: &str, width: usize)
    ensures
        final(out)@ == old(out)@ + pad_right(s@, width as nat),
{
    out.append(s);
    let n = s.unicode_len();
    let mut k = n;
    let ghost start = old(out)@;
    assert(out@ =~= start + s@ + Seq::new(0, |i: int| ' '));
    while k < width
        invariant
            n == s@.len(),
            n <= k,
            k <= width || k == n,
            out@ == start + s@ + Seq::new((k - n) as nat, |i: int| ' '),
        decreases width - k,
    {
        proof { reveal_strlit(" "); }
        out.append(" ");
        k = k + 1;
        assert(out@ =~= start + s@ + Seq::new((k - n) as nat, |i: int| ' '));
    }
    assert(start + s@ + Seq::new((k - n) as nat, |i: int| ' ') =~= start + pad_right(s@, width as nat));
}

/// `c` repeated `n` times.
pub open spec fn repeat(c: char, n: nat) -> Seq<char> {
    Seq::new(n, |i: int| c)
}

/// `"-".repeat(n)`.
pub fn dashes(n: usize) -> (r: String)
    ensures
        r@ == repeat('-', n as nat),
{
    let mut out = String::new();
    let mut k: usize = 0;
    assert(out@ =~= repeat('-', 0));
    while k < n
        invariant
            k <= n,
            out@ == repeat('-', k as nat),
        decreases n - k,
    {
        proof { reveal_strlit("-"); }
        out.append("-");
        k = k + 1;
        assert(out@ =~= repeat('-', k as nat));
    }
    out
}

/// `s` without its leading white space.
pub open spec fn trim_start_ws(s: Seq<char>) -> Seq<char>
    decreases s.len(),
{
    if s.len() > 0 && is_white_space(s[0]) {
        trim_start_ws(s.drop_first())
    } else {
        s
    }
}

/// `s` without its trailing white space.
pub open spec fn trim_end_ws(s: Seq<char>) -> Seq<char>
    decreases s.len(),
{
    if s.len() > 0 && is_white_space(s.last()) {
        trim_end_ws(s.drop_last())
    } else {
        s
    }
}

/// `s` without its leading and trailing white space, as `str::trim` gives it.
pub open spec fn trim_ws(s: Seq<char>) -> Seq<char> {
    trim_end_ws(trim_start_ws(s))
}

proof fn lemma_trim_start_skip(s: Seq<char>, a: int)
    requires
        0 <= a <= s.len(),
        forall|j: int| 0 <= j < a ==> is_white_space(s[j]),
    ensures
        trim_start_ws(s) == trim_start_ws(s.skip(a)),
    decreases a,
{
    if a > 0 {
        lemma_trim_start_skip(s.drop_first(), a - 1);
        assert(s.drop_first().skip(a - 1) =~= s.skip(a));
    } else {
        assert(s.skip(0) =~= s);
    }
}

proof fn lemma_trim_end_ws_take(s: Seq<char>, b: int)
    requires
        0 <= b <= s.len(),
        forall|j: int| b <= j < s.len() ==> is_white_space(s[j]),
    ensures
        trim_end_ws(s) == trim_end_ws(s.take(b)),
    decreases s.len() - b,
{
    if b < s.len() {
        assert(s.drop_last() =~= s.take(s.len() - 1));
        lemma_trim_end_ws_take(s.drop_last(), b);
        assert(s.drop_last().take(b) =~= s.take(b));
    } else {
        assert(s.take(b) =~= s);
    }
}

/// `s.trim()`.
pub fn trim_whitespace(s: &str) -> (r: &str)
    ensures
        r@ == trim_ws(s@),
{
    let n = s.unicode_len();
    let mut a: usize = 0;
    while a < n && char_is_whitespace(s.get_char(a))
        invariant
            a <= n,
            n == s@.len(),
            forall|j: int| 0 <= j < a ==> is_white_space(s@[j]),
        decreases n - a,
    {
        a = a + 1;
    }
    let mut b: usize = n;
    while b > a && char_is_whitespace(s.get_char(b - 1))
        invariant
            a <= b <= n,
            n == s@.len(),
            forall|j: int| b <= j < n ==> is_white_space(s@[j]),
        decreases b,
    {
        b = b - 1;
    }
    proof {
        lemma_trim_start_skip(s@, a as int);
        let t = s@.skip(a as int);
        assert(!(t.len() > 0 && is_white_space(t[0])));
        lemma_trim_end_ws_take(t, (b - a) as int);
        let u = t.take((b - a) as int);
        assert(!(u.len() > 0 && is_white_space(u.last())));
        assert(u =~= s@.subrange(a as int, b as int));
    }
    s.substring_char(a, b)
}

} // verus!
