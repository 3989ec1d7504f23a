use vstd::prelude::*;
use vstd::string::*;

verus! {

/// The decimal digit character for `d < 10`.
pub open spec fn digit_char(d: nat) -> char {
    if d == 0 { '0' }
    else if d == 1 { '1' }
    else if d == 2 { '2' }
    else if d == 3 { '3' }
    else if d == 4 { '4' }
    else if d == 5 { '5' }
    else if d == 6 { '6' }
    else if d == 7 { '7' }
    else if d == 8 { '8' }
    else { '9' }
}

/// The decimal representation of `n`, without leading zeros.
pub open spec fn decimal(n: nat) -> Seq<char>
    decreases n,
{
    if n < 10 {
        seq![digit_char(n)]
    } else {
        decimal(n / 10).push(digit_char(n % 10))
    }
}


/// Every decimal representation has at least one digit.
pub proof fn lemma_decimal_nonempty(n: nat)
    ensures
        decimal(n).len() >= 1,
        n < 10 <==> decimal(n).len() == 1,
    decreases n,
{
    if n >= 10 {
        lemma_decimal_nonempty(n / 10);
    }
}

/// Distinct numbers have distinct decimal representations.
pub proof fn lemma_decimal_injective(a: nat, b: nat)
    requires
        decimal(a) == decimal(b),
    ensures
        a == b,
    decreases a,
{
    lemma_decimal_nonempty(a);
    lemma_decimal_nonempty(b);
    if a >= 10 && b >= 10 {
        assert(decimal(a).drop_last() =~= decimal(a / 10));
        assert(decimal(b).drop_last() =~= decimal(b / 10));
        lemma_decimal_injective(a / 10, b / 10);
        assert(digit_char(a % 10) == decimal(a).last());
        assert(digit_char(b % 10) == decimal(b).last());
    } else if a < 10 && b < 10 {
        assert(decimal(a)[0] == digit_char(a));
        assert(decimal(b)[0] == digit_char(b));
    }
}

/// Relies on `String::push`: the character is appended at the end.
#[verifier::external_body]
pub(crate) fn push_char(s: &mut String, c: char)
    ensures
        final(s)@ == old(s)@.push(c),
{
    s.push(c);
}

fn digit(d: usize) -> (c: char)
    requires
        d < 10,
    ensures
        c == digit_char(d as nat),
{
    if d == 0 { '0' }
    else if d == 1 { '1' }
    else if d == 2 { '2' }
    else if d == 3 { '3' }
    else if d == 4 { '4' }
    else if d == 5 { '5' }
    else if d == 6 { '6' }
    else if d == 7 { '7' }
    else if d == 8 { '8' }
    else { '9' }
}

/// Appends the decimal representation of `n` to `s`.
pub fn push_decimal(s: &mut String, n: usize)
    ensures
        final(s)@ == old(s)@ + decimal(n as nat),
    decreases n,
{
    if n >= 10 {
        push_decimal(s, n / 10);
    }
    push_char(s, digit(n % 10));
    assert(s@ =~= old(s)@ + decimal(n as nat));
}


/// `p` occurs in `t` starting at position `i`.
pub open spec fn occurs_at(t: Seq<char>, p: Seq<char>, i: int) -> bool {
    0 <= i && i + p.len() <= t.len() && t.subrange(i, i + p.len()) == p
}

/// `p` is a contiguous piece of `t` (the empty sequence is a piece of every `t`).
pub open spec fn has_substring(t: Seq<char>, p: Seq<char>) -> bool {
    exists|i: int| occurs_at(t, p, i)
}

/// The characters of `s`, one per element.
pub fn char_vec(s: &str) -> (v: Vec<char>)
    ensures
        v@ == s@,
{
    let n = s.unicode_len();
    let mut v: Vec<char> = Vec::new();
    let mut i: usize = 0;
    while i < n
        invariant
            n == s@.len(),
            i <= n,
            v@ == s@.subrange(0, i as int),
        decreases n - i,
    {
        v.push(s.get_char(i));
        i = i + 1;
        assert(v@ =~= s@.subrange(0, i as int));
    }
    assert(v@ =~= s@);
    v
}

/// Whether `p` occurs at position `i` of `t`.
fn matches_at(t: &Vec<char>, p: &Vec<char>, i: usize) -> (r: bool)
    requires
        i + p@.len() <= t@.len(),
    ensures
        r == occurs_at(t@, p@, i as int),
{
    let tl = t.len();
    let mut j: usize = 0;
    while j < p.len()
        invariant
            i + p@.len() <= t@.len(),
            tl == t@.len(),
            j <= p@.len(),
            forall|k: int| 0 <= k < j ==> t@[i + k] == p@[k],
        decreases p@.len() - j,
    {
        if t[i + j] != p[j] {
            assert(t@.subrange(i as int, i + p@.len())[j as int] != p@[j as int]);
            return false;
        }
        j = j + 1;
    }
    assert(t@.subrange(i as int, i + p@.len()) =~= p@);
    true
}

/// Whether `p` occurs as a contiguous piece of `t`.
pub fn contains_chars(t: &Vec<char>, p: &Vec<char>) -> (r: bool)
    ensures
        r == has_substring(t@, p@),
{
    if p.len() > t.len() {
        assert forall|i: int| !occurs_at(t@, p@, i) by {}
        return false;
    }
    let last = t.len() - p.len();
    let mut i: usize = 0;
    while i <= last
        invariant
            last + p@.len() == t@.len(),
            forall|k: int| 0 <= k < i ==> !occurs_at(t@, p@, k),
        decreases last + 1 - i,
    {
        if matches_at(t, p, i) {
            return true;
        }
        if i == last {
            assert forall|k: int| !occurs_at(t@, p@, k) by {
                if 0 <= k <= last as int {
                } else {
                }
            }
            return false;
        }
        i = i + 1;
    }
    false
}

/// Whether two strings hold the same characters.
pub fn str_eq(a: &str, b: &str) -> (r: bool)
    ensures
        r == (a@ == b@),
{
    let av = char_vec(a);
    let bv = char_vec(b);
    if av.len() != bv.len() {
        return false;
    }
    let mut i: usize = 0;
    while i < av.len()
        invariant
            av@ == a@,
            bv@ == b@,
            av@.len() == bv@.len(),
            i <= av@.len(),
            forall|k: int| 0 <= k < i ==> av@[k] == bv@[k],
        decreases av@.len() - i,
    {
        if av[i] != bv[i] {
            assert(av@[i as int] != bv@[i as int]);
            return false;
        }
        i = i + 1;
    }
    assert(av@ =~= bv@);
    true
}


/// Unicode white space, as `char::is_whitespace` defines it.
pub open spec fn is_white(c: char) -> bool {
    let u = c as u32;
    (0x9 <= u && u <= 0xD) || u == 0x20 || u == 0x85 || u == 0xA0 || u == 0x1680 || (0x2000 <= u
        && u <= 0x200A) || u == 0x2028 || u == 0x2029 || u == 0x202F || u == 0x205F || u == 0x3000
}

/// Reading `s` from the left: the words completed so far, and the word being read.
pub open spec fn scan_words(s: Seq<char>) -> (Seq<Seq<char>>, Seq<char>)
    decreases s.len(),
{
    if s.len() == 0 {
        (Seq::empty(), Seq::empty())
    } else {
        let (ws, cur) = scan_words(s.drop_last());
        if is_white(s.last()) {
            if cur.len() > 0 { (ws.push(cur), Seq::empty()) } else { (ws, Seq::empty()) }
        } else {
            (ws, cur.push(s.last()))
        }
    }
}

/// The maximal runs of non-white-space characters of `s`, in order.
pub open spec fn words_of(s: Seq<char>) -> Seq<Seq<char>> {
    let (ws, cur) = scan_words(s);
    if cur.len() > 0 { ws.push(cur) } else { ws }
}

/// The first ten elements of `s` (all of them if fewer).
pub open spec fn first_ten(s: Seq<Seq<char>>) -> Seq<Seq<char>> {
    if s.len() <= 10 { s } else { s.take(10) }
}

/// The words of `ws` longer than three characters.
pub open spec fn long_words(ws: Seq<Seq<char>>) -> Seq<Seq<char>> {
    ws.filter(|w: Seq<char>| w.len() > 3)
}

/// The first ten words of `s` longer than three characters, in order.
pub open spec fn keywords_of(s: Seq<char>) -> Seq<Seq<char>> {
    first_ten(long_words(words_of(s)))
}

fn is_white_exec(c: char) -> (r: bool)
    ensures
        r == is_white(c),
{
    let u = c as u32;
    (0x9 <= u && u <= 0xD) || u == 0x20 || u == 0x85 || u == 0xA0 || u == 0x1680 || (0x2000 <= u
        && u <= 0x200A) || u == 0x2028 || u == 0x2029 || u == 0x202F || u == 0x205F || u == 0x3000
}

proof fn lemma_long_words_push(ws: Seq<Seq<char>>, w: Seq<char>)
    ensures
        long_words(ws.push(w)) == if w.len() > 3 { long_words(ws).push(w) } else { long_words(ws) },
{
    reveal(Seq::filter);
    assert(ws.push(w).drop_last() =~= ws);
}

proof fn lemma_first_ten_push(s: Seq<Seq<char>>, w: Seq<char>)
    ensures
        first_ten(s.push(w)) == if first_ten(s).len() < 10 { first_ten(s).push(w) } else { first_ten(s) },
{
    if s.len() >= 10 {
        assert(s.push(w).take(10) =~= s.take(10));
        if s.len() == 10 {
            assert(s.take(10) =~= s);
        }
    }
}

/// Adds the word `w` to the kept words `out` when it is long and fewer than ten are kept.
fn keep_word(out: &mut Vec<String>, w: String, capped_len: usize, Ghost(ws): Ghost<Seq<Seq<char>>>)
    requires
        capped_len == if w@.len() > 3 { 4 } else { w@.len() },
        crate::plan::strings_view(old(out)@) == first_ten(long_words(ws)),
    ensures
        crate::plan::strings_view(final(out)@) == first_ten(long_words(ws.push(w@))),
{
    proof {
        lemma_long_words_push(ws, w@);
        lemma_first_ten_push(long_words(ws), w@);
    }
    if capped_len > 3 && out.len() < 10 {
        let ghost prev = out@;
        let ghost wv = w@;
        out.push(w);
        assert(crate::plan::strings_view(out@) =~= crate::plan::strings_view(prev).push(wv));
    }
}

/// The first ten white-space separated words of `text` that are longer than three
/// characters, in order.
pub fn keywords(text: &str) -> (r: Vec<String>)
    ensures
        crate::plan::strings_view(r@) == keywords_of(text@),
{
    let t = char_vec(text);
    let mut out: Vec<String> = Vec::new();
    let mut cur = String::new();
    let mut capped_len: usize = 0;
    let mut i: usize = 0;
    assert(crate::plan::strings_view(out@) =~= first_ten(long_words(Seq::empty())));
    while i < t.len()
        invariant
            i <= t@.len(),
            t@ == text@,
            cur@ == scan_words(t@.subrange(0, i as int)).1,
            capped_len == if cur@.len() > 3 { 4 } else { cur@.len() },
            crate::plan::strings_view(out@) == first_ten(long_words(scan_words(t@.subrange(0, i as int)).0)),
        decreases t@.len() - i,
    {
        let c = t[i];
        let ghost pre = t@.subrange(0, i as int);
        proof {
            assert(t@.subrange(0, i + 1).drop_last() =~= pre);
            assert(t@.subrange(0, i + 1).last() == c);
        }
        if is_white_exec(c) {
            if !cur.as_str().is_empty() {
                let w = cur;
                keep_word(&mut out, w, capped_len, Ghost(scan_words(pre).0));
            }
            cur = String::new();
            capped_len = 0;
        } else {
            let ghost before = cur@;
            push_char(&mut cur, c);
            capped_len = if capped_len >= 3 { 4 } else { capped_len + 1 };
            assert(cur@.drop_last() =~= before);
        }
        i = i + 1;
    }
    assert(t@.subrange(0, i as int) =~= text@);
    if !cur.as_str().is_empty() {
        keep_word(&mut out, cur, capped_len, Ghost(scan_words(text@).0));
    }
    out
}


/// What `str::to_lowercase` returns for the characters `s`.
pub uninterp spec fn lower_of(s: Seq<char>) -> Seq<char>;

/// Relies on `str::to_lowercase`: its result depends on the characters of `s` alone.
#[verifier::external_body]
pub(crate) fn lowercase(s: &str) -> (r: String)
    ensures
        r@ == lower_of(s@),
{
    s.to_lowercase()
}

} // verus!
