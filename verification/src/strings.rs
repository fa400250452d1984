//! Small verified helpers on text.

use vstd::prelude::*;

verus! {

/// Whether two strings hold the same characters.
pub fn str_eq(a: &str, b: &str) -> (r: bool)
    ensures
        r == (a@ == b@),
{
    let n = a.unicode_len();
    let m = b.unicode_len();
    if n != m {
        return false;
    }
    let mut i: usize = 0;
    while i < n
        invariant
            n == a@.len(),
            m == b@.len(),
            n == m,
            i <= n,
            forall|j: int| 0 <= j < i ==> a@[j] == b@[j],
        decreases n - i,
    {
        if a.get_char(i) != b.get_char(i) {
            return false;
        }
        i = i + 1;
    }
    assert(a@ =~= b@);
    true
}

/// The characters of `s`.
pub fn chars_of(s: &str) -> (r: Vec<char>)
    ensures
        r@ == s@,
{
    let mut out: Vec<char> = Vec::new();
    for c in it: s.chars()
        invariant
            out@.len() == it.index(),
            it.seq() == s@,
            forall|k: int| 0 <= k < out@.len() ==> out@[k] == it.seq()[k],
    {
        out.push(c);
    }
    assert(out@ =~= s@);
    out
}

} // verus!

verus! {

/// Whether `c` is an ASCII decimal digit.
pub open spec fn is_digit(c: char) -> bool {
    '0' <= c && c <= '9'
}

/// Numeric value of a decimal digit character.
pub open spec fn digit_value(c: char) -> int {
    c as int - '0' as int
}

/// Whether every character of `s` is a decimal digit.
pub open spec fn all_digits(s: Seq<char>) -> bool {
    forall|i: int| 0 <= i < s.len() ==> is_digit(#[trigger] s[i])
}

/// Value of a string of decimal digits (most significant digit first).
pub open spec fn digits_value(s: Seq<char>) -> int
    decreases s.len(),
{
    if s.len() == 0 {
        0
    } else {
        10 * digits_value(s.drop_last()) + digit_value(s.last())
    }
}

/// Reading of integer text as Rust's `str::parse` does it for integer types:
/// an optional `+` (or `-` when `signed`) followed by one or more decimal
/// digits, nothing else. `None` when the text is not of that form.
pub open spec fn spec_parse_int(s: Seq<char>, signed: bool) -> Option<int> {
    if s.len() > 0 && s[0] == '+' {
        let body = s.drop_first();
        if body.len() == 0 || !all_digits(body) { None } else { Some(digits_value(body)) }
    } else if signed && s.len() > 0 && s[0] == '-' {
        let body = s.drop_first();
        if body.len() == 0 || !all_digits(body) { None } else { Some(-digits_value(body)) }
    } else {
        if s.len() == 0 || !all_digits(s) { None } else { Some(digits_value(s)) }
    }
}

/// Reading of integer text into an integer type with range `lo..=hi`:
/// `None` when the text is malformed or its value lies outside the range.
pub open spec fn spec_parse_ranged(s: Seq<char>, signed: bool, lo: int, hi: int) -> Option<int> {
    match spec_parse_int(s, signed) {
        Some(v) => if lo <= v && v <= hi { Some(v) } else { None },
        None => None,
    }
}

proof fn lemma_digits_value_nonneg(s: Seq<char>)
    requires
        all_digits(s),
    ensures
        digits_value(s) >= 0,
    decreases s.len(),
{
    if s.len() > 0 {
        assert(all_digits(s.drop_last()));
        lemma_digits_value_nonneg(s.drop_last());
        assert(is_digit(s[s.len() - 1]));
    }
}

/// Value of the digits `s[start..end]`, with `None` once it exceeds `cap`.
fn read_digits(s: &str, start: usize, end: usize, cap: u64) -> (r: Option<u64>)
    requires
        start <= end <= s@.len(),
        cap < 0x1_0000_0000_0000,
    ensures
        all_digits(s@.subrange(start as int, end as int)) ==> match r {
            Some(v) => v == digits_value(s@.subrange(start as int, end as int)) && v <= cap,
            None => digits_value(s@.subrange(start as int, end as int)) > cap,
        },
        !all_digits(s@.subrange(start as int, end as int)) ==> r is None,
{
    let mut acc: u64 = 0;
    let mut over = false;
    let mut i = start;
    while i < end
        invariant
            start <= i <= end <= s@.len(),
            cap < 0x1_0000_0000_0000,
            all_digits(s@.subrange(start as int, i as int)),
            !over ==> acc == digits_value(s@.subrange(start as int, i as int)) && acc <= cap,
            over ==> digits_value(s@.subrange(start as int, i as int)) > cap,
        decreases end - i,
    {
        let c = s.get_char(i);
        if !('0' <= c && c <= '9') {
            assert(!all_digits(s@.subrange(start as int, end as int))) by {
                assert(s@.subrange(start as int, end as int)[i - start] == c);
            }
            return None;
        }
        let ghost prev = s@.subrange(start as int, i as int);
        let ghost next = s@.subrange(start as int, i + 1);
        assert(next.drop_last() =~= prev);
        assert(next.last() == c);
        assert(all_digits(next)) by {
            assert forall|j: int| 0 <= j < next.len() implies is_digit(#[trigger] next[j]) by {
                if j < prev.len() {
                    assert(next[j] == prev[j]);
                }
            }
        }
        let d = (c as u32 - '0' as u32) as u64;
        assert(d as int == digit_value(c));
        proof {
            lemma_digits_value_nonneg(prev);
        }
        if !over {
            let nv = acc * 10 + d;
            if nv > cap {
                over = true;
            } else {
                acc = nv;
            }
        }
        i = i + 1;
    }
    if over {
        None
    } else {
        Some(acc)
    }
}

/// Reads integer text the way Rust's `str::parse` does for an integer type
/// whose values are `lo..=hi` (signed types accept a leading `-`).
pub fn parse_int_text(s: &str, signed: bool, lo: i64, hi: i64) -> (r: Option<i64>)
    requires
        -0x1_0000_0000 <= lo <= 0 <= hi <= 0x1_0000_0000,
    ensures
        match r {
            Some(v) => spec_parse_ranged(s@, signed, lo as int, hi as int) == Some(v as int),
            None => spec_parse_ranged(s@, signed, lo as int, hi as int) is None,
        },
{
    let n = s.unicode_len();
    if n == 0 {
        return None;
    }
    let first = s.get_char(0);
    let ghost body = s@.drop_first();
    assert(s@.subrange(1, n as int) =~= body);
    assert(s@.subrange(0, n as int) =~= s@);
    if first == '+' {
        if n == 1 {
            return None;
        }
        match read_digits(s, 1, n, hi as u64) {
            Some(v) => Some(v as i64),
            None => None,
        }
    } else if signed && first == '-' {
        if n == 1 {
            return None;
        }
        let cap: u64 = (0 - lo) as u64;
        match read_digits(s, 1, n, cap) {
            Some(v) => Some(0 - (v as i64)),
            None => None,
        }
    } else {
        match read_digits(s, 0, n, hi as u64) {
            Some(v) => Some(v as i64),
            None => None,
        }
    }
}

/// Whether `sep` occurs in `s` at position `i`.
pub open spec fn occurs_at(s: Seq<char>, sep: Seq<char>, i: int) -> bool {
    &&& 0 <= i
    &&& i + sep.len() <= s.len()
    &&& s.subrange(i, i + sep.len()) == sep
}

/// The first position from `i` on where `sep` occurs in `s`.
pub open spec fn first_occ_from(s: Seq<char>, sep: Seq<char>, i: int) -> Option<int>
    decreases s.len() - i,
{
    if i < 0 || i + sep.len() > s.len() || i >= s.len() {
        None
    } else if occurs_at(s, sep, i) {
        Some(i)
    } else {
        first_occ_from(s, sep, i + 1)
    }
}

/// The first occurrence found from `i` on is at or after `i`, and is an
/// occurrence.
pub proof fn lemma_first_occ_from(s: Seq<char>, sep: Seq<char>, i: int)
    ensures
        first_occ_from(s, sep, i) matches Some(j) ==> i <= j && occurs_at(s, sep, j),
    decreases s.len() - i,
{
    if !(i < 0 || i + sep.len() > s.len() || i >= s.len()) && !occurs_at(s, sep, i) {
        lemma_first_occ_from(s, sep, i + 1);
    }
}

/// The pieces of `s` from position `start` on between the occurrences of
/// `sep`, as `str::split` gives them (an empty `sep` gives no pieces).
pub open spec fn split_from(s: Seq<char>, sep: Seq<char>, start: int) -> Seq<Seq<char>>
    decreases s.len() - start,
{
    if sep.len() == 0 || start < 0 || start > s.len() {
        Seq::empty()
    } else {
        match first_occ_from(s, sep, start) {
            Some(j) => {
                proof {
                    lemma_first_occ_from(s, sep, start);
                }
                seq![s.subrange(start, j)] + split_from(s, sep, j + sep.len())
            },
            None => seq![s.subrange(start, s.len() as int)],
        }
    }
}

/// The pieces of `s` between the occurrences of `sep`, as `str::split`
/// gives them.
pub open spec fn spec_split(s: Seq<char>, sep: Seq<char>) -> Seq<Seq<char>> {
    split_from(s, sep, 0)
}

fn occurs_at_exec(s: &Vec<char>, sep: &Vec<char>, i: usize) -> (r: bool)
    requires
        i + sep@.len() <= s@.len(),
    ensures
        r == occurs_at(s@, sep@, i as int),
{
    let n = s.len();
    let mut j: usize = 0;
    while j < sep.len()
        invariant
            i + sep@.len() <= s@.len(),
            n == s@.len(),
            j <= sep@.len(),
            forall|k: int| 0 <= k < j ==> s@[i + k] == sep@[k],
        decreases sep@.len() - j,
    {
        if s[i + j] != sep[j] {
            assert(s@.subrange(i as int, i + sep@.len())[j as int] != sep@[j as int]);
            return false;
        }
        j = j + 1;
    }
    assert(s@.subrange(i as int, i + sep@.len()) =~= sep@);
    true
}

/// The pieces of `s` between the occurrences of `sep` (`str::split`).
pub fn split_text(s: &str, sep: &str) -> (r: Vec<String>)
    requires
        sep@.len() > 0,
    ensures
        r@.len() == spec_split(s@, sep@).len(),
        forall|k: int| 0 <= k < r@.len() ==> #[trigger] r@[k]@ == spec_split(s@, sep@)[k],
{
    let cs = chars_of(s);
    let ps = chars_of(sep);
    let n = cs.len();
    let m = ps.len();
    let mut out: Vec<String> = Vec::new();
    let mut start: usize = 0;
    let mut i: usize = 0;
    while i < n && m <= n - i
        invariant
            cs@ == s@,
            ps@ == sep@,
            n == s@.len(),
            m == sep@.len(),
            m > 0,
            start <= i,
            i <= n,
            first_occ_from(s@, sep@, start as int) == first_occ_from(s@, sep@, i as int),
            out@.len() + split_from(s@, sep@, start as int).len() == spec_split(s@, sep@).len(),
            forall|k: int| 0 <= k < out@.len() ==> #[trigger] out@[k]@ == spec_split(s@, sep@)[k],
            forall|k: int| 0 <= k < split_from(s@, sep@, start as int).len() ==>
                #[trigger] split_from(s@, sep@, start as int)[k] == spec_split(s@, sep@)[out@.len() + k],
        decreases n - i,
    {
        if occurs_at_exec(&cs, &ps, i) {
            let piece = s.substring_char(start, i);
            proof {
                lemma_first_occ_from(s@, sep@, start as int);
                let rest = split_from(s@, sep@, i + m);
                assert(split_from(s@, sep@, start as int) == seq![s@.subrange(start as int, i as int)] + rest);
                assert(split_from(s@, sep@, start as int)[0] == s@.subrange(start as int, i as int));
                assert forall|k: int| 0 <= k < rest.len() implies #[trigger] rest[k] == spec_split(s@, sep@)[out@.len() + 1 + k] by {
                    assert(split_from(s@, sep@, start as int)[k + 1] == rest[k]);
                }
            }
            out.push(String::from_str(piece));
            i = i + m;
            start = i;
        } else {
            i = i + 1;
        }
    }
    let piece = s.substring_char(start, n);
    proof {
        assert(first_occ_from(s@, sep@, i as int) is None);
        assert(split_from(s@, sep@, start as int) == seq![s@.subrange(start as int, n as int)]);
        assert(split_from(s@, sep@, start as int)[0] == spec_split(s@, sep@)[out@.len() as int]);
    }
    let ghost before = out@;
    out.push(String::from_str(piece));
    assert forall|k: int| 0 <= k < out@.len() implies #[trigger] out@[k]@ == spec_split(s@, sep@)[k] by {
        if k < before.len() {
            assert(out@[k] == before[k]);
        }
    }
    out
}

/// `s` without the prefix `p`, when it starts with it.
pub open spec fn spec_strip_prefix(s: Seq<char>, p: Seq<char>) -> Option<Seq<char>> {
    if p.len() <= s.len() && s.subrange(0, p.len() as int) == p {
        Some(s.subrange(p.len() as int, s.len() as int))
    } else {
        None
    }
}

/// `s` without the suffix `p`, when it ends with it.
pub open spec fn spec_strip_suffix(s: Seq<char>, p: Seq<char>) -> Option<Seq<char>> {
    if p.len() <= s.len() && s.subrange(s.len() - p.len(), s.len() as int) == p {
        Some(s.subrange(0, s.len() - p.len()))
    } else {
        None
    }
}

fn matches_at(cs: &Vec<char>, ps: &Vec<char>, at: usize) -> (r: bool)
    requires
        at + ps@.len() <= cs@.len(),
    ensures
        r == (cs@.subrange(at as int, at + ps@.len()) == ps@),
{
    let n = cs.len();
    let mut j: usize = 0;
    while j < ps.len()
        invariant
            at + ps@.len() <= cs@.len(),
            n == cs@.len(),
            j <= ps@.len(),
            forall|k: int| 0 <= k < j ==> cs@[at + k] == ps@[k],
        decreases ps@.len() - j,
    {
        if cs[at + j] != ps[j] {
            assert(cs@.subrange(at as int, at + ps@.len())[j as int] != ps@[j as int]);
            return false;
        }
        j = j + 1;
    }
    assert(cs@.subrange(at as int, at + ps@.len()) =~= ps@);
    true
}

/// `s` without the prefix `p` (`str::strip_prefix`).
pub fn strip_prefix_text(s: &str, p: &str) -> (r: Option<String>)
    ensures
        match r {
            Some(t) => spec_strip_prefix(s@, p@) == Some(t@),
            None => spec_strip_prefix(s@, p@) is None,
        },
{
    let cs = chars_of(s);
    let ps = chars_of(p);
    if ps.len() > cs.len() {
        return None;
    }
    if matches_at(&cs, &ps, 0) {
        Some(String::from_str(s.substring_char(ps.len(), cs.len())))
    } else {
        None
    }
}

/// `s` without the suffix `p` (`str::strip_suffix`).
pub fn strip_suffix_text(s: &str, p: &str) -> (r: Option<String>)
    ensures
        match r {
            Some(t) => spec_strip_suffix(s@, p@) == Some(t@),
            None => spec_strip_suffix(s@, p@) is None,
        },
{
    let cs = chars_of(s);
    let ps = chars_of(p);
    if ps.len() > cs.len() {
        return None;
    }
    if matches_at(&cs, &ps, cs.len() - ps.len()) {
        Some(String::from_str(s.substring_char(0, cs.len() - ps.len())))
    } else {
        None
    }
}

/// `c` in lower case when it is an ASCII capital letter.
pub open spec fn ascii_lower(c: char) -> char {
    if 'A' <= c && c <= 'Z' {
        ((c as u32) + 32) as char
    } else {
        c
    }
}

/// Whether `k` in lower case is `name` (a name of ASCII lower-case
/// letters, digits and `_`).
pub open spec fn key_is(k: Seq<char>, name: Seq<char>) -> bool {
    &&& k.len() == name.len()
    &&& forall|i: int| 0 <= i < k.len() ==> ascii_lower(#[trigger] k[i]) == name[i]
}

/// Whether `k` in lower case is `name`.
pub fn key_is_exec(k: &str, name: &str) -> (r: bool)
    ensures
        r == key_is(k@, name@),
{
    let ks = chars_of(k);
    let ns = chars_of(name);
    if ks.len() != ns.len() {
        return false;
    }
    let mut i: usize = 0;
    while i < ks.len()
        invariant
            ks@ == k@,
            ns@ == name@,
            ks@.len() == ns@.len(),
            i <= ks@.len(),
            forall|j: int| 0 <= j < i ==> ascii_lower(#[trigger] k@[j]) == name@[j],
        decreases ks@.len() - i,
    {
        let c = ks[i];
        let l = if 'A' <= c && c <= 'Z' {
            ((c as u32) + 32) as u8 as char
        } else {
            c
        };
        assert('A' <= c && c <= 'Z' ==> ((c as u32) + 32) as u8 as char == ((c as u32) + 32) as char);
        if l != ns[i] {
            return false;
        }
        i = i + 1;
    }
    true
}

proof fn lemma_first_occ_reaches(x: Seq<char>, sep: Seq<char>, i: int, at: int)
    requires
        sep.len() > 0,
        0 <= i <= at,
        occurs_at(x, sep, at),
        forall|k: int| i <= k < at ==> #[trigger] x[k] != sep[0],
    ensures
        first_occ_from(x, sep, i) == Some(at),
    decreases at - i,
{
    if i < at {
        assert(x.subrange(i, i + sep.len())[0] == x[i]);
        lemma_first_occ_reaches(x, sep, i + 1, at);
    }
}

proof fn lemma_first_occ_none(x: Seq<char>, sep: Seq<char>, i: int)
    requires
        sep.len() > 0,
        0 <= i,
        forall|k: int| i <= k < x.len() ==> #[trigger] x[k] != sep[0],
    ensures
        first_occ_from(x, sep, i) is None,
    decreases x.len() - i,
{
    if i < x.len() && i + sep.len() <= x.len() {
        assert(x.subrange(i, i + sep.len())[0] == x[i]);
        lemma_first_occ_none(x, sep, i + 1);
    }
}

proof fn lemma_first_occ_shift(s: Seq<char>, sep: Seq<char>, k: int, i: int)
    requires
        0 <= k <= s.len(),
        0 <= i,
    ensures
        first_occ_from(s, sep, k + i) == (match first_occ_from(s.subrange(k, s.len() as int), sep, i) {
            Some(j) => Some(j + k),
            None => None,
        }),
    decreases s.len() - k - i,
{
    let t = s.subrange(k, s.len() as int);
    if !(k + i + sep.len() > s.len() || k + i >= s.len()) {
        assert(t.subrange(i, i + sep.len()) =~= s.subrange(k + i, k + i + sep.len()));
        if !occurs_at(s, sep, k + i) {
            lemma_first_occ_shift(s, sep, k, i + 1);
        }
    }
}

proof fn lemma_split_from_shift(s: Seq<char>, sep: Seq<char>, k: int)
    requires
        sep.len() > 0,
        0 <= k <= s.len(),
    ensures
        split_from(s, sep, k) == spec_split(s.subrange(k, s.len() as int), sep),
    decreases s.len() - k,
{
    let t = s.subrange(k, s.len() as int);
    lemma_first_occ_shift(s, sep, k, 0);
    match first_occ_from(t, sep, 0) {
        Some(j) => {
            lemma_first_occ_from(t, sep, 0);
            lemma_first_occ_from(s, sep, k);
            assert(s.subrange(k, j + k) =~= t.subrange(0, j));
            lemma_split_from_shift(s, sep, j + k + sep.len());
            lemma_split_from_shift(t, sep, j + sep.len());
            assert(s.subrange(j + k + sep.len(), s.len() as int) =~= t.subrange(j + sep.len(), t.len() as int));
        },
        None => {
            assert(s.subrange(k, s.len() as int) =~= t.subrange(0, t.len() as int));
        },
    }
}

/// Text with no character of `sep`'s first one, followed by `sep`, splits
/// into that text and the pieces of what follows.
pub proof fn lemma_split_cons(a: Seq<char>, sep: Seq<char>, r: Seq<char>)
    requires
        sep.len() > 0,
        forall|k: int| 0 <= k < a.len() ==> #[trigger] a[k] != sep[0],
    ensures
        spec_split(a + sep + r, sep) == seq![a] + spec_split(r, sep),
{
    let x = a + sep + r;
    assert(x.subrange(a.len() as int, (a.len() + sep.len()) as int) =~= sep);
    assert forall|k: int| 0 <= k < a.len() implies #[trigger] x[k] != sep[0] by {
        assert(x[k] == a[k]);
    }
    lemma_first_occ_reaches(x, sep, 0, a.len() as int);
    assert(x.subrange(0, a.len() as int) =~= a);
    lemma_split_from_shift(x, sep, (a.len() + sep.len()) as int);
    assert(x.subrange((a.len() + sep.len()) as int, x.len() as int) =~= r);
}

/// Text with no character of `sep`'s first one is a single piece.
pub proof fn lemma_split_single(a: Seq<char>, sep: Seq<char>)
    requires
        sep.len() > 0,
        forall|k: int| 0 <= k < a.len() ==> #[trigger] a[k] != sep[0],
    ensures
        spec_split(a, sep) == seq![a],
{
    lemma_first_occ_none(a, sep, 0);
    assert(a.subrange(0, a.len() as int) =~= a);
}


proof fn lemma_first_occ_before(s: Seq<char>, sep: Seq<char>, i: int, j: int)
    requires
        first_occ_from(s, sep, i) == Some(j),
    ensures
        forall|p: int| i <= p < j ==> !occurs_at(s, sep, p),
    decreases s.len() - i,
{
    if !(i < 0 || i + sep.len() > s.len() || i >= s.len()) && !occurs_at(s, sep, i) {
        lemma_first_occ_before(s, sep, i + 1, j);
    }
}

proof fn lemma_first_occ_reaches_gen(x: Seq<char>, sep: Seq<char>, i: int, at: int)
    requires
        sep.len() > 0,
        0 <= i <= at,
        occurs_at(x, sep, at),
        forall|k: int| i <= k < at ==> !occurs_at(x, sep, k),
    ensures
        first_occ_from(x, sep, i) == Some(at),
    decreases at - i,
{
    if i < at {
        lemma_first_occ_reaches_gen(x, sep, i + 1, at);
    }
}

/// Text in which `sep` does not begin before the text's end (even running
/// into a following `sep`), followed by `sep`, splits into that text and
/// the pieces of what follows.
pub proof fn lemma_split_prefix(a: Seq<char>, sep: Seq<char>, r: Seq<char>)
    requires
        sep.len() > 0,
        forall|p: int| 0 <= p < a.len() ==> !occurs_at(a + sep, sep, p),
    ensures
        spec_split(a + sep + r, sep) == seq![a] + spec_split(r, sep),
{
    let x = a + sep + r;
    let y = a + sep;
    assert(x.subrange(a.len() as int, (a.len() + sep.len()) as int) =~= sep);
    assert forall|p: int| 0 <= p < a.len() implies !occurs_at(x, sep, p) by {
        assert(!occurs_at(y, sep, p));
        assert(x.subrange(p, p + sep.len()) =~= y.subrange(p, p + sep.len()));
    }
    lemma_first_occ_reaches_gen(x, sep, 0, a.len() as int);
    assert(x.subrange(0, a.len() as int) =~= a);
    lemma_split_from_shift(x, sep, (a.len() + sep.len()) as int);
    assert(x.subrange((a.len() + sep.len()) as int, x.len() as int) =~= r);
}

/// The first piece of a text that `sep` occurs in is followed by `sep`, and
/// `sep` does not begin within it.
pub proof fn lemma_split_first_piece(s: Seq<char>, sep: Seq<char>)
    requires
        sep.len() > 0,
        spec_split(s, sep).len() >= 2,
    ensures
        s == spec_split(s, sep)[0] + sep + s.subrange((spec_split(s, sep)[0].len() + sep.len()) as int, s.len() as int),
        forall|p: int| 0 <= p < spec_split(s, sep)[0].len() ==> !occurs_at(spec_split(s, sep)[0] + sep, sep, p),
{
    lemma_first_occ_from(s, sep, 0);
    match first_occ_from(s, sep, 0) {
        Some(j) => {
            lemma_first_occ_before(s, sep, 0, j);
            let a = s.subrange(0, j);
            assert(spec_split(s, sep)[0] == a);
            assert(s =~= a + sep + s.subrange(j + sep.len(), s.len() as int));
            assert forall|p: int| 0 <= p < a.len() implies !occurs_at(a + sep, sep, p) by {
                assert(!occurs_at(s, sep, p));
                assert((a + sep).subrange(p, p + sep.len()) =~= s.subrange(p, p + sep.len()));
            }
        },
        None => {
            assert(spec_split(s, sep).len() == 1);
        },
    }
}

} // verus!
