//! Text as a sequence of characters: the operations the rest of the library
//! builds its messages, prompts and keys with.

use vstd::prelude::*;
use vstd::string::*;

verus! {

broadcast use vstd::seq_lib::group_seq_properties;

/// The views of the elements of a sequence, in order.
pub open spec fn deep<T: View>(s: Seq<T>) -> Seq<T::V> {
    Seq::new(s.len(), |i: int| s[i]@)
}

/// The view of an optional value.
pub open spec fn opt<T: View>(o: Option<T>) -> Option<T::V> {
    match o {
        Some(t) => Some(t@),
        None => None,
    }
}

/// Pushing an element pushes its view.
pub broadcast proof fn lemma_deep_push<T: View>(s: Seq<T>, x: T)
    ensures
        #[trigger] deep(s.push(x)) == deep(s).push(x@),
{
    assert(deep(s.push(x)) =~= deep(s).push(x@));
}

/// A prefix that is one longer is the prefix and the next element.
pub broadcast proof fn lemma_take_next<T>(s: Seq<T>, i: int)
    requires
        0 <= i < s.len(),
    ensures
        #[trigger] s.take(i + 1) == s.take(i).push(s[i]),
{
    assert(s.take(i + 1) =~= s.take(i).push(s[i]));
}

/// A value that can be copied without changing what it stands for.
pub trait Dup: View + Sized {
    fn dup(&self) -> (r: Self)
        ensures
            r@ == self@,
    ;
}

impl Dup for String {
    fn dup(&self) -> (r: Self) {
        self.clone()
    }
}

/// A copy of a list.
pub fn dup_vec<T: Dup>(v: &Vec<T>) -> (r: Vec<T>)
    ensures
        deep(r@) == deep(v@),
{
    broadcast use lemma_deep_push;
    let mut out: Vec<T> = Vec::new();
    let mut i: usize = 0;
    assert(deep(out@) =~= deep(v@).take(0));
    while i < v.len()
        invariant
            i <= v@.len(),
            deep(out@) == deep(v@).take(i as int),
        decreases v@.len() - i,
    {
        let x = v[i].dup();
        assert(x@ == deep(v@)[i as int]);
        proof {
            lemma_take_next(deep(v@), i as int);
        }
        out.push(x);
        i += 1;
    }
    assert(deep(v@).take(i as int) =~= deep(v@));
    out
}

/// A copy of an optional value.
pub fn dup_opt<T: Dup>(o: &Option<T>) -> (r: Option<T>)
    ensures
        opt(r) == opt(*o),
{
    match o {
        Some(s) => Some(s.dup()),
        None => None,
    }
}

/// `str`'s `==`: two strings are equal when they hold the same characters.
pub assume_specification[ <str as PartialEq<str>>::eq ](a: &str, b: &str) -> (r: bool)
    ensures
        r == (a@ == b@),
;

/// `String::push`: appends one character.
pub assume_specification[ String::push ](s: &mut String, c: char)
    ensures
        final(s)@ == old(s)@.push(c),
;

/// Whether two strings hold the same characters.
pub fn same_text(a: &str, b: &str) -> (r: bool)
    ensures
        r == (a@ == b@),
{
    a.eq(b)
}

/// Whether `s` begins with `p`.
pub open spec fn has_prefix(s: Seq<char>, p: Seq<char>) -> bool {
    p.len() <= s.len() && s.take(p.len() as int) == p
}

/// Whether `s` ends with `p`.
pub open spec fn has_suffix(s: Seq<char>, p: Seq<char>) -> bool {
    p.len() <= s.len() && s.skip(s.len() - p.len()) == p
}

pub fn starts_with(s: &str, p: &str) -> (r: bool)
    ensures
        r == has_prefix(s@, p@),
{
    let n: usize = s.unicode_len();
    let k: usize = p.unicode_len();
    k <= n && same_text(s.substring_char(0, k), p)
}

/// What is left of `s` behind the prefix `p`; `None` where `s` does not begin with it.
pub fn strip_prefix<'a>(s: &'a str, p: &str) -> (r: Option<&'a str>)
    ensures
        match r {
            Some(t) => has_prefix(s@, p@) && t@ == s@.skip(p@.len() as int),
            None => !has_prefix(s@, p@),
        },
{
    if starts_with(s, p) {
        let r = s.substring_char(p.unicode_len(), s.unicode_len());
        assert(r@ == s@.skip(p@.len() as int));
        Some(r)
    } else {
        None
    }
}

/// What is left of `s` before the suffix `p`; `None` where `s` does not end with it.
pub fn strip_suffix<'a>(s: &'a str, p: &str) -> (r: Option<&'a str>)
    ensures
        match r {
            Some(t) => has_suffix(s@, p@) && t@ == s@.take(s@.len() - p@.len()),
            None => !has_suffix(s@, p@),
        },
{
    let n: usize = s.unicode_len();
    let k: usize = p.unicode_len();
    if k <= n {
        let tail = s.substring_char(n - k, n);
        assert(tail@ == s@.skip(n - k));
        if same_text(tail, p) {
            let r = s.substring_char(0, n - k);
            assert(r@ == s@.take(n - k));
            return Some(r);
        }
    }
    None
}

/// The characters of `s`, in order.
pub fn chars_of(s: &str) -> (r: Vec<char>)
    ensures
        r@ == s@,
{
    let mut out: Vec<char> = Vec::new();
    for c in it: s.chars()
        invariant
            it.seq() == s@,
            out@ == s@.take(it.index()),
    {
        out.push(c);
        assert(out@ == s@.take(it.index() + 1));
    }
    assert(s@.take(s@.len() as int) == s@);
    out
}

/// The string made of the characters `from..to` of `v`.
pub fn text_of(v: &Vec<char>, from: usize, to: usize) -> (r: String)
    requires
        from <= to <= v@.len(),
    ensures
        r@ == v@.subrange(from as int, to as int),
{
    let mut out = String::new();
    let mut i: usize = from;
    while i < to
        invariant
            from <= i <= to <= v@.len(),
            out@ == v@.subrange(from as int, i as int),
        decreases to - i,
    {
        out.push(v[i]);
        i += 1;
        assert(out@ == v@.subrange(from as int, i as int));
    }
    out
}

/// The first `n` characters of `s`, or all of it where it has no more.
pub open spec fn taken(s: Seq<char>, n: nat) -> Seq<char> {
    if s.len() <= n { s } else { s.take(n as int) }
}

pub fn take_chars(s: &str, n: usize) -> (r: String)
    ensures
        r@ == taken(s@, n as nat),
{
    if s.unicode_len() <= n {
        s.to_owned()
    } else {
        s.substring_char(0, n).to_owned()
    }
}

/// The position of the first `c` in `s`.
pub open spec fn first_at(s: Seq<char>, c: char, i: int) -> bool {
    &&& 0 <= i < s.len()
    &&& s[i] == c
    &&& forall|j: int| 0 <= j < i ==> s[j] != c
}

pub fn find_char(s: &str, c: char) -> (r: Option<usize>)
    ensures
        match r {
            Some(i) => first_at(s@, c, i as int),
            None => !s@.contains(c),
        },
{
    let v = chars_of(s);
    let mut i: usize = 0;
    while i < v.len()
        invariant
            v@ == s@,
            i <= v@.len(),
            forall|j: int| 0 <= j < i ==> s@[j] != c,
        decreases v@.len() - i,
    {
        if v[i] == c {
            return Some(i);
        }
        i += 1;
    }
    None
}

/// `s` without the slashes at its end.
pub open spec fn without_slashes(s: Seq<char>) -> Seq<char>
    decreases s.len(),
{
    if s.len() > 0 && s.last() == '/' {
        without_slashes(s.drop_last())
    } else {
        s
    }
}

pub fn trim_slashes(s: &str) -> (r: String)
    ensures
        r@ == without_slashes(s@),
{
    let v = chars_of(s);
    let mut n: usize = v.len();
    while n > 0 && v[n - 1] == '/'
        invariant
            v@ == s@,
            n <= v@.len(),
            without_slashes(s@) == without_slashes(s@.take(n as int)),
        decreases n,
    {
        assert(s@.take(n as int).drop_last() == s@.take(n - 1));
        n -= 1;
    }
    text_of(&v, 0, n)
}

/// `s` with every occurrence of `pat`, from the left and without overlap,
/// replaced by `with`.
pub open spec fn replaced(s: Seq<char>, pat: Seq<char>, with: Seq<char>) -> Seq<char>
    decreases s.len(),
{
    if pat.len() == 0 || s.len() < pat.len() {
        s
    } else if has_prefix(s, pat) {
        with + replaced(s.skip(pat.len() as int), pat, with)
    } else {
        seq![s[0]] + replaced(s.skip(1), pat, with)
    }
}

pub fn replace_all(s: &str, pat: &str, with: &str) -> (r: String)
    requires
        pat@.len() > 0,
    ensures
        r@ == replaced(s@, pat@, with@),
{
    let v = chars_of(s);
    let p = chars_of(pat);
    let mut out = String::new();
    let mut i: usize = 0;
    while p.len() <= v.len() - i
        invariant
            v@ == s@,
            p@ == pat@,
            p@.len() > 0,
            i <= v@.len(),
            replaced(s@, pat@, with@) == out@ + replaced(s@.skip(i as int), pat@, with@),
        decreases v@.len() - i,
    {
        let ghost rest = s@.skip(i as int);
        let mut k: usize = 0;
        while k < p.len() && v[i + k] == p[k]
            invariant
                v@ == s@,
                p@ == pat@,
                k <= p@.len(),
                i + p.len() <= v.len(),
                forall|j: int| 0 <= j < k ==> s@[i + j] == pat@[j],
            decreases p@.len() - k,
        {
            k += 1;
        }
        if k == p.len() {
            assert(rest.take(p@.len() as int) == pat@);
            out.append(with);
            i += p.len();
            assert(rest.skip(p@.len() as int) == s@.skip(i as int));
        } else {
            assert(rest[k as int] != pat@[k as int]);
            assert(!has_prefix(rest, pat@)) by {
                if has_prefix(rest, pat@) {
                    assert(rest.take(p@.len() as int)[k as int] == pat@[k as int]);
                }
            }
            out.push(v[i]);
            i += 1;
            assert(rest.skip(1) == s@.skip(i as int));
        }
        assert(replaced(s@, pat@, with@) =~= out@ + replaced(s@.skip(i as int), pat@, with@));
    }
    let tail = text_of(&v, i, v.len());
    assert(tail@ == s@.skip(i as int));
    out.append(tail.as_str());
    out
}

/// The character of a decimal digit.
pub open spec fn digit_char(d: nat) -> char {
    if d == 0 { '0' } else if d == 1 { '1' } else if d == 2 { '2' } else if d == 3 { '3' }
    else if d == 4 { '4' } else if d == 5 { '5' } else if d == 6 { '6' } else if d == 7 { '7' }
    else if d == 8 { '8' } else { '9' }
}

/// `n` in decimal.
pub open spec fn dec(n: nat) -> Seq<char>
    decreases n,
{
    if n < 10 {
        seq![digit_char(n)]
    } else {
        dec(n / 10).push(digit_char(n % 10))
    }
}

/// `n` in decimal, with a sign where it is negative.
pub open spec fn dec_int(n: int) -> Seq<char> {
    if n < 0 { "-"@ + dec((-n) as nat) } else { dec(n as nat) }
}

fn digit(d: u128) -> (c: char)
    requires
        d < 10,
    ensures
        c == digit_char(d as nat),
{
    match d {
        0 => '0',
        1 => '1',
        2 => '2',
        3 => '3',
        4 => '4',
        5 => '5',
        6 => '6',
        7 => '7',
        8 => '8',
        _ => '9',
    }
}

pub fn decimal(n: u128) -> (r: String)
    ensures
        r@ == dec(n as nat),
    decreases n,
{
    let mut out = if n < 10 {
        String::new()
    } else {
        decimal(n / 10)
    };
    out.push(digit(n % 10));
    assert(out@ =~= dec(n as nat));
    out
}

pub fn decimal_int(n: i128) -> (r: String)
    requires
        n > i128::MIN,
    ensures
        r@ == dec_int(n as int),
{
    if n < 0 {
        let d = decimal((-n) as u128);
        let mut out = "-".to_owned();
        out.append(d.as_str());
        out
    } else {
        decimal(n as u128)
    }
}

/// `parts` one behind the other, with `sep` between each two.
pub open spec fn joined(parts: Seq<Seq<char>>, sep: Seq<char>) -> Seq<char>
    decreases parts.len(),
{
    if parts.len() == 0 {
        Seq::empty()
    } else if parts.len() == 1 {
        parts[0]
    } else {
        joined(parts.drop_last(), sep) + sep + parts.last()
    }
}

pub fn join(parts: &Vec<String>, sep: &str) -> (r: String)
    ensures
        r@ == joined(deep(parts@), sep@),
{
    let mut out = String::new();
    let mut i: usize = 0;
    while i < parts.len()
        invariant
            i <= parts@.len(),
            out@ == joined(deep(parts@).take(i as int), sep@),
        decreases parts@.len() - i,
    {
        if i > 0 {
            out.append(sep);
        }
        out.append(parts[i].as_str());
        i += 1;
        assert(deep(parts@).take(i as int).drop_last() == deep(parts@).take(i - 1));
        assert(out@ =~= joined(deep(parts@).take(i as int), sep@));
    }
    assert(deep(parts@).take(i as int) == deep(parts@));
    out
}

/// Whether `list` holds a string equal to `s`.
pub fn contains_text(list: &Vec<String>, s: &str) -> (r: bool)
    ensures
        r == deep(list@).contains(s@),
{
    let mut i: usize = 0;
    while i < list.len()
        invariant
            i <= list@.len(),
            forall|j: int| 0 <= j < i ==> deep(list@)[j] != s@,
        decreases list@.len() - i,
    {
        if same_text(list[i].as_str(), s) {
            assert(deep(list@)[i as int] == s@);
            return true;
        }
        i += 1;
    }
    false
}

/// Every element of a filtered list comes from the list and passes.
pub proof fn lemma_filtered<T>(s: Seq<T>, p: spec_fn(T) -> bool)
    ensures
        forall|i: int| 0 <= i < s.filter(p).len() ==> p(#[trigger] s.filter(p)[i]) && s.contains(
            s.filter(p)[i],
        ),
    decreases s.len(),
{
    reveal(Seq::filter);
    if s.len() > 0 {
        let t = s.drop_last();
        lemma_filtered(t, p);
        assert forall|i: int| 0 <= i < s.filter(p).len() implies p(#[trigger] s.filter(p)[i])
            && s.contains(s.filter(p)[i]) by {
            if i < t.filter(p).len() {
                assert(t.contains(t.filter(p)[i]));
                let k = choose|k: int| 0 <= k < t.len() && t[k] == t.filter(p)[i];
                assert(s[k] == s.filter(p)[i]);
            } else {
                assert(s[s.len() - 1] == s.filter(p)[i]);
            }
        }
    }
}

/// `p` stands somewhere in `s`.
pub open spec fn holds_text(s: Seq<char>, p: Seq<char>) -> bool {
    exists|i: int|
        0 <= i && i + p.len() <= s.len() && #[trigger] s.subrange(i, i + p.len()) == p
}

pub proof fn lemma_holds_text(a: Seq<char>, b: Seq<char>, c: Seq<char>)
    ensures
        holds_text(a + b + c, b),
{
    assert((a + b + c).subrange(a.len() as int, (a.len() + b.len()) as int) =~= b);
}

/// What a text holds, a longer text holds too.
pub proof fn lemma_holds_more(a: Seq<char>, b: Seq<char>, c: Seq<char>, p: Seq<char>)
    requires
        holds_text(b, p),
    ensures
        holds_text(a + b + c, p),
{
    let i = choose|i: int|
        0 <= i && i + p.len() <= b.len() && #[trigger] b.subrange(i, i + p.len()) == p;
    assert((a + b + c).subrange(a.len() + i, a.len() + i + p.len()) =~= p);
}

/// Whether `i` is the first of the positions below `n` that `p` holds of.
pub open spec fn is_first(n: int, p: spec_fn(int) -> bool, i: int) -> bool {
    &&& 0 <= i < n
    &&& p(i)
    &&& forall|j: int| 0 <= j < i ==> !#[trigger] p(j)
}

/// The first of the positions below `n` that `p` holds of.
pub open spec fn first_where(n: int, p: spec_fn(int) -> bool) -> Option<int> {
    if exists|i: int| is_first(n, p, i) {
        Some(choose|i: int| is_first(n, p, i))
    } else {
        None
    }
}

pub proof fn lemma_first(n: int, p: spec_fn(int) -> bool, i: int)
    requires
        is_first(n, p, i),
    ensures
        first_where(n, p) == Some(i),
{
    let k = choose|k: int| is_first(n, p, k);
    assert(is_first(n, p, k));
    if k < i {
        assert(!p(k));
    } else if i < k {
        assert(!p(i));
    }
}

/// Where `p` holds somewhere, it holds somewhere first.
pub proof fn lemma_has_first(n: int, p: spec_fn(int) -> bool, j: int)
    requires
        0 <= j < n,
        p(j),
    ensures
        exists|i: int| is_first(n, p, i),
    decreases j,
{
    if exists|k: int| 0 <= k < j && #[trigger] p(k) {
        let k = choose|k: int| 0 <= k < j && #[trigger] p(k);
        lemma_has_first(n, p, k);
    } else {
        assert(is_first(n, p, j));
    }
}

pub proof fn lemma_no_first(n: int, p: spec_fn(int) -> bool)
    requires
        forall|j: int| 0 <= j < n ==> !#[trigger] p(j),
    ensures
        first_where(n, p) is None,
{
    if first_where(n, p) is Some {
        let k = choose|k: int| is_first(n, p, k);
        assert(p(k));
    }
}

/// How many bytes a character takes in UTF-8.
pub open spec fn utf8_width(c: char) -> nat {
    let n = c as u32;
    if n < 0x80 { 1 } else if n < 0x800 { 2 } else if n < 0x10000 { 3 } else { 4 }
}

/// The longest beginning of `s` that takes at most `max` bytes in UTF-8.
pub open spec fn within_bytes(s: Seq<char>, max: nat) -> Seq<char>
    decreases s.len(),
{
    if s.len() == 0 || utf8_width(s[0]) > max {
        Seq::empty()
    } else {
        seq![s[0]] + within_bytes(s.skip(1), (max - utf8_width(s[0])) as nat)
    }
}

pub fn take_bytes(s: &str, max: usize) -> (r: String)
    ensures
        r@ == within_bytes(s@, max as nat),
{
    let v = chars_of(s);
    let mut left: usize = max;
    let mut i: usize = 0;
    let mut out = String::new();
    assert(s@.skip(0) =~= s@);
    assert(out@ + within_bytes(s@, max as nat) =~= within_bytes(s@, max as nat));
    while i < v.len()
        invariant
            v@ == s@,
            i <= v@.len(),
            within_bytes(s@, max as nat) == out@ + within_bytes(s@.skip(i as int), left as nat),
        decreases v@.len() - i,
    {
        let c = v[i];
        let n: u32 = c as u32;
        let w: usize = if n < 0x80 {
            1
        } else if n < 0x800 {
            2
        } else if n < 0x10000 {
            3
        } else {
            4
        };
        if w > left {
            assert(out@ + Seq::<char>::empty() =~= out@);
            return out;
        }
        assert(s@.skip(i as int).skip(1) =~= s@.skip(i + 1));
        out.push(c);
        left -= w;
        i += 1;
        assert(within_bytes(s@, max as nat) =~= out@ + within_bytes(s@.skip(i as int), left as nat));
    }
    assert(out@ + Seq::<char>::empty() =~= out@);
    out
}

/// Whether a character has the Unicode property `White_Space`.
pub open spec fn white_space(c: char) -> bool {
    let n = c as int;
    ||| 0x9 <= n <= 0xd
    ||| n == 0x20
    ||| n == 0x85
    ||| n == 0xa0
    ||| n == 0x1680
    ||| 0x2000 <= n <= 0x200a
    ||| n == 0x2028
    ||| n == 0x2029
    ||| n == 0x202f
    ||| n == 0x205f
    ||| n == 0x3000
}

/// `char::is_whitespace`: whether a character has the Unicode property
/// `White_Space`.
pub assume_specification[ char::is_whitespace ](c: char) -> (r: bool)
    ensures
        r == white_space(c),
;

/// `s` without the white space at its beginning.
pub open spec fn without_leading(s: Seq<char>) -> Seq<char>
    decreases s.len(),
{
    if s.len() > 0 && white_space(s[0]) {
        without_leading(s.skip(1))
    } else {
        s
    }
}

/// `s` without the white space at its end.
pub open spec fn without_trailing(s: Seq<char>) -> Seq<char>
    decreases s.len(),
{
    if s.len() > 0 && white_space(s.last()) {
        without_trailing(s.drop_last())
    } else {
        s
    }
}

/// `s` without the white space around it.
pub open spec fn trimmed(s: Seq<char>) -> Seq<char> {
    without_trailing(without_leading(s))
}

pub fn trim(s: &str) -> (r: String)
    ensures
        r@ == trimmed(s@),
{
    let v = chars_of(s);
    let mut from: usize = 0;
    assert(s@.skip(0) =~= s@);
    while from < v.len() && v[from].is_whitespace()
        invariant
            v@ == s@,
            from <= v@.len(),
            without_leading(s@) == without_leading(s@.skip(from as int)),
        decreases v@.len() - from,
    {
        assert(s@.skip(from as int).skip(1) =~= s@.skip(from + 1));
        from += 1;
    }
    let ghost rest = s@.skip(from as int);
    assert(without_leading(s@) == rest);
    let mut to: usize = v.len();
    assert(s@.subrange(from as int, to as int) =~= rest);
    while to > from && v[to - 1].is_whitespace()
        invariant
            v@ == s@,
            from <= to <= v@.len(),
            without_trailing(rest) == without_trailing(s@.subrange(from as int, to as int)),
        decreases to,
    {
        assert(s@.subrange(from as int, to as int).drop_last() =~= s@.subrange(
            from as int,
            to - 1,
        ));
        to -= 1;
    }
    text_of(&v, from, to)
}

} // verus!
