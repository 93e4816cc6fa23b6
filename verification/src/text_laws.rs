//! What the operations on texts come to, in the plainest terms.

use vstd::prelude::*;
use crate::auto::executor::truncated;
use crate::json::JsonV;
use crate::text::{
    dec, dec_int, has_prefix, has_suffix, joined, taken, trimmed, utf8_width, white_space,
    within_bytes, without_leading, without_slashes, without_trailing,
};

verus! {

/// A text begins, or ends, with another where something makes it out of that other.
pub proof fn law_beginning_and_end(s: Seq<char>, p: Seq<char>)
    ensures
        has_prefix(s, p) <==> exists|rest: Seq<char>| s == #[trigger] (p + rest),
        has_suffix(s, p) <==> exists|rest: Seq<char>| s == #[trigger] (rest + p),
{
    if has_prefix(s, p) {
        assert(s =~= p + s.skip(p.len() as int));
    }
    if exists|rest: Seq<char>| s == #[trigger] (p + rest) {
        let rest = choose|rest: Seq<char>| s == #[trigger] (p + rest);
        assert(s.take(p.len() as int) =~= p);
    }
    if has_suffix(s, p) {
        assert(s =~= s.take(s.len() - p.len()) + p);
    }
    if exists|rest: Seq<char>| s == #[trigger] (rest + p) {
        let rest = choose|rest: Seq<char>| s == #[trigger] (rest + p);
        assert(s.skip(s.len() - p.len()) =~= p);
    }
}

/// The beginning of a text: as much as is asked for, or all of it. A text that was cut
/// off is marked, and one that was not is not.
pub proof fn law_cut(s: Seq<char>, n: nat)
    ensures
        s.len() <= n ==> taken(s, n) == s && truncated(s, n) == s,
        s.len() > n ==> taken(s, n) == s.take(n as int) && truncated(s, n) == s.take(n as int)
            + "…"@,
{
}

/// A text without the slashes at its end: nothing but slashes is gone, and none is left
/// there.
pub proof fn law_slashes_gone(s: Seq<char>)
    ensures
        without_slashes(s).len() <= s.len(),
        without_slashes(s) == s.take(without_slashes(s).len() as int),
        forall|i: int| without_slashes(s).len() <= i < s.len() ==> s[i] == '/',
        without_slashes(s).len() > 0 ==> without_slashes(s).last() != '/',
    decreases s.len(),
{
    if s.len() > 0 && s.last() == '/' {
        let t = s.drop_last();
        law_slashes_gone(t);
        assert(t.take(without_slashes(t).len() as int) =~= s.take(without_slashes(t).len() as int));
        assert forall|i: int| without_slashes(s).len() <= i < s.len() implies s[i] == '/' by {
            if i < t.len() {
                assert(t[i] == '/');
            }
        }
    } else {
        assert(s.take(s.len() as int) =~= s);
    }
}

/// A text without the white space round it: what is gone on either side is white space,
/// and none is left at either end.
pub proof fn law_trimmed(s: Seq<char>)
    ensures
        exists|a: Seq<char>, b: Seq<char>|
            {
                &&& s == #[trigger] (a + trimmed(s) + b)
                &&& forall|i: int| 0 <= i < a.len() ==> white_space(#[trigger] a[i])
                &&& forall|i: int| 0 <= i < b.len() ==> white_space(#[trigger] b[i])
            },
        trimmed(s).len() > 0 ==> !white_space(trimmed(s)[0]) && !white_space(trimmed(s).last()),
{
    let t = without_leading(s);
    let u = without_trailing(t);
    lemma_leading(s);
    lemma_trailing(t);
    let a = s.take(s.len() - t.len());
    let b = t.skip(u.len() as int);
    assert(s =~= a + u + b);
    assert(u == trimmed(s));
    assert forall|i: int| 0 <= i < a.len() implies white_space(#[trigger] a[i]) by {
        assert(a[i] == s[i]);
    }
    assert forall|i: int| 0 <= i < b.len() implies white_space(#[trigger] b[i]) by {
        assert(b[i] == t[u.len() + i]);
    }
    assert(s == a + trimmed(s) + b);
    if u.len() > 0 {
        assert(u[0] == t[0]);
    }
}

proof fn lemma_leading(s: Seq<char>)
    ensures
        without_leading(s).len() <= s.len(),
        without_leading(s) == s.skip(s.len() - without_leading(s).len()),
        forall|i: int| 0 <= i < s.len() - without_leading(s).len() ==> white_space(#[trigger] s[i]),
        without_leading(s).len() > 0 ==> !white_space(without_leading(s)[0]),
    decreases s.len(),
{
    if s.len() > 0 && white_space(s[0]) {
        let t = s.skip(1);
        lemma_leading(t);
        assert(t.skip(t.len() - without_leading(t).len()) =~= s.skip(
            s.len() - without_leading(t).len(),
        ));
        assert forall|i: int| 0 <= i < s.len() - without_leading(s).len() implies white_space(
            #[trigger] s[i],
        ) by {
            if i > 0 {
                assert(t[i - 1] == s[i]);
            }
        }
    } else {
        assert(s.skip(0) =~= s);
    }
}

proof fn lemma_trailing(s: Seq<char>)
    ensures
        without_trailing(s).len() <= s.len(),
        without_trailing(s) == s.take(without_trailing(s).len() as int),
        forall|i: int| without_trailing(s).len() <= i < s.len() ==> white_space(#[trigger] s[i]),
        without_trailing(s).len() > 0 ==> !white_space(without_trailing(s).last()),
    decreases s.len(),
{
    if s.len() > 0 && white_space(s.last()) {
        let t = s.drop_last();
        lemma_trailing(t);
        assert(t.take(without_trailing(t).len() as int) =~= s.take(
            without_trailing(t).len() as int,
        ));
        assert forall|i: int| without_trailing(s).len() <= i < s.len() implies white_space(
            #[trigger] s[i],
        ) by {
            if i < t.len() {
                assert(t[i] == s[i]);
            }
        }
    } else {
        assert(s.take(s.len() as int) =~= s);
    }
}

/// How many bytes a text takes.
pub open spec fn bytes_in(s: Seq<char>) -> nat
    decreases s.len(),
{
    if s.len() == 0 {
        0
    } else {
        utf8_width(s[0]) + bytes_in(s.skip(1))
    }
}

/// As much of the beginning of a text as fits into a number of bytes: it fits, and with
/// the next character it would not.
pub proof fn law_fits(s: Seq<char>, max: nat)
    ensures
        within_bytes(s, max).len() <= s.len(),
        within_bytes(s, max) == s.take(within_bytes(s, max).len() as int),
        bytes_in(within_bytes(s, max)) <= max,
        within_bytes(s, max).len() < s.len() ==> bytes_in(
            s.take(within_bytes(s, max).len() as int + 1),
        ) > max,
    decreases s.len(),
{
    let r = within_bytes(s, max);
    if s.len() == 0 {
        assert(r =~= s.take(0));
    } else if utf8_width(s[0]) > max {
        assert(r =~= s.take(0));
        assert(s.take(1)[0] == s[0]);
        assert(s.take(1).skip(1) =~= Seq::<char>::empty());
    } else {
        let t = s.skip(1);
        let left = (max - utf8_width(s[0])) as nat;
        law_fits(t, left);
        let q = within_bytes(t, left);
        assert(r =~= seq![s[0]] + q);
        assert(r.skip(1) =~= q);
        assert(r =~= s.take(r.len() as int));
        if r.len() < s.len() {
            let more = s.take(r.len() as int + 1);
            assert(more.skip(1) =~= t.take(q.len() as int + 1));
            assert(more[0] == s[0]);
        }
    }
}

/// The number that decimal digits stand for.
pub open spec fn value_of(s: Seq<char>) -> int
    decreases s.len(),
{
    if s.len() == 0 {
        0
    } else {
        value_of(s.drop_last()) * 10 + (s.last() as int - '0' as int)
    }
}

/// A number is written in decimal: digits alone, which stand for that number, and no
/// zero in front but for zero itself; a negative one with a minus in front.
pub proof fn law_decimal(n: nat)
    ensures
        dec(n).len() > 0,
        forall|i: int| 0 <= i < dec(n).len() ==> '0' <= #[trigger] dec(n)[i] <= '9',
        value_of(dec(n)) == n,
        n > 0 ==> dec(n)[0] != '0',
        dec_int(n as int) == dec(n),
        n > 0 ==> dec_int(-(n as int)) == "-"@ + dec(n),
    decreases n,
{
    if n >= 10 {
        law_decimal(n / 10);
        let s = dec(n / 10);
        assert(dec(n).drop_last() =~= s);
        assert(dec(n)[0] == s[0]);
        assert(dec(n).last() as int - '0' as int == n % 10);
        assert(value_of(dec(n)) == value_of(s) * 10 + n % 10);
        assert(n == (n / 10) * 10 + n % 10);
    } else {
        assert(dec(n).drop_last() =~= Seq::<char>::empty());
        assert(value_of(dec(n).drop_last()) == 0);
        assert(dec(n).last() as int - '0' as int == n);
    }
}

/// Parts are put together in order, with the separator between each two.
pub proof fn law_joined(parts: Seq<Seq<char>>, sep: Seq<char>, part: Seq<char>)
    ensures
        joined(Seq::empty(), sep).len() == 0,
        joined(parts.push(part), sep) == if parts.len() == 0 {
            part
        } else {
            joined(parts, sep) + sep + part
        },
{
    assert(parts.push(part).drop_last() =~= parts);
}

/// What is found in a JSON value: members in objects, elements in lists, texts and
/// numbers that are what they are taken for, and nothing elsewhere.
pub proof fn law_json_parts(j: JsonV, key: Seq<char>, i: int)
    ensures
        match j {
            JsonV::Object(m) => (m.dom().contains(key) ==> j.get(key) == Some(m[key])) && (
            !m.dom().contains(key) ==> j.get(key) is None),
            _ => j.get(key) is None,
        },
        match j {
            JsonV::Array(a) => j.as_array() == Some(a) && (0 <= i < a.len() ==> j.at(i) == Some(
                a[i],
            )) && (!(0 <= i < a.len()) ==> j.at(i) is None),
            _ => j.as_array() is None && j.at(i) is None,
        },
        match j {
            JsonV::Str(s) => j.as_str() == Some(s),
            _ => j.as_str() is None,
        },
        match j {
            JsonV::Int(n) => if 0 <= n <= u64::MAX {
                j.as_u64() == Some(n)
            } else {
                j.as_u64() is None
            },
            _ => j.as_u64() is None,
        },
{
}

} // verus!
