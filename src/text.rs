use vstd::prelude::*;
use vstd::std_specs::iter::IteratorSpec;

verus! {

/// Relies on `str`'s `==`: two strings are equal when their characters are.
#[verifier::external_body]
pub(crate) fn same_text(a: &str, b: &str) -> (r: bool)
    ensures
        r == (a@ == b@),
{
    a == b
}

/// Relies on `String::push_str`: the text is appended.
#[verifier::external_body]
pub(crate) fn push_text(out: &mut String, t: &str)
    ensures
        final(out)@ == old(out)@ + t@,
{
    out.push_str(t)
}

/// Relies on `String::push`: the character is appended.
#[verifier::external_body]
pub(crate) fn push_char(out: &mut String, c: char)
    ensures
        final(out)@ == old(out)@.push(c),
{
    out.push(c)
}

/// The characters of `s`, in order.
pub fn chars_of(s: &str) -> (r: Vec<char>)
    ensures
        r@ == s@,
{
    let mut it = s.chars();
    let mut out: Vec<char> = Vec::new();
    loop
        invariant
            it.remaining() == s@.subrange(out@.len() as int, s@.len() as int),
            out@ == s@.subrange(0, out@.len() as int),
            out@.len() <= s@.len(),
            it.obeys_prophetic_iter_laws(),
        decreases s@.len() - out@.len(),
    {
        let ghost before = it.remaining();
        match it.next() {
            Some(c) => {
                assert(before.drop_first() =~= s@.subrange(out@.len() as int + 1, s@.len() as int));
                out.push(c);
                assert(out@ =~= s@.subrange(0, out@.len() as int));
            },
            None => {
                assert(out@ =~= s@);
                return out;
            },
        }
    }
}

/// Whether `c` is an ASCII decimal digit.
pub open spec fn is_digit(c: char) -> bool {
    '0' <= c <= '9'
}

/// The number written by the decimal digits `d`.
pub open spec fn digits_value(d: Seq<char>) -> nat
    decreases d.len(),
{
    if d.len() == 0 {
        0
    } else {
        digits_value(d.drop_last()) * 10 + ((d.last() as u32) - ('0' as u32)) as nat
    }
}

/// The `u64` that `s` writes in decimal, with an optional leading `+`, if it
/// writes one that fits.
pub open spec fn u64_text(s: Seq<char>) -> Option<u64> {
    if s.len() > 0 && s[0] == '+' {
        u64_digits(s.subrange(1, s.len() as int))
    } else {
        u64_digits(s)
    }
}

/// The `u64` that the decimal digits `d` write, if they are digits and it fits.
pub open spec fn u64_digits(d: Seq<char>) -> Option<u64> {
    if d.len() > 0 && (forall|i: int| 0 <= i < d.len() ==> is_digit(#[trigger] d[i])) && digits_value(d)
        <= u64::MAX {
        Some(digits_value(d) as u64)
    } else {
        None
    }
}

proof fn lemma_prefix_value_le(d: Seq<char>, j: int)
    requires
        0 <= j <= d.len(),
        forall|i: int| 0 <= i < d.len() ==> is_digit(#[trigger] d[i]),
    ensures
        digits_value(d.subrange(0, j)) <= digits_value(d),
    decreases d.len() - j,
{
    if j < d.len() {
        let init = d.drop_last();
        assert(init.subrange(0, j) =~= d.subrange(0, j));
        lemma_prefix_value_le(init, j);
    } else {
        assert(d.subrange(0, j) =~= d);
    }
}

/// Reads the `u64` that `cs[start..]` writes in decimal.
pub fn parse_u64(cs: &Vec<char>, start: usize) -> (r: Option<u64>)
    requires
        start <= cs@.len(),
    ensures
        r == u64_text(cs@.subrange(start as int, cs@.len() as int)),
{
    let ghost s = cs@.subrange(start as int, cs@.len() as int);
    let mut i = start;
    if i < cs.len() && cs[i] == '+' {
        i = i + 1;
    }
    let ghost d = cs@.subrange(i as int, cs@.len() as int);
    proof {
        if s.len() > 0 && s[0] == '+' {
            assert(d =~= s.subrange(1, s.len() as int));
        } else {
            assert(d =~= s);
        }
    }
    assert(u64_text(s) == u64_digits(d));
    if i >= cs.len() {
        return None;
    }
    let first = i;
    let mut acc: u64 = 0;
    while i < cs.len()
        invariant
            first <= i <= cs@.len(),
            d == cs@.subrange(first as int, cs@.len() as int),
            u64_text(cs@.subrange(start as int, cs@.len() as int)) == u64_digits(d),
            forall|k: int| first <= k < i ==> is_digit(#[trigger] cs@[k]),
            acc as nat == digits_value(cs@.subrange(first as int, i as int)),
        decreases cs@.len() - i,
    {
        let c = cs[i];
        if !('0' <= c && c <= '9') {
            assert(d[i - first] == cs@[i as int]);
            assert(!is_digit(d[i - first]));
            return None;
        }
        let ghost pre = cs@.subrange(first as int, i as int);
        let ghost post = cs@.subrange(first as int, i + 1);
        assert(post.drop_last() =~= pre);
        let digit = (c as u32 - '0' as u32) as u64;
        let next = match acc.checked_mul(10) {
            Some(m) => m.checked_add(digit),
            None => None,
        };
        match next {
            Some(v) => {
                acc = v;
            },
            None => {
                proof {
                    if forall|k: int| 0 <= k < d.len() ==> is_digit(#[trigger] d[k]) {
                        assert(d.subrange(0, i + 1 - first) =~= post);
                        lemma_prefix_value_le(d, i + 1 - first);
                    }
                }
                return None;
            },
        }
        i = i + 1;
    }
    assert(cs@.subrange(first as int, i as int) =~= d);
    Some(acc)
}

} // verus!
