use vstd::prelude::*;

verus! {

/// Relies on str::chars: it yields exactly the characters of the string in
/// order, which is the view of the `str` itself.
#[verifier::external_body]
pub(crate) fn str_chars(s: &str) -> (r: Vec<char>)
    ensures
        r@ == s@,
{
    s.chars().collect()
}

/// Relies on String::push: it appends exactly one character at the end.
#[verifier::external_body]
pub(crate) fn push_char(s: &mut String, c: char)
    ensures
        final(s)@ == old(s)@.push(c),
{
    s.push(c);
}

/// Builds the string holding exactly the characters of `v`, in order.
pub fn string_from_chars(v: &Vec<char>) -> (r: String)
    ensures
        r@ == v@,
{
    string_from_range(v, 0, v.len())
}

/// Builds the string holding exactly the characters `v[from..to]`, in order.
pub fn string_from_range(v: &Vec<char>, from: usize, to: usize) -> (r: String)
    requires
        from <= to <= v@.len(),
    ensures
        r@ == v@.subrange(from as int, to as int),
{
    let mut s = String::new();
    let mut i: usize = from;
    while i < to
        invariant
            from <= i <= to <= v@.len(),
            s@ == v@.subrange(from as int, i as int),
        decreases to - i,
    {
        push_char(&mut s, v[i]);
        proof {
            assert(v@.subrange(from as int, i as int).push(v@[i as int]) =~= v@.subrange(
                from as int,
                i as int + 1,
            ));
        }
        i = i + 1;
    }
    s
}

/// Copies the characters `v[from..to]` into a fresh vector.
pub fn chars_range(v: &Vec<char>, from: usize, to: usize) -> (r: Vec<char>)
    requires
        from <= to <= v@.len(),
    ensures
        r@ == v@.subrange(from as int, to as int),
{
    let mut out: Vec<char> = Vec::new();
    let mut i: usize = from;
    while i < to
        invariant
            from <= i <= to <= v@.len(),
            out@ == v@.subrange(from as int, i as int),
        decreases to - i,
    {
        out.push(v[i]);
        proof {
            assert(v@.subrange(from as int, i as int).push(v@[i as int]) =~= v@.subrange(
                from as int,
                i as int + 1,
            ));
        }
        i = i + 1;
    }
    out
}

/// Copies a vector of strings element by element.
pub fn dup_strings(v: &Vec<String>) -> (r: Vec<String>)
    ensures
        r@ == v@,
{
    let mut out: Vec<String> = Vec::new();
    let mut i: usize = 0;
    while i < v.len()
        invariant
            i <= v@.len(),
            out@ == v@.subrange(0, i as int),
        decreases v@.len() - i,
    {
        out.push(v[i].clone());
        proof {
            assert(v@.subrange(0, i as int).push(v@[i as int]) =~= v@.subrange(
                0,
                i as int + 1,
            ));
        }
        i = i + 1;
    }
    proof {
        assert(out@ =~= v@);
    }
    out
}

/// How many bytes the UTF-8 encoding of `c` takes.
pub open spec fn char_utf8_len(c: char) -> int {
    if (c as u32) < 0x80 {
        1
    } else if (c as u32) < 0x800 {
        2
    } else if (c as u32) < 0x10000 {
        3
    } else {
        4
    }
}

/// Computes the UTF-8 byte width of one character.
pub fn utf8_len(c: char) -> (r: u64)
    ensures
        r as int == char_utf8_len(c),
{
    let u = c as u32;
    if u < 0x80 {
        1
    } else if u < 0x800 {
        2
    } else if u < 0x10000 {
        3
    } else {
        4
    }
}

} // verus!
