//! Character-level string helpers shared by the CSS preprocessor and the
//! class-name rewriting engine.

use vstd::prelude::*;

verus! {

/// Relies on `String::push`: appends one character to the string.
#[verifier::external_body]
pub fn push_char(s: &mut String, c: char)
    ensures
        final(s)@ == old(s)@.push(c),
{
    s.push(c);
}

/// Appends `src` to `dst` one character at a time.
pub fn append_str(dst: &mut String, src: &str)
    ensures
        final(dst)@ == old(dst)@ + src@,
{
    dst.append(src);
}

/// Copies a string slice into characters.
pub fn str_to_chars(s: &str) -> (r: Vec<char>)
    ensures
        r@ == s@,
{
    let n = s.unicode_len();
    let mut r: Vec<char> = Vec::new();
    let mut i: usize = 0;
    while i < n
        invariant
            i <= n,
            n == s@.len(),
            r@ == s@.subrange(0, i as int),
        decreases n - i,
    {
        r.push(s.get_char(i));
        i = i + 1;
        proof {
            assert(r@ =~= s@.subrange(0, i as int));
        }
    }
    proof {
        assert(s@.subrange(0, s@.len() as int) =~= s@);
    }
    r
}

/// Builds a string from a range of a character vector.
pub fn chars_range_to_string(v: &Vec<char>, from: usize, to: usize) -> (r: String)
    requires
        from <= to <= v@.len(),
    ensures
        r@ == v@.subrange(from as int, to as int),
{
    let mut r = String::new();
    let mut i: usize = from;
    while i < to
        invariant
            from <= i <= to <= v@.len(),
            r@ == v@.subrange(from as int, i as int),
        decreases to - i,
    {
        push_char(&mut r, v[i]);
        i = i + 1;
        proof {
            assert(r@ =~= v@.subrange(from as int, i as int));
        }
    }
    r
}

/// Builds a string from a whole character vector.
pub fn chars_to_string(v: &Vec<char>) -> (r: String)
    ensures
        r@ == v@,
{
    let r = chars_range_to_string(v, 0, v.len());
    proof {
        assert(v@.subrange(0, v@.len() as int) =~= v@);
    }
    r
}

/// Character-by-character equality of string slices.
pub fn str_eq(a: &str, b: &str) -> (r: bool)
    ensures
        r == (a@ == b@),
{
    let la = a.unicode_len();
    let lb = b.unicode_len();
    if la != lb {
        return false;
    }
    let mut i: usize = 0;
    while i < la
        invariant
            i <= la,
            la == a@.len(),
            la == b@.len(),
            forall|j: int| 0 <= j < i ==> a@[j] == b@[j],
        decreases la - i,
    {
        if a.get_char(i) != b.get_char(i) {
            return false;
        }
        i = i + 1;
    }
    proof {
        assert(a@ =~= b@);
    }
    true
}

/// Does `s` start with `prefix`?
pub open spec fn spec_starts_with(s: Seq<char>, prefix: Seq<char>) -> bool {
    prefix.len() <= s.len() && s.subrange(0, prefix.len() as int) == prefix
}

pub fn str_starts_with(s: &str, prefix: &str) -> (r: bool)
    ensures
        r == spec_starts_with(s@, prefix@),
{
    let n = prefix.unicode_len();
    let ls = s.unicode_len();
    if n > ls {
        assert(!spec_starts_with(s@, prefix@));
        return false;
    }
    let mut i: usize = 0;
    while i < n
        invariant
            i <= n,
            n == prefix@.len(),
            n <= s@.len(),
            ls == s@.len(),
            forall|j: int| 0 <= j < i ==> s@[j] == prefix@[j],
        decreases n - i,
    {
        if s.get_char(i) != prefix.get_char(i) {
            assert(s@.subrange(0, prefix@.len() as int)[i as int] != prefix@[i as int]);
            return false;
        }
        i = i + 1;
    }
    proof {
        assert(s@.subrange(0, prefix@.len() as int) =~= prefix@);
    }
    true
}

/// Lower-cases an ASCII capital letter; any other character is unchanged.
pub open spec fn spec_lower_ascii(c: char) -> char {
    if 'A' <= c && c <= 'Z' {
        (((c as u8) + 32) as char)
    } else {
        c
    }
}

pub open spec fn spec_is_ascii_upper(c: char) -> bool {
    'A' <= c && c <= 'Z'
}

/// camelCase to kebab-case: a hyphen is inserted before each capital
/// letter except a leading one, and the capital is lower-cased.
pub open spec fn spec_kebab(s: Seq<char>, leading: bool) -> Seq<char>
    decreases s.len(),
{
    if s.len() == 0 {
        Seq::<char>::empty()
    } else {
        let c = s[0];
        let head: Seq<char> = if spec_is_ascii_upper(c) {
            if leading {
                seq![spec_lower_ascii(c)]
            } else {
                seq!['-', spec_lower_ascii(c)]
            }
        } else {
            seq![c]
        };
        head + spec_kebab(s.drop_first(), false)
    }
}

pub fn camel_case_to_kebab_case(input: &str) -> (r: String)
    ensures
        r@ == spec_kebab(input@, true),
{
    let chars = str_to_chars(input);
    let n = chars.len();
    let mut r = String::new();
    let mut i: usize = 0;
    proof {
        assert(input@.subrange(0, n as int) =~= input@);
        assert(r@ + spec_kebab(input@, true) =~= spec_kebab(input@, true));
    }
    while i < n
        invariant
            i <= n,
            n == chars@.len(),
            chars@ == input@,
            r@ + spec_kebab(input@.subrange(i as int, n as int), i == 0) == spec_kebab(
                input@,
                true,
            ),
        decreases n - i,
    {
        let c = chars[i];
        let ghost pre = r@;
        let ghost rest = input@.subrange(i as int, n as int);
        if 'A' <= c && c <= 'Z' {
            if i != 0 {
                push_char(&mut r, '-');
            }
            push_char(&mut r, ((c as u8) + 32) as char);
        } else {
            push_char(&mut r, c);
        }
        proof {
            assert(rest.drop_first() =~= input@.subrange(i as int + 1, n as int));
            if spec_is_ascii_upper(c) {
                if i == 0 {
                    assert(r@ =~= pre + seq![spec_lower_ascii(c)]);
                } else {
                    assert(r@ =~= pre + seq!['-', spec_lower_ascii(c)]);
                }
            } else {
                assert(r@ =~= pre + seq![c]);
            }
            assert(pre + (if spec_is_ascii_upper(c) {
                if i == 0 {
                    seq![spec_lower_ascii(c)]
                } else {
                    seq!['-', spec_lower_ascii(c)]
                }
            } else {
                seq![c]
            }) + spec_kebab(rest.drop_first(), false) =~= pre + ((if spec_is_ascii_upper(c) {
                if i == 0 {
                    seq![spec_lower_ascii(c)]
                } else {
                    seq!['-', spec_lower_ascii(c)]
                }
            } else {
                seq![c]
            }) + spec_kebab(rest.drop_first(), false)));
        }
        i = i + 1;
    }
    proof {
        assert(input@.subrange(n as int, n as int) =~= Seq::<char>::empty());
        assert(r@ + Seq::<char>::empty() =~= r@);
    }
    r
}

} // verus!
