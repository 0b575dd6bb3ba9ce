//! Characters of a source text, their UTF-8 byte positions, and building strings.

use vstd::prelude::*;
use vstd::std_specs::iter::IteratorSpec;
use vstd::utf8::*;

verus! {

broadcast use vstd::string::group_string_axioms;

/// Number of bytes that the UTF-8 encoding of `cs` takes.
pub open spec fn byte_len(cs: Seq<char>) -> nat {
    encode_utf8(cs).len()
}

/// Number of bytes that the UTF-8 encoding of `c` takes.
pub open spec fn char_width(c: char) -> nat {
    let v = c as u32;
    if v <= 0x7F {
        1
    } else if v <= 0x7FF {
        2
    } else if v <= 0xFFFF {
        3
    } else {
        4
    }
}

pub proof fn lemma_encode_scalar_len(c: char)
    ensures
        encode_scalar(c as u32).len() == char_width(c),
{
    char_is_scalar(c);
}

pub proof fn lemma_byte_len_append(a: Seq<char>, b: Seq<char>)
    ensures
        byte_len(a + b) == byte_len(a) + byte_len(b),
    decreases a.len(),
{
    if a.len() == 0 {
        assert(a + b =~= b);
    } else {
        assert((a + b).drop_first() =~= a.drop_first() + b);
        assert((a + b)[0] == a[0]);
        lemma_byte_len_append(a.drop_first(), b);
    }
}

pub proof fn lemma_byte_len_single(c: char)
    ensures
        byte_len(seq![c]) == char_width(c),
{
    let s = seq![c];
    assert(s.drop_first() =~= Seq::<char>::empty());
    assert(encode_utf8(Seq::<char>::empty()).len() == 0);
    assert(encode_utf8(s) == encode_scalar(c as u32) + encode_utf8(s.drop_first()));
    lemma_encode_scalar_len(c);
}

/// Taking one more character adds its width.
pub proof fn lemma_byte_len_take_step(s: Seq<char>, i: int)
    requires
        0 <= i < s.len(),
    ensures
        byte_len(s.take(i + 1)) == byte_len(s.take(i)) + char_width(s[i]),
{
    assert(s.take(i + 1) =~= s.take(i) + seq![s[i]]);
    lemma_byte_len_append(s.take(i), seq![s[i]]);
    lemma_byte_len_single(s[i]);
}

/// A prefix never takes more bytes than the whole.
pub proof fn lemma_byte_len_take_le(s: Seq<char>, i: int)
    requires
        0 <= i <= s.len(),
    ensures
        byte_len(s.take(i)) <= byte_len(s),
{
    assert(s =~= s.take(i) + s.skip(i));
    lemma_byte_len_append(s.take(i), s.skip(i));
}

/// The number of UTF-8 bytes of `c`.
pub fn utf8_width(c: char) -> (w: usize)
    ensures
        w == char_width(c),
        1 <= w <= 4,
{
    let v = c as u32;
    if v <= 0x7F {
        1
    } else if v <= 0x7FF {
        2
    } else if v <= 0xFFFF {
        3
    } else {
        4
    }
}

/// The characters of `source`, in order.
pub fn chars_of(source: &str) -> (v: Vec<char>)
    ensures
        v@ == source@,
        byte_len(source@) <= usize::MAX,
{
    let bytes = source.as_bytes();
    let _n = bytes.len();
    let mut it = source.chars();
    let mut v: Vec<char> = Vec::new();
    loop
        invariant
            v@ + it.remaining() == source@,
        ensures
            v@ == source@,
        decreases source@.len() - v@.len(),
    {
        match it.next() {
            Some(c) => {
                v.push(c);
            },
            None => {
                assert(v@ + it.remaining() =~= v@);
                break ;
            },
        }
    }
    v
}

/// Calls `String::push`: appends `c` to `s`.
#[verifier::external_body]
pub fn push_char(s: &mut String, c: char)
    ensures
        final(s)@ == old(s)@.push(c),
{
    s.push(c)
}

/// The text of `chars[start..end]`, with the byte offset at which it ends when
/// it starts at byte `start_offset`.
pub fn text_between(chars: &Vec<char>, start: usize, end: usize, start_offset: usize) -> (r: (
    String,
    usize,
))
    requires
        start <= end <= chars.len(),
        start_offset == byte_len(chars@.take(start as int)),
        byte_len(chars@) <= usize::MAX,
    ensures
        r.0@ == chars@.subrange(start as int, end as int),
        r.1 == byte_len(chars@.take(end as int)),
{
    let mut text = String::new();
    let mut j = start;
    let mut offset = start_offset;
    while j < end
        invariant
            start <= j <= end <= chars.len(),
            text@ == chars@.subrange(start as int, j as int),
            offset == byte_len(chars@.take(j as int)),
            byte_len(chars@) <= usize::MAX,
        decreases end - j,
    {
        let c = chars[j];
        proof {
            lemma_byte_len_take_step(chars@, j as int);
            lemma_byte_len_take_le(chars@, j + 1);
        }
        push_char(&mut text, c);
        offset = offset + utf8_width(c);
        j = j + 1;
        assert(text@ =~= chars@.subrange(start as int, j as int));
    }
    (text, offset)
}

} // verus!
