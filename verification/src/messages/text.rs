//! Text as the envelope protocol needs it: UTF-8 validation and the trimming
//! of white space.

use vstd::prelude::*;
use vstd::string::StrSliceExecFns;
use vstd::utf8::{decode_utf8, valid_utf8};

verus! {

/// The code points with the Unicode property `White_Space`.
pub open spec fn is_white_space(c: char) -> bool {
    let n = c as u32;
    ||| 0x09 <= n <= 0x0D
    ||| n == 0x20
    ||| n == 0x85
    ||| n == 0xA0
    ||| n == 0x1680
    ||| 0x2000 <= n <= 0x200A
    ||| n == 0x2028
    ||| n == 0x2029
    ||| n == 0x202F
    ||| n == 0x205F
    ||| n == 0x3000
}

/// The number of white-space characters at the start of `s`.
pub open spec fn leading_white_space(s: Seq<char>) -> nat
    decreases s.len(),
{
    if s.len() > 0 && is_white_space(s[0]) {
        1 + leading_white_space(s.drop_first())
    } else {
        0
    }
}

/// The number of white-space characters at the end of `s`.
pub open spec fn trailing_white_space(s: Seq<char>) -> nat
    decreases s.len(),
{
    if s.len() > 0 && is_white_space(s.last()) {
        1 + trailing_white_space(s.drop_last())
    } else {
        0
    }
}

/// `s` without the white space at its start and at its end.
pub open spec fn trimmed(s: Seq<char>) -> Seq<char> {
    let rest = s.skip(leading_white_space(s) as int);
    rest.take(rest.len() - trailing_white_space(rest))
}

/// The white space at either end of a text is no longer than the text.
pub proof fn lemma_white_space_bounds(s: Seq<char>)
    ensures
        leading_white_space(s) <= s.len(),
        trailing_white_space(s) <= s.len(),
    decreases s.len(),
{
    if s.len() > 0 {
        lemma_white_space_bounds(s.drop_first());
        lemma_white_space_bounds(s.drop_last());
    }
}

/// The white space at the end of a text grows with one more white-space
/// character and is gone with any other.
pub proof fn lemma_trailing_push(s: Seq<char>, c: char)
    ensures
        trailing_white_space(s.push(c)) == if is_white_space(c) {
            trailing_white_space(s) + 1
        } else {
            0
        },
{
    assert(s.push(c).drop_last() =~= s);
}

/// The white space at the start of a text grows with one more white-space
/// character only where the text is white space throughout.
pub proof fn lemma_leading_push(s: Seq<char>, c: char)
    ensures
        leading_white_space(s.push(c)) == if is_white_space(c) && leading_white_space(s)
            == s.len() {
            s.len() + 1
        } else {
            leading_white_space(s)
        },
    decreases s.len(),
{
    lemma_white_space_bounds(s);
    if s.len() > 0 {
        assert(s.push(c).drop_first() =~= s.drop_first().push(c));
        lemma_leading_push(s.drop_first(), c);
        lemma_white_space_bounds(s.drop_first());
    } else {
        assert(s.push(c).drop_first() =~= s);
    }
}

/// Without its first `k` characters a text ends in the same white space,
/// as far as it is left.
pub proof fn lemma_trailing_skip(s: Seq<char>, k: int)
    requires
        0 <= k <= s.len(),
    ensures
        trailing_white_space(s.skip(k)) == if trailing_white_space(s) <= s.len() - k {
            trailing_white_space(s)
        } else {
            (s.len() - k) as nat
        },
    decreases s.len(),
{
    lemma_white_space_bounds(s);
    if k < s.len() {
        assert(s.skip(k).drop_last() =~= s.drop_last().skip(k));
        assert(s.skip(k).last() == s.last());
        lemma_trailing_skip(s.drop_last(), k);
    }
}

/// What is left of a text: from the end of the white space at its start
/// to the start of the white space at its end.
pub proof fn lemma_trimmed_range(s: Seq<char>)
    ensures
        leading_white_space(s) <= s.len(),
        trailing_white_space(s) <= s.len(),
        trimmed(s) == if leading_white_space(s) <= s.len() - trailing_white_space(s) {
            s.subrange(leading_white_space(s) as int, s.len() - trailing_white_space(s))
        } else {
            Seq::empty()
        },
{
    lemma_white_space_bounds(s);
    let lead = leading_white_space(s) as int;
    lemma_trailing_skip(s, lead);
    let rest = s.skip(lead);
    if lead <= s.len() - trailing_white_space(s) {
        assert(rest.take(rest.len() - trailing_white_space(rest)) =~= s.subrange(
            lead,
            s.len() - trailing_white_space(s),
        ));
    } else {
        assert(rest.take(rest.len() - trailing_white_space(rest)) =~= Seq::<char>::empty());
    }
}

/// Whether `c` is white space.
pub fn is_white_space_char(c: char) -> (r: bool)
    ensures
        r == is_white_space(c),
{
    let n: u32 = c as u32;
    (0x09 <= n && n <= 0x0D) || n == 0x20 || n == 0x85 || n == 0xA0 || n == 0x1680 || (0x2000
        <= n && n <= 0x200A) || n == 0x2028 || n == 0x2029 || n == 0x202F || n == 0x205F || n
        == 0x3000
}

/// `s` without the white space at its start and at its end.
pub fn trim(s: &str) -> (r: String)
    ensures
        r@ == trimmed(s@),
{
    let len: usize = s.unicode_len();
    // where the white space at the start ends, and where the white space
    // at the end starts, in the characters read so far
    let mut start: usize = 0;
    let mut end: usize = 0;
    let mut i: usize = 0;
    assert(s@.take(0) =~= Seq::<char>::empty());
    for c in it: s.chars()
        invariant
            it.seq() == s@,
            len == s@.len(),
            i == it.index(),
            i <= len,
            start == leading_white_space(s@.take(i as int)),
            end == i - trailing_white_space(s@.take(i as int)),
    {
        proof {
            assert(s@.take(i + 1) =~= s@.take(i as int).push(c));
            lemma_leading_push(s@.take(i as int), c);
            lemma_trailing_push(s@.take(i as int), c);
            lemma_white_space_bounds(s@.take(i as int));
        }
        if is_white_space_char(c) {
            if start == i {
                start = i + 1;
            }
        } else {
            end = i + 1;
        }
        i = i + 1;
    }
    proof {
        assert(s@.take(i as int) =~= s@);
        lemma_trimmed_range(s@);
    }
    if start <= end {
        s.substring_char(start, end).to_owned()
    } else {
        assert(Seq::<char>::empty() =~= s@.subrange(0, 0));
        s.substring_char(0, 0).to_owned()
    }
}

/// `String::from_utf8` of the standard library: the text that `bytes` encode
/// in UTF-8, or `None` where they are no well-formed UTF-8.
#[verifier::external_body]
pub(crate) fn string_from_utf8(bytes: Vec<u8>) -> (r: Option<String>)
    ensures
        match r {
            Some(s) => valid_utf8(bytes@) && s@ == decode_utf8(bytes@),
            None => !valid_utf8(bytes@),
        },
{
    String::from_utf8(bytes).ok()
}

/// Whether two texts are the same.
pub fn same_text(a: &str, b: &str) -> (r: bool)
    ensures
        r == (a@ == b@),
{
    let left = a.to_owned();
    let right = b.to_owned();
    left == right
}

} // verus!
