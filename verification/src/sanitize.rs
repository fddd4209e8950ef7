//! Sanitization of externally supplied text.
//!
//! Text that enters the data model from an untrusted source (deserialized
//! history, tool output) is stripped of the invisible Unicode "tag"
//! code points (U+E0000 through U+E007F), which could otherwise smuggle
//! hidden instructions into model input. No other code point is altered.

use vstd::prelude::*;
use vstd::string::StrSliceExecFns;

use crate::strutil::chars_to_string;

verus! {

/// A code point in the Unicode tag block, which renders as nothing.
pub open spec fn is_tag_char(c: char) -> bool {
    0xE0000 <= c as u32 <= 0xE007F
}

/// The sanitized form of a text: the same characters in the same order,
/// with every tag character removed.
pub open spec fn sanitize_text(s: Seq<char>) -> Seq<char>
    decreases s.len(),
{
    if s.len() == 0 {
        Seq::empty()
    } else if is_tag_char(s.last()) {
        sanitize_text(s.drop_last())
    } else {
        sanitize_text(s.drop_last()).push(s.last())
    }
}

/// A text is clean when it contains no tag character.
pub open spec fn is_clean_text(s: Seq<char>) -> bool {
    forall|i: int| 0 <= i < s.len() ==> !is_tag_char(s[i])
}

/// Appending one character commutes with sanitization in the obvious way.
proof fn lemma_sanitize_push(s: Seq<char>, c: char)
    ensures
        sanitize_text(s.push(c)) == if is_tag_char(c) {
            sanitize_text(s)
        } else {
            sanitize_text(s).push(c)
        },
{
    assert(s.push(c).drop_last() =~= s);
    assert(s.push(c).last() == c);
}

/// The sanitized form of any text is clean.
pub proof fn lemma_sanitize_clean(s: Seq<char>)
    ensures
        is_clean_text(sanitize_text(s)),
    decreases s.len(),
{
    if s.len() == 0 {
    } else {
        lemma_sanitize_clean(s.drop_last());
    }
}

/// Sanitizing a clean text (including any text with no tag characters at
/// all, whatever scripts or symbols it uses) is the identity transform.
pub proof fn lemma_sanitize_clean_identity(s: Seq<char>)
    requires
        is_clean_text(s),
    ensures
        sanitize_text(s) == s,
    decreases s.len(),
{
    if s.len() == 0 {
        assert(sanitize_text(s) =~= s);
    } else {
        assert(!is_tag_char(s.last()));
        assert(is_clean_text(s.drop_last()));
        lemma_sanitize_clean_identity(s.drop_last());
        assert(sanitize_text(s) =~= s);
    }
}

/// Sanitizing twice equals sanitizing once: sanitization is idempotent.
pub proof fn lemma_sanitize_idempotent(s: Seq<char>)
    ensures
        sanitize_text(sanitize_text(s)) == sanitize_text(s),
{
    lemma_sanitize_clean(s);
    lemma_sanitize_clean_identity(sanitize_text(s));
}

/// Strip every Unicode tag code point from `s`, keeping all other
/// characters in order.
pub fn sanitize_unicode_tags(s: &str) -> (r: String)
    ensures
        r@ == sanitize_text(s@),
{
    let n = s.unicode_len();
    let mut kept: Vec<char> = Vec::new();
    let mut i: usize = 0;
    while i < n
        invariant
            i <= n,
            n == s@.len(),
            kept@ == sanitize_text(s@.subrange(0, i as int)),
        decreases n - i,
    {
        let c = s.get_char(i);
        let code = c as u32;
        proof {
            assert(s@.subrange(0, i as int + 1).drop_last() =~= s@.subrange(0, i as int));
            assert(s@.subrange(0, i as int + 1).last() == s@[i as int]);
        }
        if !(0xE0000 <= code && code <= 0xE007F) {
            kept.push(c);
        }
        i = i + 1;
    }
    proof {
        assert(s@.subrange(0, n as int) =~= s@);
    }
    chars_to_string(&kept)
}

} // verus!
