//! The identifier normalizer: turns arbitrary text into a fragment safe for
//! file names and URLs, made of lower-case ASCII letters, digits and
//! underscores only.

use crate::strutil::is_ws_char;
use crate::strutil::push_char;
use crate::strutil::ws_char;
use vstd::prelude::*;

verus! {

/// ASCII lower-case letters and digits, kept by the normalizer as they are.
pub open spec fn is_kept_char(c: char) -> bool {
    (97 <= c as u32 && c as u32 <= 122) || (48 <= c as u32 && c as u32 <= 57)
}

/// ASCII upper-case letters, lowered by the normalizer.
pub open spec fn is_upper_char(c: char) -> bool {
    65 <= c as u32 && c as u32 <= 90
}

/// Characters mapped to an underscore: whitespace, '_' and '-'.
pub open spec fn is_separator_char(c: char) -> bool {
    is_ws_char(c) || c == '_' || c == '-'
}

/// The lower-case form of an ASCII upper-case letter.
pub open spec fn lowered(c: char) -> char
    recommends
        is_upper_char(c),
{
    ((c as u32 + 32) as u8) as char
}

/// What one character of the input contributes to the normalized identifier.
pub open spec fn norm_char(c: char) -> Seq<char> {
    if is_upper_char(c) {
        seq![lowered(c)]
    } else if is_kept_char(c) {
        seq![c]
    } else if is_separator_char(c) {
        seq!['_']
    } else {
        Seq::<char>::empty()
    }
}

/// The normalized form of a text: each character lowered, mapped to an
/// underscore, or dropped.
pub open spec fn normalized(s: Seq<char>) -> Seq<char>
    decreases s.len(),
{
    if s.len() == 0 {
        Seq::<char>::empty()
    } else {
        norm_char(s.first()) + normalized(s.drop_first())
    }
}

proof fn lemma_normalized_single(c: char)
    ensures
        normalized(seq![c]) == norm_char(c),
{
    let s = seq![c];
    assert(s[0] == c);
    assert(s.drop_first() =~= Seq::<char>::empty());
    assert(normalized(s) == norm_char(c) + normalized(Seq::<char>::empty()));
    assert(norm_char(c) + Seq::<char>::empty() =~= norm_char(c));
}

proof fn lemma_normalized_push(s: Seq<char>, c: char)
    ensures
        normalized(s.push(c)) == normalized(s) + norm_char(c),
    decreases s.len(),
{
    if s.len() == 0 {
        assert(s.push(c) =~= seq![c]);
        lemma_normalized_single(c);
        assert(normalized(s) + norm_char(c) =~= norm_char(c));
    } else {
        lemma_normalized_push(s.drop_first(), c);
        assert(s.push(c)[0] == s[0]);
        assert(s.push(c).drop_first() =~= s.drop_first().push(c));
        assert(normalized(s.push(c)) == norm_char(s[0]) + (normalized(s.drop_first())
            + norm_char(c)));
        assert(norm_char(s[0]) + (normalized(s.drop_first()) + norm_char(c)) =~= (norm_char(s[0])
            + normalized(s.drop_first())) + norm_char(c));
    }
}

/// Turns text into a filesystem- and URL-safe identifier fragment: ASCII
/// alphanumerics are lowered, whitespace runs, '_' and '-' become '_', and
/// every other character is dropped.
pub fn normalize_id(content: &str) -> (r: String)
    ensures
        r@ == normalized(content@),
{
    let len = content.unicode_len();
    let mut r = String::new();
    let mut i: usize = 0;
    while i < len
        invariant
            i <= len,
            len == content@.len(),
            r@ == normalized(content@.take(i as int)),
        decreases len - i,
    {
        let c = content.get_char(i);
        let u = c as u32;
        if 65 <= u && u <= 90 {
            push_char(&mut r, ((u + 32) as u8) as char);
        } else if (97 <= u && u <= 122) || (48 <= u && u <= 57) {
            push_char(&mut r, c);
        } else if ws_char(c) || c == '_' || c == '-' {
            push_char(&mut r, '_');
        }
        proof {
            lemma_normalized_push(content@.take(i as int), c);
            assert(content@.take(i as int).push(c) =~= content@.take(i as int + 1));
        }
        i = i + 1;
    }
    proof {
        assert(content@.take(len as int) =~= content@);
    }
    r
}

/// Every character of a normalized text is a lower-case ASCII letter, a digit
/// or an underscore.
pub proof fn lemma_normalized_chars(s: Seq<char>)
    ensures
        forall|i: int|
            0 <= i < normalized(s).len() ==> is_kept_char(#[trigger] normalized(s)[i])
                || normalized(s)[i] == '_',
    decreases s.len(),
{
    if s.len() > 0 {
        lemma_normalized_chars(s.drop_first());
        let nc = norm_char(s.first());
        let rest = normalized(s.drop_first());
        assert(normalized(s) == nc + rest);
        assert forall|i: int| 0 <= i < normalized(s).len() implies is_kept_char(
            #[trigger] normalized(s)[i],
        ) || normalized(s)[i] == '_' by {
            if i < nc.len() {
                assert(normalized(s)[i] == nc[i]);
                if is_upper_char(s.first()) {
                    assert(nc == seq![lowered(s.first())]);
                    assert(nc[0] == lowered(s.first()));
                    assert(is_kept_char(lowered(s.first())));
                } else if is_kept_char(s.first()) {
                    assert(nc[0] == s.first());
                } else {
                    assert(nc[0] == '_');
                }
            } else {
                assert(normalized(s)[i] == rest[i - nc.len()]);
            }
        }
    }
}

proof fn lemma_norm_char_fixed(c: char)
    requires
        is_kept_char(c) || c == '_',
    ensures
        norm_char(c) == seq![c],
{
}

proof fn lemma_normalized_concat(a: Seq<char>, b: Seq<char>)
    ensures
        normalized(a + b) == normalized(a) + normalized(b),
    decreases a.len(),
{
    if a.len() == 0 {
        assert(a + b =~= b);
        assert(normalized(a) + normalized(b) =~= normalized(b));
    } else {
        lemma_normalized_concat(a.drop_first(), b);
        assert((a + b).drop_first() =~= a.drop_first() + b);
        assert(normalized(a + b) =~= normalized(a) + normalized(b));
    }
}

/// The normalizer is idempotent: normalizing an already normalized text
/// changes nothing.
pub proof fn lemma_normalized_idempotent(s: Seq<char>)
    ensures
        normalized(normalized(s)) == normalized(s),
    decreases s.len(),
{
    if s.len() == 0 {
    } else {
        let c = s.first();
        lemma_normalized_idempotent(s.drop_first());
        lemma_normalized_concat(norm_char(c), normalized(s.drop_first()));
        if is_upper_char(c) {
            assert(is_kept_char(lowered(c)));
            lemma_norm_char_fixed(lowered(c));
            lemma_normalized_single(lowered(c));
        } else if is_kept_char(c) {
            lemma_norm_char_fixed(c);
            lemma_normalized_single(c);
        } else if is_separator_char(c) {
            lemma_norm_char_fixed('_');
            lemma_normalized_single('_');
        }
        assert(normalized(normalized(s)) =~= normalized(s));
    }
}

} // verus!
