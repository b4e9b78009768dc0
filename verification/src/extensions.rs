//! String clean-up helpers for action names received over the wire.

use vstd::prelude::*;

verus! {

/// `String::push` appends one character.
pub assume_specification[ String::push ](s: &mut String, ch: char)
    ensures
        final(s)@ == old(s)@.push(ch),
;

/// The characters of `s` that are neither `'\n'` nor `'\r'`, in order.
pub open spec fn without_newlines(s: Seq<char>) -> Seq<char> {
    s.filter(|c: char| c != '\n' && c != '\r')
}

/// The characters of `s` other than the byte-order mark U+FEFF, in order.
pub open spec fn without_bom(s: Seq<char>) -> Seq<char> {
    s.filter(|c: char| c != '\u{feff}')
}

/// The longest prefix of `s` that holds no NUL character.
pub open spec fn before_nul(s: Seq<char>) -> Seq<char>
    decreases s.len(),
{
    if s.len() == 0 {
        s
    } else if s[0] == '\0' {
        Seq::empty()
    } else {
        seq![s[0]] + before_nul(s.drop_first())
    }
}

pub trait MyStringExtensions {
    fn remove_newline(&self) -> String;

    fn check_utf16(&self) -> String;

    fn create_string_from_str(s: &str) -> String;
}

impl MyStringExtensions for String {
    /// Drops every line feed and carriage return.
    fn remove_newline(&self) -> (r: String)
        ensures
            r@ == without_newlines(self@),
    {
        let mut ret = String::new();
        let ghost src = self@;
        for c in it: self.as_str().chars()
            invariant
                it.seq() == src,
                ret@ == without_newlines(src.take(it.index() as int)),
        {
            proof {
                reveal_with_fuel(Seq::filter, 1);
                assert(src.take(it.index() as int + 1).drop_last() == src.take(it.index() as int));
            }
            if c != '\n' && c != '\r' {
                ret.push(c);
            }
        }
        proof {
            assert(src.take(src.len() as int) == src);
        }
        ret
    }

    /// Drops every byte-order mark U+FEFF, wherever it stands.
    fn check_utf16(&self) -> (r: String)
        ensures
            r@ == without_bom(self@),
    {
        let mut ret = String::new();
        let ghost src = self@;
        for c in it: self.as_str().chars()
            invariant
                it.seq() == src,
                ret@ == without_bom(src.take(it.index() as int)),
        {
            proof {
                reveal_with_fuel(Seq::filter, 1);
                assert(src.take(it.index() as int + 1).drop_last() == src.take(it.index() as int));
            }
            if c != '\u{feff}' {
                ret.push(c);
            }
        }
        proof {
            assert(src.take(src.len() as int) == src);
        }
        ret
    }

    /// Copies `s` up to, and not including, its first NUL character.
    fn create_string_from_str(s: &str) -> (r: String)
        ensures
            r@ == before_nul(s@),
    {
        let mut ret = String::new();
        let mut done = false;
        for c in it: s.chars()
            invariant
                it.seq() == s@,
                !done ==> ret@ == s@.take(it.index() as int),
                !done ==> forall|j: int| 0 <= j < it.index() ==> s@[j] != '\0',
                done ==> ret@ == before_nul(s@),
        {
            if !done {
                if c == '\0' {
                    proof {
                        lemma_before_nul_prefix(s@, it.index() as int);
                    }
                    done = true;
                } else {
                    ret.push(c);
                    proof {
                        assert(s@.take(it.index() as int + 1) == s@.take(it.index() as int).push(c));
                    }
                }
            }
        }
        proof {
            if !done {
                lemma_before_nul_prefix(s@, s@.len() as int);
                assert(s@.take(s@.len() as int) == s@);
            }
        }
        ret
    }
}

/// Filtering twice by the same test keeps what filtering once keeps.
proof fn lemma_filter_twice(s: Seq<char>, p: spec_fn(char) -> bool)
    ensures
        s.filter(p).filter(p) == s.filter(p),
    decreases s.len(),
{
    reveal_with_fuel(Seq::filter, 1);
    if s.len() > 0 {
        lemma_filter_twice(s.drop_last(), p);
        let f = s.drop_last().filter(p);
        if p(s.last()) {
            assert(s.filter(p) == f.push(s.last()));
            assert(f.push(s.last()).drop_last() == f);
        }
    }
}

/// Cleaning a name is done at once: line breaks and byte-order marks, once
/// removed, are not found again, and the text before the first NUL holds no
/// NUL.
pub proof fn law_cleaning_is_idempotent(s: Seq<char>)
    ensures
        without_newlines(without_newlines(s)) == without_newlines(s),
        without_bom(without_bom(s)) == without_bom(s),
        before_nul(before_nul(s)) == before_nul(s),
{
    lemma_filter_twice(s, |c: char| c != '\n' && c != '\r');
    lemma_filter_twice(s, |c: char| c != '\u{feff}');
    lemma_before_nul_twice(s);
}

/// Keeping what passes a test keeps all of a sequence that passes it.
proof fn lemma_filter_all_pass(s: Seq<char>, p: spec_fn(char) -> bool)
    requires
        forall|i: int| 0 <= i < s.len() ==> p(#[trigger] s[i]),
    ensures
        s.filter(p) == s,
    decreases s.len(),
{
    reveal_with_fuel(Seq::filter, 1);
    if s.len() > 0 {
        lemma_filter_all_pass(s.drop_last(), p);
        assert(p(s[s.len() - 1]));
        assert(s.drop_last().push(s.last()) == s);
    }
}

/// Text without NUL characters, byte-order marks and line breaks comes out
/// of cleaning unchanged.
pub proof fn law_clean_text_is_kept(s: Seq<char>)
    requires
        forall|i: int| 0 <= i < s.len() ==> s[i] != '\0' && s[i] != '\u{feff}' && s[i] != '\n' && s[i] != '\r',
    ensures
        before_nul(s) == s,
        without_bom(s) == s,
        without_newlines(s) == s,
{
    lemma_before_nul_prefix(s, s.len() as int);
    assert(s.take(s.len() as int) == s);
    lemma_filter_all_pass(s, |c: char| c != '\u{feff}');
    lemma_filter_all_pass(s, |c: char| c != '\n' && c != '\r');
}

proof fn lemma_before_nul_twice(s: Seq<char>)
    ensures
        before_nul(before_nul(s)) == before_nul(s),
    decreases s.len(),
{
    if s.len() > 0 && s[0] != '\0' {
        lemma_before_nul_twice(s.drop_first());
        let rest = before_nul(s.drop_first());
        let t = seq![s[0]] + rest;
        assert(t.drop_first() == rest);
    }
}

/// Where `s` holds no NUL before position `k`, and `k` is its length or a NUL
/// stands there, the part before the first NUL is `s.take(k)`.
proof fn lemma_before_nul_prefix(s: Seq<char>, k: int)
    requires
        0 <= k <= s.len(),
        forall|j: int| 0 <= j < k ==> s[j] != '\0',
        k == s.len() || s[k] == '\0',
    ensures
        before_nul(s) == s.take(k),
    decreases s.len(),
{
    if s.len() == 0 {
    } else if s[0] == '\0' {
        assert(s.take(k) =~= Seq::<char>::empty());
    } else {
        let rest = s.drop_first();
        assert forall|j: int| 0 <= j < k - 1 implies rest[j] != '\0' by {
            assert(rest[j] == s[j + 1]);
        }
        lemma_before_nul_prefix(rest, k - 1);
        assert(s.take(k) =~= seq![s[0]] + rest.take(k - 1));
    }
}

} // verus!
