//! Small verified helpers over `&str` and `String`.

use vstd::prelude::*;

verus! {

/// Relies on std's String::push: appends exactly one character at the end.
#[verifier::external_body]
pub(crate) fn push_char(s: &mut String, c: char)
    ensures
        final(s)@ == old(s)@.push(c),
{
    s.push(c)
}

/// Character-by-character equality of two string slices.
pub fn str_eq(a: &str, b: &str) -> (r: bool)
    ensures
        r == (a@ == b@),
{
    let alen = a.unicode_len();
    let blen = b.unicode_len();
    if alen != blen {
        assert(a@ != b@) by {
            assert(a@.len() != b@.len());
        }
        return false;
    }
    let mut i: usize = 0;
    while i < alen
        invariant
            alen == a@.len(),
            alen == b@.len(),
            i <= alen,
            forall|j: int| 0 <= j < i ==> a@[j] == b@[j],
        decreases alen - i,
    {
        if a.get_char(i) != b.get_char(i) {
            return false;
        }
        i += 1;
    }
    proof {
        assert(a@ =~= b@);
    }
    true
}

/// Everything before the first space, or the whole string if it has none.
pub open spec fn first_token(s: Seq<char>) -> Seq<char>
    decreases s.len(),
{
    if s.len() == 0 {
        s
    } else if s[0] == ' ' {
        Seq::empty()
    } else {
        seq![s[0]] + first_token(s.skip(1))
    }
}

proof fn lemma_first_token_no_space(s: Seq<char>, n: int)
    requires
        0 <= n <= s.len(),
        forall|j: int| 0 <= j < n ==> s[j] != ' ',
        n < s.len() ==> s[n] == ' ',
    ensures
        first_token(s) == s.take(n),
    decreases n,
{
    if s.len() == 0 {
        assert(s.take(n) =~= s);
    } else if s[0] == ' ' {
        assert(n == 0);
        assert(s.take(0) =~= Seq::<char>::empty());
    } else {
        lemma_first_token_no_space(s.skip(1), n - 1);
        assert(first_token(s) == seq![s[0]] + first_token(s.skip(1)));
        assert(seq![s[0]] + s.skip(1).take(n - 1) =~= s.take(n));
    }
}

/// The part of a name before its first space: used for a user's first name.
pub fn leading_word(s: &str) -> (r: String)
    ensures
        r@ == first_token(s@),
{
    let len = s.unicode_len();
    let mut out = String::new();
    let mut i: usize = 0;
    while i < len
        invariant
            len == s@.len(),
            i <= len,
            out@ == s@.take(i as int),
            forall|j: int| 0 <= j < i ==> s@[j] != ' ',
        decreases len - i,
    {
        let c = s.get_char(i);
        if c == ' ' {
            proof {
                lemma_first_token_no_space(s@, i as int);
            }
            return out;
        }
        push_char(&mut out, c);
        proof {
            assert(out@ =~= s@.take(i + 1));
        }
        i += 1;
    }
    proof {
        lemma_first_token_no_space(s@, len as int);
        assert(s@.take(len as int) =~= s@);
    }
    out
}


/// The views of a row of strings.
pub open spec fn str_views(s: Seq<String>) -> Seq<Seq<char>> {
    s.map_values(|t: String| t@)
}

/// How str::split cuts a string at a one-character separator: the
/// pieces between separators, empty pieces included, and one (empty)
/// piece for the empty string.
pub open spec fn split_sep(s: Seq<char>, sep: char) -> Seq<Seq<char>>
    decreases s.len(),
{
    if s.len() == 0 {
        seq![Seq::<char>::empty()]
    } else if s[0] == sep {
        seq![Seq::<char>::empty()] + split_sep(s.skip(1), sep)
    } else {
        let rest = split_sep(s.skip(1), sep);
        seq![seq![s[0]] + rest[0]] + rest.skip(1)
    }
}

/// A split never yields zero pieces.
pub proof fn lemma_split_sep_len(s: Seq<char>, sep: char)
    ensures
        split_sep(s, sep).len() >= 1,
    decreases s.len(),
{
    if s.len() > 0 {
        lemma_split_sep_len(s.skip(1), sep);
    }
}

/// Splitting distributes over a separator: the pieces of `a sep b` are
/// the pieces of `a` followed by the pieces of `b`.
pub proof fn lemma_split_sep_concat(a: Seq<char>, sep: char, b: Seq<char>)
    ensures
        split_sep(a + seq![sep] + b, sep) == split_sep(a, sep) + split_sep(b, sep),
    decreases a.len(),
{
    let u = a + seq![sep] + b;
    if a.len() == 0 {
        assert(u[0] == sep);
        assert(u.skip(1) =~= b);
        assert(split_sep(u, sep) =~= split_sep(a, sep) + split_sep(b, sep));
    } else if a[0] == sep {
        assert(u[0] == sep);
        assert(u.skip(1) =~= a.skip(1) + seq![sep] + b);
        lemma_split_sep_concat(a.skip(1), sep, b);
        assert(split_sep(u, sep) =~= split_sep(a, sep) + split_sep(b, sep));
    } else {
        assert(u[0] == a[0]);
        assert(u[0] != sep);
        assert(u.skip(1) =~= a.skip(1) + seq![sep] + b);
        lemma_split_sep_concat(a.skip(1), sep, b);
        lemma_split_sep_len(a.skip(1), sep);
        let rest_a = split_sep(a.skip(1), sep);
        let rest_u = split_sep(u.skip(1), sep);
        assert(rest_u == rest_a + split_sep(b, sep));
        assert(rest_u[0] == rest_a[0]);
        assert(rest_u.skip(1) =~= rest_a.skip(1) + split_sep(b, sep));
        assert(split_sep(u, sep) =~= split_sep(a, sep) + split_sep(b, sep));
    }
}

/// A string free of the separator splits into itself alone.
pub proof fn lemma_split_sep_free(t: Seq<char>, sep: char)
    requires
        forall|i: int| 0 <= i < t.len() ==> t[i] != sep,
    ensures
        split_sep(t, sep) == seq![t],
    decreases t.len(),
{
    if t.len() == 0 {
        assert(t =~= Seq::<char>::empty());
        assert(split_sep(t, sep) =~= seq![t]);
    } else {
        assert(t[0] != sep);
        lemma_split_sep_free(t.skip(1), sep);
        let rest = split_sep(t.skip(1), sep);
        assert(rest[0] == t.skip(1));
        assert(seq![t[0]] + t.skip(1) =~= t);
        assert(rest.skip(1) =~= Seq::<Seq<char>>::empty());
        assert(split_sep(t, sep) =~= seq![t]);
    }
}

/// Splits a string at every occurrence of a one-character separator.
pub fn split_sep_exec(s: &str, sep: char) -> (r: Vec<String>)
    ensures
        str_views(r@) == split_sep(s@, sep),
{
    let len = s.unicode_len();
    let mut parts: Vec<String> = Vec::new();
    parts.push(String::new());
    let mut i: usize = len;
    proof {
        assert(s@.skip(len as int) =~= Seq::<char>::empty());
        assert(str_views(parts@) =~= split_sep(s@.skip(len as int), sep));
    }
    while i > 0
        invariant
            len == s@.len(),
            i <= len,
            parts@.len() >= 1,
            str_views(parts@) == split_sep(s@.skip(i as int), sep),
        decreases i,
    {
        let c = s.get_char(i - 1);
        let ghost prev = parts@;
        if c == sep {
            parts.insert(0, String::new());
            proof {
                assert(s@.skip(i - 1)[0] == s@[i - 1]);
                assert(s@.skip(i - 1).skip(1) =~= s@.skip(i as int));
                assert(str_views(parts@) =~= seq![Seq::<char>::empty()] + str_views(prev));
                assert(str_views(parts@) =~= split_sep(s@.skip(i - 1), sep));
            }
        } else {
            let mut head = String::new();
            push_char(&mut head, c);
            head.append(parts[0].as_str());
            parts[0] = head;
            proof {
                assert(s@.skip(i - 1)[0] == s@[i - 1]);
                assert(s@.skip(i - 1).skip(1) =~= s@.skip(i as int));
                let rest = split_sep(s@.skip(i as int), sep);
                assert(str_views(prev) == rest);
                assert(parts@[0]@ == seq![s@[i - 1]] + rest[0]);
                assert(str_views(parts@) =~= seq![seq![s@[i - 1]] + rest[0]] + rest.skip(1));
                assert(str_views(parts@) =~= split_sep(s@.skip(i - 1), sep));
            }
        }
        i -= 1;
    }
    proof {
        assert(s@.skip(0) =~= s@);
    }
    parts
}

} // verus!
