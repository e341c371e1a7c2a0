//! The frame for the eye: the secret values of the environment are masked.
use crate::text::{
    find_from, from_chars, has_prefix_at, lemma_find_from, occurs, push_all, push_range,
    replace_all, replaced, replaced_from, texts, to_chars,
};
use vstd::prelude::*;

verus! {

/// What is shown in the place of a secret: its first three characters, or
/// all of it where it is shorter, and an ellipsis of three dots.
pub open spec fn mask(secret: Seq<char>) -> Seq<char> {
    if secret.len() <= 3 {
        secret + "..."@
    } else {
        secret.subrange(0, 3) + "..."@
    }
}

/// The text with the mask of `secret` in the place of each occurrence of
/// it. An empty secret changes nothing.
pub open spec fn masked(text: Seq<char>, secret: Seq<char>) -> Seq<char> {
    replaced(text, secret, mask(secret))
}

/// The text once the first `n` secrets are masked, one after the other.
pub open spec fn obfuscated(text: Seq<char>, secrets: Seq<Seq<char>>, n: int) -> Seq<char>
    decreases n,
{
    if n <= 0 {
        text
    } else {
        masked(obfuscated(text, secrets, n - 1), secrets[n - 1])
    }
}

/// The text of a frame for the eye: every secret is masked, in the order
/// of `secrets`.
pub fn obfuscate_frame(frame: &str, secrets: &Vec<String>) -> (shown: String)
    ensures
        shown@ == obfuscated(frame@, texts(secrets@), secrets@.len() as int),
{
    let dots = to_chars("...");
    let mut text = to_chars(frame);
    let mut i: usize = 0;
    while i < secrets.len()
        invariant
            i <= secrets.len(),
            dots@ == "..."@,
            text@ == obfuscated(frame@, texts(secrets@), i as int),
        decreases secrets.len() - i,
    {
        let secret = to_chars(secrets[i].as_str());
        let mut shown: Vec<char> = Vec::new();
        if secret.len() <= 3 {
            push_all(&mut shown, &secret);
        } else {
            push_range(&mut shown, &secret, 0, 3);
        }
        push_all(&mut shown, &dots);
        text = replace_all(&text, &secret, &shown);
        i += 1;
    }
    from_chars(&text)
}

/// No character of `x` is a dot.
pub open spec fn dotless(x: Seq<char>) -> bool {
    forall|i: int| 0 <= i < x.len() ==> x[i] != '.'
}

/// A secret that its own mask cannot bring back: it is longer than the
/// three characters that the mask shows, and holds no dot.
pub open spec fn maskable(secret: Seq<char>) -> bool {
    secret.len() > 3 && dotless(secret)
}

/// A text without dots that occurs in `u + "..." + v` lies in `u` or in
/// `v`.
proof fn lemma_apart_from_dots(u: Seq<char>, v: Seq<char>, x: Seq<char>, j: int)
    requires
        dotless(x),
        x.len() > 0,
        has_prefix_at(u + "..."@ + v, j, x),
    ensures
        has_prefix_at(u, j, x) || (j >= u.len() + 3 && has_prefix_at(v, j - u.len() - 3, x)),
{
    reveal_strlit("...");
    let all = u + "..."@ + v;
    let part = all.subrange(j, j + x.len());
    if j + x.len() <= u.len() {
        assert(u.subrange(j, j + x.len()) =~= part);
    } else if j >= u.len() + 3 {
        assert(v.subrange(j - u.len() - 3, j - u.len() - 3 + x.len()) =~= part);
    } else {
        let k = if j >= u.len() {
            j
        } else {
            u.len() as int
        };
        assert(part[k - j] == all[k]);
    }
}

/// Where a text without dots occurs in a masked text, it occurred in the
/// text before: at a place `q` from which it ends no later than three
/// characters into the next occurrence of the secret.
proof fn lemma_masked_occurrence(t: Seq<char>, s: Seq<char>, x: Seq<char>, at: int, j: int) -> (q:
    int)
    requires
        s.len() > 3,
        dotless(x),
        x.len() > 0,
        0 <= at <= t.len(),
        has_prefix_at(replaced_from(t, s, mask(s), at), j, x),
    ensures
        at <= q,
        has_prefix_at(t, q, x),
        find_from(t, s, q) < 0 || q + x.len() <= find_from(t, s, q) + 3,
    decreases t.len() + 1 - at,
{
    let f = find_from(t, s, at);
    lemma_find_from(t, s, at);
    if f < 0 {
        let rest = t.subrange(at, t.len() as int);
        assert(rest.subrange(j, j + x.len()) =~= t.subrange(at + j, at + j + x.len()));
        lemma_find_from(t, s, at + j);
        at + j
    } else {
        let u = t.subrange(at, f) + s.subrange(0, 3);
        let v = replaced_from(t, s, mask(s), f + s.len());
        assert(replaced_from(t, s, mask(s), at) =~= u + "..."@ + v);
        lemma_apart_from_dots(u, v, x, j);
        if has_prefix_at(u, j, x) {
            assert forall|i: int| 0 <= i < 3 implies s[i] == t[f + i] by {
            }
            assert(u.subrange(j, j + x.len()) =~= t.subrange(at + j, at + j + x.len()));
            lemma_find_from(t, s, at + j);
            at + j
        } else {
            lemma_masked_occurrence(t, s, x, f + s.len(), j - u.len() - 3)
        }
    }
}

/// Masking a secret brings no text without dots into a text that did not
/// hold it before.
pub proof fn lemma_mask_adds_nothing(text: Seq<char>, secret: Seq<char>, x: Seq<char>)
    requires
        secret.len() > 3,
        dotless(x),
        x.len() > 0,
        !occurs(text, x),
    ensures
        !occurs(masked(text, secret), x),
{
    if occurs(masked(text, secret), x) {
        let j = choose|j: int| has_prefix_at(masked(text, secret), j, x);
        let q = lemma_masked_occurrence(text, secret, x, 0, j);
    }
}

/// A masked secret is gone: a secret that is longer than three characters
/// and holds no dot does not occur in the text in which it was masked.
pub proof fn lemma_masked_secret_is_gone(text: Seq<char>, secret: Seq<char>)
    requires
        maskable(secret),
    ensures
        !occurs(masked(text, secret), secret),
{
    if occurs(masked(text, secret), secret) {
        let j = choose|j: int| has_prefix_at(masked(text, secret), j, secret);
        let q = lemma_masked_occurrence(text, secret, secret, 0, j);
        lemma_find_from(text, secret, q);
    }
}

/// No secret shows in the obfuscated text: where every secret is longer
/// than three characters and holds no dot, none of them occurs in the text
/// once all of them are masked.
pub proof fn lemma_secrets_are_gone(text: Seq<char>, secrets: Seq<Seq<char>>, n: int, k: int)
    requires
        0 <= k < n <= secrets.len(),
        forall|i: int| 0 <= i < n ==> maskable(#[trigger] secrets[i]),
    ensures
        !occurs(obfuscated(text, secrets, n), secrets[k]),
    decreases n,
{
    let before = obfuscated(text, secrets, n - 1);
    if k == n - 1 {
        lemma_masked_secret_is_gone(before, secrets[k]);
    } else {
        lemma_secrets_are_gone(text, secrets, n - 1, k);
        lemma_mask_adds_nothing(before, secrets[n - 1], secrets[k]);
    }
}

} // verus!
