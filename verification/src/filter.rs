//! The resource filter: which entries of a bundle are companion resources,
//! and which entries an extraction writes.
//!
//! A path is split on its last `'.'`; what follows is its extension. Two
//! extensions mark companion resources: `assets` (serialized object data) and
//! `resS` (raw streamed payload). The comparison is exact, so `ASSETS` or
//! `ress` mark nothing.

use vstd::prelude::*;

verus! {

/// The position of the last `'.'` in `s`, or `None` where `s` holds none.
pub open spec fn last_dot(s: Seq<char>) -> Option<int>
    decreases s.len(),
{
    if s.len() == 0 {
        None
    } else if s.last() == '.' {
        Some(s.len() - 1)
    } else {
        last_dot(s.drop_last())
    }
}

/// What follows the last `'.'` of `s`; `None` where `s` holds no `'.'`.
pub open spec fn extension(s: Seq<char>) -> Option<Seq<char>> {
    match last_dot(s) {
        Some(i) => Some(s.subrange(i + 1, s.len() as int)),
        None => None,
    }
}

/// The two extensions that mark a companion resource.
pub open spec fn is_resource_extension(ext: Seq<char>) -> bool {
    ext == "assets"@ || ext == "resS"@
}

/// A path names a companion resource when it has an extension and that
/// extension is one of the two resource extensions.
pub open spec fn is_companion_resource(path: Seq<char>) -> bool {
    match extension(path) {
        Some(ext) => is_resource_extension(ext),
        None => false,
    }
}

/// An entry is written unless resources are skipped and it is one.
pub open spec fn should_extract(path: Seq<char>, skip_resources: bool) -> bool {
    !(skip_resources && is_companion_resource(path))
}

/// `s` ends with `suffix`.
pub open spec fn ends_with(s: Seq<char>, suffix: Seq<char>) -> bool {
    suffix.len() <= s.len() && s.subrange(s.len() - suffix.len(), s.len() as int) == suffix
}

/// `last_dot` finds a `'.'` with no `'.'` behind it, and finds one whenever
/// there is one.
pub proof fn lemma_last_dot(s: Seq<char>)
    ensures
        match last_dot(s) {
            Some(i) => 0 <= i < s.len() && s[i] == '.' && forall|j: int|
                i < j < s.len() ==> s[j] != '.',
            None => forall|j: int| 0 <= j < s.len() ==> s[j] != '.',
        },
    decreases s.len(),
{
    if s.len() > 0 && s.last() != '.' {
        let front = s.drop_last();
        lemma_last_dot(front);
        assert(forall|j: int| 0 <= j < front.len() ==> front[j] == s[j]);
    }
}

/// A position that holds a `'.'` with none behind it is the one `last_dot`
/// finds.
pub proof fn lemma_last_dot_at(s: Seq<char>, i: int)
    requires
        0 <= i < s.len(),
        s[i] == '.',
        forall|j: int| i < j < s.len() ==> s[j] != '.',
    ensures
        last_dot(s) == Some(i),
{
    lemma_last_dot(s);
}

/// The characters of `s`, in order.
fn chars_of(s: &str) -> (chars: Vec<char>)
    ensures
        chars@ == s@,
{
    let mut chars: Vec<char> = Vec::new();
    for c in it: s.chars()
        invariant
            chars@ == it.seq().take(it.index()),
            it.seq() == s@,
    {
        chars.push(c);
    }
    chars
}

/// Whether the characters of `chars` from `from` on are exactly `word`.
fn tail_is(chars: &Vec<char>, from: usize, word: &str) -> (same: bool)
    requires
        from <= chars.len(),
    ensures
        same == (chars@.subrange(from as int, chars.len() as int) == word@),
{
    let word_chars = chars_of(word);
    let ghost tail = chars@.subrange(from as int, chars.len() as int);
    if chars.len() - from != word_chars.len() {
        return false;
    }
    let mut k: usize = 0;
    while k < word_chars.len()
        invariant
            from <= chars.len(),
            chars.len() - from == word_chars.len(),
            k <= word_chars.len(),
            tail == chars@.subrange(from as int, chars.len() as int),
            word_chars@ == word@,
            forall|j: int| 0 <= j < k ==> tail[j] == word_chars@[j],
        decreases word_chars.len() - k,
    {
        if chars[from + k] != word_chars[k] {
            assert(tail[k as int] != word@[k as int]);
            return false;
        }
        k += 1;
    }
    assert(tail =~= word@);
    true
}

/// Whether `path` names a companion resource: its extension, the text after
/// its last `'.'`, is `assets` or `resS`. A path without a `'.'` never is one.
pub fn is_resource(path: &str) -> (resource: bool)
    ensures
        resource == is_companion_resource(path@),
{
    let chars = chars_of(path);
    let mut i: usize = chars.len();
    while i > 0
        invariant
            i <= chars.len(),
            chars@ == path@,
            forall|j: int| i <= j < chars.len() ==> chars@[j] != '.',
        decreases i,
    {
        if chars[i - 1] == '.' {
            proof {
                lemma_last_dot_at(path@, i - 1);
            }
            return tail_is(&chars, i, "assets") || tail_is(&chars, i, "resS");
        }
        i -= 1;
    }
    proof {
        lemma_last_dot(path@);
    }
    false
}

/// Whether an extraction writes the entry at `path`: every entry when
/// resources are kept, every entry but the companion resources when they are
/// skipped. The listing dims exactly the entries for which this is false.
pub fn should_take(path: &str, skip_resources: bool) -> (take: bool)
    ensures
        take == should_extract(path@, skip_resources),
{
    if skip_resources {
        return !is_resource(path);
    }
    true
}

/// A path is a companion resource exactly when it ends in `.assets` or in
/// `.resS`; in particular not when it holds no `'.'`.
pub proof fn law_resource_by_suffix(path: Seq<char>)
    ensures
        is_companion_resource(path) <==> ends_with(path, ".assets"@) || ends_with(path, ".resS"@),
        (forall|j: int| 0 <= j < path.len() ==> path[j] != '.') ==> !is_companion_resource(path),
{
    reveal_strlit("assets");
    reveal_strlit("resS");
    reveal_strlit(".assets");
    reveal_strlit(".resS");
    lemma_last_dot(path);
    let n = path.len() as int;
    if is_companion_resource(path) {
        let i = last_dot(path)->0;
        let ext = path.subrange(i + 1, n);
        if ext == "assets"@ {
            let word = ".assets"@;
            assert(ext.len() == 6 && i == n - 7);
            assert forall|k: int| 0 <= k < 7 implies path.subrange(n - 7, n)[k] == word[k] by {
                if k > 0 {
                    assert(ext[k - 1] == path[i + k]);
                }
            }
            assert(path.subrange(n - 7, n) =~= word);
        } else {
            let word = ".resS"@;
            assert(ext.len() == 4 && i == n - 5);
            assert forall|k: int| 0 <= k < 5 implies path.subrange(n - 5, n)[k] == word[k] by {
                if k > 0 {
                    assert(ext[k - 1] == path[i + k]);
                }
            }
            assert(path.subrange(n - 5, n) =~= word);
        }
    }
    if ends_with(path, ".assets"@) {
        let tail = path.subrange(n - 7, n);
        assert(forall|k: int| 0 <= k < 7 ==> tail[k] == path[n - 7 + k]);
        assert(tail[0] == '.' && tail[1] == 'a' && tail[2] == 's' && tail[3] == 's' && tail[4]
            == 'e' && tail[5] == 't' && tail[6] == 's');
        lemma_last_dot_at(path, n - 7);
        assert(path.subrange(n - 6, n) =~= "assets"@);
    }
    if ends_with(path, ".resS"@) {
        let tail = path.subrange(n - 5, n);
        assert(forall|k: int| 0 <= k < 5 ==> tail[k] == path[n - 5 + k]);
        assert(tail[0] == '.' && tail[1] == 'r' && tail[2] == 'e' && tail[3] == 's' && tail[4]
            == 'S');
        lemma_last_dot_at(path, n - 5);
        assert(path.subrange(n - 4, n) =~= "resS"@);
    }
}

/// With resources skipped an entry is written exactly when it is no companion
/// resource; with resources kept every entry is written.
pub proof fn law_should_extract(path: Seq<char>)
    ensures
        should_extract(path, true) == !is_companion_resource(path),
        should_extract(path, false),
{
}

} // verus!
