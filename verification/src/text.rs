//! Character-level text utilities: the white-space predicate, first-occurrence
//! search, equality, trimming, splitting on a separator and tokenizing on runs
//! of white space. Everything is specified over `Seq<char>` views.

use vstd::prelude::*;

verus! {

/// Whether `c` has the Unicode `White_Space` property, the set that
/// `str::trim_start`, `str::trim_end` and `str::split_whitespace` go by.
pub open spec fn is_ws_char(c: char) -> bool {
    let u = c as u32;
    ||| u == 0x20
    ||| (0x09 <= u && u <= 0x0D)
    ||| u == 0x85
    ||| u == 0xA0
    ||| u == 0x1680
    ||| (0x2000 <= u && u <= 0x200A)
    ||| u == 0x2028
    ||| u == 0x2029
    ||| u == 0x202F
    ||| u == 0x205F
    ||| u == 0x3000
}

/// Decides the `White_Space` property by its code-point ranges.
pub fn is_whitespace_char(c: char) -> (r: bool)
    ensures
        r == is_ws_char(c),
{
    let u = c as u32;
    u == 0x20 || (0x09 <= u && u <= 0x0D) || u == 0x85 || u == 0xA0 || u == 0x1680 || (0x2000 <= u
        && u <= 0x200A) || u == 0x2028 || u == 0x2029 || u == 0x202F || u == 0x205F || u == 0x3000
}

/// Index of the first occurrence of `c` in `s`, if any.
pub open spec fn find_char_spec(s: Seq<char>, c: char) -> Option<int>
    decreases s.len(),
{
    if s.len() == 0 {
        None
    } else if s[0] == c {
        Some(0int)
    } else {
        match find_char_spec(s.drop_first(), c) {
            Some(i) => Some(i + 1),
            None => None,
        }
    }
}

pub proof fn lemma_find_char_at(s: Seq<char>, c: char, i: int)
    requires
        0 <= i < s.len(),
        s[i] == c,
        forall|j: int| 0 <= j < i ==> s[j] != c,
    ensures
        find_char_spec(s, c) == Some(i),
    decreases i,
{
    if i > 0 {
        assert forall|j: int| 0 <= j < i - 1 implies s.drop_first()[j] != c by {
            assert(s.drop_first()[j] == s[j + 1]);
        }
        lemma_find_char_at(s.drop_first(), c, i - 1);
    }
}

pub proof fn lemma_find_char_none(s: Seq<char>, c: char)
    requires
        forall|j: int| 0 <= j < s.len() ==> s[j] != c,
    ensures
        find_char_spec(s, c) is None,
    decreases s.len(),
{
    if s.len() > 0 {
        assert forall|j: int| 0 <= j < s.drop_first().len() implies s.drop_first()[j] != c by {
            assert(s.drop_first()[j] == s[j + 1]);
        }
        lemma_find_char_none(s.drop_first(), c);
    }
}

/// Finds the first occurrence of `c` in `s`, scanning left to right.
pub fn find_char(s: &str, c: char) -> (r: Option<usize>)
    ensures
        match r {
            Some(i) => find_char_spec(s@, c) == Some(i as int) && i < s@.len() && s@[i as int]
                == c,
            None => find_char_spec(s@, c) is None,
        },
{
    let n = s.unicode_len();
    for i in 0..n
        invariant
            n == s@.len(),
            forall|j: int| 0 <= j < i ==> s@[j] != c,
    {
        if s.get_char(i) == c {
            proof {
                lemma_find_char_at(s@, c, i as int);
            }
            return Some(i);
        }
    }
    proof {
        lemma_find_char_none(s@, c);
    }
    None
}

/// Character-wise string equality.
pub fn str_eq(a: &str, b: &str) -> (r: bool)
    ensures
        r == (a@ == b@),
{
    let n = a.unicode_len();
    if n != b.unicode_len() {
        return false;
    }
    for i in 0..n
        invariant
            n == a@.len(),
            n == b@.len(),
            forall|j: int| 0 <= j < i ==> a@[j] == b@[j],
    {
        if a.get_char(i) != b.get_char(i) {
            return false;
        }
    }
    proof {
        assert(a@ =~= b@);
    }
    true
}

/// How many white-space characters `s` starts with.
pub open spec fn ws_prefix_len(s: Seq<char>) -> int
    decreases s.len(),
{
    if s.len() == 0 || !is_ws_char(s[0]) {
        0
    } else {
        1 + ws_prefix_len(s.drop_first())
    }
}

/// `s` without its leading white space.
pub open spec fn trim_start_spec(s: Seq<char>) -> Seq<char> {
    s.skip(ws_prefix_len(s))
}

pub proof fn lemma_ws_prefix_len_is(s: Seq<char>, i: int)
    requires
        0 <= i <= s.len(),
        forall|j: int| 0 <= j < i ==> is_ws_char(s[j]),
        i == s.len() || !is_ws_char(s[i]),
    ensures
        ws_prefix_len(s) == i,
    decreases i,
{
    if i > 0 {
        assert forall|j: int| 0 <= j < i - 1 implies is_ws_char(s.drop_first()[j]) by {
            assert(s.drop_first()[j] == s[j + 1]);
        }
        assert(i - 1 == s.drop_first().len() || !is_ws_char(s.drop_first()[i - 1]));
        lemma_ws_prefix_len_is(s.drop_first(), i - 1);
    }
}

/// Strips leading white space, as `str::trim_start` does.
pub fn trim_start(s: &str) -> (r: &str)
    ensures
        r@ == trim_start_spec(s@),
{
    let n = s.unicode_len();
    let mut i: usize = 0;
    loop
        invariant
            i <= n,
            n == s@.len(),
            forall|j: int| 0 <= j < i ==> is_ws_char(s@[j]),
        ensures
            i <= n,
            n == s@.len(),
            forall|j: int| 0 <= j < i ==> is_ws_char(s@[j]),
            i == n || !is_ws_char(s@[i as int]),
        decreases n - i,
    {
        if i >= n {
            break ;
        }
        if !is_whitespace_char(s.get_char(i)) {
            break ;
        }
        i = i + 1;
    }
    proof {
        lemma_ws_prefix_len_is(s@, i as int);
    }
    let r = s.substring_char(i, n);
    proof {
        assert(r@ =~= trim_start_spec(s@));
    }
    r
}

/// `s` without its trailing white space.
pub open spec fn trim_end_spec(s: Seq<char>) -> Seq<char>
    decreases s.len(),
{
    if s.len() > 0 && is_ws_char(s.last()) {
        trim_end_spec(s.drop_last())
    } else {
        s
    }
}

pub proof fn lemma_trim_end_at(s: Seq<char>, i: int)
    requires
        0 <= i <= s.len(),
        forall|j: int| i <= j < s.len() ==> is_ws_char(s[j]),
        i == 0 || !is_ws_char(s[i - 1]),
    ensures
        trim_end_spec(s) == s.take(i),
    decreases s.len(),
{
    if s.len() > 0 && is_ws_char(s.last()) {
        assert(i < s.len());
        assert forall|j: int| i <= j < s.drop_last().len() implies is_ws_char(
            s.drop_last()[j],
        ) by {
            assert(s.drop_last()[j] == s[j]);
        }
        lemma_trim_end_at(s.drop_last(), i);
        assert(s.drop_last().take(i) =~= s.take(i));
    } else {
        assert(i == s.len());
        assert(s.take(i) =~= s);
    }
}

/// Strips trailing white space, as `str::trim_end` does; the interpreter uses
/// it to drop the line terminator from raw input.
pub fn trim_end(s: &str) -> (r: &str)
    ensures
        r@ == trim_end_spec(s@),
{
    let n = s.unicode_len();
    let mut i: usize = n;
    loop
        invariant
            i <= n,
            n == s@.len(),
            forall|j: int| i <= j < n ==> is_ws_char(s@[j]),
        ensures
            i <= n,
            n == s@.len(),
            forall|j: int| i <= j < n ==> is_ws_char(s@[j]),
            i == 0 || !is_ws_char(s@[i - 1]),
        decreases i,
    {
        if i == 0 {
            break ;
        }
        if !is_whitespace_char(s.get_char(i - 1)) {
            break ;
        }
        i = i - 1;
    }
    proof {
        lemma_trim_end_at(s@, i as int);
    }
    let r = s.substring_char(0, i);
    proof {
        assert(r@ =~= trim_end_spec(s@));
    }
    r
}

/// How many non-white-space characters `s` starts with: the length of the
/// token at the front of `s`, if one starts there.
pub open spec fn token_len(s: Seq<char>) -> int
    decreases s.len(),
{
    if s.len() == 0 || is_ws_char(s[0]) {
        0
    } else {
        1 + token_len(s.drop_first())
    }
}

pub proof fn lemma_token_len_is(s: Seq<char>, i: int)
    requires
        0 <= i <= s.len(),
        forall|j: int| 0 <= j < i ==> !is_ws_char(s[j]),
        i == s.len() || is_ws_char(s[i]),
    ensures
        token_len(s) == i,
    decreases i,
{
    if i > 0 {
        assert forall|j: int| 0 <= j < i - 1 implies !is_ws_char(s.drop_first()[j]) by {
            assert(s.drop_first()[j] == s[j + 1]);
        }
        assert(i - 1 == s.drop_first().len() || is_ws_char(s.drop_first()[i - 1]));
        lemma_token_len_is(s.drop_first(), i - 1);
    }
}

pub proof fn lemma_token_len_bounds(s: Seq<char>)
    ensures
        0 <= token_len(s) <= s.len(),
        s.len() > 0 && !is_ws_char(s[0]) ==> token_len(s) >= 1,
    decreases s.len(),
{
    if s.len() > 0 && !is_ws_char(s[0]) {
        lemma_token_len_bounds(s.drop_first());
    }
}

/// The maximal runs of non-white-space characters in `s`, in order: what
/// `str::split_whitespace` yields. Empty tokens cannot arise.
pub open spec fn tokenize_spec(s: Seq<char>) -> Seq<Seq<char>>
    decreases s.len(),
    via tokenize_spec_decreases
{
    if s.len() == 0 {
        Seq::empty()
    } else if is_ws_char(s[0]) {
        tokenize_spec(s.drop_first())
    } else {
        seq![s.take(token_len(s))] + tokenize_spec(s.skip(token_len(s)))
    }
}

#[via_fn]
proof fn tokenize_spec_decreases(s: Seq<char>) {
    if s.len() > 0 && !is_ws_char(s[0]) {
        lemma_token_len_bounds(s);
    }
}

pub proof fn lemma_tokenize_token(s: Seq<char>, k: int)
    requires
        0 < k <= s.len(),
        forall|j: int| 0 <= j < k ==> !is_ws_char(s[j]),
        k == s.len() || is_ws_char(s[k]),
    ensures
        tokenize_spec(s) == seq![s.take(k)] + tokenize_spec(s.skip(k)),
{
    lemma_token_len_is(s, k);
}

/// Splits `s` on runs of white space, discarding the white space, as
/// `str::split_whitespace` does; no token is empty.
pub fn tokenize(s: &str) -> (r: Vec<String>)
    ensures
        r.deep_view() == tokenize_spec(s@),
{
    let n = s.unicode_len();
    let mut toks: Vec<String> = Vec::new();
    let mut i: usize = 0;
    proof {
        assert(toks.deep_view() =~= Seq::<Seq<char>>::empty());
        assert(s@.skip(0) =~= s@);
        assert(toks.deep_view() + tokenize_spec(s@.skip(0)) =~= tokenize_spec(s@));
    }
    loop
        invariant
            i <= n,
            n == s@.len(),
            toks.deep_view() + tokenize_spec(s@.skip(i as int)) == tokenize_spec(s@),
        ensures
            toks.deep_view() == tokenize_spec(s@),
        decreases n - i,
    {
        let ghost i0 = i;
        // skip the white space before the next token
        loop
            invariant
                i0 <= i <= n,
                n == s@.len(),
                toks.deep_view() + tokenize_spec(s@.skip(i as int)) == tokenize_spec(s@),
            ensures
                i0 <= i <= n,
                n == s@.len(),
                toks.deep_view() + tokenize_spec(s@.skip(i as int)) == tokenize_spec(s@),
                i == n || !is_ws_char(s@[i as int]),
            decreases n - i,
        {
            if i >= n {
                break ;
            }
            if !is_whitespace_char(s.get_char(i)) {
                break ;
            }
            proof {
                assert(s@.skip(i as int).drop_first() =~= s@.skip(i + 1 as int));
            }
            i = i + 1;
        }
        if i >= n {
            proof {
                assert(s@.skip(i as int) =~= Seq::<char>::empty());
                assert(toks.deep_view() + tokenize_spec(s@.skip(i as int)) =~= toks.deep_view());
            }
            break ;
        }
        let start = i;
        loop
            invariant
                start <= i <= n,
                n == s@.len(),
                start < n,
                !is_ws_char(s@[start as int]),
                forall|j: int| start <= j < i ==> !is_ws_char(s@[j]),
            ensures
                start <= i <= n,
                n == s@.len(),
                forall|j: int| start <= j < i ==> !is_ws_char(s@[j]),
                i == n || is_ws_char(s@[i as int]),
                start < i,
            decreases n - i,
        {
            if i >= n {
                break ;
            }
            if is_whitespace_char(s.get_char(i)) {
                break ;
            }
            i = i + 1;
        }
        let ghost toks0 = toks.deep_view();
        let t = s.substring_char(start, i).to_owned();
        proof {
            let tail = s@.skip(start as int);
            let k = i - start;
            assert forall|j: int| 0 <= j < k implies !is_ws_char(tail[j]) by {
                assert(tail[j] == s@[start + j]);
            }
            assert(k == tail.len() || is_ws_char(tail[k]));
            lemma_tokenize_token(tail, k);
            assert(tail.take(k) =~= s@.subrange(start as int, i as int));
            assert(tail.skip(k) =~= s@.skip(i as int));
        }
        toks.push(t);
        proof {
            assert(toks.deep_view() =~= toks0 + seq![t@]);
            assert(toks0 + seq![t@] + tokenize_spec(s@.skip(i as int)) =~= toks0 + (seq![t@]
                + tokenize_spec(s@.skip(i as int))));
            assert(toks.deep_view() + tokenize_spec(s@.skip(i as int)) =~= tokenize_spec(s@));
        }
    }
    toks
}

/// A well-formed token: non-empty, with no white space inside.
pub open spec fn solid_token(t: Seq<char>) -> bool {
    t.len() > 0 && (forall|m: int| 0 <= m < t.len() ==> !is_ws_char(t[m]))
}

pub proof fn lemma_token_len_chars(s: Seq<char>)
    ensures
        forall|j: int| 0 <= j < token_len(s) ==> !is_ws_char(s[j]),
    decreases s.len(),
{
    if s.len() > 0 && !is_ws_char(s[0]) {
        lemma_token_len_chars(s.drop_first());
        lemma_token_len_bounds(s);
        assert forall|j: int| 0 <= j < token_len(s) implies !is_ws_char(s[j]) by {
            if j > 0 {
                assert(s.drop_first()[j - 1] == s[j]);
            }
        }
    }
}

/// Law: the tokenizer discards all the white space and never yields an empty
/// token — every token it yields is solid.
pub proof fn lemma_tokenize_solid(s: Seq<char>)
    ensures
        forall|t: int| 0 <= t < tokenize_spec(s).len() ==> solid_token(
            #[trigger] tokenize_spec(s)[t],
        ),
    decreases s.len(),
{
    if s.len() == 0 {
    } else if is_ws_char(s[0]) {
        lemma_tokenize_solid(s.drop_first());
        assert forall|t: int|
            0 <= t < tokenize_spec(s).len() implies solid_token(
            #[trigger] tokenize_spec(s)[t],
        ) by {
            assert(tokenize_spec(s)[t] == tokenize_spec(s.drop_first())[t]);
        }
    } else {
        let k = token_len(s);
        lemma_token_len_bounds(s);
        lemma_token_len_chars(s);
        lemma_tokenize_solid(s.skip(k));
        assert forall|m: int| 0 <= m < s.take(k).len() implies !is_ws_char(s.take(k)[m]) by {
            assert(s.take(k)[m] == s[m]);
        }
        assert(solid_token(s.take(k)));
        assert forall|t: int|
            0 <= t < tokenize_spec(s).len() implies solid_token(
            #[trigger] tokenize_spec(s)[t],
        ) by {
            if t > 0 {
                assert(tokenize_spec(s)[t] == tokenize_spec(s.skip(k))[t - 1]);
            }
        }
    }
}

/// The pieces of `s` between occurrences of `sep`, in order, the separators
/// dropped: what `str::split` yields. An empty `s` gives one empty piece, and
/// adjacent separators give empty pieces, as `str::split` does.
pub open spec fn split_sep_spec(s: Seq<char>, sep: char) -> Seq<Seq<char>>
    decreases s.len(),
{
    if s.len() == 0 {
        seq![Seq::<char>::empty()]
    } else {
        let rest = split_sep_spec(s.drop_first(), sep);
        if s[0] == sep {
            seq![Seq::<char>::empty()] + rest
        } else {
            seq![seq![s[0]] + rest[0]] + rest.drop_first()
        }
    }
}

pub proof fn lemma_split_sep_len(s: Seq<char>, sep: char)
    ensures
        split_sep_spec(s, sep).len() >= 1,
    decreases s.len(),
{
    if s.len() > 0 {
        lemma_split_sep_len(s.drop_first(), sep);
    }
}

pub proof fn lemma_split_sep_at(s: Seq<char>, sep: char, i: int)
    requires
        0 <= i < s.len(),
        s[i] == sep,
        forall|j: int| 0 <= j < i ==> s[j] != sep,
    ensures
        split_sep_spec(s, sep) == seq![s.take(i)] + split_sep_spec(s.skip(i + 1), sep),
    decreases i,
{
    if i == 0 {
        assert(s.take(0) =~= Seq::<char>::empty());
        assert(s.drop_first() =~= s.skip(1));
    } else {
        let d = s.drop_first();
        assert forall|j: int| 0 <= j < i - 1 implies d[j] != sep by {
            assert(d[j] == s[j + 1]);
        }
        lemma_split_sep_at(d, sep, i - 1);
        lemma_split_sep_len(d.skip(i), sep);
        let rest = split_sep_spec(d, sep);
        assert(rest == seq![d.take(i - 1)] + split_sep_spec(d.skip(i), sep));
        assert(seq![s[0]] + rest[0] =~= s.take(i));
        assert(rest.drop_first() =~= split_sep_spec(d.skip(i), sep));
        assert(d.skip(i) =~= s.skip(i + 1));
        assert(split_sep_spec(s, sep) =~= seq![s.take(i)] + split_sep_spec(s.skip(i + 1), sep));
    }
}

pub proof fn lemma_split_sep_none(s: Seq<char>, sep: char)
    requires
        forall|j: int| 0 <= j < s.len() ==> s[j] != sep,
    ensures
        split_sep_spec(s, sep) == seq![s],
    decreases s.len(),
{
    if s.len() == 0 {
        assert(s =~= Seq::<char>::empty());
    } else {
        let d = s.drop_first();
        assert forall|j: int| 0 <= j < d.len() implies d[j] != sep by {
            assert(d[j] == s[j + 1]);
        }
        lemma_split_sep_none(d, sep);
        let rest = split_sep_spec(d, sep);
        assert(rest[0] == d);
        assert(seq![s[0]] + d =~= s);
        assert(rest.drop_first() =~= Seq::<Seq<char>>::empty());
        assert(split_sep_spec(s, sep) =~= seq![s]);
    }
}

/// Splits `s` on every occurrence of `sep`, as `str::split` does: the search
/// path is such a list, split on the path separator.
pub fn split_on(s: &str, sep: char) -> (r: Vec<String>)
    ensures
        r.deep_view() == split_sep_spec(s@, sep),
{
    let n = s.unicode_len();
    let mut pieces: Vec<String> = Vec::new();
    let mut start: usize = 0;
    let mut i: usize = 0;
    proof {
        assert(pieces.deep_view() =~= Seq::<Seq<char>>::empty());
        assert(s@.skip(0) =~= s@);
        assert(pieces.deep_view() + split_sep_spec(s@.skip(0), sep) =~= split_sep_spec(s@, sep));
    }
    loop
        invariant_except_break
            pieces.deep_view() + split_sep_spec(s@.skip(start as int), sep) == split_sep_spec(
                s@,
                sep,
            ),
        invariant
            start <= i <= n,
            n == s@.len(),
            forall|j: int| start <= j < i ==> s@[j] != sep,
        ensures
            pieces.deep_view() == split_sep_spec(s@, sep),
        decreases n - i,
    {
        if i >= n {
            let ghost pieces0 = pieces.deep_view();
            let t = s.substring_char(start, n).to_owned();
            proof {
                let tail = s@.skip(start as int);
                assert forall|j: int| 0 <= j < tail.len() implies tail[j] != sep by {
                    assert(tail[j] == s@[start + j]);
                }
                lemma_split_sep_none(tail, sep);
                assert(tail =~= s@.subrange(start as int, n as int));
            }
            pieces.push(t);
            proof {
                assert(pieces.deep_view() =~= pieces0 + seq![t@]);
                assert(pieces.deep_view() =~= split_sep_spec(s@, sep));
            }
            break ;
        }
        if s.get_char(i) == sep {
            let ghost pieces0 = pieces.deep_view();
            let t = s.substring_char(start, i).to_owned();
            proof {
                let tail = s@.skip(start as int);
                let k = i - start;
                assert forall|j: int| 0 <= j < k implies tail[j] != sep by {
                    assert(tail[j] == s@[start + j]);
                }
                assert(tail[k] == sep);
                lemma_split_sep_at(tail, sep, k);
                assert(tail.take(k) =~= s@.subrange(start as int, i as int));
                assert(tail.skip(k + 1) =~= s@.skip(i + 1 as int));
            }
            pieces.push(t);
            proof {
                assert(pieces.deep_view() =~= pieces0 + seq![t@]);
                assert(pieces0 + seq![t@] + split_sep_spec(s@.skip(i + 1 as int), sep) =~= pieces0
                    + (seq![t@] + split_sep_spec(s@.skip(i + 1 as int), sep)));
                assert(pieces.deep_view() + split_sep_spec(s@.skip(i + 1 as int), sep)
                    =~= split_sep_spec(s@, sep));
            }
            start = i + 1;
            i = i + 1;
        } else {
            i = i + 1;
        }
    }
    pieces
}

} // verus!
