//! Character-level helpers on strings: whitespace tokens, splitting on a
//! character, replacing a character, prefixes and padding.
use vstd::prelude::*;

verus! {

/// The views of a sequence of strings.
pub open spec fn views(v: Seq<String>) -> Seq<Seq<char>> {
    v.map_values(|t: String| t@)
}

/// The Unicode `White_Space` property (PropList.txt): the characters that
/// `char::is_whitespace` accepts.
pub open spec fn is_white_space(c: char) -> bool {
    let u = c as u32;
    ||| 0x9 <= u <= 0xd
    ||| u == 0x20
    ||| u == 0x85
    ||| u == 0xa0
    ||| u == 0x1680
    ||| 0x2000 <= u <= 0x200a
    ||| u == 0x2028
    ||| u == 0x2029
    ||| u == 0x202f
    ||| u == 0x205f
    ||| u == 0x3000
}

/// `char::is_whitespace`: true exactly for the characters with the Unicode
/// `White_Space` property, listed in `is_white_space`.
#[verifier::external_body]
pub(crate) fn char_is_whitespace(c: char) -> (b: bool)
    ensures
        b == is_white_space(c),
{
    c.is_whitespace()
}

/// An ASCII decimal digit, as `char::is_ascii_digit` accepts it.
pub open spec fn is_ascii_digit(c: char) -> bool {
    '0' <= c && c <= '9'
}

/// The maximal runs of non-whitespace characters of `s`, in order: what
/// `str::split_whitespace` yields.
pub open spec fn ws_tokens(s: Seq<char>) -> Seq<Seq<char>>
    decreases s.len(),
{
    if s.len() == 0 {
        seq![]
    } else {
        let prev = ws_tokens(s.drop_last());
        let c = s.last();
        if is_white_space(c) {
            prev
        } else if s.len() >= 2 && !is_white_space(s[s.len() - 2]) {
            prev.update(prev.len() - 1, prev.last().push(c))
        } else {
            prev.push(seq![c])
        }
    }
}

/// The start of the run of non-whitespace characters that ends `s`.
pub open spec fn run_start(s: Seq<char>) -> int
    decreases s.len(),
{
    if s.len() == 0 || is_white_space(s.last()) {
        s.len() as int
    } else {
        run_start(s.drop_last())
    }
}

proof fn lemma_run_start(s: Seq<char>)
    ensures
        0 <= run_start(s) <= s.len(),
        run_start(s) < s.len() ==> ws_tokens(s).len() > 0 && ws_tokens(s).last() == s.subrange(
            run_start(s),
            s.len() as int,
        ),
        run_start(s) == 0 || is_white_space(s[run_start(s) - 1]),
        forall|k: int| run_start(s) <= k < s.len() ==> !is_white_space(#[trigger] s[k]),
    decreases s.len(),
{
    if s.len() > 0 && !is_white_space(s.last()) {
        let t = s.drop_last();
        lemma_run_start(t);
        if run_start(t) < t.len() {
            assert(s.subrange(run_start(s), s.len() as int) =~= t.subrange(
                run_start(t),
                t.len() as int,
            ).push(s.last()));
        } else {
            assert(s.subrange(run_start(s), s.len() as int) =~= seq![s.last()]);
        }
        assert forall|k: int| run_start(s) <= k < s.len() implies !is_white_space(#[trigger] s[k]) by {
            if k < t.len() {
                assert(s[k] == t[k]);
            }
        }
    }
}

/// Splits `s` into its whitespace-separated tokens (`str::split_whitespace`).
pub fn whitespace_tokens(s: &str) -> (toks: Vec<String>)
    ensures
        views(toks@) == ws_tokens(s@),
{
    let n = s.unicode_len();
    let mut toks: Vec<String> = Vec::new();
    let mut i: usize = 0;
    let mut start: usize = 0;
    while i < n
        invariant
            n == s@.len(),
            i <= n,
            start <= i,
            start == run_start(s@.take(i as int)),
            start < i ==> views(toks@).push(s@.subrange(start as int, i as int)) == ws_tokens(
                s@.take(i as int),
            ),
            start == i ==> views(toks@) == ws_tokens(s@.take(i as int)),
        decreases n - i,
    {
        let c = s.get_char(i);
        let ghost pre = s@.take(i as int);
        let ghost post = s@.take(i + 1);
        assert(post.drop_last() =~= pre);
        assert(post.last() == c);
        proof {
            lemma_run_start(pre);
        }
        if char_is_whitespace(c) {
            if start < i {
                let sub = s.substring_char(start, i);
                let piece = sub.to_string();
                proof {
                    vstd::string::to_string_from_display_ensures_for_str(sub, piece);
                }
                let ghost before = toks@;
                toks.push(piece);
                assert(views(toks@) =~= views(before).push(piece@));
            }
            i = i + 1;
            start = i;
        } else {
            if start < i {
                assert(i >= 1 && !is_white_space(s@[i - 1]));
                assert(pre[pre.len() - 1] == s@[i - 1]);
                assert(s@.subrange(start as int, i + 1) =~= s@.subrange(start as int, i as int).push(c));
            } else {
                assert(s@.subrange(start as int, i + 1) =~= seq![c]);
            }
            i = i + 1;
        }
    }
    assert(s@.take(n as int) =~= s@);
    if start < n {
        let sub = s.substring_char(start, n);
        let piece = sub.to_string();
        proof {
            vstd::string::to_string_from_display_ensures_for_str(sub, piece);
        }
        let ghost before = toks@;
        toks.push(piece);
        assert(views(toks@) =~= views(before).push(piece@));
    }
    toks
}

/// A whitespace character at the end adds no token.
pub proof fn lemma_ws_tokens_push_space(s: Seq<char>, c: char)
    requires
        is_white_space(c),
    ensures
        ws_tokens(s.push(c)) == ws_tokens(s),
{
    assert(s.push(c).drop_last() =~= s);
}

/// A word without whitespace, written after nothing or after whitespace,
/// adds itself as the last token.
pub proof fn lemma_ws_tokens_append_word(s: Seq<char>, t: Seq<char>)
    requires
        s.len() == 0 || is_white_space(s.last()),
        t.len() > 0,
        forall|i: int| 0 <= i < t.len() ==> !is_white_space(#[trigger] t[i]),
    ensures
        ws_tokens(s + t) == ws_tokens(s).push(t),
    decreases t.len(),
{
    let u = s + t;
    assert(u.drop_last() =~= s + t.drop_last());
    assert(u.last() == t.last());
    if t.len() == 1 {
        assert(s + t.drop_last() =~= s);
        assert(t =~= seq![t.last()]);
        if s.len() > 0 {
            assert(u[u.len() - 2] == s.last());
        }
    } else {
        let t0 = t.drop_last();
        assert forall|i: int| 0 <= i < t0.len() implies !is_white_space(#[trigger] t0[i]) by {
            assert(t0[i] == t[i]);
        }
        lemma_ws_tokens_append_word(s, t0);
        assert(u[u.len() - 2] == t[t.len() - 2]);
        assert(t0.push(t.last()) =~= t);
    }
}

/// The pieces of `s` between occurrences of `c`, in order (`str::split`
/// with a character pattern): one more piece than there are occurrences.
pub open spec fn split_on(s: Seq<char>, c: char) -> Seq<Seq<char>>
    decreases s.len(),
{
    if s.len() == 0 {
        seq![seq![]]
    } else {
        let prev = split_on(s.drop_last(), c);
        if s.last() == c {
            prev.push(seq![])
        } else {
            prev.update(prev.len() - 1, prev.last().push(s.last()))
        }
    }
}

/// The position just after the last occurrence of `c` in `s` (0 if none).
pub open spec fn last_piece_start(s: Seq<char>, c: char) -> int
    decreases s.len(),
{
    if s.len() == 0 {
        0
    } else if s.last() == c {
        s.len() as int
    } else {
        last_piece_start(s.drop_last(), c)
    }
}

proof fn lemma_split_on(s: Seq<char>, c: char)
    ensures
        0 <= last_piece_start(s, c) <= s.len(),
        split_on(s, c).len() >= 1,
        split_on(s, c).last() == s.subrange(last_piece_start(s, c), s.len() as int),
    decreases s.len(),
{
    if s.len() > 0 {
        let t = s.drop_last();
        lemma_split_on(t, c);
        if s.last() != c {
            assert(s.subrange(last_piece_start(s, c), s.len() as int) =~= t.subrange(
                last_piece_start(t, c),
                t.len() as int,
            ).push(s.last()));
        } else {
            assert(s.subrange(s.len() as int, s.len() as int) =~= Seq::<char>::empty());
        }
    }
}

/// The separator at the end starts an empty last piece.
pub proof fn lemma_split_on_push_sep(s: Seq<char>, c: char)
    ensures
        split_on(s.push(c), c) == split_on(s, c).push(seq![]),
{
    assert(s.push(c).drop_last() =~= s);
}

/// Text without the separator extends the last piece.
pub proof fn lemma_split_on_append(s: Seq<char>, t: Seq<char>, c: char)
    requires
        !t.contains(c),
    ensures
        split_on(s + t, c).len() == split_on(s, c).len(),
        split_on(s + t, c) == split_on(s, c).update(
            split_on(s, c).len() - 1,
            split_on(s, c).last() + t,
        ),
    decreases t.len(),
{
    lemma_split_on(s, c);
    if t.len() == 0 {
        assert(s + t =~= s);
        assert(split_on(s, c).last() + t =~= split_on(s, c).last());
        assert(split_on(s, c).update(split_on(s, c).len() - 1, split_on(s, c).last() + t)
            =~= split_on(s, c));
    } else {
        let t0 = t.drop_last();
        assert(!t0.contains(c)) by {
            if t0.contains(c) {
                let k = choose|k: int| 0 <= k < t0.len() && t0[k] == c;
                assert(t[k] == c);
            }
        }
        assert(t.last() != c) by {
            assert(t[t.len() - 1] == t.last());
        }
        lemma_split_on_append(s, t0, c);
        let u = s + t;
        assert(u.drop_last() =~= s + t0);
        assert(u.last() == t.last());
        let q = split_on(s, c);
        let p = split_on(s + t0, c);
        assert(p.len() == q.len());
        assert(p.last() == q.last() + t0);
        assert(split_on(u, c) == p.update(p.len() - 1, p.last().push(t.last())));
        assert(q.last() + t0 + seq![t.last()] =~= q.last() + t);
        assert((q.last() + t0).push(t.last()) =~= q.last() + t);
        assert(split_on(u, c) =~= split_on(s, c).update(
            split_on(s, c).len() - 1,
            split_on(s, c).last() + t,
        ));
    }
}

/// Splits `s` at every occurrence of `c`.
pub fn split_on_char(s: &str, c: char) -> (parts: Vec<String>)
    ensures
        views(parts@) == split_on(s@, c),
{
    let n = s.unicode_len();
    let mut parts: Vec<String> = Vec::new();
    let mut i: usize = 0;
    let mut start: usize = 0;
    assert(s@.take(0) =~= Seq::<char>::empty());
    assert(s@.subrange(0, 0) =~= Seq::<char>::empty());
    assert(views(parts@) =~= Seq::<Seq<char>>::empty());
    assert(views(parts@).push(s@.subrange(0, 0)) =~= split_on(s@.take(0), c));
    while i < n
        invariant
            n == s@.len(),
            start <= i <= n,
            start == last_piece_start(s@.take(i as int), c),
            views(parts@).push(s@.subrange(start as int, i as int)) == split_on(s@.take(i as int), c),
        decreases n - i,
    {
        let ch = s.get_char(i);
        let ghost pre = s@.take(i as int);
        let ghost post = s@.take(i + 1);
        assert(post.drop_last() =~= pre);
        assert(post.last() == ch);
        proof {
            lemma_split_on(pre, c);
        }
        if ch == c {
            let sub = s.substring_char(start, i);
            let piece = sub.to_string();
            proof {
                vstd::string::to_string_from_display_ensures_for_str(sub, piece);
            }
            let ghost before = parts@;
            parts.push(piece);
            assert(views(parts@) =~= views(before).push(piece@));
            i = i + 1;
            start = i;
            assert(s@.subrange(start as int, i as int) =~= Seq::<char>::empty());
        } else {
            assert(s@.subrange(start as int, i + 1) =~= s@.subrange(start as int, i as int).push(ch));
            i = i + 1;
        }
    }
    assert(s@.take(n as int) =~= s@);
    let sub = s.substring_char(start, n);
    let piece = sub.to_string();
    proof {
        vstd::string::to_string_from_display_ensures_for_str(sub, piece);
    }
    let ghost before = parts@;
    parts.push(piece);
    assert(views(parts@) =~= views(before).push(piece@));
    parts
}

/// Whether `c` occurs in `s` (`str::contains` with a character pattern).
pub fn contains_char(s: &str, c: char) -> (b: bool)
    ensures
        b == s@.contains(c),
{
    let n = s.unicode_len();
    let mut i: usize = 0;
    while i < n
        invariant
            n == s@.len(),
            i <= n,
            forall|k: int| 0 <= k < i ==> s@[k] != c,
        decreases n - i,
    {
        if s.get_char(i) == c {
            return true;
        }
        i = i + 1;
    }
    false
}

/// `s` with every occurrence of `c` replaced by `r`.
pub open spec fn replace_char(s: Seq<char>, c: char, r: Seq<char>) -> Seq<char>
    decreases s.len(),
{
    if s.len() == 0 {
        seq![]
    } else {
        replace_char(s.drop_last(), c, r) + (if s.last() == c {
            r
        } else {
            seq![s.last()]
        })
    }
}

/// Replacing distributes over concatenation.
pub proof fn lemma_replace_char_concat(a: Seq<char>, b: Seq<char>, c: char, r: Seq<char>)
    ensures
        replace_char(a + b, c, r) == replace_char(a, c, r) + replace_char(b, c, r),
    decreases b.len(),
{
    if b.len() == 0 {
        assert(a + b =~= a);
        assert(replace_char(a, c, r) + replace_char(b, c, r) =~= replace_char(a, c, r));
    } else {
        let b0 = b.drop_last();
        lemma_replace_char_concat(a, b0, c, r);
        assert((a + b).drop_last() =~= a + b0);
        assert((a + b).last() == b.last());
        let tail = if b.last() == c {
            r
        } else {
            seq![b.last()]
        };
        assert(replace_char(a, c, r) + replace_char(b0, c, r) + tail =~= replace_char(a, c, r) + (
        replace_char(b0, c, r) + tail));
    }
}

/// Text without `c` is left as it is.
pub proof fn lemma_replace_char_absent(a: Seq<char>, c: char, r: Seq<char>)
    requires
        !a.contains(c),
    ensures
        replace_char(a, c, r) == a,
    decreases a.len(),
{
    if a.len() > 0 {
        let a0 = a.drop_last();
        assert(!a0.contains(c)) by {
            if a0.contains(c) {
                let k = choose|k: int| 0 <= k < a0.len() && a0[k] == c;
                assert(a[k] == c);
            }
        }
        assert(a.last() != c) by {
            assert(a[a.len() - 1] == a.last());
        }
        lemma_replace_char_absent(a0, c, r);
        assert(a0 + seq![a.last()] =~= a);
    }
}

/// A lone `c` becomes `r`.
pub proof fn lemma_replace_char_single(c: char, r: Seq<char>)
    ensures
        replace_char(seq![c], c, r) == r,
{
    assert(seq![c].drop_last() =~= Seq::<char>::empty());
    assert(replace_char(Seq::<char>::empty(), c, r) == Seq::<char>::empty());
    assert(seq![c].last() == c);
    assert(Seq::<char>::empty() + r =~= r);
}

/// Replaces every occurrence of `c` in `s` by `r` (`str::replace` with a
/// character pattern).
pub fn replace_char_with(s: &str, c: char, r: &str) -> (out: String)
    ensures
        out@ == replace_char(s@, c, r@),
{
    let n = s.unicode_len();
    let mut out = String::new();
    let mut i: usize = 0;
    while i < n
        invariant
            n == s@.len(),
            i <= n,
            out@ == replace_char(s@.take(i as int), c, r@),
        decreases n - i,
    {
        let ch = s.get_char(i);
        assert(s@.take(i + 1).drop_last() =~= s@.take(i as int));
        if ch == c {
            out.append(r);
        } else {
            let piece = s.substring_char(i, i + 1);
            assert(piece@ =~= seq![ch]);
            out.append(piece);
        }
        i = i + 1;
    }
    assert(s@.take(n as int) =~= s@);
    out
}

/// Whether `s` starts with `prefix` (`str::starts_with`).
pub fn starts_with(s: &str, prefix: &str) -> (b: bool)
    ensures
        b == prefix@.is_prefix_of(s@),
{
    let n = s.unicode_len();
    let m = prefix.unicode_len();
    if m > n {
        return false;
    }
    let mut i: usize = 0;
    while i < m
        invariant
            n == s@.len(),
            m == prefix@.len(),
            m <= n,
            i <= m,
            forall|k: int| 0 <= k < i ==> prefix@[k] == s@[k],
        decreases m - i,
    {
        if s.get_char(i) != prefix.get_char(i) {
            assert(prefix@[i as int] != s@.subrange(0, m as int)[i as int]);
            return false;
        }
        i = i + 1;
    }
    assert(prefix@ =~= s@.subrange(0, m as int));
    true
}

/// Whether two strings hold the same characters.
pub fn same_text(a: &str, b: &str) -> (r: bool)
    ensures
        r == (a@ == b@),
{
    let n = a.unicode_len();
    if n != b.unicode_len() {
        return false;
    }
    let mut i: usize = 0;
    while i < n
        invariant
            n == a@.len(),
            n == b@.len(),
            i <= n,
            forall|k: int| 0 <= k < i ==> a@[k] == b@[k],
        decreases n - i,
    {
        if a.get_char(i) != b.get_char(i) {
            return false;
        }
        i = i + 1;
    }
    assert(a@ =~= b@);
    true
}

/// `s` padded on the right with spaces to `width` characters, as the
/// `{:<width}` format specification lays out a string.
pub open spec fn pad_right(s: Seq<char>, width: nat) -> Seq<char> {
    if s.len() >= width {
        s
    } else {
        s + Seq::new((width - s.len()) as nat, |i: int| ' ')
    }
}

/// Appends `s` to `out`, padded on the right with spaces to `width`
/// characters.
pub fn push_padded(out: &mut String, s: &str, width: usize)
    ensures
        final(out)@ == old(out)@ + pad_right(s@, width as nat),
{
    out.append(s);
    let n = s.unicode_len();
    let mut k: usize = n;
    let ghost base = old(out)@ + s@;
    while k < width
        invariant
            n == s@.len(),
            n <= k,
            k <= width || k == n,
            out@ == base + Seq::new((k - n) as nat, |i: int| ' '),
        decreases width - k,
    {
        proof {
            reveal_strlit(" ");
        }
        out.append(" ");
        assert(out@ =~= base + Seq::new((k + 1 - n) as nat, |i: int| ' '));
        k = k + 1;
    }
    if n >= width {
        assert(out@ =~= old(out)@ + pad_right(s@, width as nat));
    } else {
        assert(out@ =~= old(out)@ + pad_right(s@, width as nat));
    }
}

/// The named result of `str::to_uppercase` on a string's characters.
pub uninterp spec fn uppercase_of(s: Seq<char>) -> Seq<char>;

/// The named result of `str::to_lowercase` on a string's characters.
pub uninterp spec fn lowercase_of(s: Seq<char>) -> Seq<char>;

/// ASCII upper-casing of one character.
pub open spec fn ascii_upper(c: char) -> char {
    if 'a' <= c && c <= 'z' {
        ((c as u32) - 32) as char
    } else {
        c
    }
}

/// ASCII lower-casing of one character.
pub open spec fn ascii_lower(c: char) -> char {
    if 'A' <= c && c <= 'Z' {
        ((c as u32) + 32) as char
    } else {
        c
    }
}

/// Every character is ASCII.
pub open spec fn all_ascii(s: Seq<char>) -> bool {
    forall|i: int| 0 <= i < s.len() ==> (s[i] as u32) < 128
}

/// `str::to_uppercase`: its result is named `uppercase_of`; on ASCII input it
/// maps `a`-`z` to `A`-`Z` and keeps every other character.
#[verifier::external_body]
pub(crate) fn to_uppercase(s: &str) -> (r: String)
    ensures
        r@ == uppercase_of(s@),
        all_ascii(s@) ==> r@ == s@.map_values(|c: char| ascii_upper(c)),
{
    s.to_uppercase()
}

/// `str::to_lowercase`: its result is named `lowercase_of`; on ASCII input it
/// maps `A`-`Z` to `a`-`z` and keeps every other character.
#[verifier::external_body]
pub(crate) fn to_lowercase(s: &str) -> (r: String)
    ensures
        r@ == lowercase_of(s@),
        all_ascii(s@) ==> r@ == s@.map_values(|c: char| ascii_lower(c)),
{
    s.to_lowercase()
}

} // verus!
