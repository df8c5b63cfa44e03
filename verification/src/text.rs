//! Character and string helpers shared by the whole library: conversions
//! between `String` and character sequences, hexadecimal and decimal
//! renderings, and the decimal reading of small integers.

use vstd::prelude::*;

verus! {

// ── std string calls without a vstd specification ─────────────────────────

/// Appends one character to a `String` (std `String::push`).
/// Trusted: the new view is the old view followed by `c`.
#[verifier::external_body]
pub(crate) fn push_char(s: &mut String, c: char)
    ensures
        final(s)@ == old(s)@.push(c),
{
    s.push(c);
}

/// Removes the last character of a `String` (std `String::pop`).
/// Trusted: an empty string is left as it is and gives `None`; otherwise
/// the last character is removed and returned.
#[verifier::external_body]
pub(crate) fn pop_char(s: &mut String) -> (res: Option<char>)
    ensures
        old(s)@.len() == 0 ==> res is None && final(s)@ == old(s)@,
        old(s)@.len() > 0 ==> res == Some(old(s)@.last()) && final(s)@ == old(s)@.drop_last(),
{
    s.pop()
}

/// What std `str::to_lowercase` returns for a string (full Unicode mapping).
pub uninterp spec fn unicode_lowercase(s: Seq<char>) -> Seq<char>;

/// What std `str::to_uppercase` returns for a string (full Unicode mapping).
pub uninterp spec fn unicode_uppercase(s: Seq<char>) -> Seq<char>;

/// Whether every character is ASCII.
pub open spec fn all_ascii(s: Seq<char>) -> bool {
    forall|i: int| 0 <= i < s.len() ==> (#[trigger] s[i] as u32) < 128
}

/// The ASCII lowercase of a character (others unchanged).
pub open spec fn ascii_lower(c: char) -> char {
    if 'A' <= c && c <= 'Z' {
        ((c as u32) + 32) as char
    } else {
        c
    }
}

/// The ASCII uppercase of a character (others unchanged).
pub open spec fn ascii_upper(c: char) -> char {
    if 'a' <= c && c <= 'z' {
        ((c as u32) - 32) as char
    } else {
        c
    }
}

/// Std `str::to_lowercase`. Trusted: the result is the Unicode lowercase
/// mapping of `s`, a function of `s` alone; on ASCII text it maps `A`-`Z`
/// to `a`-`z` character by character and keeps the rest.
#[verifier::external_body]
pub(crate) fn to_lowercase(s: &str) -> (res: String)
    ensures
        res@ == unicode_lowercase(s@),
        all_ascii(s@) ==> res@ == s@.map_values(|c: char| ascii_lower(c)),
{
    s.to_lowercase()
}

/// Std `str::to_uppercase`. Trusted: the result is the Unicode uppercase
/// mapping of `s`, a function of `s` alone; on ASCII text it maps `a`-`z`
/// to `A`-`Z` character by character and keeps the rest.
#[verifier::external_body]
pub(crate) fn to_uppercase(s: &str) -> (res: String)
    ensures
        res@ == unicode_uppercase(s@),
        all_ascii(s@) ==> res@ == s@.map_values(|c: char| ascii_upper(c)),
{
    s.to_uppercase()
}

/// Std `String::from_utf8`. Trusted, from its documentation: the bytes are
/// accepted exactly when they are valid UTF-8, and then the string holds
/// the characters they encode. The error text is left unstated.
#[verifier::external_body]
pub(crate) fn utf8_decode(bytes: Vec<u8>) -> (res: Result<String, String>)
    ensures
        res is Ok <==> vstd::utf8::valid_utf8(bytes@),
        res matches Ok(s) ==> s@ == vstd::utf8::decode_utf8(bytes@),
{
    String::from_utf8(bytes).map_err(|e| e.to_string())
}

// ── white space ───────────────────────────────────────────────────────────

/// A character with the Unicode `White_Space` property, as std
/// `char::is_whitespace` tests it.
pub open spec fn is_white_space(c: char) -> bool {
    ||| ('\u{9}' <= c && c <= '\u{d}')
    ||| c == ' '
    ||| c == '\u{85}'
    ||| c == '\u{a0}'
    ||| c == '\u{1680}'
    ||| ('\u{2000}' <= c && c <= '\u{200a}')
    ||| c == '\u{2028}'
    ||| c == '\u{2029}'
    ||| c == '\u{202f}'
    ||| c == '\u{205f}'
    ||| c == '\u{3000}'
}

/// `s` without its leading white space.
pub open spec fn trim_start(s: Seq<char>) -> Seq<char>
    decreases s.len(),
{
    if s.len() > 0 && is_white_space(s[0]) {
        trim_start(s.drop_first())
    } else {
        s
    }
}

/// `s` without its trailing white space.
pub open spec fn trim_end(s: Seq<char>) -> Seq<char>
    decreases s.len(),
{
    if s.len() > 0 && is_white_space(s.last()) {
        trim_end(s.drop_last())
    } else {
        s
    }
}

/// `s` without white space at either end (std `str::trim`).
pub open spec fn trimmed(s: Seq<char>) -> Seq<char> {
    trim_end(trim_start(s))
}

fn white_space(c: char) -> (res: bool)
    ensures
        res == is_white_space(c),
{
    ('\u{9}' <= c && c <= '\u{d}') || c == ' ' || c == '\u{85}' || c == '\u{a0}' || c == '\u{1680}'
        || ('\u{2000}' <= c && c <= '\u{200a}') || c == '\u{2028}' || c == '\u{2029}' || c
        == '\u{202f}' || c == '\u{205f}' || c == '\u{3000}'
}

/// `s` with the white space at both ends removed.
pub fn trim(s: &str) -> (res: String)
    ensures
        res@ == trimmed(s@),
{
    let cs = chars_of(s);
    let n = cs.len();
    let mut a: usize = 0;
    proof {
        assert(s@.skip(0) =~= s@);
    }
    while a < n && white_space(cs[a])
        invariant
            0 <= a <= n,
            n == cs@.len(),
            cs@ == s@,
            trim_start(s@) == trim_start(s@.skip(a as int)),
        decreases n - a,
    {
        proof {
            assert(s@.skip(a as int).drop_first() =~= s@.skip(a + 1));
        }
        a = a + 1;
    }
    let ghost t = s@.skip(a as int);
    proof {
        assert(trim_start(t) == t);
    }
    let mut b: usize = n;
    proof {
        assert(t.take(n - a) =~= t);
    }
    while b > a && white_space(cs[b - 1])
        invariant
            0 <= a <= b <= n,
            n == cs@.len(),
            cs@ == s@,
            t == s@.skip(a as int),
            trim_end(t) == trim_end(t.take(b - a)),
        decreases b,
    {
        proof {
            assert(t.take(b - a).drop_last() =~= t.take(b - a - 1));
            assert(t.take(b - a).last() == cs@[b - 1]);
        }
        b = b - 1;
    }
    proof {
        assert(t.take(b - a) =~= cs@.subrange(a as int, b as int));
    }
    string_from_chars(cs.as_slice(), a, b)
}

// ── searching ─────────────────────────────────────────────────────────────

/// The index of the first `c` in `s`, or -1.
pub open spec fn first_index_of(s: Seq<char>, c: char) -> int
    decreases s.len(),
{
    if s.len() == 0 {
        -1
    } else if s[0] == c {
        0
    } else {
        let r = first_index_of(s.drop_first(), c);
        if r < 0 {
            -1
        } else {
            r + 1
        }
    }
}

/// `first_index_of` finds the first occurrence, if any.
pub proof fn lemma_first_index_of(s: Seq<char>, c: char)
    ensures
        -1 <= first_index_of(s, c) < s.len(),
        first_index_of(s, c) >= 0 ==> s[first_index_of(s, c)] == c,
        forall|j: int|
            0 <= j < s.len() && (first_index_of(s, c) < 0 || j < first_index_of(s, c)) ==> s[j] != c,
    decreases s.len(),
{
    if s.len() > 0 && s[0] != c {
        let t = s.drop_first();
        lemma_first_index_of(t, c);
        assert forall|j: int|
            0 <= j < s.len() && (first_index_of(s, c) < 0 || j < first_index_of(s, c)) implies s[j]
                != c by {
            if j > 0 {
                assert(s[j] == t[j - 1]);
            }
        }
    }
}

/// When `s[k] == c` and no earlier character is `c`, `k` is the first index.
pub proof fn lemma_first_index_at(s: Seq<char>, c: char, k: int)
    requires
        0 <= k < s.len(),
        s[k] == c,
        forall|j: int| 0 <= j < k ==> s[j] != c,
    ensures
        first_index_of(s, c) == k,
{
    lemma_first_index_of(s, c);
}

/// The index of the first `c` in `cs[from..]`, if any.
pub fn find_char(cs: &[char], from: usize, c: char) -> (res: Option<usize>)
    requires
        from <= cs@.len(),
    ensures
        res matches Some(k) ==> from <= k < cs@.len() && cs@[k as int] == c && forall|j: int|
            from <= j < k ==> cs@[j] != c,
        res is None ==> forall|j: int| from <= j < cs@.len() ==> cs@[j] != c,
{
    let mut i = from;
    while i < cs.len()
        invariant
            from <= i <= cs@.len(),
            forall|j: int| from <= j < i ==> cs@[j] != c,
        decreases cs@.len() - i,
    {
        if cs[i] == c {
            return Some(i);
        }
        i = i + 1;
    }
    None
}

/// The lines of a text, split at each newline; a final newline does not
/// start another line (std `str::lines`, up to a `\r` before the newline,
/// which every reader here trims away).
pub open spec fn split_lines(s: Seq<char>) -> Seq<Seq<char>>
    decreases s.len(),
{
    let k = first_index_of(s, '\n');
    if k < 0 {
        if s.len() == 0 {
            Seq::empty()
        } else {
            seq![s]
        }
    } else {
        proof {
            lemma_first_index_of(s, '\n');
        }
        seq![s.take(k)] + split_lines(s.skip(k + 1))
    }
}

/// The views of a sequence of strings.
pub open spec fn strings_view(v: Seq<String>) -> Seq<Seq<char>> {
    v.map_values(|x: String| x@)
}

/// The lines of `s` (see [`split_lines`]).
pub fn lines(s: &str) -> (res: Vec<String>)
    ensures
        strings_view(res@) == split_lines(s@),
{
    let cs = chars_of(s);
    let n = cs.len();
    let mut out: Vec<String> = Vec::new();
    let mut start: usize = 0;
    let ghost t = s@;
    proof {
        assert(t.skip(0) =~= t);
        assert(strings_view(out@) =~= Seq::<Seq<char>>::empty());
    }
    while start < n
        invariant
            0 <= start <= n,
            n == cs@.len(),
            cs@ == t,
            t == s@,
            split_lines(t) == strings_view(out@) + split_lines(t.skip(start as int)),
        decreases n - start,
    {
        let ghost rest = t.skip(start as int);
        let end = match find_char(cs.as_slice(), start, '\n') {
            Some(k) => k,
            None => n,
        };
        let line = string_from_chars(cs.as_slice(), start, end);
        proof {
            lemma_first_index_of(rest, '\n');
            if end < n {
                lemma_first_index_at(rest, '\n', end - start);
                assert(rest.take(end - start) =~= line@);
                assert(rest.skip(end - start + 1) =~= t.skip(end + 1));
            } else {
                assert(first_index_of(rest, '\n') < 0) by {
                    if first_index_of(rest, '\n') >= 0 {
                        assert(rest[first_index_of(rest, '\n')] == '\n');
                        assert(cs@[start + first_index_of(rest, '\n')] == '\n');
                    }
                }
                assert(rest =~= line@);
                assert(t.skip(n as int) =~= Seq::<char>::empty());
            }
        }
        let ghost before = out@;
        out.push(line);
        let next: usize = if end < n { end + 1 } else { n };
        proof {
            assert(strings_view(out@) =~= strings_view(before).push(line@));
            assert(split_lines(rest) =~= seq![line@] + split_lines(t.skip(next as int)));
            assert(strings_view(out@) + split_lines(t.skip(next as int)) =~= strings_view(before)
                + split_lines(rest));
        }
        start = next;
    }
    proof {
        assert(t.skip(n as int) =~= Seq::<char>::empty());
        assert(strings_view(out@) + Seq::<Seq<char>>::empty() =~= strings_view(out@));
    }
    out
}

/// The number of characters before the first white space of `s`.
pub open spec fn word_len(s: Seq<char>) -> nat
    decreases s.len(),
{
    if s.len() == 0 || is_white_space(s[0]) {
        0
    } else {
        1 + word_len(s.drop_first())
    }
}

/// The first run of characters that are not white space, if any (std
/// `split_whitespace().next()`).
pub open spec fn first_word(s: Seq<char>) -> Option<Seq<char>> {
    let t = trim_start(s);
    if t.len() == 0 {
        None
    } else {
        Some(t.take(word_len(t) as int))
    }
}

/// The first word of `s`, if it has one.
pub fn first_word_of(s: &str) -> (res: Option<String>)
    ensures
        match first_word(s@) {
            Some(w) => res matches Some(x) && x@ == w,
            None => res is None,
        },
{
    let cs = chars_of(s);
    let n = cs.len();
    let mut a: usize = 0;
    proof {
        assert(s@.skip(0) =~= s@);
    }
    while a < n && white_space(cs[a])
        invariant
            0 <= a <= n,
            n == cs@.len(),
            cs@ == s@,
            trim_start(s@) == trim_start(s@.skip(a as int)),
        decreases n - a,
    {
        proof {
            assert(s@.skip(a as int).drop_first() =~= s@.skip(a + 1));
        }
        a = a + 1;
    }
    let ghost t = s@.skip(a as int);
    proof {
        assert(trim_start(t) == t);
    }
    if a == n {
        proof {
            assert(t.len() == 0);
        }
        return None;
    }
    let mut b: usize = a;
    proof {
        assert(t.skip(0) =~= t);
    }
    while b < n && !white_space(cs[b])
        invariant
            a <= b <= n,
            n == cs@.len(),
            cs@ == s@,
            t == s@.skip(a as int),
            word_len(t) == (b - a) + word_len(t.skip(b - a)),
        decreases n - b,
    {
        proof {
            assert(t.skip(b - a).drop_first() =~= t.skip(b - a + 1));
        }
        b = b + 1;
    }
    proof {
        assert(word_len(t.skip(b - a)) == 0);
        assert(t.take(b - a) =~= cs@.subrange(a as int, b as int));
    }
    Some(string_from_chars(cs.as_slice(), a, b))
}

/// The words of `s`, `cur` being the part of a word read so far: the runs
/// of characters that are not white space, in order.
pub open spec fn words_after(s: Seq<char>, cur: Seq<char>) -> Seq<Seq<char>>
    decreases s.len(),
{
    let done: Seq<Seq<char>> = if cur.len() == 0 { Seq::empty() } else { seq![cur] };
    if s.len() == 0 {
        done
    } else if is_white_space(s[0]) {
        done + words_after(s.drop_first(), Seq::empty())
    } else {
        words_after(s.drop_first(), cur.push(s[0]))
    }
}

/// The words of `s` (std `split_whitespace`).
pub open spec fn words(s: Seq<char>) -> Seq<Seq<char>> {
    words_after(s, Seq::empty())
}

/// The words of `s`, in order.
pub fn split_words(s: &str) -> (res: Vec<String>)
    ensures
        strings_view(res@) == words(s@),
{
    let cs = chars_of(s);
    let n = cs.len();
    let mut out: Vec<String> = Vec::new();
    let mut cur = String::new();
    let mut i: usize = 0;
    proof {
        assert(s@.skip(0) =~= s@);
        assert(strings_view(out@) =~= Seq::<Seq<char>>::empty());
        assert(Seq::<Seq<char>>::empty() + words_after(s@, cur@) =~= words_after(s@, cur@));
    }
    while i < n
        invariant
            0 <= i <= n,
            n == cs@.len(),
            cs@ == s@,
            words(s@) == strings_view(out@) + words_after(s@.skip(i as int), cur@),
        decreases n - i,
    {
        let ghost rest = s@.skip(i as int);
        let ghost before = out@;
        let ghost c0 = cur@;
        let c = cs[i];
        proof {
            assert(rest[0] == c);
            assert(rest.drop_first() =~= s@.skip(i + 1));
        }
        if white_space(c) {
            proof {
                let done: Seq<Seq<char>> = if c0.len() == 0 { Seq::empty() } else { seq![c0] };
                assert(words_after(rest, c0) == done + words_after(rest.drop_first(), Seq::empty()));
            }
            if !cur.as_str().is_empty() {
                let w = cur;
                cur = String::new();
                out.push(w);
                proof {
                    assert(strings_view(out@) =~= strings_view(before).push(c0));
                    assert(strings_view(out@) + words_after(s@.skip(i + 1), cur@) =~= strings_view(before)
                        + (seq![c0] + words_after(s@.skip(i + 1), Seq::empty())));
                }
            } else {
                proof {
                    assert(c0 =~= Seq::<char>::empty());
                    assert(Seq::<Seq<char>>::empty() + words_after(s@.skip(i + 1), Seq::empty())
                        =~= words_after(s@.skip(i + 1), Seq::empty()));
                }
            }
        } else {
            push_char(&mut cur, c);
            proof {
                assert(words_after(rest, c0) == words_after(rest.drop_first(), c0.push(c)));
            }
        }
        i = i + 1;
    }
    proof {
        assert(s@.skip(n as int) =~= Seq::<char>::empty());
    }
    if !cur.as_str().is_empty() {
        let ghost before = out@;
        let ghost c0 = cur@;
        out.push(cur);
        proof {
            assert(strings_view(out@) =~= strings_view(before).push(c0));
            assert(strings_view(before) + seq![c0] =~= strings_view(out@));
        }
    } else {
        proof {
            assert(strings_view(out@) + Seq::<Seq<char>>::empty() =~= strings_view(out@));
        }
    }
    out
}

/// The number of words of `s` (std `split_whitespace().count()`).
pub fn word_count(s: &str) -> (res: usize)
    ensures
        res == words(s@).len(),
{
    let ws = split_words(s);
    assert(strings_view(ws@).len() == ws@.len());
    ws.len()
}

/// The parts with `sep` between each two (std `join`).
pub open spec fn joined(parts: Seq<Seq<char>>, sep: Seq<char>) -> Seq<char>
    decreases parts.len(),
{
    if parts.len() == 0 {
        Seq::empty()
    } else if parts.len() == 1 {
        parts[0]
    } else {
        joined(parts.drop_last(), sep) + sep + parts.last()
    }
}

/// Appends the parts to `s` with `sep` between each two.
pub fn push_joined(s: &mut String, parts: &[String], sep: &str)
    ensures
        final(s)@ == old(s)@ + joined(parts@.map_values(|p: String| p@), sep@),
{
    let ghost start = s@;
    let ghost pv = parts@.map_values(|p: String| p@);
    let mut i: usize = 0;
    proof {
        assert(pv.take(0) =~= Seq::<Seq<char>>::empty());
        assert(start + joined(pv.take(0), sep@) =~= start);
    }
    while i < parts.len()
        invariant
            0 <= i <= parts@.len(),
            pv == parts@.map_values(|p: String| p@),
            s@ == start + joined(pv.take(i as int), sep@),
        decreases parts@.len() - i,
    {
        proof {
            assert(pv.take(i + 1).drop_last() =~= pv.take(i as int));
            assert(pv.take(i + 1).last() == parts@[i as int]@);
        }
        if i > 0 {
            push_str(s, sep);
        } else {
            proof {
                assert(pv.take(0) =~= Seq::<Seq<char>>::empty());
            }
        }
        push_str(s, parts[i].as_str());
        proof {
            if i == 0 {
                assert(pv.take(1).len() == 1);
                assert(s@ =~= start + joined(pv.take(1), sep@));
            } else {
                assert(s@ =~= start + joined(pv.take(i + 1), sep@));
            }
        }
        i = i + 1;
    }
    proof {
        assert(pv.take(parts@.len() as int) =~= pv);
    }
}

// ── splitting on separators ───────────────────────────────────────────────

/// The pieces of `s` between separators (any character of `seps`), the
/// current piece having started as `cur`; as `str::split` gives them,
/// empty pieces included.
pub open spec fn pieces_after(s: Seq<char>, cur: Seq<char>, seps: Seq<char>) -> Seq<Seq<char>>
    decreases s.len(),
{
    if s.len() == 0 {
        seq![cur]
    } else if seps.contains(s[0]) {
        seq![cur] + pieces_after(s.drop_first(), Seq::empty(), seps)
    } else {
        pieces_after(s.drop_first(), cur.push(s[0]), seps)
    }
}

/// The pieces of `s` between separators.
pub open spec fn split_any_spec(s: Seq<char>, seps: Seq<char>) -> Seq<Seq<char>> {
    pieces_after(s, Seq::empty(), seps)
}

fn is_sep(seps: &[char], c: char) -> (res: bool)
    ensures
        res == seps@.contains(c),
{
    let mut i: usize = 0;
    while i < seps.len()
        invariant
            0 <= i <= seps@.len(),
            forall|k: int| 0 <= k < i ==> seps@[k] != c,
        decreases seps@.len() - i,
    {
        if seps[i] == c {
            return true;
        }
        i = i + 1;
    }
    false
}

/// `s.split(seps)`: the pieces between separators, empty ones included.
pub fn split_any(s: &str, seps: &[char]) -> (res: Vec<String>)
    ensures
        strings_view(res@) == split_any_spec(s@, seps@),
{
    let cs = chars_of(s);
    let mut out: Vec<String> = Vec::new();
    let mut cur = String::new();
    let mut i: usize = 0;
    proof {
        assert(cs@.skip(0) =~= s@);
        assert(strings_view(out@) =~= Seq::<Seq<char>>::empty());
        assert(cur@ =~= Seq::<char>::empty());
        assert(strings_view(out@) + pieces_after(cs@.skip(0), cur@, seps@) =~= pieces_after(s@, Seq::empty(), seps@));
    }
    while i < cs.len()
        invariant
            0 <= i <= cs@.len(),
            cs@ == s@,
            strings_view(out@) + pieces_after(cs@.skip(i as int), cur@, seps@) == split_any_spec(s@, seps@),
        decreases cs@.len() - i,
    {
        let c = cs[i];
        proof {
            assert(cs@.skip(i as int)[0] == c);
            assert(cs@.skip(i as int).drop_first() =~= cs@.skip(i as int + 1));
        }
        if is_sep(seps, c) {
            let ghost before = out@;
            let ghost piece = cur@;
            let done = cur;
            out.push(done);
            cur = String::new();
            proof {
                assert(strings_view(out@) =~= strings_view(before).push(piece));
                assert(strings_view(out@) + pieces_after(cs@.skip(i as int + 1), cur@, seps@) =~= strings_view(before) + (
                seq![piece] + pieces_after(cs@.skip(i as int + 1), Seq::empty(), seps@)));
            }
        } else {
            push_char(&mut cur, c);
        }
        i = i + 1;
    }
    let ghost before = out@;
    let ghost piece = cur@;
    out.push(cur);
    proof {
        assert(cs@.skip(i as int) =~= Seq::<char>::empty());
        assert(strings_view(out@) =~= strings_view(before) + seq![piece]);
    }
    out
}

// ── conversions ───────────────────────────────────────────────────────────

/// The characters of a string slice, in order.
pub fn chars_of(s: &str) -> (res: Vec<char>)
    ensures
        res@ == s@,
{
    let mut out: Vec<char> = Vec::new();
    for c in it: s.chars()
        invariant
            out@ == it.seq().take(it.index() as int),
            it.seq() == s@,
    {
        out.push(c);
    }
    out
}

/// A `String` holding the characters `cs[from..to]`.
pub fn string_from_chars(cs: &[char], from: usize, to: usize) -> (res: String)
    requires
        from <= to <= cs@.len(),
    ensures
        res@ == cs@.subrange(from as int, to as int),
{
    let mut out = String::new();
    let mut i = from;
    while i < to
        invariant
            from <= i <= to <= cs@.len(),
            out@ == cs@.subrange(from as int, i as int),
        decreases to - i,
    {
        push_char(&mut out, cs[i]);
        i = i + 1;
        assert(out@ =~= cs@.subrange(from as int, i as int));
    }
    out
}

/// Owned copy of a string slice.
pub fn owned(s: &str) -> (res: String)
    ensures
        res@ == s@,
{
    s.to_owned()
}

/// Appends all characters of `t` to `s`.
pub fn push_str(s: &mut String, t: &str)
    ensures
        final(s)@ == old(s)@ + t@,
{
    let cs = chars_of(t);
    let ghost start = s@;
    let mut i: usize = 0;
    while i < cs.len()
        invariant
            0 <= i <= cs@.len(),
            cs@ == t@,
            s@ == start + cs@.take(i as int),
        decreases cs.len() - i,
    {
        push_char(s, cs[i]);
        i = i + 1;
        assert(s@ =~= start + cs@.take(i as int));
    }
    assert(cs@.take(i as int) =~= t@);
}

/// True when `s` starts with `prefix`.
pub open spec fn seq_starts_with(s: Seq<char>, prefix: Seq<char>) -> bool {
    prefix.len() <= s.len() && s.take(prefix.len() as int) == prefix
}

/// `s` without `prefix`, when `s` starts with it (std `str::strip_prefix`).
pub open spec fn seq_strip_prefix(s: Seq<char>, prefix: Seq<char>) -> Option<Seq<char>> {
    if seq_starts_with(s, prefix) {
        Some(s.skip(prefix.len() as int))
    } else {
        None
    }
}

/// Std `str::strip_prefix`, computed over characters.
pub fn strip_prefix(s: &str, prefix: &str) -> (res: Option<String>)
    ensures
        res matches Some(r) ==> seq_strip_prefix(s@, prefix@) == Some(r@),
        res is None ==> seq_strip_prefix(s@, prefix@) is None,
{
    let cs = chars_of(s);
    let ps = chars_of(prefix);
    if ps.len() > cs.len() {
        return None;
    }
    let mut i: usize = 0;
    while i < ps.len()
        invariant
            0 <= i <= ps@.len() <= cs@.len(),
            cs@ == s@,
            ps@ == prefix@,
            forall|j: int| 0 <= j < i ==> cs@[j] == ps@[j],
        decreases ps.len() - i,
    {
        if cs[i] != ps[i] {
            assert(s@.take(prefix@.len() as int)[i as int] != prefix@[i as int]);
            return None;
        }
        i = i + 1;
    }
    assert(s@.take(prefix@.len() as int) =~= prefix@);
    Some(string_from_chars(&cs, ps.len(), cs.len()))
}

/// True when two strings hold the same characters.
pub fn str_eq(a: &str, b: &str) -> (res: bool)
    ensures
        res == (a@ == b@),
{
    let x = owned(a);
    let y = owned(b);
    x == y
}

// ── hexadecimal ───────────────────────────────────────────────────────────

/// The lowercase hexadecimal digit for `d` (`d < 16`).
pub open spec fn hex_char(d: int) -> char {
    if d < 10 {
        (d + 48) as char
    } else {
        (d + 87) as char
    }
}

/// Lowercase hexadecimal digit of a nibble.
pub fn hex_digit(d: u8) -> (c: char)
    requires
        d < 16,
    ensures
        c == hex_char(d as int),
{
    if d < 10 {
        (d + 48) as char
    } else {
        (d + 87) as char
    }
}

/// Two lowercase hexadecimal digits per byte, high nibble first
/// (the rendering of `hex::encode`).
pub open spec fn hex_of(bytes: Seq<u8>) -> Seq<char> {
    Seq::new(
        (2 * bytes.len()) as nat,
        |j: int|
            if j % 2 == 0 {
                hex_char(bytes[j / 2] as int / 16)
            } else {
                hex_char(bytes[j / 2] as int % 16)
            },
    )
}

/// Appends the lowercase hexadecimal rendering of `bytes` to `s`.
pub fn push_hex(s: &mut String, bytes: &[u8])
    ensures
        final(s)@ == old(s)@ + hex_of(bytes@),
{
    let ghost start = s@;
    let mut i: usize = 0;
    while i < bytes.len()
        invariant
            0 <= i <= bytes@.len(),
            s@ == start + hex_of(bytes@.take(i as int)),
        decreases bytes.len() - i,
    {
        let b = bytes[i];
        push_char(s, hex_digit(b / 16));
        push_char(s, hex_digit(b % 16));
        i = i + 1;
        assert(s@ =~= start + hex_of(bytes@.take(i as int)));
    }
    assert(bytes@.take(i as int) =~= bytes@);
}

/// Lowercase hexadecimal rendering of `bytes` (`hex::encode`).
pub fn hex_encode(bytes: &[u8]) -> (res: String)
    ensures
        res@ == hex_of(bytes@),
{
    let mut s = String::new();
    push_hex(&mut s, bytes);
    assert(s@ =~= hex_of(bytes@));
    s
}

/// A hexadecimal digit, either case.
pub open spec fn is_hex_char(c: char) -> bool {
    ('0' <= c && c <= '9') || ('a' <= c && c <= 'f') || ('A' <= c && c <= 'F')
}

/// The value of a hexadecimal digit.
pub open spec fn hex_value(c: char) -> int {
    if '0' <= c && c <= '9' {
        c as int - 48
    } else if 'a' <= c && c <= 'f' {
        c as int - 87
    } else {
        c as int - 55
    }
}

/// The bytes a hexadecimal string stands for (`hex::decode`): `None` for an
/// odd length or a character that is not a hexadecimal digit.
pub open spec fn hex_decoded(s: Seq<char>) -> Option<Seq<u8>> {
    if s.len() % 2 == 0 && forall|i: int| 0 <= i < s.len() ==> is_hex_char(#[trigger] s[i]) {
        Some(
            Seq::new(
                (s.len() / 2) as nat,
                |i: int| (hex_value(s[2 * i]) * 16 + hex_value(s[2 * i + 1])) as u8,
            ),
        )
    } else {
        None
    }
}

/// `hex::decode`: the bytes of a string of hexadecimal digit pairs, either
/// case. Trusted: it succeeds exactly when [`hex_decoded`] gives bytes, and
/// gives those bytes (an odd length or a character that is not a hex digit
/// fails). The text of the error (the crate's rendering of `FromHexError`)
/// is not stated.
#[verifier::external_body]
pub(crate) fn hex_decode(s: &str) -> (res: Result<Vec<u8>, String>)
    ensures
        match hex_decoded(s@) {
            Some(b) => res matches Ok(v) && v@ == b,
            None => res is Err,
        },
{
    hex::decode(s).map_err(|e| e.to_string())
}

/// Decoding the rendering of a byte string gives the byte string back.
pub proof fn lemma_hex_roundtrip(bytes: Seq<u8>)
    ensures
        hex_decoded(hex_of(bytes)) == Some(bytes),
{
    let h = hex_of(bytes);
    assert forall|i: int| 0 <= i < h.len() implies is_hex_char(#[trigger] h[i]) by {
        let b = bytes[i / 2] as int;
        assert(0 <= b / 16 < 16 && 0 <= b % 16 < 16);
    }
    assert forall|i: int| 0 <= i < bytes.len() implies (hex_value(h[2 * i]) * 16 + hex_value(
        h[2 * i + 1],
    )) as u8 == bytes[i] by {
        let b = bytes[i] as int;
        assert((2 * i) / 2 == i);
        assert((2 * i + 1) / 2 == i);
        assert((2 * i) % 2 == 0);
        assert((2 * i + 1) % 2 == 1);
        assert(b / 16 * 16 + b % 16 == b);
    }
    assert(hex_decoded(h).unwrap() =~= bytes);
}

} // verus!
