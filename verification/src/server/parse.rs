//! Taking texts apart: pieces between separators, words, numbers, and
//! wildcard patterns.

use vstd::prelude::*;

verus! {

/// The models of a list of texts held as characters.
pub open spec fn texts(v: Seq<Vec<char>>) -> Seq<Seq<char>> {
    Seq::new(v.len(), |i: int| v[i]@)
}

/// How many characters come before the first separator.
pub open spec fn until_char(s: Seq<char>, sep: char) -> nat
    decreases s.len(),
{
    if s.len() == 0 || s[0] == sep {
        0
    } else {
        1 + until_char(s.drop_first(), sep)
    }
}

/// The pieces of a text between separators; always one more than separators.
pub open spec fn split(s: Seq<char>, sep: char) -> Seq<Seq<char>>
    decreases s.len(),
{
    let n = until_char(s, sep) as int;
    if n >= s.len() {
        seq![s]
    } else {
        seq![s.take(n)] + split(s.skip(n + 1), sep)
    }
}

proof fn lemma_until_char(s: Seq<char>, sep: char, n: int)
    requires
        0 <= n <= s.len(),
        forall|i: int| 0 <= i < n ==> s[i] != sep,
        n == s.len() || s[n] == sep,
    ensures
        until_char(s, sep) == n,
    decreases n,
{
    if n > 0 {
        let rest = s.drop_first();
        assert forall|i: int| 0 <= i < n - 1 implies rest[i] != sep by {
            assert(rest[i] == s[i + 1]);
        }
        lemma_until_char(rest, sep, n - 1);
    }
}

proof fn lemma_texts_push(v: Seq<Vec<char>>, piece: Vec<char>)
    ensures
        texts(v.push(piece)) == texts(v).push(piece@),
{
    assert(texts(v.push(piece)) =~= texts(v).push(piece@));
}

/// Copies part of a text.
pub fn copy_chars(s: &Vec<char>, from: usize, to: usize) -> (r: Vec<char>)
    requires
        from <= to <= s@.len(),
    ensures
        r@ == s@.subrange(from as int, to as int),
{
    let mut r: Vec<char> = Vec::with_capacity(to - from);
    for i in from..to
        invariant
            from <= to <= s@.len(),
            r@ == s@.subrange(from as int, i as int),
    {
        r.push(s[i]);
        assert(r@ =~= s@.subrange(from as int, i + 1));
    }
    r
}

/// Splits a text at a separator.
pub fn split_chars(s: &Vec<char>, sep: char) -> (r: Vec<Vec<char>>)
    ensures
        texts(r@) == split(s@, sep),
{
    let len: usize = s.len();
    let mut out: Vec<Vec<char>> = Vec::new();
    let mut at: usize = 0;
    let ghost goal = split(s@, sep);
    proof {
        assert(s@.skip(0) =~= s@);
        assert(texts(out@) + split(s@, sep) =~= split(s@, sep));
    }
    loop
        invariant
            len == s@.len(),
            at <= len,
            goal == split(s@, sep),
            texts(out@) + split(s@.skip(at as int), sep) == goal,
        decreases len - at,
    {
        let mut j: usize = at;
        while j < len && s[j] != sep
            invariant
                len == s@.len(),
                at <= j <= len,
                forall|i: int| at <= i < j ==> s@[i] != sep,
            decreases len - j,
        {
            j = j + 1;
        }
        let ghost rest = s@.skip(at as int);
        let piece = copy_chars(s, at, j);
        proof {
            lemma_until_char(rest, sep, j - at);
            lemma_texts_push(out@, piece);
        }
        if j == len {
            assert(piece@ =~= rest);
            assert(texts(out@).push(piece@) =~= texts(out@) + seq![rest]);
            out.push(piece);
            return out;
        }
        proof {
            assert(piece@ =~= rest.take(j - at));
            assert(rest.skip(j - at + 1) =~= s@.skip(j + 1));
            assert(texts(out@).push(piece@) + split(s@.skip(j + 1), sep) =~= texts(out@) + (seq![
                rest.take(j - at),
            ] + split(s@.skip(j + 1), sep)));
        }
        out.push(piece);
        at = j + 1;
    }
}

/// Whether a character is white space.
pub open spec fn is_space(c: char) -> bool {
    ||| '\u{9}' <= c <= '\u{D}'
    ||| c == ' '
    ||| c == '\u{85}'
    ||| c == '\u{A0}'
    ||| c == '\u{1680}'
    ||| '\u{2000}' <= c <= '\u{200A}'
    ||| c == '\u{2028}'
    ||| c == '\u{2029}'
    ||| c == '\u{202F}'
    ||| c == '\u{205F}'
    ||| c == '\u{3000}'
}

fn space(c: char) -> (r: bool)
    ensures
        r == is_space(c),
{
    ('\u{9}' <= c && c <= '\u{D}') || c == ' ' || c == '\u{85}' || c == '\u{A0}' || c == '\u{1680}'
        || ('\u{2000}' <= c && c <= '\u{200A}') || c == '\u{2028}' || c == '\u{2029}' || c
        == '\u{202F}' || c == '\u{205F}' || c == '\u{3000}'
}

/// How many characters come before the first white space.
pub open spec fn until_space(s: Seq<char>) -> nat
    decreases s.len(),
{
    if s.len() == 0 || is_space(s[0]) {
        0
    } else {
        1 + until_space(s.drop_first())
    }
}

/// The words of a text: runs of characters that are not white space.
pub open spec fn words(s: Seq<char>) -> Seq<Seq<char>>
    decreases s.len(),
{
    if s.len() == 0 {
        Seq::empty()
    } else if is_space(s[0]) {
        words(s.drop_first())
    } else {
        let n = until_space(s) as int;
        if n <= 0 || n > s.len() {
            Seq::empty()
        } else {
            seq![s.take(n)] + words(s.skip(n))
        }
    }
}

proof fn lemma_until_space(s: Seq<char>, n: int)
    requires
        0 <= n <= s.len(),
        forall|i: int| 0 <= i < n ==> !is_space(s[i]),
        n == s.len() || is_space(s[n]),
    ensures
        until_space(s) == n,
    decreases n,
{
    if n > 0 {
        let rest = s.drop_first();
        assert forall|i: int| 0 <= i < n - 1 implies !is_space(rest[i]) by {
            assert(rest[i] == s[i + 1]);
        }
        lemma_until_space(rest, n - 1);
    }
}

/// Finds the words of a text.
pub fn find_words(s: &Vec<char>) -> (r: Vec<Vec<char>>)
    ensures
        texts(r@) == words(s@),
{
    let len: usize = s.len();
    let mut out: Vec<Vec<char>> = Vec::new();
    let mut at: usize = 0;
    let ghost goal = words(s@);
    proof {
        assert(s@.skip(0) =~= s@);
        assert(texts(out@) + words(s@) =~= words(s@));
    }
    while at < len
        invariant
            len == s@.len(),
            at <= len,
            texts(out@) + words(s@.skip(at as int)) == goal,
        decreases len - at,
    {
        let ghost rest = s@.skip(at as int);
        assert(rest[0] == s@[at as int]);
        assert(rest.drop_first() =~= s@.skip(at + 1));
        if space(s[at]) {
            at = at + 1;
        } else {
            let mut j: usize = at;
            while j < len && !space(s[j])
                invariant
                    len == s@.len(),
                    at <= j <= len,
                    forall|i: int| at <= i < j ==> !is_space(s@[i]),
                decreases len - j,
            {
                j = j + 1;
            }
            let piece = copy_chars(s, at, j);
            proof {
                lemma_until_space(rest, j - at);
                lemma_texts_push(out@, piece);
                if j == at {
                    assert(is_space(s@[at as int]));
                }
                assert(piece@ =~= rest.take(j - at));
                assert(rest.skip(j - at) =~= s@.skip(j as int));
                assert(texts(out@).push(piece@) + words(s@.skip(j as int)) =~= texts(out@) + (seq![
                    rest.take(j - at),
                ] + words(s@.skip(j as int))));
            }
            out.push(piece);
            at = j;
        }
    }
    assert(s@.skip(len as int) =~= Seq::empty());
    assert(texts(out@) + Seq::empty() =~= texts(out@));
    out
}

/// Whether every character is a decimal digit.
pub open spec fn all_digits(s: Seq<char>) -> bool {
    forall|i: int| 0 <= i < s.len() ==> '0' <= #[trigger] s[i] <= '9'
}

/// The number that decimal digits spell.
pub open spec fn digits_value(s: Seq<char>) -> nat
    decreases s.len(),
{
    if s.len() == 0 {
        0
    } else {
        digits_value(s.drop_last()) * 10 + (s.last() as nat - '0' as nat) as nat
    }
}

/// The number a text spells in decimal digits, perhaps after a plus sign, if it
/// is at most a limit.
pub open spec fn number_in(s: Seq<char>, limit: u32) -> Option<u32> {
    let digits = if s.len() > 0 && s[0] == '+' {
        s.drop_first()
    } else {
        s
    };
    if digits.len() > 0 && all_digits(digits) && digits_value(digits) <= limit {
        Some(digits_value(digits) as u32)
    } else {
        None
    }
}

/// Reads a decimal number up to a limit.
pub fn parse_number(s: &Vec<char>, limit: u32) -> (r: Option<u32>)
    requires
        limit < 1_000_000,
    ensures
        r == number_in(s@, limit),
{
    let len: usize = s.len();
    let start: usize = if len > 0 && s[0] == '+' {
        1
    } else {
        0
    };
    let ghost digits = if s@.len() > 0 && s@[0] == '+' {
        s@.drop_first()
    } else {
        s@
    };
    assert(digits =~= s@.skip(start as int));
    if start >= len {
        return None;
    }
    let mut value: u32 = 0;
    for i in start..len
        invariant
            limit < 1_000_000,
            start <= len,
            len == s@.len(),
            digits == s@.skip(start as int),
            forall|j: int| 0 <= j < i - start ==> '0' <= #[trigger] digits[j] <= '9',
            value <= 1_000_000,
            value < 1_000_000 ==> value == digits_value(digits.take(i - start)),
            value == 1_000_000 ==> digits_value(digits.take(i - start)) >= 1_000_000,
            number_in(s@, limit) == (if digits.len() > 0 && all_digits(digits) && digits_value(
                digits,
            ) <= limit {
                Some(digits_value(digits) as u32)
            } else {
                None
            }),
    {
        let c: char = s[i];
        assert(digits[i - start] == c);
        if c < '0' || c > '9' {
            assert(!all_digits(digits));
            return None;
        }
        let d: u32 = digit_of(c);
        assert(digits.take(i + 1 - start).drop_last() =~= digits.take(i - start));
        value =
        if value >= 100_000 {
            1_000_000
        } else {
            value * 10 + d
        };
    }
    assert(digits.take(len - start) =~= digits);
    assert(all_digits(digits));
    if value <= limit {
        Some(value)
    } else {
        None
    }
}

fn digit_of(c: char) -> (r: u32)
    requires
        '0' <= c <= '9',
    ensures
        r == c as nat - '0' as nat,
        r < 10,
{
    c as u32 - '0' as u32
}

/// Whether a text holds another.
pub open spec fn contains_text(s: Seq<char>, t: Seq<char>) -> bool {
    exists|i: int| 0 <= i && i + t.len() <= s.len() && #[trigger] s.subrange(i, i + t.len()) == t
}

/// Whether a text holds another.
pub fn holds_text(s: &Vec<char>, t: &Vec<char>) -> (r: bool)
    ensures
        r == contains_text(s@, t@),
{
    let len: usize = s.len();
    let n: usize = t.len();
    if n == 0 {
        assert(s@.subrange(0, (0 + t@.len()) as int) =~= t@);
        return true;
    }
    if n > len {
        return false;
    }
    for i in 0..len - (n - 1)
        invariant
            len == s@.len(),
            n == t@.len(),
            0 < n <= len,
            forall|j: int| 0 <= j < i ==> #[trigger] s@.subrange(j, j + n) != t@,
    {
        let mut k: usize = 0;
        while k < n && s[i + k] == t[k]
            invariant
                len == s@.len(),
                n == t@.len(),
                i + n <= len,
                k <= n,
                forall|j: int| 0 <= j < k ==> s@[i + j] == t@[j],
            decreases n - k,
        {
            k = k + 1;
        }
        if k == n {
            assert(s@.subrange(i as int, i + n) =~= t@);
            return true;
        }
        assert(s@.subrange(i as int, i + n)[k as int] != t@[k as int]);
    }
    assert forall|i: int| 0 <= i && i + t@.len() <= s@.len() implies #[trigger] s@.subrange(
        i,
        i + t@.len(),
    ) != t@ by {
        assert(s@.subrange(i, i + n) != t@);
    }
    false
}

/// Whether a text from a place on matches a pattern from a place on: `*` stands
/// for any characters, `?` for any one, and every other character for itself.
pub open spec fn matches_from(p: Seq<char>, t: Seq<char>, i: int, j: int) -> bool
    decreases (p.len() - i) + (t.len() - j),
    when 0 <= i <= p.len() && 0 <= j <= t.len()
{
    if i == p.len() {
        j == t.len()
    } else if p[i] == '*' {
        matches_from(p, t, i + 1, j) || (j < t.len() && matches_from(p, t, i, j + 1))
    } else {
        j < t.len() && (p[i] == '?' || p[i] == t[j]) && matches_from(p, t, i + 1, j + 1)
    }
}

/// Whether a text matches a pattern.
pub open spec fn matches_pattern(p: Seq<char>, t: Seq<char>) -> bool {
    matches_from(p, t, 0, 0)
}

proof fn lemma_star_absorbs(p: Seq<char>, t: Seq<char>, i: int, j: int, k: int)
    requires
        0 <= i < p.len(),
        p[i] == '*',
        0 <= j <= k <= t.len(),
        matches_from(p, t, i, k),
    ensures
        matches_from(p, t, i, j),
    decreases k - j,
{
    if j < k {
        lemma_star_absorbs(p, t, i, j + 1, k);
    }
}

proof fn lemma_star_somewhere(p: Seq<char>, t: Seq<char>, i: int, j: int) -> (k: int)
    requires
        0 <= i < p.len(),
        p[i] == '*',
        0 <= j <= t.len(),
        matches_from(p, t, i, j),
    ensures
        j <= k <= t.len(),
        matches_from(p, t, i + 1, k),
    decreases t.len() - j,
{
    if matches_from(p, t, i + 1, j) {
        j
    } else {
        lemma_star_somewhere(p, t, i, j + 1)
    }
}

proof fn lemma_segment(p: Seq<char>, t: Seq<char>, a: int, b: int, k: int)
    requires
        0 <= a <= b <= p.len(),
        0 <= k <= t.len(),
        forall|i: int| a <= i < b ==> p[i] != '*',
        matches_from(p, t, a, k),
    ensures
        k + (b - a) <= t.len(),
        matches_from(p, t, b, k + (b - a)),
    decreases b - a,
{
    if a < b {
        lemma_segment(p, t, a + 1, b, k + 1);
    }
}

/// Whether the text matches with the last star standing for more than it does.
spec fn star_may_take_more(p: Seq<char>, t: Seq<char>, star: int, taken: int) -> bool {
    exists|k: int| taken < k <= t.len() && #[trigger] matches_from(p, t, star + 1, k)
}

proof fn lemma_only_stars(p: Seq<char>, t: Seq<char>, i: int)
    requires
        0 <= i <= p.len(),
    ensures
        matches_from(p, t, i, t.len() as int) <==> forall|k: int| i <= k < p.len() ==> p[k] == '*',
    decreases p.len() - i,
{
    if i < p.len() {
        lemma_only_stars(p, t, i + 1);
        if p[i] == '*' {
            assert(matches_from(p, t, i, t.len() as int) == matches_from(
                p,
                t,
                i + 1,
                t.len() as int,
            ));
        }
    }
}

/// Whether a text matches a pattern: `*` stands for any characters, `?` for any
/// one. Where a star has been passed and the rest does not match, only the last
/// star is tried again with one character more.
pub fn match_pattern(p: &Vec<char>, t: &Vec<char>) -> (r: bool)
    ensures
        r == matches_pattern(p@, t@),
{
    let plen: usize = p.len();
    let tlen: usize = t.len();
    let mut pi: usize = 0;
    let mut ti: usize = 0;
    let mut starred: bool = false;
    let mut star_pi: usize = 0;
    let mut star_ti: usize = 0;
    let ghost goal = matches_pattern(p@, t@);
    while ti < tlen
        invariant
            plen == p@.len(),
            tlen == t@.len(),
            pi <= plen,
            ti <= tlen,
            goal == matches_pattern(p@, t@),
            goal == (matches_from(p@, t@, pi as int, ti as int) || (starred && star_may_take_more(
                p@,
                t@,
                star_pi as int,
                star_ti as int,
            ))),
            starred ==> star_pi < pi && p@[star_pi as int] == '*' && star_ti <= ti && ti - star_ti
                == pi - star_pi - 1 && forall|i: int| star_pi < i < pi ==> p@[i] != '*',
        decreases
                if starred {
                    tlen - star_ti
                } else {
                    tlen + 1
                },
                plen - pi,
    {
        if pi < plen && p[pi] == '*' {
            proof {
                if starred && star_may_take_more(p@, t@, star_pi as int, star_ti as int) {
                    let k = choose|k: int|
                        star_ti < k <= t@.len() && #[trigger] matches_from(p@, t@, star_pi + 1, k);
                    lemma_segment(p@, t@, star_pi + 1, pi as int, k);
                    lemma_star_absorbs(p@, t@, pi as int, ti as int, k + (pi - star_pi - 1));
                }
                if matches_from(p@, t@, pi as int, ti as int) {
                    let k = lemma_star_somewhere(p@, t@, pi as int, ti as int);
                    assert(k == ti || star_may_take_more(p@, t@, pi as int, ti as int));
                }
                if star_may_take_more(p@, t@, pi as int, ti as int) {
                    let k = choose|k: int|
                        ti < k <= t@.len() && #[trigger] matches_from(p@, t@, pi + 1, k);
                    assert(matches_from(p@, t@, pi as int, k));
                    lemma_star_absorbs(p@, t@, pi as int, ti as int, k);
                }
            }
            starred = true;
            star_pi = pi;
            star_ti = ti;
            pi = pi + 1;
        } else if pi < plen && (p[pi] == '?' || p[pi] == t[ti]) {
            pi = pi + 1;
            ti = ti + 1;
        } else if starred {
            proof {
                assert(!matches_from(p@, t@, pi as int, ti as int));
                if star_may_take_more(p@, t@, star_pi as int, star_ti as int) {
                    let k = choose|k: int|
                        star_ti < k <= t@.len() && #[trigger] matches_from(p@, t@, star_pi + 1, k);
                    assert(k == star_ti + 1 || star_may_take_more(
                        p@,
                        t@,
                        star_pi as int,
                        star_ti + 1,
                    ));
                }
                if star_may_take_more(p@, t@, star_pi as int, star_ti + 1) {
                    let k = choose|k: int|
                        star_ti + 1 < k <= t@.len() && #[trigger] matches_from(
                            p@,
                            t@,
                            star_pi + 1,
                            k,
                        );
                    assert(matches_from(p@, t@, star_pi + 1, k));
                }
                if matches_from(p@, t@, star_pi + 1, star_ti + 1) {
                    assert(star_may_take_more(p@, t@, star_pi as int, star_ti as int));
                }
            }
            pi = star_pi + 1;
            star_ti = star_ti + 1;
            ti = star_ti;
        } else {
            return false;
        }
    }
    proof {
        if starred && star_may_take_more(p@, t@, star_pi as int, star_ti as int) {
            let k = choose|k: int|
                star_ti < k <= t@.len() && #[trigger] matches_from(p@, t@, star_pi + 1, k);
            lemma_segment(p@, t@, star_pi + 1, pi as int, k);
        }
        lemma_only_stars(p@, t@, pi as int);
    }
    let ghost from = pi;
    while pi < plen && p[pi] == '*'
        invariant
            plen == p@.len(),
            from <= pi <= plen,
            forall|k: int| from <= k < pi ==> p@[k] == '*',
        decreases plen - pi,
    {
        pi = pi + 1;
    }
    pi == plen
}

/// A pattern of one star matches every text.
pub proof fn law_star_matches_all(t: Seq<char>)
    ensures
        matches_pattern(seq!['*'], t),
{
    let p = seq!['*'];
    assert(matches_from(p, t, 1, t.len() as int));
    assert(matches_from(p, t, 0, t.len() as int));
    lemma_star_absorbs(p, t, 0, 0, t.len() as int);
}

proof fn lemma_matches_itself(t: Seq<char>, i: int)
    requires
        0 <= i <= t.len(),
        forall|k: int| 0 <= k < t.len() ==> t[k] != '*',
    ensures
        matches_from(t, t, i, i),
    decreases t.len() - i,
{
    if i < t.len() {
        lemma_matches_itself(t, i + 1);
    }
}

proof fn lemma_plain_pattern(p: Seq<char>, t: Seq<char>, i: int)
    requires
        0 <= i <= p.len(),
        i <= t.len(),
        forall|k: int| 0 <= k < p.len() ==> p[k] != '*' && p[k] != '?',
        matches_from(p, t, i, i),
    ensures
        p.len() == t.len(),
        forall|k: int| i <= k < p.len() ==> p[k] == t[k],
    decreases p.len() - i,
{
    if i < p.len() {
        lemma_plain_pattern(p, t, i + 1);
    }
}

/// A pattern without wildcards matches itself and nothing else.
pub proof fn law_plain_pattern_matches_itself(p: Seq<char>, t: Seq<char>)
    requires
        forall|k: int| 0 <= k < p.len() ==> p[k] != '*' && p[k] != '?',
    ensures
        matches_pattern(p, t) <==> p == t,
{
    lemma_matches_itself(p, 0);
    if matches_pattern(p, t) {
        lemma_plain_pattern(p, t, 0);
        assert(p =~= t);
    }
}

} // verus!
