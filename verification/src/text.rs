//! Text semantics for the two search modes: ASCII case folding,
//! case-insensitive substring containment, whitespace tokenization for the
//! full-text mode, and the two pattern builders handed to the store.

use vstd::prelude::*;
use vstd::string::StrSliceExecFns;

verus! {

/// ASCII case folding of one character; other characters are unchanged.
pub open spec fn lower_char(c: char) -> char {
    if 65 <= c as u32 && c as u32 <= 90 {
        ((c as u32) + 32) as char
    } else {
        c
    }
}

/// Pointwise ASCII case folding of a character sequence.
pub open spec fn lower_seq(s: Seq<char>) -> Seq<char> {
    s.map_values(|c: char| lower_char(c))
}

/// ASCII case folding of one character.
pub fn to_lower_char(c: char) -> (r: char)
    ensures
        r == lower_char(c),
{
    let u = c as u32;
    if 65 <= u && u <= 90 {
        let b = (u + 32) as u8;
        b as char
    } else {
        c
    }
}

/// The characters of a string, in order.
pub fn chars_of(s: &str) -> (r: Vec<char>)
    ensures
        r@ == s@,
{
    let n = s.unicode_len();
    let mut r: Vec<char> = Vec::new();
    let mut i: usize = 0;
    while i < n
        invariant
            n == s@.len(),
            i <= n,
            r@ == s@.subrange(0, i as int),
        decreases n - i,
    {
        r.push(s.get_char(i));
        proof {
            assert(r@ =~= s@.subrange(0, i + 1));
        }
        i += 1;
    }
    proof {
        assert(r@ =~= s@);
    }
    r
}

/// Pointwise ASCII case folding of a character vector.
pub fn lower_chars(v: &Vec<char>) -> (r: Vec<char>)
    ensures
        r@ == lower_seq(v@),
{
    let n = v.len();
    let mut r: Vec<char> = Vec::new();
    let mut i: usize = 0;
    while i < n
        invariant
            n == v@.len(),
            i <= n,
            r@ == lower_seq(v@.subrange(0, i as int)),
        decreases n - i,
    {
        r.push(to_lower_char(v[i]));
        proof {
            assert(v@.subrange(0, i + 1) =~= v@.subrange(0, i as int).push(v@[i as int]));
            assert(r@ =~= lower_seq(v@.subrange(0, i + 1)));
        }
        i += 1;
    }
    proof {
        assert(v@.subrange(0, n as int) =~= v@);
    }
    r
}

/// `needle` occurs in `hay` as a contiguous subsequence.
pub open spec fn spec_contains(hay: Seq<char>, needle: Seq<char>) -> bool {
    exists|i: int|
        0 <= i <= hay.len() - needle.len() && #[trigger] hay.subrange(i, i + needle.len() as int)
            == needle
}

/// `needle` occurs in `hay` when both are case-folded: the substring-search
/// match condition. An empty needle matches any text.
pub open spec fn contains_ci(hay: Seq<char>, needle: Seq<char>) -> bool {
    spec_contains(lower_seq(hay), lower_seq(needle))
}

/// `hay[i .. i + needle.len()] == needle`.
fn match_at(hay: &Vec<char>, needle: &Vec<char>, i: usize) -> (b: bool)
    requires
        i + needle@.len() <= hay@.len(),
    ensures
        b == (hay@.subrange(i as int, i as int + needle@.len() as int) == needle@),
{
    let n = hay.len();
    let m = needle.len();
    let ghost sub = hay@.subrange(i as int, i as int + needle@.len() as int);
    let mut j: usize = 0;
    while j < m
        invariant
            n == hay@.len(),
            m == needle@.len(),
            i + m <= n,
            j <= m,
            sub == hay@.subrange(i as int, i as int + m as int),
            forall|k: int| 0 <= k < j ==> sub[k] == needle@[k],
        decreases m - j,
    {
        if hay[i + j] != needle[j] {
            proof {
                assert(sub[j as int] == hay@[i + j]);
            }
            return false;
        }
        j += 1;
    }
    proof {
        assert(sub =~= needle@);
    }
    true
}

/// Whether `needle` occurs in `hay` as a contiguous run.
pub fn contains_chars(hay: &Vec<char>, needle: &Vec<char>) -> (b: bool)
    ensures
        b == spec_contains(hay@, needle@),
{
    let n = hay.len();
    let m = needle.len();
    if m > n {
        return false;
    }
    if m == 0 {
        proof {
            assert(hay@.subrange(0, 0 + needle@.len() as int) =~= needle@);
        }
        return true;
    }
    let mut i: usize = 0;
    while i <= n - m
        invariant
            n == hay@.len(),
            m == needle@.len(),
            1 <= m <= n,
            i <= n - m + 1,
            forall|k: int|
                0 <= k < i ==> #[trigger] hay@.subrange(k, k + needle@.len() as int) != needle@,
        decreases n - m + 1 - i,
    {
        if match_at(hay, needle, i) {
            return true;
        }
        i += 1;
    }
    false
}

/// `s[i .. j]` is a maximal run of non-space characters: a word.
pub open spec fn is_word_at(s: Seq<char>, i: int, j: int) -> bool {
    &&& 0 <= i < j <= s.len()
    &&& (forall|k: int| i <= k < j ==> s[k] != ' ')
    &&& (i == 0 || s[i - 1] == ' ')
    &&& (j == s.len() || s[j] == ' ')
}

/// The words of a character sequence: its maximal non-space runs.
pub open spec fn words(s: Seq<char>) -> Set<Seq<char>> {
    Set::new(
        |t: Seq<char>| exists|i: int, j: int| #[trigger] is_word_at(s, i, j) && t == s.subrange(i, j),
    )
}

/// The words of `v`, in order of first appearance of each occurrence:
/// every returned token is a word of `v`, and every word of `v` is returned.
pub fn tokens_of(v: &Vec<char>) -> (r: Vec<Vec<char>>)
    ensures
        forall|k: int| 0 <= k < r@.len() ==> words(v@).contains(#[trigger] r@[k]@),
        forall|i: int, j: int|
            #[trigger] is_word_at(v@, i, j) ==> exists|k: int|
                0 <= k < r@.len() && r@[k]@ == v@.subrange(i, j),
{
    let n = v.len();
    let mut out: Vec<Vec<char>> = Vec::new();
    let mut cur: Vec<char> = Vec::new();
    let ghost mut cstart: int = 0;
    let mut p: usize = 0;
    while p < n
        invariant
            n == v@.len(),
            p <= n,
            cur@.len() > 0 ==> {
                &&& 0 <= cstart
                &&& cstart + cur@.len() == p
                &&& (cstart == 0 || v@[cstart - 1] == ' ')
                &&& (forall|k: int| cstart <= k < p ==> v@[k] != ' ')
                &&& cur@ == v@.subrange(cstart, p as int)
            },
            cur@.len() == 0 ==> (p == 0 || v@[p - 1] == ' '),
            forall|k: int| 0 <= k < out@.len() ==> words(v@).contains(#[trigger] out@[k]@),
            forall|i: int, j: int|
                #[trigger] is_word_at(v@, i, j) && j < p ==> exists|k: int|
                    0 <= k < out@.len() && out@[k]@ == v@.subrange(i, j),
        decreases n - p,
    {
        let c = v[p];
        if c == ' ' {
            if cur.len() > 0 {
                proof {
                    assert(is_word_at(v@, cstart, p as int));
                    assert(words(v@).contains(cur@));
                }
                let ghost old_out = out@;
                let ghost cw = cur@;
                out.push(cur);
                cur = Vec::new();
                proof {
                    assert forall|i: int, j: int| #[trigger] is_word_at(v@, i, j) && j < p + 1
                        implies exists|k: int|
                        0 <= k < out@.len() && out@[k]@ == v@.subrange(i, j) by {
                        if j == p {
                            assert(i == cstart) by {
                                if i < cstart {
                                    assert(v@[cstart - 1] == ' ');
                                    assert(i <= cstart - 1 < j);
                                } else if i > cstart {
                                    assert(v@[i - 1] == ' ');
                                    assert(cstart <= i - 1 < p);
                                }
                            }
                            assert(out@[out@.len() - 1]@ == cw);
                            assert(cw == v@.subrange(i, j));
                        } else {
                            let k = choose|k: int|
                                0 <= k < old_out.len() && old_out[k]@ == v@.subrange(i, j);
                            assert(out@[k]@ == v@.subrange(i, j));
                        }
                    }
                }
            } else {
                proof {
                    assert forall|i: int, j: int| #[trigger] is_word_at(v@, i, j) && j < p + 1
                        implies exists|k: int|
                        0 <= k < out@.len() && out@[k]@ == v@.subrange(i, j) by {
                        if j == p {
                            assert(p > 0 && v@[p - 1] == ' ');
                            assert(i <= p - 1 < j);
                            assert(false);
                        }
                    }
                }
            }
        } else {
            if cur.len() == 0 {
                proof {
                    cstart = p as int;
                }
            }
            cur.push(c);
            proof {
                assert(cur@ =~= v@.subrange(cstart, p + 1));
            }
        }
        p += 1;
    }
    if cur.len() > 0 {
        proof {
            assert(is_word_at(v@, cstart, n as int));
            assert(words(v@).contains(cur@));
        }
        let ghost old_out = out@;
        let ghost cw = cur@;
        out.push(cur);
        proof {
            assert forall|i: int, j: int| #[trigger] is_word_at(v@, i, j) implies exists|k: int|
                0 <= k < out@.len() && out@[k]@ == v@.subrange(i, j) by {
                if j == n {
                    assert(i == cstart) by {
                        if i < cstart {
                            assert(v@[cstart - 1] == ' ');
                            assert(i <= cstart - 1 < j);
                        } else if i > cstart {
                            assert(v@[i - 1] == ' ');
                            assert(cstart <= i - 1 < n);
                        }
                    }
                    assert(out@[out@.len() - 1]@ == cw);
                    assert(cw == v@.subrange(i, j));
                } else {
                    let k = choose|k: int| 0 <= k < old_out.len() && old_out[k]@ == v@.subrange(i, j);
                    assert(out@[k]@ == v@.subrange(i, j));
                }
            }
        }
    } else {
        proof {
            assert forall|i: int, j: int| #[trigger] is_word_at(v@, i, j) implies exists|k: int|
                0 <= k < out@.len() && out@[k]@ == v@.subrange(i, j) by {
                if j == n {
                    assert(n > 0 && v@[n - 1] == ' ');
                    assert(i <= n - 1 < j);
                    assert(false);
                }
            }
        }
    }
    out
}

/// Whether two character vectors hold the same characters.
pub fn eq_chars(a: &Vec<char>, b: &Vec<char>) -> (r: bool)
    ensures
        r == (a@ == b@),
{
    let n = a.len();
    if n != b.len() {
        return false;
    }
    let mut i: usize = 0;
    while i < n
        invariant
            n == a@.len() == b@.len(),
            i <= n,
            forall|k: int| 0 <= k < i ==> a@[k] == b@[k],
        decreases n - i,
    {
        if a[i] != b[i] {
            return false;
        }
        i += 1;
    }
    proof {
        assert(a@ =~= b@);
    }
    true
}

/// Whether `t` is one of the listed tokens.
fn contains_token(toks: &Vec<Vec<char>>, t: &Vec<char>) -> (r: bool)
    ensures
        r == exists|k: int| 0 <= k < toks@.len() && (#[trigger] toks@[k])@ == t@,
{
    let n = toks.len();
    let mut i: usize = 0;
    while i < n
        invariant
            n == toks@.len(),
            i <= n,
            forall|k: int| 0 <= k < i ==> (#[trigger] toks@[k])@ != t@,
        decreases n - i,
    {
        if eq_chars(&toks[i], t) {
            return true;
        }
        i += 1;
    }
    false
}

/// The full-text match condition over already case-folded text: the term
/// has at least one word, and every word of the term is a word of the text.
/// A term without words matches nothing.
pub open spec fn ft_match_seq(text: Seq<char>, term: Seq<char>) -> bool {
    &&& (exists|t: Seq<char>| words(term).contains(t))
    &&& (forall|t: Seq<char>| #[trigger] words(term).contains(t) ==> words(text).contains(t))
}

/// Whether the already case-folded `text` satisfies the conjunctive
/// full-text query read from the already case-folded `term`.
pub fn ft_match_chars(text: &Vec<char>, term: &Vec<char>) -> (r: bool)
    ensures
        r == ft_match_seq(text@, term@),
{
    let qtoks = tokens_of(term);
    if qtoks.len() == 0 {
        proof {
            assert forall|t: Seq<char>| !(#[trigger] words(term@).contains(t)) by {
                if words(term@).contains(t) {
                    let (i, j) = choose|i: int, j: int|
                        #[trigger] is_word_at(term@, i, j) && t == term@.subrange(i, j);
                }
            }
        }
        return false;
    }
    let ttoks = tokens_of(text);
    let n = qtoks.len();
    let mut i: usize = 0;
    while i < n
        invariant
            n == qtoks@.len(),
            i <= n,
            forall|k: int| 0 <= k < qtoks@.len() ==> words(term@).contains(#[trigger] qtoks@[k]@),
            forall|i2: int, j2: int|
                #[trigger] is_word_at(term@, i2, j2) ==> exists|k: int|
                    0 <= k < qtoks@.len() && qtoks@[k]@ == term@.subrange(i2, j2),
            forall|k: int| 0 <= k < ttoks@.len() ==> words(text@).contains(#[trigger] ttoks@[k]@),
            forall|i2: int, j2: int|
                #[trigger] is_word_at(text@, i2, j2) ==> exists|k: int|
                    0 <= k < ttoks@.len() && ttoks@[k]@ == text@.subrange(i2, j2),
            forall|k: int| 0 <= k < i ==> words(text@).contains(#[trigger] qtoks@[k]@),
        decreases n - i,
    {
        if !contains_token(&ttoks, &qtoks[i]) {
            proof {
                assert(words(term@).contains(qtoks@[i as int]@));
                assert(!words(text@).contains(qtoks@[i as int]@)) by {
                    if words(text@).contains(qtoks@[i as int]@) {
                        let (i2, j2) = choose|i2: int, j2: int|
                            #[trigger] is_word_at(text@, i2, j2) && qtoks@[i as int]@
                                == text@.subrange(i2, j2);
                        assert(exists|k: int|
                            0 <= k < ttoks@.len() && ttoks@[k]@ == text@.subrange(i2, j2));
                    }
                }
            }
            return false;
        }
        i += 1;
    }
    proof {
        assert(words(term@).contains(qtoks@[0]@));
        assert forall|t: Seq<char>| #[trigger] words(term@).contains(t) implies words(
            text@,
        ).contains(t) by {
            let (i2, j2) = choose|i2: int, j2: int|
                #[trigger] is_word_at(term@, i2, j2) && t == term@.subrange(i2, j2);
            let k = choose|k: int| 0 <= k < qtoks@.len() && qtoks@[k]@ == term@.subrange(i2, j2);
            assert(words(text@).contains(qtoks@[k]@));
        }
    }
    true
}

/// Relies on `String::push` of std: appends exactly the given character.
#[verifier::external_body]
fn push_char(s: &mut String, c: char)
    ensures
        final(s)@ == old(s)@.push(c),
{
    s.push(c)
}

/// The wildcard-wrapped pattern handed to the store's pattern matcher:
/// the term between two `%` wildcards.
pub fn like_pattern(term: &str) -> (r: String)
    ensures
        r@ == seq!['%'] + term@ + seq!['%'],
{
    proof {
        reveal_strlit("%");
    }
    let mut out = String::from_str("%");
    out.append(term);
    out.append("%");
    proof {
        assert(out@ =~= seq!['%'] + term@ + seq!['%']);
    }
    out
}

/// The term rewritten as a conjunctive text query: each space becomes the
/// AND operator `&` with a space on either side; all else is unchanged.
pub open spec fn tsquery_of(s: Seq<char>) -> Seq<char>
    decreases s.len(),
{
    if s.len() == 0 {
        Seq::empty()
    } else {
        tsquery_of(s.drop_last()) + (if s.last() == ' ' {
            seq![' ', '&', ' ']
        } else {
            seq![s.last()]
        })
    }
}

/// The term rewritten as a conjunctive text query.
pub fn to_tsquery(term: &str) -> (r: String)
    ensures
        r@ == tsquery_of(term@),
{
    proof {
        reveal_strlit(" & ");
    }
    let n = term.unicode_len();
    let mut out = String::new();
    let mut i: usize = 0;
    while i < n
        invariant
            n == term@.len(),
            i <= n,
            out@ == tsquery_of(term@.subrange(0, i as int)),
        decreases n - i,
    {
        let c = term.get_char(i);
        if c == ' ' {
            out.append(" & ");
            proof {
                reveal_strlit(" & ");
                assert(" & "@ =~= seq![' ', '&', ' ']);
            }
        } else {
            push_char(&mut out, c);
        }
        proof {
            let pre = term@.subrange(0, i + 1);
            assert(pre.drop_last() =~= term@.subrange(0, i as int));
            assert(pre.last() == term@[i as int]);
            assert(out@ =~= tsquery_of(pre));
        }
        i += 1;
    }
    proof {
        assert(term@.subrange(0, n as int) =~= term@);
    }
    out
}

} // verus!
