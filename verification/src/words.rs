//! Whitespace, trimming, splitting at a character and splitting into
//! words, as `str::trim`, `str::split_once` and `str::split_whitespace` do.

use vstd::prelude::*;

verus! {

/// Unicode white space, as `char::is_whitespace` defines it.
pub open spec fn is_ws(c: char) -> bool {
    let v = c as u32;
    ||| 9 <= v <= 13
    ||| v == 32
    ||| v == 0x85
    ||| v == 0xA0
    ||| v == 0x1680
    ||| 0x2000 <= v <= 0x200A
    ||| v == 0x2028
    ||| v == 0x2029
    ||| v == 0x202F
    ||| v == 0x205F
    ||| v == 0x3000
}

/// Whether a character is white space.
pub fn is_ws_exec(c: char) -> (b: bool)
    ensures
        b == is_ws(c),
{
    let v = c as u32;
    (9 <= v && v <= 13) || v == 32 || v == 0x85 || v == 0xA0 || v == 0x1680 || (0x2000 <= v && v
        <= 0x200A) || v == 0x2028 || v == 0x2029 || v == 0x202F || v == 0x205F || v == 0x3000
}

/// A text without its leading white space.
pub open spec fn trim_start(s: Seq<char>) -> Seq<char>
    decreases s.len(),
{
    if s.len() > 0 && is_ws(s[0]) {
        trim_start(s.drop_first())
    } else {
        s
    }
}

/// A text without its trailing white space.
pub open spec fn trim_end(s: Seq<char>) -> Seq<char>
    decreases s.len(),
{
    if s.len() > 0 && is_ws(s.last()) {
        trim_end(s.drop_last())
    } else {
        s
    }
}

/// A text without leading and trailing white space.
pub open spec fn trim(s: Seq<char>) -> Seq<char> {
    trim_end(trim_start(s))
}

/// The text without leading and trailing white space.
pub fn trim_chars(s: &[char]) -> (r: Vec<char>)
    ensures
        r@ == trim(s@),
{
    let mut a: usize = 0;
    assert(s@.subrange(0, s@.len() as int) =~= s@);
    while a < s.len() && is_ws_exec(s[a])
        invariant
            a <= s@.len(),
            trim_start(s@) == trim_start(s@.subrange(a as int, s@.len() as int)),
        decreases s.len() - a,
    {
        proof {
            let t = s@.subrange(a as int, s@.len() as int);
            assert(t.drop_first() =~= s@.subrange(a + 1, s@.len() as int));
        }
        a += 1;
    }
    let ghost front = s@.subrange(a as int, s@.len() as int);
    assert(trim_start(front) == front);
    let mut b: usize = s.len();
    while b > a && is_ws_exec(s[b - 1])
        invariant
            a <= b <= s@.len(),
            front == s@.subrange(a as int, s@.len() as int),
            trim_end(front) == trim_end(s@.subrange(a as int, b as int)),
        decreases b,
    {
        proof {
            let t = s@.subrange(a as int, b as int);
            assert(t.drop_last() =~= s@.subrange(a as int, b - 1));
        }
        b -= 1;
    }
    let mut r: Vec<char> = Vec::new();
    let mut k: usize = a;
    while k < b
        invariant
            a <= k <= b <= s@.len(),
            r@ == s@.subrange(a as int, k as int),
        decreases b - k,
    {
        r.push(s[k]);
        k += 1;
        assert(r@ =~= s@.subrange(a as int, k as int));
    }
    r
}

/// Index of the first `c` at or after `i`, if any.
pub open spec fn find_from(s: Seq<char>, c: char, i: int) -> Option<int>
    decreases s.len() - i,
{
    if i < 0 || i >= s.len() {
        None
    } else if s[i] == c {
        Some(i)
    } else {
        find_from(s, c, i + 1)
    }
}

/// The text before and after the first `c`, if there is one.
pub open spec fn split_once_spec(s: Seq<char>, c: char) -> Option<(Seq<char>, Seq<char>)> {
    match find_from(s, c, 0) {
        Some(k) => Some((s.subrange(0, k), s.subrange(k + 1, s.len() as int))),
        None => None,
    }
}

proof fn lemma_find_from_bounds(s: Seq<char>, c: char, i: int)
    ensures
        find_from(s, c, i) matches Some(k) ==> i <= k < s.len() && s[k] == c,
    decreases s.len() - i,
{
    if 0 <= i < s.len() && s[i] != c {
        lemma_find_from_bounds(s, c, i + 1);
    }
}

/// Splits the text at the first `c`.
pub fn split_once_chars(s: &[char], c: char) -> (r: Option<(Vec<char>, Vec<char>)>)
    ensures
        r is Some <==> split_once_spec(s@, c) is Some,
        r matches Some(p) ==> (p.0@, p.1@) == split_once_spec(s@, c)->0,
{
    let mut i: usize = 0;
    while i < s.len()
        invariant
            i <= s@.len(),
            find_from(s@, c, 0) == find_from(s@, c, i as int),
        decreases s.len() - i,
    {
        if s[i] == c {
            let mut left: Vec<char> = Vec::new();
            let mut k: usize = 0;
            while k < i
                invariant
                    k <= i < s@.len(),
                    left@ == s@.subrange(0, k as int),
                decreases i - k,
            {
                left.push(s[k]);
                k += 1;
                assert(left@ =~= s@.subrange(0, k as int));
            }
            let mut right: Vec<char> = Vec::new();
            let mut m: usize = i + 1;
            while m < s.len()
                invariant
                    i + 1 <= m <= s@.len(),
                    right@ == s@.subrange(i + 1, m as int),
                decreases s.len() - m,
            {
                right.push(s[m]);
                m += 1;
                assert(right@ =~= s@.subrange(i + 1, m as int));
            }
            return Some((left, right));
        }
        i += 1;
    }
    None
}

/// The words of a text from `i` on, as `str::split_whitespace` gives them:
/// maximal runs of characters that are not white space, in order; `cur`
/// is the word read so far and `acc` the words before it.
pub open spec fn words_from(s: Seq<char>, i: int, cur: Seq<char>, acc: Seq<Seq<char>>) -> Seq<
    Seq<char>,
>
    decreases s.len() - i,
{
    if i < 0 || i >= s.len() {
        if cur.len() > 0 {
            acc.push(cur)
        } else {
            acc
        }
    } else if is_ws(s[i]) {
        words_from(
            s,
            i + 1,
            Seq::empty(),
            if cur.len() > 0 {
                acc.push(cur)
            } else {
                acc
            },
        )
    } else {
        words_from(s, i + 1, cur.push(s[i]), acc)
    }
}

/// The words of a text.
pub open spec fn words(s: Seq<char>) -> Seq<Seq<char>> {
    words_from(s, 0, Seq::empty(), Seq::empty())
}

/// The words of the text, as `str::split_whitespace` gives them.
pub fn split_words(s: &[char]) -> (r: Vec<Vec<char>>)
    ensures
        r@.map_values(|w: Vec<char>| w@) == words(s@),
{
    let mut acc: Vec<Vec<char>> = Vec::new();
    let mut cur: Vec<char> = Vec::new();
    let mut i: usize = 0;
    assert(acc@.map_values(|w: Vec<char>| w@) =~= Seq::<Seq<char>>::empty());
    while i < s.len()
        invariant
            i <= s@.len(),
            words(s@) == words_from(s@, i as int, cur@, acc@.map_values(|w: Vec<char>| w@)),
        decreases s.len() - i,
    {
        let ghost before = acc@;
        if is_ws_exec(s[i]) {
            if cur.len() > 0 {
                let w = cur;
                acc.push(w);
                cur = Vec::new();
                assert(acc@.map_values(|w: Vec<char>| w@) =~= before.map_values(|w: Vec<char>| w@).push(
                    acc@.last()@,
                ));
            } else {
                cur = Vec::new();
            }
            assert(cur@ =~= Seq::<char>::empty());
        } else {
            cur.push(s[i]);
        }
        i += 1;
    }
    let ghost before = acc@;
    if cur.len() > 0 {
        acc.push(cur);
        assert(acc@.map_values(|w: Vec<char>| w@) =~= before.map_values(|w: Vec<char>| w@).push(
            acc@.last()@,
        ));
    }
    acc
}

/// Whether the text starts with the prefix.
pub open spec fn starts_with(s: Seq<char>, p: Seq<char>) -> bool {
    p.len() <= s.len() && s.subrange(0, p.len() as int) == p
}

/// Whether the text ends with the suffix.
pub open spec fn ends_with(s: Seq<char>, p: Seq<char>) -> bool {
    p.len() <= s.len() && s.subrange(s.len() - p.len(), s.len() as int) == p
}

/// Whether the text ends with the suffix.
pub fn chars_end_with(s: &[char], p: &str) -> (b: bool)
    ensures
        b == ends_with(s@, p@),
{
    let pc = crate::text::str_chars(p);
    if pc.len() > s.len() {
        return false;
    }
    let off = s.len() - pc.len();
    let mut k: usize = 0;
    while k < pc.len()
        invariant
            k <= pc@.len(),
            pc@.len() <= s@.len(),
            s@.len() <= usize::MAX,
            off == s@.len() - pc@.len(),
            pc@ == p@,
            forall|j: int| 0 <= j < k ==> s@[off + j] == pc@[j],
        decreases pc.len() - k,
    {
        if s[off + k] != pc[k] {
            assert(s@.subrange(off as int, s@.len() as int)[k as int] != p@[k as int]);
            return false;
        }
        k += 1;
    }
    assert(s@.subrange(off as int, s@.len() as int) =~= p@);
    true
}

/// Whether the text holds the character.
pub fn contains_char(s: &[char], c: char) -> (b: bool)
    ensures
        b == s@.contains(c),
{
    let mut i: usize = 0;
    while i < s.len()
        invariant
            i <= s@.len(),
            forall|j: int| 0 <= j < i ==> s@[j] != c,
        decreases s.len() - i,
    {
        if s[i] == c {
            assert(s@[i as int] == c);
            return true;
        }
        i += 1;
    }
    false
}

/// Whether two consecutive characters of the text are both `c`.
pub open spec fn has_double(s: Seq<char>, c: char) -> bool {
    exists|i: int| 0 <= i && i + 1 < s.len() && #[trigger] s[i] == c && s[i + 1] == c
}

/// Whether two consecutive characters of the text are both `c`.
pub fn contains_double(s: &[char], c: char) -> (b: bool)
    ensures
        b == has_double(s@, c),
{
    let mut i: usize = 0;
    while s.len() - i > 1
        invariant
            i <= s@.len(),
            forall|j: int| 0 <= j < i && j + 1 < s@.len() ==> !(#[trigger] s@[j] == c && s@[j + 1] == c),
        decreases s.len() - i,
    {
        if s[i] == c && s[i + 1] == c {
            return true;
        }
        i += 1;
    }
    false
}

} // verus!
