//! Text helpers: strings as character sequences, their UTF-8 bytes, and
//! construction of strings from characters or bytes.

use vstd::prelude::*;
use vstd::utf8::*;

verus! {

/// UTF-8 bytes of a character sequence.
pub open spec fn utf8_bytes(s: Seq<char>) -> Seq<u8> {
    encode_utf8(s)
}

/// Appends one character to a string (`String::push`).
#[verifier::external_body]
pub(crate) fn push_char(s: &mut String, c: char)
    ensures
        final(s)@ == old(s)@.push(c),
{
    s.push(c);
}

/// Decodes owned bytes as UTF-8 (`String::from_utf8`): `Ok` exactly when
/// the bytes are valid UTF-8, else the display text of the decoding error,
/// of which the contract says nothing.
#[verifier::external_body]
pub(crate) fn string_from_utf8(bytes: Vec<u8>) -> (r: Result<String, String>)
    ensures
        r is Ok <==> valid_utf8(bytes@),
        r matches Ok(s) ==> s@ == decode_utf8(bytes@),
{
    match String::from_utf8(bytes) {
        Ok(s) => Ok(s),
        Err(e) => Err(e.to_string()),
    }
}

/// The decimal digit character for a value below ten.
pub open spec fn decimal_digit(d: nat) -> char {
    ((48 + d) as u8) as char
}

/// Decimal text of a natural number, without leading zeros.
pub open spec fn decimal_spec(n: nat) -> Seq<char>
    decreases n,
{
    if n < 10 {
        seq![decimal_digit(n)]
    } else {
        decimal_spec(n / 10).push(decimal_digit(n % 10))
    }
}

/// Decimal text of `n`.
pub fn decimal(n: u64) -> (s: String)
    ensures
        s@ == decimal_spec(n as nat),
    decreases n,
{
    if n < 10 {
        let mut s = String::new();
        push_char(&mut s, ((48 + n) as u8) as char);
        assert(s@ =~= decimal_spec(n as nat));
        s
    } else {
        let mut s = decimal(n / 10);
        push_char(&mut s, ((48 + n % 10) as u8) as char);
        s
    }
}

/// The characters of a string slice, in order.
pub fn str_chars(s: &str) -> (v: Vec<char>)
    ensures
        v@ == s@,
{
    broadcast use vstd::string::axiom_spec_iter;

    let mut v: Vec<char> = Vec::new();
    for c in it: s.chars()
        invariant
            v@ == it.seq().subrange(0, it.index() as int),
            it.seq() == s@,
    {
        v.push(c);
    }
    v
}

/// A string holding exactly the given characters.
pub fn string_from_chars(cs: &[char]) -> (r: String)
    ensures
        r@ == cs@,
{
    let mut r = String::new();
    let mut i: usize = 0;
    while i < cs.len()
        invariant
            i <= cs.len(),
            r@ == cs@.subrange(0, i as int),
        decreases cs.len() - i,
    {
        push_char(&mut r, cs[i]);
        i += 1;
        assert(r@ =~= cs@.subrange(0, i as int));
    }
    assert(cs@.subrange(0, cs.len() as int) =~= cs@);
    r
}

/// Appends a string slice to a string.
pub fn push_str(s: &mut String, other: &str)
    ensures
        final(s)@ == old(s)@ + other@,
{
    let cs = str_chars(other);
    let mut i: usize = 0;
    while i < cs.len()
        invariant
            i <= cs.len(),
            cs@ == other@,
            s@ == old(s)@ + cs@.subrange(0, i as int),
        decreases cs.len() - i,
    {
        push_char(s, cs[i]);
        i += 1;
        assert(s@ =~= old(s)@ + cs@.subrange(0, i as int));
    }
    assert(cs@.subrange(0, cs.len() as int) =~= cs@);
}

/// An owned copy of a string slice.
pub fn owned(s: &str) -> (r: String)
    ensures
        r@ == s@,
{
    let mut r = String::new();
    push_str(&mut r, s);
    assert(r@ =~= s@);
    r
}

/// Concatenation of two string slices.
pub fn concat2(a: &str, b: &str) -> (r: String)
    ensures
        r@ == a@ + b@,
{
    let mut r = owned(a);
    push_str(&mut r, b);
    r
}

/// Concatenation of three string slices.
pub fn concat3(a: &str, b: &str, c: &str) -> (r: String)
    ensures
        r@ == a@ + b@ + c@,
{
    let mut r = concat2(a, b);
    push_str(&mut r, c);
    r
}

/// Whether a character sequence starts with the given prefix.
pub open spec fn has_prefix(s: Seq<char>, prefix: Seq<char>) -> bool {
    prefix.len() <= s.len() && s.subrange(0, prefix.len() as int) == prefix
}

/// Prefix test on character vectors.
pub fn chars_start_with(s: &[char], prefix: &[char]) -> (b: bool)
    ensures
        b == has_prefix(s@, prefix@),
{
    if prefix.len() > s.len() {
        return false;
    }
    let mut i: usize = 0;
    while i < prefix.len()
        invariant
            i <= prefix.len() <= s.len(),
            forall|k: int| 0 <= k < i ==> s@[k] == prefix@[k],
        decreases prefix.len() - i,
    {
        if s[i] != prefix[i] {
            assert(s@.subrange(0, prefix.len() as int)[i as int] != prefix@[i as int]);
            return false;
        }
        i += 1;
    }
    assert(s@.subrange(0, prefix.len() as int) =~= prefix@);
    true
}

/// Prefix test on string slices.
pub fn str_starts_with(s: &str, prefix: &str) -> (b: bool)
    ensures
        b == has_prefix(s@, prefix@),
{
    let sc = str_chars(s);
    let pc = str_chars(prefix);
    chars_start_with(sc.as_slice(), pc.as_slice())
}

/// Equality of two character vectors.
pub fn chars_equal(a: &[char], b: &[char]) -> (eq: bool)
    ensures
        eq == (a@ == b@),
{
    if a.len() != b.len() {
        return false;
    }
    let mut i: usize = 0;
    while i < a.len()
        invariant
            i <= a.len(),
            a@.len() == b@.len(),
            forall|k: int| 0 <= k < i ==> a@[k] == b@[k],
        decreases a.len() - i,
    {
        if a[i] != b[i] {
            return false;
        }
        i += 1;
    }
    assert(a@ =~= b@);
    true
}


// ---------------------------------------------------------------------------
// Lines
// ---------------------------------------------------------------------------

/// Index of the first newline at or after `start`, or the length when none.
pub open spec fn next_newline(t: Seq<char>, start: int) -> int
    decreases t.len() - start,
{
    if start >= t.len() {
        t.len() as int
    } else if t[start] == '\n' {
        start
    } else {
        next_newline(t, start + 1)
    }
}

/// A line without its trailing carriage return.
pub open spec fn strip_cr(l: Seq<char>) -> Seq<char> {
    if l.len() > 0 && l.last() == '\r' {
        l.drop_last()
    } else {
        l
    }
}

/// The lines of `t` from `start` on, as `str::lines` splits them: at each
/// newline, with a carriage return before the newline removed; a final
/// line without a newline is kept as it is, and nothing follows a final
/// newline.
pub open spec fn lines_from(t: Seq<char>, start: int) -> Seq<Seq<char>>
    decreases t.len() - start,
{
    if start < 0 || start >= t.len() {
        Seq::empty()
    } else {
        let j = next_newline(t, start);
        if j < t.len() && j >= start {
            seq![strip_cr(t.subrange(start, j))] + lines_from(t, j + 1)
        } else {
            seq![t.subrange(start, t.len() as int)]
        }
    }
}

/// The lines of a text.
pub open spec fn lines_spec(t: Seq<char>) -> Seq<Seq<char>> {
    lines_from(t, 0)
}

proof fn lemma_next_newline(t: Seq<char>, start: int, i: int)
    requires
        0 <= start <= i <= t.len(),
        forall|k: int| start <= k < i ==> t[k] != '\n',
    ensures
        next_newline(t, start) == next_newline(t, i),
        start <= next_newline(t, start) <= t.len(),
    decreases i - start,
{
    if start < i {
        lemma_next_newline(t, start + 1, i);
    }
    lemma_next_newline_bounds(t, i);
}

proof fn lemma_next_newline_bounds(t: Seq<char>, start: int)
    requires
        0 <= start <= t.len(),
    ensures
        start <= next_newline(t, start) <= t.len(),
        next_newline(t, start) < t.len() ==> t[next_newline(t, start)] == '\n',
    decreases t.len() - start,
{
    if start < t.len() && t[start] != '\n' {
        lemma_next_newline_bounds(t, start + 1);
    }
}

fn strip_cr_exec(l: Vec<char>) -> (r: Vec<char>)
    ensures
        r@ == strip_cr(l@),
{
    let mut l = l;
    if l.len() > 0 && l[l.len() - 1] == '\r' {
        l.pop();
    }
    l
}

/// Splits a text into lines as `str::lines` does.
pub fn split_lines(text: &str) -> (lines: Vec<Vec<char>>)
    ensures
        lines@.map_values(|l: Vec<char>| l@) == lines_spec(text@),
{
    let t = str_chars(text);
    let ghost ts = t@;
    let mut lines: Vec<Vec<char>> = Vec::new();
    let mut cur: Vec<char> = Vec::new();
    let mut line_start: usize = 0;
    let mut i: usize = 0;
    while i < t.len()
        invariant
            ts == t@,
            ts == text@,
            line_start <= i <= t.len(),
            cur@ == ts.subrange(line_start as int, i as int),
            forall|k: int| line_start <= k < i ==> ts[k] != '\n',
            lines@.map_values(|l: Vec<char>| l@) + lines_from(ts, line_start as int)
                == lines_spec(ts),
        decreases t.len() - i,
    {
        let c = t[i];
        if c == '\n' {
            proof {
                lemma_next_newline(ts, line_start as int, i as int);
                assert(next_newline(ts, line_start as int) == i);
                assert(lines_from(ts, line_start as int) == seq![
                    strip_cr(ts.subrange(line_start as int, i as int)),
                ] + lines_from(ts, i + 1));
            }
            let l = strip_cr_exec(cur);
            let ghost before = lines@.map_values(|l: Vec<char>| l@);
            lines.push(l);
            assert(lines@.map_values(|l: Vec<char>| l@) =~= before.push(
                strip_cr(ts.subrange(line_start as int, i as int)),
            ));
            assert(before.push(strip_cr(ts.subrange(line_start as int, i as int))) + lines_from(
                ts,
                i + 1,
            ) =~= before + (seq![strip_cr(ts.subrange(line_start as int, i as int))]
                + lines_from(ts, i + 1)));
            cur = Vec::new();
            i += 1;
            line_start = i;
            assert(cur@ =~= ts.subrange(line_start as int, i as int));
        } else {
            cur.push(c);
            i += 1;
            assert(cur@ =~= ts.subrange(line_start as int, i as int));
        }
    }
    if line_start < t.len() {
        proof {
            lemma_next_newline(ts, line_start as int, t.len() as int);
            assert(next_newline(ts, line_start as int) == t.len());
        }
        let ghost before = lines@.map_values(|l: Vec<char>| l@);
        lines.push(cur);
        assert(lines@.map_values(|l: Vec<char>| l@) =~= before + seq![
            ts.subrange(line_start as int, ts.len() as int),
        ]);
    } else {
        assert(lines_from(ts, line_start as int) == Seq::<Seq<char>>::empty());
        assert(lines@.map_values(|l: Vec<char>| l@) + Seq::<Seq<char>>::empty() =~= lines@.map_values(
            |l: Vec<char>| l@,
        ));
    }
    lines
}

/// The remainder of the first line that starts with `key`, if any.
pub open spec fn find_prefixed(lines: Seq<Seq<char>>, key: Seq<char>) -> Option<Seq<char>>
    decreases lines.len(),
{
    if lines.len() == 0 {
        None
    } else if has_prefix(lines[0], key) {
        Some(lines[0].subrange(key.len() as int, lines[0].len() as int))
    } else {
        find_prefixed(lines.drop_first(), key)
    }
}

/// Lines each followed by a newline, joined into one text.
pub open spec fn join_lines(ls: Seq<Seq<char>>) -> Seq<char>
    decreases ls.len(),
{
    if ls.len() == 0 {
        Seq::empty()
    } else {
        ls[0] + "\n"@ + join_lines(ls.drop_first())
    }
}

/// Joining one more line appends it and its newline.
pub proof fn lemma_join_push(ls: Seq<Seq<char>>, l: Seq<char>)
    ensures
        join_lines(ls.push(l)) == join_lines(ls) + l + "\n"@,
    decreases ls.len(),
{
    if ls.len() == 0 {
        reveal_with_fuel(join_lines, 2);
        assert(ls.push(l).drop_first() =~= Seq::<Seq<char>>::empty());
        assert(join_lines(ls.push(l)) =~= join_lines(ls) + l + "\n"@);
    } else {
        assert(ls.push(l).drop_first() =~= ls.drop_first().push(l));
        lemma_join_push(ls.drop_first(), l);
        assert(join_lines(ls.push(l)) =~= join_lines(ls) + l + "\n"@);
    }
}

/// A text that stands as one line: no newline in it, and no carriage
/// return at its end.
pub open spec fn one_line(l: Seq<char>) -> bool {
    &&& forall|i: int| 0 <= i < l.len() ==> l[i] != '\n'
    &&& strip_cr(l) == l
}

proof fn lemma_next_newline_shift(x: Seq<char>, y: Seq<char>, k: int)
    requires
        0 <= k <= y.len(),
    ensures
        next_newline(x + y, x.len() + k) == x.len() + next_newline(y, k),
    decreases y.len() - k,
{
    if k < y.len() {
        assert((x + y)[x.len() + k] == y[k]);
        lemma_next_newline_shift(x, y, k + 1);
    }
}

proof fn lemma_lines_shift(x: Seq<char>, y: Seq<char>, k: int)
    requires
        0 <= k,
    ensures
        lines_from(x + y, x.len() + k) == lines_from(y, k),
    decreases y.len() - k,
{
    if k < y.len() {
        lemma_next_newline_shift(x, y, k);
        lemma_next_newline_bounds(y, k);
        let j = next_newline(y, k);
        assert((x + y).subrange(x.len() + k, x.len() + j) =~= y.subrange(k, j));
        assert((x + y).subrange(x.len() + k, (x + y).len() as int) =~= y.subrange(k, y.len() as int));
        if j < y.len() {
            lemma_lines_shift(x, y, j + 1);
        }
    }
}

/// Splitting joined lines into lines gives the lines back.
pub proof fn lemma_lines_of_join(ls: Seq<Seq<char>>)
    requires
        forall|i: int| 0 <= i < ls.len() ==> one_line(#[trigger] ls[i]),
    ensures
        lines_spec(join_lines(ls)) == ls,
    decreases ls.len(),
{
    if ls.len() > 0 {
        let l = ls[0];
        let rest = join_lines(ls.drop_first());
        let head = l + "\n"@;
        let t = head + rest;
        assert(one_line(ls[0]));
        assert forall|k: int| 0 <= k < l.len() implies t[k] != '\n' by {
            assert(t[k] == l[k]);
        }
        assert(t[l.len() as int] == '\n') by {
            reveal_strlit("\n");
        }
        lemma_next_newline(t, 0, l.len() as int);
        lemma_next_newline_bounds(t, l.len() as int);
        assert(next_newline(t, 0) == l.len());
        assert(t.subrange(0, l.len() as int) =~= l);
        assert(head.len() == l.len() + 1) by {
            reveal_strlit("\n");
        }
        lemma_lines_shift(head, rest, 0);
        lemma_lines_of_join(ls.drop_first());
        assert(lines_spec(t) =~= seq![l] + ls.drop_first());
        assert(seq![l] + ls.drop_first() =~= ls);
    } else {
        assert(lines_spec(join_lines(ls)) =~= ls);
    }
}

/// The first line that starts with `key` is line `i`.
pub proof fn lemma_find_prefixed_at(ls: Seq<Seq<char>>, key: Seq<char>, i: int)
    requires
        0 <= i < ls.len(),
        has_prefix(ls[i], key),
        forall|j: int| 0 <= j < i ==> !has_prefix(#[trigger] ls[j], key),
    ensures
        find_prefixed(ls, key) == Some(ls[i].subrange(key.len() as int, ls[i].len() as int)),
    decreases i,
{
    if i > 0 {
        assert(!has_prefix(ls[0], key));
        assert forall|j: int| 0 <= j < i - 1 implies !has_prefix(
            #[trigger] ls.drop_first()[j],
            key,
        ) by {
            assert(ls.drop_first()[j] == ls[j + 1]);
        }
        lemma_find_prefixed_at(ls.drop_first(), key, i - 1);
    }
}

/// A field key: it ends with `=`, and has no other `=`.
pub open spec fn key_shaped(k: Seq<char>) -> bool {
    &&& k.len() > 0
    &&& k.last() == '='
    &&& forall|j: int| 0 <= j < k.len() - 1 ==> k[j] != '='
}

/// A line that starts with one key does not start with another.
pub proof fn lemma_other_key(k1: Seq<char>, v: Seq<char>, k2: Seq<char>)
    requires
        key_shaped(k1),
        key_shaped(k2),
        k1 != k2,
    ensures
        !has_prefix(k1 + v, k2),
{
    let l = k1 + v;
    if has_prefix(l, k2) {
        let p = l.subrange(0, k2.len() as int);
        if k2.len() < k1.len() {
            assert(p[k2.len() - 1] == k1[k2.len() - 1]);
        } else if k2.len() > k1.len() {
            assert(p[k1.len() - 1] == k1[k1.len() - 1]);
        } else {
            assert(k1 =~= k2) by {
                assert forall|j: int| 0 <= j < k1.len() implies k1[j] == k2[j] by {
                    assert(p[j] == l[j]);
                }
            }
        }
    }
}

/// A line without `=` starts with no key.
pub proof fn lemma_no_key(l: Seq<char>, k: Seq<char>)
    requires
        forall|j: int| 0 <= j < l.len() ==> l[j] != '=',
        key_shaped(k),
    ensures
        !has_prefix(l, k),
{
    if has_prefix(l, k) {
        assert(l.subrange(0, k.len() as int)[k.len() - 1] == l[k.len() - 1]);
    }
}

/// Finds the first line starting with `key` and returns the rest of it.
pub fn find_field(lines: &Vec<Vec<char>>, key: &str) -> (r: Option<String>)
    ensures
        r is Some <==> find_prefixed(lines@.map_values(|l: Vec<char>| l@), key@) is Some,
        r matches Some(v) ==> v@ == find_prefixed(lines@.map_values(|l: Vec<char>| l@), key@)->0,
{
    let k = str_chars(key);
    let ghost ls = lines@.map_values(|l: Vec<char>| l@);
    assert(ls.subrange(0, ls.len() as int) =~= ls);
    let mut i: usize = 0;
    while i < lines.len()
        invariant
            i <= lines.len(),
            k@ == key@,
            ls == lines@.map_values(|l: Vec<char>| l@),
            find_prefixed(ls, key@) == find_prefixed(ls.subrange(i as int, ls.len() as int), key@),
        decreases lines.len() - i,
    {
        let line = &lines[i];
        let ghost rest = ls.subrange(i as int, ls.len() as int);
        assert(rest[0] == line@);
        assert(rest.drop_first() =~= ls.subrange(i + 1, ls.len() as int));
        if chars_start_with(line.as_slice(), k.as_slice()) {
            let tail = &line.as_slice()[k.len()..line.len()];
            let v = string_from_chars(tail);
            return Some(v);
        }
        i += 1;
    }
    assert(ls.subrange(i as int, ls.len() as int) =~= Seq::<Seq<char>>::empty());
    None
}

/// Whether some line equals `target`.
pub fn has_line(lines: &Vec<Vec<char>>, target: &str) -> (b: bool)
    ensures
        b == lines@.map_values(|l: Vec<char>| l@).contains(target@),
{
    let k = str_chars(target);
    let ghost ls = lines@.map_values(|l: Vec<char>| l@);
    let mut i: usize = 0;
    while i < lines.len()
        invariant
            i <= lines.len(),
            k@ == target@,
            ls == lines@.map_values(|l: Vec<char>| l@),
            forall|j: int| 0 <= j < i ==> ls[j] != target@,
        decreases lines.len() - i,
    {
        if chars_equal(lines[i].as_slice(), k.as_slice()) {
            assert(ls[i as int] == target@);
            return true;
        }
        i += 1;
    }
    false
}

} // verus!
