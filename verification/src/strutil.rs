//! Verified helpers for character sequences and strings.

use vstd::prelude::*;

verus! {

/// Appends one character to a string.
/// Relies on String::push: appends the given char to the end of the string.
#[verifier::external_body]
pub fn push_char(s: &mut String, c: char)
    ensures
        final(s)@ == old(s)@.push(c),
{
    s.push(c);
}

/// The characters of a string slice, as an indexable vector.
pub fn chars_of(s: &str) -> (r: Vec<char>)
    ensures
        r@ == s@,
{
    let n = s.unicode_len();
    let mut r: Vec<char> = Vec::new();
    let mut i: usize = 0;
    while i < n
        invariant
            n == s@.len(),
            i <= n,
            r@ == s@.subrange(0, i as int),
        decreases n - i,
    {
        r.push(s.get_char(i));
        i = i + 1;
        proof {
            assert(r@ =~= s@.subrange(0, i as int));
        }
    }
    proof {
        assert(r@ =~= s@);
    }
    r
}

/// Builds a string out of a vector of characters.
pub fn string_from_chars(cs: &Vec<char>) -> (r: String)
    ensures
        r@ == cs@,
{
    let mut r = String::new();
    let mut i: usize = 0;
    while i < cs.len()
        invariant
            i <= cs@.len(),
            r@ == cs@.subrange(0, i as int),
        decreases cs@.len() - i,
    {
        push_char(&mut r, cs[i]);
        i = i + 1;
        proof {
            assert(r@ =~= cs@.subrange(0, i as int));
        }
    }
    proof {
        assert(r@ =~= cs@);
    }
    r
}

/// `q` occurs in `s` starting at position `i`.
pub open spec fn matches_at(s: Seq<char>, q: Seq<char>, i: int) -> bool {
    0 <= i && i + q.len() <= s.len() && s.subrange(i, i + q.len()) == q
}

/// `q` is a contiguous subsequence of `s`.
pub open spec fn contains_seq(s: Seq<char>, q: Seq<char>) -> bool {
    exists|i: int| matches_at(s, q, i)
}

/// Whether `q` occurs in `s` at position `i`, checked character by character.
fn check_match_at(s: &Vec<char>, q: &Vec<char>, i: usize) -> (r: bool)
    requires
        i + q@.len() <= s@.len(),
    ensures
        r == matches_at(s@, q@, i as int),
{
    let qn = q.len();
    let sn = s.len();
    let mut k: usize = 0;
    while k < qn
        invariant
            qn == q@.len(),
            sn == s@.len(),
            i + q@.len() <= s@.len(),
            k <= q@.len(),
            forall|j: int| 0 <= j < k ==> s@[i + j] == q@[j],
        decreases q@.len() - k,
    {
        if s[i + k] != q[k] {
            proof {
                assert(s@.subrange(i as int, i + q@.len())[k as int] != q@[k as int]);
            }
            return false;
        }
        k = k + 1;
    }
    proof {
        assert(s@.subrange(i as int, i + q@.len()) =~= q@);
    }
    true
}

/// Substring test over character vectors.
pub fn contains_chars(s: &Vec<char>, q: &Vec<char>) -> (r: bool)
    ensures
        r == contains_seq(s@, q@),
{
    if q.len() > s.len() {
        proof {
            assert(forall|i: int| !matches_at(s@, q@, i));
        }
        return false;
    }
    if q.len() == 0 {
        proof {
            assert(s@.subrange(0, 0) =~= q@);
            assert(matches_at(s@, q@, 0));
        }
        return true;
    }
    let last = s.len() - q.len();
    let mut i: usize = 0;
    while i <= last
        invariant
            1 <= q@.len() <= s@.len(),
            s@.len() <= usize::MAX,
            q@.len() <= usize::MAX,
            last == s@.len() - q@.len(),
            i <= last + 1,
            forall|j: int| 0 <= j < i ==> !matches_at(s@, q@, j),
        decreases last - i + 1,
    {
        if check_match_at(s, q, i) {
            return true;
        }
        i = i + 1;
    }
    proof {
        assert(forall|j: int| !matches_at(s@, q@, j));
    }
    false
}

/// Substring test on strings: does `s` contain `q`?
pub fn contains_str(s: &String, q: &String) -> (r: bool)
    ensures
        r == contains_seq(s@, q@),
{
    let sc = chars_of(s.as_str());
    let qc = chars_of(q.as_str());
    contains_chars(&sc, &qc)
}

/// `p` is a prefix of `s`.
pub open spec fn starts_with_seq(s: Seq<char>, p: Seq<char>) -> bool {
    p.len() <= s.len() && s.subrange(0, p.len() as int) == p
}

/// Prefix test on strings: does `s` start with `p`?
pub fn starts_with_str(s: &String, p: &String) -> (r: bool)
    ensures
        r == starts_with_seq(s@, p@),
{
    let sc = chars_of(s.as_str());
    let pc = chars_of(p.as_str());
    if pc.len() > sc.len() {
        return false;
    }
    let r = check_match_at(&sc, &pc, 0);
    proof {
        assert(matches_at(s@, p@, 0) == starts_with_seq(s@, p@));
    }
    r
}

/// Equality test between a string and a string slice (typically a literal).
pub fn str_eq(s: &String, lit: &str) -> (r: bool)
    ensures
        r == (s@ == lit@),
{
    let sc = chars_of(s.as_str());
    let lc = chars_of(lit);
    if sc.len() != lc.len() {
        return false;
    }
    let r = check_match_at(&sc, &lc, 0);
    proof {
        if r {
            assert(s@.subrange(0, lit@.len() as int) =~= s@);
        } else {
            assert(s@.subrange(0, s@.len() as int) =~= s@);
        }
    }
    r
}

/// A lowercase hexadecimal digit.
pub open spec fn is_hex_digit(c: char) -> bool {
    (('0' as u32) <= (c as u32) && (c as u32) <= ('9' as u32)) || (('a' as u32) <= (c as u32) && (c
        as u32) <= ('f' as u32))
}

/// A hexadecimal digit of either case.
pub open spec fn is_hex_digit_ci(c: char) -> bool {
    is_hex_digit(c) || (('A' as u32) <= (c as u32) && (c as u32) <= ('F' as u32))
}

/// A full-length commit identifier: forty lowercase hexadecimal digits.
pub open spec fn is_oid(s: Seq<char>) -> bool {
    s.len() == 40 && forall|i: int| 0 <= i < s.len() ==> is_hex_digit(#[trigger] s[i])
}

/// Checks whether a string is a full-length commit identifier.
pub fn is_oid_string(s: &String) -> (r: bool)
    ensures
        r == is_oid(s@),
{
    let cs = chars_of(s.as_str());
    if cs.len() != 40 {
        return false;
    }
    let mut i: usize = 0;
    while i < 40
        invariant
            cs@ == s@,
            cs@.len() == 40,
            i <= 40,
            forall|j: int| 0 <= j < i ==> is_hex_digit(#[trigger] cs@[j]),
        decreases 40 - i,
    {
        let c = cs[i];
        let u = c as u32;
        let is_digit = (('0' as u32) <= u && u <= ('9' as u32)) || (('a' as u32) <= u && u <= (
        'f' as u32));
        if !is_digit {
            return false;
        }
        i = i + 1;
    }
    true
}

/// All bytes are plain ASCII.
pub open spec fn is_ascii_bytes(bs: Seq<u8>) -> bool {
    forall|i: int| 0 <= i < bs.len() ==> bs[i] < 128
}

/// The characters a byte sequence spells, one byte per character.
pub open spec fn ascii_seq(bs: Seq<u8>) -> Seq<char> {
    Seq::new(bs.len(), |i: int| bs[i] as char)
}

/// Checks that every byte is plain ASCII.
pub fn bytes_are_ascii(bytes: &Vec<u8>) -> (r: bool)
    ensures
        r == is_ascii_bytes(bytes@),
{
    let n = bytes.len();
    let mut i: usize = 0;
    while i < n
        invariant
            n == bytes@.len(),
            i <= n,
            forall|j: int| 0 <= j < i ==> bytes@[j] < 128,
        decreases n - i,
    {
        if bytes[i] >= 128 {
            return false;
        }
        i = i + 1;
    }
    true
}

/// Turns ASCII bytes into the string they spell.
pub fn ascii_to_string(bytes: &Vec<u8>) -> (r: String)
    requires
        is_ascii_bytes(bytes@),
    ensures
        r@ == ascii_seq(bytes@),
{
    let n = bytes.len();
    let mut r = String::new();
    let mut i: usize = 0;
    while i < n
        invariant
            n == bytes@.len(),
            i <= n,
            is_ascii_bytes(bytes@),
            r@ == ascii_seq(bytes@).subrange(0, i as int),
        decreases n - i,
    {
        let b = bytes[i];
        push_char(&mut r, b as char);
        i = i + 1;
        proof {
            assert(r@ =~= ascii_seq(bytes@).subrange(0, i as int));
        }
    }
    proof {
        assert(r@ =~= ascii_seq(bytes@));
    }
    r
}

/// Index of the first line feed in `s`, or `s.len()` if there is none.
pub open spec fn first_nl(s: Seq<u8>) -> int
    decreases s.len(),
{
    if s.len() == 0 {
        0
    } else if s[0] == 10u8 {
        0
    } else {
        1 + first_nl(s.drop_first())
    }
}

pub proof fn lemma_first_nl(s: Seq<u8>)
    ensures
        0 <= first_nl(s) <= s.len(),
        first_nl(s) < s.len() ==> s[first_nl(s)] == 10u8,
        forall|j: int| 0 <= j < first_nl(s) ==> s[j] != 10u8,
    decreases s.len(),
{
    if s.len() > 0 && s[0] != 10u8 {
        lemma_first_nl(s.drop_first());
        assert forall|j: int| 0 <= j < first_nl(s) implies s[j] != 10u8 by {
            if j > 0 {
                assert(s.drop_first()[j - 1] != 10u8);
            }
        }
    }
}

/// Pins `first_nl` down from a scan that saw no line feed before `k`.
pub proof fn lemma_first_nl_at(s: Seq<u8>, k: int)
    requires
        0 <= k <= s.len(),
        forall|j: int| 0 <= j < k ==> s[j] != 10u8,
        k < s.len() ==> s[k] == 10u8,
    ensures
        k < s.len() ==> first_nl(s) == k,
        k == s.len() ==> first_nl(s) == s.len(),
    decreases k,
{
    if k == 0 {
    } else {
        assert(s[0] != 10u8);
        lemma_first_nl_at(s.drop_first(), k - 1);
    }
}

/// A line with its carriage return removed, if it carries one.
pub open spec fn strip_cr(l: Seq<u8>) -> Seq<u8> {
    if l.len() > 0 && l.last() == 13u8 {
        l.drop_last()
    } else {
        l
    }
}

/// The physical lines of a byte sequence: split on line feeds, each line
/// stripped of its line feed and of a carriage return directly before it;
/// a last line without a line feed is kept as it stands.
pub open spec fn split_lines_spec(s: Seq<u8>) -> Seq<Seq<u8>>
    decreases s.len(),
    via split_lines_spec_dec
{
    if s.len() == 0 {
        Seq::empty()
    } else if first_nl(s) == s.len() {
        seq![s]
    } else {
        seq![strip_cr(s.subrange(0, first_nl(s)))] + split_lines_spec(
            s.subrange(first_nl(s) + 1, s.len() as int),
        )
    }
}

#[via_fn]
proof fn split_lines_spec_dec(s: Seq<u8>) {
    lemma_first_nl(s);
}

/// Splits bytes into physical lines.
pub fn split_lines(bytes: &Vec<u8>) -> (r: Vec<Vec<u8>>)
    ensures
        r.deep_view() == split_lines_spec(bytes@),
{
    let n = bytes.len();
    let mut r: Vec<Vec<u8>> = Vec::new();
    let mut cur: Vec<u8> = Vec::new();
    let ghost mut start: int = 0;
    let mut i: usize = 0;
    proof {
        assert(bytes@.subrange(0, n as int) =~= bytes@);
        assert(r.deep_view() + split_lines_spec(bytes@) =~~= split_lines_spec(bytes@));
    }
    while i < n
        invariant
            n == bytes@.len(),
            i <= n,
            0 <= start <= i as int,
            cur@ == bytes@.subrange(start, i as int),
            forall|j: int| start <= j < i as int ==> bytes@[j] != 10u8,
            split_lines_spec(bytes@) == r.deep_view() + split_lines_spec(
                bytes@.subrange(start, n as int),
            ),
        decreases n - i,
    {
        let b = bytes[i];
        if b == 10 {
            proof {
                let tail = bytes@.subrange(start, n as int);
                assert forall|j: int| 0 <= j < i as int - start implies tail[j] != 10u8 by {
                    assert(tail[j] == bytes@[start + j]);
                }
                assert(tail[i as int - start] == 10u8);
                lemma_first_nl_at(tail, i as int - start);
                assert(tail.subrange(0, i as int - start) =~= bytes@.subrange(start, i as int));
                assert(tail.subrange(i as int - start + 1, tail.len() as int) =~= bytes@.subrange(
                    i as int + 1,
                    n as int,
                ));
            }
            if cur.len() > 0 && cur[cur.len() - 1] == 13 {
                cur.pop();
            }
            proof {
                assert(cur@ =~= strip_cr(bytes@.subrange(start, i as int)));
            }
            r.push(cur);
            cur = Vec::new();
            proof {
                start = i as int + 1;
                assert(cur@ =~= bytes@.subrange(start, i as int + 1));
                assert(r.deep_view() + split_lines_spec(bytes@.subrange(start, n as int))
                    =~~= split_lines_spec(bytes@));
            }
        } else {
            cur.push(b);
            proof {
                assert(cur@ =~= bytes@.subrange(start, i as int + 1));
            }
        }
        i = i + 1;
    }
    proof {
        let tail = bytes@.subrange(start, n as int);
        assert forall|j: int| 0 <= j < tail.len() implies tail[j] != 10u8 by {
            assert(tail[j] == bytes@[start + j]);
        }
        lemma_first_nl_at(tail, tail.len() as int);
    }
    if cur.len() > 0 {
        r.push(cur);
        proof {
            assert(r.deep_view() =~~= split_lines_spec(bytes@));
        }
    } else {
        proof {
            assert(bytes@.subrange(start, n as int).len() == 0);
            assert(r.deep_view() =~~= split_lines_spec(bytes@));
        }
    }
    r
}

/// The decimal digit character for a value below ten.
pub open spec fn dec_digit(d: int) -> char {
    if d == 0 {
        '0'
    } else if d == 1 {
        '1'
    } else if d == 2 {
        '2'
    } else if d == 3 {
        '3'
    } else if d == 4 {
        '4'
    } else if d == 5 {
        '5'
    } else if d == 6 {
        '6'
    } else if d == 7 {
        '7'
    } else if d == 8 {
        '8'
    } else {
        '9'
    }
}

/// The decimal representation of a number, most significant digit first.
pub open spec fn dec_rep(n: nat) -> Seq<char>
    decreases n,
{
    if n < 10 {
        seq![dec_digit(n as int)]
    } else {
        dec_rep(n / 10).push(dec_digit((n % 10) as int))
    }
}

fn dec_digit_exec(d: usize) -> (r: char)
    requires
        d < 10,
    ensures
        r == dec_digit(d as int),
{
    if d == 0 {
        '0'
    } else if d == 1 {
        '1'
    } else if d == 2 {
        '2'
    } else if d == 3 {
        '3'
    } else if d == 4 {
        '4'
    } else if d == 5 {
        '5'
    } else if d == 6 {
        '6'
    } else if d == 7 {
        '7'
    } else if d == 8 {
        '8'
    } else {
        '9'
    }
}

fn push_dec(out: &mut String, n: usize)
    ensures
        final(out)@ == old(out)@ + dec_rep(n as nat),
    decreases n,
{
    if n >= 10 {
        assert(n / 10 < n && n % 10 < 10) by (nonlinear_arith)
            requires
                n >= 10,
        ;
        push_dec(out, n / 10);
        push_char(out, dec_digit_exec(n % 10));
        proof {
            assert(out@ =~= old(out)@ + dec_rep(n as nat));
        }
    } else {
        push_char(out, dec_digit_exec(n));
        proof {
            assert(out@ =~= old(out)@ + dec_rep(n as nat));
        }
    }
}

/// Renders a number in decimal.
pub fn usize_to_dec(n: usize) -> (r: String)
    ensures
        r@ == dec_rep(n as nat),
{
    let mut r = String::new();
    push_dec(&mut r, n);
    proof {
        assert(r@ =~= dec_rep(n as nat));
    }
    r
}

/// A run of spaces.
pub open spec fn spaces(n: nat) -> Seq<char>
    decreases n,
{
    if n == 0 {
        Seq::empty()
    } else {
        spaces((n - 1) as nat).push(' ')
    }
}

/// The decimal representation of `n`, left-padded with spaces to `width`.
pub open spec fn dec_padded(n: nat, width: nat) -> Seq<char> {
    if dec_rep(n).len() >= width {
        dec_rep(n)
    } else {
        spaces((width - dec_rep(n).len()) as nat) + dec_rep(n)
    }
}

/// Renders a number in decimal, left-padded with spaces to `width`.
pub fn usize_to_dec_padded(n: usize, width: usize) -> (r: String)
    ensures
        r@ == dec_padded(n as nat, width as nat),
{
    let digits = usize_to_dec(n);
    let digit_chars = chars_of(digits.as_str());
    let mut r = String::new();
    if digit_chars.len() < width {
        let pad = width - digit_chars.len();
        let mut k: usize = 0;
        while k < pad
            invariant
                k <= pad,
                r@ == spaces(k as nat),
            decreases pad - k,
        {
            push_char(&mut r, ' ');
            k = k + 1;
        }
    }
    r.append(digits.as_str());
    proof {
        assert(r@ =~= dec_padded(n as nat, width as nat));
    }
    r
}

/// The first line of a message: the characters before the first line feed,
/// stripped of a carriage return directly before it.
pub open spec fn first_line_spec(s: Seq<char>) -> Seq<char>
    decreases s.len(),
{
    if s.len() == 0 {
        Seq::empty()
    } else if s[0] == '\n' {
        Seq::empty()
    } else if s[0] == '\r' && s.len() >= 2 && s[1] == '\n' {
        Seq::empty()
    } else {
        seq![s[0]] + first_line_spec(s.drop_first())
    }
}

/// Extracts the first line of a message.
pub fn first_line(s: &String) -> (r: String)
    ensures
        r@ == first_line_spec(s@),
{
    let cs = chars_of(s.as_str());
    let n = cs.len();
    let mut r = String::new();
    let mut i: usize = 0;
    proof {
        assert(s@.skip(0) =~= s@);
        assert(r@ + first_line_spec(s@) =~= first_line_spec(s@));
    }
    while i < n
        invariant
            n == cs@.len(),
            cs@ == s@,
            i <= n,
            r@ == cs@.subrange(0, i as int),
            first_line_spec(s@) == r@ + first_line_spec(s@.skip(i as int)),
        decreases n - i,
    {
        let c = cs[i];
        if c == '\n' {
            proof {
                assert(s@.skip(i as int)[0] == '\n');
                assert(first_line_spec(s@.skip(i as int)) =~= Seq::<char>::empty());
                assert(r@ =~= first_line_spec(s@));
            }
            return r;
        }
        if c == '\r' && i + 1 < n && cs[i + 1] == '\n' {
            proof {
                let t = s@.skip(i as int);
                assert(t[0] == '\r' && t.len() >= 2 && t[1] == '\n');
                assert(first_line_spec(t) =~= Seq::<char>::empty());
                assert(r@ =~= first_line_spec(s@));
            }
            return r;
        }
        push_char(&mut r, c);
        i = i + 1;
        proof {
            assert(r@ =~= cs@.subrange(0, i as int));
            let t = s@.skip(i as int - 1);
            assert(t[0] == c);
            assert(t.drop_first() =~= s@.skip(i as int));
            assert(first_line_spec(s@) =~= r@ + first_line_spec(s@.skip(i as int)));
        }
    }
    proof {
        assert(s@.skip(n as int).len() == 0);
        assert(r@ =~= s@);
        assert(first_line_spec(s@) =~= r@);
    }
    r
}

} // verus!
