//! Character-sequence utilities shared by the parser, the status classifier
//! and the skeleton renderer: substring search (exact and ASCII
//! case-insensitive), splitting on separator characters, and decimal number
//! parsing with a default on malformed input.

use vstd::prelude::*;

verus! {

/// Whitespace as it may occur inside a single line: space, tab, carriage
/// return, vertical tab and form feed.
pub open spec fn is_space_char(c: char) -> bool {
    c == ' ' || c == '\t' || c == '\r' || c == '\u{b}' || c == '\u{c}'
}

/// Whether `c` is whitespace that may occur inside a line.
pub fn is_space(c: char) -> (r: bool)
    ensures
        r == is_space_char(c),
{
    c == ' ' || c == '\t' || c == '\r' || c == '\u{b}' || c == '\u{c}'
}

/// The code point of `c` with an ASCII upper-case letter folded to lower case.
pub open spec fn lower_code(c: char) -> int {
    if 'A' as int <= c as int && c as int <= 'Z' as int {
        c as int + 32
    } else {
        c as int
    }
}

/// `pat` occurs in `hay` at position `i`, compared case-insensitively
/// (ASCII folding).
pub open spec fn match_at_ci(hay: Seq<char>, pat: Seq<char>, i: int) -> bool {
    &&& 0 <= i
    &&& i + pat.len() <= hay.len()
    &&& forall|j: int| 0 <= j < pat.len() ==> lower_code(hay[i + j]) == lower_code(pat[j])
}

/// `pat` occurs somewhere in `hay`, compared case-insensitively.
pub open spec fn contains_ci(hay: Seq<char>, pat: Seq<char>) -> bool {
    exists|i: int| match_at_ci(hay, pat, i)
}

/// `pat` occurs in `hay` at position `i`, compared exactly.
pub open spec fn match_at(hay: Seq<char>, pat: Seq<char>, i: int) -> bool {
    &&& 0 <= i
    &&& i + pat.len() <= hay.len()
    &&& forall|j: int| 0 <= j < pat.len() ==> hay[i + j] == pat[j]
}

/// `pat` occurs somewhere in `hay`, compared exactly.
pub open spec fn contains_seq(hay: Seq<char>, pat: Seq<char>) -> bool {
    exists|i: int| match_at(hay, pat, i)
}

/// `hay` begins with `pat`, compared case-insensitively.
pub open spec fn starts_with_ci(hay: Seq<char>, pat: Seq<char>) -> bool {
    match_at_ci(hay, pat, 0)
}

/// `hay` ends with `pat`, compared exactly.
pub open spec fn ends_with_seq(hay: Seq<char>, pat: Seq<char>) -> bool {
    pat.len() <= hay.len() && match_at(hay, pat, hay.len() - pat.len())
}

/// Whether two characters are equal after ASCII case folding.
pub fn chars_eq_ci(a: char, b: char) -> (r: bool)
    ensures
        r == (lower_code(a) == lower_code(b)),
{
    let ac = a as u32;
    let bc = b as u32;
    let al = if 65 <= ac && ac <= 90 { ac + 32 } else { ac };
    let bl = if 65 <= bc && bc <= 90 { bc + 32 } else { bc };
    al == bl
}

/// The characters of `s`, in order, as a vector.
pub fn str_chars(s: &str) -> (v: Vec<char>)
    ensures
        v@ == s@,
{
    let n = s.unicode_len();
    let mut v: Vec<char> = Vec::new();
    let mut i: usize = 0;
    while i < n
        invariant
            n == s@.len(),
            i <= n,
            v@ == s@.take(i as int),
        decreases n - i,
    {
        let c = s.get_char(i);
        v.push(c);
        assert(v@ =~= s@.take(i + 1 as int));
        i += 1;
    }
    assert(v@ =~= s@);
    v
}

fn match_at_ci_exec(hay: &Vec<char>, pat: &Vec<char>, i: usize) -> (r: bool)
    requires
        i + pat@.len() <= hay@.len(),
    ensures
        r == match_at_ci(hay@, pat@, i as int),
{
    let _hay_len = hay.len();
    let mut j: usize = 0;
    while j < pat.len()
        invariant
            i + pat@.len() <= hay@.len(),
            hay@.len() <= usize::MAX,
            j <= pat@.len(),
            forall|k: int| 0 <= k < j ==> lower_code(hay@[i + k]) == lower_code(pat@[k]),
        decreases pat@.len() - j,
    {
        if !chars_eq_ci(hay[i + j], pat[j]) {
            assert(!match_at_ci(hay@, pat@, i as int));
            return false;
        }
        j += 1;
    }
    true
}

fn match_at_exec(hay: &Vec<char>, pat: &Vec<char>, i: usize) -> (r: bool)
    requires
        i + pat@.len() <= hay@.len(),
    ensures
        r == match_at(hay@, pat@, i as int),
{
    let _hay_len = hay.len();
    let mut j: usize = 0;
    while j < pat.len()
        invariant
            i + pat@.len() <= hay@.len(),
            hay@.len() <= usize::MAX,
            j <= pat@.len(),
            forall|k: int| 0 <= k < j ==> hay@[i + k] == pat@[k],
        decreases pat@.len() - j,
    {
        if hay[i + j] != pat[j] {
            assert(!match_at(hay@, pat@, i as int));
            return false;
        }
        j += 1;
    }
    true
}

/// Case-insensitive substring search.
pub fn contains_ci_exec(hay: &Vec<char>, pat: &Vec<char>) -> (r: bool)
    ensures
        r == contains_ci(hay@, pat@),
{
    if pat.len() > hay.len() {
        assert(forall|i: int| !match_at_ci(hay@, pat@, i));
        return false;
    }
    if pat.len() == 0 {
        assert(match_at_ci(hay@, pat@, 0));
        return true;
    }
    let bound = hay.len() - pat.len();
    let mut i: usize = 0;
    while i <= bound
        invariant
            1 <= pat@.len() <= hay@.len(),
            hay@.len() <= usize::MAX,
            bound == hay@.len() - pat@.len(),
            i <= bound + 1,
            forall|k: int| 0 <= k < i ==> !match_at_ci(hay@, pat@, k),
        decreases bound + 1 - i,
    {
        if match_at_ci_exec(hay, pat, i) {
            return true;
        }
        i += 1;
    }
    assert(forall|k: int| !match_at_ci(hay@, pat@, k));
    false
}

/// Exact substring search.
pub fn contains_exec(hay: &Vec<char>, pat: &Vec<char>) -> (r: bool)
    ensures
        r == contains_seq(hay@, pat@),
{
    if pat.len() > hay.len() {
        assert(forall|i: int| !match_at(hay@, pat@, i));
        return false;
    }
    if pat.len() == 0 {
        assert(match_at(hay@, pat@, 0));
        return true;
    }
    let bound = hay.len() - pat.len();
    let mut i: usize = 0;
    while i <= bound
        invariant
            1 <= pat@.len() <= hay@.len(),
            hay@.len() <= usize::MAX,
            bound == hay@.len() - pat@.len(),
            i <= bound + 1,
            forall|k: int| 0 <= k < i ==> !match_at(hay@, pat@, k),
        decreases bound + 1 - i,
    {
        if match_at_exec(hay, pat, i) {
            return true;
        }
        i += 1;
    }
    assert(forall|k: int| !match_at(hay@, pat@, k));
    false
}

/// Case-insensitive prefix test.
pub fn starts_with_ci_exec(hay: &Vec<char>, pat: &Vec<char>) -> (r: bool)
    ensures
        r == starts_with_ci(hay@, pat@),
{
    if pat.len() > hay.len() {
        return false;
    }
    match_at_ci_exec(hay, pat, 0)
}

/// Exact suffix test.
pub fn ends_with_exec(hay: &Vec<char>, pat: &Vec<char>) -> (r: bool)
    ensures
        r == ends_with_seq(hay@, pat@),
{
    if pat.len() > hay.len() {
        return false;
    }
    match_at_exec(hay, pat, hay.len() - pat.len())
}

/// Splitting `s` at every occurrence of `sep1` or `sep2` yields one piece
/// more than there are separators; an empty input yields one empty piece.
/// A final separator closes the last piece and opens a new, empty one; any
/// other final character extends the last piece.
pub open spec fn split_by(s: Seq<char>, sep1: char, sep2: char) -> Seq<Seq<char>>
    decreases s.len(),
{
    if s.len() == 0 {
        seq![Seq::<char>::empty()]
    } else {
        let r = split_by(s.drop_last(), sep1, sep2);
        if s.last() == sep1 || s.last() == sep2 {
            r.push(Seq::<char>::empty())
        } else {
            r.update(r.len() - 1, r.last().push(s.last()))
        }
    }
}

pub proof fn lemma_split_by_len(s: Seq<char>, sep1: char, sep2: char)
    ensures
        split_by(s, sep1, sep2).len() >= 1,
    decreases s.len(),
{
    if s.len() > 0 {
        lemma_split_by_len(s.drop_last(), sep1, sep2);
    }
}

/// How the pieces of a concatenation come from the pieces of its parts:
/// the piece at the seam joins the last piece of `a` with the first piece
/// of `b`; everything else carries over.
pub proof fn lemma_split_by_concat(a: Seq<char>, b: Seq<char>, sep1: char, sep2: char)
    ensures
        ({
            let ra = split_by(a, sep1, sep2);
            let rb = split_by(b, sep1, sep2);
            split_by(a + b, sep1, sep2) == ra.drop_last() + seq![ra.last() + rb.first()]
                + rb.drop_first()
        }),
    decreases b.len(),
{
    lemma_split_by_len(a, sep1, sep2);
    lemma_split_by_len(b, sep1, sep2);
    let ra = split_by(a, sep1, sep2);
    let rb = split_by(b, sep1, sep2);
    if b.len() == 0 {
        assert(a + b =~= a);
        assert(rb == seq![Seq::<char>::empty()]);
        assert(ra.last() + rb.first() =~= ra.last());
        assert(ra.drop_last() + seq![ra.last() + rb.first()] + rb.drop_first() =~~= ra);
    } else {
        let b0 = b.drop_last();
        let c = b.last();
        lemma_split_by_concat(a, b0, sep1, sep2);
        lemma_split_by_len(b0, sep1, sep2);
        let rb0 = split_by(b0, sep1, sep2);
        let whole0 = split_by(a + b0, sep1, sep2);
        assert((a + b).drop_last() =~= a + b0);
        assert((a + b).last() == c);
        let whole = split_by(a + b, sep1, sep2);
        if c == sep1 || c == sep2 {
            assert(whole == whole0.push(Seq::<char>::empty()));
            assert(rb == rb0.push(Seq::<char>::empty()));
            assert(rb.first() == rb0.first());
            assert(whole =~~= ra.drop_last() + seq![ra.last() + rb.first()] + rb.drop_first());
        } else {
            assert(whole == whole0.update(whole0.len() - 1, whole0.last().push(c)));
            assert(rb == rb0.update(rb0.len() - 1, rb0.last().push(c)));
            if rb0.len() == 1 {
                assert(rb.first() == rb0.first().push(c));
                assert(whole0.last() == ra.last() + rb0.first());
                assert((ra.last() + rb0.first()).push(c) =~= ra.last() + rb0.first().push(c));
                assert(whole =~~= ra.drop_last() + seq![ra.last() + rb.first()]
                    + rb.drop_first());
            } else {
                assert(rb.first() == rb0.first());
                assert(whole0.last() == rb0.last());
                assert(whole =~~= ra.drop_last() + seq![ra.last() + rb.first()]
                    + rb.drop_first());
            }
        }
    }
}

/// Splits `v` at every occurrence of `sep1` or `sep2`.
pub fn split_chars(v: &Vec<char>, sep1: char, sep2: char) -> (r: Vec<Vec<char>>)
    ensures
        r.deep_view() == split_by(v@, sep1, sep2),
        r@.len() >= 1,
{
    let mut out: Vec<Vec<char>> = Vec::new();
    let mut cur: Vec<char> = Vec::new();
    let mut i: usize = 0;
    proof {
        assert(v@.take(0) =~= Seq::<char>::empty());
        assert(out.deep_view().push(cur@) =~~= split_by(v@.take(0), sep1, sep2));
    }
    while i < v.len()
        invariant
            i <= v@.len(),
            out.deep_view().push(cur@) == split_by(v@.take(i as int), sep1, sep2),
        decreases v@.len() - i,
    {
        let c = v[i];
        let ghost prev = split_by(v@.take(i as int), sep1, sep2);
        let ghost prev_out = out.deep_view();
        let ghost prev_cur = cur@;
        proof {
            let t = v@.take(i + 1);
            assert(t.drop_last() =~= v@.take(i as int));
            assert(t.last() == v@[i as int]);
            lemma_split_by_len(v@.take(i as int), sep1, sep2);
        }
        if c == sep1 || c == sep2 {
            out.push(cur);
            cur = Vec::new();
            proof {
                assert(out.deep_view() =~~= prev_out.push(prev_cur));
                assert(out.deep_view().push(cur@) =~~= prev.push(Seq::<char>::empty()));
            }
        } else {
            cur.push(c);
            proof {
                assert(prev.last() == prev_cur);
                assert(out.deep_view() =~~= prev_out);
                assert(out.deep_view().push(cur@) =~~= prev.update(prev.len() - 1, prev.last().push(c)));
            }
        }
        i += 1;
    }
    proof {
        assert(v@.take(v@.len() as int) =~= v@);
    }
    let ghost prev_out = out.deep_view();
    let ghost prev_cur = cur@;
    out.push(cur);
    proof {
        assert(out.deep_view() =~~= prev_out.push(prev_cur));
    }
    out
}

/// A decimal digit.
pub open spec fn is_digit_char(c: char) -> bool {
    '0' as int <= c as int && c as int <= '9' as int
}

pub open spec fn digit_val(c: char) -> int {
    c as int - '0' as int
}

pub open spec fn all_digits(s: Seq<char>) -> bool {
    forall|i: int| 0 <= i < s.len() ==> is_digit_char(s[i])
}

/// The value of a digit string read in base ten.
pub open spec fn dec_val(s: Seq<char>) -> int
    decreases s.len(),
{
    if s.len() == 0 {
        0
    } else {
        dec_val(s.drop_last()) * 10 + digit_val(s.last())
    }
}

pub proof fn lemma_dec_val_nonneg(s: Seq<char>)
    requires
        all_digits(s),
    ensures
        dec_val(s) >= 0,
    decreases s.len(),
{
    if s.len() > 0 {
        assert(all_digits(s.drop_last()));
        lemma_dec_val_nonneg(s.drop_last());
    }
}

/// Appending digits never decreases the value of a digit string.
pub proof fn lemma_dec_val_prefix(s: Seq<char>, i: int)
    requires
        all_digits(s),
        0 <= i <= s.len(),
    ensures
        dec_val(s) >= dec_val(s.take(i)),
    decreases s.len() - i,
{
    if i < s.len() {
        let t = s.take(i + 1);
        assert(t.drop_last() =~= s.take(i));
        assert(all_digits(s.take(i)));
        lemma_dec_val_nonneg(s.take(i));
        assert(dec_val(t) == dec_val(s.take(i)) * 10 + digit_val(s[i]));
        assert(dec_val(s.take(i)) * 10 >= dec_val(s.take(i))) by (nonlinear_arith)
            requires
                dec_val(s.take(i)) >= 0,
        ;
        lemma_dec_val_prefix(s, i + 1);
    } else {
        assert(s.take(i) =~= s);
    }
}

/// The value `parse::<u64>` would yield, with `0` in place of any error:
/// a non-empty all-digit string within range reads in base ten, anything
/// else (empty, stray character, out of range) counts as zero.
pub open spec fn parsed_u64(s: Seq<char>) -> u64 {
    if s.len() > 0 && all_digits(s) && dec_val(s) <= u64::MAX {
        dec_val(s) as u64
    } else {
        0
    }
}

/// The same reading with `usize` range.
pub open spec fn parsed_usize(s: Seq<char>) -> usize {
    if s.len() > 0 && all_digits(s) && dec_val(s) <= usize::MAX {
        dec_val(s) as usize
    } else {
        0
    }
}

/// Reads a decimal number, yielding zero on malformed or out-of-range input.
pub fn parse_u64_or_zero(s: &Vec<char>) -> (r: u64)
    ensures
        r == parsed_u64(s@),
{
    if s.len() == 0 {
        return 0;
    }
    let mut acc: u64 = 0;
    let mut i: usize = 0;
    while i < s.len()
        invariant
            s@.len() > 0,
            i <= s@.len(),
            all_digits(s@.take(i as int)),
            acc == dec_val(s@.take(i as int)),
        decreases s@.len() - i,
    {
        let c = s[i];
        proof {
            assert(s@.take(i + 1).drop_last() =~= s@.take(i as int));
        }
        if c < '0' || c > '9' {
            assert(!is_digit_char(s@[i as int]));
            assert(!all_digits(s@));
            return 0;
        }
        let d = ((c as u32) - 48) as u64;
        assert(d == digit_val(s@[i as int]));
        if acc > (u64::MAX - d) / 10 {
            proof {
                assert(acc * 10 + d > u64::MAX) by (nonlinear_arith)
                    requires
                        acc > (u64::MAX - d) / 10,
                        0 <= d <= 9,
                        acc >= 0,
                ;
                assert(dec_val(s@.take(i + 1)) > u64::MAX);
                if all_digits(s@) {
                    lemma_dec_val_prefix(s@, i + 1);
                }
            }
            return 0;
        }
        proof {
            assert(acc * 10 + d <= u64::MAX) by (nonlinear_arith)
                requires
                    acc <= (u64::MAX - d) / 10,
                    0 <= d <= 9,
                    acc >= 0,
            ;
        }
        acc = acc * 10 + d;
        i += 1;
    }
    proof {
        assert(s@.take(s@.len() as int) =~= s@);
    }
    acc
}

/// Reads a decimal number into `usize`, yielding zero on malformed or
/// out-of-range input.
pub fn parse_usize_or_zero(s: &Vec<char>) -> (r: usize)
    ensures
        r == parsed_usize(s@),
{
    let v = parse_u64_or_zero(s);
    proof {
        assert(usize::MAX as int <= u64::MAX as int);
        if s@.len() > 0 && all_digits(s@) {
            lemma_dec_val_nonneg(s@);
        }
    }
    if v <= usize::MAX as u64 {
        v as usize
    } else {
        0
    }
}

/// The first `n` characters of `v`.
pub fn vec_take_chars(v: &Vec<char>, n: usize) -> (r: Vec<char>)
    requires
        n <= v@.len(),
    ensures
        r@ == v@.take(n as int),
{
    let mut r: Vec<char> = Vec::new();
    let mut i: usize = 0;
    while i < n
        invariant
            i <= n <= v@.len(),
            r@ == v@.take(i as int),
        decreases n - i,
    {
        r.push(v[i]);
        assert(r@ =~= v@.take(i + 1));
        i += 1;
    }
    r
}

/// The characters of `v` from position `n` on.
pub fn vec_skip_chars(v: &Vec<char>, n: usize) -> (r: Vec<char>)
    requires
        n <= v@.len(),
    ensures
        r@ == v@.skip(n as int),
{
    let mut r: Vec<char> = Vec::new();
    let mut i: usize = n;
    proof {
        assert(r@ =~= v@.subrange(n as int, n as int));
    }
    while i < v.len()
        invariant
            n <= i <= v@.len(),
            r@ == v@.subrange(n as int, i as int),
        decreases v@.len() - i,
    {
        r.push(v[i]);
        assert(r@ =~= v@.subrange(n as int, i + 1));
        i += 1;
    }
    proof {
        assert(v@.subrange(n as int, v@.len() as int) =~= v@.skip(n as int));
    }
    r
}

/// Whether two strings hold the same characters.
pub fn str_eq(a: &str, b: &str) -> (r: bool)
    ensures
        r == (a@ == b@),
{
    let va = str_chars(a);
    let vb = str_chars(b);
    if va.len() != vb.len() {
        return false;
    }
    let mut i: usize = 0;
    while i < va.len()
        invariant
            va@ == a@,
            vb@ == b@,
            va@.len() == vb@.len(),
            i <= va@.len(),
            forall|j: int| 0 <= j < i ==> va@[j] == vb@[j],
        decreases va@.len() - i,
    {
        if va[i] != vb[i] {
            return false;
        }
        i += 1;
    }
    assert(a@ =~= b@);
    true
}

/// What `char::is_alphanumeric` holds true of: a fixed character property,
/// depending on the character alone.
pub uninterp spec fn alphanumeric(c: char) -> bool;

/// An ASCII letter or digit.
pub open spec fn is_ascii_alnum(c: char) -> bool {
    ||| '0' as int <= c as int && c as int <= '9' as int
    ||| 'a' as int <= c as int && c as int <= 'z' as int
    ||| 'A' as int <= c as int && c as int <= 'Z' as int
}

/// Relies on char::is_alphanumeric: a pure character property; on the ASCII
/// range it holds of exactly the letters and digits.
#[verifier::external_body]
pub fn is_alphanumeric_char(c: char) -> (r: bool)
    ensures
        r == alphanumeric(c),
        (c as u32) < 128 ==> r == is_ascii_alnum(c),
{
    c.is_alphanumeric()
}

/// Relies on String::push: appends exactly one character at the end.
#[verifier::external_body]
pub fn push_char(s: &mut String, c: char)
    ensures
        final(s)@ == old(s)@.push(c),
{
    s.push(c);
}

/// Relies on String::pop: removes and returns the last character, or returns
/// None and leaves the string as it is when it is empty.
#[verifier::external_body]
pub fn pop_char(s: &mut String) -> (r: Option<char>)
    ensures
        old(s)@.len() == 0 ==> final(s)@ == old(s)@ && r is None,
        old(s)@.len() > 0 ==> final(s)@ == old(s)@.drop_last() && r == Some(old(s)@.last()),
{
    s.pop()
}

/// The characters of `v`, in order, as a string.
pub fn chars_string(v: &Vec<char>) -> (s: String)
    ensures
        s@ == v@,
{
    let mut s = String::new();
    let mut i: usize = 0;
    while i < v.len()
        invariant
            i <= v@.len(),
            s@ == v@.take(i as int),
        decreases v@.len() - i,
    {
        push_char(&mut s, v[i]);
        assert(s@ =~= v@.take(i + 1));
        i += 1;
    }
    assert(s@ =~= v@);
    s
}

/// Lexicographic order on character sequences by code point, the order in
/// which `str` comparison ranks valid text.
pub open spec fn lex_le(a: Seq<char>, b: Seq<char>) -> bool
    decreases a.len(),
{
    if a.len() == 0 {
        true
    } else if b.len() == 0 {
        false
    } else if (a[0] as int) < (b[0] as int) {
        true
    } else if (a[0] as int) > (b[0] as int) {
        false
    } else {
        lex_le(a.drop_first(), b.drop_first())
    }
}

pub proof fn lemma_lex_le_total(a: Seq<char>, b: Seq<char>)
    ensures
        lex_le(a, b) || lex_le(b, a),
    decreases a.len(),
{
    if a.len() > 0 && b.len() > 0 && a[0] == b[0] {
        lemma_lex_le_total(a.drop_first(), b.drop_first());
    }
}

pub proof fn lemma_lex_le_trans(a: Seq<char>, b: Seq<char>, c: Seq<char>)
    requires
        lex_le(a, b),
        lex_le(b, c),
    ensures
        lex_le(a, c),
    decreases a.len(),
{
    if a.len() > 0 && b.len() > 0 && c.len() > 0 && a[0] == b[0] && b[0] == c[0] {
        lemma_lex_le_trans(a.drop_first(), b.drop_first(), c.drop_first());
    }
}

/// Whether `a` orders at or before `b` in lexicographic code-point order.
pub fn lex_le_exec(a: &Vec<char>, b: &Vec<char>) -> (r: bool)
    ensures
        r == lex_le(a@, b@),
{
    let mut i: usize = 0;
    proof {
        assert(a@.skip(0) =~= a@);
        assert(b@.skip(0) =~= b@);
    }
    while i < a.len() && i < b.len()
        invariant
            i <= a@.len(),
            i <= b@.len(),
            lex_le(a@, b@) == lex_le(a@.skip(i as int), b@.skip(i as int)),
        decreases a@.len() - i,
    {
        let ca = a[i];
        let cb = b[i];
        proof {
            assert(a@.skip(i as int)[0] == a@[i as int]);
            assert(b@.skip(i as int)[0] == b@[i as int]);
            assert(a@.skip(i as int).drop_first() =~= a@.skip(i + 1));
            assert(b@.skip(i as int).drop_first() =~= b@.skip(i + 1));
        }
        if ca < cb {
            assert(lex_le(a@.skip(i as int), b@.skip(i as int)));
            return true;
        }
        if ca > cb {
            assert(!lex_le(a@.skip(i as int), b@.skip(i as int)));
            return false;
        }
        i += 1;
    }
    proof {
        if i == a@.len() {
            assert(lex_le(a@.skip(i as int), b@.skip(i as int)));
        } else {
            assert(b@.skip(i as int).len() == 0);
            assert(a@.skip(i as int).len() > 0);
            assert(!lex_le(a@.skip(i as int), b@.skip(i as int)));
        }
    }
    i == a.len()
}

} // verus!

