//! Index-level text primitives: scanning runs of characters, splitting a
//! document into lines, trimming, splitting on commas, and small vector
//! helpers. Each spec function walks the sequence by index; each executable
//! function mirrors one of them exactly.

use vstd::prelude::*;
use vstd::string::StrSliceExecFns;
use crate::chars::ascii_alnum;
use crate::chars::ascii_space;
use crate::chars::is_ascii_alnum;
use crate::chars::is_ascii_space;

verus! {

/// The deep view of a character vector is its view: character sequences
/// nest without change.
pub broadcast proof fn lemma_deep_view_chars(v: Vec<char>)
    ensures
        #[trigger] v.deep_view() == v@,
{
    assert(v.deep_view() =~= v@);
}

/// First position at or after `i` whose character is not ASCII whitespace,
/// or the length of `s`.
pub open spec fn skip_spaces(s: Seq<char>, i: int) -> int
    decreases s.len() - i,
{
    if i < 0 || i >= s.len() {
        s.len() as int
    } else if is_ascii_space(s[i]) {
        skip_spaces(s, i + 1)
    } else {
        i
    }
}

/// First position at or after `i` whose character is ASCII whitespace, or
/// the length of `s`: the end of the whitespace-delimited token at `i`.
pub open spec fn token_end(s: Seq<char>, i: int) -> int
    decreases s.len() - i,
{
    if i < 0 || i >= s.len() {
        s.len() as int
    } else if !is_ascii_space(s[i]) {
        token_end(s, i + 1)
    } else {
        i
    }
}

/// First position at or after `i` whose character is not ASCII
/// alphanumeric, or the length of `s`: the end of a directive keyword.
pub open spec fn alnum_end(s: Seq<char>, i: int) -> int
    decreases s.len() - i,
{
    if i < 0 || i >= s.len() {
        s.len() as int
    } else if is_ascii_alnum(s[i]) {
        alnum_end(s, i + 1)
    } else {
        i
    }
}

/// First position at or after `i` holding ASCII whitespace or `(`, or the
/// length of `s`: the end of a macro name in a definition.
pub open spec fn name_end(s: Seq<char>, i: int) -> int
    decreases s.len() - i,
{
    if i < 0 || i >= s.len() {
        s.len() as int
    } else if !is_ascii_space(s[i]) && s[i] != '(' {
        name_end(s, i + 1)
    } else {
        i
    }
}

/// First position at or after `i` holding `)`, or the length of `s`.
pub open spec fn close_paren(s: Seq<char>, i: int) -> int
    decreases s.len() - i,
{
    if i < 0 || i >= s.len() {
        s.len() as int
    } else if s[i] != ')' {
        close_paren(s, i + 1)
    } else {
        i
    }
}

/// First position at or after `i` holding a line feed, or the length of `s`.
pub open spec fn line_end(s: Seq<char>, i: int) -> int
    decreases s.len() - i,
{
    if i < 0 || i >= s.len() {
        s.len() as int
    } else if s[i] != '\n' {
        line_end(s, i + 1)
    } else {
        i
    }
}

/// First position at or after `i` holding a comma, or the length of `s`.
pub open spec fn comma_end(s: Seq<char>, i: int) -> int
    decreases s.len() - i,
{
    if i < 0 || i >= s.len() {
        s.len() as int
    } else if s[i] != ',' {
        comma_end(s, i + 1)
    } else {
        i
    }
}

/// Every scanner stays within `[i, s.len()]`.
pub proof fn lemma_skip_spaces_bounds(s: Seq<char>, i: int)
    requires
        0 <= i <= s.len(),
    ensures
        i <= skip_spaces(s, i) <= s.len(),
    decreases s.len() - i,
{
    if i < s.len() && is_ascii_space(s[i]) {
        lemma_skip_spaces_bounds(s, i + 1);
    }
}

pub proof fn lemma_token_end_bounds(s: Seq<char>, i: int)
    requires
        0 <= i <= s.len(),
    ensures
        i <= token_end(s, i) <= s.len(),
    decreases s.len() - i,
{
    if i < s.len() && !is_ascii_space(s[i]) {
        lemma_token_end_bounds(s, i + 1);
    }
}

pub proof fn lemma_alnum_end_bounds(s: Seq<char>, i: int)
    requires
        0 <= i <= s.len(),
    ensures
        i <= alnum_end(s, i) <= s.len(),
    decreases s.len() - i,
{
    if i < s.len() && is_ascii_alnum(s[i]) {
        lemma_alnum_end_bounds(s, i + 1);
    }
}

pub proof fn lemma_name_end_bounds(s: Seq<char>, i: int)
    requires
        0 <= i <= s.len(),
    ensures
        i <= name_end(s, i) <= s.len(),
    decreases s.len() - i,
{
    if i < s.len() && !is_ascii_space(s[i]) && s[i] != '(' {
        lemma_name_end_bounds(s, i + 1);
    }
}

pub proof fn lemma_close_paren_bounds(s: Seq<char>, i: int)
    requires
        0 <= i <= s.len(),
    ensures
        i <= close_paren(s, i) <= s.len(),
    decreases s.len() - i,
{
    if i < s.len() && s[i] != ')' {
        lemma_close_paren_bounds(s, i + 1);
    }
}

pub proof fn lemma_line_end_bounds(s: Seq<char>, i: int)
    requires
        0 <= i <= s.len(),
    ensures
        i <= line_end(s, i) <= s.len(),
    decreases s.len() - i,
{
    if i < s.len() && s[i] != '\n' {
        lemma_line_end_bounds(s, i + 1);
    }
}

pub proof fn lemma_comma_end_bounds(s: Seq<char>, i: int)
    requires
        0 <= i <= s.len(),
    ensures
        i <= comma_end(s, i) <= s.len(),
    decreases s.len() - i,
{
    if i < s.len() && s[i] != ',' {
        lemma_comma_end_bounds(s, i + 1);
    }
}

/// Executable mirror of [`skip_spaces`].
pub fn skip_spaces_at(s: &Vec<char>, from: usize) -> (r: usize)
    requires
        from <= s@.len(),
    ensures
        r as int == skip_spaces(s@, from as int),
        from <= r <= s@.len(),
{
    let mut i = from;
    while i < s.len() && ascii_space(s[i])
        invariant
            from <= i <= s@.len(),
            skip_spaces(s@, from as int) == skip_spaces(s@, i as int),
        decreases s@.len() - i,
    {
        i = i + 1;
    }
    proof {
        lemma_skip_spaces_bounds(s@, i as int);
    }
    i
}

/// Executable mirror of [`token_end`].
pub fn token_end_at(s: &Vec<char>, from: usize) -> (r: usize)
    requires
        from <= s@.len(),
    ensures
        r as int == token_end(s@, from as int),
        from <= r <= s@.len(),
{
    let mut i = from;
    while i < s.len() && !ascii_space(s[i])
        invariant
            from <= i <= s@.len(),
            token_end(s@, from as int) == token_end(s@, i as int),
        decreases s@.len() - i,
    {
        i = i + 1;
    }
    proof {
        lemma_token_end_bounds(s@, i as int);
    }
    i
}

/// Executable mirror of [`alnum_end`].
pub fn alnum_end_at(s: &Vec<char>, from: usize) -> (r: usize)
    requires
        from <= s@.len(),
    ensures
        r as int == alnum_end(s@, from as int),
        from <= r <= s@.len(),
{
    let mut i = from;
    while i < s.len() && ascii_alnum(s[i])
        invariant
            from <= i <= s@.len(),
            alnum_end(s@, from as int) == alnum_end(s@, i as int),
        decreases s@.len() - i,
    {
        i = i + 1;
    }
    proof {
        lemma_alnum_end_bounds(s@, i as int);
    }
    i
}

/// Executable mirror of [`name_end`].
pub fn name_end_at(s: &Vec<char>, from: usize) -> (r: usize)
    requires
        from <= s@.len(),
    ensures
        r as int == name_end(s@, from as int),
        from <= r <= s@.len(),
{
    let mut i = from;
    while i < s.len() && !ascii_space(s[i]) && s[i] != '('
        invariant
            from <= i <= s@.len(),
            name_end(s@, from as int) == name_end(s@, i as int),
        decreases s@.len() - i,
    {
        i = i + 1;
    }
    proof {
        lemma_name_end_bounds(s@, i as int);
    }
    i
}

/// Executable mirror of [`close_paren`].
pub fn close_paren_at(s: &Vec<char>, from: usize) -> (r: usize)
    requires
        from <= s@.len(),
    ensures
        r as int == close_paren(s@, from as int),
        from <= r <= s@.len(),
{
    let mut i = from;
    while i < s.len() && s[i] != ')'
        invariant
            from <= i <= s@.len(),
            close_paren(s@, from as int) == close_paren(s@, i as int),
        decreases s@.len() - i,
    {
        i = i + 1;
    }
    proof {
        lemma_close_paren_bounds(s@, i as int);
    }
    i
}

/// Executable mirror of [`line_end`].
pub fn line_end_at(s: &Vec<char>, from: usize) -> (r: usize)
    requires
        from <= s@.len(),
    ensures
        r as int == line_end(s@, from as int),
        from <= r <= s@.len(),
{
    let mut i = from;
    while i < s.len() && s[i] != '\n'
        invariant
            from <= i <= s@.len(),
            line_end(s@, from as int) == line_end(s@, i as int),
        decreases s@.len() - i,
    {
        i = i + 1;
    }
    proof {
        lemma_line_end_bounds(s@, i as int);
    }
    i
}

/// Executable mirror of [`comma_end`].
pub fn comma_end_at(s: &Vec<char>, from: usize) -> (r: usize)
    requires
        from <= s@.len(),
    ensures
        r as int == comma_end(s@, from as int),
        from <= r <= s@.len(),
{
    let mut i = from;
    while i < s.len() && s[i] != ','
        invariant
            from <= i <= s@.len(),
            comma_end(s@, from as int) == comma_end(s@, i as int),
        decreases s@.len() - i,
    {
        i = i + 1;
    }
    proof {
        lemma_comma_end_bounds(s@, i as int);
    }
    i
}

/// A line with a trailing carriage return dropped; line feeds split lines,
/// and a carriage return directly before one belongs to the terminator.
pub open spec fn strip_cr(l: Seq<char>) -> Seq<char> {
    if l.len() > 0 && l[l.len() - 1] == '\r' {
        l.subrange(0, l.len() - 1)
    } else {
        l
    }
}

/// The lines of `s` from position `i` on: split at each line feed, dropping
/// a carriage return right before it; a final unterminated segment is kept
/// whole, and a trailing terminator opens no empty line.
pub open spec fn split_lines_from(s: Seq<char>, i: int) -> Seq<Seq<char>>
    decreases s.len() - i,
    via split_lines_from_dec
{
    if i < 0 || i >= s.len() {
        Seq::empty()
    } else {
        let k = line_end(s, i);
        if k >= s.len() {
            seq![s.subrange(i, s.len() as int)]
        } else {
            seq![strip_cr(s.subrange(i, k))] + split_lines_from(s, k + 1)
        }
    }
}

#[via_fn]
proof fn split_lines_from_dec(s: Seq<char>, i: int) {
    if 0 <= i < s.len() {
        lemma_line_end_bounds(s, i);
    }
}

/// The lines of a document.
pub open spec fn split_lines(s: Seq<char>) -> Seq<Seq<char>> {
    split_lines_from(s, 0)
}

/// How many line feeds `s` holds from position `i` on.
pub open spec fn count_nl_from(s: Seq<char>, i: int) -> int
    decreases s.len() - i,
{
    if i < 0 || i >= s.len() {
        0
    } else if s[i] == '\n' {
        1 + count_nl_from(s, i + 1)
    } else {
        count_nl_from(s, i + 1)
    }
}

/// How many line feeds `s` holds.
pub open spec fn count_nl(s: Seq<char>) -> int {
    count_nl_from(s, 0)
}

pub proof fn lemma_count_nl_bounds(s: Seq<char>, i: int)
    requires
        0 <= i <= s.len(),
    ensures
        0 <= count_nl_from(s, i) <= s.len() - i,
    decreases s.len() - i,
{
    if i < s.len() {
        lemma_count_nl_bounds(s, i + 1);
    }
}

/// Executable mirror of [`split_lines`].
pub fn split_lines_exec(s: &Vec<char>) -> (r: Vec<Vec<char>>)
    ensures
        r.deep_view() == split_lines(s@),
{
    let mut r: Vec<Vec<char>> = Vec::new();
    let mut i: usize = 0;
    while i < s.len()
        invariant
            i <= s@.len(),
            split_lines(s@) == r.deep_view() + split_lines_from(s@, i as int),
        decreases s@.len() - i,
    {
        let ghost r0 = r.deep_view();
        let k = line_end_at(s, i);
        if k == s.len() {
            let piece = copy_range(s, i, k);
            r.push(piece);
            proof {
                assert(r.deep_view() =~~= r0.push(s@.subrange(i as int, s@.len() as int)));
                assert(r.deep_view() + split_lines_from(s@, s@.len() as int) =~~= r0
                    + split_lines_from(s@, i as int));
            }
            i = s.len();
        } else {
            let mut piece = copy_range(s, i, k);
            if piece.len() > 0 && piece[piece.len() - 1] == '\r' {
                piece.pop();
            }
            proof {
                assert(piece@ == strip_cr(s@.subrange(i as int, k as int)));
            }
            r.push(piece);
            proof {
                assert(r.deep_view() =~~= r0.push(strip_cr(s@.subrange(i as int, k as int))));
                assert(r.deep_view() + split_lines_from(s@, k + 1) =~~= r0 + split_lines_from(
                    s@,
                    i as int,
                ));
            }
            i = k + 1;
        }
    }
    proof {
        assert(r.deep_view() + split_lines_from(s@, i as int) =~~= r.deep_view());
    }
    r
}

/// Executable mirror of [`count_nl`].
pub fn count_nl_exec(s: &Vec<char>) -> (r: usize)
    ensures
        r as int == count_nl(s@),
{
    let mut n: usize = 0;
    let mut i: usize = 0;
    while i < s.len()
        invariant
            i <= s@.len(),
            n <= i,
            count_nl(s@) == n + count_nl_from(s@, i as int),
        decreases s@.len() - i,
    {
        if s[i] == '\n' {
            n = n + 1;
        }
        i = i + 1;
    }
    n
}

/// `s` without leading or trailing ASCII whitespace.
pub open spec fn rev_skip_spaces(s: Seq<char>, j: int) -> int
    decreases j,
{
    if j <= 0 || j > s.len() {
        0
    } else if is_ascii_space(s[j - 1]) {
        rev_skip_spaces(s, j - 1)
    } else {
        j
    }
}

pub open spec fn trim(s: Seq<char>) -> Seq<char> {
    let a = skip_spaces(s, 0);
    let b = rev_skip_spaces(s, s.len() as int);
    if a <= b {
        s.subrange(a, b)
    } else {
        Seq::empty()
    }
}

pub proof fn lemma_rev_skip_spaces_bounds(s: Seq<char>, j: int)
    requires
        0 <= j <= s.len(),
    ensures
        0 <= rev_skip_spaces(s, j) <= j,
    decreases j,
{
    if j > 0 && is_ascii_space(s[j - 1]) {
        lemma_rev_skip_spaces_bounds(s, j - 1);
    }
}

/// Executable mirror of [`trim`].
pub fn trim_exec(s: &Vec<char>) -> (r: Vec<char>)
    ensures
        r@ == trim(s@),
{
    let a = skip_spaces_at(s, 0);
    let mut b: usize = s.len();
    while b > 0 && ascii_space(s[b - 1])
        invariant
            b <= s@.len(),
            rev_skip_spaces(s@, s@.len() as int) == rev_skip_spaces(s@, b as int),
        decreases b,
    {
        b = b - 1;
    }
    proof {
        lemma_rev_skip_spaces_bounds(s@, b as int);
    }
    if a <= b {
        copy_range(s, a, b)
    } else {
        Vec::new()
    }
}

/// The pieces of `s` from position `i` on, split at every comma; empty
/// pieces are kept, and the text is taken verbatim.
pub open spec fn split_commas_from(s: Seq<char>, i: int) -> Seq<Seq<char>>
    decreases s.len() - i,
    via split_commas_from_dec
{
    if i < 0 || i > s.len() {
        Seq::empty()
    } else {
        let k = comma_end(s, i);
        if k >= s.len() {
            seq![s.subrange(i, s.len() as int)]
        } else {
            seq![s.subrange(i, k)] + split_commas_from(s, k + 1)
        }
    }
}

#[via_fn]
proof fn split_commas_from_dec(s: Seq<char>, i: int) {
    if 0 <= i <= s.len() {
        lemma_comma_end_bounds(s, i);
    }
}

/// The comma-separated pieces of a whole sequence.
pub open spec fn split_commas(s: Seq<char>) -> Seq<Seq<char>> {
    split_commas_from(s, 0)
}

/// Executable mirror of [`split_commas`].
pub fn split_commas_exec(s: &Vec<char>) -> (r: Vec<Vec<char>>)
    ensures
        r.deep_view() == split_commas(s@),
{
    let mut r: Vec<Vec<char>> = Vec::new();
    let mut i: usize = 0;
    loop
        invariant
            i <= s@.len(),
            split_commas(s@) == r.deep_view() + split_commas_from(s@, i as int),
        decreases s@.len() - i,
    {
        let ghost r0 = r.deep_view();
        let k = comma_end_at(s, i);
        let piece = copy_range(s, i, k);
        r.push(piece);
        if k == s.len() {
            proof {
                assert(r.deep_view() =~~= r0.push(s@.subrange(i as int, s@.len() as int)));
                assert(r.deep_view() =~~= r0 + split_commas_from(s@, i as int));
            }
            return r;
        }
        proof {
            assert(r.deep_view() =~~= r0.push(s@.subrange(i as int, k as int)));
            assert(r.deep_view() + split_commas_from(s@, k + 1) =~~= r0 + split_commas_from(
                s@,
                i as int,
            ));
        }
        i = k + 1;
    }
}

/// Append every character of `s` to `out`.
pub fn push_all(out: &mut Vec<char>, s: &Vec<char>)
    ensures
        final(out)@ == old(out)@ + s@,
{
    let mut j: usize = 0;
    while j < s.len()
        invariant
            j <= s@.len(),
            out@ == old(out)@ + s@.subrange(0, j as int),
        decreases s@.len() - j,
    {
        out.push(s[j]);
        j = j + 1;
        proof {
            assert(out@ =~= old(out)@ + s@.subrange(0, j as int));
        }
    }
    proof {
        assert(old(out)@ + s@.subrange(0, s@.len() as int) =~= old(out)@ + s@);
    }
}

/// The characters of `s` between `a` and `b`, as a fresh vector.
pub fn copy_range(s: &Vec<char>, a: usize, b: usize) -> (r: Vec<char>)
    requires
        a <= b <= s@.len(),
    ensures
        r@ == s@.subrange(a as int, b as int),
{
    let mut r: Vec<char> = Vec::new();
    let mut j = a;
    while j < b
        invariant
            a <= j <= b <= s@.len(),
            r@ == s@.subrange(a as int, j as int),
        decreases b - j,
    {
        r.push(s[j]);
        j = j + 1;
        proof {
            assert(r@ =~= s@.subrange(a as int, j as int));
        }
    }
    r
}

/// Whether the characters of `s` starting at `i` spell out `name`.
pub fn matches_at(s: &Vec<char>, i: usize, name: &Vec<char>) -> (r: bool)
    requires
        i <= s@.len(),
    ensures
        r == (i + name@.len() <= s@.len() && s@.subrange(i as int, i + name@.len()) == name@),
{
    if name.len() > s.len() - i {
        return false;
    }
    let mut j: usize = 0;
    while j < name.len()
        invariant
            i + name@.len() <= s@.len(),
            s@.len() <= usize::MAX,
            j <= name@.len(),
            forall|k: int| 0 <= k < j ==> s@[i + k] == name@[k],
        decreases name@.len() - j,
    {
        if s[i + j] != name[j] {
            proof {
                assert(s@.subrange(i as int, i + name@.len())[j as int] == s@[i + j]);
            }
            return false;
        }
        j = j + 1;
    }
    proof {
        assert(s@.subrange(i as int, i + name@.len()) =~= name@);
    }
    true
}

/// Whether two character vectors hold the same characters.
pub fn chars_eq(a: &Vec<char>, b: &Vec<char>) -> (r: bool)
    ensures
        r == (a@ == b@),
{
    if a.len() != b.len() {
        return false;
    }
    let r = matches_at(a, 0, b);
    proof {
        assert(a@.subrange(0, a@.len() as int) =~= a@);
    }
    r
}

/// Whether the character vector `a` spells out the string slice `s`.
pub fn chars_eq_str(a: &Vec<char>, s: &str) -> (r: bool)
    ensures
        r == (a@ == s@),
{
    let n = s.unicode_len();
    if a.len() != n {
        return false;
    }
    let mut j: usize = 0;
    while j < n
        invariant
            n == s@.len() == a@.len(),
            j <= n,
            forall|k: int| 0 <= k < j ==> a@[k] == s@[k],
        decreases n - j,
    {
        if a[j] != s.get_char(j) {
            return false;
        }
        j = j + 1;
    }
    proof {
        assert(a@ =~= s@);
    }
    true
}

} // verus!
