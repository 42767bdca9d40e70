//! Object-like macro substitution: rewriting every identifier-bounded
//! occurrence of a macro's name in a line with its replacement text.
//!
//! Matching is greedy and left-to-right over the original line: once a
//! position matches the name, the matched span is consumed whether or not
//! its boundaries allow the rewrite, and replacement text is never
//! rescanned for the same macro. A macro bound earlier in the table is
//! applied before one bound later, so a later macro does see the earlier
//! one's replacements.

use vstd::prelude::*;
use crate::chars::is_word_char;
use crate::chars::word_char;
use crate::text::copy_range;
use crate::text::matches_at;
use crate::text::push_all;

verus! {

/// Whether `name` occurs in `s` at position `i`.
pub open spec fn match_at(s: Seq<char>, i: int, name: Seq<char>) -> bool
    recommends
        0 <= i,
{
    i + name.len() <= s.len() && s.subrange(i, i + name.len()) == name
}

/// No identifier character directly before position `i`.
pub open spec fn start_ok(s: Seq<char>, i: int) -> bool {
    i <= 0 || !word_char(s[i - 1])
}

/// No identifier character at position `j`.
pub open spec fn end_ok(s: Seq<char>, j: int) -> bool {
    j >= s.len() || !word_char(s[j])
}

/// The line from position `i` on, with every identifier-bounded occurrence
/// of `name` replaced by `rep`. A matched span whose boundary check fails
/// is emitted unchanged but still consumed.
pub open spec fn replace_from(s: Seq<char>, i: int, name: Seq<char>, rep: Seq<char>) -> Seq<char>
    recommends
        name.len() > 0,
    decreases s.len() - i,
{
    if i < 0 || i >= s.len() {
        Seq::empty()
    } else if name.len() > 0 && match_at(s, i, name) {
        (if start_ok(s, i) && end_ok(s, i + name.len()) {
            rep
        } else {
            name
        }) + replace_from(s, i + name.len(), name, rep)
    } else {
        seq![s[i]] + replace_from(s, i + 1, name, rep)
    }
}

/// A whole line under one macro; a macro whose name is empty never matches.
pub open spec fn replace_all(s: Seq<char>, name: Seq<char>, rep: Seq<char>) -> Seq<char> {
    if name.len() == 0 {
        s
    } else {
        replace_from(s, 0, name, rep)
    }
}

/// An object-like macro: a name bound to fixed replacement text.
pub struct ObjMacro {
    pub name: Vec<char>,
    pub replacement: Vec<char>,
}

/// Spec-level image of [`ObjMacro`].
pub struct ObjMacroView {
    pub name: Seq<char>,
    pub replacement: Seq<char>,
}

impl View for ObjMacro {
    type V = ObjMacroView;

    open spec fn view(&self) -> ObjMacroView {
        ObjMacroView { name: self.name@, replacement: self.replacement@ }
    }
}

impl DeepView for ObjMacro {
    type V = ObjMacroView;

    open spec fn deep_view(&self) -> ObjMacroView {
        self.view()
    }
}

/// A line under the macros of the table from index `k` on, oldest first.
pub open spec fn apply_objs_from(s: Seq<char>, tbl: Seq<ObjMacroView>, k: int) -> Seq<char>
    decreases tbl.len() - k,
{
    if k < 0 || k >= tbl.len() {
        s
    } else {
        apply_objs_from(replace_all(s, tbl[k].name, tbl[k].replacement), tbl, k + 1)
    }
}

/// A line under the whole object-macro table, in table order.
pub open spec fn apply_objs(s: Seq<char>, tbl: Seq<ObjMacroView>) -> Seq<char> {
    apply_objs_from(s, tbl, 0)
}

/// Executable mirror of [`replace_all`].
pub fn replace_all_exec(s: &Vec<char>, name: &Vec<char>, rep: &Vec<char>) -> (r: Vec<char>)
    ensures
        r@ == replace_all(s@, name@, rep@),
{
    if name.len() == 0 {
        let r = copy_range(s, 0, s.len());
        proof {
            assert(s@.subrange(0, s@.len() as int) =~= s@);
        }
        return r;
    }
    let mut out: Vec<char> = Vec::new();
    let mut i: usize = 0;
    let slen = s.len();
    proof {
        assert(slen as int == s@.len());
    }
    while i < s.len()
        invariant
            name@.len() > 0,
            i <= s@.len(),
            s@.len() <= usize::MAX,
            replace_all(s@, name@, rep@) == out@ + replace_from(s@, i as int, name@, rep@),
        decreases s@.len() - i,
    {
        let ghost out0 = out@;
        if matches_at(s, i, name) {
            let j = i + name.len();
            let sok = if i == 0 {
                true
            } else {
                !is_word_char(s[i - 1])
            };
            let eok = if j >= s.len() {
                true
            } else {
                !is_word_char(s[j])
            };
            if sok && eok {
                push_all(&mut out, rep);
                proof {
                    assert(replace_from(s@, i as int, name@, rep@) == rep@ + replace_from(
                        s@,
                        j as int,
                        name@,
                        rep@,
                    ));
                    assert(out@ + replace_from(s@, j as int, name@, rep@) =~= out0 + replace_from(
                        s@,
                        i as int,
                        name@,
                        rep@,
                    ));
                }
            } else {
                push_all(&mut out, name);
                proof {
                    assert(replace_from(s@, i as int, name@, rep@) == name@ + replace_from(
                        s@,
                        j as int,
                        name@,
                        rep@,
                    ));
                    assert(out@ + replace_from(s@, j as int, name@, rep@) =~= out0 + replace_from(
                        s@,
                        i as int,
                        name@,
                        rep@,
                    ));
                }
            }
            i = j;
        } else {
            out.push(s[i]);
            i = i + 1;
            proof {
                assert(replace_from(s@, i - 1, name@, rep@) == seq![s@[i - 1]] + replace_from(
                    s@,
                    i as int,
                    name@,
                    rep@,
                ));
                assert(out@ + replace_from(s@, i as int, name@, rep@) =~= out0 + replace_from(
                    s@,
                    i - 1,
                    name@,
                    rep@,
                ));
            }
        }
    }
    proof {
        assert(out@ + replace_from(s@, i as int, name@, rep@) =~= out@);
    }
    out
}

/// Executable mirror of [`apply_objs`].
pub fn apply_objs_exec(line: &Vec<char>, tbl: &Vec<ObjMacro>) -> (r: Vec<char>)
    ensures
        r@ == apply_objs(line@, tbl.deep_view()),
{
    let mut cur = copy_range(line, 0, line.len());
    proof {
        assert(cur@ =~= line@);
    }
    let mut k: usize = 0;
    while k < tbl.len()
        invariant
            k <= tbl@.len(),
            apply_objs(line@, tbl.deep_view()) == apply_objs_from(cur@, tbl.deep_view(), k as int),
        decreases tbl@.len() - k,
    {
        let m = &tbl[k];
        proof {
            assert(m@ == tbl.deep_view()[k as int]);
        }
        cur = replace_all_exec(&cur, &m.name, &m.replacement);
        k = k + 1;
    }
    cur
}

} // verus!
