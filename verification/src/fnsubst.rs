//! Function-like macro substitution: rewriting calls `NAME(...)` whose
//! argument list is balanced and terminated.
//!
//! A call's arguments are split at top-level commas only: a parenthesis
//! inside an argument raises a depth counter and commas under it stay part
//! of the argument. The matched span runs from the name through the
//! closing parenthesis; the macro's body has each parameter, in declaration
//! order, replaced by the corresponding argument's verbatim text under the
//! ordinary identifier-boundary rule, and the result stands in for the
//! span. An occurrence not followed by `(`, one whose argument list never
//! closes, or one directly preceded by an identifier character is left
//! alone. A call with too few or too many arguments is a fatal error.

use vstd::prelude::*;
use crate::chars::is_word_char;
use crate::chars::chars_to_string;
use crate::error::Error;
use crate::error::ErrorView;
use crate::error::res_chars_match;
use crate::subst::match_at;
use crate::subst::replace_all;
use crate::subst::replace_all_exec;
use crate::subst::start_ok;
use crate::text::copy_range;
use crate::text::matches_at;
use crate::text::push_all;

verus! {

broadcast use crate::text::lemma_deep_view_chars;

/// A function-like macro: a name, its parameter names in declaration
/// order, and a body.
pub struct FnMacro {
    pub name: Vec<char>,
    pub params: Vec<Vec<char>>,
    pub body: Vec<char>,
}

/// Spec-level image of [`FnMacro`].
pub struct FnMacroView {
    pub name: Seq<char>,
    pub params: Seq<Seq<char>>,
    pub body: Seq<char>,
}

impl View for FnMacro {
    type V = FnMacroView;

    open spec fn view(&self) -> FnMacroView {
        FnMacroView { name: self.name@, params: self.params.deep_view(), body: self.body@ }
    }
}

impl DeepView for FnMacro {
    type V = FnMacroView;

    open spec fn deep_view(&self) -> FnMacroView {
        self.view()
    }
}

/// The argument list starting at `p` (just after the opening parenthesis):
/// splits at top-level commas, tracks nested parentheses by `depth`, and
/// ends at the closing parenthesis, whose position is returned with the
/// arguments. `None` when the list never closes.
pub open spec fn scan_args(
    s: Seq<char>,
    p: int,
    depth: int,
    cur: Seq<char>,
    acc: Seq<Seq<char>>,
) -> Option<(Seq<Seq<char>>, int)>
    decreases s.len() - p,
{
    if p < 0 || p >= s.len() {
        None
    } else if s[p] == ')' {
        if depth == 0 {
            Some((acc.push(cur), p))
        } else {
            scan_args(s, p + 1, depth - 1, cur.push(')'), acc)
        }
    } else if s[p] == ',' && depth == 0 {
        scan_args(s, p + 1, depth, Seq::empty(), acc.push(cur))
    } else if s[p] == '(' {
        scan_args(s, p + 1, depth + 1, cur.push('('), acc)
    } else {
        scan_args(s, p + 1, depth, cur.push(s[p]), acc)
    }
}

/// The macro body with each parameter, from index `k` on in declaration
/// order, replaced by the matching argument's text.
pub open spec fn bind_args(
    body: Seq<char>,
    params: Seq<Seq<char>>,
    args: Seq<Seq<char>>,
    k: int,
) -> Seq<char>
    recommends
        params.len() == args.len(),
    decreases params.len() - k,
{
    if k < 0 || k >= params.len() || args.len() != params.len() {
        body
    } else {
        bind_args(replace_all(body, params[k], args[k]), params, args, k + 1)
    }
}

/// The line from position `i` on with every qualifying call of `m`
/// expanded, or the arity error of the leftmost offending call.
pub open spec fn expand_calls_from(s: Seq<char>, i: int, m: FnMacroView) -> Result<
    Seq<char>,
    ErrorView,
>
    recommends
        m.name.len() > 0,
    decreases s.len() - i,
{
    if i < 0 || i >= s.len() {
        Ok(Seq::empty())
    } else if m.name.len() > 0 && match_at(s, i, m.name) {
        let j = i + m.name.len();
        if j < s.len() && s[j] == '(' && start_ok(s, i) {
            match scan_args(s, j + 1, 0, Seq::empty(), Seq::empty()) {
                None => match expand_calls_from(s, j, m) {
                    Ok(t) => Ok(m.name + t),
                    Err(e) => Err(e),
                },
                Some((args, close)) => {
                    if args.len() < m.params.len() {
                        Err(ErrorView::NotEnoughParametersMacro(m.name))
                    } else if args.len() > m.params.len() {
                        Err(ErrorView::UnusedParametersMacro(m.name))
                    } else {
                        // the closing parenthesis always lies past `i`; the
                        // comparison only keeps the measure decreasing
                        let cont = if i < close + 1 && close + 1 <= s.len() {
                            close + 1
                        } else {
                            i + 1
                        };
                        match expand_calls_from(s, cont, m) {
                            Ok(t) => Ok(bind_args(m.body, m.params, args, 0) + t),
                            Err(e) => Err(e),
                        }
                    }
                },
            }
        } else {
            match expand_calls_from(s, j, m) {
                Ok(t) => Ok(m.name + t),
                Err(e) => Err(e),
            }
        }
    } else {
        match expand_calls_from(s, i + 1, m) {
            Ok(t) => Ok(seq![s[i]] + t),
            Err(e) => Err(e),
        }
    }
}

/// A whole line under one function-like macro; a macro whose name is empty
/// never matches.
pub open spec fn expand_calls(s: Seq<char>, m: FnMacroView) -> Result<Seq<char>, ErrorView> {
    if m.name.len() == 0 {
        Ok(s)
    } else {
        expand_calls_from(s, 0, m)
    }
}

/// A line under the function-like macros of the table from index `k` on.
pub open spec fn apply_fns_from(s: Seq<char>, tbl: Seq<FnMacroView>, k: int) -> Result<
    Seq<char>,
    ErrorView,
>
    decreases tbl.len() - k,
{
    if k < 0 || k >= tbl.len() {
        Ok(s)
    } else {
        match expand_calls(s, tbl[k]) {
            Ok(s2) => apply_fns_from(s2, tbl, k + 1),
            Err(e) => Err(e),
        }
    }
}

/// A line under the whole function-macro table, in table order.
pub open spec fn apply_fns(s: Seq<char>, tbl: Seq<FnMacroView>) -> Result<Seq<char>, ErrorView> {
    apply_fns_from(s, tbl, 0)
}

/// Executable mirror of [`scan_args`], from position `from`.
pub fn scan_args_exec(s: &Vec<char>, from: usize) -> (r: Option<(Vec<Vec<char>>, usize)>)
    requires
        from <= s@.len(),
    ensures
        match r {
            None => scan_args(s@, from as int, 0, Seq::empty(), Seq::empty()) is None,
            Some(ac) => {
                &&& scan_args(s@, from as int, 0, Seq::empty(), Seq::empty()) == Some(
                    (ac.0.deep_view(), ac.1 as int),
                )
                &&& from <= ac.1 < s@.len()
            },
        },
{
    let mut p = from;
    let mut depth: usize = 0;
    let mut cur: Vec<char> = Vec::new();
    let mut acc: Vec<Vec<char>> = Vec::new();
    let slen = s.len();
    proof {
        assert(slen as int == s@.len());
        assert(acc.deep_view() =~= Seq::<Seq<char>>::empty());
    }
    while p < s.len()
        invariant
            from <= p <= s@.len(),
            s@.len() <= usize::MAX,
            depth <= p - from,
            scan_args(s@, from as int, 0, Seq::empty(), Seq::empty()) == scan_args(
                s@,
                p as int,
                depth as int,
                cur@,
                acc.deep_view(),
            ),
        decreases s@.len() - p,
    {
        let ghost p0 = p as int;
        let ghost d0 = depth as int;
        let ghost c0 = cur@;
        let ghost a0 = acc.deep_view();
        let c = s[p];
        if c == ')' {
            if depth == 0 {
                let ghost curv = cur@;
                acc.push(cur);
                proof {
                    assert(acc.deep_view() =~~= a0.push(curv));
                }
                return Some((acc, p));
            } else {
                depth = depth - 1;
                cur.push(')');
            }
        } else if c == ',' && depth == 0 {
            let ghost curv = cur@;
            acc.push(cur);
            cur = Vec::new();
            proof {
                assert(acc.deep_view() =~~= a0.push(curv));
            }
        } else if c == '(' {
            depth = depth + 1;
            cur.push('(');
        } else {
            cur.push(c);
        }
        p = p + 1;
        proof {
            assert(scan_args(s@, p0, d0, c0, a0) == scan_args(
                s@,
                p as int,
                depth as int,
                cur@,
                acc.deep_view(),
            ));
        }
    }
    None
}

/// Executable mirror of [`bind_args`].
pub fn bind_args_exec(body: &Vec<char>, params: &Vec<Vec<char>>, args: &Vec<Vec<char>>) -> (r: Vec<
    char,
>)
    requires
        params@.len() == args@.len(),
    ensures
        r@ == bind_args(body@, params.deep_view(), args.deep_view(), 0),
{
    let mut cur = copy_range(body, 0, body.len());
    proof {
        assert(cur@ =~= body@);
    }
    let mut k: usize = 0;
    while k < params.len()
        invariant
            k <= params@.len(),
            params@.len() == args@.len(),
            bind_args(body@, params.deep_view(), args.deep_view(), 0) == bind_args(
                cur@,
                params.deep_view(),
                args.deep_view(),
                k as int,
            ),
        decreases params@.len() - k,
    {
        proof {
            assert(params.deep_view()[k as int] == params@[k as int].deep_view());
            assert(args.deep_view()[k as int] == args@[k as int].deep_view());
        }
        cur = replace_all_exec(&cur, &params[k], &args[k]);
        k = k + 1;
    }
    cur
}

/// Executable mirror of [`expand_calls`].
pub fn expand_calls_exec(s: &Vec<char>, m: &FnMacro) -> (r: Result<Vec<char>, Error>)
    ensures
        res_chars_match(r, expand_calls(s@, m@)),
{
    if m.name.len() == 0 {
        let r = copy_range(s, 0, s.len());
        proof {
            assert(r@ =~= s@);
        }
        return Ok(r);
    }
    let mut out: Vec<char> = Vec::new();
    let mut i: usize = 0;
    let slen = s.len();
    proof {
        assert(slen as int == s@.len());
    }
    while i < s.len()
        invariant
            m@.name.len() > 0,
            m@.name.len() == m.name@.len(),
            i <= s@.len(),
            s@.len() <= usize::MAX,
            match expand_calls_from(s@, i as int, m@) {
                Ok(t) => expand_calls_from(s@, 0, m@) == Ok::<Seq<char>, ErrorView>(out@ + t),
                Err(e) => expand_calls_from(s@, 0, m@) == Err::<Seq<char>, ErrorView>(e),
            },
        decreases s@.len() - i,
    {
        let ghost i0 = i as int;
        let ghost out0 = out@;
        if matches_at(s, i, &m.name) {
            let j = i + m.name.len();
            let sok = if i == 0 {
                true
            } else {
                !is_word_char(s[i - 1])
            };
            if j < s.len() && s[j] == '(' && sok {
                match scan_args_exec(s, j + 1) {
                    None => {
                        push_all(&mut out, &m.name);
                        i = j;
                        proof {
                            lemma_step_emit_name(s@, i0, m@, out0);
                        }
                    },
                    Some((args, close)) => {
                        if args.len() < m.params.len() {
                            proof {
                                assert(expand_calls_from(s@, i0, m@)
                                    == Err::<Seq<char>, ErrorView>(
                                    ErrorView::NotEnoughParametersMacro(m@.name),
                                ));
                            }
                            return Err(Error::NotEnoughParametersMacro(chars_to_string(&m.name)));
                        } else if args.len() > m.params.len() {
                            proof {
                                assert(expand_calls_from(s@, i0, m@)
                                    == Err::<Seq<char>, ErrorView>(ErrorView::UnusedParametersMacro(
                                    m@.name,
                                )));
                            }
                            return Err(Error::UnusedParametersMacro(chars_to_string(&m.name)));
                        } else {
                            let exp = bind_args_exec(&m.body, &m.params, &args);
                            push_all(&mut out, &exp);
                            i = close + 1;
                            proof {
                                let ghost sa = scan_args(
                                    s@,
                                    i0 + m@.name.len() + 1,
                                    0,
                                    Seq::empty(),
                                    Seq::empty(),
                                );
                                assert(sa == Some((args.deep_view(), close as int)));
                                match expand_calls_from(s@, i as int, m@) {
                                    Ok(t) => {
                                        assert(expand_calls_from(s@, i0, m@) == Ok::<
                                            Seq<char>,
                                            ErrorView,
                                        >(exp@ + t));
                                        assert(out@ + t =~= out0 + (exp@ + t));
                                    },
                                    Err(e) => {
                                        assert(expand_calls_from(s@, i0, m@) == Err::<
                                            Seq<char>,
                                            ErrorView,
                                        >(e));
                                    },
                                }
                            }
                        }
                    },
                }
            } else {
                push_all(&mut out, &m.name);
                i = j;
                proof {
                    lemma_step_emit_name(s@, i0, m@, out0);
                }
            }
        } else {
            let c = s[i];
            out.push(c);
            i = i + 1;
            proof {
                match expand_calls_from(s@, i as int, m@) {
                    Ok(t) => {
                        assert(expand_calls_from(s@, i0, m@) == Ok::<Seq<char>, ErrorView>(
                            seq![s@[i0]] + t,
                        ));
                        assert(out@ + t =~= out0 + (seq![s@[i0]] + t));
                    },
                    Err(e) => {
                        assert(expand_calls_from(s@, i0, m@) == Err::<Seq<char>, ErrorView>(e));
                    },
                }
            }
        }
    }
    proof {
        assert(out@ + Seq::<char>::empty() =~= out@);
    }
    Ok(out)
}

/// One step of [`expand_calls_exec`]: a matched name that is not a
/// qualifying call is emitted verbatim.
proof fn lemma_step_emit_name(s: Seq<char>, i: int, m: FnMacroView, out0: Seq<char>)
    requires
        0 <= i < s.len(),
        m.name.len() > 0,
        match_at(s, i, m.name),
        (!(i + m.name.len() < s.len() && s[i + m.name.len()] == '(' && start_ok(s, i))
            || scan_args(s, i + m.name.len() + 1, 0, Seq::empty(), Seq::empty()) is None),
    ensures
        match expand_calls_from(s, i + m.name.len(), m) {
            Ok(t) => expand_calls_from(s, i, m) == Ok::<Seq<char>, ErrorView>((m.name + t))
                && out0 + m.name + t == out0 + (m.name + t),
            Err(e) => expand_calls_from(s, i, m) == Err::<Seq<char>, ErrorView>(e),
        },
{
    match expand_calls_from(s, i + m.name.len(), m) {
        Ok(t) => {
            assert(out0 + m.name + t =~= out0 + (m.name + t));
        },
        Err(e) => {},
    }
}

/// Executable mirror of [`apply_fns`].
pub fn apply_fns_exec(line: &Vec<char>, tbl: &Vec<FnMacro>) -> (r: Result<Vec<char>, Error>)
    ensures
        res_chars_match(r, apply_fns(line@, tbl.deep_view())),
{
    let mut cur = copy_range(line, 0, line.len());
    proof {
        assert(cur@ =~= line@);
    }
    let mut k: usize = 0;
    while k < tbl.len()
        invariant
            k <= tbl@.len(),
            apply_fns(line@, tbl.deep_view()) == apply_fns_from(cur@, tbl.deep_view(), k as int),
        decreases tbl@.len() - k,
    {
        let m = &tbl[k];
        proof {
            assert(m@ == tbl.deep_view()[k as int]);
        }
        let ghost dv = tbl.deep_view();
        match expand_calls_exec(&cur, m) {
            Ok(next) => {
                proof {
                    assert(expand_calls(cur@, dv[k as int]) matches Ok(t) && t == next@);
                    assert(apply_fns_from(cur@, dv, k as int) == apply_fns_from(
                        next@,
                        dv,
                        k + 1,
                    ));
                }
                cur = next;
            },
            Err(e) => {
                proof {
                    assert(expand_calls(cur@, dv[k as int]) matches Err(f) && f == e@);
                    assert(apply_fns(line@, tbl.deep_view()) == Err::<Seq<char>, ErrorView>(e@));
                }
                return Err(e);
            },
        }
        k = k + 1;
    }
    proof {
        assert(apply_fns_from(cur@, tbl.deep_view(), k as int) == Ok::<Seq<char>, ErrorView>(
            cur@,
        ));
    }
    Ok(cur)
}

} // verus!
