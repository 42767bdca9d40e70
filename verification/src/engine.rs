//! The whole-document driver: walks a document line by line, registers
//! macros, consumes externally supplied parameters, splices files of an
//! in-memory table, and emits every other line after substitution.
//!
//! The spec-level interpreter [`expand_doc`] defines the engine's whole
//! behaviour; the executable driver is proved to return exactly its value.

use vstd::prelude::*;
use crate::error::Error;
use crate::error::res_chars_match;
use crate::error::res_string_match;
use crate::error::ErrorView;
use crate::fnsubst::FnMacro;
use crate::fnsubst::FnMacroView;
use crate::fnsubst::apply_fns;
use crate::fnsubst::apply_fns_exec;
use crate::subst::ObjMacro;
use crate::subst::ObjMacroView;
use crate::subst::apply_objs;
use crate::subst::apply_objs_exec;
use crate::text::alnum_end;
use crate::text::alnum_end_at;
use crate::text::close_paren;
use crate::text::close_paren_at;
use crate::text::copy_range;
use crate::text::count_nl;
use crate::text::chars_eq;
use crate::text::chars_eq_str;
use crate::text::count_nl_exec;
use crate::text::push_all;
use crate::text::split_lines_exec;
use crate::text::name_end;
use crate::text::name_end_at;
use crate::text::skip_spaces;
use crate::text::skip_spaces_at;
use crate::text::split_commas;
use crate::text::split_commas_exec;
use crate::text::split_lines;
use crate::text::token_end;
use crate::text::token_end_at;
use crate::text::trim;
use crate::text::trim_exec;
use crate::chars::char_numeric;
use crate::chars::chars_to_string;
use crate::chars::is_word_char;
use crate::chars::str_to_chars;
use crate::chars::unicode_numeric;
use crate::chars::word_char;

verus! {

broadcast use crate::text::lemma_deep_view_chars;

/// The directive keyword that binds a macro.
pub open spec fn kw_define() -> Seq<char> {
    "define"@
}

/// The directive keyword that consumes one external parameter.
pub open spec fn kw_param() -> Seq<char> {
    "param"@
}

/// The directive keyword that splices another file into the output.
pub open spec fn kw_splice() -> Seq<char> {
    "include"@
}

/// A valid parameter name: non-empty, every character alphanumeric or an
/// underscore, and not opening with a numeric character.
pub open spec fn valid_param_name(n: Seq<char>) -> bool {
    n.len() > 0 && !unicode_numeric(n[0]) && (forall|i: int| 0 <= i < n.len() ==> word_char(n[i]))
}

/// Index of the first invalid name at or after `k`, or the length.
pub open spec fn first_invalid(ps: Seq<Seq<char>>, k: int) -> int
    decreases ps.len() - k,
{
    if k < 0 || k >= ps.len() {
        ps.len() as int
    } else if !valid_param_name(ps[k]) {
        k
    } else {
        first_invalid(ps, k + 1)
    }
}

/// The comma-separated pieces of a parameter list, each trimmed of
/// surrounding ASCII whitespace.
pub open spec fn trimmed_pieces(inner: Seq<char>) -> Seq<Seq<char>> {
    split_commas(inner).map_values(|p: Seq<char>| trim(p))
}

/// The parameter names of a function-like definition, parsed from the text
/// between the parentheses, or the error naming the first bad piece. An
/// empty parameter list is allowed and yields no names.
pub open spec fn parse_params(inner: Seq<char>, ln: int) -> Result<Seq<Seq<char>>, ErrorView> {
    if inner.len() == 0 {
        Ok(Seq::empty())
    } else {
        let ts = trimmed_pieces(inner);
        let j = first_invalid(ts, 0);
        if j < ts.len() {
            Err(ErrorView::InvalidParameterName(ts[j], ln))
        } else {
            Ok(ts)
        }
    }
}

/// What a definition line meant.
pub enum DefineOutcome {
    /// An object-like macro to bind.
    Obj { name: Seq<char>, replacement: Seq<char> },
    /// A function-like macro; `cont` when its body continues on the next
    /// line (the trailing continuation escape already dropped).
    Func { m: FnMacroView, cont: bool },
    /// A malformed definition.
    Bad(ErrorView),
}

/// A definition line, parsed from just after its keyword. The macro name
/// runs to the first whitespace or `(`; a parenthesis makes the macro
/// function-like, with its parameter list running to the first `)` and its
/// body being everything after. An object-like macro's replacement is
/// everything after the single whitespace character ending the name.
pub open spec fn parse_define(line: Seq<char>, after_kw: int, ln: int) -> DefineOutcome {
    let ns = skip_spaces(line, after_kw);
    let ne = name_end(line, ns);
    let name = line.subrange(ns, ne);
    if ne < line.len() && line[ne] == '(' {
        let pe = close_paren(line, ne + 1);
        let inner = line.subrange(ne + 1, pe);
        let body = if pe < line.len() {
            line.subrange(pe + 1, line.len() as int)
        } else {
            Seq::empty()
        };
        match parse_params(inner, ln) {
            Ok(ps) => {
                if body.len() > 0 && body[body.len() - 1] == '\\' {
                    DefineOutcome::Func {
                        m: FnMacroView { name, params: ps, body: body.subrange(0, body.len() - 1) },
                        cont: true,
                    }
                } else {
                    DefineOutcome::Func { m: FnMacroView { name, params: ps, body }, cont: false }
                }
            },
            Err(e) => DefineOutcome::Bad(e),
        }
    } else {
        let rep = if ne < line.len() {
            line.subrange(ne + 1, line.len() as int)
        } else {
            Seq::empty()
        };
        DefineOutcome::Obj { name, replacement: rep }
    }
}

/// What a parameter line meant.
pub enum ParamOutcome {
    /// Bind the next cursor value under this name.
    Bind { name: Seq<char> },
    /// A malformed parameter line.
    Bad(ErrorView),
}

/// A parameter directive: one whitespace-delimited bind name after the
/// keyword, and nothing but whitespace after that.
pub open spec fn parse_param_directive(line: Seq<char>, after_kw: int, ln: int) -> ParamOutcome {
    let ns = skip_spaces(line, after_kw);
    let te = token_end(line, ns);
    if skip_spaces(line, te) < line.len() {
        ParamOutcome::Bad(ErrorView::ExtraParamsInParamMacro(ln))
    } else {
        ParamOutcome::Bind { name: line.subrange(ns, te) }
    }
}

/// What a splice line meant.
pub enum SpliceOutcome {
    /// Splice the file at `path`, handing it `args` as its own cursor.
    Go { path: Seq<char>, args: Seq<Seq<char>> },
    /// A malformed splice line.
    Bad(ErrorView),
}

/// A splice directive: one whitespace-delimited token after the keyword,
/// which must be double-quoted and yields the path. The rest of the line,
/// after a single separating whitespace character, splits at every comma
/// into verbatim argument strings; an empty rest means no arguments.
pub open spec fn parse_splice_directive(line: Seq<char>, after_kw: int, ln: int) -> SpliceOutcome {
    let ns = skip_spaces(line, after_kw);
    let te = token_end(line, ns);
    let tok = line.subrange(ns, te);
    if tok.len() < 2 || tok[0] != '"' || tok[tok.len() - 1] != '"' {
        SpliceOutcome::Bad(ErrorView::SplicePathNotQuoted(ln))
    } else {
        let path = tok.subrange(1, tok.len() - 1);
        let rest_start = if te < line.len() {
            te + 1
        } else {
            te
        };
        let rest = line.subrange(rest_start, line.len() as int);
        let args = if rest.len() == 0 {
            Seq::<Seq<char>>::empty()
        } else {
            split_commas(rest)
        };
        SpliceOutcome::Go { path, args }
    }
}

/// Spec-level image of one file of the table.
pub struct FileEntryView {
    pub name: Seq<char>,
    pub contents: Seq<char>,
}

/// The contents of the first entry carrying `name`, if any.
pub open spec fn lookup_from(files: Seq<FileEntryView>, name: Seq<char>, k: int) -> Option<
    Seq<char>,
>
    decreases files.len() - k,
{
    if k < 0 || k >= files.len() {
        None
    } else if files[k].name == name {
        Some(files[k].contents)
    } else {
        lookup_from(files, name, k + 1)
    }
}

/// The contents filed under `name`, if any.
pub open spec fn lookup(files: Seq<FileEntryView>, name: Seq<char>) -> Option<Seq<char>> {
    lookup_from(files, name, 0)
}

/// The whole driver, from line `i` on, under the given macro tables,
/// collection state, file table, parameter cursor and depth allowance.
/// Returns the text the remaining lines contribute, after checking that
/// the cursor is drained at the end, or the first error met.
pub open spec fn run_lines(
    lines: Seq<Seq<char>>,
    i: int,
    objs: Seq<ObjMacroView>,
    fns: Seq<FnMacroView>,
    collecting: Option<FnMacroView>,
    files: Seq<FileEntryView>,
    params: Seq<Seq<char>>,
    cur: int,
    last: int,
    depth: nat,
) -> Result<Seq<char>, ErrorView>
    decreases depth, lines.len() - i,
{
    if i < 0 || i >= lines.len() {
        if cur < params.len() {
            Err(ErrorView::UnusedParameters)
        } else {
            Ok(Seq::empty())
        }
    } else {
        let line = lines[i];
        match collecting {
            Some(m) => {
                if line.len() > 0 && line[line.len() - 1] == '\\' {
                    run_lines(
                        lines,
                        i + 1,
                        objs,
                        fns,
                        Some(
                            FnMacroView {
                                name: m.name,
                                params: m.params,
                                body: m.body + line.subrange(0, line.len() - 1),
                            },
                        ),
                        files,
                        params,
                        cur,
                        last,
                        depth,
                    )
                } else {
                    run_lines(
                        lines,
                        i + 1,
                        objs,
                        fns.push(
                            FnMacroView { name: m.name, params: m.params, body: m.body + line },
                        ),
                        None,
                        files,
                        params,
                        cur,
                        last,
                        depth,
                    )
                }
            },
            None => {
                let p = skip_spaces(line, 0);
                if p < line.len() && line[p] == '#' {
                    let ke = alnum_end(line, p + 1);
                    let kw = line.subrange(p + 1, ke);
                    if kw == kw_define() {
                        match parse_define(line, ke, i) {
                            DefineOutcome::Obj { name, replacement } => run_lines(
                                lines,
                                i + 1,
                                objs.push(ObjMacroView { name, replacement }),
                                fns,
                                None,
                                files,
                                params,
                                cur,
                                last,
                                depth,
                            ),
                            DefineOutcome::Func { m, cont } => {
                                if cont {
                                    run_lines(
                                        lines,
                                        i + 1,
                                        objs,
                                        fns,
                                        Some(m),
                                        files,
                                        params,
                                        cur,
                                        last,
                                        depth,
                                    )
                                } else {
                                    run_lines(
                                        lines,
                                        i + 1,
                                        objs,
                                        fns.push(m),
                                        None,
                                        files,
                                        params,
                                        cur,
                                        last,
                                        depth,
                                    )
                                }
                            },
                            DefineOutcome::Bad(e) => Err(e),
                        }
                    } else if kw == kw_param() {
                        match parse_param_directive(line, ke, i) {
                            ParamOutcome::Bad(e) => Err(e),
                            ParamOutcome::Bind { name } => {
                                if cur < 0 || cur >= params.len() {
                                    Err(ErrorView::NotEnoughParameters)
                                } else {
                                    run_lines(
                                        lines,
                                        i + 1,
                                        objs.push(
                                            ObjMacroView { name, replacement: params[cur] },
                                        ),
                                        fns,
                                        None,
                                        files,
                                        params,
                                        cur + 1,
                                        last,
                                        depth,
                                    )
                                }
                            },
                        }
                    } else if kw == kw_splice() {
                        match parse_splice_directive(line, ke, i) {
                            SpliceOutcome::Bad(e) => Err(e),
                            SpliceOutcome::Go { path, args } => {
                                match lookup(files, path) {
                                    None => Err(ErrorView::FileNotFound(path)),
                                    Some(contents) => {
                                        if depth <= 0 {
                                            Err(ErrorView::SpliceDepthExceeded)
                                        } else {
                                            match run_lines(
                                                split_lines(contents),
                                                0,
                                                Seq::empty(),
                                                Seq::empty(),
                                                None,
                                                files,
                                                args,
                                                0,
                                                count_nl(contents),
                                                (depth - 1) as nat,
                                            ) {
                                                Err(e) => Err(e),
                                                Ok(t) => match run_lines(
                                                    lines,
                                                    i + 1,
                                                    objs,
                                                    fns,
                                                    None,
                                                    files,
                                                    params,
                                                    cur,
                                                    last,
                                                    depth,
                                                ) {
                                                    Err(e) => Err(e),
                                                    Ok(rest) => Ok(t + rest),
                                                },
                                            }
                                        }
                                    },
                                }
                            },
                        }
                    } else {
                        Err(ErrorView::InvalidMacro(kw, i))
                    }
                } else {
                    let eff = if p + 1 < line.len() && line[p] == '\\' && line[p + 1] == '#' {
                        line.subrange(0, p) + line.subrange(p + 1, line.len() as int)
                    } else {
                        line
                    };
                    match apply_fns(apply_objs(eff, objs), fns) {
                        Err(e) => Err(e),
                        Ok(t) => {
                            let emitted = if i != last {
                                t + seq!['\n']
                            } else {
                                t
                            };
                            match run_lines(
                                lines,
                                i + 1,
                                objs,
                                fns,
                                None,
                                files,
                                params,
                                cur,
                                last,
                                depth,
                            ) {
                                Err(e) => Err(e),
                                Ok(rest) => Ok(emitted + rest),
                            }
                        },
                    }
                }
            },
        }
    }
}

/// Executable mirror of [`valid_param_name`].
fn valid_param_name_exec(n: &Vec<char>) -> (r: bool)
    ensures
        r == valid_param_name(n@),
{
    if n.len() == 0 {
        return false;
    }
    if char_numeric(n[0]) {
        return false;
    }
    let mut j: usize = 0;
    while j < n.len()
        invariant
            j <= n@.len(),
            n@.len() > 0,
            !unicode_numeric(n@[0]),
            forall|t: int| 0 <= t < j ==> word_char(n@[t]),
        decreases n@.len() - j,
    {
        if !is_word_char(n[j]) {
            return false;
        }
        j = j + 1;
    }
    true
}

/// A run of valid names moves the first invalid index past itself.
proof fn lemma_first_invalid_skip(ps: Seq<Seq<char>>, a: int, b: int)
    requires
        0 <= a <= b <= ps.len(),
        forall|j: int| a <= j < b ==> valid_param_name(ps[j]),
    ensures
        first_invalid(ps, a) == first_invalid(ps, b),
    decreases b - a,
{
    if a < b {
        lemma_first_invalid_skip(ps, a + 1, b);
    }
}

/// Executable mirror of [`parse_params`].
fn parse_params_exec(inner: &Vec<char>, ln: usize) -> (r: Result<Vec<Vec<char>>, Error>)
    ensures
        match r {
            Ok(ps) => parse_params(inner@, ln as int) == Ok::<Seq<Seq<char>>, ErrorView>(
                ps.deep_view(),
            ),
            Err(e) => parse_params(inner@, ln as int) == Err::<Seq<Seq<char>>, ErrorView>(e@),
        },
{
    if inner.len() == 0 {
        let ps: Vec<Vec<char>> = Vec::new();
        proof {
            assert(ps.deep_view() =~= Seq::<Seq<char>>::empty());
        }
        return Ok(ps);
    }
    let pieces = split_commas_exec(inner);
    let mut out: Vec<Vec<char>> = Vec::new();
    let mut k: usize = 0;
    while k < pieces.len()
        invariant
            k <= pieces@.len(),
            inner@.len() > 0,
            pieces.deep_view() == split_commas(inner@),
            trimmed_pieces(inner@).len() == pieces@.len(),
            out.deep_view() == trimmed_pieces(inner@).subrange(0, k as int),
            forall|j: int| 0 <= j < k ==> valid_param_name(trimmed_pieces(inner@)[j]),
        decreases pieces@.len() - k,
    {
        let ghost ts = trimmed_pieces(inner@);
        let t = trim_exec(&pieces[k]);
        proof {
            assert(pieces.deep_view()[k as int] == pieces@[k as int]@);
            assert(ts[k as int] == trim(split_commas(inner@)[k as int]));
            assert(t@ == ts[k as int]);
        }
        if !valid_param_name_exec(&t) {
            proof {
                lemma_first_invalid_skip(ts, 0, k as int);
                assert(first_invalid(ts, k as int) == k as int);
            }
            return Err(Error::InvalidParameterName(chars_to_string(&t), ln));
        }
        let ghost od = out.deep_view();
        let ghost tv = t@;
        out.push(t);
        k = k + 1;
        proof {
            assert(out.deep_view() =~~= od.push(tv));
            assert(od.push(tv) =~~= ts.subrange(0, k as int));
        }
    }
    proof {
        let ts = trimmed_pieces(inner@);
        lemma_first_invalid_skip(ts, 0, ts.len() as int);
        assert(first_invalid(ts, ts.len() as int) == ts.len() as int);
        assert(out.deep_view() =~~= ts);
    }
    Ok(out)
}

/// Executable image of [`DefineOutcome`].
pub enum DefineParse {
    Obj(ObjMacro),
    Func(FnMacro, bool),
    Bad(Error),
}

/// Executable mirror of [`parse_define`].
fn parse_define_exec(line: &Vec<char>, after_kw: usize, ln: usize) -> (r: DefineParse)
    requires
        after_kw <= line@.len(),
    ensures
        match r {
            DefineParse::Obj(o) => parse_define(line@, after_kw as int, ln as int)
                == (DefineOutcome::Obj { name: o.name@, replacement: o.replacement@ }),
            DefineParse::Func(m, c) => parse_define(line@, after_kw as int, ln as int)
                == (DefineOutcome::Func { m: m@, cont: c }),
            DefineParse::Bad(e) => parse_define(line@, after_kw as int, ln as int)
                == DefineOutcome::Bad(e@),
        },
{
    let ns = skip_spaces_at(line, after_kw);
    let ne = name_end_at(line, ns);
    let name = copy_range(line, ns, ne);
    if ne < line.len() && line[ne] == '(' {
        let pe = close_paren_at(line, ne + 1);
        let inner = copy_range(line, ne + 1, pe);
        let body_full = if pe < line.len() {
            copy_range(line, pe + 1, line.len())
        } else {
            Vec::new()
        };
        proof {
            if pe >= line@.len() {
                assert(body_full@ =~= Seq::<char>::empty());
            }
        }
        match parse_params_exec(&inner, ln) {
            Ok(ps) => {
                if body_full.len() > 0 && body_full[body_full.len() - 1] == '\\' {
                    let body = copy_range(&body_full, 0, body_full.len() - 1);
                    DefineParse::Func(FnMacro { name, params: ps, body }, true)
                } else {
                    DefineParse::Func(FnMacro { name, params: ps, body: body_full }, false)
                }
            },
            Err(e) => DefineParse::Bad(e),
        }
    } else {
        let rep = if ne < line.len() {
            copy_range(line, ne + 1, line.len())
        } else {
            Vec::new()
        };
        proof {
            if ne >= line@.len() {
                assert(rep@ =~= Seq::<char>::empty());
            }
        }
        DefineParse::Obj(ObjMacro { name, replacement: rep })
    }
}

/// Executable mirror of [`parse_param_directive`].
fn parse_param_exec(line: &Vec<char>, after_kw: usize, ln: usize) -> (r: Result<Vec<char>, Error>)
    requires
        after_kw <= line@.len(),
    ensures
        match r {
            Ok(name) => parse_param_directive(line@, after_kw as int, ln as int)
                == (ParamOutcome::Bind { name: name@ }),
            Err(e) => parse_param_directive(line@, after_kw as int, ln as int)
                == ParamOutcome::Bad(e@),
        },
{
    let ns = skip_spaces_at(line, after_kw);
    let te = token_end_at(line, ns);
    let rest = skip_spaces_at(line, te);
    if rest < line.len() {
        return Err(Error::ExtraParamsInParamMacro(ln));
    }
    Ok(copy_range(line, ns, te))
}

/// Executable mirror of [`parse_splice_directive`].
fn parse_splice_exec(line: &Vec<char>, after_kw: usize, ln: usize) -> (r: Result<
    (Vec<char>, Vec<Vec<char>>),
    Error,
>)
    requires
        after_kw <= line@.len(),
    ensures
        match r {
            Ok(pa) => parse_splice_directive(line@, after_kw as int, ln as int)
                == (SpliceOutcome::Go { path: pa.0@, args: pa.1.deep_view() }),
            Err(e) => parse_splice_directive(line@, after_kw as int, ln as int)
                == SpliceOutcome::Bad(e@),
        },
{
    let ns = skip_spaces_at(line, after_kw);
    let te = token_end_at(line, ns);
    let tok = copy_range(line, ns, te);
    if tok.len() < 2 || tok[0] != '"' || tok[tok.len() - 1] != '"' {
        return Err(Error::SplicePathNotQuoted(ln));
    }
    let path = copy_range(&tok, 1, tok.len() - 1);
    let rest_start = if te < line.len() {
        te + 1
    } else {
        te
    };
    let rest = copy_range(line, rest_start, line.len());
    if rest.len() == 0 {
        let args: Vec<Vec<char>> = Vec::new();
        proof {
            assert(args.deep_view() =~= Seq::<Seq<char>>::empty());
        }
        Ok((path, args))
    } else {
        let args = split_commas_exec(&rest);
        Ok((path, args))
    }
}

/// One file of the table.
pub struct FileEntry {
    pub name: Vec<char>,
    pub contents: Vec<char>,
}

impl View for FileEntry {
    type V = FileEntryView;

    open spec fn view(&self) -> FileEntryView {
        FileEntryView { name: self.name@, contents: self.contents@ }
    }
}

impl DeepView for FileEntry {
    type V = FileEntryView;

    open spec fn deep_view(&self) -> FileEntryView {
        self.view()
    }
}

/// The in-memory file table that splice directives resolve against: an
/// ordered list of named documents, searched front to back.
pub struct FileSet {
    entries: Vec<FileEntry>,
}

impl View for FileSet {
    type V = Seq<FileEntryView>;

    closed spec fn view(&self) -> Seq<FileEntryView> {
        self.entries.deep_view()
    }
}

impl FileSet {
    /// An empty table.
    pub fn new() -> (r: FileSet)
        ensures
            r@ == Seq::<FileEntryView>::empty(),
    {
        let r = FileSet { entries: Vec::new() };
        proof {
            assert(r@ =~= Seq::<FileEntryView>::empty());
        }
        r
    }

    /// Files `contents` under `name`, behind any entry already present.
    pub fn add(&mut self, name: &str, contents: &str)
        ensures
            final(self)@ == old(self)@.push(
                (FileEntryView { name: name@, contents: contents@ }),
            ),
    {
        let e = FileEntry { name: str_to_chars(name), contents: str_to_chars(contents) };
        self.entries.push(e);
        proof {
            assert(self@ =~~= old(self)@.push(
                (FileEntryView { name: name@, contents: contents@ }),
            ));
        }
    }

    /// The contents filed under `name`, if any.
    fn find(&self, name: &Vec<char>) -> (r: Option<Vec<char>>)
        ensures
            match r {
                Some(c) => lookup(self@, name@) == Some(c@),
                None => lookup(self@, name@) is None,
            },
    {
        let mut k: usize = 0;
        while k < self.entries.len()
            invariant
                k <= self.entries@.len(),
                self@.len() == self.entries@.len(),
                lookup(self@, name@) == lookup_from(self@, name@, k as int),
            decreases self.entries@.len() - k,
        {
            let e = &self.entries[k];
            proof {
                assert(e@ == self@[k as int]);
            }
            if chars_eq(&e.name, name) {
                return Some(copy_range(&e.contents, 0, e.contents.len()));
            }
            k = k + 1;
        }
        None
    }
}

/// The expansion of a whole document: its lines run from the top with
/// fresh, empty macro tables, the given parameter sequence as cursor, and
/// the given splice-depth allowance.
pub open spec fn expand_doc(
    doc: Seq<char>,
    files: Seq<FileEntryView>,
    params: Seq<Seq<char>>,
    depth: nat,
) -> Result<Seq<char>, ErrorView> {
    run_lines(
        split_lines(doc),
        0,
        Seq::empty(),
        Seq::empty(),
        None,
        files,
        params,
        0,
        count_nl(doc),
        depth,
    )
}

/// How deep splices may nest. At this depth a further splice directive
/// fails with [`Error::SpliceDepthExceeded`] instead of recursing without
/// bound, as a cyclic file table would otherwise have it do.
pub const MAX_SPLICE_DEPTH: usize = 64;

/// The executable driver over characters: returns exactly what
/// [`expand_doc`] says for this document, file table, parameter sequence
/// and depth allowance.
#[verifier::rlimit(60)]
fn run_doc(doc: &Vec<char>, files: &FileSet, params: &Vec<Vec<char>>, depth: usize) -> (r: Result<
    Vec<char>,
    Error,
>)
    ensures
        res_chars_match(r, expand_doc(doc@, files@, params.deep_view(), depth as nat)),
    decreases depth,
{
    let lines = split_lines_exec(doc);
    let last = count_nl_exec(doc);
    let mut objs: Vec<ObjMacro> = Vec::new();
    let mut fns: Vec<FnMacro> = Vec::new();
    let mut collecting: bool = false;
    let mut coll_name: Vec<char> = Vec::new();
    let mut coll_params: Vec<Vec<char>> = Vec::new();
    let mut coll_body: Vec<char> = Vec::new();
    let mut cursor: usize = 0;
    let mut out: Vec<char> = Vec::new();
    let mut i: usize = 0;
    proof {
        assert(objs.deep_view() =~= Seq::<ObjMacroView>::empty());
        assert(fns.deep_view() =~= Seq::<FnMacroView>::empty());
        match run_lines(
            lines.deep_view(),
            0,
            Seq::empty(),
            Seq::empty(),
            None,
            files@,
            params.deep_view(),
            0,
            last as int,
            depth as nat,
        ) {
            Ok(t) => {
                assert(out@ + t =~= t);
            },
            Err(e) => {},
        }
    }
    while i < lines.len()
        invariant
            i <= lines@.len(),
            lines.deep_view() == split_lines(doc@),
            last as int == count_nl(doc@),
            cursor <= params@.len(),
            ({
                let st = if collecting {
                    Some(
                        (FnMacroView {
                            name: coll_name@,
                            params: coll_params.deep_view(),
                            body: coll_body@,
                        }),
                    )
                } else {
                    None
                };
                match run_lines(
                    lines.deep_view(),
                    i as int,
                    objs.deep_view(),
                    fns.deep_view(),
                    st,
                    files@,
                    params.deep_view(),
                    cursor as int,
                    last as int,
                    depth as nat,
                ) {
                    Ok(t) => expand_doc(doc@, files@, params.deep_view(), depth as nat) == Ok::<
                        Seq<char>,
                        ErrorView,
                    >(out@ + t),
                    Err(e) => expand_doc(doc@, files@, params.deep_view(), depth as nat) == Err::<
                        Seq<char>,
                        ErrorView,
                    >(e),
                }
            }),
        decreases lines@.len() - i,
    {
        let ghost ldv = lines.deep_view();
        let ghost odv = objs.deep_view();
        let ghost fdv = fns.deep_view();
        let ghost pdv = params.deep_view();
        let ghost stv = if collecting {
            Some(
                FnMacroView {
                    name: coll_name@,
                    params: coll_params.deep_view(),
                    body: coll_body@,
                },
            )
        } else {
            None::<FnMacroView>
        };
        let ghost i0 = i as int;
        let ghost cur0 = cursor as int;
        let ghost pre_run = run_lines(
            ldv,
            i0,
            odv,
            fdv,
            stv,
            files@,
            pdv,
            cur0,
            last as int,
            depth as nat,
        );
        let line = &lines[i];
        proof {
            assert(line@ == ldv[i0]);
        }
        if collecting {
            if line.len() > 0 && line[line.len() - 1] == '\\' {
                let piece = copy_range(line, 0, line.len() - 1);
                push_all(&mut coll_body, &piece);
                i = i + 1;
                proof {
                    assert(pre_run == run_lines(
                        ldv,
                        i as int,
                        odv,
                        fdv,
                        Some(
                            FnMacroView {
                                name: coll_name@,
                                params: coll_params.deep_view(),
                                body: coll_body@,
                            },
                        ),
                        files@,
                        pdv,
                        cur0,
                        last as int,
                        depth as nat,
                    ));
                }
            } else {
                push_all(&mut coll_body, line);
                let ghost mv = FnMacroView {
                    name: coll_name@,
                    params: coll_params.deep_view(),
                    body: coll_body@,
                };
                let m = FnMacro { name: coll_name, params: coll_params, body: coll_body };
                proof {
                    assert(m@ == mv);
                }
                fns.push(m);
                coll_name = Vec::new();
                coll_params = Vec::new();
                coll_body = Vec::new();
                collecting = false;
                i = i + 1;
                proof {
                    assert(fns.deep_view() =~~= fdv.push(mv));
                    assert(pre_run == run_lines(
                        ldv,
                        i as int,
                        odv,
                        fns.deep_view(),
                        None::<FnMacroView>,
                        files@,
                        pdv,
                        cur0,
                        last as int,
                        depth as nat,
                    ));
                }
            }
        } else {
            let p = skip_spaces_at(line, 0);
            if p < line.len() && line[p] == '#' {
                let ke = alnum_end_at(line, p + 1);
                let kw = copy_range(line, p + 1, ke);
                if chars_eq_str(&kw, "define") {
                    match parse_define_exec(line, ke, i) {
                        DefineParse::Obj(o) => {
                            let ghost ov = o@;
                            objs.push(o);
                            i = i + 1;
                            proof {
                                assert(objs.deep_view() =~~= odv.push(ov));
                                assert(pre_run == run_lines(
                                    ldv,
                                    i as int,
                                    objs.deep_view(),
                                    fdv,
                                    None::<FnMacroView>,
                                    files@,
                                    pdv,
                                    cur0,
                                    last as int,
                                    depth as nat,
                                ));
                            }
                        },
                        DefineParse::Func(m, cont) => {
                            let ghost mv = m@;
                            if cont {
                                let FnMacro { name: n2, params: p2, body: b2 } = m;
                                coll_name = n2;
                                coll_params = p2;
                                coll_body = b2;
                                collecting = true;
                                i = i + 1;
                                proof {
                                    assert(mv == (FnMacroView {
                                        name: coll_name@,
                                        params: coll_params.deep_view(),
                                        body: coll_body@,
                                    }));
                                    assert(pre_run == run_lines(
                                        ldv,
                                        i as int,
                                        odv,
                                        fdv,
                                        Some(mv),
                                        files@,
                                        pdv,
                                        cur0,
                                        last as int,
                                        depth as nat,
                                    ));
                                }
                            } else {
                                fns.push(m);
                                i = i + 1;
                                proof {
                                    assert(fns.deep_view() =~~= fdv.push(mv));
                                    assert(pre_run == run_lines(
                                        ldv,
                                        i as int,
                                        odv,
                                        fns.deep_view(),
                                        None::<FnMacroView>,
                                        files@,
                                        pdv,
                                        cur0,
                                        last as int,
                                        depth as nat,
                                    ));
                                }
                            }
                        },
                        DefineParse::Bad(e) => {
                            proof {
                                assert(pre_run == Err::<Seq<char>, ErrorView>(e@));
                            }
                            return Err(e);
                        },
                    }
                } else if chars_eq_str(&kw, "param") {
                    match parse_param_exec(line, ke, i) {
                        Err(e) => {
                            proof {
                                assert(pre_run == Err::<Seq<char>, ErrorView>(e@));
                            }
                            return Err(e);
                        },
                        Ok(pname) => {
                            if cursor >= params.len() {
                                proof {
                                    assert(pre_run == Err::<Seq<char>, ErrorView>(
                                        ErrorView::NotEnoughParameters,
                                    ));
                                }
                                return Err(Error::NotEnoughParameters);
                            }
                            let value = copy_range(&params[cursor], 0, params[cursor].len());
                            let ghost nv = pname@;
                            let ghost vv = value@;
                            proof {
                                assert(vv =~= pdv[cur0]);
                            }
                            objs.push(ObjMacro { name: pname, replacement: value });
                            cursor = cursor + 1;
                            i = i + 1;
                            proof {
                                assert(objs.deep_view() =~~= odv.push(
                                    (ObjMacroView { name: nv, replacement: vv }),
                                ));
                                assert(pre_run == run_lines(
                                    ldv,
                                    i as int,
                                    objs.deep_view(),
                                    fdv,
                                    None::<FnMacroView>,
                                    files@,
                                    pdv,
                                    cur0 + 1,
                                    last as int,
                                    depth as nat,
                                ));
                            }
                        },
                    }
                } else if chars_eq_str(&kw, "include") {
                    match parse_splice_exec(line, ke, i) {
                        Err(e) => {
                            proof {
                                assert(pre_run == Err::<Seq<char>, ErrorView>(e@));
                            }
                            return Err(e);
                        },
                        Ok((path, args)) => {
                            match files.find(&path) {
                                None => {
                                    proof {
                                        assert(pre_run == Err::<Seq<char>, ErrorView>(
                                            ErrorView::FileNotFound(path@),
                                        ));
                                    }
                                    return Err(Error::FileNotFound(chars_to_string(&path)));
                                },
                                Some(contents) => {
                                    if depth == 0 {
                                        proof {
                                            assert(pre_run == Err::<Seq<char>, ErrorView>(
                                                ErrorView::SpliceDepthExceeded,
                                            ));
                                        }
                                        return Err(Error::SpliceDepthExceeded);
                                    }
                                    match run_doc(&contents, files, &args, depth - 1) {
                                        Err(e) => {
                                            proof {
                                                assert(pre_run == Err::<Seq<char>, ErrorView>(e@));
                                            }
                                            return Err(e);
                                        },
                                        Ok(t) => {
                                            let ghost out0 = out@;
                                            let ghost tv = t@;
                                            push_all(&mut out, &t);
                                            i = i + 1;
                                            proof {
                                                match run_lines(
                                                    ldv,
                                                    i as int,
                                                    odv,
                                                    fdv,
                                                    None::<FnMacroView>,
                                                    files@,
                                                    pdv,
                                                    cur0,
                                                    last as int,
                                                    depth as nat,
                                                ) {
                                                    Ok(rest) => {
                                                        assert(pre_run == Ok::<
                                                            Seq<char>,
                                                            ErrorView,
                                                        >(tv + rest));
                                                        assert(out@ + rest =~= out0 + (tv + rest));
                                                    },
                                                    Err(e) => {
                                                        assert(pre_run == Err::<
                                                            Seq<char>,
                                                            ErrorView,
                                                        >(e));
                                                    },
                                                }
                                            }
                                        },
                                    }
                                },
                            }
                        },
                    }
                } else {
                    proof {
                        assert(pre_run == Err::<Seq<char>, ErrorView>(
                            ErrorView::InvalidMacro(kw@, i0),
                        ));
                    }
                    return Err(Error::InvalidMacro(chars_to_string(&kw), i));
                }
            } else {
                let eff: Vec<char> = if p < line.len() && line[p] == '\\' && p + 1 < line.len()
                    && line[p + 1] == '#' {
                    let mut e2 = copy_range(line, 0, p);
                    let tail = copy_range(line, p + 1, line.len());
                    push_all(&mut e2, &tail);
                    e2
                } else {
                    copy_range(line, 0, line.len())
                };
                proof {
                    if !(p as int + 1 < line@.len() && line@[p as int] == '\\' && line@[p as int
                        + 1] == '#') {
                        assert(eff@ =~= line@);
                    }
                }
                let o1 = apply_objs_exec(&eff, &objs);
                match apply_fns_exec(&o1, &fns) {
                    Err(e) => {
                        proof {
                            assert(pre_run == Err::<Seq<char>, ErrorView>(e@));
                        }
                        return Err(e);
                    },
                    Ok(t) => {
                        let ghost out0 = out@;
                        let ghost tv = t@;
                        push_all(&mut out, &t);
                        if i != last {
                            out.push('\n');
                        }
                        i = i + 1;
                        proof {
                            let emitted = if i0 != last as int {
                                tv + seq!['\n']
                            } else {
                                tv
                            };
                            assert(out@ =~= out0 + emitted);
                            match run_lines(
                                ldv,
                                i as int,
                                odv,
                                fdv,
                                None::<FnMacroView>,
                                files@,
                                pdv,
                                cur0,
                                last as int,
                                depth as nat,
                            ) {
                                Ok(rest) => {
                                    assert(pre_run == Ok::<Seq<char>, ErrorView>(emitted + rest));
                                    assert(out@ + rest =~= out0 + (emitted + rest));
                                },
                                Err(e) => {
                                    assert(pre_run == Err::<Seq<char>, ErrorView>(e));
                                },
                            }
                        }
                    },
                }
            }
        }
    }
    proof {
        let st = if collecting {
            Some(
                FnMacroView {
                    name: coll_name@,
                    params: coll_params.deep_view(),
                    body: coll_body@,
                },
            )
        } else {
            None::<FnMacroView>
        };
        match run_lines(
            lines.deep_view(),
            i as int,
            objs.deep_view(),
            fns.deep_view(),
            st,
            files@,
            params.deep_view(),
            cursor as int,
            last as int,
            depth as nat,
        ) {
            Ok(t) => {
                assert(out@ + t =~= out@);
            },
            Err(e) => {},
        }
    }
    if cursor < params.len() {
        Err(Error::UnusedParameters)
    } else {
        Ok(out)
    }
}

/// The externally supplied parameter strings, as character vectors.
fn params_to_chars(parameters: &Vec<String>) -> (r: Vec<Vec<char>>)
    ensures
        r.deep_view() == parameters.deep_view(),
{
    let mut ps: Vec<Vec<char>> = Vec::new();
    let mut k: usize = 0;
    while k < parameters.len()
        invariant
            k <= parameters@.len(),
            ps.deep_view() == parameters.deep_view().subrange(0, k as int),
        decreases parameters@.len() - k,
    {
        let ghost od = ps.deep_view();
        let v = str_to_chars(parameters[k].as_str());
        let ghost vv = v@;
        ps.push(v);
        k = k + 1;
        proof {
            assert(ps.deep_view() =~~= od.push(vv));
            assert(od.push(vv) =~~= parameters.deep_view().subrange(0, k as int));
        }
    }
    proof {
        assert(ps.deep_view() =~~= parameters.deep_view());
    }
    ps
}

/// Expands a document using the templating engine.
///
/// Every splice directive in `input` resolves against `files`; each
/// parameter directive consumes the next value of `parameters`, which the
/// document must drain exactly. The result is precisely what the engine's
/// interpreter [`expand_doc`] gives for these inputs, with splices allowed
/// to nest [`MAX_SPLICE_DEPTH`] deep.
pub fn parse_string(input: &str, files: &FileSet, parameters: &Vec<String>) -> (r: Result<
    String,
    Error,
>)
    ensures
        res_string_match(
            r,
            expand_doc(input@, files@, parameters.deep_view(), MAX_SPLICE_DEPTH as nat),
        ),
{
    let doc = str_to_chars(input);
    let ps = params_to_chars(parameters);
    match run_doc(&doc, files, &ps, MAX_SPLICE_DEPTH) {
        Ok(v) => Ok(chars_to_string(&v)),
        Err(e) => Err(e),
    }
}

/// Expands the file of the table named `input_file`, as [`parse_string`]
/// expands a document; a name absent from the table is an error carrying
/// that name.
pub fn parse(input_file: &str, files: &FileSet, parameters: &Vec<String>) -> (r: Result<
    String,
    Error,
>)
    ensures
        match lookup(files@, input_file@) {
            Some(doc) => res_string_match(
                r,
                expand_doc(doc, files@, parameters.deep_view(), MAX_SPLICE_DEPTH as nat),
            ),
            None => r matches Err(e) && e@ == ErrorView::FileNotFound(input_file@),
        },
{
    let name = str_to_chars(input_file);
    match files.find(&name) {
        None => Err(Error::FileNotFound(chars_to_string(&name))),
        Some(contents) => {
            let ps = params_to_chars(parameters);
            match run_doc(&contents, files, &ps, MAX_SPLICE_DEPTH) {
                Ok(v) => Ok(chars_to_string(&v)),
                Err(e) => Err(e),
            }
        },
    }
}

} // verus!
