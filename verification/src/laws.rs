//! Engine-wide laws, proved against the interpreter.
//!
//! A document that holds no directive lines is passed through byte for
//! byte; a parameter sequence that such a document cannot consume is
//! always reported as unused; and a macro body split across continuation
//! lines is joined into one logical body before the macro is registered.

use vstd::prelude::*;
use crate::engine::DefineOutcome;
use crate::engine::FileEntryView;
use crate::engine::kw_define;
use crate::engine::parse_define;
use crate::engine::expand_doc;
use crate::engine::run_lines;
use crate::error::ErrorView;
use crate::fnsubst::FnMacroView;
use crate::fnsubst::apply_fns;
use crate::subst::ObjMacroView;
use crate::subst::end_ok;
use crate::subst::match_at;
use crate::subst::replace_all;
use crate::subst::replace_from;
use crate::subst::start_ok;
use crate::subst::apply_objs;
use crate::text::alnum_end;
use crate::text::count_nl;
use crate::text::count_nl_from;
use crate::text::lemma_count_nl_bounds;
use crate::text::line_end;
use crate::text::lemma_line_end_bounds;
use crate::text::skip_spaces;
use crate::text::split_lines;
use crate::text::split_lines_from;
use crate::text::strip_cr;

verus! {

/// A line that is neither a directive nor an escaped directive: its first
/// character after leading ASCII whitespace is not `#`, nor a backslash
/// followed directly by `#`.
pub open spec fn plain_line(l: Seq<char>) -> bool {
    let p = skip_spaces(l, 0);
    !(p < l.len() && l[p] == '#') && !(p + 1 < l.len() && l[p] == '\\' && l[p + 1] == '#')
}

/// No carriage return stands directly before a line feed: line splitting
/// then drops no character.
pub open spec fn no_crlf(s: Seq<char>) -> bool {
    forall|k: int| 0 <= k < s.len() - 1 ==> !(#[trigger] s[k] == '\r' && s[k + 1] == '\n')
}

/// The line feeds at or after `pos` are one at the line's end plus those
/// of the following lines.
proof fn lemma_count_to_line_end(doc: Seq<char>, pos: int)
    requires
        0 <= pos <= doc.len(),
    ensures
        count_nl_from(doc, pos) == if line_end(doc, pos) < doc.len() {
            1 + count_nl_from(doc, line_end(doc, pos) + 1)
        } else {
            0
        },
    decreases doc.len() - pos,
{
    if pos < doc.len() && doc[pos] != '\n' {
        lemma_count_to_line_end(doc, pos + 1);
    }
}

/// A line ends either at a line feed or at the document's end.
proof fn lemma_line_end_char(doc: Seq<char>, pos: int)
    requires
        0 <= pos <= doc.len(),
    ensures
        line_end(doc, pos) < doc.len() ==> doc[line_end(doc, pos)] == '\n',
    decreases doc.len() - pos,
{
    if pos < doc.len() && doc[pos] != '\n' {
        lemma_line_end_char(doc, pos + 1);
    }
}

/// Substitution under empty macro tables changes nothing.
proof fn lemma_empty_tables(l: Seq<char>)
    ensures
        apply_objs(l, Seq::<ObjMacroView>::empty()) == l,
        apply_fns(l, Seq::<FnMacroView>::empty()) == Ok::<Seq<char>, ErrorView>(l),
{
}

/// Running the driver over the plain lines of a document's suffix, with
/// empty tables and an untouched cursor, emits the suffix unchanged, and
/// then fails exactly when parameters remain.
proof fn lemma_plain_suffix(
    doc: Seq<char>,
    pos: int,
    i: int,
    files: Seq<FileEntryView>,
    params: Seq<Seq<char>>,
    depth: nat,
)
    requires
        0 <= pos <= doc.len(),
        0 <= i <= split_lines(doc).len(),
        no_crlf(doc),
        split_lines_from(doc, pos) == split_lines(doc).skip(i),
        count_nl_from(doc, pos) == count_nl(doc) - i,
        forall|j: int|
            i <= j < split_lines(doc).len() ==> #[trigger] plain_line(split_lines(doc)[j]),
    ensures
        run_lines(
            split_lines(doc),
            i,
            Seq::<ObjMacroView>::empty(),
            Seq::<FnMacroView>::empty(),
            None,
            files,
            params,
            0,
            count_nl(doc),
            depth,
        ) == if params.len() > 0 {
            Err::<Seq<char>, ErrorView>(ErrorView::UnusedParameters)
        } else {
            Ok::<Seq<char>, ErrorView>(doc.subrange(pos, doc.len() as int))
        },
    decreases doc.len() - pos + 1,
{
    let lines = split_lines(doc);
    let last = count_nl(doc);
    if pos >= doc.len() {
        assert(split_lines_from(doc, pos) == Seq::<Seq<char>>::empty());
        assert(lines.skip(i).len() == 0);
        assert(i == lines.len());
        assert(doc.subrange(pos, doc.len() as int) =~= Seq::<char>::empty());
    } else {
        let k = line_end(doc, pos);
        lemma_line_end_bounds(doc, pos);
        lemma_count_to_line_end(doc, pos);
        assert(split_lines_from(doc, pos).len() > 0);
        assert(i < lines.len());
        let line = lines[i];
        assert(line == lines.skip(i)[0]);
        assert(line == split_lines_from(doc, pos)[0]);
        assert(plain_line(line));
        lemma_empty_tables(line);
        if k == doc.len() {
            // the final, unterminated line
            assert(line == doc.subrange(pos, doc.len() as int));
            assert(count_nl_from(doc, pos) == 0);
            assert(i == last);
            assert(split_lines_from(doc, pos).len() == 1);
            assert(lines.skip(i).len() == 1);
            assert(i + 1 == lines.len());
            assert(run_lines(
                lines,
                i + 1,
                Seq::<ObjMacroView>::empty(),
                Seq::<FnMacroView>::empty(),
                None,
                files,
                params,
                0,
                last,
                depth,
            ) == if params.len() > 0 {
                Err::<Seq<char>, ErrorView>(ErrorView::UnusedParameters)
            } else {
                Ok::<Seq<char>, ErrorView>(Seq::<char>::empty())
            });
            if params.len() == 0 {
                assert(line + Seq::<char>::empty() =~= doc.subrange(pos, doc.len() as int));
            }
        } else {
            // a terminated line: the feed at `k` is restored on emission
            lemma_line_end_char(doc, pos);
            assert(doc[k] == '\n');
            let raw = doc.subrange(pos, k);
            assert(strip_cr(raw) == raw) by {
                if raw.len() > 0 && raw[raw.len() - 1] == '\r' {
                    assert(doc[k - 1] == '\r');
                }
            }
            assert(line == raw);
            assert(count_nl_from(doc, pos) == 1 + count_nl_from(doc, k + 1));
            lemma_count_nl_bounds(doc, k + 1);
            assert(i != last);
            let a = split_lines_from(doc, k + 1);
            let b = lines.skip(i + 1);
            assert(split_lines_from(doc, pos) == seq![line] + a);
            assert(lines.skip(i) =~= seq![line] + b);
            assert(a.len() == b.len());
            assert forall|j: int| 0 <= j < a.len() implies a[j] == b[j] by {
                assert(a[j] == (seq![line] + a)[j + 1]);
                assert(b[j] == (seq![line] + b)[j + 1]);
            }
            assert(a =~= b);
            lemma_plain_suffix(doc, k + 1, i + 1, files, params, depth);
            if params.len() == 0 {
                assert((line + seq!['\n']) + doc.subrange(k + 1, doc.len() as int) =~= doc.subrange(
                    pos,
                    doc.len() as int,
                ));
            }
        }
    }
}

proof fn lemma_blocked_from(s: Seq<char>, i: int, name: Seq<char>, rep: Seq<char>)
    requires
        0 <= i <= s.len(),
        name.len() > 0,
        forall|j: int|
            #[trigger] match_at(s, j, name) && 0 <= j ==> !(start_ok(s, j) && end_ok(
                s,
                j + name.len(),
            )),
    ensures
        replace_from(s, i, name, rep) == s.subrange(i, s.len() as int),
    decreases s.len() - i,
{
    if i >= s.len() {
        assert(s.subrange(i, s.len() as int) =~= Seq::<char>::empty());
    } else if match_at(s, i, name) {
        lemma_blocked_from(s, i + name.len(), name, rep);
        assert(name + s.subrange(i + name.len(), s.len() as int) =~= s.subrange(
            i,
            s.len() as int,
        ));
    } else {
        lemma_blocked_from(s, i + 1, name, rep);
        assert(seq![s[i]] + s.subrange(i + 1, s.len() as int) =~= s.subrange(i, s.len() as int));
    }
}

/// Identifier-boundary matching: an occurrence of a macro's name bordered
/// by an identifier character on either side is never rewritten, so a line
/// in which every occurrence is so bordered comes back unchanged.
pub proof fn lemma_bordered_occurrences_unchanged(s: Seq<char>, name: Seq<char>, rep: Seq<char>)
    requires
        forall|j: int|
            #[trigger] match_at(s, j, name) && 0 <= j ==> !(start_ok(s, j) && end_ok(
                s,
                j + name.len(),
            )),
    ensures
        replace_all(s, name, rep) == s,
{
    if name.len() > 0 {
        lemma_blocked_from(s, 0, name, rep);
        assert(s.subrange(0, s.len() as int) =~= s);
    }
}

/// A line whose last character is the continuation escape.
pub open spec fn ends_with_escape(l: Seq<char>) -> bool {
    l.len() > 0 && l[l.len() - 1] == '\\'
}

/// The logical body collected from line `i` on, starting from `b`: each
/// line ending in a continuation escape contributes its text without the
/// escape, and the first line without one completes the body. `None` when
/// the document ends first, with the next line index otherwise.
pub open spec fn collect_joined(lines: Seq<Seq<char>>, i: int, b: Seq<char>) -> Option<
    (Seq<char>, int),
>
    decreases lines.len() - i,
{
    if i < 0 || i >= lines.len() {
        None
    } else if ends_with_escape(lines[i]) {
        collect_joined(lines, i + 1, b + lines[i].subrange(0, lines[i].len() - 1))
    } else {
        Some((b + lines[i], i + 1))
    }
}

/// A body split across lines ending in continuation escapes is joined into
/// one logical body before the macro is registered: a driver that is
/// collecting runs exactly as if the joined body were registered at once
/// and processing resumed past the collected lines, during which the
/// lines are not otherwise interpreted. A document that ends while
/// collecting registers nothing and only the cursor check remains.
pub proof fn lemma_continuation_joins(
    lines: Seq<Seq<char>>,
    i: int,
    m: FnMacroView,
    objs: Seq<ObjMacroView>,
    fns: Seq<FnMacroView>,
    files: Seq<FileEntryView>,
    params: Seq<Seq<char>>,
    cur: int,
    last: int,
    depth: nat,
)
    requires
        0 <= i,
    ensures
        run_lines(lines, i, objs, fns, Some(m), files, params, cur, last, depth) == match collect_joined(
            lines,
            i,
            m.body,
        ) {
            None => if cur < params.len() {
                Err::<Seq<char>, ErrorView>(ErrorView::UnusedParameters)
            } else {
                Ok::<Seq<char>, ErrorView>(Seq::empty())
            },
            Some(bj) => run_lines(
                lines,
                bj.1,
                objs,
                fns.push((FnMacroView { name: m.name, params: m.params, body: bj.0 })),
                None,
                files,
                params,
                cur,
                last,
                depth,
            ),
        },
    decreases lines.len() - i,
{
    if i < lines.len() && ends_with_escape(lines[i]) {
        let m2 = FnMacroView {
            name: m.name,
            params: m.params,
            body: m.body + lines[i].subrange(0, lines[i].len() - 1),
        };
        lemma_continuation_joins(lines, i + 1, m2, objs, fns, files, params, cur, last, depth);
    }
}

/// The same joining, seen from the definition line itself: a function-like
/// definition whose body ends in the continuation escape registers the
/// macro with the joined body collected from the following lines.
pub proof fn lemma_multi_line_define_joins(
    lines: Seq<Seq<char>>,
    i: int,
    m: FnMacroView,
    objs: Seq<ObjMacroView>,
    fns: Seq<FnMacroView>,
    files: Seq<FileEntryView>,
    params: Seq<Seq<char>>,
    cur: int,
    last: int,
    depth: nat,
)
    requires
        0 <= i < lines.len(),
        ({
            let l = lines[i];
            let p = skip_spaces(l, 0);
            p < l.len() && l[p] == '#' && l.subrange(p + 1, alnum_end(l, p + 1)) == kw_define()
        }),
        parse_define(lines[i], alnum_end(lines[i], skip_spaces(lines[i], 0) + 1), i) == (
        DefineOutcome::Func { m, cont: true }),
    ensures
        run_lines(lines, i, objs, fns, None, files, params, cur, last, depth) == match collect_joined(
            lines,
            i + 1,
            m.body,
        ) {
            None => if cur < params.len() {
                Err::<Seq<char>, ErrorView>(ErrorView::UnusedParameters)
            } else {
                Ok::<Seq<char>, ErrorView>(Seq::empty())
            },
            Some(bj) => run_lines(
                lines,
                bj.1,
                objs,
                fns.push((FnMacroView { name: m.name, params: m.params, body: bj.0 })),
                None,
                files,
                params,
                cur,
                last,
                depth,
            ),
        },
{
    lemma_continuation_joins(lines, i + 1, m, objs, fns, files, params, cur, last, depth);
}

/// Pass-through: a document without directive lines, expanded with no
/// parameters, comes back byte for byte (its lines bind no macros, so no
/// substitution applies). Carriage returns directly before line feeds are
/// excluded, since line splitting normalises those away.
pub proof fn lemma_plain_document_unchanged(
    doc: Seq<char>,
    files: Seq<FileEntryView>,
    depth: nat,
)
    requires
        no_crlf(doc),
        forall|j: int|
            0 <= j < split_lines(doc).len() ==> #[trigger] plain_line(split_lines(doc)[j]),
    ensures
        expand_doc(doc, files, Seq::empty(), depth) == Ok::<Seq<char>, ErrorView>(doc),
{
    assert(split_lines_from(doc, 0) =~= split_lines(doc).skip(0));
    lemma_plain_suffix(doc, 0, 0, files, Seq::empty(), depth);
    assert(doc.subrange(0, doc.len() as int) =~= doc);
}

/// Surplus parameters: a document without directive lines consumes no
/// parameters, so expanding it with any left on the cursor fails with the
/// unused-parameters error — for the empty document in particular.
pub proof fn lemma_plain_document_unused_params(
    doc: Seq<char>,
    files: Seq<FileEntryView>,
    params: Seq<Seq<char>>,
    depth: nat,
)
    requires
        no_crlf(doc),
        params.len() > 0,
        forall|j: int|
            0 <= j < split_lines(doc).len() ==> #[trigger] plain_line(split_lines(doc)[j]),
    ensures
        expand_doc(doc, files, params, depth) == Err::<Seq<char>, ErrorView>(
            ErrorView::UnusedParameters,
        ),
{
    assert(split_lines_from(doc, 0) =~= split_lines(doc).skip(0));
    lemma_plain_suffix(doc, 0, 0, files, params, depth);
}

} // verus!
