//! Preprocessing keeps line numbers: every source line gives exactly one
//! output line, so a position in the output is on the line it had in the
//! source.

use vstd::prelude::*;

use crate::expand::{
    args_from, attr_close_from, attr_opens_at, expand_from, expand_line, expand_more, expand_once,
    lemma_args_from_end, lemma_attr_close_from, lemma_ident_end_bounds, lemma_param_at, ident_end,
    macro_args, param_at, strip_attrs, strip_attrs_from, subst, subst_from,
};
use crate::macros::MacroMap;
use crate::preprocessor::{
    apply_define, define_parts, letter_flags, name_end_with, kw_define, line_step, preprocess_run, run_lines, start_state, RunState,
};
use crate::text::{
    find_from, has_char, lemma_find_from_bounds, lemma_skip_ws_back_bounds,
    lemma_skip_ws_from_bounds, lines, lines_from,
    skip_ws_back, skip_ws_from, starts_with, trim,
};

verus! {

/// The number of newline characters in `s`.
pub open spec fn newline_count(s: Seq<char>) -> nat
    decreases s.len(),
{
    if s.len() == 0 {
        0
    } else {
        newline_count(s.drop_last()) + if s.last() == '\n' {
            1nat
        } else {
            0nat
        }
    }
}

/// No character of `s` is a newline.
pub open spec fn no_newline(s: Seq<char>) -> bool {
    forall|i: int| 0 <= i < s.len() ==> #[trigger] s[i] != '\n'
}

/// No macro body holds a newline.
pub open spec fn bodies_without_newline(defs: MacroMap) -> bool {
    forall|name: Seq<char>| #[trigger] defs.contains_key(name) ==> no_newline(defs[name].body)
}

proof fn lemma_count_add(a: Seq<char>, b: Seq<char>)
    ensures
        newline_count(a + b) == newline_count(a) + newline_count(b),
    decreases b.len(),
{
    if b.len() == 0 {
        assert(a + b =~= a);
    } else {
        lemma_count_add(a, b.drop_last());
        assert((a + b).drop_last() =~= a + b.drop_last());
    }
}

proof fn lemma_count_none(s: Seq<char>)
    requires
        no_newline(s),
    ensures
        newline_count(s) == 0,
    decreases s.len(),
{
    if s.len() > 0 {
        assert(s.last() == s[s.len() - 1]);
        assert(no_newline(s.drop_last())) by {
            assert forall|i: int| 0 <= i < s.drop_last().len() implies #[trigger] s.drop_last()[i]
                != '\n' by {
                assert(s.drop_last()[i] == s[i]);
            }
        }
        lemma_count_none(s.drop_last());
    }
}

proof fn lemma_subrange(s: Seq<char>, a: int, b: int)
    requires
        no_newline(s),
        0 <= a <= b <= s.len(),
    ensures
        no_newline(s.subrange(a, b)),
        no_newline(s.skip(a)),
        no_newline(s.take(b)),
{
    assert forall|i: int| 0 <= i < s.subrange(a, b).len() implies #[trigger] s.subrange(a, b)[i]
        != '\n' by {
        assert(s.subrange(a, b)[i] == s[a + i]);
    }
    assert forall|i: int| 0 <= i < s.skip(a).len() implies #[trigger] s.skip(a)[i] != '\n' by {
        assert(s.skip(a)[i] == s[a + i]);
    }
    assert forall|i: int| 0 <= i < s.take(b).len() implies #[trigger] s.take(b)[i] != '\n' by {
        assert(s.take(b)[i] == s[i]);
    }
}

proof fn lemma_concat(a: Seq<char>, b: Seq<char>)
    requires
        no_newline(a),
        no_newline(b),
    ensures
        no_newline(a + b),
{
    assert forall|i: int| 0 <= i < (a + b).len() implies #[trigger] (a + b)[i] != '\n' by {
        if i < a.len() {
            assert((a + b)[i] == a[i]);
        } else {
            assert((a + b)[i] == b[i - a.len()]);
        }
    }
}

proof fn lemma_trim(s: Seq<char>)
    requires
        no_newline(s),
    ensures
        no_newline(trim(s)),
{
    lemma_skip_ws_from_bounds(s, 0);
    let a = skip_ws_from(s, 0);
    lemma_subrange(s, a, s.len() as int);
    let u = s.skip(a);
    lemma_skip_ws_back_bounds(u, u.len() as int);
    lemma_subrange(u, 0, skip_ws_back(u, u.len() as int));
}

proof fn lemma_lines(s: Seq<char>, i: int)
    requires
        0 <= i,
    ensures
        forall|k: int| 0 <= k < lines_from(s, i).len() ==> no_newline(#[trigger] lines_from(s, i)[k]),
    decreases s.len() - i,
{
    if i < s.len() {
        let j = find_from(s, '\n', i);
        lemma_find_from_bounds(s, '\n', i);
        let l = s.subrange(i, j);
        assert(no_newline(l)) by {
            assert forall|m: int| 0 <= m < l.len() implies #[trigger] l[m] != '\n' by {
                assert(l[m] == s[i + m]);
            }
        }
        if j < s.len() {
            lemma_lines(s, j + 1);
            if l.len() > 0 && l.last() == '\r' {
                lemma_subrange(l, 0, l.len() - 1);
                assert(l.drop_last() =~= l.subrange(0, l.len() - 1));
            }
            let ls = lines_from(s, i);
            assert forall|k: int| 0 <= k < ls.len() implies no_newline(#[trigger] ls[k]) by {
                if k > 0 {
                    assert(ls[k] == lines_from(s, j + 1)[k - 1]);
                }
            }
        }
    }
}

proof fn lemma_name_end(s: Seq<char>, letters: Seq<bool>, i: int)
    requires
        0 <= i <= s.len(),
    ensures
        i <= name_end_with(s, letters, i) <= s.len(),
    decreases s.len() - i,
{
    if i < s.len() && i < letters.len() && (letters[i] || s[i] == '_') {
        lemma_name_end(s, letters, i + 1);
    }
}

proof fn lemma_define_body(t: Seq<char>)
    requires
        no_newline(t),
        t.len() >= 7,
    ensures
        no_newline(define_parts(t).body),
{
    lemma_subrange(t, 7, t.len() as int);
    let rest = trim(t.skip(7));
    lemma_trim(t.skip(7));
    let ne = name_end_with(rest, letter_flags(rest), 0);
    lemma_name_end(rest, letter_flags(rest), 0);
    lemma_subrange(rest, ne, rest.len() as int);
    let after = rest.skip(ne);
    let close = find_from(after, ')', 0);
    lemma_find_from_bounds(after, ')', 0);
    if after.len() > 0 && after[0] == '(' && close < after.len() {
        lemma_subrange(after, close + 1, after.len() as int);
        lemma_trim(after.skip(close + 1));
    } else {
        lemma_trim(after);
    }
}

proof fn lemma_subst(body: Seq<char>, params: Seq<Seq<char>>, args: Seq<Seq<char>>, i: int)
    requires
        no_newline(body),
        forall|m: int| 0 <= m < args.len() ==> no_newline(#[trigger] args[m]),
    ensures
        no_newline(subst_from(body, params, args, i)),
    decreases body.len() - i,
{
    if i < 0 || i >= body.len() {
        assert(no_newline(Seq::<char>::empty()));
    } else {
        lemma_param_at(body, params, args, i, 0);
        match param_at(body, params, args, i, 0) {
            Some(k) => {
                lemma_subst(body, params, args, i + params[k].len());
                lemma_concat(args[k], subst_from(body, params, args, i + params[k].len()));
            },
            None => {
                lemma_subst(body, params, args, i + 1);
                assert(no_newline(seq![body[i]]));
                lemma_concat(seq![body[i]], subst_from(body, params, args, i + 1));
            },
        }
    }
}

proof fn lemma_push(args: Seq<Seq<char>>, arg: Seq<char>)
    requires
        forall|m: int| 0 <= m < args.len() ==> no_newline(#[trigger] args[m]),
        no_newline(arg),
    ensures
        forall|m: int| 0 <= m < args.push(arg).len() ==> no_newline(#[trigger] args.push(arg)[m]),
{
    assert forall|m: int| 0 <= m < args.push(arg).len() implies no_newline(
        #[trigger] args.push(arg)[m],
    ) by {
        if m < args.len() {
            assert(args.push(arg)[m] == args[m]);
        }
    }
}

proof fn lemma_args(s: Seq<char>, i: int, depth: int, start: int, args: Seq<Seq<char>>)
    requires
        no_newline(s),
        0 <= start <= i <= s.len(),
        forall|m: int| 0 <= m < args.len() ==> no_newline(#[trigger] args[m]),
    ensures
        forall|m: int| 0 <= m < args_from(s, i, depth, start, args).0.len() ==> no_newline(
            #[trigger] args_from(s, i, depth, start, args).0[m],
        ),
    decreases s.len() - i,
{
    let r = args_from(s, i, depth, start, args);
    if i < s.len() {
        if s[i] == '(' {
            lemma_args(s, i + 1, depth + 1, start, args);
            assert(r == args_from(s, i + 1, depth + 1, start, args));
        } else if s[i] == ')' {
            if depth == 1 {
                lemma_subrange(s, start, i);
                let arg = trim(s.subrange(start, i));
                lemma_trim(s.subrange(start, i));
                lemma_push(args, arg);
                assert(r.0 == (if arg.len() > 0 || args.len() > 0 {
                    args.push(arg)
                } else {
                    args
                }));
            } else {
                lemma_args(s, i + 1, depth - 1, start, args);
                assert(r == args_from(s, i + 1, depth - 1, start, args));
            }
        } else if s[i] == ',' && depth == 1 {
            lemma_subrange(s, start, i);
            lemma_trim(s.subrange(start, i));
            lemma_push(args, trim(s.subrange(start, i)));
            lemma_args(s, i + 1, depth, i + 1, args.push(trim(s.subrange(start, i))));
            assert(r == args_from(s, i + 1, depth, i + 1, args.push(trim(s.subrange(start, i)))));
        } else {
            lemma_args(s, i + 1, depth, start, args);
            assert(r == args_from(s, i + 1, depth, start, args));
        }
    }
}

proof fn lemma_expand_from(defs: MacroMap, s: Seq<char>, i: int)
    requires
        bodies_without_newline(defs),
        no_newline(s),
        0 <= i <= s.len(),
    ensures
        expand_from(defs, s, i) matches Some(r) ==> no_newline(r),
    decreases s.len() - i,
{
    if i < s.len() {
        if s[i] == '`' {
            let j = ident_end(s, i + 1);
            lemma_ident_end_bounds(s, i + 1);
            let name = s.subrange(i + 1, j);
            if defs.contains_key(name) {
                let d = defs[name];
                if d.params is Some && j < s.len() && s[j] == '(' {
                    let (args, k) = macro_args(s, j);
                    lemma_args_from_end(s, j + 1, 1, j + 1, seq![]);
                    lemma_args(s, j + 1, 1, j + 1, seq![]);
                    lemma_subst(d.body, d.params->0, args, 0);
                    lemma_expand_from(defs, s, k);
                    if let Some(r) = expand_from(defs, s, k) {
                        lemma_concat(subst(d.body, d.params->0, args), r);
                    }
                } else {
                    lemma_expand_from(defs, s, j);
                    if let Some(r) = expand_from(defs, s, j) {
                        lemma_concat(d.body, r);
                    }
                }
            } else {
                lemma_expand_from(defs, s, j);
                lemma_subrange(s, i + 1, j);
                assert(no_newline(seq!['`']));
                lemma_concat(seq!['`'], name);
                if let Some(r) = expand_from(defs, s, j) {
                    lemma_concat(seq!['`'] + name, r);
                }
            }
        } else {
            lemma_expand_from(defs, s, i + 1);
            assert(no_newline(seq![s[i]]));
            if let Some(r) = expand_from(defs, s, i + 1) {
                lemma_concat(seq![s[i]], r);
            }
        }
    }
}

proof fn lemma_expand_more(defs: MacroMap, r: Seq<char>, fuel: nat)
    requires
        bodies_without_newline(defs),
        no_newline(r),
    ensures
        expand_more(defs, r, fuel) matches Some(e) ==> no_newline(e),
    decreases fuel,
{
    if fuel > 0 {
        lemma_expand_from(defs, r, 0);
        if let Some(n) = expand_once(defs, r) {
            lemma_expand_more(defs, n, (fuel - 1) as nat);
        }
    }
}

proof fn lemma_strip_from(s: Seq<char>, i: int)
    requires
        no_newline(s),
    ensures
        no_newline(strip_attrs_from(s, i)),
    decreases s.len() - i,
{
    if i < 0 || i >= s.len() {
        assert(no_newline(Seq::<char>::empty()));
    } else if attr_opens_at(s, i) {
        lemma_attr_close_from(s, i + 2);
        let e = attr_close_from(s, i + 2)->0;
        lemma_strip_from(s, e);
        assert(no_newline(seq![' ']));
        lemma_concat(seq![' '], strip_attrs_from(s, e));
    } else {
        lemma_strip_from(s, i + 1);
        assert(no_newline(seq![s[i]]));
        lemma_concat(seq![s[i]], strip_attrs_from(s, i + 1));
    }
}

proof fn lemma_step(s: RunState, line: Seq<char>)
    requires
        bodies_without_newline(s.defs),
        no_newline(line),
        !s.failed,
    ensures
        bodies_without_newline(line_step(s, line).defs),
        !line_step(s, line).failed ==> newline_count(line_step(s, line).out) == newline_count(
            s.out,
        ) + 1,
{
    let t = trim(line);
    lemma_trim(line);
    let r = line_step(s, line);
    lemma_count_add(s.out, seq!['\n']);
    assert(newline_count(seq!['\n']) == 1) by {
        assert(seq!['\n'].drop_last() =~= Seq::<char>::empty());
        assert(seq!['\n'].last() == '\n');
        assert(newline_count(Seq::<char>::empty()) == 0);
    }
    let d = define_parts(t);
    if starts_with(t, kw_define()) {
        assert(t.len() >= 7);
        lemma_define_body(t);
        if d.name.len() > 0 {
            assert forall|name: Seq<char>| #[trigger] apply_define(s.defs, t).contains_key(
                name,
            ) implies no_newline(apply_define(s.defs, t)[name].body) by {
                if name != d.name {
                    assert(s.defs.contains_key(name));
                }
            }
        }
        assert(bodies_without_newline(apply_define(s.defs, t)));
    }
    lemma_expand_from(s.defs, line, 0);
    if let Some(e1) = expand_once(s.defs, line) {
        lemma_expand_more(s.defs, e1, 16);
    }
    if let Some(e) = expand_line(s.defs, line) {
        lemma_strip_from(e, 0);
        lemma_count_none(strip_attrs(e));
        lemma_count_add(s.out, strip_attrs(e));
        lemma_count_add(s.out + strip_attrs(e), seq!['\n']);
    }
}

proof fn lemma_run(s: RunState, ls: Seq<Seq<char>>, k: int)
    requires
        bodies_without_newline(s.defs),
        forall|m: int| 0 <= m < ls.len() ==> no_newline(#[trigger] ls[m]),
        0 <= k <= ls.len(),
    ensures
        !run_lines(s, ls, k).failed ==> newline_count(run_lines(s, ls, k).out) == newline_count(
            s.out,
        ) + (ls.len() - k),
    decreases ls.len() - k,
{
    if k < ls.len() {
        if s.failed {
            crate::preprocessor::lemma_run_failed(s, ls, k);
        } else {
            lemma_step(s, ls[k]);
            crate::preprocessor::lemma_run_failed(line_step(s, ls[k]), ls, k + 1);
            lemma_run(line_step(s, ls[k]), ls, k + 1);
        }
    }
}

/// Each line of the source gives exactly one line of output. When no macro
/// body holds a newline, a run that reads every line outputs as many
/// newlines as the source has lines, so every output line stands where its
/// source line stood.
pub proof fn one_output_line_per_source_line(defs: MacroMap, source: Seq<char>)
    requires
        forall|name: Seq<char>| #[trigger] defs.contains_key(name) ==> !has_char(defs[name].body, '\n'),
        !preprocess_run(defs, source).failed,
    ensures
        newline_count(preprocess_run(defs, source).out) == lines(source).len(),
{
    assert(bodies_without_newline(defs)) by {
        assert forall|name: Seq<char>| #[trigger] defs.contains_key(name) implies no_newline(
            defs[name].body,
        ) by {
            let b = defs[name].body;
            assert forall|i: int| 0 <= i < b.len() implies #[trigger] b[i] != '\n' by {
                if b[i] == '\n' {
                    assert(has_char(b, '\n'));
                }
            }
        }
    }
    lemma_lines(source, 0);
    lemma_run(start_state(defs), lines(source), 0);
    assert(newline_count(Seq::<char>::empty()) == 0);
}

} // verus!
