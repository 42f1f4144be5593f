//! Properties of the preprocessor that hold for all inputs.

use vstd::prelude::*;

use crate::expand::{
    expand_from, expand_line, expand_more, expand_once, strip_attrs, strip_attrs_from,
};
use crate::macros::{MacroMap, MacroSpec};
use crate::inclusion::{
    include_request, new_frame, session_step, FrameModel, SessionModel, StepModel,
    MAX_INCLUDE_DEPTH,
};
use crate::preprocessor::{
    all_true, ignored_directives, is_ignored_directive, kw_attr_open, kw_define, kw_else,
    kw_endif, kw_ifdef, kw_ifndef, kw_include, kw_undef, line_step, preprocess_run, run_lines,
    start_state, with_include_dir, RunState,
};
use crate::text::{
    ends_with, find_from, has_char, is_ascii_char, lemma_find_from_bounds,
    lemma_skip_ws_back_bounds, lemma_skip_ws_from_bounds, lines, lines_from, skip_ws_back,
    skip_ws_from, starts_with, strip_cr, trim, trim_end, trim_start,
};

verus! {

/// After `define(name, d)`, `name` is defined and stands for `d`, and every
/// other macro is as it was.
pub proof fn define_then_defined(m: MacroMap, name: Seq<char>, d: MacroSpec, other: Seq<char>)
    ensures
        m.insert(name, d).contains_key(name),
        m.insert(name, d)[name] == d,
        other != name ==> m.insert(name, d).contains_key(other) == m.contains_key(other),
        other != name && m.contains_key(other) ==> m.insert(name, d)[other] == m[other],
{
}

/// Adding the same include directory twice lists it once.
pub proof fn add_include_dir_idempotent(dirs: Seq<Seq<char>>, dir: Seq<char>)
    ensures
        with_include_dir(with_include_dir(dirs, dir), dir) == with_include_dir(dirs, dir),
{
    let once = with_include_dir(dirs, dir);
    if !(exists|i: int| 0 <= i < dirs.len() && (#[trigger] dirs[i] == dir || crate::preprocessor::same_path(dirs[i], dir))) {
        assert(once[dirs.len() as int] == dir);
    }
}

/// `n` expansion passes over `s` (`None` once a pass cannot read its text).
pub open spec fn expand_times(defs: MacroMap, s: Seq<char>, n: nat) -> Option<Seq<char>>
    decreases n,
{
    if n == 0 {
        Some(s)
    } else {
        match expand_times(defs, s, (n - 1) as nat) {
            Some(r) => expand_once(defs, r),
            None => None,
        }
    }
}

proof fn lemma_expand_more_passes(defs: MacroMap, s: Seq<char>, r: Seq<char>, j: nat, fuel: nat) -> (k: nat)
    requires
        expand_times(defs, s, j) == Some(r),
        1 <= j,
        j + fuel == 17,
    ensures
        expand_more(defs, r, fuel) matches Some(e) ==> j <= k <= 17 && expand_times(defs, s, k)
            == Some(e) && (k == 17 || !has_char(e, '`') || expand_once(defs, e) == Some(e)),
        expand_more(defs, r, fuel) is None ==> j < k <= 17 && expand_times(defs, s, k) is None,
    decreases fuel,
{
    if fuel == 0 || !has_char(r, '`') {
        j
    } else {
        match expand_once(defs, r) {
            None => {
                assert(expand_times(defs, s, j + 1) is None);
                j + 1
            },
            Some(n) => if n == r {
                j
            } else {
                assert(expand_times(defs, s, j + 1) == Some(n));
                lemma_expand_more_passes(defs, s, n, j + 1, (fuel - 1) as nat)
            },
        }
    }
}

/// Macro expansion of a line is repeated passes: the result is that of some
/// number `k` of passes, from one to seventeen, where `k` is seventeen, or no
/// backtick is left, or one more pass changes nothing; and where expansion
/// has no result, some pass within seventeen could not read its text.
pub proof fn expansion_is_repeated_passes(defs: MacroMap, s: Seq<char>)
    ensures
        expand_line(defs, s) matches Some(e) ==> exists|k: nat|
            1 <= k <= 17 && #[trigger] expand_times(defs, s, k) == Some(e) && (k == 17 || !has_char(
                e,
                '`',
            ) || expand_once(defs, e) == Some(e)),
        expand_line(defs, s) is None ==> exists|k: nat|
            1 <= k <= 17 && #[trigger] expand_times(defs, s, k) is None,
{
    assert(expand_times(defs, s, 0) == Some(s));
    match expand_once(defs, s) {
        None => {
            assert(expand_times(defs, s, 1) is None);
        },
        Some(r) => {
            assert(expand_times(defs, s, 1) == Some(r));
            let k = lemma_expand_more_passes(defs, s, r, 1, 16);
            if let Some(e) = expand_line(defs, s) {
                assert(expand_times(defs, s, k) == Some(e));
            } else {
                assert(expand_times(defs, s, k) is None);
            }
        },
    }
}

/// Text that is plain for the preprocessor: ASCII, no backtick, and no `(*`.
pub open spec fn plain_text(s: Seq<char>) -> bool {
    &&& forall|i: int| 0 <= i < s.len() ==> is_ascii_char(#[trigger] s[i]) && s[i] != '`'
    &&& forall|i: int| 0 <= i < s.len() - 1 ==> !(#[trigger] s[i] == '(' && s[i + 1] == '*')
}

/// The lines `ls[k..]`, each followed by a newline.
pub open spec fn joined_from(ls: Seq<Seq<char>>, k: int) -> Seq<char>
    decreases ls.len() - k,
{
    if k < 0 || k >= ls.len() {
        seq![]
    } else {
        ls[k] + seq!['\n'] + joined_from(ls, k + 1)
    }
}

/// Every line followed by a newline.
pub open spec fn joined_lines(ls: Seq<Seq<char>>) -> Seq<char> {
    joined_from(ls, 0)
}

proof fn lemma_plain_subrange(s: Seq<char>, a: int, b: int)
    requires
        plain_text(s),
        0 <= a <= b <= s.len(),
    ensures
        plain_text(s.subrange(a, b)),
{
    let t = s.subrange(a, b);
    assert forall|i: int| 0 <= i < t.len() - 1 implies !(#[trigger] t[i] == '(' && t[i + 1] == '*') by {
        assert(t[i] == s[a + i] && t[i + 1] == s[a + i + 1]);
    }
}

proof fn lemma_plain_lines(s: Seq<char>, i: int)
    requires
        plain_text(s),
        0 <= i,
    ensures
        forall|k: int| 0 <= k < lines_from(s, i).len() ==> plain_text(#[trigger] lines_from(s, i)[k]),
    decreases s.len() - i,
{
    if i < s.len() {
        let j = find_from(s, '\n', i);
        lemma_find_from_bounds(s, '\n', i);
        if j < s.len() {
            lemma_plain_lines(s, j + 1);
            lemma_plain_subrange(s, i, j);
            let l = s.subrange(i, j);
            if l.len() > 0 && l.last() == '\r' {
                lemma_plain_subrange(l, 0, l.len() - 1);
                assert(l.drop_last() =~= l.subrange(0, l.len() - 1));
            }
            let ls = lines_from(s, i);
            assert forall|k: int| 0 <= k < ls.len() implies plain_text(#[trigger] ls[k]) by {
                if k > 0 {
                    assert(ls[k] == lines_from(s, j + 1)[k - 1]);
                }
            }
        } else {
            lemma_plain_subrange(s, i, s.len() as int);
        }
    }
}

proof fn lemma_plain_expand_from(defs: MacroMap, s: Seq<char>, i: int)
    requires
        plain_text(s),
        0 <= i <= s.len(),
    ensures
        expand_from(defs, s, i) == Some(s.skip(i)),
    decreases s.len() - i,
{
    if i < s.len() {
        lemma_plain_expand_from(defs, s, i + 1);
        assert(seq![s[i]] + s.skip(i + 1) =~= s.skip(i));
    } else {
        assert(s.skip(i) =~= Seq::<char>::empty());
    }
}

proof fn lemma_plain_strip(s: Seq<char>, i: int)
    requires
        plain_text(s),
        0 <= i <= s.len(),
    ensures
        strip_attrs_from(s, i) == s.skip(i),
    decreases s.len() - i,
{
    if i < s.len() {
        lemma_plain_strip(s, i + 1);
        assert(seq![s[i]] + s.skip(i + 1) =~= s.skip(i));
    } else {
        assert(s.skip(i) =~= Seq::<char>::empty());
    }
}

proof fn lemma_plain_trim(s: Seq<char>)
    requires
        plain_text(s),
    ensures
        plain_text(trim(s)),
{
    lemma_skip_ws_from_bounds(s, 0);
    let a = skip_ws_from(s, 0);
    lemma_plain_subrange(s, a, s.len() as int);
    let u = s.skip(a);
    assert(u =~= s.subrange(a, s.len() as int));
    lemma_skip_ws_back_bounds(u, u.len() as int);
    lemma_plain_subrange(u, 0, skip_ws_back(u, u.len() as int));
    assert(u.take(skip_ws_back(u, u.len() as int)) =~= u.subrange(
        0,
        skip_ws_back(u, u.len() as int),
    ));
}

proof fn lemma_plain_no_keyword(t: Seq<char>, p: Seq<char>)
    requires
        plain_text(t),
        p.len() > 0,
        p[0] == '`',
    ensures
        !starts_with(t, p),
{
    if starts_with(t, p) {
        assert(t.take(p.len() as int)[0] == p[0]);
    }
}

/// A plain line is copied to the output unchanged.
proof fn lemma_plain_line_step(s: RunState, line: Seq<char>)
    requires
        plain_text(line),
        !s.failed,
        s.stack.len() == 0,
    ensures
        line_step(s, line) == (RunState { out: s.out + line + seq!['\n'], ..s }),
{
    let t = trim(line);
    lemma_plain_trim(line);
    lemma_plain_no_keyword(t, kw_define());
    lemma_plain_no_keyword(t, kw_undef());
    lemma_plain_no_keyword(t, kw_ifdef());
    lemma_plain_no_keyword(t, kw_ifndef());
    lemma_plain_no_keyword(t, kw_else());
    lemma_plain_no_keyword(t, kw_endif());
    lemma_plain_no_keyword(t, kw_include());
    if starts_with(t, kw_attr_open()) {
        assert(t.take(2)[0] == '(' && t.take(2)[1] == '*');
    }
    assert forall|i: int| 0 <= i < ignored_directives().len() implies !starts_with(
        t,
        #[trigger] ignored_directives()[i],
    ) by {
        lemma_plain_no_keyword(t, ignored_directives()[i]);
    }
    assert(!is_ignored_directive(t));
    lemma_plain_expand_from(s.defs, line, 0);
    assert(line.skip(0) =~= line);
    assert(expand_once(s.defs, line) == Some(line));
    assert(!has_char(line, '`'));
    assert(expand_line(s.defs, line) == Some(line));
    lemma_plain_strip(line, 0);
    assert(strip_attrs(line) == line);
}

proof fn lemma_plain_run(s: RunState, ls: Seq<Seq<char>>, k: int)
    requires
        forall|m: int| 0 <= m < ls.len() ==> plain_text(#[trigger] ls[m]),
        !s.failed,
        s.stack.len() == 0,
        0 <= k,
    ensures
        run_lines(s, ls, k) == (RunState { out: s.out + joined_from(ls, k), ..s }),
    decreases ls.len() - k,
{
    if k < ls.len() {
        lemma_plain_line_step(s, ls[k]);
        let s2 = line_step(s, ls[k]);
        lemma_plain_run(s2, ls, k + 1);
        assert(s.out + joined_from(ls, k) =~= s2.out + joined_from(ls, k + 1));
    } else {
        assert(s.out + joined_from(ls, k) =~= s.out);
    }
}

/// Text without directives, macros or attributes (ASCII, no backtick, no
/// `(*`) passes through unchanged: each line is output as it is, followed
/// by a newline, and the macros stay as they were.
pub proof fn plain_text_unchanged(defs: MacroMap, source: Seq<char>)
    requires
        plain_text(source),
    ensures
        preprocess_run(defs, source) == (RunState {
            defs,
            stack: seq![],
            out: joined_lines(lines(source)),
            failed: false,
        }),
{
    lemma_plain_lines(source, 0);
    lemma_plain_run(start_state(defs), lines(source), 0);
    assert(Seq::<char>::empty() + joined_from(lines(source), 0) =~= joined_lines(lines(source)));
}

/// Inside a branch that is not taken, a line other than `ifdef, `ifndef,
/// `else and `endif leaves the macros and the open branches as they were
/// and gives an empty output line.
pub proof fn untaken_branch_line_is_blank(s: RunState, line: Seq<char>)
    requires
        !s.failed,
        !all_true(s.stack),
        !starts_with(trim(line), kw_ifdef()),
        !starts_with(trim(line), kw_ifndef()),
        !starts_with(trim(line), kw_else()),
        !starts_with(trim(line), kw_endif()),
    ensures
        line_step(s, line) == (RunState { out: s.out + seq!['\n'], ..s }),
{
}

/// Included files nest at most `MAX_INCLUDE_DEPTH` deep: a step never opens
/// a file, it asks for one only while at most `MAX_INCLUDE_DEPTH` files are
/// open, so a session that answers each request by entering the file keeps
/// at most `MAX_INCLUDE_DEPTH + 1` files open.
pub proof fn include_nesting_bounded(
    defs: MacroMap,
    s: SessionModel,
    contents: Seq<char>,
    path: Seq<char>,
)
    requires
        s.frames.len() <= MAX_INCLUDE_DEPTH + 1,
    ensures
        session_step(defs, s).1.frames.len() <= s.frames.len(),
        session_step(defs, s).2 is Include ==> s.frames.len() <= MAX_INCLUDE_DEPTH,
        session_step(defs, s).2 is Include ==> session_step(defs, s).1.frames.push(
            new_frame(contents, path),
        ).len() <= MAX_INCLUDE_DEPTH + 1,
{
}

/// How many lines of each open file, outermost first, are still to be handled.
pub open spec fn remaining_lines(s: SessionModel) -> Seq<int> {
    s.frames.map_values(|f: FrameModel| f.lines.len() - f.next)
}

/// No open file is read past its end.
pub open spec fn frames_in_bounds(s: SessionModel) -> bool {
    forall|k: int| 0 <= k < s.frames.len() ==> 0 <= #[trigger] s.frames[k].next
        <= s.frames[k].lines.len()
}

/// `a` comes before `b` in lexicographic order: a proper prefix comes before
/// the longer sequence, else the first place where they differ decides.
pub open spec fn lex_before(a: Seq<int>, b: Seq<int>) -> bool {
    ||| (a.len() < b.len() && a == b.take(a.len() as int))
    ||| exists|i: int|
        0 <= i < a.len() && i < b.len() && a.take(i) == b.take(i) && #[trigger] a[i] < b[i]
}

/// A session always comes to an end. Each step either answers `Done` or
/// `Unreadable`, after which the session stays as it is and gives the same
/// answer again, or brings the lines left in each open file (a sequence of
/// naturals, at most `MAX_INCLUDE_DEPTH + 1` long when requests are answered
/// as `include_nesting_bounded` says) down in lexicographic order; an
/// `Include` step does so together with the file that answers it.
pub proof fn session_steps_come_to_an_end(
    defs: MacroMap,
    s: SessionModel,
    contents: Seq<char>,
    path: Seq<char>,
)
    requires
        s.frames.len() > 0,
        frames_in_bounds(s),
    ensures
        ({
            let (d2, s2, r) = session_step(defs, s);
            &&& frames_in_bounds(s2)
            &&& forall|k: int| 0 <= k < remaining_lines(s2).len() ==> 0 <= #[trigger] remaining_lines(
                s2,
            )[k]
            &&& (r is Continue || r is TooDeep) ==> s2.frames.len() > 0 && lex_before(
                remaining_lines(s2),
                remaining_lines(s),
            )
            &&& r is Include ==> frames_in_bounds(
                SessionModel { frames: s2.frames.push(new_frame(contents, path)), ..s2 },
            ) && lex_before(
                remaining_lines(
                    SessionModel { frames: s2.frames.push(new_frame(contents, path)), ..s2 },
                ),
                remaining_lines(s),
            )
            &&& (r is Done || r is Unreadable) ==> session_step(d2, s2) == (d2, s2, r)
        }),
{
    let n = s.frames.len() as int;
    let (d2, s2, r) = session_step(defs, s);
    let m = remaining_lines(s);
    let m2 = remaining_lines(s2);
    assert forall|k: int| 0 <= k < m2.len() implies 0 <= #[trigger] m2[k] by {
        assert(0 <= s2.frames[k].next <= s2.frames[k].lines.len()) by {
            if !s.failed {
                let top = s.frames[n - 1];
                if top.next >= top.lines.len() && n > 1 {
                    assert(s2.frames[k] == s.frames[k] || k == n - 2);
                }
            }
        }
    }
    if !s.failed {
        let top = s.frames[n - 1];
        if top.next < top.lines.len() {
            if !(r is Unreadable) {
                assert(m2.take(n - 1) =~= m.take(n - 1));
                assert(m2[n - 1] < m[n - 1]);
                if r is Include {
                    let s3 = SessionModel { frames: s2.frames.push(new_frame(contents, path)), ..s2 };
                    let m3 = remaining_lines(s3);
                    assert(m3.take(n - 1) =~= m.take(n - 1));
                    assert(m3[n - 1] < m[n - 1]);
                    assert(frames_in_bounds(s3)) by {
                        assert forall|k: int| 0 <= k < s3.frames.len() implies 0
                            <= #[trigger] s3.frames[k].next <= s3.frames[k].lines.len() by {
                            if k < n {
                                assert(s3.frames[k] == s2.frames[k]);
                            }
                        }
                    }
                }
            }
        } else if n > 1 {
            assert(m2 =~= m.take(n - 1));
        }
    }
}

/// The state of a run after the first `k` lines of `ls`.
pub open spec fn run_prefix(s: RunState, ls: Seq<Seq<char>>, k: int) -> RunState
    decreases k,
{
    if k <= 0 || k > ls.len() {
        s
    } else {
        line_step(run_prefix(s, ls, k - 1), ls[k - 1])
    }
}

/// The macros, the session and the last answer after `n` steps.
pub open spec fn session_steps(defs: MacroMap, s: SessionModel, n: nat) -> (
    MacroMap,
    SessionModel,
    StepModel,
)
    decreases n,
{
    if n == 0 {
        (defs, s, StepModel::Continue)
    } else {
        let p = session_steps(defs, s, (n - 1) as nat);
        session_step(p.0, p.1)
    }
}

proof fn lemma_run_prefix(s: RunState, ls: Seq<Seq<char>>, k: int)
    requires
        0 <= k <= ls.len(),
    ensures
        run_lines(run_prefix(s, ls, k), ls, k) == run_lines(s, ls, 0),
    decreases k,
{
    if k > 0 {
        lemma_run_prefix(s, ls, k - 1);
    }
}

/// After `j` steps of a session over one file without include requests, the
/// session holds the state of a run over the first `j` lines.
proof fn lemma_session_prefix(defs: MacroMap, source: Seq<char>, path: Seq<char>, j: nat)
    requires
        j <= lines(source).len(),
        forall|k: int|
            0 <= k < lines(source).len() && !(#[trigger] run_prefix(
                start_state(defs),
                lines(source),
                k,
            )).failed ==> include_request(
                run_prefix(start_state(defs), lines(source), k).stack,
                lines(source)[k],
            ) is None,
    ensures
        ({
            let p = session_steps(
                defs,
                SessionModel { frames: seq![new_frame(source, path)], failed: false },
                j,
            );
            let rp = run_prefix(start_state(defs), lines(source), j as int);
            &&& p.0 == rp.defs
            &&& !rp.failed ==> p.1 == (SessionModel {
                frames: seq![
                    FrameModel {
                        lines: lines(source),
                        next: j as int,
                        stack: rp.stack,
                        out: rp.out,
                        path,
                    },
                ],
                failed: false,
            })
            &&& rp.failed ==> p.1.failed && p.2 == StepModel::Unreadable
        }),
    decreases j,
{
    let ls = lines(source);
    let st = start_state(defs);
    let s0 = SessionModel { frames: seq![new_frame(source, path)], failed: false };
    if j == 0 {
        assert(s0.frames =~= seq![
            FrameModel { lines: ls, next: 0, stack: st.stack, out: st.out, path },
        ]);
    } else {
        let i = (j - 1) as nat;
        lemma_session_prefix(defs, source, path, i);
        let p = session_steps(defs, s0, i);
        let rp = run_prefix(st, ls, i as int);
        let rq = run_prefix(st, ls, j as int);
        assert(rq == line_step(rp, ls[i as int]));
        if !rp.failed {
            let top = p.1.frames[0];
            assert(top.next < top.lines.len());
            assert(include_request(rp.stack, ls[i as int]) is None);
            assert((RunState { defs: p.0, stack: top.stack, out: top.out, failed: false }) == rp);
            let q = session_step(p.0, p.1);
            if !rq.failed {
                assert(q.1.frames =~= seq![
                    FrameModel { lines: ls, next: j as int, stack: rq.stack, out: rq.out, path },
                ]);
            }
        }
    }
}

/// With file context, a text whose `include lines all stand in branches not
/// taken is preprocessed as `preprocess` does it: after one step per line,
/// the next step answers with the text `preprocess` gives (or, where that
/// run cannot read a line, says so), and the macros end the same.
pub proof fn session_matches_preprocess(defs: MacroMap, source: Seq<char>, path: Seq<char>)
    requires
        forall|k: int|
            0 <= k < lines(source).len() && !(#[trigger] run_prefix(
                start_state(defs),
                lines(source),
                k,
            )).failed ==> include_request(
                run_prefix(start_state(defs), lines(source), k).stack,
                lines(source)[k],
            ) is None,
    ensures
        ({
            let goal = preprocess_run(defs, source);
            let r = session_steps(
                defs,
                SessionModel { frames: seq![new_frame(source, path)], failed: false },
                (lines(source).len() + 1) as nat,
            );
            &&& r.0 == goal.defs
            &&& goal.failed ==> r.2 == StepModel::Unreadable
            &&& !goal.failed ==> r.2 == (StepModel::Done { text: goal.out })
        }),
{
    let ls = lines(source);
    let n = ls.len();
    let st = start_state(defs);
    lemma_session_prefix(defs, source, path, n);
    lemma_run_prefix(st, ls, n as int);
    let rp = run_prefix(st, ls, n as int);
    assert(run_lines(rp, ls, n as int) == rp);
}

} // verus!
