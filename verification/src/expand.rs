//! Macro expansion within a line and removal of `(* ... *)` attributes.
//!
//! Expansion reads the line byte by byte: a character other than an ASCII one
//! that is met outside a macro call cannot be stepped over, and expansion of
//! such a line has no result (`None`).

use vstd::prelude::*;

use crate::macros::{chars_view, MacroEntry, MacroMap, MacroSpec};
use crate::preprocessor::Preprocessor;
use crate::text::{
    append_chars, contains_char, copy_range, has_char, is_ascii_char, is_ascii_alnum,
    starts_with, starts_with_at, trim, trim_bounds, chars_eq,
};

verus! {

/// Characters that continue a macro name after a backtick.
pub open spec fn is_ident_char(c: char) -> bool {
    is_ascii_alnum(c) || c == '_'
}

pub fn ident_char(c: char) -> (r: bool)
    ensures
        r == is_ident_char(c),
{
    ('0' <= c && c <= '9') || ('a' <= c && c <= 'z') || ('A' <= c && c <= 'Z') || c == '_'
}

/// First index `>= i` that does not continue a macro name.
pub open spec fn ident_end(s: Seq<char>, i: int) -> int
    decreases s.len() - i,
{
    if 0 <= i < s.len() && is_ident_char(s[i]) {
        ident_end(s, i + 1)
    } else {
        i
    }
}

pub proof fn lemma_ident_end_bounds(s: Seq<char>, i: int)
    requires
        0 <= i <= s.len(),
    ensures
        i <= ident_end(s, i) <= s.len(),
    decreases s.len() - i,
{
    if i < s.len() && is_ident_char(s[i]) {
        lemma_ident_end_bounds(s, i + 1);
    }
}

/// Arguments of a macro call, scanned from index `i` with `depth` open
/// parentheses; the current argument starts at `start`, and `args` holds the
/// arguments already complete. Gives the arguments and the index after the
/// closing parenthesis (or the end of the line when it never closes, in which
/// case an unfinished last argument is dropped).
pub open spec fn args_from(s: Seq<char>, i: int, depth: int, start: int, args: Seq<Seq<char>>) -> (
    Seq<Seq<char>>,
    int,
)
    decreases s.len() - i,
{
    if i < 0 || i >= s.len() {
        (args, i)
    } else if s[i] == '(' {
        args_from(s, i + 1, depth + 1, start, args)
    } else if s[i] == ')' {
        if depth == 1 {
            let arg = trim(s.subrange(start, i));
            (
                if arg.len() > 0 || args.len() > 0 {
                    args.push(arg)
                } else {
                    args
                },
                i + 1,
            )
        } else {
            args_from(s, i + 1, depth - 1, start, args)
        }
    } else if s[i] == ',' && depth == 1 {
        args_from(s, i + 1, depth, i + 1, args.push(trim(s.subrange(start, i))))
    } else {
        args_from(s, i + 1, depth, start, args)
    }
}

pub proof fn lemma_args_from_end(
    s: Seq<char>,
    i: int,
    depth: int,
    start: int,
    args: Seq<Seq<char>>,
)
    requires
        0 <= i <= s.len(),
    ensures
        i <= args_from(s, i, depth, start, args).1 <= s.len(),
    decreases s.len() - i,
{
    if i < s.len() {
        if s[i] == '(' {
            lemma_args_from_end(s, i + 1, depth + 1, start, args);
        } else if s[i] == ')' {
            if depth != 1 {
                lemma_args_from_end(s, i + 1, depth - 1, start, args);
            }
        } else if s[i] == ',' && depth == 1 {
            lemma_args_from_end(s, i + 1, depth, i + 1, args.push(trim(s.subrange(start, i))));
        } else {
            lemma_args_from_end(s, i + 1, depth, start, args);
        }
    }
}

/// The arguments of the call whose `(` stands at `open`, and the index after it.
pub open spec fn macro_args(s: Seq<char>, open: int) -> (Seq<Seq<char>>, int) {
    args_from(s, open + 1, 1, open + 1, seq![])
}

/// The `n` characters at `body[i..]` stand as a whole identifier: no
/// identifier character comes right before or right after them.
pub open spec fn whole_word_at(body: Seq<char>, i: int, n: int) -> bool {
    &&& !(0 < i <= body.len() && is_ident_char(body[i - 1]))
    &&& !(0 <= i + n < body.len() && is_ident_char(body[i + n]))
}

/// The first parameter among `params[k..]` that has an argument, is not
/// empty, and is written at `body[i..]` as a whole identifier (so `a` is not
/// a parameter inside `data`).
pub open spec fn param_at(
    body: Seq<char>,
    params: Seq<Seq<char>>,
    args: Seq<Seq<char>>,
    i: int,
    k: int,
) -> Option<int>
    decreases params.len() - k,
{
    if k < 0 || k >= params.len() || k >= args.len() {
        None
    } else if params[k].len() > 0 && starts_with(body.skip(i), params[k]) && whole_word_at(
        body,
        i,
        params[k].len() as int,
    ) {
        Some(k)
    } else {
        param_at(body, params, args, i, k + 1)
    }
}

pub proof fn lemma_param_at(
    body: Seq<char>,
    params: Seq<Seq<char>>,
    args: Seq<Seq<char>>,
    i: int,
    k: int,
)
    ensures
        param_at(body, params, args, i, k) matches Some(m) ==> k <= m < params.len() && m
            < args.len() && params[m].len() > 0 && starts_with(body.skip(i), params[m])
            && whole_word_at(body, i, params[m].len() as int),
    decreases params.len() - k,
{
    if 0 <= k < params.len() && k < args.len() && !(params[k].len() > 0 && starts_with(
        body.skip(i),
        params[k],
    ) && whole_word_at(body, i, params[k].len() as int)) {
        lemma_param_at(body, params, args, i, k + 1);
    }
}

/// The body `body[i..]` with every parameter that has an argument, written as
/// a whole identifier, replaced by that argument, all at once: the text of an
/// argument is not looked at again.
/// Where two parameters are written at the same place, the earlier one counts.
pub open spec fn subst_from(
    body: Seq<char>,
    params: Seq<Seq<char>>,
    args: Seq<Seq<char>>,
    i: int,
) -> Seq<char>
    decreases body.len() - i,
{
    if i < 0 || i >= body.len() {
        seq![]
    } else {
        match param_at(body, params, args, i, 0) {
            Some(k) => {
                proof {
                    lemma_param_at(body, params, args, i, 0);
                }
                args[k] + subst_from(body, params, args, i + params[k].len())
            },
            None => seq![body[i]] + subst_from(body, params, args, i + 1),
        }
    }
}

/// The body of a parameterized macro with its parameters replaced by `args`.
pub open spec fn subst(body: Seq<char>, params: Seq<Seq<char>>, args: Seq<Seq<char>>) -> Seq<
    char,
> {
    subst_from(body, params, args, 0)
}

pub open spec fn prepend(p: Seq<char>, o: Option<Seq<char>>) -> Option<Seq<char>> {
    match o {
        Some(r) => Some(p + r),
        None => None,
    }
}

/// One expansion pass over `s[i..]`: every `` `NAME `` of a defined macro is
/// replaced by its body (a parameterized macro followed by `(` takes the
/// arguments of the call); an undefined name stays as it was written.
pub open spec fn expand_from(defs: MacroMap, s: Seq<char>, i: int) -> Option<Seq<char>>
    decreases s.len() - i,
{
    if i < 0 || i >= s.len() {
        Some(seq![])
    } else if s[i] == '`' {
        let j = ident_end(s, i + 1);
        proof {
            lemma_ident_end_bounds(s, i + 1);
        }
        let name = s.subrange(i + 1, j);
        if defs.contains_key(name) {
            let d = defs[name];
            if d.params is Some && j < s.len() && s[j] == '(' {
                let (args, k) = macro_args(s, j);
                proof {
                    lemma_args_from_end(s, j + 1, 1, j + 1, seq![]);
                }
                prepend(subst(d.body, d.params->0, args), expand_from(defs, s, k))
            } else {
                prepend(d.body, expand_from(defs, s, j))
            }
        } else {
            prepend(seq!['`'] + name, expand_from(defs, s, j))
        }
    } else if is_ascii_char(s[i]) {
        prepend(seq![s[i]], expand_from(defs, s, i + 1))
    } else {
        None
    }
}

/// One expansion pass over a whole line.
pub open spec fn expand_once(defs: MacroMap, s: Seq<char>) -> Option<Seq<char>> {
    expand_from(defs, s, 0)
}

/// Further passes while the text still holds a backtick and a pass changes
/// it, at most `fuel` more passes.
pub open spec fn expand_more(defs: MacroMap, r: Seq<char>, fuel: nat) -> Option<Seq<char>>
    decreases fuel,
{
    if fuel == 0 || !has_char(r, '`') {
        Some(r)
    } else {
        match expand_once(defs, r) {
            None => None,
            Some(n) => if n == r {
                Some(r)
            } else {
                expand_more(defs, n, (fuel - 1) as nat)
            },
        }
    }
}

/// Full expansion of a line: one pass, then up to sixteen more for macros
/// that expand to further macro uses.
pub open spec fn expand_line(defs: MacroMap, s: Seq<char>) -> Option<Seq<char>> {
    match expand_once(defs, s) {
        None => None,
        Some(r) => expand_more(defs, r, 16),
    }
}

/// Index just past the first `*)` that begins at `j` or later, if there is one.
pub open spec fn attr_close_from(s: Seq<char>, j: int) -> Option<int>
    decreases s.len() - j,
{
    if j < 0 || j + 1 >= s.len() {
        None
    } else if s[j] == '*' && s[j + 1] == ')' {
        Some(j + 2)
    } else {
        attr_close_from(s, j + 1)
    }
}

pub proof fn lemma_attr_close_from(s: Seq<char>, j: int)
    ensures
        attr_close_from(s, j) matches Some(e) ==> 0 <= j && j + 2 <= e <= s.len(),
    decreases s.len() - j,
{
    if 0 <= j && j + 1 < s.len() && !(s[j] == '*' && s[j + 1] == ')') {
        lemma_attr_close_from(s, j + 1);
    }
}

/// Where an attribute `(* ... *)` begins at `i`: a `(*` that a later `*)`
/// closes; `(*)`, as in the event control `@(*)`, begins none.
pub open spec fn attr_opens_at(s: Seq<char>, i: int) -> bool {
    &&& 0 <= i && i + 1 < s.len() && s[i] == '(' && s[i + 1] == '*'
    &&& !(i + 2 < s.len() && s[i + 2] == ')')
    &&& attr_close_from(s, i + 2) is Some
}

/// The text `s[i..]` with each attribute `(* ... *)` replaced by one space;
/// any other `(*` stays as written.
pub open spec fn strip_attrs_from(s: Seq<char>, i: int) -> Seq<char>
    decreases s.len() - i,
{
    if i < 0 || i >= s.len() {
        seq![]
    } else if attr_opens_at(s, i) {
        proof {
            lemma_attr_close_from(s, i + 2);
        }
        seq![' '] + strip_attrs_from(s, attr_close_from(s, i + 2)->0)
    } else {
        seq![s[i]] + strip_attrs_from(s, i + 1)
    }
}

/// A line with its attributes removed.
pub open spec fn strip_attrs(s: Seq<char>) -> Seq<char> {
    strip_attrs_from(s, 0)
}

impl Preprocessor {
    /// Parenthesized macro arguments, handling nested parentheses.
    /// `i` points at the opening `(`; afterwards it is past the closing `)`.
    pub(crate) fn extract_macro_args(line: &[char], i: &mut usize) -> (args: Vec<Vec<char>>)
        requires
            *old(i) < line@.len(),
            line@[*old(i) as int] == '(',
        ensures
            (chars_view(args@), *final(i) as int) == macro_args(line@, *old(i) as int),
            *old(i) < *final(i) <= line@.len(),
    {
        proof {
            lemma_args_from_end(line@, *i + 1, 1, *i + 1, seq![]);
        }
        let len = line.len();
        let open = *i;
        let mut k = open + 1;
        let mut args: Vec<Vec<char>> = Vec::new();
        assert(chars_view(args@) =~= Seq::<Seq<char>>::empty());
        let mut depth: usize = 1;
        let mut start = k;
        while k < line.len()
            invariant
                open == *old(i),
                len == line@.len(),
                open < start <= k <= line@.len(),
                open < line@.len(),
                1 <= depth <= k - open,
                args_from(line@, k as int, depth as int, start as int, chars_view(args@))
                    == macro_args(line@, open as int),
            decreases line@.len() - k,
        {
            let c = line[k];
            if c == '(' {
                depth = depth + 1;
            } else if c == ')' {
                if depth == 1 {
                    let (a, b) = trim_bounds(line, start, k);
                    let ghost before = chars_view(args@);
                    if b > a || args.len() > 0 {
                        let arg = copy_range(line, a, b);
                        args.push(arg);
                        assert(chars_view(args@) =~= before.push(trim(line@.subrange(start as int, k as int))));
                    }
                    *i = k + 1;
                    return args;
                }
                depth = depth - 1;
            } else if c == ',' && depth == 1 {
                let (a, b) = trim_bounds(line, start, k);
                let arg = copy_range(line, a, b);
                let ghost before = chars_view(args@);
                args.push(arg);
                assert(chars_view(args@) =~= before.push(trim(line@.subrange(start as int, k as int))));
                start = k + 1;
            }
            k = k + 1;
        }
        *i = k;
        args
    }

    /// The body of a parameterized macro with its parameters replaced by the
    /// arguments of the call, all at once.
    pub(crate) fn substitute(body: &[char], params: &Vec<Vec<char>>, args: &Vec<Vec<char>>) -> (r: Vec<
        char,
    >)
        ensures
            r@ == subst(body@, chars_view(params@), chars_view(args@)),
    {
        let ghost ps = chars_view(params@);
        let ghost aa = chars_view(args@);
        let mut out: Vec<char> = Vec::new();
        let mut i: usize = 0;
        while i < body.len()
            invariant
                0 <= i <= body@.len(),
                ps == chars_view(params@),
                aa == chars_view(args@),
                out@ + subst_from(body@, ps, aa, i as int) == subst(body@, ps, aa),
            decreases body@.len() - i,
        {
            let mut k: usize = 0;
            let mut found = false;
            while !found && k < params.len() && k < args.len()
                invariant
                    0 <= k <= params@.len(),
                    ps == chars_view(params@),
                    aa == chars_view(args@),
                    i < body@.len(),
                    !found ==> param_at(body@, ps, aa, i as int, k as int) == param_at(
                        body@,
                        ps,
                        aa,
                        i as int,
                        0,
                    ),
                    found ==> k < params@.len() && k < args@.len() && param_at(
                        body@,
                        ps,
                        aa,
                        i as int,
                        0,
                    ) == Some(k as int),
                decreases params@.len() - k + if found { 0int } else { 1int },
            {
                if params[k].len() > 0 && starts_with_at(body, i, params[k].as_slice()) && (i == 0
                    || !ident_char(body[i - 1])) && (i + params[k].len() >= body.len()
                    || !ident_char(body[i + params[k].len()])) {
                    found = true;
                } else {
                    k = k + 1;
                }
            }
            let ghost before = out@;
            if found {
                proof {
                    lemma_param_at(body@, ps, aa, i as int, 0);
                }
                append_chars(&mut out, args[k].as_slice());
                assert(before + subst_from(body@, ps, aa, i as int) =~= out@ + subst_from(
                    body@,
                    ps,
                    aa,
                    i + params@[k as int]@.len(),
                ));
                i = i + params[k].len();
            } else {
                out.push(body[i]);
                assert(before + subst_from(body@, ps, aa, i as int) =~= out@ + subst_from(
                    body@,
                    ps,
                    aa,
                    i + 1,
                ));
                i = i + 1;
            }
        }
        assert(out@ + Seq::<char>::empty() =~= out@);
        out
    }

    /// One expansion pass over a line (`None` where the line cannot be read).
    pub(crate) fn expand_macros_once(&self, line: &[char]) -> (r: Option<Vec<char>>)
        requires
            self.defines.wf(),
        ensures
            match r {
                Some(v) => expand_once(self.defines.view(), line@) == Some(v@),
                None => expand_once(self.defines.view(), line@) is None,
            },
    {
        let ghost defs = self.defines.view();
        let mut result: Vec<char> = Vec::new();
        let mut i: usize = 0;
        while i < line.len()
            invariant
                0 <= i <= line@.len(),
                defs == self.defines.view(),
                self.defines.wf(),
                expand_once(defs, line@) == prepend(result@, expand_from(defs, line@, i as int)),
            decreases line@.len() - i,
        {
            if line[i] == '`' {
                i = i + 1;
                let start = i;
                while i < line.len() && ident_char(line[i])
                    invariant
                        start <= i <= line@.len(),
                        ident_end(line@, i as int) == ident_end(line@, start as int),
                    decreases line@.len() - i,
                {
                    i = i + 1;
                }
                let name = copy_range(line, start, i);
                let ghost before = result@;
                match self.defines.get(name.as_slice()) {
                    Some(def) => {
                        if def.params.is_some() && i < line.len() && line[i] == '(' {
                            let args = Self::extract_macro_args(line, &mut i);
                            let params = def.params.as_ref().unwrap();
                            let body = Self::substitute(def.body.as_slice(), params, &args);
                            append_chars(&mut result, body.as_slice());
                            assert(result@ =~= before + body@);
                        } else {
                            append_chars(&mut result, def.body.as_slice());
                        }
                    },
                    None => {
                        result.push('`');
                        append_chars(&mut result, name.as_slice());
                        assert(result@ =~= before + (seq!['`'] + name@));
                    },
                }
            } else if line[i] <= '\x7f' {
                let ghost before = result@;
                result.push(line[i]);
                assert(result@ =~= before + seq![line@[i as int]]);
                i = i + 1;
            } else {
                return None;
            }
        }
        assert(result@ + seq![] =~= result@);
        Some(result)
    }

    /// Full macro expansion of a line (`None` where a pass cannot read it).
    pub(crate) fn expand_macros(&self, line: &[char]) -> (r: Option<Vec<char>>)
        requires
            self.defines.wf(),
        ensures
            match r {
                Some(v) => expand_line(self.defines.view(), line@) == Some(v@),
                None => expand_line(self.defines.view(), line@) is None,
            },
    {
        let ghost defs = self.defines.view();
        let mut result = match self.expand_macros_once(line) {
            Some(v) => v,
            None => return None,
        };
        let mut n: usize = 0;
        while n < 16
            invariant
                0 <= n <= 16,
                defs == self.defines.view(),
                self.defines.wf(),
                expand_line(defs, line@) == expand_more(defs, result@, (16 - n) as nat),
            decreases 16 - n,
        {
            if !contains_char(result.as_slice(), '`') {
                return Some(result);
            }
            let next = match self.expand_macros_once(result.as_slice()) {
                Some(v) => v,
                None => return None,
            };
            if chars_eq(next.as_slice(), result.as_slice()) {
                return Some(result);
            }
            result = next;
            n = n + 1;
        }
        Some(result)
    }

    /// Removes `(* ... *)` attributes, each replaced by one space; a `(*`
    /// that no later `*)` closes, and `(*)`, are kept.
    pub(crate) fn strip_attributes(line: &[char]) -> (r: Vec<char>)
        ensures
            r@ == strip_attrs(line@),
    {
        let n = line.len();
        let mut result: Vec<char> = Vec::new();
        let mut i: usize = 0;
        while i < n
            invariant
                0 <= i <= line@.len(),
                n == line@.len(),
                result@ + strip_attrs_from(line@, i as int) == strip_attrs(line@),
            decreases line@.len() - i,
        {
            let ghost before = result@;
            if i + 1 < n && line[i] == '(' && line[i + 1] == '*' && !(i + 2 < n && line[i + 2] == ')') {
                let mut j = i + 2;
                let mut found = false;
                while !found && j < n - 1
                    invariant
                        i + 2 <= j <= line@.len(),
                        n == line@.len(),
                        !found ==> attr_close_from(line@, j as int) == attr_close_from(
                            line@,
                            i + 2,
                        ),
                        found ==> attr_close_from(line@, i + 2) == Some(j as int),
                    decreases line@.len() - j + if found { 0int } else { 1int },
                {
                    if line[j] == '*' && line[j + 1] == ')' {
                        j = j + 2;
                        found = true;
                    } else {
                        j = j + 1;
                    }
                }
                if found {
                    proof {
                        lemma_attr_close_from(line@, i + 2);
                    }
                    result.push(' ');
                    assert(before + strip_attrs_from(line@, i as int) =~= result@ + strip_attrs_from(
                        line@,
                        j as int,
                    ));
                    i = j;
                    continue;
                }
            }
            result.push(line[i]);
            assert(before + strip_attrs_from(line@, i as int) =~= result@ + strip_attrs_from(
                line@,
                i + 1,
            ));
            i = i + 1;
        }
        assert(result@ + Seq::<char>::empty() =~= result@);
        result
    }
}

} // verus!
