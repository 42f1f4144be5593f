//! SystemVerilog preprocessor (IEEE 1800-2017 §22): `define, `undef,
//! `ifdef/`ifndef/`else/`endif, `include and macro expansion, line by line.
//! Every input line gives exactly one output line, so line numbers are kept.

use vstd::prelude::*;

use crate::expand::{expand_line, strip_attrs};
use crate::macros::{
    chars_view, strings_view, str_to_chars, chars_to_string, MacroDef, MacroEntry, MacroMap,
    MacroSpec, MacroTable,
};
use crate::text::{
    char_is_alphanumeric, copy_range, ends_with, ends_with_chars, find_char_from, find_from,
    first_word, first_word_chars, lines, split, split_lines, split_on, starts_with,
    starts_with_at, trim, trim_bounds, trim_chars, unicode_alphanumeric,
};

verus! {

// keyword character sequences
/// The keyword "`define".
pub open spec fn kw_define() -> Seq<char> {
    seq!['`', 'd', 'e', 'f', 'i', 'n', 'e']
}

pub fn exec_kw_define() -> (r: Vec<char>)
    ensures
        r@ == kw_define(),
{
    vec!['`', 'd', 'e', 'f', 'i', 'n', 'e']
}

/// The keyword "`undef".
pub open spec fn kw_undef() -> Seq<char> {
    seq!['`', 'u', 'n', 'd', 'e', 'f']
}

pub fn exec_kw_undef() -> (r: Vec<char>)
    ensures
        r@ == kw_undef(),
{
    vec!['`', 'u', 'n', 'd', 'e', 'f']
}

/// The keyword "`ifdef".
pub open spec fn kw_ifdef() -> Seq<char> {
    seq!['`', 'i', 'f', 'd', 'e', 'f']
}

pub fn exec_kw_ifdef() -> (r: Vec<char>)
    ensures
        r@ == kw_ifdef(),
{
    vec!['`', 'i', 'f', 'd', 'e', 'f']
}

/// The keyword "`ifndef".
pub open spec fn kw_ifndef() -> Seq<char> {
    seq!['`', 'i', 'f', 'n', 'd', 'e', 'f']
}

pub fn exec_kw_ifndef() -> (r: Vec<char>)
    ensures
        r@ == kw_ifndef(),
{
    vec!['`', 'i', 'f', 'n', 'd', 'e', 'f']
}

/// The keyword "`else".
pub open spec fn kw_else() -> Seq<char> {
    seq!['`', 'e', 'l', 's', 'e']
}

pub fn exec_kw_else() -> (r: Vec<char>)
    ensures
        r@ == kw_else(),
{
    vec!['`', 'e', 'l', 's', 'e']
}

/// The keyword "`endif".
pub open spec fn kw_endif() -> Seq<char> {
    seq!['`', 'e', 'n', 'd', 'i', 'f']
}

pub fn exec_kw_endif() -> (r: Vec<char>)
    ensures
        r@ == kw_endif(),
{
    vec!['`', 'e', 'n', 'd', 'i', 'f']
}

/// The keyword "`include".
pub open spec fn kw_include() -> Seq<char> {
    seq!['`', 'i', 'n', 'c', 'l', 'u', 'd', 'e']
}

pub fn exec_kw_include() -> (r: Vec<char>)
    ensures
        r@ == kw_include(),
{
    vec!['`', 'i', 'n', 'c', 'l', 'u', 'd', 'e']
}

/// The keyword "(*".
pub open spec fn kw_attr_open() -> Seq<char> {
    seq!['(', '*']
}

pub fn exec_kw_attr_open() -> (r: Vec<char>)
    ensures
        r@ == kw_attr_open(),
{
    vec!['(', '*']
}

/// The keyword "*)".
pub open spec fn kw_attr_close() -> Seq<char> {
    seq!['*', ')']
}

pub fn exec_kw_attr_close() -> (r: Vec<char>)
    ensures
        r@ == kw_attr_close(),
{
    vec!['*', ')']
}

/// Compiler directives that are dropped without effect.
pub open spec fn ignored_directives() -> Seq<Seq<char>> {
    seq![
        seq!['`', 't', 'i', 'm', 'e', 's', 'c', 'a', 'l', 'e'],
        seq!['`', 'd', 'e', 'f', 'a', 'u', 'l', 't', '_', 'n', 'e', 't', 't', 'y', 'p', 'e'],
        seq!['`', 'c', 'e', 'l', 'l', 'd', 'e', 'f', 'i', 'n', 'e'],
        seq!['`', 'e', 'n', 'd', 'c', 'e', 'l', 'l', 'd', 'e', 'f', 'i', 'n', 'e'],
        seq!['`', 'r', 'e', 's', 'e', 't', 'a', 'l', 'l'],
        seq!['`', 'n', 'o', 'u', 'n', 'c', 'o', 'n', 'n', 'e', 'c', 't', 'e', 'd', '_', 'd', 'r', 'i', 'v', 'e'],
        seq!['`', 'u', 'n', 'c', 'o', 'n', 'n', 'e', 'c', 't', 'e', 'd', '_', 'd', 'r', 'i', 'v', 'e'],
        seq!['`', 'p', 'r', 'a', 'g', 'm', 'a'],
        seq!['`', 'b', 'e', 'g', 'i', 'n', '_', 'k', 'e', 'y', 'w', 'o', 'r', 'd', 's'],
        seq!['`', 'e', 'n', 'd', '_', 'k', 'e', 'y', 'w', 'o', 'r', 'd', 's'],
        seq!['`', 'l', 'i', 'n', 'e'],
    ]
}

pub fn exec_ignored_directives() -> (r: Vec<Vec<char>>)
    ensures
        chars_view(r@) == ignored_directives(),
{
    let r = vec![
        vec!['`', 't', 'i', 'm', 'e', 's', 'c', 'a', 'l', 'e'],
        vec!['`', 'd', 'e', 'f', 'a', 'u', 'l', 't', '_', 'n', 'e', 't', 't', 'y', 'p', 'e'],
        vec!['`', 'c', 'e', 'l', 'l', 'd', 'e', 'f', 'i', 'n', 'e'],
        vec!['`', 'e', 'n', 'd', 'c', 'e', 'l', 'l', 'd', 'e', 'f', 'i', 'n', 'e'],
        vec!['`', 'r', 'e', 's', 'e', 't', 'a', 'l', 'l'],
        vec!['`', 'n', 'o', 'u', 'n', 'c', 'o', 'n', 'n', 'e', 'c', 't', 'e', 'd', '_', 'd', 'r', 'i', 'v', 'e'],
        vec!['`', 'u', 'n', 'c', 'o', 'n', 'n', 'e', 'c', 't', 'e', 'd', '_', 'd', 'r', 'i', 'v', 'e'],
        vec!['`', 'p', 'r', 'a', 'g', 'm', 'a'],
        vec!['`', 'b', 'e', 'g', 'i', 'n', '_', 'k', 'e', 'y', 'w', 'o', 'r', 'd', 's'],
        vec!['`', 'e', 'n', 'd', '_', 'k', 'e', 'y', 'w', 'o', 'r', 'd', 's'],
        vec!['`', 'l', 'i', 'n', 'e'],
    ];
    assert(chars_view(r@) =~= ignored_directives());
    r
}

/// `s.starts_with(p)`
pub fn starts_with_chars(s: &[char], p: &[char]) -> (r: bool)
    ensures
        r == starts_with(s@, p@),
{
    let r = starts_with_at(s, 0, p);
    assert(s@.skip(0) =~= s@);
    r
}

/// Name for what `Path::new(a) == Path::new(b)` gives: the two texts name the
/// same path, compared component by component.
pub uninterp spec fn same_path(a: Seq<char>, b: Seq<char>) -> bool;

/// Compares two paths with `Path`'s `==`. Trusted: the result is the named
/// `same_path(a, b)`, and a path equals itself.
#[verifier::external_body]
fn paths_equal(a: &str, b: &str) -> (r: bool)
    ensures
        r == same_path(a@, b@),
        a@ == b@ ==> r,
{
    std::path::Path::new(a) == std::path::Path::new(b)
}

/// What a preprocessor holds: the defined macros and the include directories.
pub struct PreprocessorModel {
    pub defines: MacroMap,
    pub include_dirs: Seq<Seq<char>>,
}

/// The include search list after `add_include_dir(dir)`: unchanged when an
/// equal path is listed already, else `dir` appended.
pub open spec fn with_include_dir(dirs: Seq<Seq<char>>, dir: Seq<char>) -> Seq<Seq<char>> {
    if exists|i: int| 0 <= i < dirs.len() && (#[trigger] dirs[i] == dir || same_path(dirs[i], dir)) {
        dirs
    } else {
        dirs.push(dir)
    }
}

/// The macros that `with_defines(pairs)` starts with: each name bound to a
/// macro without parameters; a later pair replaces an earlier one.
pub open spec fn defines_from_pairs(pairs: Seq<(Seq<char>, Seq<char>)>) -> MacroMap
    decreases pairs.len(),
{
    if pairs.len() == 0 {
        Map::empty()
    } else {
        let (k, v) = pairs.last();
        defines_from_pairs(pairs.drop_last()).insert(
            k,
            MacroSpec { name: k, params: None, body: v },
        )
    }
}

pub open spec fn pairs_view(pairs: Seq<(String, String)>) -> Seq<(Seq<char>, Seq<char>)> {
    pairs.map_values(|p: (String, String)| (p.0@, p.1@))
}

/// End of the macro name in a `define line: letters and digits (as `letters`
/// marks them, one flag per character) and `_`.
pub open spec fn name_end_with(s: Seq<char>, letters: Seq<bool>, i: int) -> int
    decreases s.len() - i,
{
    if 0 <= i < s.len() && i < letters.len() && (letters[i] || s[i] == '_') {
        name_end_with(s, letters, i + 1)
    } else {
        i
    }
}

/// For each character of `s`, whether `char::is_alphanumeric` holds of it.
pub open spec fn letter_flags(s: Seq<char>) -> Seq<bool> {
    Seq::new(s.len(), |i: int| unicode_alphanumeric(s[i]))
}

/// What follows the keyword of a `define line, trimmed.
pub open spec fn define_rest(line: Seq<char>) -> Seq<char> {
    trim(line.skip(7))
}

/// The trimmed, non-empty parameter names among `parts[k..]`.
pub open spec fn params_from(parts: Seq<Seq<char>>, k: int) -> Seq<Seq<char>>
    decreases parts.len() - k,
{
    if k < 0 || k >= parts.len() {
        seq![]
    } else {
        let t = trim(parts[k]);
        if t.len() > 0 {
            seq![t] + params_from(parts, k + 1)
        } else {
            params_from(parts, k + 1)
        }
    }
}

/// The name, parameters and body of `` `define NAME body `` or
/// `` `define NAME(p1, p2) body ``; `line` starts with the keyword, and
/// `letters` marks the letters and digits of `define_rest(line)`.
pub open spec fn define_parts_with(line: Seq<char>, letters: Seq<bool>) -> MacroSpec {
    let rest = define_rest(line);
    let ne = name_end_with(rest, letters, 0);
    let after = rest.skip(ne);
    let close = find_from(after, ')', 0);
    if after.len() > 0 && after[0] == '(' && close < after.len() {
        MacroSpec {
            name: rest.take(ne),
            params: Some(params_from(split(after.subrange(1, close), ','), 0)),
            body: trim(after.skip(close + 1)),
        }
    } else {
        MacroSpec { name: rest.take(ne), params: None, body: trim(after) }
    }
}

/// The macro that a `define line gives.
pub open spec fn define_parts(line: Seq<char>) -> MacroSpec {
    define_parts_with(line, letter_flags(define_rest(line)))
}

/// The macros after a `define line read with the flags `letters`; a line
/// without a name defines nothing.
pub open spec fn apply_define_with(defs: MacroMap, line: Seq<char>, letters: Seq<bool>) -> MacroMap {
    let d = define_parts_with(line, letters);
    if d.name.len() > 0 {
        defs.insert(d.name, d)
    } else {
        defs
    }
}

/// The macros after a `define line.
pub open spec fn apply_define(defs: MacroMap, line: Seq<char>) -> MacroMap {
    apply_define_with(defs, line, letter_flags(define_rest(line)))
}

/// Every enclosing `ifdef branch is taken.
pub open spec fn all_true(stack: Seq<bool>) -> bool {
    forall|i: int| 0 <= i < stack.len() ==> #[trigger] stack[i]
}

pub open spec fn toggle_last(stack: Seq<bool>) -> Seq<bool> {
    if stack.len() > 0 {
        stack.update(stack.len() - 1, !stack.last())
    } else {
        stack
    }
}

pub open spec fn pop_last(stack: Seq<bool>) -> Seq<bool> {
    if stack.len() > 0 {
        stack.drop_last()
    } else {
        stack
    }
}

/// One of the compiler directives that are dropped.
pub open spec fn is_ignored_directive(t: Seq<char>) -> bool {
    exists|i: int| 0 <= i < ignored_directives().len() && starts_with(t, #[trigger] ignored_directives()[i])
}

/// The state of a preprocessing run over one text: the macros, the open
/// `ifdef branches (taken or not), the output so far, and whether a line
/// could not be read (after which nothing changes).
pub struct RunState {
    pub defs: MacroMap,
    pub stack: Seq<bool>,
    pub out: Seq<char>,
    pub failed: bool,
}

/// The effect of one line. Directive lines, lines of branches not taken,
/// attribute-only lines and `include lines give an empty output line;
/// other lines give their macro expansion without attributes.
pub open spec fn line_step(s: RunState, line: Seq<char>) -> RunState {
    let t = trim(line);
    let nl = s.out + seq!['\n'];
    if s.failed {
        s
    } else if starts_with(t, kw_attr_open()) && ends_with(t, kw_attr_close()) {
        RunState { out: nl, ..s }
    } else if starts_with(t, kw_define()) {
        RunState {
            defs: if all_true(s.stack) {
                apply_define(s.defs, t)
            } else {
                s.defs
            },
            out: nl,
            ..s
        }
    } else if starts_with(t, kw_undef()) {
        RunState {
            defs: if all_true(s.stack) {
                s.defs.remove(trim(t.skip(6)))
            } else {
                s.defs
            },
            out: nl,
            ..s
        }
    } else if starts_with(t, kw_ifdef()) {
        RunState {
            stack: s.stack.push(s.defs.contains_key(first_word(trim(t.skip(6))))),
            out: nl,
            ..s
        }
    } else if starts_with(t, kw_ifndef()) {
        RunState {
            stack: s.stack.push(!s.defs.contains_key(first_word(trim(t.skip(7))))),
            out: nl,
            ..s
        }
    } else if starts_with(t, kw_else()) {
        RunState { stack: toggle_last(s.stack), out: nl, ..s }
    } else if starts_with(t, kw_endif()) {
        RunState { stack: pop_last(s.stack), out: nl, ..s }
    } else if !all_true(s.stack) {
        RunState { out: nl, ..s }
    } else if starts_with(t, kw_include()) {
        RunState { out: nl, ..s }
    } else if is_ignored_directive(t) {
        RunState { out: nl, ..s }
    } else {
        match expand_line(s.defs, line) {
            None => RunState { failed: true, ..s },
            Some(e) => RunState { out: s.out + strip_attrs(e) + seq!['\n'], ..s },
        }
    }
}

/// The effect of the lines `ls[k..]`, one after the other.
pub open spec fn run_lines(s: RunState, ls: Seq<Seq<char>>, k: int) -> RunState
    decreases ls.len() - k,
{
    if k < 0 || k >= ls.len() {
        s
    } else {
        run_lines(line_step(s, ls[k]), ls, k + 1)
    }
}

pub open spec fn start_state(defs: MacroMap) -> RunState {
    RunState { defs, stack: seq![], out: seq![], failed: false }
}

/// Preprocessing `source` with the macros `defs`, `include lines skipped.
pub open spec fn preprocess_run(defs: MacroMap, source: Seq<char>) -> RunState {
    run_lines(start_state(defs), lines(source), 0)
}

/// The executable counterpart of `RunState` (the macros live in the preprocessor).
pub(crate) struct LineRun {
    pub(crate) stack: Vec<bool>,
    pub(crate) out: Vec<char>,
    pub(crate) failed: bool,
}

impl LineRun {
    pub(crate) open spec fn state(&self, defs: MacroMap) -> RunState {
        RunState { defs, stack: self.stack@, out: self.out@, failed: self.failed }
    }

    pub(crate) fn new() -> (r: LineRun)
        ensures
            r.stack@ == Seq::<bool>::empty(),
            r.out@ == Seq::<char>::empty(),
            !r.failed,
    {
        LineRun { stack: Vec::new(), out: Vec::new(), failed: false }
    }

    pub(crate) fn push_newline(&mut self)
        ensures
            final(self).out@ == old(self).out@ + seq!['\n'],
            final(self).stack@ == old(self).stack@,
            final(self).failed == old(self).failed,
    {
        self.out.push('\n');
        assert(self.out@ =~= old(self).out@ + seq!['\n']);
    }

    /// Every open branch is taken.
    pub(crate) fn active(&self) -> (r: bool)
        ensures
            r == all_true(self.stack@),
    {
        let mut k: usize = 0;
        while k < self.stack.len()
            invariant
                0 <= k <= self.stack@.len(),
                forall|m: int| 0 <= m < k ==> #[trigger] self.stack@[m],
            decreases self.stack@.len() - k,
        {
            if !self.stack[k] {
                return false;
            }
            k = k + 1;
        }
        true
    }
}

/// A preprocessor: macro definitions and the include search directories.
pub struct Preprocessor {
    pub(crate) defines: MacroTable,
    pub(crate) include_dirs: Vec<String>,
}

impl View for Preprocessor {
    type V = PreprocessorModel;

    closed spec fn view(&self) -> PreprocessorModel {
        PreprocessorModel {
            defines: self.defines.view(),
            include_dirs: strings_view(self.include_dirs@),
        }
    }
}

impl Preprocessor {
    /// The macro table is consistent.
    pub closed spec fn wf(&self) -> bool {
        self.defines.wf()
    }

    pub(crate) proof fn lemma_view(&self)
        ensures
            self@.include_dirs == strings_view(self.include_dirs@),
            self@.defines == self.defines.view(),
            self.wf() == self.defines.wf(),
    {
    }

    pub fn new() -> (pp: Self)
        ensures
            pp.wf(),
            pp@.defines == Map::<Seq<char>, MacroSpec>::empty(),
            pp@.include_dirs == Seq::<Seq<char>>::empty(),
    {
        let pp = Preprocessor { defines: MacroTable::new(), include_dirs: Vec::new() };
        assert(strings_view(pp.include_dirs@) =~= Seq::<Seq<char>>::empty());
        pp
    }

    /// Set include search directories.
    pub fn set_include_dirs(&mut self, dirs: Vec<String>)
        requires
            old(self).wf(),
        ensures
            final(self).wf(),
            final(self)@.defines == old(self)@.defines,
            final(self)@.include_dirs == strings_view(dirs@),
    {
        self.include_dirs = dirs;
    }

    /// Add an include search directory, unless the same path is listed already.
    pub fn add_include_dir(&mut self, dir: String)
        requires
            old(self).wf(),
        ensures
            final(self).wf(),
            final(self)@.defines == old(self)@.defines,
            final(self)@.include_dirs == with_include_dir(old(self)@.include_dirs, dir@),
    {
        let ghost dirs = strings_view(self.include_dirs@);
        let mut k: usize = 0;
        while k < self.include_dirs.len()
            invariant
                0 <= k <= self.include_dirs@.len(),
                dirs == strings_view(self.include_dirs@),
                self.wf(),
                self@.defines == old(self)@.defines,
                forall|m: int| 0 <= m < k ==> !(#[trigger] dirs[m] == dir@ || same_path(dirs[m], dir@)),
            decreases self.include_dirs@.len() - k,
        {
            if paths_equal(self.include_dirs[k].as_str(), dir.as_str()) {
                assert(same_path(dirs[k as int], dir@));
                return;
            }
            k = k + 1;
        }
        self.include_dirs.push(dir);
        assert(strings_view(self.include_dirs@) =~= dirs.push(dir@));
    }

    /// A preprocessor with each `(name, body)` defined as a macro without
    /// parameters.
    pub fn with_defines(defines: Vec<(String, String)>) -> (pp: Self)
        ensures
            pp.wf(),
            pp@.defines == defines_from_pairs(pairs_view(defines@)),
            pp@.include_dirs == Seq::<Seq<char>>::empty(),
    {
        let mut pp = Self::new();
        let mut k: usize = 0;
        while k < defines.len()
            invariant
                0 <= k <= defines@.len(),
                pp.wf(),
                pp@.include_dirs == Seq::<Seq<char>>::empty(),
                pp@.defines == defines_from_pairs(pairs_view(defines@.take(k as int))),
            decreases defines@.len() - k,
        {
            let (name, body) = &defines[k];
            let def = MacroDef { name: name.clone(), params: None, body: body.clone() };
            let e = MacroEntry::from_def(name.as_str(), &def);
            pp.defines.insert(e);
            assert(pairs_view(defines@.take(k + 1)).drop_last() =~= pairs_view(
                defines@.take(k as int),
            ));
            k = k + 1;
        }
        assert(defines@.take(defines@.len() as int) =~= defines@);
        pp
    }

    /// Defines (or redefines) the macro `name`.
    pub fn define(&mut self, name: String, value: MacroDef)
        requires
            old(self).wf(),
        ensures
            final(self).wf(),
            final(self)@.defines == old(self)@.defines.insert(name@, value@),
            final(self)@.include_dirs == old(self)@.include_dirs,
    {
        let e = MacroEntry::from_def(name.as_str(), &value);
        self.defines.insert(e);
    }

    /// Whether the macro `name` is defined.
    pub fn is_defined(&self, name: &str) -> (r: bool)
        requires
            self.wf(),
        ensures
            r == self@.defines.contains_key(name@),
    {
        let key = str_to_chars(name);
        self.defines.contains(key.as_slice())
    }

    /// Applies a `define line (`line` starts with the keyword).
    pub(crate) fn parse_define(&mut self, line: &[char])
        requires
            old(self).wf(),
            line@.len() >= 7,
        ensures
            final(self).wf(),
            final(self)@.defines == apply_define(old(self)@.defines, line@),
            final(self)@.include_dirs == old(self)@.include_dirs,
    {
        let (a, b) = trim_bounds(line, 7, line.len());
        assert(line@.subrange(a as int, b as int) == define_rest(line@)) by {
            assert(line@.subrange(7, line@.len() as int) =~= line@.skip(7));
        }
        let mut letters: Vec<bool> = Vec::new();
        let mut k: usize = a;
        while k < b
            invariant
                a <= k <= b <= line@.len(),
                letters@.len() == k - a,
                forall|m: int| 0 <= m < letters@.len() ==> #[trigger] letters@[m]
                    == unicode_alphanumeric(line@[a + m]),
            decreases b - k,
        {
            letters.push(char_is_alphanumeric(line[k]));
            k = k + 1;
        }
        assert(letters@ =~= letter_flags(define_rest(line@)));
        self.define_line_with(line, letters.as_slice());
    }

    /// Applies a `define line (`line` starts with the keyword), where
    /// `letters` says, for each character of `define_rest(line)`, whether
    /// `char::is_alphanumeric` holds of it.
    pub fn define_with_letters(&mut self, line: &str, letters: &[bool])
        requires
            old(self).wf(),
            line@.len() >= 7,
            letters@.len() == define_rest(line@).len(),
        ensures
            final(self).wf(),
            final(self)@.defines == apply_define_with(old(self)@.defines, line@, letters@),
            final(self)@.include_dirs == old(self)@.include_dirs,
    {
        let chars = str_to_chars(line);
        self.define_line_with(chars.as_slice(), letters);
    }

    fn define_line_with(&mut self, line: &[char], letters: &[bool])
        requires
            old(self).wf(),
            line@.len() >= 7,
            letters@.len() == define_rest(line@).len(),
        ensures
            final(self).wf(),
            final(self)@.defines == apply_define_with(old(self)@.defines, line@, letters@),
            final(self)@.include_dirs == old(self)@.include_dirs,
    {
        let (a, b) = trim_bounds(line, 7, line.len());
        let rest = copy_range(line, a, b);
        assert(rest@ == define_rest(line@)) by {
            assert(line@.subrange(7, line@.len() as int) =~= line@.skip(7));
        }
        let mut ne: usize = 0;
        while ne < rest.len() && (letters[ne] || rest[ne] == '_')
            invariant
                0 <= ne <= rest@.len(),
                letters@.len() == rest@.len(),
                name_end_with(rest@, letters@, ne as int) == name_end_with(rest@, letters@, 0),
            decreases rest@.len() - ne,
        {
            ne = ne + 1;
        }
        let name = copy_range(rest.as_slice(), 0, ne);
        let after = copy_range(rest.as_slice(), ne, rest.len());
        assert(name@ =~= rest@.take(ne as int));
        assert(after@ =~= rest@.skip(ne as int));
        let close = find_char_from(after.as_slice(), ')', 0);
        proof {
            if after@.len() > 0 && after@[0] == '(' {
                crate::text::lemma_find_from_bounds(after@, ')', 1);
                assert(find_from(after@, ')', 0) == find_from(after@, ')', 1));
            }
        }
        let params: Option<Vec<Vec<char>>>;
        let body: Vec<char>;
        if after.len() > 0 && after[0] == '(' && close < after.len() {
            let inner = copy_range(after.as_slice(), 1, close);
            let parts = split_on(inner.as_slice(), ',');
            let mut ps: Vec<Vec<char>> = Vec::new();
            let mut k: usize = 0;
            while k < parts.len()
                invariant
                    0 <= k <= parts@.len(),
                    chars_view(parts@) =~= split(inner@, ','),
                    chars_view(ps@) + params_from(chars_view(parts@), k as int) == params_from(
                        chars_view(parts@),
                        0,
                    ),
                decreases parts@.len() - k,
            {
                let t = trim_chars(parts[k].as_slice());
                if t.len() > 0 {
                    let ghost before = chars_view(ps@);
                    ps.push(t);
                    assert(chars_view(ps@) =~= before + seq![t@]);
                }
                k = k + 1;
            }
            assert(chars_view(ps@) =~= params_from(chars_view(parts@), 0));
            let (c, d) = trim_bounds(after.as_slice(), close + 1, after.len());
            body = copy_range(after.as_slice(), c, d);
            assert(after@.subrange(close + 1, after@.len() as int) =~= after@.skip(close + 1));
            params = Some(ps);
        } else {
            body = trim_chars(after.as_slice());
            params = None;
        }
        if name.len() > 0 {
            let key = copy_range(name.as_slice(), 0, name.len());
            assert(name@.subrange(0, name@.len() as int) =~= name@);
            let e = MacroEntry { key, name, params, body };
            self.defines.insert(e);
        }
    }

    /// The effect of one line on a run.
    pub(crate) fn process_line(&mut self, run: &mut LineRun, line: &[char])
        requires
            old(self).wf(),
            !old(run).failed,
        ensures
            final(self).wf(),
            final(self)@.include_dirs == old(self)@.include_dirs,
            final(run).state(final(self)@.defines) == line_step(
                old(run).state(old(self)@.defines),
                line@,
            ),
    {
        let ghost s0 = run.state(self@.defines);
        let t = trim_chars(line);
        let ts = t.as_slice();
        if starts_with_chars(ts, exec_kw_attr_open().as_slice()) && ends_with_chars(
            ts,
            exec_kw_attr_close().as_slice(),
        ) {
            run.push_newline();
            return;
        }
        if starts_with_chars(ts, exec_kw_define().as_slice()) {
            if run.active() {
                self.parse_define(ts);
            }
            run.push_newline();
            return;
        }
        if starts_with_chars(ts, exec_kw_undef().as_slice()) {
            if run.active() {
                let (a, b) = trim_bounds(ts, 6, ts.len());
                let name = copy_range(ts, a, b);
                assert(ts@.subrange(6, ts@.len() as int) =~= ts@.skip(6));
                self.defines.remove(name.as_slice());
            }
            run.push_newline();
            return;
        }
        if starts_with_chars(ts, exec_kw_ifdef().as_slice()) {
            let (a, b) = trim_bounds(ts, 6, ts.len());
            let rest = copy_range(ts, a, b);
            assert(ts@.subrange(6, ts@.len() as int) =~= ts@.skip(6));
            let name = first_word_chars(rest.as_slice());
            let d = self.defines.contains(name.as_slice());
            run.stack.push(d);
            run.push_newline();
            return;
        }
        if starts_with_chars(ts, exec_kw_ifndef().as_slice()) {
            let (a, b) = trim_bounds(ts, 7, ts.len());
            let rest = copy_range(ts, a, b);
            assert(ts@.subrange(7, ts@.len() as int) =~= ts@.skip(7));
            let name = first_word_chars(rest.as_slice());
            let d = self.defines.contains(name.as_slice());
            run.stack.push(!d);
            run.push_newline();
            return;
        }
        if starts_with_chars(ts, exec_kw_else().as_slice()) {
            let n = run.stack.len();
            if n > 0 {
                let v = run.stack[n - 1];
                run.stack.set(n - 1, !v);
            }
            run.push_newline();
            return;
        }
        if starts_with_chars(ts, exec_kw_endif().as_slice()) {
            run.stack.pop();
            run.push_newline();
            return;
        }
        if !run.active() {
            run.push_newline();
            return;
        }
        if starts_with_chars(ts, exec_kw_include().as_slice()) {
            run.push_newline();
            return;
        }
        if is_ignored(ts) {
            run.push_newline();
            return;
        }
        match self.expand_macros(line) {
            None => {
                run.failed = true;
            },
            Some(e) => {
                let s = Self::strip_attributes(e.as_slice());
                let ghost before = run.out@;
                crate::text::append_chars(&mut run.out, s.as_slice());
                run.push_newline();
                assert(run.out@ =~= before + s@ + seq!['\n']);
            },
        }
    }

    /// Runs all lines of `source`, stopping at a line that cannot be read.
    pub(crate) fn run_source(&mut self, source: &str) -> (r: (Vec<char>, bool))
        requires
            old(self).wf(),
        ensures
            final(self).wf(),
            final(self)@.include_dirs == old(self)@.include_dirs,
            r.0@ == preprocess_run(old(self)@.defines, source@).out,
            r.1 == preprocess_run(old(self)@.defines, source@).failed,
            final(self)@.defines == preprocess_run(old(self)@.defines, source@).defs,
    {
        let ghost goal = preprocess_run(self@.defines, source@);
        let chars = str_to_chars(source);
        let ls = split_lines(chars.as_slice());
        assert(chars_view(ls@) =~= lines(source@));
        let mut run = LineRun::new();
        let mut k: usize = 0;
        while k < ls.len() && !run.failed
            invariant
                0 <= k <= ls@.len(),
                self.wf(),
                self@.include_dirs == old(self)@.include_dirs,
                chars_view(ls@) == lines(source@),
                run_lines(run.state(self@.defines), chars_view(ls@), k as int) == goal,
            decreases ls@.len() - k,
        {
            self.process_line(&mut run, ls[k].as_slice());
            k = k + 1;
        }
        proof {
            lemma_run_failed(run.state(self@.defines), chars_view(ls@), k as int);
        }
        (run.out, run.failed)
    }

    /// Simple preprocessing pass (no file context — `include lines are skipped).
    pub fn preprocess(&mut self, source: &str) -> (r: String)
        requires
            old(self).wf(),
            !preprocess_run(old(self)@.defines, source@).failed,
        ensures
            final(self).wf(),
            r@ == preprocess_run(old(self)@.defines, source@).out,
            final(self)@.defines == preprocess_run(old(self)@.defines, source@).defs,
            final(self)@.include_dirs == old(self)@.include_dirs,
    {
        let (out, _) = self.run_source(source);
        chars_to_string(out.as_slice())
    }

    /// Preprocessing as `preprocess` does it, or `None` when a line that is
    /// expanded holds a character that expansion cannot step over (the macros
    /// are then those in force when that line was met).
    pub fn try_preprocess(&mut self, source: &str) -> (r: Option<String>)
        requires
            old(self).wf(),
        ensures
            final(self).wf(),
            final(self)@.defines == preprocess_run(old(self)@.defines, source@).defs,
            final(self)@.include_dirs == old(self)@.include_dirs,
            match r {
                Some(text) => !preprocess_run(old(self)@.defines, source@).failed && text@
                    == preprocess_run(old(self)@.defines, source@).out,
                None => preprocess_run(old(self)@.defines, source@).failed,
            },
    {
        let (out, failed) = self.run_source(source);
        if failed {
            None
        } else {
            Some(chars_to_string(out.as_slice()))
        }
    }
}

impl Default for Preprocessor {
    fn default() -> (pp: Self)
        ensures
            pp.wf(),
            pp@.defines == Map::<Seq<char>, MacroSpec>::empty(),
            pp@.include_dirs == Seq::<Seq<char>>::empty(),
    {
        Self::new()
    }
}

/// A run that has failed stays as it is.
pub proof fn lemma_run_failed(s: RunState, ls: Seq<Seq<char>>, k: int)
    ensures
        s.failed ==> run_lines(s, ls, k) == s,
    decreases ls.len() - k,
{
    if s.failed && 0 <= k < ls.len() {
        lemma_run_failed(line_step(s, ls[k]), ls, k + 1);
    }
}

/// One of the dropped compiler directives starts `t`.
fn is_ignored(t: &[char]) -> (r: bool)
    ensures
        r == is_ignored_directive(t@),
{
    let ds = exec_ignored_directives();
    let mut k: usize = 0;
    while k < ds.len()
        invariant
            0 <= k <= ds@.len(),
            chars_view(ds@) == ignored_directives(),
            forall|m: int| 0 <= m < k ==> !starts_with(t@, #[trigger] ignored_directives()[m]),
        decreases ds@.len() - k,
    {
        if starts_with_chars(t, ds[k].as_slice()) {
            assert(starts_with(t@, ignored_directives()[k as int]));
            return true;
        }
        k = k + 1;
    }
    false
}

} // verus!
