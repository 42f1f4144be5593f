//! What the directives `define, `ifdef and `ifndef do, stated over the words
//! written on their lines.

use vstd::prelude::*;

use crate::macros::{MacroMap, MacroSpec};
use crate::preprocessor::{
    apply_define_with, define_parts_with, define_rest, kw_define, kw_ifdef, kw_ifndef, line_step,
    name_end_with, RunState,
};
use crate::text::{
    first_word, find_ws_from, is_ws, skip_ws_back, skip_ws_from, trim, trim_end, trim_start,
};

verus! {

/// A word: not empty, and no character of it is white space.
pub open spec fn is_word(w: Seq<char>) -> bool {
    w.len() > 0 && forall|i: int| 0 <= i < w.len() ==> !is_ws(#[trigger] w[i])
}

/// Text that neither begins nor ends with white space.
pub open spec fn trimmed_text(b: Seq<char>) -> bool {
    b.len() == 0 || (!is_ws(b[0]) && !is_ws(b[b.len() - 1]))
}

proof fn lemma_find_ws_word(w: Seq<char>, i: int)
    requires
        is_word(w),
        0 <= i <= w.len(),
    ensures
        find_ws_from(w, i) == w.len(),
    decreases w.len() - i,
{
    if i < w.len() {
        lemma_find_ws_word(w, i + 1);
    }
}

/// Text that neither begins nor ends with white space is its own trim.
proof fn lemma_trim_exact(x: Seq<char>)
    requires
        trimmed_text(x),
    ensures
        trim(x) == x,
{
    if x.len() > 0 {
        assert(skip_ws_from(x, 0) == 0);
        assert(trim_start(x) =~= x);
        assert(skip_ws_back(x, x.len() as int) == x.len());
        assert(trim_end(x) =~= x);
    } else {
        assert(trim_start(x) =~= x);
        assert(trim_end(x) =~= x);
    }
}

/// One leading space is trimmed away.
proof fn lemma_trim_space_before(x: Seq<char>)
    requires
        trimmed_text(x),
    ensures
        trim(seq![' '] + x) == x,
{
    let y = seq![' '] + x;
    if x.len() > 0 {
        assert(y[1] == x[0]);
        assert(skip_ws_from(y, 1) == 1);
        assert(skip_ws_from(y, 0) == 1);
    } else {
        assert(skip_ws_from(y, 1) == 1);
    }
    assert(trim_start(y) =~= x);
    lemma_trim_exact(x);
}

/// A word is its own first word.
proof fn lemma_first_word(w: Seq<char>)
    requires
        is_word(w),
    ensures
        first_word(w) == w,
        trim(w) == w,
{
    assert(skip_ws_from(w, 0) == 0);
    lemma_find_ws_word(w, 0);
    assert(w.subrange(0, w.len() as int) =~= w);
    lemma_trim_exact(w);
}

proof fn lemma_name_end(rest: Seq<char>, name: Seq<char>, letters: Seq<bool>, i: int)
    requires
        0 <= i <= name.len() <= rest.len(),
        rest.take(name.len() as int) == name,
        letters.len() == rest.len(),
        forall|k: int| 0 <= k < name.len() ==> #[trigger] letters[k] || name[k] == '_',
        name.len() < rest.len() ==> !letters[name.len() as int] && rest[name.len() as int] != '_',
    ensures
        name_end_with(rest, letters, i) == name.len(),
    decreases name.len() - i,
{
    if i < name.len() {
        assert(rest[i] == rest.take(name.len() as int)[i]);
        lemma_name_end(rest, name, letters, i + 1);
    }
}

/// A `define line whose name is followed by white space defines a macro
/// without parameters: the line `` `define NAME body `` (the name made of
/// letters, digits and `_`, as `letters` marks them) gives the macro `NAME`,
/// with no parameters, standing for `body`, even where `body` begins with
/// `(`. Parameters are read only where `(` follows the name at once.
pub proof fn define_without_parameters(
    defs: MacroMap,
    name: Seq<char>,
    body: Seq<char>,
    letters: Seq<bool>,
)
    requires
        is_word(name),
        forall|k: int| 0 <= k < name.len() ==> #[trigger] letters[k] || name[k] == '_',
        trimmed_text(body),
        letters.len() == define_rest(kw_define() + seq![' '] + name + seq![' '] + body).len(),
        body.len() > 0 ==> !letters[name.len() as int],
    ensures
        define_parts_with(kw_define() + seq![' '] + name + seq![' '] + body, letters) == (MacroSpec {
            name,
            params: None,
            body,
        }),
        apply_define_with(defs, kw_define() + seq![' '] + name + seq![' '] + body, letters)
            == defs.insert(name, MacroSpec { name, params: None, body }),
{
    let line = kw_define() + seq![' '] + name + seq![' '] + body;
    let rest = define_rest(line);
    if body.len() > 0 {
        let x = name + seq![' '] + body;
        assert(line.skip(7) =~= seq![' '] + x);
        assert(x[0] == name[0]);
        assert(x[x.len() - 1] == body[body.len() - 1]);
        lemma_trim_space_before(x);
        assert(rest == x);
        assert(rest.take(name.len() as int) =~= name);
        assert(rest[name.len() as int] == ' ');
        lemma_name_end(rest, name, letters, 0);
        let after = rest.skip(name.len() as int);
        assert(after =~= seq![' '] + body);
        lemma_trim_space_before(body);
        assert(rest.take(name.len() as int) == name);
    } else {
        let y = seq![' '] + name + seq![' '];
        assert(line.skip(7) =~= y);
        assert(skip_ws_from(y, 1) == 1);
        assert(skip_ws_from(y, 0) == 1);
        let z = name + seq![' '];
        assert(trim_start(y) =~= z);
        assert(z[z.len() - 1] == ' ');
        assert(z[name.len() - 1] == name[name.len() - 1]);
        assert(skip_ws_back(z, name.len() as int) == name.len());
        assert(skip_ws_back(z, z.len() as int) == name.len());
        assert(trim_end(z) =~= name);
        assert(rest == name);
        assert(rest.take(name.len() as int) =~= name);
        lemma_name_end(rest, name, letters, 0);
        let after = rest.skip(name.len() as int);
        assert(after =~= Seq::<char>::empty());
        lemma_trim_exact(after);
        assert(body =~= Seq::<char>::empty());
    }
}

/// `` `ifndef NAME `` opens a branch that is taken exactly when `NAME` is not
/// defined, whatever the enclosing branches; the macros stay as they are and
/// the line gives an empty output line.
pub proof fn ifndef_tests_the_name(s: RunState, name: Seq<char>)
    requires
        !s.failed,
        is_word(name),
    ensures
        line_step(s, kw_ifndef() + seq![' '] + name) == (RunState {
            stack: s.stack.push(!s.defs.contains_key(name)),
            out: s.out + seq!['\n'],
            ..s
        }),
{
    let line = kw_ifndef() + seq![' '] + name;
    assert(line[0] == '`');
    assert(line[line.len() - 1] == name[name.len() - 1]);
    lemma_trim_exact(line);
    assert(line[1] == 'i' && line[3] == 'n');
    assert(line.take(2)[0] == '`');
    assert(line.take(7) =~= kw_ifndef());
    assert(!(line.take(7) =~= kw_define()) ) by {
        assert(line.take(7)[1] != kw_define()[1]);
    }
    assert(line.take(6)[1] == 'i');
    assert(line.take(6)[3] == 'n');
    assert(line.skip(7) =~= seq![' '] + name);
    lemma_first_word(name);
    lemma_trim_space_before(name);
}

/// `` `ifdef NAME `` opens a branch that is taken exactly when `NAME` is
/// defined, whatever the enclosing branches; the macros stay as they are and
/// the line gives an empty output line.
pub proof fn ifdef_tests_the_name(s: RunState, name: Seq<char>)
    requires
        !s.failed,
        is_word(name),
    ensures
        line_step(s, kw_ifdef() + seq![' '] + name) == (RunState {
            stack: s.stack.push(s.defs.contains_key(name)),
            out: s.out + seq!['\n'],
            ..s
        }),
{
    let line = kw_ifdef() + seq![' '] + name;
    assert(line[0] == '`');
    assert(line[line.len() - 1] == name[name.len() - 1]);
    lemma_trim_exact(line);
    assert(line[1] == 'i' && line[3] == 'd');
    assert(line.take(2)[0] == '`');
    assert(line.take(6) =~= kw_ifdef());
    assert(!(line.take(7) =~= kw_define())) by {
        assert(line.take(7)[1] != kw_define()[1]);
    }
    assert(line.skip(6) =~= seq![' '] + name);
    lemma_first_word(name);
    lemma_trim_space_before(name);
}

} // verus!
