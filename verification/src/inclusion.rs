//! Preprocessing of a file whose `include directives read other files.
//!
//! The library decides, line by line, what each line does; reading a file is
//! left to the caller. A session holds one frame per open file (the file at
//! the bottom, the innermost included file on top). `Preprocessor::step`
//! handles one line, or finishes a file, and says when the contents of an
//! included file are needed; the caller answers with
//! `Preprocessor::enter_include` or `IncludeSession::skip_include`.

use vstd::prelude::*;

use crate::macros::{chars_to_string, chars_view, str_to_chars, MacroMap};
use crate::preprocessor::{
    all_true, exec_kw_include, kw_include, line_step, preprocess_run, starts_with_chars, LineRun,
    Preprocessor, RunState,
};
use crate::text::{
    append_chars, copy_range, find_char_from, find_from, lemma_find_from_bounds, lines,
    split_lines, starts_with, trim, trim_bounds, trim_chars,
};

verus! {

/// Included files nest at most this deep.
pub const MAX_INCLUDE_DEPTH: usize = 32;

/// The file named by an `include directive: `` `include "file" `` or
/// `` `include <file> ``.
pub open spec fn include_path(line: Seq<char>) -> Option<Seq<char>> {
    if !starts_with(line, kw_include()) {
        None
    } else {
        let rest = trim(line.skip(8));
        if rest.len() > 0 && rest[0] == '"' && find_from(rest, '"', 1) < rest.len() {
            Some(rest.subrange(1, find_from(rest, '"', 1)))
        } else if rest.len() > 0 && rest[0] == '<' && find_from(rest, '>', 1) < rest.len() {
            Some(rest.subrange(1, find_from(rest, '>', 1)))
        } else {
            None
        }
    }
}

/// The file that an active `include line asks for.
pub open spec fn include_request(stack: Seq<bool>, line: Seq<char>) -> Option<Seq<char>> {
    let t = trim(line);
    if all_true(stack) && starts_with(t, kw_include()) {
        include_path(t)
    } else {
        None
    }
}

/// One open file: its lines, the next line to handle, the open `ifdef
/// branches, the output so far and the path it was read from.
pub struct FrameModel {
    pub lines: Seq<Seq<char>>,
    pub next: int,
    pub stack: Seq<bool>,
    pub out: Seq<char>,
    pub path: Seq<char>,
}

pub struct SessionModel {
    pub frames: Seq<FrameModel>,
    pub failed: bool,
}

/// What a step asks of the caller.
pub enum StepModel {
    Continue,
    Include { file: Seq<char>, from: Seq<char> },
    TooDeep { file: Seq<char> },
    Unreadable,
    Done { text: Seq<char> },
}

/// One step of a session: the next line of the innermost open file, or the
/// end of that file (its output is appended to the file that included it).
pub open spec fn session_step(defs: MacroMap, s: SessionModel) -> (MacroMap, SessionModel, StepModel) {
    let n = s.frames.len() as int;
    if s.failed || n == 0 {
        (defs, s, StepModel::Unreadable)
    } else {
        let top = s.frames[n - 1];
        if top.next < top.lines.len() {
            let line = top.lines[top.next];
            match include_request(top.stack, line) {
                Some(f) => if n - 1 < MAX_INCLUDE_DEPTH {
                    (
                        defs,
                        SessionModel {
                            frames: s.frames.update(n - 1, FrameModel { next: top.next + 1, ..top }),
                            ..s
                        },
                        StepModel::Include { file: f, from: top.path },
                    )
                } else {
                    (
                        defs,
                        SessionModel {
                            frames: s.frames.update(
                                n - 1,
                                FrameModel { next: top.next + 1, out: top.out + seq!['\n'], ..top },
                            ),
                            ..s
                        },
                        StepModel::TooDeep { file: f },
                    )
                },
                None => {
                    let r = line_step(
                        RunState { defs, stack: top.stack, out: top.out, failed: false },
                        line,
                    );
                    if r.failed {
                        (defs, SessionModel { failed: true, ..s }, StepModel::Unreadable)
                    } else {
                        (
                            r.defs,
                            SessionModel {
                                frames: s.frames.update(
                                    n - 1,
                                    FrameModel {
                                        next: top.next + 1,
                                        stack: r.stack,
                                        out: r.out,
                                        ..top
                                    },
                                ),
                                ..s
                            },
                            StepModel::Continue,
                        )
                    }
                },
            }
        } else if n == 1 {
            (defs, s, StepModel::Done { text: top.out })
        } else {
            let parent = s.frames[n - 2];
            (
                defs,
                SessionModel {
                    frames: s.frames.drop_last().update(
                        n - 2,
                        FrameModel { out: parent.out + top.out, ..parent },
                    ),
                    ..s
                },
                StepModel::Continue,
            )
        }
    }
}

/// A fresh frame for the text `source` read from `path`.
pub open spec fn new_frame(source: Seq<char>, path: Seq<char>) -> FrameModel {
    FrameModel { lines: lines(source), next: 0, stack: seq![], out: seq![], path }
}

/// What `step` asks of the caller.
pub enum PreprocessStep {
    /// A line was handled; call `step` again.
    Continue,
    /// An active `include of `file`, written in the file at `from`: give its
    /// contents with `enter_include`, or `skip_include` when it cannot be read.
    Include { file: String, from: String },
    /// An `include nested deeper than `MAX_INCLUDE_DEPTH`: the line stays empty.
    TooDeep { file: String },
    /// A line held a character that macro expansion cannot step over.
    Unreadable,
    /// The preprocessed text of the whole file.
    Done(String),
}

impl View for PreprocessStep {
    type V = StepModel;

    open spec fn view(&self) -> StepModel {
        match self {
            PreprocessStep::Continue => StepModel::Continue,
            PreprocessStep::Include { file, from } => StepModel::Include {
                file: file@,
                from: from@,
            },
            PreprocessStep::TooDeep { file } => StepModel::TooDeep { file: file@ },
            PreprocessStep::Unreadable => StepModel::Unreadable,
            PreprocessStep::Done(text) => StepModel::Done { text: text@ },
        }
    }
}

pub(crate) struct Frame {
    pub(crate) lines: Vec<Vec<char>>,
    pub(crate) next: usize,
    pub(crate) run: LineRun,
    pub(crate) path: Vec<char>,
}

impl Frame {
    pub(crate) open spec fn model(&self) -> FrameModel {
        FrameModel {
            lines: chars_view(self.lines@),
            next: self.next as int,
            stack: self.run.stack@,
            out: self.run.out@,
            path: self.path@,
        }
    }

    pub(crate) open spec fn wf(&self) -> bool {
        &&& self.next <= self.lines@.len()
        &&& !self.run.failed
    }

    fn new(source: &str, path: &str) -> (f: Frame)
        ensures
            f.wf(),
            f.model() == new_frame(source@, path@),
    {
        let chars = str_to_chars(source);
        let ls = split_lines(chars.as_slice());
        assert(chars_view(ls@) =~= lines(source@));
        let f = Frame { lines: ls, next: 0, run: LineRun::new(), path: str_to_chars(path) };
        f
    }
}

/// The open files of a preprocessing run with `include.
pub struct IncludeSession {
    pub(crate) frames: Vec<Frame>,
    pub(crate) failed: bool,
}

impl View for IncludeSession {
    type V = SessionModel;

    closed spec fn view(&self) -> SessionModel {
        SessionModel { frames: self.frames@.map_values(|f: Frame| f.model()), failed: self.failed }
    }
}

impl IncludeSession {
    /// At least one file is open and every frame is consistent.
    pub closed spec fn wf(&self) -> bool {
        &&& self.frames@.len() > 0
        &&& forall|k: int| 0 <= k < self.frames@.len() ==> (#[trigger] self.frames@[k]).wf()
    }

    /// Starts preprocessing `source`, read from `path`.
    pub fn start(source: &str, path: String) -> (s: IncludeSession)
        ensures
            s.wf(),
            s@ == (SessionModel { frames: seq![new_frame(source@, path@)], failed: false }),
    {
        let f = Frame::new(source, path.as_str());
        let mut frames: Vec<Frame> = Vec::new();
        frames.push(f);
        let s = IncludeSession { frames, failed: false };
        assert(s@.frames =~= seq![new_frame(source@, path@)]);
        s
    }

    /// Answers an `Include` step whose file cannot be found or read: the
    /// `include line stays empty.
    pub fn skip_include(&mut self)
        requires
            old(self).wf(),
        ensures
            final(self).wf(),
            final(self)@ == (SessionModel {
                frames: old(self)@.frames.update(
                    old(self)@.frames.len() - 1,
                    FrameModel {
                        out: old(self)@.frames.last().out + seq!['\n'],
                        ..old(self)@.frames.last()
                    },
                ),
                ..old(self)@
            }),
    {
        let ghost old_frames = self@.frames;
        let mut f = self.frames.pop().unwrap();
        f.run.push_newline();
        self.frames.push(f);
        proof {
            assert forall|k: int| 0 <= k < self.frames@.len() implies (#[trigger] self.frames@[k]).wf() by {
                if k < self.frames@.len() - 1 {
                    assert(self.frames@[k] == old(self).frames@[k]);
                }
            }
        }
        assert(self@.frames =~= old_frames.update(
            old_frames.len() - 1,
            FrameModel { out: old_frames.last().out + seq!['\n'], ..old_frames.last() },
        ));
    }
}

/// Name for what `Path::new(p).is_absolute()` gives: the path `p` does not
/// depend on the current directory (by the path rules of the target the
/// library is built for).
pub uninterp spec fn path_absolute(p: Seq<char>) -> bool;

/// Name for the text of `Path::new(dir).join(file)`: `file` appended to `dir`
/// with a separator, or `file` alone where it is absolute (by the path rules
/// of the target the library is built for).
pub uninterp spec fn joined_path(dir: Seq<char>, file: Seq<char>) -> Seq<char>;

/// Calls `Path::is_absolute` on `p`. Trusted: the result is the named
/// `path_absolute(p)`, a function of the text alone.
#[verifier::external_body]
fn path_is_absolute(p: &str) -> (r: bool)
    ensures
        r == path_absolute(p@),
{
    std::path::Path::new(p).is_absolute()
}

/// Calls `Path::join`, giving `dir` joined with `file` as text. Trusted: the
/// result is the named `joined_path(dir, file)`, a function of the two texts.
/// Joining two texts gives valid Unicode, so the lossy conversion loses nothing.
#[verifier::external_body]
fn join_path(dir: &str, file: &str) -> (r: String)
    ensures
        r@ == joined_path(dir@, file@),
{
    std::path::Path::new(dir).join(file).to_string_lossy().into_owned()
}

/// The directories searched for an included file, in order: the directory of
/// the including file first, when there is one, then the include directories.
pub open spec fn search_order(source_dir: Option<Seq<char>>, dirs: Seq<Seq<char>>) -> Seq<Seq<char>> {
    match source_dir {
        Some(d) => seq![d] + dirs,
        None => dirs,
    }
}

pub open spec fn opt_view(o: Option<String>) -> Option<Seq<char>> {
    match o {
        Some(d) => Some(d@),
        None => None,
    }
}

/// How preprocessing of a file goes on: a file given without a path is
/// preprocessed at once (its `include lines skipped), giving the text, or
/// `None` where a line cannot be read; a file with a path is read by a session.
pub enum FileRun {
    Finished(Option<String>),
    Session(IncludeSession),
}

impl Preprocessor {
    /// Preprocess source text, resolving `include directives relative to
    /// `source_path`. If `source_path` is `None`, `include directives that
    /// require file I/O are skipped: the text is preprocessed as
    /// `try_preprocess` does it. Otherwise a session over the file begins.
    pub fn start_file(&mut self, source: &str, source_path: Option<String>) -> (r: FileRun)
        requires
            old(self).wf(),
        ensures
            final(self).wf(),
            final(self)@.include_dirs == old(self)@.include_dirs,
            match source_path {
                None => {
                    &&& final(self)@.defines == preprocess_run(old(self)@.defines, source@).defs
                    &&& r matches FileRun::Finished(o) && match o {
                        Some(text) => !preprocess_run(old(self)@.defines, source@).failed
                            && text@ == preprocess_run(old(self)@.defines, source@).out,
                        None => preprocess_run(old(self)@.defines, source@).failed,
                    }
                },
                Some(p) => {
                    &&& final(self)@ == old(self)@
                    &&& r matches FileRun::Session(session) && session.wf() && session@ == (
                    SessionModel { frames: seq![new_frame(source@, p@)], failed: false })
                },
            },
    {
        match source_path {
            None => FileRun::Finished(self.try_preprocess(source)),
            Some(p) => FileRun::Session(IncludeSession::start(source, p)),
        }
    }

    /// Extract the filename from an `include directive.
    /// Handles both `include "file.v" and `include <file.v> forms.
    pub(crate) fn parse_include_path(line: &[char]) -> (r: Option<Vec<char>>)
        ensures
            match r {
                Some(f) => include_path(line@) == Some(f@),
                None => include_path(line@) is None,
            },
    {
        if !starts_with_chars(line, exec_kw_include().as_slice()) {
            return None;
        }
        let (a, b) = trim_bounds(line, 8, line.len());
        let rest = copy_range(line, a, b);
        assert(line@.subrange(8, line@.len() as int) =~= line@.skip(8));
        if rest.len() > 0 && rest[0] == '"' {
            let e = find_char_from(rest.as_slice(), '"', 1);
            if e < rest.len() {
                return Some(copy_range(rest.as_slice(), 1, e));
            }
            return None;
        }
        if rest.len() > 0 && rest[0] == '<' {
            let e = find_char_from(rest.as_slice(), '>', 1);
            if e < rest.len() {
                return Some(copy_range(rest.as_slice(), 1, e));
            }
            return None;
        }
        None
    }

    /// The directories searched for an included file, in order: the directory
    /// of the including file first (when it has one), then the include
    /// directories.
    pub fn include_search_order(&self, source_dir: Option<String>) -> (r: Vec<String>)
        ensures
            crate::macros::strings_view(r@) == search_order(opt_view(source_dir), self@.include_dirs),
    {
        let mut r: Vec<String> = Vec::new();
        let ghost first: Seq<Seq<char>> = match &source_dir {
            Some(d) => seq![d@],
            None => seq![],
        };
        match source_dir {
            Some(d) => r.push(d),
            None => {},
        }
        assert(crate::macros::strings_view(r@) =~= first);
        let mut k: usize = 0;
        while k < self.include_dirs.len()
            invariant
                0 <= k <= self.include_dirs@.len(),
                r@.len() == first.len() + k,
                crate::macros::strings_view(r@) == first + crate::macros::strings_view(
                    self.include_dirs@.take(k as int),
                ),
            decreases self.include_dirs@.len() - k,
        {
            let ghost before = crate::macros::strings_view(r@);
            let ghost prev = r@;
            r.push(self.include_dirs[k].clone());
            proof {
                assert forall|m: int| 0 <= m < r@.len() implies #[trigger] crate::macros::strings_view(r@)[m]
                    == (first + crate::macros::strings_view(self.include_dirs@.take(k + 1)))[m] by {
                    if m < r@.len() - 1 {
                        assert(r@[m] == prev[m]);
                        assert(before[m] == (first + crate::macros::strings_view(self.include_dirs@.take(k as int)))[m]);
                    }
                }
            }
            k = k + 1;
            assert(crate::macros::strings_view(r@) =~= first + crate::macros::strings_view(
                self.include_dirs@.take(k as int),
            ));
        }
        assert(self.include_dirs@.take(self.include_dirs@.len() as int) =~= self.include_dirs@);
        proof {
            self.lemma_view();
        }
        r
    }

    /// The paths at which an included `file` is looked for, in order: `file`
    /// itself when it is absolute; otherwise `file` joined to each directory
    /// of `include_search_order(source_dir)`.
    pub fn include_candidates(&self, file: &str, source_dir: Option<String>) -> (r: Vec<String>)
        requires
            self.wf(),
        ensures
            path_absolute(file@) ==> r@.len() == 1 && r@[0]@ == file@,
            !path_absolute(file@) ==> {
                let order = search_order(opt_view(source_dir), self@.include_dirs);
                &&& r@.len() == order.len()
                &&& forall|k: int| 0 <= k < r@.len() ==> #[trigger] r@[k]@ == joined_path(
                    order[k],
                    file@,
                )
            },
    {
        let ghost sd = opt_view(source_dir);
        if path_is_absolute(file) {
            let mut r: Vec<String> = Vec::new();
            r.push(file.to_string());
            return r;
        }
        let order = self.include_search_order(source_dir);
        let ghost sov = search_order(sd, self@.include_dirs);
        assert(order@.len() == crate::macros::strings_view(order@).len());
        let mut r: Vec<String> = Vec::new();
        let mut k: usize = 0;
        while k < order.len()
            invariant
                0 <= k <= order@.len(),
                r@.len() == k,
                crate::macros::strings_view(order@) == sov,
                order@.len() == sov.len(),
                forall|m: int| 0 <= m < k ==> #[trigger] r@[m]@ == joined_path(sov[m], file@),
            decreases order@.len() - k,
        {
            assert(order@[k as int]@ == sov[k as int]);
            r.push(join_path(order[k].as_str(), file));
            k = k + 1;
        }
        r
    }

    /// Answers an `Include` step with the contents of the file, read from
    /// `path`: the file is opened on top of the session.
    pub fn enter_include(&self, session: &mut IncludeSession, contents: &str, path: String)
        requires
            old(session).wf(),
        ensures
            final(session).wf(),
            final(session)@ == (SessionModel {
                frames: old(session)@.frames.push(new_frame(contents@, path@)),
                ..old(session)@
            }),
    {
        let f = Frame::new(contents, path.as_str());
        session.frames.push(f);
        proof {
            assert forall|k: int| 0 <= k < session.frames@.len() implies (#[trigger] session.frames@[k]).wf() by {
                if k < session.frames@.len() - 1 {
                    assert(session.frames@[k] == old(session).frames@[k]);
                }
            }
        }
        assert(session@.frames =~= old(session)@.frames.push(new_frame(contents@, path@)));
    }

    /// Handles the next line of the innermost open file, or finishes that file.
    pub fn step(&mut self, session: &mut IncludeSession) -> (r: PreprocessStep)
        requires
            old(self).wf(),
            old(session).wf(),
        ensures
            final(self).wf(),
            final(session).wf(),
            final(self)@.include_dirs == old(self)@.include_dirs,
            (final(self)@.defines, final(session)@, r@) == session_step(
                old(self)@.defines,
                old(session)@,
            ),
    {
        let ghost old_frames = session.frames@;
        let ghost models = session@.frames;
        if session.failed {
            return PreprocessStep::Unreadable;
        }
        let n = session.frames.len();
        let mut top = session.frames.pop().unwrap();
        assert(top == old_frames[n - 1]);
        assert(top.model() == models[n - 1]);
        if top.next < top.lines.len() {
            let line = copy_range(top.lines[top.next].as_slice(), 0, top.lines[top.next].len());
            assert(top.lines@[top.next as int]@.subrange(0, line@.len() as int)
                =~= top.lines@[top.next as int]@);
            assert(line@ == models[n - 1].lines[models[n - 1].next]);
            let t = trim_chars(line.as_slice());
            let request = if top.run.active() && starts_with_chars(
                t.as_slice(),
                exec_kw_include().as_slice(),
            ) {
                Self::parse_include_path(t.as_slice())
            } else {
                None
            };
            match request {
                Some(f) => {
                    top.next = top.next + 1;
                    if n - 1 < MAX_INCLUDE_DEPTH {
                        let from = chars_to_string(top.path.as_slice());
                        session.frames.push(top);
                        proof {
                            lemma_replace_top(old_frames, session.frames@);
                        }
                        assert(session@.frames =~= models.update(
                            n - 1,
                            FrameModel { next: models[n - 1].next + 1, ..models[n - 1] },
                        ));
                        return PreprocessStep::Include { file: chars_to_string(f.as_slice()), from };
                    } else {
                        top.run.push_newline();
                        session.frames.push(top);
                        proof {
                            lemma_replace_top(old_frames, session.frames@);
                        }
                        assert(session@.frames =~= models.update(
                            n - 1,
                            FrameModel {
                                next: models[n - 1].next + 1,
                                out: models[n - 1].out + seq!['\n'],
                                ..models[n - 1]
                            },
                        ));
                        return PreprocessStep::TooDeep { file: chars_to_string(f.as_slice()) };
                    }
                },
                None => {
                    self.process_line(&mut top.run, line.as_slice());
                    if top.run.failed {
                        top.run.failed = false;
                        session.frames.push(top);
                        session.failed = true;
                        proof {
                            lemma_replace_top(old_frames, session.frames@);
                        }
                        assert(session@.frames =~= models);
                        return PreprocessStep::Unreadable;
                    }
                    top.next = top.next + 1;
                    session.frames.push(top);
                    proof {
                        lemma_replace_top(old_frames, session.frames@);
                    }
                    return PreprocessStep::Continue;
                },
            }
        } else if n == 1 {
            let text = chars_to_string(top.run.out.as_slice());
            session.frames.push(top);
            assert(session.frames@ =~= old_frames);
            return PreprocessStep::Done(text);
        } else {
            let mut parent = session.frames.pop().unwrap();
            assert(parent == old_frames[n - 2]);
            let ghost before = parent.run.out@;
            append_chars(&mut parent.run.out, top.run.out.as_slice());
            session.frames.push(parent);
            proof {
                lemma_replace_top(old_frames.drop_last(), session.frames@);
            }
            assert(session@.frames =~= models.drop_last().update(
                n - 2,
                FrameModel { out: models[n - 2].out + models[n - 1].out, ..models[n - 2] },
            ));
            return PreprocessStep::Continue;
        }
    }
}

/// Replacing the innermost frame keeps the others.
proof fn lemma_replace_top(old_frames: Seq<Frame>, new_frames: Seq<Frame>)
    requires
        old_frames.len() == new_frames.len(),
        old_frames.len() > 0,
        forall|k: int| 0 <= k < old_frames.len() - 1 ==> new_frames[k] == old_frames[k],
        forall|k: int| 0 <= k < old_frames.len() ==> (#[trigger] old_frames[k]).wf(),
        new_frames.last().wf(),
    ensures
        forall|k: int| 0 <= k < new_frames.len() ==> (#[trigger] new_frames[k]).wf(),
        new_frames.map_values(|f: Frame| f.model()) == old_frames.map_values(
            |f: Frame| f.model(),
        ).update(old_frames.len() - 1, new_frames.last().model()),
{
    assert forall|k: int| 0 <= k < new_frames.len() implies (#[trigger] new_frames[k]).wf() by {
        if k < new_frames.len() - 1 {
            assert(new_frames[k] == old_frames[k]);
        }
    }
    assert(new_frames.map_values(|f: Frame| f.model()) =~= old_frames.map_values(
        |f: Frame| f.model(),
    ).update(old_frames.len() - 1, new_frames.last().model()));
}

} // verus!
