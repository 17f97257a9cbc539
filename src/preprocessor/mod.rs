//! The preprocessor: comment removal, object-like macros and conditional blocks.

pub mod comments;
pub mod error;
pub mod lines;
pub mod macros;

pub use error::PreprocessorError;
pub use macros::{MacroDefinition, MacroTable};

use vstd::prelude::*;

use crate::common::position::{locate, position_at, Position};
use crate::common::text::{chars_of, push_char, push_text, slice_chars, string_of, text_is};
use comments::{remove_comments, strip_comments};
use lines::{
    first_non_space, join_from, join_words, lemma_word_stop, lines_of, split_lines,
    split_words, trim_start, views, words_from,
};
use macros::{expansion, has_name, with_definition, without_definition, Entries};

verus! {

/// A preprocessing fault, as the model states it.
pub enum Fault {
    UnterminatedComment(Position),
    InvalidDirective(Position, Seq<char>, Seq<char>),
    UnmatchedEndif(Position),
    UnterminatedConditional(Position),
    InvalidMacroName(Seq<char>),
    MacroRecursion(Seq<char>),
    UnmatchedElse(Position),
}

/// The error `e` reports the fault `f`.
pub open spec fn shows(e: PreprocessorError, f: Fault) -> bool {
    match f {
        Fault::UnterminatedComment(p) => e == PreprocessorError::UnterminatedComment { position: p },
        Fault::InvalidDirective(p, d, why) => match e {
            PreprocessorError::InvalidDirective { position, directive, reason } => position == p
                && directive@ == d && reason@ == why,
            _ => false,
        },
        Fault::UnmatchedEndif(p) => e == PreprocessorError::UnmatchedEndif { position: p },
        Fault::UnterminatedConditional(p) => e == PreprocessorError::UnterminatedConditional {
            position: p,
        },
        Fault::InvalidMacroName(w) => match e {
            PreprocessorError::InvalidMacroName { name } => name@ == w,
            _ => false,
        },
        Fault::MacroRecursion(w) => match e {
            PreprocessorError::MacroRecursion { name } => name@ == w,
            _ => false,
        },
        Fault::UnmatchedElse(p) => e == PreprocessorError::UnmatchedElse { position: p },
    }
}

/// The macro table and the activation flags of the open conditional blocks.
pub struct PassState {
    pub defs: Entries,
    pub stack: Seq<bool>,
}

/// Column 1 of line `ln`.
pub open spec fn line_position(ln: int) -> Position {
    Position { line: ln as usize, column: 1 }
}

/// Every open conditional block is active.
pub open spec fn all_active(stack: Seq<bool>) -> bool {
    forall|k: int| 0 <= k < stack.len() ==> #[trigger] stack[k]
}

/// The effect of a directive line with words `parts` and text `directive` on
/// line `ln`; `None` when it is no directive this preprocessor knows.
pub open spec fn directive_step(
    st: PassState,
    parts: Seq<Seq<char>>,
    directive: Seq<char>,
    ln: int,
    cond: bool,
) -> Option<Result<PassState, Fault>> {
    let d = parts[0];
    let pos = line_position(ln);
    if d == "#define"@ {
        Some(
            if parts.len() < 2 {
                Err(Fault::InvalidDirective(pos, directive, "Missing macro name"@))
            } else if !macros::valid_macro_name(parts[1]) {
                Err(Fault::InvalidMacroName(parts[1]))
            } else {
                Ok(
                    PassState {
                        defs: with_definition(
                            st.defs,
                            parts[1],
                            join_words(parts.subrange(2, parts.len() as int)),
                        ),
                        stack: st.stack,
                    },
                )
            },
        )
    } else if d == "#undef"@ {
        Some(
            if parts.len() < 2 {
                Err(Fault::InvalidDirective(pos, directive, "Missing macro name"@))
            } else {
                Ok(PassState { defs: without_definition(st.defs, parts[1]), stack: st.stack })
            },
        )
    } else if d == "#ifdef"@ || d == "#ifndef"@ {
        Some(
            if !cond {
                Ok(st)
            } else if parts.len() < 2 {
                Err(Fault::InvalidDirective(pos, directive, "Missing condition"@))
            } else {
                Ok(
                    PassState {
                        defs: st.defs,
                        stack: st.stack.push(
                            if d == "#ifdef"@ {
                                has_name(st.defs, parts[1])
                            } else {
                                !has_name(st.defs, parts[1])
                            },
                        ),
                    },
                )
            },
        )
    } else if d == "#endif"@ {
        Some(
            if !cond {
                Ok(st)
            } else if st.stack.len() == 0 {
                Err(Fault::UnmatchedEndif(pos))
            } else {
                Ok(PassState { defs: st.defs, stack: st.stack.drop_last() })
            },
        )
    } else if d == "#"@ {
        Some(Ok(st))
    } else if d == "#else"@ {
        Some(
            if !cond {
                Ok(st)
            } else if st.stack.len() == 0 {
                Err(Fault::UnmatchedElse(pos))
            } else {
                Ok(
                    PassState {
                        defs: st.defs,
                        stack: st.stack.update(st.stack.len() - 1, !st.stack.last()),
                    },
                )
            },
        )
    } else {
        None
    }
}

/// An ordinary line: expanded and emitted with a line break when every open
/// block is active; otherwise a bare line break (with `keep`) or nothing.
pub open spec fn content_step(st: PassState, line: Seq<char>, keep: bool) -> Result<
    (Seq<char>, PassState),
    Fault,
> {
    if all_active(st.stack) {
        match expansion(st.defs, line) {
            Ok(x) => Ok((x.push('\n'), st)),
            Err(w) => Err(Fault::MacroRecursion(w)),
        }
    } else if keep {
        Ok((seq!['\n'], st))
    } else {
        Ok((Seq::empty(), st))
    }
}

/// One line, numbered `ln`: a directive when its first non-blank character is `#`.
pub open spec fn line_step(st: PassState, line: Seq<char>, ln: int, keep: bool, cond: bool) -> Result<
    (Seq<char>, PassState),
    Fault,
> {
    let tr = trim_start(line);
    let dir = if tr.len() > 0 && tr[0] == '#' {
        directive_step(st, words_from(tr, 0), tr, ln, cond)
    } else {
        None
    };
    match dir {
        Some(Err(f)) => Err(f),
        Some(Ok(st2)) => Ok((Seq::empty(), st2)),
        None => content_step(st, line, keep),
    }
}

/// Prepends `o` to the output of a successful pass.
pub open spec fn after(o: Seq<char>, r: Result<(Seq<char>, PassState), Fault>) -> Result<
    (Seq<char>, PassState),
    Fault,
> {
    match r {
        Ok((x, st)) => Ok((o + x, st)),
        Err(f) => Err(f),
    }
}

/// The lines `lines[k..]`, in order, each numbered from 1; the first fault stops the pass.
pub open spec fn run_lines(lines: Seq<Seq<char>>, k: int, st: PassState, keep: bool, cond: bool) -> Result<
    (Seq<char>, PassState),
    Fault,
>
    decreases lines.len() - k,
{
    if k < 0 || k >= lines.len() {
        Ok((Seq::empty(), st))
    } else {
        match line_step(st, lines[k], k + 1, keep, cond) {
            Err(f) => Err(f),
            Ok((o, st2)) => after(o, run_lines(lines, k + 1, st2, keep, cond)),
        }
    }
}

/// Preprocessing `src` with the macros `defs`: comment removal, then the
/// line pass; a block still open at the end is a fault. On success, the
/// output and the macro table at the end.
pub open spec fn preprocess(src: Seq<char>, defs: Entries, keep: bool, cond: bool) -> Result<
    (Seq<char>, Entries),
    Fault,
> {
    match strip_comments(src, keep) {
        Err(start) => Err(Fault::UnterminatedComment(position_at(src, start))),
        Ok(text) => match run_lines(
            lines_of(text),
            0,
            PassState { defs, stack: Seq::empty() },
            keep,
            cond,
        ) {
            Err(f) => Err(f),
            Ok((out, st)) => if st.stack.len() > 0 {
                Err(Fault::UnterminatedConditional(line_position(1)))
            } else {
                Ok((out, st.defs))
            },
        },
    }
}

pub proof fn lemma_after_twice(a: Seq<char>, b: Seq<char>, r: Result<(Seq<char>, PassState), Fault>)
    ensures
        after(a, after(b, r)) == after(a + b, r),
{
    match r {
        Ok((x, st)) => assert(a + (b + x) =~= (a + b) + x),
        Err(_) => {},
    }
}

/// What a directive line asks of the line loop.
#[derive(Debug, Clone, Copy, PartialEq, Eq, Structural)]
enum DirectiveResult {
    /// The directive was carried out; the line emits nothing.
    SkipLine,
    /// Not a known directive: the line is ordinary text.
    Continue,
}

/// Turns source text into comment-free, macro-expanded, directive-resolved text.
#[derive(Debug)]
pub struct Preprocessor {
    source: String,
    macros: MacroTable,
    preserve_line_numbers: bool,
    support_conditionals: bool,
}

impl Preprocessor {
    pub closed spec fn source_text(&self) -> Seq<char> {
        self.source@
    }

    pub closed spec fn table(&self) -> Entries {
        self.macros.entries()
    }

    pub closed spec fn keeps_lines(&self) -> bool {
        self.preserve_line_numbers
    }

    pub closed spec fn conditionals(&self) -> bool {
        self.support_conditionals
    }

    pub closed spec fn wf(&self) -> bool {
        self.macros.wf()
    }

    /// A preprocessor for `source`, with no macros, keeping line numbers and
    /// resolving conditional blocks.
    pub fn new(source: &str) -> (r: Self)
        ensures
            r.wf(),
            r.source_text() == source@,
            r.table() == Seq::<(Seq<char>, Seq<char>)>::empty(),
            r.keeps_lines(),
            r.conditionals(),
    {
        Preprocessor {
            source: String::from_str(source),
            macros: MacroTable::new(),
            preserve_line_numbers: true,
            support_conditionals: true,
        }
    }

    /// Defines a macro before processing; a name that is not identifier-shaped is refused.
    pub fn define(&mut self, name: &str, value: &str) -> (r: Result<(), PreprocessorError>)
        requires
            old(self).wf(),
        ensures
            final(self).wf(),
            final(self).source_text() == old(self).source_text(),
            final(self).keeps_lines() == old(self).keeps_lines(),
            final(self).conditionals() == old(self).conditionals(),
            macros::valid_macro_name(name@) ==> r is Ok && final(self).table() == with_definition(
                old(self).table(),
                name@,
                value@,
            ),
            !macros::valid_macro_name(name@) ==> final(self).table() == old(self).table()
                && match r {
                Err(PreprocessorError::InvalidMacroName { name: n }) => n@ == name@,
                _ => false,
            },
    {
        self.macros.define(name, value)
    }

    pub fn undefine(&mut self, name: &str)
        requires
            old(self).wf(),
        ensures
            final(self).wf(),
            final(self).source_text() == old(self).source_text(),
            final(self).keeps_lines() == old(self).keeps_lines(),
            final(self).conditionals() == old(self).conditionals(),
            final(self).table() == without_definition(old(self).table(), name@),
    {
        self.macros.undefine(name);
    }

    /// Whether removed comments and inactive lines leave blanks and line breaks behind.
    pub fn preserve_line_numbers(&mut self, preserve: bool)
        requires
            old(self).wf(),
        ensures
            final(self).wf(),
            final(self).source_text() == old(self).source_text(),
            final(self).table() == old(self).table(),
            final(self).keeps_lines() == preserve,
            final(self).conditionals() == old(self).conditionals(),
    {
        self.preserve_line_numbers = preserve;
    }

    /// Whether `#ifdef`, `#ifndef`, `#else` and `#endif` are resolved (otherwise
    /// they are dropped and every line is active).
    pub fn enable_conditionals(&mut self, enable: bool)
        requires
            old(self).wf(),
        ensures
            final(self).wf(),
            final(self).source_text() == old(self).source_text(),
            final(self).table() == old(self).table(),
            final(self).keeps_lines() == old(self).keeps_lines(),
            final(self).conditionals() == enable,
    {
        self.support_conditionals = enable;
    }

    /// The text of a directive line: the line without leading blanks, when it starts with `#`.
    fn parse_directive(line: &Vec<char>) -> (r: Option<Vec<char>>)
        ensures
            match r {
                Some(d) => d@ == trim_start(line@) && d@.len() > 0 && d@[0] == '#',
                None => !(trim_start(line@).len() > 0 && trim_start(line@)[0] == '#'),
            },
    {
        let p = first_non_space(line);
        let trimmed = slice_chars(line, p, line.len());
        assert(trimmed@ =~= trim_start(line@));
        if p < line.len() && line[p] == '#' {
            Some(trimmed)
        } else {
            None
        }
    }

    /// Whether every open conditional block is active.
    fn is_section_active(&self, condition_stack: &Vec<bool>) -> (r: bool)
        ensures
            r == all_active(condition_stack@),
    {
        let mut i: usize = 0;
        while i < condition_stack.len()
            invariant
                i <= condition_stack.len(),
                forall|k: int| 0 <= k < i ==> #[trigger] condition_stack@[k],
            decreases condition_stack.len() - i,
        {
            if !condition_stack[i] {
                return false;
            }
            i = i + 1;
        }
        true
    }

    /// Carries out the directive `directive` on line `ln`.
    fn process_directive(
        &mut self,
        directive: &Vec<char>,
        condition_stack: &mut Vec<bool>,
        ln: usize,
    ) -> (r: Result<DirectiveResult, PreprocessorError>)
        requires
            old(self).wf(),
            directive@.len() > 0,
            directive@[0] == '#',
        ensures
            final(self).wf(),
            final(self).source_text() == old(self).source_text(),
            final(self).keeps_lines() == old(self).keeps_lines(),
            final(self).conditionals() == old(self).conditionals(),
            match directive_step(
                PassState { defs: old(self).table(), stack: old(condition_stack)@ },
                words_from(directive@, 0),
                directive@,
                ln as int,
                old(self).conditionals(),
            ) {
                None => r == Ok::<DirectiveResult, PreprocessorError>(DirectiveResult::Continue)
                    && final(self).table() == old(self).table() && final(condition_stack)@ == old(
                    condition_stack,
                )@,
                Some(Ok(st)) => r == Ok::<DirectiveResult, PreprocessorError>(
                    DirectiveResult::SkipLine,
                ) && final(self).table() == st.defs && final(condition_stack)@ == st.stack,
                Some(Err(f)) => r is Err && shows(r->Err_0, f),
            },
    {
        let parts = split_words(directive);
        proof {
            lemma_word_stop(directive@, 1);
            assert(!crate::common::text::is_space(directive@[0]));
            assert(lines::word_stop(directive@, 0) == lines::word_stop(directive@, 1));
            assert(words_from(directive@, 0).len() >= 1);
            assert(views(parts@).len() == parts@.len());
        }
        let d = &parts[0];
        assert(views(parts@)[0] == d@);
        let position = Position { line: ln, column: 1 };
        if text_is(d, 0, d.len(), "#define") {
            assert(d@.subrange(0, d@.len() as int) =~= d@);
            if parts.len() < 2 {
                return Err(
                    PreprocessorError::InvalidDirective {
                        position,
                        directive: string_of(directive),
                        reason: String::from_str("Missing macro name"),
                    },
                );
            }
            let name = string_of(&parts[1]);
            let value = string_of(&join_from(&parts, 2));
            assert(views(parts@)[1] == parts@[1]@);
            assert(views(parts@).subrange(2, parts.len() as int) =~= views(parts@).subrange(
                2,
                views(parts@).len() as int,
            ));
            match self.macros.define(name.as_str(), value.as_str()) {
                Ok(()) => Ok(DirectiveResult::SkipLine),
                Err(e) => Err(e),
            }
        } else if text_is(d, 0, d.len(), "#undef") {
            assert(d@.subrange(0, d@.len() as int) =~= d@);
            if parts.len() < 2 {
                return Err(
                    PreprocessorError::InvalidDirective {
                        position,
                        directive: string_of(directive),
                        reason: String::from_str("Missing macro name"),
                    },
                );
            }
            let name = string_of(&parts[1]);
            assert(views(parts@)[1] == parts@[1]@);
            self.macros.undefine(name.as_str());
            Ok(DirectiveResult::SkipLine)
        } else if text_is(d, 0, d.len(), "#ifdef") || text_is(d, 0, d.len(), "#ifndef") {
            assert(d@.subrange(0, d@.len() as int) =~= d@);
            if !self.support_conditionals {
                return Ok(DirectiveResult::SkipLine);
            }
            if parts.len() < 2 {
                return Err(
                    PreprocessorError::InvalidDirective {
                        position,
                        directive: string_of(directive),
                        reason: String::from_str("Missing condition"),
                    },
                );
            }
            let name = string_of(&parts[1]);
            assert(views(parts@)[1] == parts@[1]@);
            let is_defined = self.macros.is_defined(name.as_str());
            if text_is(d, 0, d.len(), "#ifdef") {
                condition_stack.push(is_defined);
            } else {
                condition_stack.push(!is_defined);
            }
            Ok(DirectiveResult::SkipLine)
        } else if text_is(d, 0, d.len(), "#endif") {
            assert(d@.subrange(0, d@.len() as int) =~= d@);
            if !self.support_conditionals {
                return Ok(DirectiveResult::SkipLine);
            }
            if condition_stack.len() == 0 {
                return Err(PreprocessorError::UnmatchedEndif { position });
            }
            condition_stack.pop();
            Ok(DirectiveResult::SkipLine)
        } else if text_is(d, 0, d.len(), "#") {
            assert(d@.subrange(0, d@.len() as int) =~= d@);
            Ok(DirectiveResult::SkipLine)
        } else if text_is(d, 0, d.len(), "#else") {
            assert(d@.subrange(0, d@.len() as int) =~= d@);
            if !self.support_conditionals {
                return Ok(DirectiveResult::SkipLine);
            }
            if condition_stack.len() == 0 {
                return Err(PreprocessorError::UnmatchedElse { position });
            }
            let last = condition_stack.len() - 1;
            let active = condition_stack[last];
            condition_stack.set(last, !active);
            Ok(DirectiveResult::SkipLine)
        } else {
            assert(d@.subrange(0, d@.len() as int) =~= d@);
            Ok(DirectiveResult::Continue)
        }
    }

    /// The source without comments; a block comment left open is an error at its `/*`.
    fn remove_comments_from_whole_source(&self, source: &Vec<char>) -> (r: Result<
        Vec<char>,
        PreprocessorError,
    >)
        ensures
            match strip_comments(source@, self.keeps_lines()) {
                Ok(x) => r is Ok && r->Ok_0@ == x,
                Err(start) => r == Err::<Vec<char>, PreprocessorError>(
                    PreprocessorError::UnterminatedComment { position: position_at(source@, start) },
                ),
            },
    {
        match remove_comments(source, self.preserve_line_numbers) {
            Ok(text) => Ok(text),
            Err(start) => Err(PreprocessorError::UnterminatedComment { position: locate(source, start) }),
        }
    }

    /// Handles line `ln`: carries out a directive, or appends the expanded line to `out`.
    fn process_line(
        &mut self,
        line: &Vec<char>,
        ln: usize,
        condition_stack: &mut Vec<bool>,
        out: &mut String,
    ) -> (r: Result<(), PreprocessorError>)
        requires
            old(self).wf(),
        ensures
            final(self).wf(),
            final(self).source_text() == old(self).source_text(),
            final(self).keeps_lines() == old(self).keeps_lines(),
            final(self).conditionals() == old(self).conditionals(),
            match line_step(
                PassState { defs: old(self).table(), stack: old(condition_stack)@ },
                line@,
                ln as int,
                old(self).keeps_lines(),
                old(self).conditionals(),
            ) {
                Ok((em, st)) => r is Ok && final(out)@ == old(out)@ + em && final(self).table()
                    == st.defs && final(condition_stack)@ == st.stack,
                Err(f) => r is Err && shows(r->Err_0, f),
            },
    {
        let ghost o = out@;
        match Self::parse_directive(line) {
            Some(directive) => match self.process_directive(&directive, condition_stack, ln) {
                Ok(DirectiveResult::SkipLine) => {
                    assert(o + Seq::<char>::empty() =~= o);
                    return Ok(());
                },
                Ok(DirectiveResult::Continue) => {},
                Err(e) => {
                    return Err(e);
                },
            },
            None => {},
        }
        assert(line@.subrange(0, line@.len() as int) =~= line@);
        if self.is_section_active(condition_stack) {
            match self.macros.expand_chars(line, 0, line.len()) {
                Ok(x) => {
                    push_text(out, x.as_str());
                    push_char(out, '\n');
                    assert(out@ =~= o + x@.push('\n'));
                },
                Err(e) => {
                    return Err(e);
                },
            }
        } else if self.preserve_line_numbers {
            push_char(out, '\n');
            assert(out@ =~= o + seq!['\n']);
        } else {
            assert(o + Seq::<char>::empty() =~= o);
        }
        Ok(())
    }

    /// Runs the whole pass over the source: removes comments, then goes line by
    /// line, carrying out directives and expanding macros in active lines.
    /// Directives change the macro table for the lines after them.
    pub fn process(&mut self) -> (r: Result<String, PreprocessorError>)
        requires
            old(self).wf(),
        ensures
            final(self).wf(),
            final(self).source_text() == old(self).source_text(),
            final(self).keeps_lines() == old(self).keeps_lines(),
            final(self).conditionals() == old(self).conditionals(),
            match preprocess(
                old(self).source_text(),
                old(self).table(),
                old(self).keeps_lines(),
                old(self).conditionals(),
            ) {
                Ok((out, defs)) => r is Ok && r->Ok_0@ == out && final(self).table() == defs,
                Err(f) => r is Err && shows(r->Err_0, f),
            },
    {
        let ghost defs0 = self.table();
        let ghost src0 = self.source_text();
        let ghost keep = self.keeps_lines();
        let ghost cond = self.conditionals();
        let src = chars_of(self.source.as_str());
        let text = match self.remove_comments_from_whole_source(&src) {
            Ok(t) => t,
            Err(e) => return Err(e),
        };
        let lines = split_lines(&text);
        let ghost all = views(lines@);
        let ghost st0 = PassState { defs: defs0, stack: Seq::empty() };
        let mut out = String::new();
        let mut condition_stack: Vec<bool> = Vec::new();
        let mut k: usize = 0;
        while k < lines.len()
            invariant
                self.wf(),
                self.source_text() == old(self).source_text(),
                self.keeps_lines() == keep,
                self.conditionals() == cond,
                keep == old(self).keeps_lines(),
                cond == old(self).conditionals(),
                defs0 == old(self).table(),
                src@ == old(self).source_text(),
                strip_comments(src@, keep) == Ok::<Seq<char>, int>(text@),
                st0 == (PassState { defs: defs0, stack: Seq::empty() }),
                all == views(lines@),
                all == lines_of(text@),
                k <= lines.len(),
                run_lines(all, 0, st0, keep, cond) == after(
                    out@,
                    run_lines(
                        all,
                        k as int,
                        PassState { defs: self.table(), stack: condition_stack@ },
                        keep,
                        cond,
                    ),
                ),
            decreases lines.len() - k,
        {
            let line = &lines[k];
            let ghost st = PassState { defs: self.table(), stack: condition_stack@ };
            let ghost o = out@;
            assert(all[k as int] == line@);
            match self.process_line(line, k + 1, &mut condition_stack, &mut out) {
                Ok(()) => {},
                Err(e) => {
                    proof {
                        let f = line_step(st, line@, k + 1, keep, cond)->Err_0;
                        assert(line_step(st, line@, k + 1, keep, cond) is Err);
                        assert(shows(e, f));
                        assert(run_lines(all, k as int, st, keep, cond) == Err::<
                            (Seq<char>, PassState),
                            Fault,
                        >(f));
                        assert(src@ == old(self).source_text());
                        assert(strip_comments(src@, keep) == Ok::<Seq<char>, int>(text@));
                        assert(preprocess(old(self).source_text(), defs0, keep, cond) == Err::<
                            (Seq<char>, Entries),
                            Fault,
                        >(f));
                        assert(run_lines(all, k as int, st, keep, cond) is Err);
                        assert(run_lines(all, 0, st0, keep, cond) == run_lines(
                            all,
                            k as int,
                            st,
                            keep,
                            cond,
                        ));
                    }
                    return Err(e);
                },
            }
            proof {
                let em = line_step(st, line@, k + 1, keep, cond)->Ok_0.0;
                let st2 = PassState { defs: self.table(), stack: condition_stack@ };
                lemma_after_twice(o, em, run_lines(all, k + 1, st2, keep, cond));
            }
            k = k + 1;
        }
        if condition_stack.len() > 0 {
            return Err(PreprocessorError::UnterminatedConditional { position: Position::new(1, 1) });
        }
        assert(out@ + Seq::<char>::empty() =~= out@);
        Ok(out)
    }
}

} // verus!
