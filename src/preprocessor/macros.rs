//! Object-like macros: the definition table and recursion-guarded expansion.

use vstd::prelude::*;

use super::error::PreprocessorError;
use crate::common::text::{
    chars_of, is_name_char, is_name_start, name_char, name_start, push_char, text_between,
    text_is,
};

verus! {

/// A macro name and its raw replacement text.
#[derive(Debug, Clone)]
pub struct MacroDefinition {
    name: String,
    value: String,
}

/// A table's contents: (name, replacement) pairs.
pub type Entries = Seq<(Seq<char>, Seq<char>)>;

/// `w` is defined in `defs`.
pub open spec fn has_name(defs: Entries, w: Seq<char>) -> bool {
    exists|k: int| 0 <= k < defs.len() && (#[trigger] defs[k]).0 == w
}

/// The index of the definition of `w` in `defs` (meaningful when `has_name(defs, w)`).
pub open spec fn index_of(defs: Entries, w: Seq<char>) -> int {
    choose|k: int| 0 <= k < defs.len() && (#[trigger] defs[k]).0 == w
}

/// The replacement text of `w`, if it is defined.
pub open spec fn value_of(defs: Entries, w: Seq<char>) -> Option<Seq<char>> {
    if has_name(defs, w) {
        Some(defs[index_of(defs, w)].1)
    } else {
        None
    }
}

/// No name is defined twice.
pub open spec fn names_unique(defs: Entries) -> bool {
    forall|a: int, b: int| 0 <= a < b < defs.len() ==> (#[trigger] defs[a]).0 != (#[trigger] defs[b]).0
}

/// Identifier-shaped: a letter or `_`, then letters, digits or `_`.
pub open spec fn valid_macro_name(w: Seq<char>) -> bool {
    w.len() > 0 && is_name_start(w[0]) && forall|k: int| 0 <= k < w.len() ==> is_name_char(#[trigger] w[k])
}

/// Length of the run of name characters at the start of `t`.
pub open spec fn word_len(t: Seq<char>) -> nat
    decreases t.len(),
{
    if t.len() > 0 && is_name_char(t[0]) {
        1 + word_len(t.drop_first())
    } else {
        0
    }
}

/// How many macros are not being expanded.
pub open spec fn idle_count(busy: Seq<bool>) -> nat
    decreases busy.len(),
{
    if busy.len() == 0 {
        0
    } else {
        idle_count(busy.drop_last()) + if busy.last() { 0nat } else { 1nat }
    }
}

pub proof fn lemma_idle_count_drops(busy: Seq<bool>, k: int)
    requires
        0 <= k < busy.len(),
        !busy[k],
    ensures
        idle_count(busy.update(k, true)) < idle_count(busy),
    decreases busy.len(),
{
    let b2 = busy.update(k, true);
    if k == busy.len() - 1 {
        assert(b2.drop_last() =~= busy.drop_last());
    } else {
        assert(b2.drop_last() =~= busy.drop_last().update(k, true));
        lemma_idle_count_drops(busy.drop_last(), k);
    }
}

/// Prepends `p` to a successful result.
pub open spec fn prepend<E>(p: Seq<char>, r: Result<Seq<char>, E>) -> Result<Seq<char>, E> {
    match r {
        Ok(t) => Ok(p + t),
        Err(e) => Err(e),
    }
}

/// Expansion of `t` while the macros marked in `busy` are being expanded:
/// every maximal run of name characters that names a macro is replaced by the
/// expansion of its value; reaching a macro that is already being expanded
/// fails with its name. Everything else is kept.
pub open spec fn expand_text(defs: Entries, busy: Seq<bool>, t: Seq<char>) -> Result<
    Seq<char>,
    Seq<char>,
>
    decreases idle_count(busy), t.len(),
{
    if t.len() == 0 {
        Ok(Seq::empty())
    } else if !is_name_char(t[0]) {
        prepend(seq![t[0]], expand_text(defs, busy, t.drop_first()))
    } else {
        let n = word_len(t);
        let w = t.take(n as int);
        let head = if has_name(defs, w) {
            let k = index_of(defs, w);
            if 0 <= k < busy.len() && !busy[k] {
                proof {
                    lemma_idle_count_drops(busy, k);
                }
                expand_text(defs, busy.update(k, true), defs[k].1)
            } else {
                Err(w)
            }
        } else {
            Ok(w)
        };
        match head {
            Err(e) => Err(e),
            Ok(h) => if 0 < n <= t.len() {
                prepend(h, expand_text(defs, busy, t.skip(n as int)))
            } else {
                Err(w)
            },
        }
    }
}

/// The expansion of `t` with no macro being expanded yet.
pub open spec fn expansion(defs: Entries, t: Seq<char>) -> Result<Seq<char>, Seq<char>> {
    expand_text(defs, Seq::new(defs.len(), |k: int| false), t)
}

/// `defs` with `name` bound to `value`, replacing an earlier binding in place.
pub open spec fn with_definition(defs: Entries, name: Seq<char>, value: Seq<char>) -> Entries {
    if has_name(defs, name) {
        defs.update(index_of(defs, name), (name, value))
    } else {
        defs.push((name, value))
    }
}

/// `defs` without a binding for `name`.
pub open spec fn without_definition(defs: Entries, name: Seq<char>) -> Entries {
    if has_name(defs, name) {
        defs.remove(index_of(defs, name))
    } else {
        defs
    }
}

impl MacroDefinition {
    pub closed spec fn name_text(&self) -> Seq<char> {
        self.name@
    }

    pub closed spec fn value_text(&self) -> Seq<char> {
        self.value@
    }

    pub fn new(name: &str, value: &str) -> (r: Self)
        ensures
            r.name_text() == name@,
            r.value_text() == value@,
    {
        MacroDefinition { name: String::from_str(name), value: String::from_str(value) }
    }

    pub fn name(&self) -> (r: &str)
        ensures
            r@ == self.name_text(),
    {
        self.name.as_str()
    }

    pub fn value(&self) -> (r: &str)
        ensures
            r@ == self.value_text(),
    {
        self.value.as_str()
    }
}

/// The macros defined so far, each name once.
#[derive(Debug, Default)]
pub struct MacroTable {
    macros: Vec<MacroDefinition>,
}

impl MacroTable {
    /// The definitions, in the order in which their names were first defined.
    pub closed spec fn entries(&self) -> Entries {
        self.macros@.map_values(|d: MacroDefinition| (d.name_text(), d.value_text()))
    }

    pub open spec fn wf(&self) -> bool {
        names_unique(self.entries())
    }

    pub fn new() -> (r: Self)
        ensures
            r.wf(),
            r.entries() == Seq::<(Seq<char>, Seq<char>)>::empty(),
    {
        let r = MacroTable { macros: Vec::new() };
        assert(r.entries() =~= Seq::<(Seq<char>, Seq<char>)>::empty());
        r
    }

    /// The index of the definition of `v[from..to]`, if any.
    fn find(&self, v: &Vec<char>, from: usize, to: usize) -> (r: Option<usize>)
        requires
            self.wf(),
            from <= to <= v.len(),
        ensures
            match r {
                Some(k) => has_name(self.entries(), v@.subrange(from as int, to as int)) && k
                    == index_of(self.entries(), v@.subrange(from as int, to as int)) && k
                    < self.entries().len(),
                None => !has_name(self.entries(), v@.subrange(from as int, to as int)),
            },
    {
        let ghost w = v@.subrange(from as int, to as int);
        let ghost e = self.entries();
        let mut k: usize = 0;
        while k < self.macros.len()
            invariant
                k <= self.macros.len(),
                from <= to <= v.len(),
                w == v@.subrange(from as int, to as int),
                e == self.entries(),
                names_unique(e),
                e.len() == self.macros.len(),
                forall|x: int| 0 <= x < k ==> (#[trigger] e[x]).0 != w,
            decreases self.macros.len() - k,
        {
            assert(e[k as int] == (
            self.macros@[k as int].name_text(),
            self.macros@[k as int].value_text(),
            ));
            if text_is(v, from, to, self.macros[k].name()) {
                assert(e[k as int].0 == w);
                assert(has_name(e, w));
                let ghost c = index_of(e, w);
                assert(e[c].0 == w);
                assert(c == k as int) by {
                    if c != k as int {
                        if c < k as int {
                            assert(e[c].0 != w);
                        } else {
                            assert(e[k as int].0 != e[c].0);
                        }
                    }
                }
                return Some(k);
            }
            k = k + 1;
        }
        None
    }

    /// Binds `name` to `value`; a name that is not identifier-shaped is refused.
    pub fn define(&mut self, name: &str, value: &str) -> (r: Result<(), PreprocessorError>)
        requires
            old(self).wf(),
        ensures
            final(self).wf(),
            valid_macro_name(name@) ==> r is Ok && final(self).entries() == with_definition(
                old(self).entries(),
                name@,
                value@,
            ),
            !valid_macro_name(name@) ==> final(self).entries() == old(self).entries() && match r {
                Err(PreprocessorError::InvalidMacroName { name: n }) => n@ == name@,
                _ => false,
            },
    {
        if !Self::is_valid_macro_name(name) {
            return Err(PreprocessorError::InvalidMacroName { name: String::from_str(name) });
        }
        let v = chars_of(name);
        proof {
            assert(v@.subrange(0, v@.len() as int) =~= v@);
        }
        let definition = MacroDefinition::new(name, value);
        let ghost e = self.entries();
        match self.find(&v, 0, v.len()) {
            Some(k) => {
                self.macros.set(k, definition);
                assert(self.entries() =~= e.update(k as int, (name@, value@)));
            },
            None => {
                self.macros.push(definition);
                assert(self.entries() =~= e.push((name@, value@)));
            },
        }
        proof {
            assert forall|a: int, b: int| 0 <= a < b < self.entries().len() implies (
            #[trigger] self.entries()[a]).0 != (#[trigger] self.entries()[b]).0 by {
                if self.entries()[a].0 == self.entries()[b].0 {
                    if has_name(e, name@) {
                        let c = index_of(e, name@);
                        assert(e[c].0 == name@);
                        if a == c {
                            assert(e[b].0 == name@);
                        } else if b == c {
                            assert(e[a].0 == name@);
                        } else {
                            assert(e[a].0 == e[b].0);
                        }
                    } else if b == e.len() {
                        assert(e[a].0 == name@);
                    } else {
                        assert(e[a].0 == e[b].0);
                    }
                }
            }
        }
        Ok(())
    }

    /// Removes any binding of `name`.
    pub fn undefine(&mut self, name: &str)
        requires
            old(self).wf(),
        ensures
            final(self).wf(),
            final(self).entries() == without_definition(old(self).entries(), name@),
    {
        let v = chars_of(name);
        proof {
            assert(v@.subrange(0, v@.len() as int) =~= v@);
        }
        let ghost e = self.entries();
        match self.find(&v, 0, v.len()) {
            Some(k) => {
                self.macros.remove(k);
                assert(self.entries() =~= e.remove(k as int));
                assert forall|a: int, b: int| 0 <= a < b < self.entries().len() implies (
                #[trigger] self.entries()[a]).0 != (#[trigger] self.entries()[b]).0 by {
                    let a2 = if a < k { a } else { a + 1 };
                    let b2 = if b < k { b } else { b + 1 };
                    assert(self.entries()[a] == e[a2]);
                    assert(self.entries()[b] == e[b2]);
                }
            },
            None => {},
        }
    }

    pub fn is_defined(&self, name: &str) -> (r: bool)
        requires
            self.wf(),
        ensures
            r == has_name(self.entries(), name@),
    {
        let v = chars_of(name);
        proof {
            assert(v@.subrange(0, v@.len() as int) =~= v@);
        }
        self.find(&v, 0, v.len()).is_some()
    }

    /// Whether `name` is identifier-shaped.
    pub fn is_valid_macro_name(name: &str) -> (r: bool)
        ensures
            r == valid_macro_name(name@),
    {
        let v = chars_of(name);
        if v.len() == 0 {
            return false;
        }
        if !name_start(v[0]) {
            return false;
        }
        let mut i: usize = 0;
        while i < v.len()
            invariant
                i <= v.len(),
                v@ == name@,
                forall|k: int| 0 <= k < i ==> is_name_char(#[trigger] v@[k]),
            decreases v.len() - i,
        {
            if !name_char(v[i]) {
                return false;
            }
            i = i + 1;
        }
        true
    }

    /// The definitions, in the order in which their names were first defined.
    pub fn iter(&self) -> (r: std::slice::Iter<'_, MacroDefinition>)
        ensures
            vstd::std_specs::slice::into_iter_elts(r).map_values(
                |d: MacroDefinition| (d.name_text(), d.value_text()),
            ) == self.entries(),
    {
        let all = self.macros.as_slice();
        let r = all.iter();
        proof {
            vstd::std_specs::slice::axiom_spec_slice_iter(all);
            assert(vstd::std_specs::slice::into_iter_elts(r) =~= self.macros@);
        }
        r
    }

    /// Expands the text `t[from..to]` while the macros marked in `busy` are being expanded.
    fn expand_range(&self, busy: &mut Vec<bool>, t: &Vec<char>, from: usize, to: usize) -> (r:
        Result<String, String>)
        requires
            self.wf(),
            old(busy)@.len() == self.entries().len(),
            from <= to <= t.len(),
        ensures
            final(busy)@ == old(busy)@,
            match expand_text(self.entries(), old(busy)@, t@.subrange(from as int, to as int)) {
                Ok(x) => r is Ok && r->Ok_0@ == x,
                Err(w) => r is Err && r->Err_0@ == w,
            },
        decreases idle_count(old(busy)@), to - from,
    {
        let ghost defs = self.entries();
        let ghost b0 = busy@;
        let ghost whole = t@.subrange(from as int, to as int);
        let mut out = String::new();
        let mut i: usize = from;
        while i < to
            invariant
                self.wf(),
                defs == self.entries(),
                busy@ == b0,
                b0 == old(busy)@,
                whole == t@.subrange(from as int, to as int),
                b0.len() == defs.len(),
                from <= i <= to <= t.len(),
                expand_text(defs, b0, whole) == prepend(
                    out@,
                    expand_text(defs, b0, t@.subrange(i as int, to as int)),
                ),
            decreases to - i,
        {
            let ghost rest = t@.subrange(i as int, to as int);
            let c = t[i];
            if !name_char(c) {
                assert(rest.drop_first() =~= t@.subrange(i + 1, to as int));
                let ghost o = out@;
                push_char(&mut out, c);
                i = i + 1;
                proof {
                    match expand_text(defs, b0, t@.subrange(i as int, to as int)) {
                        Ok(x) => assert(o + (seq![c] + x) =~= out@ + x),
                        Err(_) => {},
                    }
                }
            } else {
                let mut e: usize = i;
                while e < to && name_char(t[e])
                    invariant
                        i <= e <= to <= t.len(),
                        word_len(rest) == (e - i) + word_len(t@.subrange(e as int, to as int)),
                    decreases to - e,
                {
                    assert(t@.subrange(e as int, to as int).drop_first() =~= t@.subrange(
                        e + 1,
                        to as int,
                    ));
                    e = e + 1;
                }
                let ghost n = word_len(rest);
                assert(word_len(rest) == e - i);
                assert(rest.take(n as int) =~= t@.subrange(i as int, e as int));
                assert(rest.skip(n as int) =~= t@.subrange(e as int, to as int));
                let ghost w = t@.subrange(i as int, e as int);
                let head: Result<String, String> = match self.find(t, i, e) {
                    Some(k) => {
                        if busy[k] {
                            Err(text_between(t, i, e))
                        } else {
                            busy.set(k, true);
                            proof {
                                lemma_idle_count_drops(b0, k as int);
                            }
                            let value = chars_of(self.macros[k].value());
                            proof {
                                assert(value@.subrange(0, value@.len() as int) =~= value@);
                            }
                            let expanded = self.expand_range(busy, &value, 0, value.len());
                            busy.set(k, false);
                            assert(busy@ =~= b0);
                            expanded
                        }
                    },
                    None => Ok(text_between(t, i, e)),
                };
                match head {
                    Err(name) => {
                        return Err(name);
                    },
                    Ok(h) => {
                        let ghost o = out@;
                        crate::common::text::push_text(&mut out, h.as_str());
                        i = e;
                        proof {
                            match expand_text(defs, b0, t@.subrange(i as int, to as int)) {
                                Ok(x) => assert(o + (h@ + x) =~= out@ + x),
                                Err(_) => {},
                            }
                        }
                    },
                }
            }
        }
        assert(t@.subrange(i as int, to as int) =~= Seq::<char>::empty());
        assert(out@ + Seq::<char>::empty() =~= out@);
        Ok(out)
    }

    /// Expands the macros in `t[from..to]`.
    pub(crate) fn expand_chars(&self, t: &Vec<char>, from: usize, to: usize) -> (r: Result<
        String,
        PreprocessorError,
    >)
        requires
            self.wf(),
            from <= to <= t.len(),
        ensures
            match expansion(self.entries(), t@.subrange(from as int, to as int)) {
                Ok(x) => r is Ok && r->Ok_0@ == x,
                Err(w) => match r {
                    Err(PreprocessorError::MacroRecursion { name }) => name@ == w,
                    _ => false,
                },
            },
    {
        let mut busy: Vec<bool> = Vec::new();
        let mut k: usize = 0;
        while k < self.macros.len()
            invariant
                k <= self.macros.len(),
                busy@ =~= Seq::new(k as nat, |x: int| false),
            decreases self.macros.len() - k,
        {
            busy.push(false);
            k = k + 1;
        }
        match self.expand_range(&mut busy, t, from, to) {
            Ok(x) => Ok(x),
            Err(name) => Err(PreprocessorError::MacroRecursion { name }),
        }
    }

    /// Expands every defined macro in `input`, recursively; a macro reached
    /// again while it is being expanded is a recursion error naming it.
    pub fn expand(&self, input: &str) -> (r: Result<String, PreprocessorError>)
        requires
            self.wf(),
        ensures
            match expansion(self.entries(), input@) {
                Ok(x) => r is Ok && r->Ok_0@ == x,
                Err(w) => match r {
                    Err(PreprocessorError::MacroRecursion { name }) => name@ == w,
                    _ => false,
                },
            },
    {
        let t = chars_of(input);
        assert(t@.subrange(0, t@.len() as int) =~= t@);
        self.expand_chars(&t, 0, t.len())
    }
}

} // verus!
