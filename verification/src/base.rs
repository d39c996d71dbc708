//! Shared vocabulary of the compiler: source spans, typed indices,
//! diagnostics and the interned type table.
use vstd::prelude::*;
use crate::text::{str_to_string, string_clone};

verus! {

/// A source range, as byte offsets into the source text.
#[derive(Debug, Clone, Copy, PartialEq, Eq, Structural, Hash, Default)]
pub struct Span {
    pub start: u32,
    pub end: u32,
}

impl Span {
    pub fn new(start: u32, end: u32) -> (s: Span)
        ensures
            s.start == start,
            s.end == end,
    {
        Span { start, end }
    }
}

/// Index of an interned type in a [`TypeTable`].
#[derive(Debug, Clone, Copy, PartialEq, Eq, Structural, Hash)]
pub struct TypeId(pub u32);

/// Index of a local binding inside one function body.
#[derive(Debug, Clone, Copy, PartialEq, Eq, Structural, Hash)]
pub struct LocalId(pub u32);

/// Index of a struct field.
#[derive(Debug, Clone, Copy, PartialEq, Eq, Structural, Hash)]
pub struct FieldId(pub u32);

/// Index of a function.
#[derive(Debug, Clone, Copy, PartialEq, Eq, Structural, Hash)]
pub struct FunctionId(pub u32);

/// Index of a source module.
#[derive(Debug, Clone, Copy, PartialEq, Eq, Structural, Hash)]
pub struct ModuleId(pub u32);

/// Index of a generic type parameter.
#[derive(Debug, Clone, Copy, PartialEq, Eq, Structural, Hash)]
pub struct GenericParamId(pub u32);

/// Index of a struct declaration.
#[derive(Debug, Clone, Copy, PartialEq, Eq, Structural, Hash)]
pub struct StructId(pub u32);

impl TypeId {
    pub fn from_raw(raw: u32) -> (r: Self)
        ensures r.0 == raw,
    {
        TypeId(raw)
    }

    pub fn raw(&self) -> (r: u32)
        ensures r == self.0,
    {
        self.0
    }
}

impl LocalId {
    pub fn from_raw(raw: u32) -> (r: Self)
        ensures r.0 == raw,
    {
        LocalId(raw)
    }

    pub fn raw(&self) -> (r: u32)
        ensures r == self.0,
    {
        self.0
    }
}

impl FieldId {
    pub fn from_raw(raw: u32) -> (r: Self)
        ensures r.0 == raw,
    {
        FieldId(raw)
    }

    pub fn raw(&self) -> (r: u32)
        ensures r == self.0,
    {
        self.0
    }
}

impl FunctionId {
    pub fn from_raw(raw: u32) -> (r: Self)
        ensures r.0 == raw,
    {
        FunctionId(raw)
    }

    pub fn raw(&self) -> (r: u32)
        ensures r == self.0,
    {
        self.0
    }
}

impl ModuleId {
    pub fn from_raw(raw: u32) -> (r: Self)
        ensures r.0 == raw,
    {
        ModuleId(raw)
    }

    pub fn raw(&self) -> (r: u32)
        ensures r == self.0,
    {
        self.0
    }
}

impl GenericParamId {
    pub fn from_raw(raw: u32) -> (r: Self)
        ensures r.0 == raw,
    {
        GenericParamId(raw)
    }

    pub fn raw(&self) -> (r: u32)
        ensures r == self.0,
    {
        self.0
    }
}

impl StructId {
    pub fn from_raw(raw: u32) -> (r: Self)
        ensures r.0 == raw,
    {
        StructId(raw)
    }

    pub fn raw(&self) -> (r: u32)
        ensures r == self.0,
    {
        self.0
    }
}

/// How serious a diagnostic is.
#[derive(Debug, Clone, Copy, PartialEq, Eq, Structural, Hash)]
pub enum Severity {
    Error,
    Warning,
    Note,
}

/// One message reported against the source.
#[derive(Debug, PartialEq, Eq, Hash)]
pub struct Diagnostic {
    pub severity: Severity,
    pub code: String,
    pub message: String,
    pub span: Span,
}

impl Clone for Diagnostic {
    fn clone(&self) -> (r: Self)
        ensures
            r == *self,
    {
        Diagnostic {
            severity: self.severity,
            code: string_clone(&self.code),
            message: string_clone(&self.message),
            span: self.span,
        }
    }
}

impl Diagnostic {
    pub fn new(severity: Severity, code: &str, message: String, span: Span) -> (d: Diagnostic)
        ensures
            d.severity == severity,
            d.code@ == code@,
            d.message == message,
            d.span == span,
    {
        Diagnostic { severity, code: str_to_string(code), message, span }
    }

    pub fn error(code: &str, message: String, span: Span) -> (d: Diagnostic)
        ensures
            d.severity == Severity::Error,
            d.code@ == code@,
            d.message == message,
            d.span == span,
    {
        Diagnostic::new(Severity::Error, code, message, span)
    }

    pub fn warning(code: &str, message: String, span: Span) -> (d: Diagnostic)
        ensures
            d.severity == Severity::Warning,
            d.code@ == code@,
            d.message == message,
            d.span == span,
    {
        Diagnostic::new(Severity::Warning, code, message, span)
    }
}

/// An ordered collection of diagnostics.
#[derive(Debug)]
pub struct DiagnosticBag {
    pub items: Vec<Diagnostic>,
}

impl View for DiagnosticBag {
    type V = Seq<Diagnostic>;

    open spec fn view(&self) -> Seq<Diagnostic> {
        self.items@
    }
}

/// Whether some diagnostic of the sequence is an error.
pub open spec fn seq_has_errors(s: Seq<Diagnostic>) -> bool {
    exists|i: int| 0 <= i < s.len() && s[i].severity == Severity::Error
}

impl Clone for DiagnosticBag {
    fn clone(&self) -> (r: Self)
        ensures
            r@ == self@,
    {
        let mut items: Vec<Diagnostic> = Vec::new();
        let mut i: usize = 0;
        while i < self.items.len()
            invariant
                0 <= i <= self.items@.len(),
                items@ == self.items@.subrange(0, i as int),
            decreases self.items@.len() - i,
        {
            items.push(self.items[i].clone());
            i += 1;
        }
        proof {
            assert(items@ == self.items@);
        }
        DiagnosticBag { items }
    }
}

impl DiagnosticBag {
    pub fn new() -> (b: DiagnosticBag)
        ensures
            b@ == Seq::<Diagnostic>::empty(),
    {
        DiagnosticBag { items: Vec::new() }
    }

    pub fn push(&mut self, d: Diagnostic)
        ensures
            final(self)@ == old(self)@.push(d),
    {
        self.items.push(d);
    }

    pub fn len(&self) -> (n: usize)
        ensures
            n == self@.len(),
    {
        self.items.len()
    }

    pub fn is_empty(&self) -> (b: bool)
        ensures
            b == (self@.len() == 0),
    {
        self.items.len() == 0
    }

    /// Whether the bag holds at least one error.
    pub fn has_errors(&self) -> (b: bool)
        ensures
            b == seq_has_errors(self@),
    {
        let mut i: usize = 0;
        while i < self.items.len()
            invariant
                0 <= i <= self.items@.len(),
                forall|j: int| 0 <= j < i ==> self.items@[j].severity != Severity::Error,
            decreases self.items@.len() - i,
        {
            if self.items[i].severity == Severity::Error {
                return true;
            }
            i += 1;
        }
        false
    }

    /// Appends copies of every diagnostic of `other`, in order.
    pub fn extend_from(&mut self, other: &DiagnosticBag)
        ensures
            final(self)@ == old(self)@ + other@,
    {
        let mut i: usize = 0;
        while i < other.items.len()
            invariant
                0 <= i <= other.items@.len(),
                self@ == old(self)@ + other@.subrange(0, i as int),
            decreases other.items@.len() - i,
        {
            self.items.push(other.items[i].clone());
            i += 1;
            proof {
                assert(other@.subrange(0, i as int) == other@.subrange(0, i - 1).push(other@[i - 1]));
            }
        }
        proof {
            assert(other@.subrange(0, other@.len() as int) == other@);
        }
    }

    /// The diagnostics, in the order they were pushed.
    pub fn iter(&self) -> (r: &Vec<Diagnostic>)
        ensures
            r@ == self@,
    {
        &self.items
    }
}

} // verus!
