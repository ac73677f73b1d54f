//! The report the analyzer fills, and its mathematical model.

use vstd::prelude::*;

verus! {

/// The one side-effect tag the analyzer knows.
pub open spec fn io_tag() -> Seq<char> {
    "io_operation"@
}

pub open spec fn strings_view(v: Seq<String>) -> Seq<Seq<char>> {
    v.map_values(|s: String| s@)
}

pub open spec fn opt_strings_view(v: Option<Vec<String>>) -> Option<Seq<Seq<char>>> {
    match v {
        Some(v) => Some(strings_view(v@)),
        None => None,
    }
}

/// Which declaration a [`TypeInfo`] records.
#[derive(Clone, Copy, Debug, PartialEq, Eq, Structural)]
pub enum TypeKind {
    Struct,
    Trait,
    Impl,
}

/// One function declaration.
#[derive(Debug)]
pub struct FunctionInfo {
    pub name: String,
    /// Number of parameters, the receiver included.
    pub arity: usize,
    pub params: Vec<String>,
    pub public: bool,
    /// `Some(true)` for an `async` function, `None` otherwise.
    pub async_fn: Option<bool>,
}

pub struct FunctionView {
    pub name: Seq<char>,
    pub arity: nat,
    pub params: Seq<Seq<char>>,
    pub public: bool,
    pub async_fn: Option<bool>,
}

impl View for FunctionInfo {
    type V = FunctionView;

    open spec fn view(&self) -> FunctionView {
        FunctionView {
            name: self.name@,
            arity: self.arity as nat,
            params: strings_view(self.params@),
            public: self.public,
            async_fn: self.async_fn,
        }
    }
}

/// One struct, trait or implementation block.
#[derive(Debug)]
pub struct TypeInfo {
    pub name: String,
    pub kind: TypeKind,
    /// Always false for an implementation block.
    pub public: bool,
    /// Named fields, for a struct only.
    pub fields: Option<Vec<String>>,
    /// Function names, for a trait or an implementation block only.
    pub methods: Option<Vec<String>>,
}

pub struct TypeView {
    pub name: Seq<char>,
    pub kind: TypeKind,
    pub public: bool,
    pub fields: Option<Seq<Seq<char>>>,
    pub methods: Option<Seq<Seq<char>>>,
}

impl View for TypeInfo {
    type V = TypeView;

    open spec fn view(&self) -> TypeView {
        TypeView {
            name: self.name@,
            kind: self.kind,
            public: self.public,
            fields: opt_strings_view(self.fields),
            methods: opt_strings_view(self.methods),
        }
    }
}

/// One call expression, by its source text.
#[derive(Debug)]
pub struct DependencyInfo {
    pub function: String,
    /// Reserved: the analyzer never fills it.
    pub module: Option<String>,
}

pub struct DependencyView {
    pub function: Seq<char>,
    pub module: Option<Seq<char>>,
}

impl View for DependencyInfo {
    type V = DependencyView;

    open spec fn view(&self) -> DependencyView {
        DependencyView {
            function: self.function@,
            module: match self.module {
                Some(m) => Some(m@),
                None => None,
            },
        }
    }
}

/// Everything found in one source file.
#[derive(Debug)]
pub struct ParseResult {
    pub functions: Vec<FunctionInfo>,
    pub structs: Vec<TypeInfo>,
    pub traits: Vec<TypeInfo>,
    pub impls: Vec<TypeInfo>,
    pub imports: Vec<String>,
    pub dependencies: Vec<DependencyInfo>,
    pub side_effects: Vec<String>,
    pub complexity: u64,
}

pub struct ReportView {
    pub functions: Seq<FunctionView>,
    pub structs: Seq<TypeView>,
    pub traits: Seq<TypeView>,
    pub impls: Seq<TypeView>,
    pub imports: Seq<Seq<char>>,
    pub dependencies: Seq<DependencyView>,
    pub side_effects: Seq<Seq<char>>,
    pub complexity: nat,
}

impl View for ParseResult {
    type V = ReportView;

    open spec fn view(&self) -> ReportView {
        ReportView {
            functions: self.functions@.map_values(|f: FunctionInfo| f@),
            structs: self.structs@.map_values(|t: TypeInfo| t@),
            traits: self.traits@.map_values(|t: TypeInfo| t@),
            impls: self.impls@.map_values(|t: TypeInfo| t@),
            imports: strings_view(self.imports@),
            dependencies: self.dependencies@.map_values(|d: DependencyInfo| d@),
            side_effects: strings_view(self.side_effects@),
            complexity: self.complexity as nat,
        }
    }
}

/// What a run of the syntax tree contributes to a report: its records in
/// document order, its branch count, and whether a call in it looks like I/O.
pub struct Profile {
    pub functions: Seq<FunctionView>,
    pub structs: Seq<TypeView>,
    pub traits: Seq<TypeView>,
    pub impls: Seq<TypeView>,
    pub imports: Seq<Seq<char>>,
    pub dependencies: Seq<DependencyView>,
    pub io: bool,
    pub branches: nat,
}

impl Profile {
    pub open spec fn empty() -> Profile {
        Profile {
            functions: seq![],
            structs: seq![],
            traits: seq![],
            impls: seq![],
            imports: seq![],
            dependencies: seq![],
            io: false,
            branches: 0,
        }
    }

    /// `self` followed by `o`.
    pub open spec fn followed_by(self, o: Profile) -> Profile {
        Profile {
            functions: self.functions + o.functions,
            structs: self.structs + o.structs,
            traits: self.traits + o.traits,
            impls: self.impls + o.impls,
            imports: self.imports + o.imports,
            dependencies: self.dependencies + o.dependencies,
            io: self.io || o.io,
            branches: self.branches + o.branches,
        }
    }
}

impl ReportView {
    /// The report before anything is found: every sequence empty,
    /// complexity at its baseline of one.
    pub open spec fn initial() -> ReportView {
        ReportView {
            functions: seq![],
            structs: seq![],
            traits: seq![],
            impls: seq![],
            imports: seq![],
            dependencies: seq![],
            side_effects: seq![],
            complexity: 1,
        }
    }

    /// The tag sequence holds the io tag once, or nothing; the complexity
    /// never drops below its baseline.
    pub open spec fn wf(self) -> bool {
        &&& self.complexity >= 1
        &&& self.side_effects == Seq::<Seq<char>>::empty() || self.side_effects == seq![io_tag()]
    }

    /// Once the io tag is in `self`, it stays, alone, in `later`.
    pub open spec fn keeps_tags(self, later: ReportView) -> bool {
        self.side_effects.len() > 0 ==> later.side_effects == self.side_effects
    }

    /// The report after the records of `p` are appended in order.
    pub open spec fn absorb(self, p: Profile) -> ReportView {
        ReportView {
            functions: self.functions + p.functions,
            structs: self.structs + p.structs,
            traits: self.traits + p.traits,
            impls: self.impls + p.impls,
            imports: self.imports + p.imports,
            dependencies: self.dependencies + p.dependencies,
            side_effects: if p.io {
                seq![io_tag()]
            } else {
                self.side_effects
            },
            complexity: self.complexity + p.branches,
        }
    }
}

pub proof fn lemma_absorb_followed_by(r: ReportView, a: Profile, b: Profile)
    ensures
        r.absorb(a).absorb(b) == r.absorb(a.followed_by(b)),
{
    let x = r.absorb(a).absorb(b);
    let y = r.absorb(a.followed_by(b));
    assert(x.functions =~= y.functions);
    assert(x.structs =~= y.structs);
    assert(x.traits =~= y.traits);
    assert(x.impls =~= y.impls);
    assert(x.imports =~= y.imports);
    assert(x.dependencies =~= y.dependencies);
}

pub proof fn lemma_absorb_empty(r: ReportView)
    ensures
        r.absorb(Profile::empty()) == r,
{
    let x = r.absorb(Profile::empty());
    assert(x.functions =~= r.functions);
    assert(x.structs =~= r.structs);
    assert(x.traits =~= r.traits);
    assert(x.impls =~= r.impls);
    assert(x.imports =~= r.imports);
    assert(x.dependencies =~= r.dependencies);
}

} // verus!
