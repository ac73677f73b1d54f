//! The single depth-first walk that fills a [`ParseResult`].

use vstd::prelude::*;
use crate::report::{
    strings_view, DependencyInfo, DependencyView, FunctionInfo, FunctionView, ParseResult,
    Profile, ReportView, TypeInfo, TypeKind, TypeView, lemma_absorb_empty,
    lemma_absorb_followed_by,
};
use crate::syntax::{
    Arm, ExprCall, ExprMatch, File, ItemFn, ItemImpl, ItemStruct, ItemTrait, Member, Node, Param,
    SelfType, Visibility,
};
use crate::text::{is_io_call, is_io_text};

verus! {

pub open spec fn is_public_vis(v: Visibility) -> bool {
    v == Visibility::Public
}

/// A parameter as the report writes it: the receiver as `self`.
pub open spec fn param_text(p: Param) -> Seq<char> {
    match p {
        Param::Receiver => "self"@,
        Param::Typed(t) => t@,
    }
}

/// The names of the named fields, in order.
pub open spec fn named_fields(fields: Seq<Option<String>>) -> Seq<Seq<char>>
    decreases fields.len(),
{
    if fields.len() == 0 {
        seq![]
    } else {
        named_fields(fields.drop_last()) + match fields.last() {
            Some(n) => seq![n@],
            None => Seq::<Seq<char>>::empty(),
        }
    }
}

/// The names of the function-like members, in order.
pub open spec fn member_names(members: Seq<Member>) -> Seq<Seq<char>>
    decreases members.len(),
{
    if members.len() == 0 {
        seq![]
    } else {
        member_names(members.drop_last()) + match members.last() {
            Member::Function(n, _) => seq![n@],
            Member::Other => Seq::<Seq<char>>::empty(),
        }
    }
}

/// The last segment of a named path, else `unknown`.
pub open spec fn impl_name(t: SelfType) -> Seq<char> {
    match t {
        SelfType::Path(segs) => if segs@.len() > 0 {
            segs@.last()@
        } else {
            "unknown"@
        },
        SelfType::Other => "unknown"@,
    }
}

pub open spec fn function_view(f: ItemFn) -> FunctionView {
    FunctionView {
        name: f.name@,
        arity: f.params@.len(),
        params: f.params@.map_values(|p: Param| param_text(p)),
        public: is_public_vis(f.vis),
        async_fn: if f.is_async {
            Some(true)
        } else {
            None
        },
    }
}

pub open spec fn struct_view(s: ItemStruct) -> TypeView {
    TypeView {
        name: s.name@,
        kind: TypeKind::Struct,
        public: is_public_vis(s.vis),
        fields: Some(named_fields(s.fields@)),
        methods: None,
    }
}

pub open spec fn trait_view(t: ItemTrait) -> TypeView {
    TypeView {
        name: t.name@,
        kind: TypeKind::Trait,
        public: is_public_vis(t.vis),
        fields: None,
        methods: Some(member_names(t.members@)),
    }
}

pub open spec fn impl_view(i: ItemImpl) -> TypeView {
    TypeView {
        name: impl_name(i.self_ty),
        kind: TypeKind::Impl,
        public: false,
        fields: None,
        methods: Some(member_names(i.members@)),
    }
}

/// A profile that adds `k` to the branch count and nothing else.
pub open spec fn branch_profile(k: nat) -> Profile {
    Profile { branches: k, ..Profile::empty() }
}

/// What a run of nodes contributes, in document order.
pub open spec fn profile_nodes(nodes: Seq<Node>) -> Profile
    decreases nodes,
{
    if nodes.len() == 0 {
        Profile::empty()
    } else {
        profile_nodes(nodes.drop_last()).followed_by(profile_node(nodes.last()))
    }
}

/// What match arms contribute, in document order.
pub open spec fn profile_arms(arms: Seq<Arm>) -> Profile
    decreases arms,
{
    if arms.len() == 0 {
        Profile::empty()
    } else {
        profile_arms(arms.drop_last()).followed_by(profile_nodes(arms.last().nodes@))
    }
}

/// What the bodies of trait or impl members contribute, in document order.
pub open spec fn profile_members(members: Seq<Member>) -> Profile
    decreases members,
{
    if members.len() == 0 {
        Profile::empty()
    } else {
        profile_members(members.drop_last()).followed_by(profile_member(members.last()))
    }
}

/// What the body of one trait or impl member contributes.
pub open spec fn profile_member(m: Member) -> Profile
    decreases m,
{
    match m {
        Member::Function(_, body) => profile_nodes(body@),
        Member::Other => Profile::empty(),
    }
}

/// What one node contributes: its own record first, then what the nodes
/// nested in it contribute.
pub open spec fn profile_node(n: Node) -> Profile
    decreases n,
{
    match n {
        Node::Fn(f) => Profile { functions: seq![function_view(f)], ..Profile::empty() }.followed_by(
            profile_nodes(f.body@),
        ),
        Node::Struct(s) => Profile { structs: seq![struct_view(s)], ..Profile::empty() },
        Node::Trait(t) => Profile { traits: seq![trait_view(t)], ..Profile::empty() }.followed_by(
            profile_members(t.members@),
        ),
        Node::Impl(i) => Profile { impls: seq![impl_view(i)], ..Profile::empty() }.followed_by(
            profile_members(i.members@),
        ),
        Node::Use(u) => Profile { imports: seq![u@], ..Profile::empty() },
        Node::If(c) => branch_profile(1).followed_by(profile_nodes(c@)),
        Node::Match(m) => branch_profile(m.arms@.len()).followed_by(
            profile_nodes(m.scrutinee@),
        ).followed_by(profile_arms(m.arms@)),
        Node::Loop(c) => branch_profile(1).followed_by(profile_nodes(c@)),
        Node::Call(c) => Profile {
            dependencies: seq![DependencyView { function: c.text@, module: None }],
            io: is_io_text(c.text@),
            ..Profile::empty()
        }.followed_by(profile_nodes(c.children@)),
        Node::Other(c) => profile_nodes(c@),
    }
}

/// The report of a whole file.
pub open spec fn report_of(file: File) -> ReportView {
    ReportView::initial().absorb(profile_nodes(file.items@))
}

/// Walks a whole file once and returns its report. Returns `None` exactly
/// when the complexity would not fit in a `u64`.
pub fn analyze(file: &File) -> (r: Option<ParseResult>)
    ensures
        r is Some <==> report_of(*file).complexity <= u64::MAX,
        r matches Some(res) ==> res@ == report_of(*file),
{
    let mut v = RustVisitor::new();
    if v.visit_nodes(&file.items) {
        Some(v.result)
    } else {
        None
    }
}

/// A prefix of a run contributes no more branches than the whole run.
proof fn lemma_prefix_branches(nodes: Seq<Node>, j: int)
    requires
        0 <= j <= nodes.len(),
    ensures
        profile_nodes(nodes.take(j)).branches <= profile_nodes(nodes).branches,
    decreases nodes.len(),
{
    if j == nodes.len() {
        assert(nodes.take(j) =~= nodes);
    } else {
        assert(nodes.drop_last().take(j) =~= nodes.take(j));
        lemma_prefix_branches(nodes.drop_last(), j);
    }
}

proof fn lemma_prefix_arm_branches(arms: Seq<Arm>, j: int)
    requires
        0 <= j <= arms.len(),
    ensures
        profile_arms(arms.take(j)).branches <= profile_arms(arms).branches,
    decreases arms.len(),
{
    if j == arms.len() {
        assert(arms.take(j) =~= arms);
    } else {
        assert(arms.drop_last().take(j) =~= arms.take(j));
        lemma_prefix_arm_branches(arms.drop_last(), j);
    }
}

proof fn lemma_prefix_member_branches(members: Seq<Member>, j: int)
    requires
        0 <= j <= members.len(),
    ensures
        profile_members(members.take(j)).branches <= profile_members(members).branches,
    decreases members.len(),
{
    if j == members.len() {
        assert(members.take(j) =~= members);
    } else {
        assert(members.drop_last().take(j) =~= members.take(j));
        lemma_prefix_member_branches(members.drop_last(), j);
    }
}

fn named_field_list(fields: &Vec<Option<String>>) -> (r: Vec<String>)
    ensures
        strings_view(r@) == named_fields(fields@),
{
    let mut r: Vec<String> = Vec::new();
    let mut i: usize = 0;
    while i < fields.len()
        invariant
            i <= fields.len(),
            strings_view(r@) == named_fields(fields@.take(i as int)),
        decreases fields.len() - i,
    {
        assert(fields@.take(i + 1).drop_last() =~= fields@.take(i as int));
        match &fields[i] {
            Some(n) => {
                r.push(n.clone());
            },
            None => {},
        }
        i += 1;
        assert(strings_view(r@) =~= named_fields(fields@.take(i as int)));
    }
    assert(fields@.take(i as int) =~= fields@);
    r
}

fn method_name_list(members: &Vec<Member>) -> (r: Vec<String>)
    ensures
        strings_view(r@) == member_names(members@),
{
    let mut r: Vec<String> = Vec::new();
    let mut i: usize = 0;
    while i < members.len()
        invariant
            i <= members.len(),
            strings_view(r@) == member_names(members@.take(i as int)),
        decreases members.len() - i,
    {
        assert(members@.take(i + 1).drop_last() =~= members@.take(i as int));
        match &members[i] {
            Member::Function(n, _) => {
                r.push(n.clone());
            },
            Member::Other => {},
        }
        i += 1;
        assert(strings_view(r@) =~= member_names(members@.take(i as int)));
    }
    assert(members@.take(i as int) =~= members@);
    r
}

/// The accumulator of one walk over a syntax tree.
#[derive(Debug)]
pub struct RustVisitor {
    pub result: ParseResult,
}

impl RustVisitor {
    /// A visitor whose report is empty, with complexity at its baseline.
    pub fn new() -> (v: Self)
        ensures
            v.result@ == ReportView::initial(),
    {
        let v = RustVisitor {
            result: ParseResult {
                functions: Vec::new(),
                structs: Vec::new(),
                traits: Vec::new(),
                impls: Vec::new(),
                imports: Vec::new(),
                dependencies: Vec::new(),
                side_effects: Vec::new(),
                complexity: 1,
            },
        };
        assert(v.result@.functions =~= seq![]);
        assert(v.result@.structs =~= seq![]);
        assert(v.result@.traits =~= seq![]);
        assert(v.result@.impls =~= seq![]);
        assert(v.result@.imports =~= seq![]);
        assert(v.result@.dependencies =~= seq![]);
        assert(v.result@.side_effects =~= seq![]);
        v
    }

    pub fn is_public(vis: &Visibility) -> (r: bool)
        ensures
            r == is_public_vis(*vis),
    {
        matches!(vis, Visibility::Public)
    }

    /// Visits a run of nodes in order. Returns false, with the report
    /// partly filled, exactly when the complexity would pass `u64::MAX`.
    pub fn visit_nodes(&mut self, nodes: &Vec<Node>) -> (ok: bool)
        requires
            old(self).result@.wf(),
        ensures
            final(self).result@.wf(),
            old(self).result@.keeps_tags(final(self).result@),
            ok == (old(self).result@.complexity + profile_nodes(nodes@).branches <= u64::MAX),
            ok ==> final(self).result@ == old(self).result@.absorb(profile_nodes(nodes@)),
        decreases nodes@,
    {
        let ghost start = self.result@;
        proof {
            assert(nodes@.take(0) =~= Seq::<Node>::empty());
            lemma_absorb_empty(start);
        }
        let mut i: usize = 0;
        while i < nodes.len()
            invariant
                i <= nodes.len(),
                start == old(self).result@,
                start.wf(),
                self.result@.wf(),
                start.keeps_tags(self.result@),
                self.result@ == start.absorb(profile_nodes(nodes@.take(i as int))),
                start.complexity + profile_nodes(nodes@.take(i as int)).branches <= u64::MAX,
            decreases nodes.len() - i,
        {
            proof {
                assert(nodes@.take(i + 1).drop_last() =~= nodes@.take(i as int));
                lemma_absorb_followed_by(
                    start,
                    profile_nodes(nodes@.take(i as int)),
                    profile_node(nodes@[i as int]),
                );
            }
            let ok = self.visit_node(&nodes[i]);
            if !ok {
                proof {
                    assert(nodes@.take(i + 1).last() == nodes@[i as int]);
                    assert(profile_nodes(nodes@.take(i + 1)).branches == profile_nodes(
                        nodes@.take(i as int),
                    ).branches + profile_node(nodes@[i as int]).branches);
                    lemma_prefix_branches(nodes@, i + 1);
                }
                return false;
            }
            i += 1;
        }
        assert(nodes@.take(i as int) =~= nodes@);
        true
    }

    /// Visits match arms in order, as [`Self::visit_nodes`] does.
    pub fn visit_arms(&mut self, arms: &Vec<Arm>) -> (ok: bool)
        requires
            old(self).result@.wf(),
        ensures
            final(self).result@.wf(),
            old(self).result@.keeps_tags(final(self).result@),
            ok == (old(self).result@.complexity + profile_arms(arms@).branches <= u64::MAX),
            ok ==> final(self).result@ == old(self).result@.absorb(profile_arms(arms@)),
        decreases arms@,
    {
        let ghost start = self.result@;
        proof {
            assert(arms@.take(0) =~= Seq::<Arm>::empty());
            lemma_absorb_empty(start);
        }
        let mut i: usize = 0;
        while i < arms.len()
            invariant
                i <= arms.len(),
                start == old(self).result@,
                start.wf(),
                self.result@.wf(),
                start.keeps_tags(self.result@),
                self.result@ == start.absorb(profile_arms(arms@.take(i as int))),
                start.complexity + profile_arms(arms@.take(i as int)).branches <= u64::MAX,
            decreases arms.len() - i,
        {
            proof {
                assert(arms@.take(i + 1).drop_last() =~= arms@.take(i as int));
                lemma_absorb_followed_by(
                    start,
                    profile_arms(arms@.take(i as int)),
                    profile_nodes(arms@[i as int].nodes@),
                );
            }
            let ok = self.visit_nodes(&arms[i].nodes);
            if !ok {
                proof {
                    assert(arms@.take(i + 1).last() == arms@[i as int]);
                    assert(profile_arms(arms@.take(i + 1)).branches == profile_arms(
                        arms@.take(i as int),
                    ).branches + profile_nodes(arms@[i as int].nodes@).branches);
                    lemma_prefix_arm_branches(arms@, i + 1);
                }
                return false;
            }
            i += 1;
        }
        assert(arms@.take(i as int) =~= arms@);
        true
    }

    /// Visits one node: records it, then visits what is nested in it.
    pub fn visit_node(&mut self, node: &Node) -> (ok: bool)
        requires
            old(self).result@.wf(),
        ensures
            final(self).result@.wf(),
            old(self).result@.keeps_tags(final(self).result@),
            ok == (old(self).result@.complexity + profile_node(*node).branches <= u64::MAX),
            ok ==> final(self).result@ == old(self).result@.absorb(profile_node(*node)),
        decreases node,
    {
        match node {
            Node::Fn(f) => self.visit_item_fn(f),
            Node::Struct(s) => {
                self.visit_item_struct(s);
                true
            },
            Node::Trait(t) => self.visit_item_trait(t),
            Node::Impl(i) => self.visit_item_impl(i),
            Node::Use(u) => {
                let ghost r0 = self.result@;
                self.result.imports.push(u.clone());
                assert(self.result@.imports =~= r0.imports + seq![u@]);
                assert(self.result@ =~= r0.absorb(profile_node(*node)));
                true
            },
            Node::If(c) | Node::Loop(c) => {
                let ghost r0 = self.result@;
                if !self.add_branches(1) {
                    return false;
                }
                proof {
                    lemma_absorb_followed_by(r0, branch_profile(1), profile_nodes(c@));
                }
                self.visit_nodes(c)
            },
            Node::Match(m) => self.visit_expr_match(m),
            Node::Call(c) => self.visit_expr_call(c),
            Node::Other(c) => self.visit_nodes(c),
        }
    }

    /// Adds `k` to the complexity, unless that would pass `u64::MAX`.
    fn add_branches(&mut self, k: u64) -> (ok: bool)
        requires
            old(self).result@.wf(),
        ensures
            ok == (old(self).result@.complexity + k <= u64::MAX),
            ok ==> final(self).result@ == old(self).result@.absorb(branch_profile(k as nat)),
            !ok ==> final(self).result@ == old(self).result@,
            final(self).result@.wf(),
            old(self).result@.keeps_tags(final(self).result@),
    {
        let ghost r0 = self.result@;
        if k > u64::MAX - self.result.complexity {
            return false;
        }
        self.result.complexity = self.result.complexity + k;
        assert(self.result@ =~= r0.absorb(branch_profile(k as nat)));
        true
    }

    /// Records a function, then visits its body.
    pub fn visit_item_fn(&mut self, f: &ItemFn) -> (ok: bool)
        requires
            old(self).result@.wf(),
        ensures
            final(self).result@.wf(),
            old(self).result@.keeps_tags(final(self).result@),
            ok == (old(self).result@.complexity + profile_node(Node::Fn(*f)).branches <= u64::MAX),
            ok ==> final(self).result@ == old(self).result@.absorb(profile_node(Node::Fn(*f))),
        decreases *f,
    {
        let ghost r0 = self.result@;
        let name = f.name.clone();
        let arity = f.params.len();
        let public = Self::is_public(&f.vis);
        let mut params: Vec<String> = Vec::new();
        let mut i: usize = 0;
        while i < f.params.len()
            invariant
                i <= f.params.len(),
                params@.len() == i,
                forall|k: int| 0 <= k < i ==> #[trigger] params@[k]@ == param_text(f.params@[k]),
            decreases f.params.len() - i,
        {
            let t = match &f.params[i] {
                Param::Receiver => "self".to_string(),
                Param::Typed(t) => t.clone(),
            };
            params.push(t);
            i += 1;
        }
        assert(strings_view(params@) =~= f.params@.map_values(|p: Param| param_text(p)));
        let async_fn = if f.is_async {
            Some(true)
        } else {
            None
        };
        let info = FunctionInfo { name, arity, params, public, async_fn };
        assert(info@ == function_view(*f));
        self.result.functions.push(info);
        let ghost own = Profile { functions: seq![function_view(*f)], ..Profile::empty() };
        assert(self.result@.functions =~= r0.functions + own.functions);
        assert(self.result@ =~= r0.absorb(own));
        proof {
            lemma_absorb_followed_by(r0, own, profile_nodes(f.body@));
        }
        self.visit_nodes(&f.body)
    }

    /// Records a struct with its named fields.
    pub fn visit_item_struct(&mut self, s: &ItemStruct)
        requires
            old(self).result@.wf(),
        ensures
            final(self).result@.wf(),
            old(self).result@.keeps_tags(final(self).result@),
            final(self).result@ == old(self).result@.absorb(profile_node(Node::Struct(*s))),
            old(self).result@.complexity == final(self).result@.complexity,
    {
        let ghost r0 = self.result@;
        let info = TypeInfo {
            name: s.name.clone(),
            kind: TypeKind::Struct,
            public: Self::is_public(&s.vis),
            fields: Some(named_field_list(&s.fields)),
            methods: None,
        };
        assert(info@ == struct_view(*s));
        self.result.structs.push(info);
        assert(self.result@.structs =~= r0.structs + seq![struct_view(*s)]);
        assert(self.result@ =~= r0.absorb(profile_node(Node::Struct(*s))));
    }

    /// Records a trait with the names of its function-like members, then
    /// visits the default bodies.
    pub fn visit_item_trait(&mut self, t: &ItemTrait) -> (ok: bool)
        requires
            old(self).result@.wf(),
        ensures
            final(self).result@.wf(),
            old(self).result@.keeps_tags(final(self).result@),
            ok == (old(self).result@.complexity + profile_node(Node::Trait(*t)).branches
                <= u64::MAX),
            ok ==> final(self).result@ == old(self).result@.absorb(profile_node(Node::Trait(*t))),
        decreases *t,
    {
        let ghost r0 = self.result@;
        let info = TypeInfo {
            name: t.name.clone(),
            kind: TypeKind::Trait,
            public: Self::is_public(&t.vis),
            fields: None,
            methods: Some(method_name_list(&t.members)),
        };
        assert(info@ == trait_view(*t));
        self.result.traits.push(info);
        let ghost own = Profile { traits: seq![trait_view(*t)], ..Profile::empty() };
        assert(self.result@.traits =~= r0.traits + own.traits);
        assert(self.result@ =~= r0.absorb(own));
        proof {
            lemma_absorb_followed_by(r0, own, profile_members(t.members@));
        }
        self.visit_members(&t.members)
    }

    /// Records an implementation block under the last segment of its
    /// type's path, or under `unknown`, then visits the method bodies.
    pub fn visit_item_impl(&mut self, i: &ItemImpl) -> (ok: bool)
        requires
            old(self).result@.wf(),
        ensures
            final(self).result@.wf(),
            old(self).result@.keeps_tags(final(self).result@),
            ok == (old(self).result@.complexity + profile_node(Node::Impl(*i)).branches
                <= u64::MAX),
            ok ==> final(self).result@ == old(self).result@.absorb(profile_node(Node::Impl(*i))),
        decreases *i,
    {
        let ghost r0 = self.result@;
        let name = match &i.self_ty {
            SelfType::Path(segs) => if segs.len() > 0 {
                segs[segs.len() - 1].clone()
            } else {
                "unknown".to_string()
            },
            SelfType::Other => "unknown".to_string(),
        };
        let info = TypeInfo {
            name,
            kind: TypeKind::Impl,
            public: false,
            fields: None,
            methods: Some(method_name_list(&i.members)),
        };
        assert(info@ == impl_view(*i));
        self.result.impls.push(info);
        let ghost own = Profile { impls: seq![impl_view(*i)], ..Profile::empty() };
        assert(self.result@.impls =~= r0.impls + own.impls);
        assert(self.result@ =~= r0.absorb(own));
        proof {
            lemma_absorb_followed_by(r0, own, profile_members(i.members@));
        }
        self.visit_members(&i.members)
    }

    /// Visits the body of one trait or impl member.
    pub fn visit_member(&mut self, m: &Member) -> (ok: bool)
        requires
            old(self).result@.wf(),
        ensures
            final(self).result@.wf(),
            old(self).result@.keeps_tags(final(self).result@),
            ok == (old(self).result@.complexity + profile_member(*m).branches <= u64::MAX),
            ok ==> final(self).result@ == old(self).result@.absorb(profile_member(*m)),
        decreases m,
    {
        match m {
            Member::Function(_, body) => self.visit_nodes(body),
            Member::Other => {
                proof {
                    lemma_absorb_empty(self.result@);
                }
                true
            },
        }
    }

    /// Visits the bodies of trait or impl members in order, as
    /// [`Self::visit_nodes`] does.
    pub fn visit_members(&mut self, members: &Vec<Member>) -> (ok: bool)
        requires
            old(self).result@.wf(),
        ensures
            final(self).result@.wf(),
            old(self).result@.keeps_tags(final(self).result@),
            ok == (old(self).result@.complexity + profile_members(members@).branches
                <= u64::MAX),
            ok ==> final(self).result@ == old(self).result@.absorb(profile_members(members@)),
        decreases members@,
    {
        let ghost start = self.result@;
        proof {
            assert(members@.take(0) =~= Seq::<Member>::empty());
            lemma_absorb_empty(start);
        }
        let mut i: usize = 0;
        while i < members.len()
            invariant
                i <= members.len(),
                start == old(self).result@,
                start.wf(),
                self.result@.wf(),
                start.keeps_tags(self.result@),
                self.result@ == start.absorb(profile_members(members@.take(i as int))),
                start.complexity + profile_members(members@.take(i as int)).branches <= u64::MAX,
            decreases members.len() - i,
        {
            proof {
                assert(members@.take(i + 1).drop_last() =~= members@.take(i as int));
                lemma_absorb_followed_by(
                    start,
                    profile_members(members@.take(i as int)),
                    profile_member(members@[i as int]),
                );
            }
            let ok = self.visit_member(&members[i]);
            if !ok {
                proof {
                    assert(members@.take(i + 1).last() == members@[i as int]);
                    assert(profile_members(members@.take(i + 1)).branches == profile_members(
                        members@.take(i as int),
                    ).branches + profile_member(members@[i as int]).branches);
                    lemma_prefix_member_branches(members@, i + 1);
                }
                return false;
            }
            i += 1;
        }
        assert(members@.take(i as int) =~= members@);
        true
    }

    /// Adds one per arm to the complexity, then visits the scrutinee and
    /// the arms.
    pub fn visit_expr_match(&mut self, m: &ExprMatch) -> (ok: bool)
        requires
            old(self).result@.wf(),
        ensures
            final(self).result@.wf(),
            old(self).result@.keeps_tags(final(self).result@),
            ok == (old(self).result@.complexity + profile_node(Node::Match(*m)).branches
                <= u64::MAX),
            ok ==> final(self).result@ == old(self).result@.absorb(profile_node(Node::Match(*m))),
        decreases *m,
    {
        let ghost r0 = self.result@;
        let ghost own = branch_profile(m.arms@.len());
        if m.arms.len() as u128 > u64::MAX as u128 {
            return false;
        }
        if !self.add_branches(m.arms.len() as u64) {
            return false;
        }
        proof {
            lemma_absorb_followed_by(r0, own, profile_nodes(m.scrutinee@));
        }
        if !self.visit_nodes(&m.scrutinee) {
            return false;
        }
        proof {
            lemma_absorb_followed_by(
                r0,
                own.followed_by(profile_nodes(m.scrutinee@)),
                profile_arms(m.arms@),
            );
        }
        self.visit_arms(&m.arms)
    }

    /// Records a call by its text, tags the report if the text looks like
    /// I/O, then visits the callee and the arguments.
    pub fn visit_expr_call(&mut self, c: &ExprCall) -> (ok: bool)
        requires
            old(self).result@.wf(),
        ensures
            final(self).result@.wf(),
            old(self).result@.keeps_tags(final(self).result@),
            ok == (old(self).result@.complexity + profile_node(Node::Call(*c)).branches
                <= u64::MAX),
            ok ==> final(self).result@ == old(self).result@.absorb(profile_node(Node::Call(*c))),
        decreases *c,
    {
        let ghost r0 = self.result@;
        let ghost own = Profile {
            dependencies: seq![DependencyView { function: c.text@, module: None }],
            io: is_io_text(c.text@),
            ..Profile::empty()
        };
        if is_io_call(c.text.as_str()) && self.result.side_effects.len() == 0 {
            self.result.side_effects.push("io_operation".to_string());
        }
        self.result.dependencies.push(DependencyInfo { function: c.text.clone(), module: None });
        assert(self.result@.dependencies =~= r0.dependencies + own.dependencies);
        assert(self.result@.side_effects =~= r0.absorb(own).side_effects);
        assert(self.result@ =~= r0.absorb(own));
        proof {
            lemma_absorb_followed_by(r0, own, profile_nodes(c.children@));
        }
        self.visit_nodes(&c.children)
    }
}

} // verus!
