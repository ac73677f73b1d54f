//! What holds of every report: complexity against the branching
//! constructs of the tree, imports against use declarations, and the
//! io tag against the calls recorded.

use vstd::prelude::*;
use crate::analyzer::{
    function_view, impl_view, profile_arms, profile_member, profile_members, profile_node,
    profile_nodes, report_of, trait_view,
};
use crate::report::{io_tag, Profile, ReportView};
use crate::syntax::{Arm, File, ItemFn, Member, Node};
use crate::text::is_io_text;

verus! {

/// A branching construct of the tree.
pub enum BranchSite {
    Conditional,
    Loop,
    Match { arms: nat },
}

/// What a branching construct adds to the complexity.
pub open spec fn site_weight(s: BranchSite) -> nat {
    match s {
        BranchSite::Match { arms } => arms,
        _ => 1,
    }
}

pub open spec fn total_weight(sites: Seq<BranchSite>) -> nat
    decreases sites.len(),
{
    if sites.len() == 0 {
        0
    } else {
        total_weight(sites.drop_last()) + site_weight(sites.last())
    }
}

/// The branching constructs of a run of nodes, in document order.
pub open spec fn sites_nodes(nodes: Seq<Node>) -> Seq<BranchSite>
    decreases nodes,
{
    if nodes.len() == 0 {
        seq![]
    } else {
        sites_nodes(nodes.drop_last()) + sites_node(nodes.last())
    }
}

pub open spec fn sites_arms(arms: Seq<Arm>) -> Seq<BranchSite>
    decreases arms,
{
    if arms.len() == 0 {
        seq![]
    } else {
        sites_arms(arms.drop_last()) + sites_nodes(arms.last().nodes@)
    }
}

pub open spec fn sites_members(members: Seq<Member>) -> Seq<BranchSite>
    decreases members,
{
    if members.len() == 0 {
        seq![]
    } else {
        sites_members(members.drop_last()) + sites_member(members.last())
    }
}

pub open spec fn sites_member(m: Member) -> Seq<BranchSite>
    decreases m,
{
    match m {
        Member::Function(_, body) => sites_nodes(body@),
        Member::Other => seq![],
    }
}

pub open spec fn sites_node(n: Node) -> Seq<BranchSite>
    decreases n,
{
    match n {
        Node::Fn(f) => sites_nodes(f.body@),
        Node::Trait(t) => sites_members(t.members@),
        Node::Impl(i) => sites_members(i.members@),
        Node::If(c) => seq![BranchSite::Conditional] + sites_nodes(c@),
        Node::Loop(c) => seq![BranchSite::Loop] + sites_nodes(c@),
        Node::Match(m) => seq![BranchSite::Match { arms: m.arms@.len() }] + sites_nodes(
            m.scrutinee@,
        ) + sites_arms(m.arms@),
        Node::Call(c) => sites_nodes(c.children@),
        Node::Other(c) => sites_nodes(c@),
        _ => seq![],
    }
}

/// The number of use declarations in a run of nodes, nested ones included.
pub open spec fn use_decls(nodes: Seq<Node>) -> nat
    decreases nodes,
{
    if nodes.len() == 0 {
        0
    } else {
        use_decls(nodes.drop_last()) + use_decls_node(nodes.last())
    }
}

pub open spec fn use_decls_arms(arms: Seq<Arm>) -> nat
    decreases arms,
{
    if arms.len() == 0 {
        0
    } else {
        use_decls_arms(arms.drop_last()) + use_decls(arms.last().nodes@)
    }
}

pub open spec fn use_decls_members(members: Seq<Member>) -> nat
    decreases members,
{
    if members.len() == 0 {
        0
    } else {
        use_decls_members(members.drop_last()) + use_decls_member(members.last())
    }
}

pub open spec fn use_decls_member(m: Member) -> nat
    decreases m,
{
    match m {
        Member::Function(_, body) => use_decls(body@),
        Member::Other => 0,
    }
}

pub open spec fn use_decls_node(n: Node) -> nat
    decreases n,
{
    match n {
        Node::Use(_) => 1,
        Node::Fn(f) => use_decls(f.body@),
        Node::Trait(t) => use_decls_members(t.members@),
        Node::Impl(i) => use_decls_members(i.members@),
        Node::If(c) => use_decls(c@),
        Node::Loop(c) => use_decls(c@),
        Node::Match(m) => use_decls(m.scrutinee@) + use_decls_arms(m.arms@),
        Node::Call(c) => use_decls(c.children@),
        Node::Other(c) => use_decls(c@),
        _ => 0,
    }
}

/// The io flag of a profile is set exactly when one of its recorded calls
/// reads as I/O.
pub open spec fn io_consistent(p: Profile) -> bool {
    p.io <==> exists|i: int|
        0 <= i < p.dependencies.len() && is_io_text(#[trigger] p.dependencies[i].function)
}

proof fn lemma_total_weight_add(a: Seq<BranchSite>, b: Seq<BranchSite>)
    ensures
        total_weight(a + b) == total_weight(a) + total_weight(b),
    decreases b.len(),
{
    if b.len() > 0 {
        assert((a + b).drop_last() =~= a + b.drop_last());
        lemma_total_weight_add(a, b.drop_last());
    } else {
        assert(a + b =~= a);
    }
}

proof fn lemma_io_consistent_followed_by(a: Profile, b: Profile)
    requires
        io_consistent(a),
        io_consistent(b),
    ensures
        io_consistent(a.followed_by(b)),
{
    let c = a.followed_by(b);
    if a.io {
        let i = choose|i: int|
            0 <= i < a.dependencies.len() && is_io_text(#[trigger] a.dependencies[i].function);
        assert(c.dependencies[i] == a.dependencies[i]);
    } else if b.io {
        let j = choose|j: int|
            0 <= j < b.dependencies.len() && is_io_text(#[trigger] b.dependencies[j].function);
        assert(c.dependencies[a.dependencies.len() + j] == b.dependencies[j]);
    }
    if exists|k: int|
        0 <= k < c.dependencies.len() && is_io_text(#[trigger] c.dependencies[k].function) {
        let k = choose|k: int|
            0 <= k < c.dependencies.len() && is_io_text(#[trigger] c.dependencies[k].function);
        if k < a.dependencies.len() {
            assert(c.dependencies[k] == a.dependencies[k]);
        } else {
            assert(c.dependencies[k] == b.dependencies[k - a.dependencies.len()]);
        }
    }
}

/// The three facts about one profile that the laws below rest on.
pub open spec fn census_holds(p: Profile, sites: Seq<BranchSite>, uses: nat) -> bool {
    &&& p.branches == total_weight(sites)
    &&& p.imports.len() == uses
    &&& io_consistent(p)
}

proof fn lemma_census_followed_by(
    a: Profile,
    sa: Seq<BranchSite>,
    ua: nat,
    b: Profile,
    sb: Seq<BranchSite>,
    ub: nat,
)
    requires
        census_holds(a, sa, ua),
        census_holds(b, sb, ub),
    ensures
        census_holds(a.followed_by(b), sa + sb, ua + ub),
{
    lemma_total_weight_add(sa, sb);
    lemma_io_consistent_followed_by(a, b);
}

proof fn lemma_census_nodes(nodes: Seq<Node>)
    ensures
        census_holds(profile_nodes(nodes), sites_nodes(nodes), use_decls(nodes)),
    decreases nodes,
{
    if nodes.len() > 0 {
        lemma_census_nodes(nodes.drop_last());
        lemma_census_node(nodes.last());
        lemma_census_followed_by(
            profile_nodes(nodes.drop_last()),
            sites_nodes(nodes.drop_last()),
            use_decls(nodes.drop_last()),
            profile_node(nodes.last()),
            sites_node(nodes.last()),
            use_decls_node(nodes.last()),
        );
    }
}

proof fn lemma_census_arms(arms: Seq<Arm>)
    ensures
        census_holds(profile_arms(arms), sites_arms(arms), use_decls_arms(arms)),
    decreases arms,
{
    if arms.len() > 0 {
        lemma_census_arms(arms.drop_last());
        lemma_census_nodes(arms.last().nodes@);
        lemma_census_followed_by(
            profile_arms(arms.drop_last()),
            sites_arms(arms.drop_last()),
            use_decls_arms(arms.drop_last()),
            profile_nodes(arms.last().nodes@),
            sites_nodes(arms.last().nodes@),
            use_decls(arms.last().nodes@),
        );
    }
}

proof fn lemma_census_members(members: Seq<Member>)
    ensures
        census_holds(
            profile_members(members),
            sites_members(members),
            use_decls_members(members),
        ),
    decreases members,
{
    if members.len() > 0 {
        lemma_census_members(members.drop_last());
        lemma_census_member(members.last());
        lemma_census_followed_by(
            profile_members(members.drop_last()),
            sites_members(members.drop_last()),
            use_decls_members(members.drop_last()),
            profile_member(members.last()),
            sites_member(members.last()),
            use_decls_member(members.last()),
        );
    }
}

proof fn lemma_census_member(m: Member)
    ensures
        census_holds(profile_member(m), sites_member(m), use_decls_member(m)),
    decreases m,
{
    match m {
        Member::Function(_, body) => lemma_census_nodes(body@),
        Member::Other => {},
    }
}

proof fn lemma_census_own(p: Profile, s: Seq<BranchSite>, u: nat)
    requires
        p.dependencies.len() == 0 ==> !p.io,
        p.dependencies.len() == 1 ==> (p.io == is_io_text(p.dependencies[0].function)),
        p.dependencies.len() <= 1,
        p.branches == total_weight(s),
        p.imports.len() == u,
    ensures
        census_holds(p, s, u),
{
}

proof fn lemma_census_node(n: Node)
    ensures
        census_holds(profile_node(n), sites_node(n), use_decls_node(n)),
    decreases n,
{
    let e = Profile::empty();
    match n {
        Node::Fn(f) => {
            let own = Profile { functions: seq![function_view(f)], ..e };
            lemma_census_own(own, seq![], 0);
            lemma_census_nodes(f.body@);
            lemma_census_followed_by(own, seq![], 0, profile_nodes(f.body@), sites_nodes(f.body@), use_decls(f.body@));
            assert(Seq::<BranchSite>::empty() + sites_nodes(f.body@) =~= sites_nodes(f.body@));
        },
        Node::If(c) | Node::Loop(c) => {
            let own = Profile { branches: 1, ..e };
            let s = sites_node(n).take(1);
            assert(total_weight(s) == total_weight(s.drop_last()) + site_weight(s.last()));
            assert(s.drop_last() =~= Seq::<BranchSite>::empty());
            lemma_census_own(own, s, 0);
            lemma_census_nodes(c@);
            lemma_census_followed_by(own, s, 0, profile_nodes(c@), sites_nodes(c@), use_decls(c@));
            assert(s + sites_nodes(c@) =~= sites_node(n));
        },
        Node::Match(m) => {
            let own = Profile { branches: m.arms@.len(), ..e };
            let s = seq![BranchSite::Match { arms: m.arms@.len() }];
            assert(total_weight(s) == total_weight(s.drop_last()) + site_weight(s.last()));
            assert(s.drop_last() =~= Seq::<BranchSite>::empty());
            lemma_census_own(own, s, 0);
            lemma_census_nodes(m.scrutinee@);
            lemma_census_arms(m.arms@);
            lemma_census_followed_by(own, s, 0, profile_nodes(m.scrutinee@), sites_nodes(m.scrutinee@), use_decls(m.scrutinee@));
            lemma_census_followed_by(
                own.followed_by(profile_nodes(m.scrutinee@)),
                s + sites_nodes(m.scrutinee@),
                use_decls(m.scrutinee@),
                profile_arms(m.arms@),
                sites_arms(m.arms@),
                use_decls_arms(m.arms@),
            );
        },
        Node::Call(c) => {
            let own = Profile {
                dependencies: seq![crate::report::DependencyView { function: c.text@, module: None }],
                io: is_io_text(c.text@),
                ..e
            };
            lemma_census_own(own, seq![], 0);
            lemma_census_nodes(c.children@);
            lemma_census_followed_by(own, seq![], 0, profile_nodes(c.children@), sites_nodes(c.children@), use_decls(c.children@));
            assert(Seq::<BranchSite>::empty() + sites_nodes(c.children@) =~= sites_nodes(c.children@));
        },
        Node::Other(c) => {
            lemma_census_nodes(c@);
        },
        Node::Trait(t) => {
            let own = Profile { traits: seq![trait_view(t)], ..e };
            lemma_census_own(own, seq![], 0);
            lemma_census_members(t.members@);
            lemma_census_followed_by(own, seq![], 0, profile_members(t.members@), sites_members(t.members@), use_decls_members(t.members@));
            assert(Seq::<BranchSite>::empty() + sites_members(t.members@) =~= sites_members(t.members@));
        },
        Node::Impl(i) => {
            let own = Profile { impls: seq![impl_view(i)], ..e };
            lemma_census_own(own, seq![], 0);
            lemma_census_members(i.members@);
            lemma_census_followed_by(own, seq![], 0, profile_members(i.members@), sites_members(i.members@), use_decls_members(i.members@));
            assert(Seq::<BranchSite>::empty() + sites_members(i.members@) =~= sites_members(i.members@));
        },
        Node::Use(u) => {
            lemma_census_own(profile_node(n), seq![], 1);
        },
        _ => {
            lemma_census_own(profile_node(n), seq![], 0);
        },
    }
}

/// Complexity is the baseline of one plus, for every branching construct
/// of the file, one per conditional or loop and one per arm of a match.
pub proof fn lemma_complexity_counts_branches(file: File)
    ensures
        report_of(file).complexity == 1 + total_weight(sites_nodes(file.items@)),
{
    lemma_census_nodes(file.items@);
}

/// A file with no conditional, loop or match has complexity one.
pub proof fn lemma_straight_line_complexity(file: File)
    requires
        sites_nodes(file.items@).len() == 0,
    ensures
        report_of(file).complexity == 1,
{
    lemma_complexity_counts_branches(file);
}

proof fn lemma_total_weight_single_match(k: nat)
    ensures
        total_weight(seq![BranchSite::Match { arms: k }]) == k,
{
    let s = seq![BranchSite::Match { arms: k }];
    assert(s.drop_last() =~= Seq::<BranchSite>::empty());
    assert(total_weight(s) == total_weight(s.drop_last()) + site_weight(s.last()));
}

/// A file whose only branching construct is one match with `n` arms has
/// complexity `1 + n`.
pub proof fn lemma_single_match_complexity(file: File, n: nat)
    requires
        sites_nodes(file.items@) == seq![BranchSite::Match { arms: n }],
    ensures
        report_of(file).complexity == 1 + n,
{
    lemma_complexity_counts_branches(file);
    lemma_total_weight_single_match(n);
}

/// Visiting one node adds to the complexity one per conditional or loop in
/// it and one per arm of each match in it.
pub proof fn lemma_node_complexity(r: ReportView, n: Node)
    ensures
        r.absorb(profile_node(n)).complexity == r.complexity + total_weight(sites_node(n)),
{
    lemma_census_node(n);
}

/// Visiting a node whose only branching construct is one match with `k`
/// arms adds `k` to the complexity, not a flat one.
pub proof fn lemma_single_match_node(r: ReportView, n: Node, k: nat)
    requires
        sites_node(n) == seq![BranchSite::Match { arms: k }],
    ensures
        r.absorb(profile_node(n)).complexity == r.complexity + k,
{
    lemma_node_complexity(r, n);
    lemma_total_weight_single_match(k);
}

/// Visiting the same node from the same report gives the same report.
pub proof fn lemma_visit_deterministic(r1: ReportView, r2: ReportView, a: Node, b: Node)
    requires
        r1 == r2,
        a == b,
    ensures
        r1.absorb(profile_node(a)) == r2.absorb(profile_node(b)),
{
}

/// The report depends on the syntax tree alone: two walks of the same tree
/// give the same report.
pub proof fn lemma_report_deterministic(a: File, b: File)
    requires
        a == b,
    ensures
        report_of(a) == report_of(b),
{
}

/// A function with no parameters is recorded, right after the records
/// already in the report, with arity zero and an empty parameter list.
pub proof fn lemma_nullary_function(r: ReportView, f: ItemFn)
    requires
        f.params@.len() == 0,
    ensures
        r.absorb(profile_node(Node::Fn(f))).functions.len() > r.functions.len(),
        r.absorb(profile_node(Node::Fn(f))).functions[r.functions.len() as int] == function_view(f),
        function_view(f).arity == 0,
        function_view(f).params == Seq::<Seq<char>>::empty(),
{
    assert(function_view(f).params =~= Seq::<Seq<char>>::empty());
    let fs = r.absorb(profile_node(Node::Fn(f))).functions;
    assert(fs =~= r.functions + seq![function_view(f)] + profile_nodes(f.body@).functions);
    assert(fs[r.functions.len() as int] == function_view(f));
}

/// There is one import entry per use declaration, however many names each
/// one brings in.
pub proof fn lemma_import_count(file: File)
    ensures
        report_of(file).imports.len() == use_decls(file.items@),
{
    lemma_census_nodes(file.items@);
}

/// The tag sequence holds the io tag exactly once when some recorded call
/// reads as I/O, however many do, and is empty otherwise.
pub proof fn lemma_io_tag_once(file: File)
    ensures
        report_of(file).side_effects.len() <= 1,
        (exists|i: int|
            0 <= i < report_of(file).dependencies.len() && is_io_text(
                #[trigger] report_of(file).dependencies[i].function,
            )) ==> report_of(file).side_effects == seq![io_tag()],
        !(exists|i: int|
            0 <= i < report_of(file).dependencies.len() && is_io_text(
                #[trigger] report_of(file).dependencies[i].function,
            )) ==> report_of(file).side_effects.len() == 0,
{
    lemma_census_nodes(file.items@);
    let p = profile_nodes(file.items@);
    assert(report_of(file).dependencies =~= p.dependencies);
}

} // verus!
