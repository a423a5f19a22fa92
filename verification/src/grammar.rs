use vstd::prelude::*;

use crate::name_gen::NameGen;

verus! {

/// Mathematical model of one rule body: the same tree as [`RuleBody`], with
/// sequences and character strings in place of vectors and heap strings.
pub enum BodyView {
    Repeat { content: Box<BodyView> },
    Choice { members: Seq<BodyView> },
    Sequence { members: Seq<BodyView> },
    PrecLeft { content: Box<BodyView> },
    PrecRight { content: Box<BodyView> },
    Symbol { name: Seq<char> },
    String { value: Seq<char> },
    Pattern { value: Seq<char> },
}

/// One rule body: repetition, ordered choice between alternatives, an ordered
/// sequence, a precedence annotation (left or right), a reference to another
/// rule by name, a string literal, or a regular-expression pattern.
pub enum RuleBody {
    Repeat { content: Box<RuleBody> },
    Choice { members: Vec<RuleBody> },
    Sequence { members: Vec<RuleBody> },
    PrecLeft { content: Box<RuleBody> },
    PrecRight { content: Box<RuleBody> },
    Symbol { name: String },
    String { value: String },
    Pattern { value: String },
}

/// The models of the bodies in a member list, in order.
pub open spec fn bodies_view(ms: Seq<RuleBody>) -> Seq<BodyView>
    decreases ms,
{
    Seq::new(
        ms.len(),
        |i: int|
            if 0 <= i < ms.len() {
                body_view(ms[i])
            } else {
                arbitrary()
            },
    )
}

/// The model of a body: the same tree with every vector read as a sequence.
pub open spec fn body_view(b: RuleBody) -> BodyView
    decreases b,
{
    match b {
        RuleBody::Repeat { content } => BodyView::Repeat { content: Box::new(body_view(*content)) },
        RuleBody::Choice { members } => BodyView::Choice { members: bodies_view(members@) },
        RuleBody::Sequence { members } => BodyView::Sequence { members: bodies_view(members@) },
        RuleBody::PrecLeft { content } => BodyView::PrecLeft {
            content: Box::new(body_view(*content)),
        },
        RuleBody::PrecRight { content } => BodyView::PrecRight {
            content: Box::new(body_view(*content)),
        },
        RuleBody::Symbol { name } => BodyView::Symbol { name: name@ },
        RuleBody::String { value } => BodyView::String { value: value@ },
        RuleBody::Pattern { value } => BodyView::Pattern { value: value@ },
    }
}

impl View for RuleBody {
    type V = BodyView;

    open spec fn view(&self) -> BodyView {
        body_view(*self)
    }
}

/// A body is terminal when it is a symbol reference or a lexical literal.
pub open spec fn spec_is_terminal(b: BodyView) -> bool {
    match b {
        BodyView::Symbol { .. } => true,
        BodyView::String { .. } => true,
        BodyView::Pattern { .. } => true,
        _ => false,
    }
}

impl RuleBody {
    /// True iff the body is a `Symbol`, `String` or `Pattern` leaf.
    pub fn is_terminal(&self) -> (r: bool)
        ensures
            r == spec_is_terminal(self@),
    {
        match self {
            RuleBody::Symbol { .. } => true,
            RuleBody::String { .. } => true,
            RuleBody::Pattern { .. } => true,
            _ => false,
        }
    }

    /// True iff the body is a `Choice` node.
    pub fn is_choice(&self) -> (r: bool)
        ensures
            r == (self@ is Choice),
    {
        match self {
            RuleBody::Choice { .. } => true,
            _ => false,
        }
    }

    /// A structurally equal copy of the body.
    pub fn deep_copy(&self) -> (r: Self)
        ensures
            r@ == self@,
        decreases self,
    {
        match self {
            RuleBody::Repeat { content } => RuleBody::Repeat {
                content: Box::new(content.deep_copy()),
            },
            RuleBody::Choice { members } => {
                let ms = copy_members(members);
                proof {
                    assert(bodies_view(ms@) =~= bodies_view(members@));
                }
                RuleBody::Choice { members: ms }
            },
            RuleBody::Sequence { members } => {
                let ms = copy_members(members);
                proof {
                    assert(bodies_view(ms@) =~= bodies_view(members@));
                }
                RuleBody::Sequence { members: ms }
            },
            RuleBody::PrecLeft { content } => RuleBody::PrecLeft {
                content: Box::new(content.deep_copy()),
            },
            RuleBody::PrecRight { content } => RuleBody::PrecRight {
                content: Box::new(content.deep_copy()),
            },
            RuleBody::Symbol { name } => RuleBody::Symbol { name: name.clone() },
            RuleBody::String { value } => RuleBody::String { value: value.clone() },
            RuleBody::Pattern { value } => RuleBody::Pattern { value: value.clone() },
        }
    }
}

/// The views of a list of strings, in order.
pub open spec fn strings_view(ss: Seq<String>) -> Seq<Seq<char>> {
    Seq::new(ss.len(), |i: int| ss[i]@)
}

/// The names of the `Symbol` members of a member list, in order; members of
/// any other shape contribute nothing.
pub open spec fn symbol_names(ms: Seq<BodyView>) -> Seq<Seq<char>>
    decreases ms.len(),
{
    if ms.len() == 0 {
        seq![]
    } else {
        symbol_names(ms.drop_last()) + (match ms.last() {
            BodyView::Symbol { name } => seq![name],
            _ => seq![],
        })
    }
}

/// The rule names a body references directly: the name of a body that is
/// itself a `Symbol` reference, the name of an immediate `Symbol` child of
/// `Repeat`, `PrecLeft` or `PrecRight`, or the names of the immediate
/// `Symbol` members of `Choice` or `Sequence`, in member order. Nested
/// composites are not entered.
pub open spec fn spec_nonterminals(b: BodyView) -> Seq<Seq<char>> {
    match b {
        BodyView::Symbol { name } => seq![name],
        BodyView::Repeat { content } => (match *content {
            BodyView::Symbol { name } => seq![name],
            _ => seq![],
        }),
        BodyView::PrecLeft { content } => (match *content {
            BodyView::Symbol { name } => seq![name],
            _ => seq![],
        }),
        BodyView::PrecRight { content } => (match *content {
            BodyView::Symbol { name } => seq![name],
            _ => seq![],
        }),
        BodyView::Choice { members } => symbol_names(members),
        BodyView::Sequence { members } => symbol_names(members),
        _ => seq![],
    }
}

impl RuleBody {
    /// The rule names this body references directly, in order of appearance:
    /// see [`spec_nonterminals`].
    pub fn get_nonterminals(&self) -> (r: Vec<String>)
        ensures
            strings_view(r@) == spec_nonterminals(self@),
    {
        match self {
            RuleBody::Symbol { name } => {
                let mut r: Vec<String> = Vec::new();
                r.push(name.clone());
                proof {
                    assert(strings_view(r@) =~= spec_nonterminals(self@));
                }
                r
            },
            RuleBody::Repeat { content } => single_symbol_name(content),
            RuleBody::PrecLeft { content } => single_symbol_name(content),
            RuleBody::PrecRight { content } => single_symbol_name(content),
            RuleBody::Choice { members } => member_symbol_names(members),
            RuleBody::Sequence { members } => member_symbol_names(members),
            _ => {
                let r: Vec<String> = Vec::new();
                proof {
                    assert(strings_view(r@) =~= spec_nonterminals(self@));
                }
                r
            },
        }
    }
}

/// The referenced name of a single-child composite: the child's name when it
/// is a `Symbol`, nothing otherwise.
fn single_symbol_name(content: &RuleBody) -> (r: Vec<String>)
    ensures
        strings_view(r@) == (match content@ {
            BodyView::Symbol { name } => seq![name],
            _ => Seq::<Seq<char>>::empty(),
        }),
{
    let mut r: Vec<String> = Vec::new();
    match content {
        RuleBody::Symbol { name } => {
            r.push(name.clone());
        },
        _ => {},
    }
    proof {
        assert(strings_view(r@) =~= (match content@ {
            BodyView::Symbol { name } => seq![name],
            _ => Seq::<Seq<char>>::empty(),
        }));
    }
    r
}

/// The names of the `Symbol` members of a member list, in member order.
fn member_symbol_names(members: &Vec<RuleBody>) -> (r: Vec<String>)
    ensures
        strings_view(r@) == symbol_names(bodies_view(members@)),
{
    let mut r: Vec<String> = Vec::new();
    let mut i: usize = 0;
    while i < members.len()
        invariant
            i <= members@.len(),
            strings_view(r@) == symbol_names(bodies_view(members@).take(i as int)),
        decreases members@.len() - i,
    {
        let ghost pre = bodies_view(members@).take(i as int);
        let ghost post = bodies_view(members@).take(i + 1 as int);
        proof {
            assert(post.drop_last() =~= pre);
            assert(post.last() == bodies_view(members@)[i as int]);
        }
        match &members[i] {
            RuleBody::Symbol { name } => {
                r.push(name.clone());
                proof {
                    assert(strings_view(r@) =~= symbol_names(post));
                }
            },
            _ => {
                proof {
                    assert(strings_view(r@) =~= symbol_names(post));
                }
            },
        }
        i = i + 1;
    }
    proof {
        assert(bodies_view(members@).take(members@.len() as int) =~= bodies_view(members@));
    }
    r
}

/// Result of hoisting one body: the rewritten body, the extracted name-body
/// pairs in encounter order, and the allocator counter after the pass.
pub struct HoistOutcome {
    pub body: BodyView,
    pub pairs: Seq<(Seq<char>, BodyView)>,
    pub counter: nat,
}

/// Result of hoisting a member list: the rewritten members, the extracted
/// name-body pairs in encounter order, and the allocator counter after.
pub struct HoistMembersOutcome {
    pub bodies: Seq<BodyView>,
    pub pairs: Seq<(Seq<char>, BodyView)>,
    pub counter: nat,
}

/// Hoisting at a nested position: a `Choice` is replaced by a `Symbol`
/// reference to a fresh rule name and extracted; `Repeat` and `Sequence`
/// recurse into their children; precedence wrappers are erased; leaves stay.
pub open spec fn hoist_nested(b: BodyView, prefix: Seq<char>, c: nat) -> HoistOutcome
    decreases b,
{
    match b {
        BodyView::Choice { .. } => HoistOutcome {
            body: BodyView::Symbol { name: crate::name_gen::fresh_name(prefix, c) },
            pairs: seq![(crate::name_gen::fresh_name(prefix, c), b)],
            counter: crate::name_gen::next_counter(c),
        },
        BodyView::Repeat { content } => {
            let h = hoist_nested(*content, prefix, c);
            HoistOutcome {
                body: BodyView::Repeat { content: Box::new(h.body) },
                pairs: h.pairs,
                counter: h.counter,
            }
        },
        BodyView::Sequence { members } => {
            let h = hoist_members(members, prefix, c);
            HoistOutcome {
                body: BodyView::Sequence { members: h.bodies },
                pairs: h.pairs,
                counter: h.counter,
            }
        },
        BodyView::PrecLeft { content } => hoist_nested(*content, prefix, c),
        BodyView::PrecRight { content } => hoist_nested(*content, prefix, c),
        _ => HoistOutcome { body: b, pairs: seq![], counter: c },
    }
}

/// Hoisting of the members of a composite, left to right, threading the
/// allocator counter through.
pub open spec fn hoist_members(ms: Seq<BodyView>, prefix: Seq<char>, c: nat) -> HoistMembersOutcome
    decreases ms,
{
    if ms.len() == 0 {
        HoistMembersOutcome { bodies: seq![], pairs: seq![], counter: c }
    } else {
        let h = hoist_nested(ms[0], prefix, c);
        let rest = hoist_members(ms.drop_first(), prefix, h.counter);
        HoistMembersOutcome {
            bodies: seq![h.body] + rest.bodies,
            pairs: h.pairs + rest.pairs,
            counter: rest.counter,
        }
    }
}

/// Hoisting of a rule's entire body: a top-level `Choice` keeps its place
/// (only its members are rewritten), top-level precedence wrappers are
/// erased, and everything else is hoisted as a nested body.
pub open spec fn hoist_top(b: BodyView, prefix: Seq<char>, c: nat) -> HoistOutcome
    decreases b,
{
    match b {
        BodyView::Choice { members } => {
            let h = hoist_members(members, prefix, c);
            HoistOutcome {
                body: BodyView::Choice { members: h.bodies },
                pairs: h.pairs,
                counter: h.counter,
            }
        },
        BodyView::PrecLeft { content } => hoist_top(*content, prefix, c),
        BodyView::PrecRight { content } => hoist_top(*content, prefix, c),
        _ => hoist_nested(b, prefix, c),
    }
}

/// No `Choice` and no precedence wrapper anywhere in the body.
pub open spec fn choice_free(b: BodyView) -> bool
    decreases b,
{
    match b {
        BodyView::Repeat { content } => choice_free(*content),
        BodyView::Choice { .. } => false,
        BodyView::Sequence { members } => forall|i: int|
            0 <= i < members.len() ==> choice_free(#[trigger] members[i]),
        BodyView::PrecLeft { .. } => false,
        BodyView::PrecRight { .. } => false,
        _ => true,
    }
}

/// Hoisted form: a `Choice` may stand only as the entire body, with
/// choice-free members; any other body is choice-free throughout.
pub open spec fn hoisted_form(b: BodyView) -> bool {
    match b {
        BodyView::Choice { members } => forall|i: int|
            0 <= i < members.len() ==> choice_free(#[trigger] members[i]),
        _ => choice_free(b),
    }
}

/// A nested hoisting pass leaves a choice-free body behind.
pub proof fn lemma_hoist_nested_flat(b: BodyView, prefix: Seq<char>, c: nat)
    ensures
        choice_free(hoist_nested(b, prefix, c).body),
    decreases b,
{
    match b {
        BodyView::Repeat { content } => {
            lemma_hoist_nested_flat(*content, prefix, c);
        },
        BodyView::Sequence { members } => {
            lemma_hoist_members_flat(members, prefix, c);
        },
        BodyView::PrecLeft { content } => {
            lemma_hoist_nested_flat(*content, prefix, c);
        },
        BodyView::PrecRight { content } => {
            lemma_hoist_nested_flat(*content, prefix, c);
        },
        _ => {},
    }
}

/// A hoisting pass over a member list leaves only choice-free members.
pub proof fn lemma_hoist_members_flat(ms: Seq<BodyView>, prefix: Seq<char>, c: nat)
    ensures
        hoist_members(ms, prefix, c).bodies.len() == ms.len(),
        forall|i: int|
            0 <= i < ms.len() ==> choice_free(
                #[trigger] hoist_members(ms, prefix, c).bodies[i],
            ),
    decreases ms,
{
    if ms.len() > 0 {
        let h = hoist_nested(ms[0], prefix, c);
        lemma_hoist_nested_flat(ms[0], prefix, c);
        lemma_hoist_members_flat(ms.drop_first(), prefix, h.counter);
    }
}

/// The flattening law: hoisting a rule's body leaves no `Choice` reachable
/// except as the entire top-level body.
pub proof fn lemma_hoist_top_flat(b: BodyView, prefix: Seq<char>, c: nat)
    ensures
        hoisted_form(hoist_top(b, prefix, c).body),
    decreases b,
{
    match b {
        BodyView::Choice { members } => {
            lemma_hoist_members_flat(members, prefix, c);
        },
        BodyView::PrecLeft { content } => {
            lemma_hoist_top_flat(*content, prefix, c);
        },
        BodyView::PrecRight { content } => {
            lemma_hoist_top_flat(*content, prefix, c);
        },
        _ => {
            lemma_hoist_nested_flat(b, prefix, c);
        },
    }
}

impl RuleBody {
    /// Rewrites the body as a nested sub-expression: every choice below it
    /// (and the body itself, when it is a choice) is replaced by a `Symbol`
    /// reference to a freshly allocated rule name and handed back as an
    /// extracted pair; precedence wrappers are erased. Extracted bodies are
    /// returned as they stood, for their own later hoisting pass.
    pub fn map_subexps(&self, prefix: &str, gen: &mut NameGen) -> (res: (
        RuleBody,
        Vec<(String, RuleBody)>,
    ))
        ensures
            ({
                let h = hoist_nested(self@, prefix@, old(gen).counter());
                &&& res.0@ == h.body
                &&& pairs_view(res.1@) == h.pairs
                &&& final(gen).counter() == h.counter
            }),
        decreases self,
    {
        match self {
            RuleBody::Choice { .. } => {
                let fresh = gen.get_fresh_name(prefix);
                let body_copy = self.deep_copy();
                let sym = RuleBody::Symbol { name: fresh.clone() };
                let mut ps: Vec<(String, RuleBody)> = Vec::new();
                ps.push((fresh, body_copy));
                proof {
                    assert(pairs_view(ps@) =~= hoist_nested(
                        self@,
                        prefix@,
                        old(gen).counter(),
                    ).pairs);
                }
                (sym, ps)
            },
            RuleBody::Repeat { content } => {
                let (b, ps) = content.map_subexps(prefix, gen);
                (RuleBody::Repeat { content: Box::new(b) }, ps)
            },
            RuleBody::Sequence { members } => {
                let (ms, ps) = hoist_members_exec(members, prefix, gen);
                (RuleBody::Sequence { members: ms }, ps)
            },
            RuleBody::PrecLeft { content } => content.map_subexps(prefix, gen),
            RuleBody::PrecRight { content } => content.map_subexps(prefix, gen),
            _ => {
                let ps: Vec<(String, RuleBody)> = Vec::new();
                proof {
                    assert(pairs_view(ps@) =~= Seq::<(Seq<char>, BodyView)>::empty());
                }
                (self.deep_copy(), ps)
            },
        }
    }

    /// Hoists a rule's entire body: a top-level `Choice` keeps its place and
    /// only its members are rewritten, top-level precedence wrappers are
    /// erased, and any other body is rewritten as a nested sub-expression.
    pub fn hoist_subexps(&self, prefix: &str, gen: &mut NameGen) -> (res: (
        RuleBody,
        Vec<(String, RuleBody)>,
    ))
        ensures
            ({
                let h = hoist_top(self@, prefix@, old(gen).counter());
                &&& res.0@ == h.body
                &&& pairs_view(res.1@) == h.pairs
                &&& final(gen).counter() == h.counter
            }),
        decreases self,
    {
        match self {
            RuleBody::Choice { members } => {
                let (ms, ps) = hoist_members_exec(members, prefix, gen);
                (RuleBody::Choice { members: ms }, ps)
            },
            RuleBody::PrecLeft { content } => content.hoist_subexps(prefix, gen),
            RuleBody::PrecRight { content } => content.hoist_subexps(prefix, gen),
            _ => self.map_subexps(prefix, gen),
        }
    }
}

/// Hoists every member of a child list, left to right.
fn hoist_members_exec(members: &Vec<RuleBody>, prefix: &str, gen: &mut NameGen) -> (res: (
    Vec<RuleBody>,
    Vec<(String, RuleBody)>,
))
    ensures
        ({
            let h = hoist_members(bodies_view(members@), prefix@, old(gen).counter());
            &&& bodies_view(res.0@) == h.bodies
            &&& pairs_view(res.1@) == h.pairs
            &&& final(gen).counter() == h.counter
        }),
    decreases members,
{
    let ghost msv = bodies_view(members@);
    let ghost full = hoist_members(msv, prefix@, old(gen).counter());
    let mut out: Vec<RuleBody> = Vec::new();
    let mut ps: Vec<(String, RuleBody)> = Vec::new();
    let mut i: usize = 0;
    proof {
        assert(msv.skip(0) =~= msv);
        assert(bodies_view(out@) =~= Seq::<BodyView>::empty());
        assert(pairs_view(ps@) =~= Seq::<(Seq<char>, BodyView)>::empty());
        assert(Seq::<BodyView>::empty() + full.bodies =~= full.bodies);
        assert(Seq::<(Seq<char>, BodyView)>::empty() + full.pairs =~= full.pairs);
    }
    while i < members.len()
        invariant
            i <= members@.len(),
            msv == bodies_view(members@),
            full == hoist_members(msv, prefix@, old(gen).counter()),
            ({
                let rest = hoist_members(msv.skip(i as int), prefix@, gen.counter());
                &&& bodies_view(out@) + rest.bodies == full.bodies
                &&& pairs_view(ps@) + rest.pairs == full.pairs
                &&& rest.counter == full.counter
            }),
        decreases members@.len() - i,
    {
        let ghost c_here = gen.counter();
        let ghost rest = hoist_members(msv.skip(i as int), prefix@, c_here);
        proof {
            assert(msv.skip(i as int).len() == msv.len() - i);
            assert(msv.skip(i as int)[0] == msv[i as int]);
            assert(msv.skip(i as int).drop_first() =~= msv.skip(i + 1 as int));
        }
        let ghost prev_out = out@;
        let ghost prev_ps = ps@;
        let (b, mut sub) = members[i].map_subexps(prefix, gen);
        let ghost h = hoist_nested(msv[i as int], prefix@, c_here);
        let ghost subv = sub@;
        out.push(b);
        ps.append(&mut sub);
        proof {
            let rest2 = hoist_members(msv.skip(i + 1 as int), prefix@, gen.counter());
            assert(rest.bodies == seq![h.body] + rest2.bodies);
            assert(rest.pairs == h.pairs + rest2.pairs);
            assert(bodies_view(out@) =~= bodies_view(prev_out) + seq![h.body]);
            assert(pairs_view(ps@) =~= pairs_view(prev_ps) + pairs_view(subv));
            assert((bodies_view(prev_out) + seq![h.body]) + rest2.bodies =~= bodies_view(prev_out)
                + (seq![h.body] + rest2.bodies));
            assert((pairs_view(prev_ps) + h.pairs) + rest2.pairs =~= pairs_view(prev_ps) + (h.pairs
                + rest2.pairs));
        }
        i = i + 1;
    }
    proof {
        assert(msv.skip(members@.len() as int) =~= Seq::<BodyView>::empty());
        assert(bodies_view(out@) + Seq::<BodyView>::empty() =~= bodies_view(out@));
        assert(pairs_view(ps@) + Seq::<(Seq<char>, BodyView)>::empty() =~= pairs_view(ps@));
    }
    (out, ps)
}

/// The number of nodes in a body.
pub open spec fn body_size(b: BodyView) -> nat
    decreases b,
{
    match b {
        BodyView::Repeat { content } => 1 + body_size(*content),
        BodyView::Choice { members } => 1 + bodies_size(members),
        BodyView::Sequence { members } => 1 + bodies_size(members),
        BodyView::PrecLeft { content } => 1 + body_size(*content),
        BodyView::PrecRight { content } => 1 + body_size(*content),
        _ => 1,
    }
}

/// The total number of nodes in a member list.
pub open spec fn bodies_size(ms: Seq<BodyView>) -> nat
    decreases ms,
{
    if ms.len() == 0 {
        0
    } else {
        body_size(ms[0]) + bodies_size(ms.drop_first())
    }
}

/// The total number of body nodes in a list of name-body pairs.
pub open spec fn pairs_size(ps: Seq<(Seq<char>, BodyView)>) -> nat
    decreases ps.len(),
{
    if ps.len() == 0 {
        0
    } else {
        body_size(ps[0].1) + pairs_size(ps.drop_first())
    }
}

/// Pair sizes add up over concatenation.
pub proof fn lemma_pairs_size_add(a: Seq<(Seq<char>, BodyView)>, b: Seq<(Seq<char>, BodyView)>)
    ensures
        pairs_size(a + b) == pairs_size(a) + pairs_size(b),
    decreases a.len(),
{
    if a.len() == 0 {
        assert(a + b =~= b);
    } else {
        assert((a + b)[0] == a[0]);
        assert((a + b).drop_first() =~= a.drop_first() + b);
        lemma_pairs_size_add(a.drop_first(), b);
    }
}

/// The bodies a nested hoisting pass extracts are in total no larger than
/// the body it processed.
pub proof fn lemma_hoist_nested_size(b: BodyView, prefix: Seq<char>, c: nat)
    ensures
        pairs_size(hoist_nested(b, prefix, c).pairs) <= body_size(b),
    decreases b,
{
    match b {
        BodyView::Choice { .. } => {
            let ps = hoist_nested(b, prefix, c).pairs;
            assert(ps.drop_first() =~= Seq::<(Seq<char>, BodyView)>::empty());
            assert(pairs_size(ps.drop_first()) == 0);
            assert(ps[0].1 == b);
            assert(pairs_size(ps) == body_size(b));
        },
        BodyView::Repeat { content } => {
            lemma_hoist_nested_size(*content, prefix, c);
        },
        BodyView::Sequence { members } => {
            lemma_hoist_members_size(members, prefix, c);
        },
        BodyView::PrecLeft { content } => {
            lemma_hoist_nested_size(*content, prefix, c);
        },
        BodyView::PrecRight { content } => {
            lemma_hoist_nested_size(*content, prefix, c);
        },
        _ => {},
    }
}

/// The bodies a member-list hoisting pass extracts are in total no larger
/// than the members it processed.
pub proof fn lemma_hoist_members_size(ms: Seq<BodyView>, prefix: Seq<char>, c: nat)
    ensures
        pairs_size(hoist_members(ms, prefix, c).pairs) <= bodies_size(ms),
    decreases ms,
{
    if ms.len() > 0 {
        let h = hoist_nested(ms[0], prefix, c);
        lemma_hoist_nested_size(ms[0], prefix, c);
        lemma_hoist_members_size(ms.drop_first(), prefix, h.counter);
        lemma_pairs_size_add(h.pairs, hoist_members(ms.drop_first(), prefix, h.counter).pairs);
    }
}

/// The bodies hoisting a whole rule body extracts are in total strictly
/// smaller than that body: the work queue of pending bodies shrinks.
pub proof fn lemma_hoist_top_size(b: BodyView, prefix: Seq<char>, c: nat)
    ensures
        pairs_size(hoist_top(b, prefix, c).pairs) < body_size(b),
    decreases b,
{
    match b {
        BodyView::Choice { members } => {
            lemma_hoist_members_size(members, prefix, c);
        },
        BodyView::PrecLeft { content } => {
            lemma_hoist_top_size(*content, prefix, c);
        },
        BodyView::PrecRight { content } => {
            lemma_hoist_top_size(*content, prefix, c);
        },
        BodyView::Repeat { content } => {
            lemma_hoist_nested_size(*content, prefix, c);
        },
        BodyView::Sequence { members } => {
            lemma_hoist_members_size(members, prefix, c);
        },
        _ => {},
    }
}

/// A named production: a unique rule name, its body, and the extra flag that
/// marks trivia rules excluded from the dependency ordering.
pub struct Rule {
    pub name: String,
    pub body: RuleBody,
    pub is_extra: bool,
}

/// Mathematical model of a rule.
pub struct RuleView {
    pub name: Seq<char>,
    pub body: BodyView,
    pub is_extra: bool,
}

impl View for Rule {
    type V = RuleView;

    open spec fn view(&self) -> RuleView {
        RuleView { name: self.name@, body: self.body@, is_extra: self.is_extra }
    }
}

impl Rule {
    /// A structurally equal copy of the rule.
    pub fn deep_copy(&self) -> (r: Self)
        ensures
            r@ == self@,
    {
        Rule { name: self.name.clone(), body: self.body.deep_copy(), is_extra: self.is_extra }
    }
}

/// The raw grammar as the loader hands it over: the grammar name, the rule
/// map as ordered name-body pairs, and the list of extra-rule references.
pub struct RawGrammar {
    pub name: String,
    pub rules: Vec<(String, RuleBody)>,
    pub extras: Vec<RuleBody>,
}

/// The views of the bodies of a name-body pair list, in order.
pub open spec fn pairs_view(ps: Seq<(String, RuleBody)>) -> Seq<(Seq<char>, BodyView)> {
    Seq::new(ps.len(), |i: int| (ps[i].0@, body_view(ps[i].1)))
}

/// A grammar: a name and its list of rules, each flagged as extra when the
/// raw grammar's extras list references it by symbol.
pub struct Grammar {
    pub name: String,
    pub rules: Vec<Rule>,
}

/// The views of a rule list, in order.
pub open spec fn rules_view(rs: Seq<Rule>) -> Seq<RuleView> {
    Seq::new(rs.len(), |i: int| rs[i]@)
}

impl Grammar {
    /// The model of the rule list.
    pub open spec fn spec_rules(&self) -> Seq<RuleView> {
        rules_view(self.rules@)
    }

    /// Builds a grammar from the raw input: every rule keeps its name and
    /// body, in input order, and is flagged extra exactly when some member of
    /// the raw extras list is a `Symbol` naming it.
    pub fn from_raw(raw: RawGrammar) -> (g: Grammar)
        ensures
            g.name@ == raw.name@,
            g.spec_rules().len() == raw.rules@.len(),
            forall|i: int|
                0 <= i < raw.rules@.len() ==> {
                    &&& (#[trigger] g.spec_rules()[i]).name == pairs_view(raw.rules@)[i].0
                    &&& g.spec_rules()[i].body == pairs_view(raw.rules@)[i].1
                    &&& g.spec_rules()[i].is_extra == symbol_names(
                        bodies_view(raw.extras@),
                    ).contains(pairs_view(raw.rules@)[i].0)
                },
    {
        let extra_names = member_symbol_names(&raw.extras);
        let mut rules: Vec<Rule> = Vec::new();
        let mut i: usize = 0;
        while i < raw.rules.len()
            invariant
                i <= raw.rules@.len(),
                rules@.len() == i,
                strings_view(extra_names@) == symbol_names(bodies_view(raw.extras@)),
                forall|j: int|
                    0 <= j < i ==> {
                        &&& (#[trigger] rules@[j]@).name == raw.rules@[j].0@
                        &&& rules@[j]@.body == body_view(raw.rules@[j].1)
                        &&& rules@[j]@.is_extra == symbol_names(
                            bodies_view(raw.extras@),
                        ).contains(raw.rules@[j].0@)
                    },
            decreases raw.rules@.len() - i,
        {
            let name = raw.rules[i].0.clone();
            let body = raw.rules[i].1.deep_copy();
            let is_extra = contains_name(&extra_names, &name);
            rules.push(Rule { name, body, is_extra });
            i = i + 1;
        }
        Grammar { name: raw.name, rules }
    }

    /// The grammar's rules, in input order.
    pub fn get_rules(&self) -> (r: &Vec<Rule>)
        ensures
            rules_view(r@) == self.spec_rules(),
    {
        &self.rules
    }
}

/// True iff `name` occurs in `names`.
fn contains_name(names: &Vec<String>, name: &String) -> (r: bool)
    ensures
        r == strings_view(names@).contains(name@),
{
    let mut i: usize = 0;
    while i < names.len()
        invariant
            i <= names@.len(),
            forall|j: int| 0 <= j < i ==> names@[j]@ != name@,
        decreases names@.len() - i,
    {
        if names[i].eq(name) {
            proof {
                assert(strings_view(names@)[i as int] == name@);
            }
            return true;
        }
        i = i + 1;
    }
    proof {
        assert forall|k: int| 0 <= k < names@.len() implies strings_view(names@)[k] != name@ by {
            assert(names@[k]@ != name@);
        }
    }
    false
}

/// Copies every member of a child list, preserving views.
fn copy_members(members: &Vec<RuleBody>) -> (r: Vec<RuleBody>)
    ensures
        r@.len() == members@.len(),
        forall|j: int| 0 <= j < members@.len() ==> r@[j]@ == members@[j]@,
    decreases members,
{
    let mut out: Vec<RuleBody> = Vec::new();
    let mut i: usize = 0;
    while i < members.len()
        invariant
            i <= members@.len(),
            out@.len() == i,
            forall|j: int| 0 <= j < i ==> out@[j]@ == members@[j]@,
        decreases members@.len() - i,
    {
        out.push(members[i].deep_copy());
        i = i + 1;
    }
    out
}

} // verus!
