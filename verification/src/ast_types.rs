use vstd::prelude::*;

use vstd::string::StringExecFns;

use crate::grammar::{BodyView, RuleBody};

verus! {

/// Mathematical model of a type representation: the same tree as
/// [`AstTypeRepr`], with sequences and character strings in place of vectors
/// and heap strings.
pub enum ReprView {
    Sum { alts: Seq<(Seq<char>, ReprView)> },
    Product { fields: Seq<(Option<Seq<char>>, ReprView)> },
    Ctor { name: Seq<char>, args: Seq<ReprView> },
    Name { name: Seq<char> },
}

/// Algebraic shape of one rule's type: a sum of tagged alternatives, a
/// product of ordered (optionally named) fields, a constructor application,
/// or a bare type name.
pub enum AstTypeRepr {
    Sum(Vec<(String, AstTypeRepr)>),
    Product(Vec<(Option<String>, AstTypeRepr)>),
    Ctor(String, Vec<AstTypeRepr>),
    Name(String),
}

/// The models of a list of tagged alternatives, in order.
pub open spec fn alts_view(s: Seq<(String, AstTypeRepr)>) -> Seq<(Seq<char>, ReprView)>
    decreases s,
{
    Seq::new(
        s.len(),
        |i: int|
            if 0 <= i < s.len() {
                (s[i].0@, repr_view(s[i].1))
            } else {
                arbitrary()
            },
    )
}

/// The models of a list of product fields, in order.
pub open spec fn fields_view(s: Seq<(Option<String>, AstTypeRepr)>) -> Seq<
    (Option<Seq<char>>, ReprView),
>
    decreases s,
{
    Seq::new(
        s.len(),
        |i: int|
            if 0 <= i < s.len() {
                (
                    match s[i].0 {
                        Option::Some(n) => Option::Some(n@),
                        Option::None => Option::None,
                    },
                    repr_view(s[i].1),
                )
            } else {
                arbitrary()
            },
    )
}

/// The models of a list of constructor arguments, in order.
pub open spec fn reprs_view(s: Seq<AstTypeRepr>) -> Seq<ReprView>
    decreases s,
{
    Seq::new(
        s.len(),
        |i: int|
            if 0 <= i < s.len() {
                repr_view(s[i])
            } else {
                arbitrary()
            },
    )
}

/// The model of a type representation.
pub open spec fn repr_view(r: AstTypeRepr) -> ReprView
    decreases r,
{
    match r {
        AstTypeRepr::Sum(alts) => ReprView::Sum { alts: alts_view(alts@) },
        AstTypeRepr::Product(fields) => ReprView::Product { fields: fields_view(fields@) },
        AstTypeRepr::Ctor(name, args) => ReprView::Ctor { name: name@, args: reprs_view(args@) },
        AstTypeRepr::Name(name) => ReprView::Name { name: name@ },
    }
}

impl View for AstTypeRepr {
    type V = ReprView;

    open spec fn view(&self) -> ReprView {
        repr_view(*self)
    }
}

/// A named algebraic type: one per emitted rule.
pub struct AstType {
    pub name: String,
    pub repr: AstTypeRepr,
}

/// Mathematical model of a named type.
pub struct AstTypeView {
    pub name: Seq<char>,
    pub repr: ReprView,
}

impl View for AstType {
    type V = AstTypeView;

    open spec fn view(&self) -> AstTypeView {
        AstTypeView { name: self.name@, repr: self.repr@ }
    }
}

/// The models of a list of named types, in order.
pub open spec fn types_view(ts: Seq<AstType>) -> Seq<AstTypeView> {
    Seq::new(ts.len(), |i: int| ts[i]@)
}

/// The uppercase form of a string's characters, as `str::to_uppercase`
/// computes it: a function of the characters alone.
pub uninterp spec fn upper_of(s: Seq<char>) -> Seq<char>;

/// Relies on `str::to_uppercase`: the result depends on the input characters
/// alone, so equal rule names always give equal constructor tags.
#[verifier::external_body]
fn to_upper(s: &str) -> (r: String)
    ensures
        r@ == upper_of(s@),
{
    s.to_uppercase()
}

/// The tag shared by the alternatives of a rule's sum type: the uppercased
/// rule name with a constructor suffix. The alternative's positional index
/// is appended at rendering time.
pub open spec fn ctor_tag(name: Seq<char>) -> Seq<char> {
    upper_of(name) + "_CTOR"@
}

/// The algebraic type a rule body denotes, for the rule named `name`:
/// repetition becomes a `list` constructor application, a choice becomes a
/// sum with one tagged alternative per member, a sequence becomes a product
/// of unnamed positional fields, precedence wrappers are erased, a symbol
/// reference becomes a type name, and lexical literals collapse to the
/// primitive `string` type.
pub open spec fn spec_repr_of(name: Seq<char>, b: BodyView) -> ReprView
    decreases b,
{
    match b {
        BodyView::Repeat { content } => ReprView::Ctor {
            name: "list"@,
            args: seq![spec_repr_of(name, *content)],
        },
        BodyView::Choice { members } => ReprView::Sum {
            alts: Seq::new(
                members.len(),
                |i: int|
                    if 0 <= i < members.len() {
                        (ctor_tag(name), spec_repr_of(name, members[i]))
                    } else {
                        arbitrary()
                    },
            ),
        },
        BodyView::Sequence { members } => ReprView::Product {
            fields: Seq::new(
                members.len(),
                |i: int|
                    if 0 <= i < members.len() {
                        (Option::None, spec_repr_of(name, members[i]))
                    } else {
                        arbitrary()
                    },
            ),
        },
        BodyView::PrecLeft { content } => spec_repr_of(name, *content),
        BodyView::PrecRight { content } => spec_repr_of(name, *content),
        BodyView::Symbol { name: n } => ReprView::Name { name: n },
        BodyView::String { .. } => ReprView::Name { name: "string"@ },
        BodyView::Pattern { .. } => ReprView::Name { name: "string"@ },
    }
}

impl AstTypeRepr {
    /// Synthesizes the type representation of the body of the rule named
    /// `name`: see [`spec_repr_of`].
    pub fn from_rule_body(name: &str, rule: &RuleBody) -> (r: AstTypeRepr)
        ensures
            r@ == spec_repr_of(name@, rule@),
        decreases rule,
    {
        match rule {
            RuleBody::Repeat { content } => {
                let inner = AstTypeRepr::from_rule_body(name, content);
                let mut args: Vec<AstTypeRepr> = Vec::new();
                args.push(inner);
                let r = AstTypeRepr::Ctor(lit_string("list"), args);
                proof {
                    assert(reprs_view(args@) =~= seq![spec_repr_of(name@, content@)]);
                }
                r
            },
            RuleBody::Choice { members } => {
                let alts = sum_alts(name, members);
                let r = AstTypeRepr::Sum(alts);
                proof {
                    let ghost msv = crate::grammar::bodies_view(members@);
                    assert(alts_view(alts@) =~= (match spec_repr_of(name@, rule@) {
                        ReprView::Sum { alts: a } => a,
                        _ => arbitrary(),
                    }));
                }
                r
            },
            RuleBody::Sequence { members } => {
                let fields = product_fields(name, members);
                let r = AstTypeRepr::Product(fields);
                proof {
                    assert(fields_view(fields@) =~= (match spec_repr_of(name@, rule@) {
                        ReprView::Product { fields: f } => f,
                        _ => arbitrary(),
                    }));
                }
                r
            },
            RuleBody::PrecLeft { content } => AstTypeRepr::from_rule_body(name, content),
            RuleBody::PrecRight { content } => AstTypeRepr::from_rule_body(name, content),
            RuleBody::Symbol { name: n } => AstTypeRepr::Name(n.clone()),
            RuleBody::String { .. } => AstTypeRepr::Name(lit_string("string")),
            RuleBody::Pattern { .. } => AstTypeRepr::Name(lit_string("string")),
        }
    }
}

/// The tagged alternatives of a choice's sum type, one per member.
fn sum_alts(name: &str, members: &Vec<RuleBody>) -> (alts: Vec<(String, AstTypeRepr)>)
    ensures
        alts@.len() == members@.len(),
        forall|j: int|
            0 <= j < members@.len() ==> {
                &&& (#[trigger] alts@[j]).0@ == ctor_tag(name@)
                &&& repr_view(alts@[j].1) == spec_repr_of(
                    name@,
                    crate::grammar::bodies_view(members@)[j],
                )
            },
    decreases members,
{
    let tag = make_ctor_tag(name);
    let mut alts: Vec<(String, AstTypeRepr)> = Vec::new();
    let mut i: usize = 0;
    while i < members.len()
        invariant
            i <= members@.len(),
            alts@.len() == i,
            tag@ == ctor_tag(name@),
            forall|j: int|
                0 <= j < i ==> {
                    &&& (#[trigger] alts@[j]).0@ == ctor_tag(name@)
                    &&& repr_view(alts@[j].1) == spec_repr_of(
                        name@,
                        crate::grammar::bodies_view(members@)[j],
                    )
                },
        decreases members@.len() - i,
    {
        let inner = AstTypeRepr::from_rule_body(name, &members[i]);
        alts.push((tag.clone(), inner));
        i = i + 1;
    }
    alts
}

/// The unnamed positional fields of a sequence's product type, one per
/// member.
fn product_fields(name: &str, members: &Vec<RuleBody>) -> (fields: Vec<(Option<String>, AstTypeRepr)>)
    ensures
        fields@.len() == members@.len(),
        forall|j: int|
            0 <= j < members@.len() ==> {
                &&& (#[trigger] fields@[j]).0 is None
                &&& repr_view(fields@[j].1) == spec_repr_of(
                    name@,
                    crate::grammar::bodies_view(members@)[j],
                )
            },
    decreases members,
{
    let mut fields: Vec<(Option<String>, AstTypeRepr)> = Vec::new();
    let mut i: usize = 0;
    while i < members.len()
        invariant
            i <= members@.len(),
            fields@.len() == i,
            forall|j: int|
                0 <= j < i ==> {
                    &&& (#[trigger] fields@[j]).0 is None
                    &&& repr_view(fields@[j].1) == spec_repr_of(
                        name@,
                        crate::grammar::bodies_view(members@)[j],
                    )
                },
        decreases members@.len() - i,
    {
        let inner = AstTypeRepr::from_rule_body(name, &members[i]);
        fields.push((None, inner));
        i = i + 1;
    }
    fields
}

/// Canonical rendering of a type representation: a sum as one tagged
/// alternative per line, a product as a parenthesized comma-joined field
/// list, a constructor application as `name(args)`, and a name as itself.
pub open spec fn spec_render_repr(r: ReprView) -> Seq<char>
    decreases r,
{
    match r {
        ReprView::Sum { alts } => spec_render_alts(alts, 0),
        ReprView::Product { fields } => "("@ + spec_render_fields(fields, true) + ")"@,
        ReprView::Ctor { name, args } => name + "("@ + spec_render_args(args, true) + ")"@,
        ReprView::Name { name } => name,
    }
}

/// One `| TAG_i (repr)` line per alternative, on its own line, with the
/// positional index counting up from `idx`.
pub open spec fn spec_render_alts(alts: Seq<(Seq<char>, ReprView)>, idx: nat) -> Seq<char>
    decreases alts,
{
    if alts.len() == 0 {
        Seq::<char>::empty()
    } else {
        "\n | "@ + alts[0].0 + "_"@ + crate::name_gen::dec_str(idx) + " ("@ + spec_render_repr(
            alts[0].1,
        ) + ")"@ + spec_render_alts(alts.drop_first(), idx + 1)
    }
}

/// Comma-joined renderings of product fields; field names are not rendered.
pub open spec fn spec_render_fields(
    fields: Seq<(Option<Seq<char>>, ReprView)>,
    first: bool,
) -> Seq<char>
    decreases fields,
{
    if fields.len() == 0 {
        Seq::<char>::empty()
    } else {
        (if first {
            Seq::<char>::empty()
        } else {
            ", "@
        }) + spec_render_repr(fields[0].1) + spec_render_fields(fields.drop_first(), false)
    }
}

/// Comma-joined renderings of constructor arguments.
pub open spec fn spec_render_args(args: Seq<ReprView>, first: bool) -> Seq<char>
    decreases args,
{
    if args.len() == 0 {
        Seq::<char>::empty()
    } else {
        (if first {
            Seq::<char>::empty()
        } else {
            ", "@
        }) + spec_render_repr(args[0]) + spec_render_args(args.drop_first(), false)
    }
}

/// Canonical rendering of a named type: `name = repr`.
pub open spec fn spec_render_type(t: AstTypeView) -> Seq<char> {
    t.name + " = "@ + spec_render_repr(t.repr)
}

/// Canonical rendering of the whole type block: the first type prefixed
/// with `type`, each subsequent one with `and` on a new line, the block
/// terminated by `;` on a line of its own.
pub open spec fn spec_render_hierarchy(ts: Seq<AstTypeView>) -> Seq<char> {
    spec_render_items(ts, true) + "\n;"@
}

/// The lines of the type block, one per type.
pub open spec fn spec_render_items(ts: Seq<AstTypeView>, first: bool) -> Seq<char>
    decreases ts,
{
    if ts.len() == 0 {
        Seq::<char>::empty()
    } else {
        (if first {
            "type "@
        } else {
            "\nand "@
        }) + spec_render_type(ts[0]) + spec_render_items(ts.drop_first(), false)
    }
}

impl AstTypeRepr {
    /// Appends the canonical rendering of this representation to `out`.
    fn render_into(&self, out: &mut String)
        ensures
            final(out)@ == old(out)@ + spec_render_repr(self@),
        decreases self,
    {
        match self {
            AstTypeRepr::Sum(alts) => {
                render_alts_into(alts, out);
            },
            AstTypeRepr::Product(fields) => {
                out.append("(");
                render_fields_into(fields, out);
                out.append(")");
                proof {
                    assert(out@ =~= old(out)@ + spec_render_repr(self@));
                }
            },
            AstTypeRepr::Ctor(name, args) => {
                out.append(name.as_str());
                out.append("(");
                render_args_into(args, out);
                out.append(")");
                proof {
                    assert(out@ =~= old(out)@ + spec_render_repr(self@));
                }
            },
            AstTypeRepr::Name(name) => {
                out.append(name.as_str());
            },
        }
    }

    /// The canonical rendering of this representation.
    pub fn render(&self) -> (r: String)
        ensures
            r@ == spec_render_repr(self@),
    {
        let mut out = String::new();
        self.render_into(&mut out);
        proof {
            assert(out@ =~= spec_render_repr(self@));
        }
        out
    }
}

/// Appends one `| TAG_i (repr)` line per alternative.
fn render_alts_into(alts: &Vec<(String, AstTypeRepr)>, out: &mut String)
    ensures
        final(out)@ == old(out)@ + spec_render_alts(alts_view(alts@), 0),
    decreases alts,
{
    let ghost av = alts_view(alts@);
    let mut i: usize = 0;
    proof {
        assert(av.skip(0) =~= av);
    }
    while i < alts.len()
        invariant
            i <= alts@.len(),
            av == alts_view(alts@),
            out@ + spec_render_alts(av.skip(i as int), i as nat) == old(out)@ + spec_render_alts(
                av,
                0,
            ),
        decreases alts@.len() - i,
    {
        let ghost pre = out@;
        proof {
            reveal_strlit("\n | ");
            reveal_strlit("_");
            reveal_strlit(" (");
            reveal_strlit(")");
            assert(av.skip(i as int)[0] == av[i as int]);
            assert(av.skip(i as int).drop_first() =~= av.skip(i + 1 as int));
        }
        out.append("\n | ");
        out.append(alts[i].0.as_str());
        out.append("_");
        crate::name_gen::push_dec(i, out);
        out.append(" (");
        alts[i].1.render_into(out);
        out.append(")");
        proof {
            assert(out@ =~= pre + ("\n | "@ + av[i as int].0 + "_"@ + crate::name_gen::dec_str(
                i as nat,
            ) + " ("@ + spec_render_repr(av[i as int].1) + ")"@));
            assert(out@ + spec_render_alts(av.skip(i + 1 as int), (i + 1) as nat) =~= pre
                + spec_render_alts(av.skip(i as int), i as nat));
        }
        i = i + 1;
    }
    proof {
        assert(av.skip(alts@.len() as int) =~= Seq::<(Seq<char>, ReprView)>::empty());
        assert(out@ + Seq::<char>::empty() =~= out@);
    }
}

/// Appends the comma-joined renderings of product fields.
fn render_fields_into(fields: &Vec<(Option<String>, AstTypeRepr)>, out: &mut String)
    ensures
        final(out)@ == old(out)@ + spec_render_fields(fields_view(fields@), true),
    decreases fields,
{
    let ghost fv = fields_view(fields@);
    let mut i: usize = 0;
    proof {
        assert(fv.skip(0) =~= fv);
    }
    while i < fields.len()
        invariant
            i <= fields@.len(),
            fv == fields_view(fields@),
            out@ + spec_render_fields(fv.skip(i as int), i == 0) == old(out)@
                + spec_render_fields(fv, true),
        decreases fields@.len() - i,
    {
        let ghost pre = out@;
        proof {
            reveal_strlit(", ");
            assert(fv.skip(i as int)[0] == fv[i as int]);
            assert(fv.skip(i as int).drop_first() =~= fv.skip(i + 1 as int));
        }
        if i > 0 {
            out.append(", ");
        }
        fields[i].1.render_into(out);
        proof {
            assert(out@ =~= pre + ((if i == 0 {
                Seq::<char>::empty()
            } else {
                ", "@
            }) + spec_render_repr(fv[i as int].1)));
            assert(out@ + spec_render_fields(fv.skip(i + 1 as int), false) =~= pre
                + spec_render_fields(fv.skip(i as int), i == 0));
        }
        i = i + 1;
    }
    proof {
        assert(fv.skip(fields@.len() as int) =~= Seq::<(Option<Seq<char>>, ReprView)>::empty());
        assert(out@ + Seq::<char>::empty() =~= out@);
    }
}

/// Appends the comma-joined renderings of constructor arguments.
fn render_args_into(args: &Vec<AstTypeRepr>, out: &mut String)
    ensures
        final(out)@ == old(out)@ + spec_render_args(reprs_view(args@), true),
    decreases args,
{
    let ghost av = reprs_view(args@);
    let mut i: usize = 0;
    proof {
        assert(av.skip(0) =~= av);
    }
    while i < args.len()
        invariant
            i <= args@.len(),
            av == reprs_view(args@),
            out@ + spec_render_args(av.skip(i as int), i == 0) == old(out)@ + spec_render_args(
                av,
                true,
            ),
        decreases args@.len() - i,
    {
        let ghost pre = out@;
        proof {
            reveal_strlit(", ");
            assert(av.skip(i as int)[0] == av[i as int]);
            assert(av.skip(i as int).drop_first() =~= av.skip(i + 1 as int));
        }
        if i > 0 {
            out.append(", ");
        }
        args[i].render_into(out);
        proof {
            assert(out@ =~= pre + ((if i == 0 {
                Seq::<char>::empty()
            } else {
                ", "@
            }) + spec_render_repr(av[i as int])));
            assert(out@ + spec_render_args(av.skip(i + 1 as int), false) =~= pre
                + spec_render_args(av.skip(i as int), i == 0));
        }
        i = i + 1;
    }
    proof {
        assert(av.skip(args@.len() as int) =~= Seq::<ReprView>::empty());
        assert(out@ + Seq::<char>::empty() =~= out@);
    }
}

impl AstType {
    /// The canonical rendering of this type: `name = repr`.
    pub fn render(&self) -> (r: String)
        ensures
            r@ == spec_render_type(self@),
    {
        let mut out = self.name.clone();
        proof {
            reveal_strlit(" = ");
        }
        out.append(" = ");
        self.repr.render_into(&mut out);
        proof {
            assert(out@ =~= spec_render_type(self@));
        }
        out
    }
}

/// The canonical rendering of an ordered type list as one mutually
/// recursive block: the first type prefixed with `type`, each subsequent
/// one with `and`, the block terminated by `;`.
pub fn render_type_hierarchy(types: &Vec<AstType>) -> (r: String)
    ensures
        r@ == spec_render_hierarchy(types_view(types@)),
{
    let ghost tv = types_view(types@);
    let mut out = String::new();
    let mut i: usize = 0;
    proof {
        assert(tv.skip(0) =~= tv);
        assert(out@ =~= Seq::<char>::empty());
    }
    while i < types.len()
        invariant
            i <= types@.len(),
            tv == types_view(types@),
            out@ + spec_render_items(tv.skip(i as int), i == 0) == spec_render_items(tv, true),
        decreases types@.len() - i,
    {
        let ghost pre = out@;
        proof {
            reveal_strlit("type ");
            reveal_strlit("\nand ");
            assert(tv.skip(i as int)[0] == tv[i as int]);
            assert(tv.skip(i as int).drop_first() =~= tv.skip(i + 1 as int));
        }
        if i == 0 {
            out.append("type ");
        } else {
            out.append("\nand ");
        }
        out.append(types[i].name.as_str());
        proof {
            reveal_strlit(" = ");
        }
        out.append(" = ");
        types[i].repr.render_into(&mut out);
        proof {
            assert(out@ =~= pre + ((if i == 0 {
                "type "@
            } else {
                "\nand "@
            }) + spec_render_type(tv[i as int])));
            assert(out@ + spec_render_items(tv.skip(i + 1 as int), false) =~= pre
                + spec_render_items(tv.skip(i as int), i == 0));
        }
        i = i + 1;
    }
    proof {
        reveal_strlit("\n;");
        assert(tv.skip(types@.len() as int) =~= Seq::<AstTypeView>::empty());
        assert(out@ + Seq::<char>::empty() =~= out@);
    }
    out.append("\n;");
    proof {
        assert(out@ =~= spec_render_hierarchy(tv));
    }
    out
}

/// A heap copy of a string literal.
fn lit_string(s: &str) -> (r: String)
    ensures
        r@ == s@,
{
    s.to_owned()
}

/// The constructor tag for the rule named `name`.
fn make_ctor_tag(name: &str) -> (r: String)
    ensures
        r@ == ctor_tag(name@),
{
    let mut r = to_upper(name);
    r.append("_CTOR");
    r
}

impl AstType {
    /// The named type of one rule: the rule's name together with the
    /// representation its body denotes.
    pub fn from_rule(name: &str, rule: &RuleBody) -> (r: AstType)
        ensures
            r@.name == name@,
            r@.repr == spec_repr_of(name@, rule@),
    {
        AstType { name: lit_string(name), repr: AstTypeRepr::from_rule_body(name, rule) }
    }
}

} // verus!
