//! Declarative conversion-rule records and their validation: the
//! configuration-option universe, the choice of the arm matching the
//! active options, and the installation of a parsed rule's types and
//! edges into the type graph.
use vstd::prelude::*;

verus! {

use crate::{SourceId, Span};
use crate::diag::{DiagKind, Diagnostic};
use crate::graph::{ConvRule, ForeignTypeRec, Intermediate, TypeGraph};
use crate::text::{seq_has_text, str_eq, vec_has_text};

/// Which C++ representation of an optional value is generated.
#[derive(Clone, Copy, PartialEq, Eq, Structural, Debug)]
pub enum CppOptional {
    Std17,
    Boost,
}

/// Which C++ representation of a union type is generated.
#[derive(Clone, Copy, PartialEq, Eq, Structural, Debug)]
pub enum CppVariant {
    Std17,
    Boost,
}

/// Which C++ representation of a string view is generated.
#[derive(Clone, Copy, PartialEq, Eq, Structural, Debug)]
pub enum CppStrView {
    Std17,
    Boost,
}

/// The token a rule writes to select an optional representation.
pub open spec fn optional_token_text(o: CppOptional) -> Seq<char> {
    match o {
        CppOptional::Std17 => "CppOptional::Std17"@,
        CppOptional::Boost => "CppOptional::Boost"@,
    }
}

/// The token a rule writes to select a union-type representation.
pub open spec fn variant_token_text(o: CppVariant) -> Seq<char> {
    match o {
        CppVariant::Std17 => "CppVariant::Std17"@,
        CppVariant::Boost => "CppVariant::Boost"@,
    }
}

/// The token a rule writes to select a string-view representation.
pub open spec fn str_view_token_text(o: CppStrView) -> Seq<char> {
    match o {
        CppStrView::Std17 => "CppStrView::Std17"@,
        CppStrView::Boost => "CppStrView::Boost"@,
    }
}

/// The token of the configured optional representation.
pub fn optional_token(o: CppOptional) -> (r: &'static str)
    ensures
        r@ == optional_token_text(o),
{
    match o {
        CppOptional::Std17 => "CppOptional::Std17",
        CppOptional::Boost => "CppOptional::Boost",
    }
}

/// The token of the configured union-type representation.
pub fn variant_token(o: CppVariant) -> (r: &'static str)
    ensures
        r@ == variant_token_text(o),
{
    match o {
        CppVariant::Std17 => "CppVariant::Std17",
        CppVariant::Boost => "CppVariant::Boost",
    }
}

/// The token of the configured string-view representation.
pub fn str_view_token(o: CppStrView) -> (r: &'static str)
    ensures
        r@ == str_view_token_text(o),
{
    match o {
        CppStrView::Std17 => "CppStrView::Std17",
        CppStrView::Boost => "CppStrView::Boost",
    }
}

/// The whole universe of recognised configuration-option tokens.
pub open spec fn option_universe_texts() -> Seq<Seq<char>> {
    seq![
        "CppOptional::Std17"@,
        "CppOptional::Boost"@,
        "CppVariant::Std17"@,
        "CppVariant::Boost"@,
        "CppStrView::Std17"@,
        "CppStrView::Boost"@,
    ]
}

/// Builds the universe of recognised configuration-option tokens.
pub fn all_cfg_options() -> (r: Vec<String>)
    ensures
        crate::text::texts_of(r@) == option_universe_texts(),
{
    let mut r: Vec<String> = Vec::new();
    r.push("CppOptional::Std17".to_owned());
    r.push("CppOptional::Boost".to_owned());
    r.push("CppVariant::Std17".to_owned());
    r.push("CppVariant::Boost".to_owned());
    r.push("CppStrView::Std17".to_owned());
    r.push("CppStrView::Boost".to_owned());
    proof {
        assert(crate::text::texts_of(r@) =~= option_universe_texts());
    }
    r
}

/// One raw C item a rule declares for a header.
pub enum CItem {
    Struct(String),
    Union(String),
    Fn(String),
}

/// The raw C items of a rule, together with the header they belong to.
pub struct CItems {
    pub header_name: String,
    pub items: Vec<CItem>,
}

/// A free-form foreign code fragment of a rule, routed to a module.
pub struct FCode {
    pub module_name: String,
    pub cfg_option: Option<String>,
    pub code: String,
}

/// One directional foreign-type arm of a rule, guarded by an optional
/// configuration token.
pub struct FTypeArm {
    pub cfg_option: Option<String>,
    pub name: String,
    /// Canonical text of the native type the arm terminates at.
    pub rust_ty: String,
    pub req_modules: Vec<String>,
    /// The intermediate type text, the foreign-side conversion code,
    /// and the input-to-output flag, when the ABI sees another type.
    pub intermediate: Option<(String, String, bool)>,
}

/// A native-side conversion edge a rule installs.
pub struct RTypeRule {
    pub left_ty: String,
    pub right_ty: String,
    pub code: String,
}

/// A parsed type-mapping rule, not yet merged.
pub struct TypeMapConvRuleInfo {
    pub src_id: SourceId,
    pub span: Span,
    pub c_types: Option<CItems>,
    pub f_code: Vec<FCode>,
    pub ftype_left_to_right: Vec<FTypeArm>,
    pub ftype_right_to_left: Vec<FTypeArm>,
    pub rtype_left_to_right: Option<RTypeRule>,
    pub rtype_right_to_left: Option<RTypeRule>,
    /// Native glue items the rule carries, emitted once per
    /// instantiation by the managed-runtime target.
    pub rust_items: Vec<String>,
}

impl TypeMapConvRuleInfo {
    /// A rule with no content at all.
    pub open spec fn spec_is_empty(self) -> bool {
        &&& self.c_types is None
    &&& self.f_code@.len() == 0
    &&& self.ftype_left_to_right@.len() == 0
    &&& self.ftype_right_to_left@.len() == 0
    &&& self.rtype_left_to_right is None
    &&& self.rtype_right_to_left is None
    &&& self.rust_items@.len() == 0
    }

    /// Whether the rule holds no content at all.
    pub fn is_empty(&self) -> (r: bool)
        ensures
            r == self.spec_is_empty(),
    {
        self.c_types.is_none() && self.f_code.len() == 0 && self.ftype_left_to_right.len() == 0
            && self.ftype_right_to_left.len() == 0 && self.rtype_left_to_right.is_none()
            && self.rtype_right_to_left.is_none() && self.rust_items.len() == 0
    }
}

/// The guard token of arm `a`, when it has one.
pub open spec fn arm_token(a: FTypeArm) -> Option<Seq<char>> {
    match a.cfg_option {
        Some(t) => Some(t@),
        None => None,
    }
}

/// Whether every guard token the rule writes is a recognised one.
pub open spec fn rule_options_known(rule: TypeMapConvRuleInfo) -> bool {
    &&& forall|i: int|
        0 <= i < rule.f_code@.len() ==> (match (#[trigger] rule.f_code@[i]).cfg_option {
            Some(t) => option_universe_texts().contains(t@),
            None => true,
        })
&&& forall|i: int|
        0 <= i < rule.ftype_left_to_right@.len() ==> (match (#[trigger] rule.ftype_left_to_right@[i]).cfg_option {
            Some(t) => option_universe_texts().contains(t@),
            None => true,
        })
&&& forall|i: int|
        0 <= i < rule.ftype_right_to_left@.len() ==> (match (#[trigger] rule.ftype_right_to_left@[i]).cfg_option {
            Some(t) => option_universe_texts().contains(t@),
            None => true,
        })
}

/// Membership of a token in the option universe.
fn universe_contains(tok: &str) -> (r: bool)
    ensures
        r == option_universe_texts().contains(tok@),
{
    let all = all_cfg_options();
    let r = vec_has_text(&all, tok);
    proof {
        if r {
            let j = choose|j: int| 0 <= j < all@.len() && #[trigger] all@[j]@ == tok@;
            assert(crate::text::texts_of(all@)[j] == tok@);
            assert(option_universe_texts().contains(tok@));
        } else {
            if option_universe_texts().contains(tok@) {
                let j = choose|j: int|
                    0 <= j < option_universe_texts().len() && option_universe_texts()[j] == tok@;
                assert(crate::text::texts_of(all@)[j] == all@[j]@);
                assert(all@[j]@ == tok@);
            }
        }
    }
    r
}

/// Checks one optional guard token against the universe.
fn option_known(opt: &Option<String>) -> (r: bool)
    ensures
        r == (match *opt {
            Some(t) => option_universe_texts().contains(t@),
            None => true,
        }),
{
    match opt {
        Some(t) => universe_contains(t.as_str()),
        None => true,
    }
}

/// Rejects a rule that names a configuration option outside the
/// recognised universe.
pub fn validate_cfg_options(rule: &TypeMapConvRuleInfo) -> (r: Result<(), Diagnostic>)
    ensures
        match r {
            Ok(_) => rule_options_known(*rule),
            Err(d) => !rule_options_known(*rule) && d.kind == DiagKind::UnknownOption,
        },
{
    let mut i: usize = 0;
    while i < rule.f_code.len()
        invariant
            i <= rule.f_code@.len(),
            forall|k: int|
                0 <= k < i ==> (match (#[trigger] rule.f_code@[k]).cfg_option {
                    Some(t) => option_universe_texts().contains(t@),
                    None => true,
                }),
        decreases rule.f_code@.len() - i,
    {
        if !option_known(&rule.f_code[i].cfg_option) {
            return Err(
                Diagnostic::new(
                    rule.src_id,
                    rule.span,
                    DiagKind::UnknownOption,
                    "unknown configuration option in foreign code fragment".to_owned(),
                ),
            );
        }
        i += 1;
    }
    let mut i: usize = 0;
    while i < rule.ftype_left_to_right.len()
        invariant
            i <= rule.ftype_left_to_right@.len(),
            forall|k: int|
                0 <= k < rule.f_code@.len() ==> (match (#[trigger] rule.f_code@[k]).cfg_option {
                    Some(t) => option_universe_texts().contains(t@),
                    None => true,
                }),
            forall|k: int|
                0 <= k < i ==> (match (#[trigger] rule.ftype_left_to_right@[k]).cfg_option {
                    Some(t) => option_universe_texts().contains(t@),
                    None => true,
                }),
        decreases rule.ftype_left_to_right@.len() - i,
    {
        if !option_known(&rule.ftype_left_to_right[i].cfg_option) {
            return Err(
                Diagnostic::new(
                    rule.src_id,
                    rule.span,
                    DiagKind::UnknownOption,
                    "unknown configuration option in foreign type rule".to_owned(),
                ),
            );
        }
        i += 1;
    }
    let mut i: usize = 0;
    while i < rule.ftype_right_to_left.len()
        invariant
            i <= rule.ftype_right_to_left@.len(),
            forall|k: int|
                0 <= k < rule.f_code@.len() ==> (match (#[trigger] rule.f_code@[k]).cfg_option {
                    Some(t) => option_universe_texts().contains(t@),
                    None => true,
                }),
            forall|k: int|
                0 <= k < rule.ftype_left_to_right@.len() ==> (match (#[trigger] rule.ftype_left_to_right@[k]).cfg_option {
                    Some(t) => option_universe_texts().contains(t@),
                    None => true,
                }),
            forall|k: int|
                0 <= k < i ==> (match (#[trigger] rule.ftype_right_to_left@[k]).cfg_option {
                    Some(t) => option_universe_texts().contains(t@),
                    None => true,
                }),
        decreases rule.ftype_right_to_left@.len() - i,
    {
        if !option_known(&rule.ftype_right_to_left[i].cfg_option) {
            return Err(
                Diagnostic::new(
                    rule.src_id,
                    rule.span,
                    DiagKind::UnknownOption,
                    "unknown configuration option in foreign type rule".to_owned(),
                ),
            );
        }
        i += 1;
    }
    Ok(())
}

/// The first arm whose guard is inactive is dropped; the selected arm
/// is the first whose guard is absent or active.
pub open spec fn spec_selected_arm(arms: Seq<FTypeArm>, active: Seq<String>, i: int) -> Option<int>
    decreases arms.len() - i,
{
    if i < 0 || i >= arms.len() {
        None
    } else {
        match arms[i].cfg_option {
            None => Some(i),
            Some(t) => if seq_has_text(active, t@) {
                Some(i)
            } else {
                spec_selected_arm(arms, active, i + 1)
            },
        }
    }
}

/// Selects the arm of a directional rule matching the active options:
/// the first whose guard is absent or active.
pub fn configure_ftype_rule<'a>(arms: &'a Vec<FTypeArm>, active: &Vec<String>) -> (r: Option<
    &'a FTypeArm,
>)
    ensures
        match r {
            Some(a) => {
                &&& spec_selected_arm(arms@, active@, 0) is Some
            &&& *a == arms@[spec_selected_arm(arms@, active@, 0)->0]
            },
            None => spec_selected_arm(arms@, active@, 0) is None,
        },
{
    let mut i: usize = 0;
    while i < arms.len()
        invariant
            i <= arms@.len(),
            spec_selected_arm(arms@, active@, 0) == spec_selected_arm(arms@, active@, i as int),
        decreases arms@.len() - i,
    {
        let take = match &arms[i].cfg_option {
            None => true,
            Some(t) => vec_has_text(active, t.as_str()),
        };
        if take {
            return Some(&arms[i]);
        }
        i += 1;
    }
    None
}

/// Installs one selected directional arm into the graph: allocates the
/// native types its texts name and registers the foreign type with its
/// rule pointing the right way; when the name already stands with the
/// arm's direction still empty, the arm fills that direction of the
/// existing record.  `left_to_right` serves the outgoing direction,
/// the other arm the incoming one.  An arm whose direction is already
/// ruled under its name is refused and the foreign arena stays as it
/// was.
#[verifier::rlimit(30)]
pub fn install_ftype_arm(
    g: &mut TypeGraph,
    arm: &FTypeArm,
    left_to_right: bool,
    src_id: SourceId,
    span: Span,
) -> (r: Result<usize, Diagnostic>)
    requires
        old(g).wf(),
    ensures
        final(g).wf(),
        final(g).edges@ == old(g).edges@,
        final(g).n_len() >= old(g).n_len(),
        forall|j: int| 0 <= j < old(g).n_len() ==> #[trigger] final(g).ntypes@[j] == old(g).ntypes@[j],
        final(g).ftypes@.len() >= old(g).ftypes@.len(),
        crate::graph::foreign_names_preserved(*old(g), *final(g)),
        forall|k: int, n2: int|
            0 <= k < old(g).ftypes@.len() && (#[trigger] old(g).ftypes@[k].targets(
                crate::graph::Direction::Outgoing,
                n2,
            )) ==> final(g).ftypes@[k].targets(crate::graph::Direction::Outgoing, n2),
        match r {
            Ok(_) => {
                &&& (!old(g).has_foreign_name(arm.name@) ==> {
                    &&& final(g).ftypes@.len() == old(g).ftypes@.len() + 1
                &&& forall|k: int|
                        0 <= k < old(g).ftypes@.len() ==> #[trigger] final(g).ftypes@[k] == old(
                            g,
                        ).ftypes@[k]
                &&& installed_arm_ok(*final(g), final(g).ftypes@.len() - 1, *arm, left_to_right)
                &&& (if left_to_right {
                        final(g).ftypes@.last().from_into_rust is None
                    } else {
                        final(g).ftypes@.last().into_from_rust is None
                    })
                })
            &&& (old(g).has_foreign_name(arm.name@) ==> {
                    &&& final(g).ftypes@.len() == old(g).ftypes@.len()
                &&& (exists|f: int|
                        {
                            &&& 0 <= f < old(g).ftypes@.len()
                        &&& (#[trigger] old(g).ftypes@[f]).name@ == arm.name@
                        &&& (if left_to_right {
                                old(g).ftypes@[f].into_from_rust is None
                            } else {
                                old(g).ftypes@[f].from_into_rust is None
                            })
                        &&& (forall|k: int|
                                0 <= k < final(g).ftypes@.len() && k != f
                                    ==> #[trigger] final(g).ftypes@[k] == old(g).ftypes@[k])
                        &&& installed_arm_ok(*final(g), f, *arm, left_to_right)
                        &&& (if left_to_right {
                                final(g).ftypes@[f].from_into_rust == old(
                                    g,
                                ).ftypes@[f].from_into_rust
                            } else {
                                final(g).ftypes@[f].into_from_rust == old(
                                    g,
                                ).ftypes@[f].into_from_rust
                            })
                        })
                })
            },
            Err(d) => {
                &&& d.kind == DiagKind::DuplicateForeignType
            &&& old(g).has_foreign_name(arm.name@)
            &&& final(g).ftypes@ == old(g).ftypes@
            },
        },
{
    let rust_ty = g.find_or_alloc_native(arm.rust_ty.as_str(), src_id);
    let inter = match &arm.intermediate {
        Some((ity, code, input_to_output)) => {
            let ity_idx = g.find_or_alloc_native(ity.as_str(), src_id);
            Some(
                Intermediate {
                    intermediate_ty: ity_idx,
                    conv_code: code.clone(),
                    input_to_output: *input_to_output,
                },
            )
        },
        None => None,
    };
    let rule = ConvRule { rust_ty, intermediate: inter };
    match g.find_foreign_by_name(arm.name.as_str()) {
        Some(fidx) => {
            let slot_free = if left_to_right {
                g.ftypes[fidx].into_from_rust.is_none()
            } else {
                g.ftypes[fidx].from_into_rust.is_none()
            };
            if !slot_free {
                let mut msg = "duplicate foreign type ".to_owned();
                msg.append(arm.name.as_str());
                return Err(
                    Diagnostic::new(src_id, span, DiagKind::DuplicateForeignType, msg),
                );
            }
            let ghost gpre = *g;
            g.set_foreign_rule(fidx, left_to_right, rule);
            proof {
                assert(g.ftypes@[fidx as int].name@ == arm.name@);
                assert(installed_arm_ok(*g, fidx as int, *arm, left_to_right));
                assert(old(g).ftypes@[fidx as int].name@ == arm.name@);
                assert forall|k: int, n2: int|
                    0 <= k < old(g).ftypes@.len() && (#[trigger] old(g).ftypes@[k].targets(
                        crate::graph::Direction::Outgoing,
                        n2,
                    )) implies g.ftypes@[k].targets(crate::graph::Direction::Outgoing, n2) by {
                    if k != fidx {
                        assert(g.ftypes@[k] == old(g).ftypes@[k]);
                    } else {
                        if left_to_right {
                            assert(old(g).ftypes@[k].into_from_rust is None);
                        } else {
                            assert(g.ftypes@[k].into_from_rust
                                == old(g).ftypes@[k].into_from_rust);
                        }
                    }
                }
            }
            Ok(fidx)
        },
        None => {
            let ft = if left_to_right {
                ForeignTypeRec {
                    name: arm.name.clone(),
                    provides_by_module: crate::sig::clone_strings(&arm.req_modules),
                    into_from_rust: Some(rule),
                    from_into_rust: None,
                    name_prefix: None,
                    src_id,
                    span,
                }
            } else {
                ForeignTypeRec {
                    name: arm.name.clone(),
                    provides_by_module: crate::sig::clone_strings(&arm.req_modules),
                    into_from_rust: None,
                    from_into_rust: Some(rule),
                    name_prefix: None,
                    src_id,
                    span,
                }
            };
            match g.alloc_foreign(ft) {
                Ok(i) => {
                    proof {
                        assert(g.ftypes@.last().name@ == arm.name@);
                        assert(installed_arm_ok(*g, g.ftypes@.len() - 1, *arm, left_to_right));
                    }
                    Ok(i)
                },
                Err(d) => {
                    proof {
                        assert(false);
                    }
                    Err(d)
                },
            }
        },
    }
}

/// The record at `f` carries the arm: its name, and in the served
/// direction a rule whose native texts and templates are the arm's.
pub open spec fn installed_arm_ok(g: TypeGraph, f: int, arm: FTypeArm, left_to_right: bool) -> bool {
    let ft = g.ftypes@[f];
    let rule = if left_to_right {
        ft.into_from_rust
    } else {
        ft.from_into_rust
    };
    &&& ft.name@ == arm.name@
&&& (match rule {
        Some(rl) => {
            &&& rl.rust_ty < g.n_len()
        &&& g.ntext(rl.rust_ty as int) == arm.rust_ty@
        &&& (match (arm.intermediate, rl.intermediate) {
                (Some((ity, code, flag)), Some(im)) => {
                    &&& im.intermediate_ty < g.n_len()
                &&& g.ntext(im.intermediate_ty as int) == ity@
                &&& im.conv_code@ == code@
                &&& im.input_to_output == flag
                },
                (None, None) => true,
                _ => false,
            })
        },
        None => false,
    })
}

/// The foreign-side placeholder of a parameter: the token a template
/// writes where the concrete foreign type name belongs.
pub open spec fn f_placeholder_text(param: Seq<char>) -> Seq<char> {
    "swig_f_type!("@ + param + ")"@
}

/// Builds the foreign-side placeholder of a parameter.
pub fn f_placeholder(param: &str) -> (r: String)
    ensures
        r@ == f_placeholder_text(param@),
{
    let mut s = "swig_f_type!(".to_owned();
    s.append(param);
    s.append(")");
    proof {
        assert(s@ =~= f_placeholder_text(param@));
    }
    s
}

/// A text with the parameter substituted: first the foreign
/// placeholder by the concrete foreign name, then the bare parameter
/// token by the concrete native text.
pub open spec fn subst_text(
    t: Seq<char>,
    param: Seq<char>,
    rust_concrete: Seq<char>,
    foreign_concrete: Seq<char>,
) -> Seq<char> {
    crate::text::replace_spec(
        crate::text::replace_spec(t, f_placeholder_text(param), foreign_concrete),
        param,
        rust_concrete,
    )
}

/// Substitutes the parameter in one text.
pub fn subst(param: &str, rust_concrete: &str, foreign_concrete: &str, t: &str) -> (r: String)
    requires
        param@.len() >= 1,
    ensures
        r@ == subst_text(t@, param@, rust_concrete@, foreign_concrete@),
{
    let ph = f_placeholder(param);
    proof {
        assert(ph@.len() >= 1) by {
            reveal_strlit("swig_f_type!(");
            reveal_strlit(")");
        }
    }
    let step1 = crate::text::replace_all(t, ph.as_str(), foreign_concrete);
    crate::text::replace_all(step1.as_str(), param, rust_concrete)
}

/// Instantiates one directional arm of a parametric rule.
fn instantiate_arm(
    arm: &FTypeArm,
    param: &str,
    rust_concrete: &str,
    foreign_concrete: &str,
) -> (r: FTypeArm)
    requires
        param@.len() >= 1,
    ensures
        (match arm.cfg_option {
            Some(t) => r.cfg_option is Some && r.cfg_option->0@ == t@,
            None => r.cfg_option is None,
        }),
        r.name@ == subst_text(arm.name@, param@, rust_concrete@, foreign_concrete@),
        r.rust_ty@ == subst_text(arm.rust_ty@, param@, rust_concrete@, foreign_concrete@),
        r.req_modules@ == arm.req_modules@,
        (match arm.intermediate {
            Some((ity, code, flag)) => r.intermediate is Some && {
                let (rity, rcode, rflag) = r.intermediate->0;
                &&& rity@ == subst_text(ity@, param@, rust_concrete@, foreign_concrete@)
            &&& rcode@ == subst_text(code@, param@, rust_concrete@, foreign_concrete@)
            &&& rflag == flag
            },
            None => r.intermediate is None,
        }),
{
    FTypeArm {
        cfg_option: match &arm.cfg_option {
            Some(t) => Some(t.clone()),
            None => None,
        },
        name: subst(param, rust_concrete, foreign_concrete, arm.name.as_str()),
        rust_ty: subst(param, rust_concrete, foreign_concrete, arm.rust_ty.as_str()),
        req_modules: crate::sig::clone_strings(&arm.req_modules),
        intermediate: match &arm.intermediate {
            Some((ity, code, flag)) => Some(
                (
                    subst(param, rust_concrete, foreign_concrete, ity.as_str()),
                    subst(param, rust_concrete, foreign_concrete, code.as_str()),
                    *flag,
                ),
            ),
            None => None,
        },
    }
}

/// Instantiates a parametric rule on a concrete type: clones the
/// rule's templates with the parameter replaced by the concrete
/// native type text and the foreign placeholder by the concrete
/// foreign name.  The caller merges the result like any other rule.
#[verifier::loop_isolation(false)]
pub fn instantiate_generic_rule(
    rule: &TypeMapConvRuleInfo,
    param: &str,
    rust_concrete: &str,
    foreign_concrete: &str,
) -> (r: TypeMapConvRuleInfo)
    requires
        param@.len() >= 1,
    ensures
        r.src_id == rule.src_id,
        r.span == rule.span,
        r.c_types is None <==> rule.c_types is None,
        r.f_code@.len() == rule.f_code@.len(),
        forall|i: int|
            0 <= i < r.f_code@.len() ==> (#[trigger] r.f_code@[i]).code@ == subst_text(
                rule.f_code@[i].code@,
                param@,
                rust_concrete@,
                foreign_concrete@,
            ) && r.f_code@[i].module_name@ == subst_text(
                rule.f_code@[i].module_name@,
                param@,
                rust_concrete@,
                foreign_concrete@,
            ),
        r.ftype_left_to_right@.len() == rule.ftype_left_to_right@.len(),
        forall|i: int|
            0 <= i < r.ftype_left_to_right@.len() ==> (#[trigger] r.ftype_left_to_right@[i]).name@
                == subst_text(
                rule.ftype_left_to_right@[i].name@,
                param@,
                rust_concrete@,
                foreign_concrete@,
            ) && r.ftype_left_to_right@[i].rust_ty@ == subst_text(
                rule.ftype_left_to_right@[i].rust_ty@,
                param@,
                rust_concrete@,
                foreign_concrete@,
            ),
        r.ftype_right_to_left@.len() == rule.ftype_right_to_left@.len(),
        forall|i: int|
            0 <= i < r.ftype_right_to_left@.len() ==> (#[trigger] r.ftype_right_to_left@[i]).name@
                == subst_text(
                rule.ftype_right_to_left@[i].name@,
                param@,
                rust_concrete@,
                foreign_concrete@,
            ) && r.ftype_right_to_left@[i].rust_ty@ == subst_text(
                rule.ftype_right_to_left@[i].rust_ty@,
                param@,
                rust_concrete@,
                foreign_concrete@,
            ),
        (match rule.rtype_left_to_right {
            Some(rt) => r.rtype_left_to_right is Some && {
                let rr = r.rtype_left_to_right->0;
                &&& rr.left_ty@ == subst_text(rt.left_ty@, param@, rust_concrete@, foreign_concrete@)
            &&& rr.right_ty@ == subst_text(
                    rt.right_ty@,
                    param@,
                    rust_concrete@,
                    foreign_concrete@,
                )
            &&& rr.code@ == subst_text(rt.code@, param@, rust_concrete@, foreign_concrete@)
            },
            None => r.rtype_left_to_right is None,
        }),
        (match rule.rtype_right_to_left {
            Some(rt) => r.rtype_right_to_left is Some && {
                let rr = r.rtype_right_to_left->0;
                &&& rr.left_ty@ == subst_text(rt.left_ty@, param@, rust_concrete@, foreign_concrete@)
            &&& rr.right_ty@ == subst_text(
                    rt.right_ty@,
                    param@,
                    rust_concrete@,
                    foreign_concrete@,
                )
            &&& rr.code@ == subst_text(rt.code@, param@, rust_concrete@, foreign_concrete@)
            },
            None => r.rtype_right_to_left is None,
        }),
        r.rust_items@.len() == rule.rust_items@.len(),
        forall|i: int|
            0 <= i < r.rust_items@.len() ==> (#[trigger] r.rust_items@[i])@ == subst_text(
                rule.rust_items@[i]@,
                param@,
                rust_concrete@,
                foreign_concrete@,
            ),
{
    let c_types = match &rule.c_types {
        Some(ct) => {
            let mut items: Vec<CItem> = Vec::new();
            let mut i: usize = 0;
            while i < ct.items.len()
                invariant
                    i <= ct.items@.len(),
                decreases ct.items@.len() - i,
            {
                let it = match &ct.items[i] {
                    CItem::Struct(s) => CItem::Struct(
                        subst(param, rust_concrete, foreign_concrete, s.as_str()),
                    ),
                    CItem::Union(u) => CItem::Union(
                        subst(param, rust_concrete, foreign_concrete, u.as_str()),
                    ),
                    CItem::Fn(f) => CItem::Fn(
                        subst(param, rust_concrete, foreign_concrete, f.as_str()),
                    ),
                };
                items.push(it);
                i += 1;
            }
            Some(
                CItems {
                    header_name: subst(
                        param,
                        rust_concrete,
                        foreign_concrete,
                        ct.header_name.as_str(),
                    ),
                    items,
                },
            )
        },
        None => None,
    };
    let mut f_code: Vec<FCode> = Vec::new();
    let mut i: usize = 0;
    while i < rule.f_code.len()
        invariant
            i <= rule.f_code@.len(),
            f_code@.len() == i,
            param@.len() >= 1,
            forall|k: int|
                0 <= k < i ==> (#[trigger] f_code@[k]).code@ == subst_text(
                    rule.f_code@[k].code@,
                    param@,
                    rust_concrete@,
                    foreign_concrete@,
                ) && f_code@[k].module_name@ == subst_text(
                    rule.f_code@[k].module_name@,
                    param@,
                    rust_concrete@,
                    foreign_concrete@,
                ),
        decreases rule.f_code@.len() - i,
    {
        let fc = &rule.f_code[i];
        f_code.push(
            FCode {
                module_name: subst(param, rust_concrete, foreign_concrete, fc.module_name.as_str()),
                cfg_option: match &fc.cfg_option {
                    Some(t) => Some(t.clone()),
                    None => None,
                },
                code: subst(param, rust_concrete, foreign_concrete, fc.code.as_str()),
            },
        );
        i += 1;
    }
    let mut ltr: Vec<FTypeArm> = Vec::new();
    let mut i: usize = 0;
    while i < rule.ftype_left_to_right.len()
        invariant
            i <= rule.ftype_left_to_right@.len(),
            ltr@.len() == i,
            param@.len() >= 1,
            forall|k: int|
                0 <= k < i ==> (#[trigger] ltr@[k]).name@ == subst_text(
                    rule.ftype_left_to_right@[k].name@,
                    param@,
                    rust_concrete@,
                    foreign_concrete@,
                ) && ltr@[k].rust_ty@ == subst_text(
                    rule.ftype_left_to_right@[k].rust_ty@,
                    param@,
                    rust_concrete@,
                    foreign_concrete@,
                ),
        decreases rule.ftype_left_to_right@.len() - i,
    {
        ltr.push(instantiate_arm(&rule.ftype_left_to_right[i], param, rust_concrete, foreign_concrete));
        i += 1;
    }
    let mut rtl: Vec<FTypeArm> = Vec::new();
    let mut i: usize = 0;
    while i < rule.ftype_right_to_left.len()
        invariant
            i <= rule.ftype_right_to_left@.len(),
            rtl@.len() == i,
            param@.len() >= 1,
            forall|k: int|
                0 <= k < i ==> (#[trigger] rtl@[k]).name@ == subst_text(
                    rule.ftype_right_to_left@[k].name@,
                    param@,
                    rust_concrete@,
                    foreign_concrete@,
                ) && rtl@[k].rust_ty@ == subst_text(
                    rule.ftype_right_to_left@[k].rust_ty@,
                    param@,
                    rust_concrete@,
                    foreign_concrete@,
                ),
        decreases rule.ftype_right_to_left@.len() - i,
    {
        rtl.push(instantiate_arm(&rule.ftype_right_to_left[i], param, rust_concrete, foreign_concrete));
        i += 1;
    }
    let rtype_left_to_right = match &rule.rtype_left_to_right {
        Some(rt) => Some(
            RTypeRule {
                left_ty: subst(param, rust_concrete, foreign_concrete, rt.left_ty.as_str()),
                right_ty: subst(param, rust_concrete, foreign_concrete, rt.right_ty.as_str()),
                code: subst(param, rust_concrete, foreign_concrete, rt.code.as_str()),
            },
        ),
        None => None,
    };
    let rtype_right_to_left = match &rule.rtype_right_to_left {
        Some(rt) => Some(
            RTypeRule {
                left_ty: subst(param, rust_concrete, foreign_concrete, rt.left_ty.as_str()),
                right_ty: subst(param, rust_concrete, foreign_concrete, rt.right_ty.as_str()),
                code: subst(param, rust_concrete, foreign_concrete, rt.code.as_str()),
            },
        ),
        None => None,
    };
    let mut rust_items: Vec<String> = Vec::new();
    let mut i: usize = 0;
    while i < rule.rust_items.len()
        invariant
            i <= rule.rust_items@.len(),
            rust_items@.len() == i,
            param@.len() >= 1,
            forall|k: int|
                0 <= k < i ==> (#[trigger] rust_items@[k])@ == subst_text(
                    rule.rust_items@[k]@,
                    param@,
                    rust_concrete@,
                    foreign_concrete@,
                ),
        decreases rule.rust_items@.len() - i,
    {
        rust_items.push(subst(param, rust_concrete, foreign_concrete, rule.rust_items[i].as_str()));
        i += 1;
    }
    TypeMapConvRuleInfo {
        src_id: rule.src_id,
        span: rule.span,
        c_types,
        f_code,
        ftype_left_to_right: ltr,
        ftype_right_to_left: rtl,
        rtype_left_to_right,
        rtype_right_to_left,
        rust_items,
    }
}

/// The memo of generic instantiations: which (rule, concrete
/// parameters) combinations were already expanded.
pub struct InstantiationCache {
    pub entries: Vec<(usize, Vec<usize>)>,
}

impl InstantiationCache {
    /// Whether the combination is recorded.
    pub open spec fn spec_has(self, rule_id: int, params: Seq<usize>) -> bool {
        exists|k: int|
            0 <= k < self.entries@.len() && (#[trigger] self.entries@[k]).0 == rule_id
                && self.entries@[k].1@ == params
    }

    /// An empty memo.
    pub fn new() -> (r: InstantiationCache)
        ensures
            r.entries@.len() == 0,
    {
        InstantiationCache { entries: Vec::new() }
    }

    /// Looks the combination up.
    pub fn contains(&self, rule_id: usize, params: &Vec<usize>) -> (r: bool)
        ensures
            r == self.spec_has(rule_id as int, params@),
    {
        let mut k: usize = 0;
        while k < self.entries.len()
            invariant
                k <= self.entries@.len(),
                forall|j: int|
                    0 <= j < k ==> !((#[trigger] self.entries@[j]).0 == rule_id as int
                        && self.entries@[j].1@ == params@),
            decreases self.entries@.len() - k,
        {
            let e = &self.entries[k];
            if e.0 == rule_id && usize_vec_eq(&e.1, params) {
                return true;
            }
            k += 1;
        }
        false
    }

    /// Records the combination.
    pub fn record(&mut self, rule_id: usize, params: Vec<usize>)
        ensures
            final(self).spec_has(rule_id as int, params@),
            forall|id: int, p: Seq<usize>|
                #[trigger] old(self).spec_has(id, p) ==> final(self).spec_has(id, p),
            forall|id: int, p: Seq<usize>|
                #[trigger] final(self).spec_has(id, p) ==> old(self).spec_has(id, p) || (id
                    == rule_id as int && p == params@),
    {
        let ghost p = params@;
        self.entries.push((rule_id, params));
        proof {
            assert((self.entries@.last()).0 == rule_id as int);
            assert(self.entries@.last().1@ == p);
            assert(self.spec_has(rule_id as int, p));
            assert forall|id: int, pp: Seq<usize>| #[trigger]
                old(self).spec_has(id, pp) implies self.spec_has(id, pp) by {
                let k = choose|k: int|
                    0 <= k < old(self).entries@.len() && (#[trigger] old(self).entries@[k]).0 == id
                        && old(self).entries@[k].1@ == pp;
                assert(self.entries@[k] == old(self).entries@[k]);
            }
            assert forall|id: int, pp: Seq<usize>| #[trigger]
                self.spec_has(id, pp) implies old(self).spec_has(id, pp) || (id == rule_id as int
                && pp == p) by {
                let k = choose|k: int|
                    0 <= k < self.entries@.len() && (#[trigger] self.entries@[k]).0 == id
                        && self.entries@[k].1@ == pp;
                if k < old(self).entries@.len() {
                    assert(old(self).entries@[k] == self.entries@[k]);
                }
            }
        }
    }
}

/// The first position where `pat` occurs in `s`, from `i` on.
pub open spec fn first_occurrence(s: Seq<char>, pat: Seq<char>, i: int) -> Option<int>
    decreases s.len() + 1 - i,
{
    if i < 0 || i + pat.len() > s.len() {
        None
    } else if s.subrange(i, i + pat.len()) == pat {
        Some(i)
    } else {
        first_occurrence(s, pat, i + 1)
    }
}

/// A found occurrence lies inside the text and reads the pattern.
pub proof fn lemma_first_occurrence_props(s: Seq<char>, pat: Seq<char>, i: int)
    requires
        0 <= i,
        first_occurrence(s, pat, i) is Some,
    ensures
        i <= first_occurrence(s, pat, i)->0,
        first_occurrence(s, pat, i)->0 + pat.len() <= s.len(),
        s.subrange(
            first_occurrence(s, pat, i)->0,
            first_occurrence(s, pat, i)->0 + pat.len(),
        ) == pat,
    decreases s.len() + 1 - i,
{
    if i + pat.len() <= s.len() && s.subrange(i, i + pat.len()) != pat {
        lemma_first_occurrence_props(s, pat, i + 1);
    }
}

/// Finds the first occurrence of `pat` in `s`.
#[verifier::loop_isolation(false)]
pub fn find_sub(s: &str, pat: &str) -> (r: Option<usize>)
    ensures
        (match r {
            Some(i) => first_occurrence(s@, pat@, 0) == Some(i as int),
            None => first_occurrence(s@, pat@, 0) is None,
        }),
{
    let slen: usize = s.unicode_len();
    let plen: usize = pat.unicode_len();
    if plen > slen {
        return None;
    }
    if plen == 0 {
        proof {
            assert(s@.subrange(0, 0) =~= pat@);
        }
        return Some(0);
    }
    let mut i: usize = 0;
    while i <= slen - plen
        invariant
            plen >= 1,
            plen <= slen,
            i <= slen - plen + 1,
            first_occurrence(s@, pat@, 0) == first_occurrence(s@, pat@, i as int),
        decreases slen - i,
    {
        if crate::text::matches_at(s, pat, i) {
            return Some(i);
        }
        i += 1;
    }
    None
}

/// The concrete type text a declared text binds the parameter to:
/// the pattern split at the parameter's first occurrence, matched
/// against the text's ends, with a nonempty middle.
pub open spec fn pattern_match_spec(t: Seq<char>, pattern: Seq<char>, param: Seq<char>) -> Option<
    Seq<char>,
> {
    match first_occurrence(pattern, param, 0) {
        None => None,
        Some(i) => {
            let a = pattern.subrange(0, i);
            let b = pattern.subrange(i + param.len(), pattern.len() as int);
            if t.len() > a.len() + b.len() && t.subrange(0, a.len() as int) == a && t.subrange(
                t.len() - b.len(),
                t.len() as int,
            ) == b {
                Some(t.subrange(a.len() as int, t.len() - b.len()))
            } else {
                None
            }
        },
    }
}

/// Matches a declared type text against a parametric pattern.
pub fn match_pattern(t: &str, pattern: &str, param: &str) -> (r: Option<String>)
    ensures
        crate::text::opt_text(r) == pattern_match_spec(t@, pattern@, param@),
{
    let i = match find_sub(pattern, param) {
        Some(i) => i,
        None => {
            return None;
        },
    };
    let plen: usize = param.unicode_len();
    let patlen: usize = pattern.unicode_len();
    let tlen: usize = t.unicode_len();
    proof {
        lemma_first_occurrence_props(pattern@, param@, 0);
    }
    let a_len: usize = i;
    let b_len: usize = patlen - (i + plen);
    if tlen <= a_len + b_len {
        return None;
    }
    let a = pattern.substring_char(0, a_len);
    let b = pattern.substring_char(i + plen, patlen);
    if crate::text::matches_at(t, a, 0) && crate::text::matches_at(t, b, tlen - b_len) {
        proof {
            assert(t@.subrange(0, a@.len() as int) == a@);
            assert(t@.subrange(t@.len() - b@.len(), t@.len() as int) =~= t@.subrange(
                (tlen - b_len) as int,
                (tlen - b_len) + b@.len(),
            ));
        }
        Some(t.substring_char(a_len, tlen - b_len).to_owned())
    } else {
        None
    }
}

/// Element-for-element equality of two index lists.
pub fn usize_vec_eq(a: &Vec<usize>, b: &Vec<usize>) -> (r: bool)
    ensures
        r == (a@ == b@),
{
    if a.len() != b.len() {
        return false;
    }
    let mut i: usize = 0;
    while i < a.len()
        invariant
            a@.len() == b@.len(),
            i <= a@.len(),
            forall|j: int| 0 <= j < i ==> a@[j] == b@[j],
        decreases a@.len() - i,
    {
        if a[i] != b[i] {
            return false;
        }
        i += 1;
    }
    proof {
        assert(a@ =~= b@);
    }
    true
}

} // verus!
