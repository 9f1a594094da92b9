//! The method signature mapper: resolves every parameter and the
//! return type of a declared method to a triple of native type,
//! intermediate C-ABI type and foreign type, enforcing that an
//! intermediate type is itself directly convertible (no secondary
//! intermediate), and assembles the C-ABI entry-point names.
use vstd::prelude::*;

verus! {

use crate::diag::{DiagKind, Diagnostic};
use crate::graph::{Direction, TypeGraph};
use crate::text::{dec_of, dec_u64, texts_of};
use crate::types::{ForeignClassInfo, ForeignMethod, MethodAccess};

/// A resolved foreign type: its display name and the native type it
/// corresponds to across the ABI.
pub struct ForeignTypeInfo {
    pub name: String,
    pub correspoding_rust_type: usize,
}

/// The foreign-side conversion attached to a resolved type when its
/// rule goes through an intermediate.
pub struct CppConverter {
    pub typename: String,
    pub converter: String,
}

/// A fully resolved foreign type: the ABI-facing base type, the
/// modules its use needs, and the optional foreign-side converter.
pub struct CppForeignTypeInfo {
    pub base: ForeignTypeInfo,
    pub provides_by_module: Vec<String>,
    pub input_to_output: bool,
    pub cpp_converter: Option<CppConverter>,
}

/// The earliest-registered foreign type from `i` on whose rule in
/// `dir` terminates at native type `nidx`.
pub open spec fn spec_first_target(g: TypeGraph, dir: Direction, nidx: int, i: int) -> Option<int>
    decreases g.ftypes@.len() - i,
{
    if i < 0 || i >= g.ftypes@.len() {
        None
    } else if g.ftypes@[i].targets(dir, nidx) {
        Some(i)
    } else {
        spec_first_target(g, dir, nidx, i + 1)
    }
}

/// A found first target pins `spec_first_target` down.
proof fn lemma_first_target_some(g: TypeGraph, dir: Direction, nidx: int, fi: int, i: int)
    requires
        0 <= i <= fi < g.ftypes@.len(),
        g.ftypes@[fi].targets(dir, nidx),
        forall|k: int| 0 <= k < fi ==> !g.ftypes@[k].targets(dir, nidx),
    ensures
        spec_first_target(g, dir, nidx, i) == Some(fi),
    decreases fi - i,
{
    if i < fi {
        lemma_first_target_some(g, dir, nidx, fi, i + 1);
    }
}

/// A first target is in range and targets the native type.
pub proof fn lemma_first_target_props(g: TypeGraph, dir: Direction, nidx: int, i: int)
    requires
        0 <= i,
        spec_first_target(g, dir, nidx, i) is Some,
    ensures
        i <= spec_first_target(g, dir, nidx, i)->0 < g.ftypes@.len(),
        g.ftypes@[spec_first_target(g, dir, nidx, i)->0].targets(dir, nidx),
    decreases g.ftypes@.len() - i,
{
    if i < g.ftypes@.len() && !g.ftypes@[i].targets(dir, nidx) {
        lemma_first_target_props(g, dir, nidx, i + 1);
    }
}

/// No target at all means `spec_first_target` finds none.
proof fn lemma_first_target_none(g: TypeGraph, dir: Direction, nidx: int, i: int)
    requires
        0 <= i,
        forall|k: int| 0 <= k < g.ftypes@.len() ==> !g.ftypes@[k].targets(dir, nidx),
    ensures
        spec_first_target(g, dir, nidx, i) is None,
    decreases g.ftypes@.len() - i,
{
    if i < g.ftypes@.len() {
        lemma_first_target_none(g, dir, nidx, i + 1);
    }
}

/// The first target reads the foreign arena alone: two graphs with
/// the same foreign types agree on it.
pub proof fn lemma_first_target_congruent(
    g1: TypeGraph,
    g2: TypeGraph,
    dir: Direction,
    nidx: int,
    i: int,
)
    requires
        g1.ftypes@ == g2.ftypes@,
    ensures
        spec_first_target(g1, dir, nidx, i) == spec_first_target(g2, dir, nidx, i),
    decreases g1.ftypes@.len() - i,
{
    if 0 <= i < g1.ftypes@.len() && !g1.ftypes@[i].targets(dir, nidx) {
        lemma_first_target_congruent(g1, g2, dir, nidx, i + 1);
    }
}

/// No earlier index than the found first target targets the type.
pub proof fn lemma_first_target_earliest(g: TypeGraph, dir: Direction, nidx: int, i: int, k: int)
    requires
        0 <= i <= k,
        spec_first_target(g, dir, nidx, i) is Some,
        k < spec_first_target(g, dir, nidx, i)->0,
    ensures
        !g.ftypes@[k].targets(dir, nidx),
    decreases k - i,
{
    if i < k {
        lemma_first_target_earliest(g, dir, nidx, i + 1, k);
    }
}

/// Appending foreign types keeps the first target.
pub proof fn lemma_first_target_extend(g0: TypeGraph, g1: TypeGraph, dir: Direction, nidx: int)
    requires
        spec_first_target(g0, dir, nidx, 0) is Some,
        g1.ftypes@.len() >= g0.ftypes@.len(),
        forall|k: int| 0 <= k < g0.ftypes@.len() ==> #[trigger] g1.ftypes@[k] == g0.ftypes@[k],
    ensures
        spec_first_target(g1, dir, nidx, 0) == spec_first_target(g0, dir, nidx, 0),
{
    let f = spec_first_target(g0, dir, nidx, 0)->0;
    lemma_first_target_props(g0, dir, nidx, 0);
    assert(g1.ftypes@[f] == g0.ftypes@[f]);
    assert forall|k: int| 0 <= k < f implies !g1.ftypes@[k].targets(dir, nidx) by {
        lemma_first_target_earliest(g0, dir, nidx, 0, k);
        assert(g1.ftypes@[k] == g0.ftypes@[k]);
    }
    lemma_first_target_some(g1, dir, nidx, f, 0);
}

/// The earliest native type whose text reads `t`, from index `i` on.
pub open spec fn spec_first_native(g: TypeGraph, t: Seq<char>, i: int) -> Option<int>
    decreases g.ntypes@.len() - i,
{
    if i < 0 || i >= g.ntypes@.len() {
        None
    } else if g.ntext(i) == t {
        Some(i)
    } else {
        spec_first_native(g, t, i + 1)
    }
}

/// A found first native is in range and holds the text.
pub proof fn lemma_first_native_props(g: TypeGraph, t: Seq<char>, i: int)
    requires
        0 <= i,
        spec_first_native(g, t, i) is Some,
    ensures
        i <= spec_first_native(g, t, i)->0 < g.n_len(),
        g.ntext(spec_first_native(g, t, i)->0) == t,
    decreases g.ntypes@.len() - i,
{
    if i < g.ntypes@.len() && g.ntext(i) != t {
        lemma_first_native_props(g, t, i + 1);
    }
}

/// No earlier index than the found first native holds the text.
pub proof fn lemma_first_native_earliest(g: TypeGraph, t: Seq<char>, i: int, k: int)
    requires
        0 <= i <= k,
        spec_first_native(g, t, i) is Some,
        k < spec_first_native(g, t, i)->0,
    ensures
        g.ntext(k) != t,
    decreases k - i,
{
    if i < k {
        lemma_first_native_earliest(g, t, i + 1, k);
    }
}

/// Appending native types keeps the first native.
pub proof fn lemma_first_native_extend(g0: TypeGraph, g1: TypeGraph, t: Seq<char>)
    requires
        spec_first_native(g0, t, 0) is Some,
        g1.n_len() >= g0.n_len(),
        forall|j: int| 0 <= j < g0.n_len() ==> #[trigger] g1.ntypes@[j] == g0.ntypes@[j],
    ensures
        spec_first_native(g1, t, 0) == spec_first_native(g0, t, 0),
{
    let n = spec_first_native(g0, t, 0)->0;
    lemma_first_native_props(g0, t, 0);
    assert(g1.ntypes@[n] == g0.ntypes@[n]);
    assert(g1.ntext(n) == t);
    assert forall|k: int| 0 <= k < n implies g1.ntext(k) != t by {
        lemma_first_native_earliest(g0, t, 0, k);
        assert(g1.ntypes@[k] == g0.ntypes@[k]);
    }
    lemma_first_native_first(g1, t, n, 0);
}

/// An index holding the text with none earlier is the first.
proof fn lemma_first_native_first(g: TypeGraph, t: Seq<char>, n: int, i: int)
    requires
        0 <= i <= n < g.n_len(),
        g.ntext(n) == t,
        forall|k: int| 0 <= k < n ==> #[trigger] g.ntext(k) != t,
    ensures
        spec_first_native(g, t, i) == Some(n),
    decreases n - i,
{
    if i < n {
        lemma_first_native_first(g, t, n, i + 1);
    }
}

/// A present target means a first target is found.
pub proof fn lemma_target_exists_first_some(g: TypeGraph, dir: Direction, nidx: int, i: int, f: int)
    requires
        0 <= i <= f < g.ftypes@.len(),
        g.ftypes@[f].targets(dir, nidx),
    ensures
        spec_first_target(g, dir, nidx, i) is Some,
    decreases f - i,
{
    if i < f && !g.ftypes@[i].targets(dir, nidx) {
        lemma_target_exists_first_some(g, dir, nidx, i + 1, f);
    }
}

/// In a well-formed graph any index holding the text is the first.
pub proof fn lemma_first_native_unique(g: TypeGraph, t: Seq<char>, idx: int, i: int)
    requires
        g.wf(),
        0 <= i <= idx < g.n_len(),
        g.ntext(idx) == t,
    ensures
        spec_first_native(g, t, i) == Some(idx),
    decreases idx - i,
{
    if i < idx {
        assert(g.ntext(i) != g.ntext(idx));
        lemma_first_native_unique(g, t, idx, i + 1);
    }
}

/// An absent text has no first native.
pub proof fn lemma_first_native_none(g: TypeGraph, t: Seq<char>, i: int)
    requires
        0 <= i,
        !g.has_native(t),
    ensures
        spec_first_native(g, t, i) is None,
    decreases g.ntypes@.len() - i,
{
    if i < g.ntypes@.len() {
        assert(g.ntext(i) != t);
        lemma_first_native_none(g, t, i + 1);
    }
}

/// Which diagnostic resolving foreign type `fidx` in direction `dir`
/// must produce, or `None` for success: no rule for the direction; an
/// intermediate type without any foreign image; or an intermediate
/// whose own image again needs an intermediate (forbidden transitive
/// intermediates).
pub open spec fn resolve_err_kind(g: TypeGraph, dir: Direction, fidx: int) -> Option<DiagKind> {
    match g.ftypes@[fidx].rule(dir) {
        None => Some(DiagKind::NoConversionRule),
        Some(rl) => match rl.intermediate {
            None => None,
            Some(im) => match spec_first_target(g, dir, im.intermediate_ty as int, 0) {
                None => Some(DiagKind::NoForeignImage),
                Some(fi) => match g.ftypes@[fi].rule(dir) {
                    Some(irl) => if irl.intermediate is Some {
                        Some(DiagKind::TransitiveIntermediate)
                    } else {
                        None
                    },
                    None => Some(DiagKind::TransitiveIntermediate),
                },
            },
        },
    }
}

/// The resolution outcome reads the foreign arena alone.
pub proof fn lemma_resolve_err_kind_congruent(g1: TypeGraph, g2: TypeGraph, dir: Direction, fidx: int)
    requires
        g1.ftypes@ == g2.ftypes@,
        0 <= fidx < g1.ftypes@.len(),
    ensures
        resolve_err_kind(g1, dir, fidx) == resolve_err_kind(g2, dir, fidx),
{
    match g1.ftypes@[fidx].rule(dir) {
        Some(rl) => match rl.intermediate {
            Some(im) => {
                lemma_first_target_congruent(g1, g2, dir, im.intermediate_ty as int, 0);
            },
            None => {},
        },
        None => {},
    }
}

/// What a successful resolution of foreign type `fidx` in direction
/// `dir` must look like.
pub open spec fn resolved_ok(
    g: TypeGraph,
    dir: Direction,
    fidx: int,
    info: CppForeignTypeInfo,
) -> bool {
    let ft = g.ftypes@[fidx];
    match ft.rule(dir) {
        Some(rl) => match rl.intermediate {
            None => {
                &&& info.base.correspoding_rust_type == rl.rust_ty
            &&& info.base.name@ == ft.name@
            &&& info.cpp_converter is None
            &&& info.input_to_output == false
            &&& texts_of(info.provides_by_module@) == texts_of(ft.provides_by_module@)
            },
            Some(im) => match spec_first_target(g, dir, im.intermediate_ty as int, 0) {
                Some(fi) => {
                    &&& info.base.correspoding_rust_type == im.intermediate_ty
                &&& info.base.name@ == g.ftypes@[fi].name@
                &&& info.input_to_output == im.input_to_output
                &&& match info.cpp_converter {
                        Some(c) => c.typename@ == ft.name@ && c.converter@ == im.conv_code@,
                        None => false,
                    }
                &&& texts_of(info.provides_by_module@) == texts_of(ft.provides_by_module@)
                        + texts_of(g.ftypes@[fi].provides_by_module@)
                },
                None => false,
            },
        },
        None => false,
    }
}

/// Copies a list of strings.
pub fn clone_strings(v: &Vec<String>) -> (r: Vec<String>)
    ensures
        r@ == v@,
{
    let mut r: Vec<String> = Vec::new();
    let mut i: usize = 0;
    while i < v.len()
        invariant
            i <= v@.len(),
            r@ == v@.subrange(0, i as int),
        decreases v@.len() - i,
    {
        r.push(v[i].clone());
        proof {
            assert(r@ =~= v@.subrange(0, i + 1));
        }
        i += 1;
    }
    proof {
        assert(v@.subrange(0, v@.len() as int) =~= v@);
    }
    r
}

/// Appends a copy of every string of `b` to `a`.
pub fn extend_strings(a: &mut Vec<String>, b: &Vec<String>)
    ensures
        final(a)@ == old(a)@ + b@,
{
    let mut i: usize = 0;
    while i < b.len()
        invariant
            i <= b@.len(),
            a@ == old(a)@ + b@.subrange(0, i as int),
        decreases b@.len() - i,
    {
        a.push(b[i].clone());
        proof {
            assert(a@ =~= old(a)@ + b@.subrange(0, i + 1));
        }
        i += 1;
    }
    proof {
        assert(old(a)@ + b@.subrange(0, b@.len() as int) =~= old(a)@ + b@);
    }
}

impl CppForeignTypeInfo {
    /// The foreign-facing name.
    pub fn name(&self) -> (r: &str)
        ensures
            r@ == self.base.name@,
    {
        self.base.name.as_str()
    }

    /// The native type crossing the ABI.
    pub fn correspoding_rust_type(&self) -> (r: usize)
        ensures
            r == self.base.correspoding_rust_type,
    {
        self.base.correspoding_rust_type
    }

    /// Borrows the ABI-facing base type.
    pub fn as_ref(&self) -> (r: &ForeignTypeInfo)
        ensures
            r == &self.base,
    {
        &self.base
    }

    /// Wraps a bare resolved type with no converter and no module
    /// dependencies.
    pub fn from(x: ForeignTypeInfo) -> (r: CppForeignTypeInfo)
        ensures
            r.base == x,
            r.provides_by_module@.len() == 0,
            r.input_to_output == false,
            r.cpp_converter is None,
    {
        CppForeignTypeInfo {
            base: x,
            provides_by_module: Vec::new(),
            input_to_output: false,
            cpp_converter: None,
        }
    }

    /// Resolves foreign type `fidx` for use in direction `dir`: picks
    /// the rule serving the direction and, when it goes through an
    /// intermediate, re-resolves the intermediate native type and
    /// demands that its image is direct — a transitive intermediate is
    /// refused with its dedicated diagnostic.
    pub fn try_new(g: &TypeGraph, direction: Direction, ftype_idx: usize) -> (r: Result<
        CppForeignTypeInfo,
        Diagnostic,
    >)
        requires
            g.wf(),
            ftype_idx < g.ftypes@.len(),
        ensures
            match r {
                Ok(info) => resolve_err_kind(*g, direction, ftype_idx as int) is None
                    && resolved_ok(*g, direction, ftype_idx as int, info),
                Err(d) => Some(d.kind) == resolve_err_kind(*g, direction, ftype_idx as int)
                    && d.src_id == g.ftypes@[ftype_idx as int].src_id && d.span
                    == g.ftypes@[ftype_idx as int].span,
            },
    {
        let ft = &g.ftypes[ftype_idx];
        let rule = match direction {
            Direction::Outgoing => &ft.into_from_rust,
            Direction::Incoming => &ft.from_into_rust,
        };
        let rule = match rule {
            Some(rl) => rl,
            None => {
                let mut msg = "No rule to convert foreign type ".to_owned();
                msg.append(ft.name.as_str());
                msg.append(" as input/output type");
                return Err(
                    Diagnostic::new(ft.src_id, ft.span, DiagKind::NoConversionRule, msg),
                );
            },
        };
        match &rule.intermediate {
            Some(im) => {
                match g.find_foreign_for_native(im.intermediate_ty, direction) {
                    None => {
                        proof {
                            lemma_first_target_none(
                                *g,
                                direction,
                                im.intermediate_ty as int,
                                0,
                            );
                        }
                        let mut msg = "No foreign image for intermediate type of ".to_owned();
                        msg.append(ft.name.as_str());
                        return Err(
                            Diagnostic::new(ft.src_id, ft.span, DiagKind::NoForeignImage, msg),
                        );
                    },
                    Some(fi) => {
                        proof {
                            lemma_first_target_some(
                                *g,
                                direction,
                                im.intermediate_ty as int,
                                fi as int,
                                0,
                            );
                        }
                        let ift = &g.ftypes[fi];
                        let irl = match direction {
                            Direction::Outgoing => &ift.into_from_rust,
                            Direction::Incoming => &ift.from_into_rust,
                        };
                        let flat = match irl {
                            Some(ir) => ir.intermediate.is_none(),
                            None => false,
                        };
                        if !flat {
                            let mut msg = "Error during conversation ".to_owned();
                            msg.append(ft.name.as_str());
                            msg.append(
                                ": intermidiate type can not directrly converted to C",
                            );
                            return Err(
                                Diagnostic::new(
                                    ft.src_id,
                                    ft.span,
                                    DiagKind::TransitiveIntermediate,
                                    msg,
                                ),
                            );
                        }
                        let mut provides = clone_strings(&ft.provides_by_module);
                        extend_strings(&mut provides, &ift.provides_by_module);
                        proof {
                            assert(texts_of(provides@) =~= texts_of(ft.provides_by_module@)
                                + texts_of(g.ftypes@[fi as int].provides_by_module@));
                        }
                        Ok(
                            CppForeignTypeInfo {
                                base: ForeignTypeInfo {
                                    name: ift.name.clone(),
                                    correspoding_rust_type: im.intermediate_ty,
                                },
                                provides_by_module: provides,
                                input_to_output: im.input_to_output,
                                cpp_converter: Some(
                                    CppConverter {
                                        typename: ft.name.clone(),
                                        converter: im.conv_code.clone(),
                                    },
                                ),
                            },
                        )
                    },
                }
            },
            None => {
                Ok(
                    CppForeignTypeInfo {
                        base: ForeignTypeInfo {
                            name: ft.name.clone(),
                            correspoding_rust_type: rule.rust_ty,
                        },
                        provides_by_module: clone_strings(&ft.provides_by_module),
                        input_to_output: false,
                        cpp_converter: None,
                    },
                )
            },
        }
    }
}

/// Resolves a native type to its foreign image in the given direction:
/// the earliest-registered foreign type targeting it.  On failure the
/// diagnostic's notes list the reachable candidates.
pub fn map_type(g: &TypeGraph, nidx: usize, direction: Direction, src_id: crate::SourceId, span: crate::Span) -> (r: Result<
    CppForeignTypeInfo,
    Diagnostic,
>)
    requires
        g.wf(),
        nidx < g.n_len(),
    ensures
        match r {
            Ok(info) => {
                &&& spec_first_target(*g, direction, nidx as int, 0) is Some
            &&& resolve_err_kind(*g, direction, spec_first_target(*g, direction, nidx as int, 0)->0)
                    is None
            &&& resolved_ok(
                    *g,
                    direction,
                    spec_first_target(*g, direction, nidx as int, 0)->0,
                    info,
                )
            },
            Err(d) => match spec_first_target(*g, direction, nidx as int, 0) {
                None => d.kind == DiagKind::NoForeignImage,
                Some(fi) => Some(d.kind) == resolve_err_kind(*g, direction, fi),
            },
        },
{
    match g.find_foreign_for_native(nidx, direction) {
        Some(fi) => {
            proof {
                lemma_first_target_some(*g, direction, nidx as int, fi as int, 0);
            }
            CppForeignTypeInfo::try_new(g, direction, fi)
        },
        None => {
            proof {
                lemma_first_target_none(*g, direction, nidx as int, 0);
            }
            let mut msg = "Do not know conversion to foreign type for native type ".to_owned();
            msg.append(g.ntypes[nidx].text.as_str());
            let mut d = Diagnostic::new(src_id, span, DiagKind::NoForeignImage, msg);
            let candidates = g.reachable_foreign_names(nidx, direction);
            let mut c: usize = 0;
            while c < candidates.len()
                invariant
                    d.kind == DiagKind::NoForeignImage,
                decreases candidates@.len() - c,
            {
                let mut note = "reachable candidate: ".to_owned();
                note.append(candidates[c].as_str());
                d = d.add_note(src_id, span, note);
                c += 1;
            }
            Err(d)
        },
    }
}

/// A resolved method signature: the return type and the arguments, in
/// positional order.
pub struct CppForeignMethodSignature {
    pub output: CppForeignTypeInfo,
    pub input: Vec<CppForeignTypeInfo>,
}

impl CppForeignMethodSignature {
    /// The resolved return type.
    pub fn output(&self) -> (r: &CppForeignTypeInfo)
        ensures
            r == &self.output,
    {
        &self.output
    }

    /// The resolved arguments.
    pub fn input(&self) -> (r: &Vec<CppForeignTypeInfo>)
        ensures
            r == &self.input,
    {
        &self.input
    }
}

/// The prefix the C-ABI name of a method carries for its access.
pub open spec fn access_prefix_text(a: MethodAccess) -> Seq<char> {
    match a {
        MethodAccess::Private => "private_"@,
        MethodAccess::Protected => "protected_"@,
        MethodAccess::Public => Seq::<char>::empty(),
    }
}

/// The C-ABI entry-point name of a method: access prefix, class name,
/// an underscore, and the short name.  These names are part of the
/// stable ABI.
pub open spec fn c_func_name_text(
    class_name: Seq<char>,
    access: MethodAccess,
    short: Seq<char>,
) -> Seq<char> {
    access_prefix_text(access) + class_name + "_"@ + short
}

/// Builds the C-ABI entry-point name from class, access and short
/// name.
pub fn do_c_func_name(class: &ForeignClassInfo, method_access: MethodAccess, method_short_name: &str) -> (r:
    String)
    ensures
        r@ == c_func_name_text(class.name@, method_access, method_short_name@),
{
    let mut s = match method_access {
        MethodAccess::Private => "private_".to_owned(),
        MethodAccess::Protected => "protected_".to_owned(),
        MethodAccess::Public => String::new(),
    };
    s.append(class.name.as_str());
    s.append("_");
    s.append(method_short_name);
    proof {
        assert(s@ =~= c_func_name_text(class.name@, method_access, method_short_name@));
    }
    s
}

/// The C-ABI entry-point name of a declared method.
pub fn c_func_name(class: &ForeignClassInfo, method: &ForeignMethod) -> (r: String)
    ensures
        r@ == c_func_name_text(class.name@, method.access, method.name@),
{
    do_c_func_name(class, method.access, method.short_name())
}

/// The argument list text of the native export: for the first `k`
/// arguments, `a0: T0, a1: T1, ` and so on, each typed by the
/// argument's ABI-crossing native type.
pub open spec fn args_with_types_prefix(
    g: TypeGraph,
    infos: Seq<CppForeignTypeInfo>,
    k: int,
) -> Seq<char>
    decreases k,
{
    if k <= 0 {
        Seq::<char>::empty()
    } else {
        args_with_types_prefix(g, infos, k - 1) + "a"@ + dec_of((k - 1) as nat) + ": "@ + g.ntext(
            infos[k - 1].base.correspoding_rust_type as int,
        ) + ", "@
    }
}

/// Renders the argument list of the native export.
#[verifier::loop_isolation(false)]
pub fn rust_generate_args_with_types(g: &TypeGraph, f_method: &CppForeignMethodSignature) -> (r:
    String)
    requires
        g.wf(),
        forall|i: int|
            0 <= i < f_method.input@.len() ==> (#[trigger] f_method.input@[i]).base.correspoding_rust_type
                < g.n_len(),
    ensures
        r@ == args_with_types_prefix(*g, f_method.input@, f_method.input@.len() as int),
{
    let mut buf = String::new();
    let mut i: usize = 0;
    while i < f_method.input.len()
        invariant
            i <= f_method.input@.len(),
            buf@ == args_with_types_prefix(*g, f_method.input@, i as int),
        decreases f_method.input@.len() - i,
    {
        buf.append("a");
        let n = dec_u64(i as u64);
        buf.append(n.as_str());
        buf.append(": ");
        let ty = f_method.input[i].base.correspoding_rust_type;
        buf.append(g.ntypes[ty].text.as_str());
        buf.append(", ");
        proof {
            assert(buf@ =~= args_with_types_prefix(*g, f_method.input@, i + 1));
        }
        i += 1;
    }
    buf
}

/// Resolves every argument (incoming) and the return type (outgoing)
/// of a declared method against the graph, allocating native type
/// records for type texts seen for the first time.
#[verifier::loop_isolation(false)]
pub fn make_foreign_method_signature(
    g: &mut TypeGraph,
    class: &ForeignClassInfo,
    method: &ForeignMethod,
) -> (r: Result<CppForeignMethodSignature, Diagnostic>)
    requires
        old(g).wf(),
    ensures
        final(g).wf(),
        final(g).n_len() >= old(g).n_len(),
        match r {
            Ok(sig) => sig.input@.len() == method.arg_types@.len() && forall|i: int|
                0 <= i < sig.input@.len() ==> (#[trigger] sig.input@[i]).base.correspoding_rust_type
                    < final(g).n_len(),
            Err(d) => d.kind == DiagKind::NoForeignImage || d.kind == DiagKind::NoConversionRule
                || d.kind == DiagKind::TransitiveIntermediate,
        },
{
    let mut input: Vec<CppForeignTypeInfo> = Vec::new();
    let mut i: usize = 0;
    while i < method.arg_types.len()
        invariant
            g.wf(),
            g.n_len() >= old(g).n_len(),
            i <= method.arg_types@.len(),
            input@.len() == i,
            forall|k: int|
                0 <= k < input@.len() ==> (#[trigger] input@[k]).base.correspoding_rust_type
                    < g.n_len(),
        decreases method.arg_types@.len() - i,
    {
        let nidx = g.find_or_alloc_native(method.arg_types[i].as_str(), class.src_id);
        let info = match map_type(g, nidx, Direction::Incoming, class.src_id, class.span) {
            Ok(info) => info,
            Err(d) => {
                return Err(d);
            },
        };
        proof {
            lemma_first_target_props(*g, Direction::Incoming, nidx as int, 0);
            let fi = spec_first_target(*g, Direction::Incoming, nidx as int, 0)->0;
            assert(g.ftypes@[fi].valid(g.n_len()));
            assert(info.base.correspoding_rust_type < g.n_len());
        }
        input.push(info);
        i += 1;
    }
    let ret_text: &str = match &method.ret_type {
        Some(t) => t.as_str(),
        None => "()",
    };
    let ridx = g.find_or_alloc_native(ret_text, class.src_id);
    let output = match map_type(g, ridx, Direction::Outgoing, class.src_id, class.span) {
        Ok(info) => info,
        Err(d) => {
            return Err(d);
        },
    };
    Ok(CppForeignMethodSignature { output, input })
}

} // verus!
