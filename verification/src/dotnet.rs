//! The managed-runtime target: resolves method signatures against the
//! type graph, composes native-side conversion chains found by the
//! path search, and emits the native C-ABI exports, the P/Invoke
//! declarations and the foreign wrapper classes as text.
use vstd::prelude::*;

verus! {

use crate::diag::{DiagKind, Diagnostic};
use crate::ext::{camel_of, item_parses, rust_item_parses, to_camel_case};
use crate::graph::{ConvRule, Direction, ForeignTypeRec, Intermediate, TypeGraph};
use crate::rules::{InstantiationCache, TypeMapConvRuleInfo, instantiate_generic_rule, match_pattern};
use crate::sig::{map_type, spec_first_target};
use crate::text::{dec_of, dec_u64, replace_spec, replace_all};
use crate::types::{
    EnumItem,
    ForeignClassInfo,
    ForeignEnumInfo,
    ForeignMethod,
    ItemToExpand,
    MethodVariant,
};

/// Configuration of the managed-runtime target.
pub struct DotNetConfig {
    pub managed_lib_name: String,
    pub native_lib_name: String,
}

/// One resolved argument (or the return value) of a method: the
/// foreign-facing type, the type crossing the ABI on both sides, the
/// foreign-side conversion template and the chain of native-side
/// conversion edges.
pub struct DotNetArgInfo {
    pub arg_name: String,
    pub dotnet_type: String,
    pub dotnet_intermediate_type: String,
    /// Native type crossing the ABI.
    pub rust_intermediate_type: usize,
    /// Declared native type of the argument.
    pub rust_type: usize,
    /// Foreign-side conversion template over `{from_var}`.
    pub dotnet_conversion: Option<String>,
    /// Edge indices of the native-side conversion chain.
    pub rust_conversion_path: Vec<usize>,
}

/// A resolved method signature for the managed-runtime target.
pub struct DotNetForeignMethodSignature {
    pub name: String,
    pub variant: MethodVariant,
    pub docstring: String,
    pub input: Vec<DotNetArgInfo>,
    pub output: DotNetArgInfo,
    pub rust_function_call: String,
}

/// The `k`-th name of a conversion chain rooted at `base`: the root
/// itself, then `base_1`, `base_2` and so on, so that chained
/// templates can always name the latest form.
pub open spec fn var_text(base: Seq<char>, k: int) -> Seq<char> {
    if k <= 0 {
        base
    } else {
        base + "_"@ + dec_of(k as nat)
    }
}

/// Renders the `k`-th name of a conversion chain.
pub fn var_name(base: &str, k: u64) -> (r: String)
    ensures
        r@ == var_text(base@, k as int),
{
    if k == 0 {
        base.to_owned()
    } else {
        let mut s = base.to_owned();
        s.append("_");
        let d = dec_u64(k);
        s.append(d.as_str());
        proof {
            assert(s@ =~= var_text(base@, k as int));
        }
        s
    }
}

/// The text of a native-side conversion chain: each edge's template
/// with the from-variable bound to the latest name and the to-variable
/// to the next one, one statement per line.
pub open spec fn chain_text(g: TypeGraph, path: Seq<usize>, base: Seq<char>, k: int) -> Seq<char>
    decreases path.len(),
{
    if path.len() == 0 {
        Seq::<char>::empty()
    } else {
        replace_spec(
            replace_spec(g.edges@[path[0] as int].code@, "{from_var}"@, var_text(base, k)),
            "{to_var}"@,
            var_text(base, k + 1),
        ) + "\n        "@ + chain_text(g, path.subrange(1, path.len() as int), base, k + 1)
    }
}

/// Renders a native-side conversion chain.
#[verifier::loop_isolation(false)]
pub fn render_chain(g: &TypeGraph, path: &Vec<usize>, base: &str) -> (r: String)
    requires
        forall|i: int| 0 <= i < path@.len() ==> #[trigger] path@[i] < g.edges@.len(),
    ensures
        r@ == chain_text(*g, path@, base@, 0),
{
    let mut s = String::new();
    let mut i: usize = 0;
    proof {
        reveal_strlit("{from_var}");
        reveal_strlit("{to_var}");
        assert(path@.subrange(0, path@.len() as int) =~= path@);
        assert(Seq::<char>::empty() + chain_text(*g, path@, base@, 0) =~= chain_text(
            *g,
            path@,
            base@,
            0,
        ));
    }
    while i < path.len()
        invariant
            i <= path@.len(),
            s@ + chain_text(*g, path@.subrange(i as int, path@.len() as int), base@, i as int)
                == chain_text(*g, path@, base@, 0),
        decreases path@.len() - i,
    {
        let e = path[i];
        let from_v = var_name(base, i as u64);
        let to_v = var_name(base, (i + 1) as u64);
        let step1 = replace_all(g.edges[e].code.as_str(), "{from_var}", from_v.as_str());
        let step2 = replace_all(step1.as_str(), "{to_var}", to_v.as_str());
        s.append(step2.as_str());
        s.append("\n        ");
        proof {
            let rest = path@.subrange(i as int, path@.len() as int);
            assert(rest[0] == path@[i as int]);
            assert(rest.subrange(1, rest.len() as int) =~= path@.subrange(
                i + 1,
                path@.len() as int,
            ));
            assert(chain_text(*g, rest, base@, i as int) == replace_spec(
                replace_spec(
                    g.edges@[path@[i as int] as int].code@,
                    "{from_var}"@,
                    var_text(base@, i as int),
                ),
                "{to_var}"@,
                var_text(base@, i + 1),
            ) + "\n        "@ + chain_text(
                *g,
                path@.subrange(i + 1, path@.len() as int),
                base@,
                i + 1,
            ));
        }
        i += 1;
    }
    proof {
        assert(path@.subrange(path@.len() as int, path@.len() as int) =~= Seq::<usize>::empty());
        assert(chain_text(*g, Seq::<usize>::empty(), base@, path@.len() as int)
            == Seq::<char>::empty());
        assert(s@ + Seq::<char>::empty() =~= s@);
    }
    s
}

/// The doc comment block of a declaration: each line behind `/// `,
/// lines separated by newlines.
pub open spec fn docstring_text(docs: Seq<String>, k: int) -> Seq<char>
    decreases k,
{
    if k <= 0 {
        Seq::<char>::empty()
    } else if k == 1 {
        "/// "@ + docs[0]@
    } else {
        docstring_text(docs, k - 1) + "\n"@ + "/// "@ + docs[k - 1]@
    }
}

/// Renders the doc comment block of a declaration.
#[verifier::loop_isolation(false)]
pub fn make_docstring(docs: &Vec<String>) -> (r: String)
    ensures
        r@ == docstring_text(docs@, docs@.len() as int),
{
    let mut s = String::new();
    let mut i: usize = 0;
    while i < docs.len()
        invariant
            i <= docs@.len(),
            s@ == docstring_text(docs@, i as int),
        decreases docs@.len() - i,
    {
        if i > 0 {
            s.append("\n");
        }
        s.append("/// ");
        s.append(docs[i].as_str());
        proof {
            assert(s@ =~= docstring_text(docs@, i + 1));
        }
        i += 1;
    }
    s
}

/// The native type a resolution at foreign type `fi` crosses the ABI
/// with: the rule's target for a direct rule, its intermediate
/// otherwise.
pub open spec fn resolved_inter(g: TypeGraph, dir: Direction, fi: int) -> int {
    match g.ftypes@[fi].rule(dir) {
        Some(rl) => match rl.intermediate {
            None => rl.rust_ty as int,
            Some(im) => im.intermediate_ty as int,
        },
        None => 0,
    }
}

/// The managed-side name of the ABI-crossing type at `fi`: the type's
/// own name for a direct rule, the intermediate's image name
/// otherwise.
pub open spec fn resolved_base_name(g: TypeGraph, dir: Direction, fi: int) -> Seq<char> {
    match g.ftypes@[fi].rule(dir) {
        Some(rl) => match rl.intermediate {
            None => g.ftypes@[fi].name@,
            Some(im) => match spec_first_target(g, dir, im.intermediate_ty as int, 0) {
                Some(f2) => g.ftypes@[f2].name@,
                None => Seq::<char>::empty(),
            },
        },
        None => Seq::<char>::empty(),
    }
}

/// Which diagnostic resolving native type `nidx` for this target must
/// produce, or `None` for success: no image at all; an image that
/// fails the mapper (no rule for the direction, transitive
/// intermediate); or an image whose ABI-crossing type has no
/// conversion chain to the declared type.
pub open spec fn dotnet_resolve_kind(g: TypeGraph, dir: Direction, nidx: int) -> Option<DiagKind> {
    match spec_first_target(g, dir, nidx, 0) {
        None => Some(DiagKind::NoForeignImage),
        Some(fi) => match crate::sig::resolve_err_kind(g, dir, fi) {
            Some(k) => Some(k),
            None => {
                let inter = resolved_inter(g, dir, fi);
                let chain_ok = match dir {
                    Direction::Incoming => g.reachable(inter, nidx),
                    Direction::Outgoing => g.reachable(nidx, inter),
                };
                if chain_ok {
                    None
                } else {
                    Some(DiagKind::NoForeignImage)
                }
            },
        },
    }
}

/// Everything a successful resolution pins: the declared and
/// ABI-crossing native types, the managed-facing and managed
/// ABI-crossing type names, the managed-side conversion template, and
/// a conversion chain of minimum edge count in the right direction.
pub open spec fn dotnet_info_ok(
    g: TypeGraph,
    dir: Direction,
    nidx: int,
    name: Seq<char>,
    info: DotNetArgInfo,
) -> bool {
    match spec_first_target(g, dir, nidx, 0) {
        Some(fi) => {
            let inter = resolved_inter(g, dir, fi);
            &&& info.arg_name@ == name
        &&& info.rust_type == nidx
        &&& info.rust_intermediate_type as int == inter
        &&& info.dotnet_type@ == g.ftypes@[fi].name@
        &&& info.dotnet_intermediate_type@ == resolved_base_name(g, dir, fi)
        &&& (match g.ftypes@[fi].rule(dir) {
                Some(rl) => match (rl.intermediate, info.dotnet_conversion) {
                    (Some(im), Some(c)) => c@ == im.conv_code@,
                    (None, None) => true,
                    _ => false,
                },
                None => false,
            })
        &&& (match dir {
                Direction::Incoming => g.path_valid(inter, nidx, info.rust_conversion_path@)
                    && (forall|q: Seq<usize>|
                    g.path_valid(inter, nidx, q) ==> info.rust_conversion_path@.len() <= q.len()),
                Direction::Outgoing => g.path_valid(nidx, inter, info.rust_conversion_path@) && (
                forall|q: Seq<usize>|
                    g.path_valid(nidx, inter, q) ==> info.rust_conversion_path@.len() <= q.len()),
            })
        },
        None => false,
    }
}

/// The resolution outcome reads the foreign types and edges alone.
proof fn lemma_dotnet_kind_congruent(g1: TypeGraph, g2: TypeGraph, dir: Direction, nidx: int)
    requires
        g1.ftypes@ == g2.ftypes@,
        g1.edges@ == g2.edges@,
    ensures
        dotnet_resolve_kind(g1, dir, nidx) == dotnet_resolve_kind(g2, dir, nidx),
{
    crate::sig::lemma_first_target_congruent(g1, g2, dir, nidx, 0);
    match spec_first_target(g1, dir, nidx, 0) {
        Some(fi) => {
            crate::sig::lemma_first_target_props(g1, dir, nidx, 0);
            crate::sig::lemma_resolve_err_kind_congruent(g1, g2, dir, fi);
            let inter = resolved_inter(g1, dir, fi);
            assert(resolved_inter(g2, dir, fi) == inter);
            crate::graph::lemma_reachable_congruent(g1, g2, inter, nidx);
            crate::graph::lemma_reachable_congruent(g1, g2, nidx, inter);
        },
        None => {},
    }
}

/// The pinned resolution record reads the foreign types and edges
/// alone.
proof fn lemma_dotnet_info_congruent(
    g1: TypeGraph,
    g2: TypeGraph,
    dir: Direction,
    nidx: int,
    name: Seq<char>,
    info: DotNetArgInfo,
)
    requires
        g1.ftypes@ == g2.ftypes@,
        g1.edges@ == g2.edges@,
        dotnet_info_ok(g1, dir, nidx, name, info),
    ensures
        dotnet_info_ok(g2, dir, nidx, name, info),
{
    crate::sig::lemma_first_target_congruent(g1, g2, dir, nidx, 0);
    let fi = spec_first_target(g1, dir, nidx, 0)->0;
    crate::sig::lemma_first_target_props(g1, dir, nidx, 0);
    match g1.ftypes@[fi].rule(dir) {
        Some(rl) => match rl.intermediate {
            Some(im) => {
                crate::sig::lemma_first_target_congruent(g1, g2, dir, im.intermediate_ty as int, 0);
            },
            None => {},
        },
        None => {},
    }
    let inter = resolved_inter(g1, dir, fi);
    match dir {
        Direction::Incoming => {
            crate::graph::lemma_path_valid_congruent(
                g1,
                g2,
                inter,
                nidx,
                info.rust_conversion_path@,
            );
            assert forall|q: Seq<usize>|
                g2.path_valid(inter, nidx, q) implies info.rust_conversion_path@.len()
                <= q.len() by {
                crate::graph::lemma_path_valid_congruent(g1, g2, inter, nidx, q);
            }
        },
        Direction::Outgoing => {
            crate::graph::lemma_path_valid_congruent(
                g1,
                g2,
                nidx,
                inter,
                info.rust_conversion_path@,
            );
            assert forall|q: Seq<usize>|
                g2.path_valid(nidx, inter, q) implies info.rust_conversion_path@.len()
                <= q.len() by {
                crate::graph::lemma_path_valid_congruent(g1, g2, nidx, inter, q);
            }
        },
    }
}

/// Resolves one native type for the managed-runtime target: its
/// foreign-facing type name, the intermediate crossing the ABI, the
/// foreign-side template, and a shortest native-side conversion chain
/// found by the path search (incoming: from the intermediate to the
/// declared type; outgoing: the reverse).  The outcome is exactly what
/// `dotnet_resolve_kind` dictates.
#[verifier::rlimit(50)]
pub fn resolve_dotnet_type(
    g: &TypeGraph,
    nidx: usize,
    direction: Direction,
    arg_name: &str,
    src_id: crate::SourceId,
    span: crate::Span,
) -> (r: Result<DotNetArgInfo, Diagnostic>)
    requires
        g.wf(),
        nidx < g.n_len(),
    ensures
        match r {
            Ok(info) => {
                &&& dotnet_resolve_kind(*g, direction, nidx as int) is None
            &&& dotnet_info_ok(*g, direction, nidx as int, arg_name@, info)
            &&& info.rust_intermediate_type < g.n_len()
            &&& forall|i: int|
                    0 <= i < info.rust_conversion_path@.len()
                        ==> #[trigger] info.rust_conversion_path@[i] < g.edges@.len()
            },
            Err(d) => Some(d.kind) == dotnet_resolve_kind(*g, direction, nidx as int),
        },
{
    let info = match map_type(g, nidx, direction, src_id, span) {
        Ok(i) => i,
        Err(d) => {
            return Err(d);
        },
    };
    proof {
        crate::sig::lemma_first_target_props(*g, direction, nidx as int, 0);
        let fi = spec_first_target(*g, direction, nidx as int, 0)->0;
        assert(g.ftypes@[fi].valid(g.n_len()));
        assert(info.base.correspoding_rust_type < g.n_len());
        assert(info.base.correspoding_rust_type as int == resolved_inter(*g, direction, fi));
    }
    let inter = info.base.correspoding_rust_type;
    let path = match direction {
        Direction::Incoming => g.search_path(inter, nidx),
        Direction::Outgoing => g.search_path(nidx, inter),
    };
    let path = match path {
        Some(p) => p,
        None => {
            let mut msg = "no conversion chain between native types for ".to_owned();
            msg.append(g.ntypes[nidx].text.as_str());
            return Err(Diagnostic::new(src_id, span, DiagKind::NoForeignImage, msg));
        },
    };
    proof {
        crate::graph::lemma_path_edges_in_range(
            *g,
            (match direction {
                Direction::Incoming => inter as int,
                Direction::Outgoing => nidx as int,
            }),
            (match direction {
                Direction::Incoming => nidx as int,
                Direction::Outgoing => inter as int,
            }),
            path@,
        );
    }
    let (dotnet_type, dotnet_conversion) = match info.cpp_converter {
        Some(c) => (c.typename, Some(c.converter)),
        None => (info.base.name.clone(), None),
    };
    let r = DotNetArgInfo {
        arg_name: arg_name.to_owned(),
        dotnet_type,
        dotnet_intermediate_type: info.base.name,
        rust_intermediate_type: inter,
        rust_type: nidx,
        dotnet_conversion,
        rust_conversion_path: path,
    };
    proof {
        let fi = spec_first_target(*g, direction, nidx as int, 0)->0;
        assert(dotnet_info_ok(*g, direction, nidx as int, arg_name@, r));
    }
    Ok(r)
}

/// The trait the generated glue implements for every exported
/// enumeration: the mapping between variants and their wire integers.
pub trait SwigForeignEnum: Sized {
    fn from_u32(x: u32) -> Self;

    fn as_u32(&self) -> u32;
}

/// The project manifest of the managed library.
pub open spec fn csproj_text() -> Seq<char> {
    "\n<Project Sdk=\"Microsoft.NET.Sdk\">\n\n<PropertyGroup>\n    <TargetFramework>netstandard2.0</TargetFramework>\n</PropertyGroup>\n\n</Project>\n"@
}

/// Renders the project manifest.
pub fn make_csproj() -> (r: String)
    ensures
        r@ == csproj_text(),
{
    "\n<Project Sdk=\"Microsoft.NET.Sdk\">\n\n<PropertyGroup>\n    <TargetFramework>netstandard2.0</TargetFramework>\n</PropertyGroup>\n\n</Project>\n".to_owned()
}

/// The fixed opening of the managed source file: imports, the string
/// marshalling helper class, and the error wrapper class.
pub open spec fn cs_prologue_text(managed: Seq<char>, native: Seq<char>) -> Seq<char> {
    "\n// Generated by rust_swig. Do not edit.\n\nusing System;\nusing System.Runtime.InteropServices;\n\nnamespace "@
        + managed
        + "\n{\n    internal static class RustString {\n        [DllImport(\""@
        + native + "\", CallingConvention = CallingConvention.Cdecl)]\n        internal static ext"@
        + "ern void c_string_delete(IntPtr c_char_ptr);\n\n        [DllImport(\""@
        + native + "\", CallingConvention = CallingConvention.Cdecl)]\n        internal static ext"@
        + "ern /* *mut RustString */ IntPtr c_str_u16_to_string(/* *const u16 */ IntPtr c_string_ptr);\n\n        internal static string rust_to_dotnet(/* *const u16 */ IntPtr c_string_ptr)\n        {\n            var dotnet_str = Marshal.PtrToStringUni(c_string_ptr);\n            RustString.c_string_delete(c_string_ptr);\n            return dotnet_str;\n        }\n\n        internal static /* *mut RustString */ IntPtr dotnet_to_rust(string dotnet_str)\n        {\n            var c_string_ptr = Marshal.StringToHGlobalUni(dotnet_str);\n            var rust_string_ptr = c_str_u16_to_string(c_string_ptr);\n            Marshal.FreeHGlobal(c_string_ptr);\n            return rust_string_ptr;\n        }\n    }\n\n    [System.Serializable]\n    public class Error : System.Exception\n    {\n        public Error(string message) : base(message) { }\n    }\n"@
}

/// Renders the fixed opening of the managed source file.
pub fn make_cs_prologue(managed: &str, native: &str) -> (r: String)
    ensures
        r@ == cs_prologue_text(managed@, native@),
{
    let mut s =
        "\n// Generated by rust_swig. Do not edit.\n\nusing System;\nusing System.Runtime.InteropServices;\n\nnamespace ".to_owned();
    s.append(managed);
    s.append("\n{\n    internal static class RustString {\n        [DllImport(\"");
    s.append(native);
    s.append("\", CallingConvention = CallingConvention.Cdecl)]\n        internal static ext");
    s.append("ern void c_string_delete(IntPtr c_char_ptr);\n\n        [DllImport(\"");
    s.append(native);
    s.append("\", CallingConvention = CallingConvention.Cdecl)]\n        internal static ext");
    s.append(
        "ern /* *mut RustString */ IntPtr c_str_u16_to_string(/* *const u16 */ IntPtr c_string_ptr);\n\n        internal static string rust_to_dotnet(/* *const u16 */ IntPtr c_string_ptr)\n        {\n            var dotnet_str = Marshal.PtrToStringUni(c_string_ptr);\n            RustString.c_string_delete(c_string_ptr);\n            return dotnet_str;\n        }\n\n        internal static /* *mut RustString */ IntPtr dotnet_to_rust(string dotnet_str)\n        {\n            var c_string_ptr = Marshal.StringToHGlobalUni(dotnet_str);\n            var rust_string_ptr = c_str_u16_to_string(c_string_ptr);\n            Marshal.FreeHGlobal(c_string_ptr);\n            return rust_string_ptr;\n        }\n    }\n\n    [System.Serializable]\n    public class Error : System.Exception\n    {\n        public Error(string message) : base(message) { }\n    }\n",
    );
    proof {
        assert(s@ =~= cs_prologue_text(managed@, native@));
    }
    s
}

/// The variant list of a foreign enum declaration: camel-cased names,
/// numbered upward from zero, separated by commas.
pub open spec fn enum_variants_text(items: Seq<EnumItem>, k: int) -> Seq<char>
    decreases k,
{
    if k <= 0 {
        Seq::<char>::empty()
    } else if k == 1 {
        camel_of(items[0].name@) + " = 0"@
    } else {
        enum_variants_text(items, k - 1) + ","@ + camel_of(items[k - 1].name@) + " = "@ + dec_of(
            (k - 1) as nat,
        )
    }
}

/// The foreign enum declaration.
pub open spec fn enum_decl_text(fenum: ForeignEnumInfo) -> Seq<char> {
    "\n    "@ + docstring_text(fenum.doc_comments@, fenum.doc_comments@.len() as int)
        + "\n    public enum "@ + fenum.name@ + " {\n        "@ + enum_variants_text(
        fenum.items@,
        fenum.items@.len() as int,
    ) + "\n    }"@
}

/// The arms mapping variants to their wire integers.
pub open spec fn enum_arms_to_text(items: Seq<EnumItem>, k: int) -> Seq<char>
    decreases k,
{
    if k <= 0 {
        Seq::<char>::empty()
    } else {
        enum_arms_to_text(items, k - 1) + items[k - 1].rust_name@ + " => "@ + dec_of(
            (k - 1) as nat,
        ) + "u32,\n            "@
    }
}

/// The arms mapping wire integers back to variants.
pub open spec fn enum_arms_from_text(items: Seq<EnumItem>, k: int) -> Seq<char>
    decreases k,
{
    if k <= 0 {
        Seq::<char>::empty()
    } else {
        enum_arms_from_text(items, k - 1) + dec_of((k - 1) as nat) + "u32 => "@
            + items[k - 1].rust_name@ + ",\n            "@
    }
}

/// The native glue implementing the enum trait: a match in each
/// direction, and a structured panic message naming the enum for any
/// integer outside the variant range.
pub open spec fn enum_glue_text(fenum: ForeignEnumInfo) -> Seq<char> {
    "impl SwigForeignEnum for "@ + fenum.name@
        + " {\n    fn as_u32(&self) -> u32 {\n        match *self {\n            "@
        + enum_arms_to_text(fenum.items@, fenum.items@.len() as int)
        + "\n        }\n    }\n    fn from_u32(x: u32) -> Self {\n        match x {\n            "@
        + enum_arms_from_text(fenum.items@, fenum.items@.len() as int)
        + "_ => panic!(\"{} not expected for "@ + fenum.name@
        + "\", x),\n        }\n    }\n}\n"@
}

/// The carrier-image name of an enum: the integer type the enum
/// crosses the ABI as, annotated with the enum's name.
pub open spec fn enum_carrier_name_text(name: Seq<char>) -> Seq<char> {
    "/* "@ + name + " */ uint"@
}

/// The native edge template turning the wire integer back into the
/// enum.
pub open spec fn enum_from_wire_code(name: Seq<char>) -> Seq<char> {
    "let {to_var} = "@ + name + "::from_u32({from_var});"@
}

/// The native edge template turning the enum into the wire integer.
pub open spec fn enum_to_wire_code() -> Seq<char> {
    "let {to_var} = {from_var}.as_u32();"@
}

/// Renders the variant list of a foreign enum declaration.
#[verifier::loop_isolation(false)]
pub fn make_enum_variants(items: &Vec<EnumItem>) -> (r: String)
    ensures
        r@ == enum_variants_text(items@, items@.len() as int),
{
    let mut s = String::new();
    let mut i: usize = 0;
    while i < items.len()
        invariant
            i <= items@.len(),
            s@ == enum_variants_text(items@, i as int),
        decreases items@.len() - i,
    {
        if i > 0 {
            s.append(",");
        }
        let cc = to_camel_case(items[i].name.as_str());
        s.append(cc.as_str());
        s.append(" = ");
        let d = dec_u64(i as u64);
        s.append(d.as_str());
        proof {
            reveal_strlit("0");
            reveal_strlit(" = ");
            reveal_strlit(" = 0");
            if i == 0 {
                assert(dec_of(0) =~= seq!['0']);
                assert(s@ =~= enum_variants_text(items@, 1));
            } else {
                assert(s@ =~= enum_variants_text(items@, i + 1));
            }
        }
        i += 1;
    }
    s
}

/// Renders the variant-to-integer arms.
#[verifier::loop_isolation(false)]
pub fn make_enum_arms_to(items: &Vec<EnumItem>) -> (r: String)
    ensures
        r@ == enum_arms_to_text(items@, items@.len() as int),
{
    let mut s = String::new();
    let mut i: usize = 0;
    while i < items.len()
        invariant
            i <= items@.len(),
            s@ == enum_arms_to_text(items@, i as int),
        decreases items@.len() - i,
    {
        s.append(items[i].rust_name.as_str());
        s.append(" => ");
        let d = dec_u64(i as u64);
        s.append(d.as_str());
        s.append("u32,\n            ");
        proof {
            assert(s@ =~= enum_arms_to_text(items@, i + 1));
        }
        i += 1;
    }
    s
}

/// Renders the integer-to-variant arms.
#[verifier::loop_isolation(false)]
pub fn make_enum_arms_from(items: &Vec<EnumItem>) -> (r: String)
    ensures
        r@ == enum_arms_from_text(items@, items@.len() as int),
{
    let mut s = String::new();
    let mut i: usize = 0;
    while i < items.len()
        invariant
            i <= items@.len(),
            s@ == enum_arms_from_text(items@, i as int),
        decreases items@.len() - i,
    {
        let d = dec_u64(i as u64);
        s.append(d.as_str());
        s.append("u32 => ");
        s.append(items[i].rust_name.as_str());
        s.append(",\n            ");
        proof {
            assert(s@ =~= enum_arms_from_text(items@, i + 1));
        }
        i += 1;
    }
    s
}

/// The managed-side class opening for a class with storage: the
/// wrapper holding the native pointer, its disposal plumbing and the
/// destructor import.
pub open spec fn class_code_text(
    doc: Seq<char>,
    class_name: Seq<char>,
    native_lib: Seq<char>,
) -> Seq<char> {
    "\n    "@ + doc + "\n    public class "@ + class_name
        + ": IDisposable {\n        internal IntPtr nativePtr;\n\n        internal "@ + class_name
        + "(IntPtr nativePtr) {\n            this.nativePtr = nativePtr;\n        }\n\n        public void Dispose() {\n            DoDispose();\n            GC.SuppressFinalize(this);\n        }\n\n        private void DoDispose() {\n            if (nativePtr != IntPtr.Zero) {\n                "@
        + class_name
        + "_delete(nativePtr);\n                nativePtr = IntPtr.Zero;\n            }\n        }\n\n        [DllImport(\""@
        + native_lib + "\", CallingConvention = CallingConvention.Cdecl)]\n        internal static ext"@
        + "ern void "@ + class_name + "_delete(IntPtr __this);\n\n        ~"@ + class_name
        + "() {\n            DoDispose();\n        }\n"@
}

/// The managed-side class opening for a static class.
pub open spec fn static_class_code_text(doc: Seq<char>, class_name: Seq<char>) -> Seq<char> {
    doc + "\npublic static class "@ + class_name + " {\n"@
}

/// The native destructor export of a class with storage: takes the
/// owning pointer and drops the box.
pub open spec fn destructor_text(class_name: Seq<char>, storage: Seq<char>) -> Seq<char> {
    "\n#[allow(non_snake_case, unused_variables, unused_mut)]\n#[no_mangle]\npub ext"@
        + "ern \"C\" fn "@ + class_name + "_delete(this: * mut "@ + storage
        + ") {\n    let _this_box = uns"@ + "afe { Box::from_raw(this) };\n    ::std::mem::drop(_this_box);\n}\n"@
}

/// The native clone export of a shared-pointer class: bumps the
/// shared count by cloning the smart pointer behind the ABI pointer.
pub open spec fn clone_export_text(class_name: Seq<char>, storage: Seq<char>) -> Seq<char> {
    "\n#[allow(non_snake_case, unused_variables, unused_mut)]\n#[no_mangle]\npub ext"@
        + "ern \"C\" fn "@ + class_name + "_clone(this: * mut "@ + storage + ") -> * mut "@
        + storage + " {\n    let _this_ref = uns"@
        + "afe { &*this };\n    Box::into_raw(Box::new(_this_ref.clone()))\n}\n"@
}

/// Renders the native clone export of a shared-pointer class.
pub fn make_clone_export(class_name: &str, storage: &str) -> (r: String)
    ensures
        r@ == clone_export_text(class_name@, storage@),
{
    let mut s = "\n#[allow(non_snake_case, unused_variables, unused_mut)]\n#[no_mangle]\npub ext".to_owned();
    s.append("ern \"C\" fn ");
    s.append(class_name);
    s.append("_clone(this: * mut ");
    s.append(storage);
    s.append(") -> * mut ");
    s.append(storage);
    s.append(" {\n    let _this_ref = uns");
    s.append("afe { &*this };\n    Box::into_raw(Box::new(_this_ref.clone()))\n}\n");
    proof {
        assert(s@ =~= clone_export_text(class_name@, storage@));
    }
    s
}

/// Renders the native destructor export.
pub fn make_destructor(class_name: &str, storage: &str) -> (r: String)
    ensures
        r@ == destructor_text(class_name@, storage@),
{
    let mut s = "\n#[allow(non_snake_case, unused_variables, unused_mut)]\n#[no_mangle]\npub ext".to_owned();
    s.append("ern \"C\" fn ");
    s.append(class_name);
    s.append("_delete(this: * mut ");
    s.append(storage);
    s.append(") {\n    let _this_box = uns");
    s.append("afe { Box::from_raw(this) };\n    ::std::mem::drop(_this_box);\n}\n");
    proof {
        assert(s@ =~= destructor_text(class_name@, storage@));
    }
    s
}


/// The P/Invoke argument list: each argument as its ABI-crossing
/// managed type and its name.
pub open spec fn pinvoke_args_text(input: Seq<DotNetArgInfo>, k: int) -> Seq<char>
    decreases k,
{
    if k <= 0 {
        Seq::<char>::empty()
    } else if k == 1 {
        input[0].dotnet_intermediate_type@ + " "@ + input[0].arg_name@
    } else {
        pinvoke_args_text(input, k - 1) + ", "@ + input[k - 1].dotnet_intermediate_type@ + " "@
            + input[k - 1].arg_name@
    }
}

/// The P/Invoke declaration of one native export.
pub open spec fn pinvoke_text(
    native_lib: Seq<char>,
    ret_ty: Seq<char>,
    full_name: Seq<char>,
    args: Seq<char>,
) -> Seq<char> {
    "\n        [DllImport(\""@ + native_lib
        + "\", CallingConvention = CallingConvention.Cdecl)]\n        internal static ext"@
        + "ern "@ + ret_ty + " "@ + full_name + "("@ + args + ");\n"@
}

/// The native export's parameter list: each argument named as the
/// root of its conversion chain and typed by its ABI-crossing native
/// type.
pub open spec fn glue_args_text(g: TypeGraph, input: Seq<DotNetArgInfo>, k: int) -> Seq<char>
    decreases k,
{
    if k <= 0 {
        Seq::<char>::empty()
    } else if k == 1 {
        input[0].arg_name@ + ": "@ + g.ntext(input[0].rust_intermediate_type as int)
    } else {
        glue_args_text(g, input, k - 1) + ", "@ + input[k - 1].arg_name@ + ": "@ + g.ntext(
            input[k - 1].rust_intermediate_type as int,
        )
    }
}

/// The inbound conversions of the native export, in positional order.
pub open spec fn glue_input_conv_text(g: TypeGraph, input: Seq<DotNetArgInfo>, k: int) -> Seq<char>
    decreases k,
{
    if k <= 0 {
        Seq::<char>::empty()
    } else {
        glue_input_conv_text(g, input, k - 1) + chain_text(
            g,
            input[k - 1].rust_conversion_path@,
            input[k - 1].arg_name@,
            0,
        )
    }
}

/// The call arguments of the real native implementation: the last
/// form of each argument's conversion chain.
pub open spec fn call_args_text(input: Seq<DotNetArgInfo>, k: int) -> Seq<char>
    decreases k,
{
    if k <= 0 {
        Seq::<char>::empty()
    } else if k == 1 {
        var_text(input[0].arg_name@, input[0].rust_conversion_path@.len() as int)
    } else {
        call_args_text(input, k - 1) + ", "@ + var_text(
            input[k - 1].arg_name@,
            input[k - 1].rust_conversion_path@.len() as int,
        )
    }
}

/// The native C-ABI export of one method: intermediate-typed
/// parameters, the inbound conversions, the call of the real
/// implementation, the outbound conversion and the return of the
/// intermediate.
pub open spec fn glue_fn_text(g: TypeGraph, full_name: Seq<char>, sig: DotNetForeignMethodSignature) -> Seq<char> {
    "\n#[allow(non_snake_case, unused_variables, unused_mut)]\n#[no_mangle]\npub ext"@
        + "ern \"C\" fn "@ + full_name + "("@ + glue_args_text(
        g,
        sig.input@,
        sig.input@.len() as int,
    ) + ") -> "@ + g.ntext(sig.output.rust_intermediate_type as int) + " {\n        "@
        + glue_input_conv_text(g, sig.input@, sig.input@.len() as int) + "let mut "@
        + sig.output.arg_name@ + " = "@ + sig.rust_function_call@ + "("@ + call_args_text(
        sig.input@,
        sig.input@.len() as int,
    ) + ");\n        "@ + chain_text(
        g,
        sig.output.rust_conversion_path@,
        sig.output.arg_name@,
        0,
    ) + var_text(sig.output.arg_name@, sig.output.rust_conversion_path@.len() as int)
        + "\n}\n"@
}

/// The last managed-side form of an argument: its first form when no
/// conversion applies, its converted form otherwise.
pub open spec fn wrapper_last_var(a: DotNetArgInfo) -> Seq<char> {
    if a.dotnet_conversion is Some {
        a.arg_name@ + "_1"@
    } else {
        a.arg_name@ + "_0"@
    }
}

/// The wrapper's declared parameter list: foreign-typed, starting at
/// `skip` (instance methods hide the receiver).
pub open spec fn wrapper_args_text(input: Seq<DotNetArgInfo>, skip: int, k: int) -> Seq<char>
    decreases k - skip,
{
    if k <= skip {
        Seq::<char>::empty()
    } else if k == skip + 1 {
        input[skip].dotnet_type@ + " "@ + input[skip].arg_name@ + "_0"@
    } else {
        wrapper_args_text(input, skip, k - 1) + ", "@ + input[k - 1].dotnet_type@ + " "@
            + input[k - 1].arg_name@ + "_0"@
    }
}

/// The wrapper's managed-side conversions, one per argument that has
/// a conversion template.
pub open spec fn wrapper_input_conv_text(input: Seq<DotNetArgInfo>, skip: int, k: int) -> Seq<char>
    decreases k - skip,
{
    if k <= skip {
        Seq::<char>::empty()
    } else {
        wrapper_input_conv_text(input, skip, k - 1) + (match input[k - 1].dotnet_conversion {
            Some(tmpl) => "var "@ + input[k - 1].arg_name@ + "_1 = "@ + replace_spec(
                tmpl@,
                "{from_var}"@,
                input[k - 1].arg_name@ + "_0"@,
            ) + ";\n            "@,
            None => Seq::<char>::empty(),
        })
    }
}

/// The wrapper's call arguments: the hidden receiver (below `skip`)
/// in its first form, since no managed-side conversion is emitted for
/// it, then the last managed-side form of every declared argument.
pub open spec fn wrapper_call_args_text(input: Seq<DotNetArgInfo>, skip: int, k: int) -> Seq<char>
    decreases k,
{
    if k <= 0 {
        Seq::<char>::empty()
    } else {
        let piece = if k - 1 < skip {
            input[k - 1].arg_name@ + "_0"@
        } else {
            wrapper_last_var(input[k - 1])
        };
        if k == 1 {
            piece
        } else {
            wrapper_call_args_text(input, skip, k - 1) + ", "@ + piece
        }
    }
}


/// Renders the P/Invoke argument list.
#[verifier::loop_isolation(false)]
pub fn make_pinvoke_args(input: &Vec<DotNetArgInfo>) -> (r: String)
    ensures
        r@ == pinvoke_args_text(input@, input@.len() as int),
{
    let mut s = String::new();
    let mut i: usize = 0;
    while i < input.len()
        invariant
            i <= input@.len(),
            s@ == pinvoke_args_text(input@, i as int),
        decreases input@.len() - i,
    {
        if i > 0 {
            s.append(", ");
        }
        s.append(input[i].dotnet_intermediate_type.as_str());
        s.append(" ");
        s.append(input[i].arg_name.as_str());
        proof {
            assert(s@ =~= pinvoke_args_text(input@, i + 1));
        }
        i += 1;
    }
    s
}

/// Renders the native export's parameter list.
#[verifier::loop_isolation(false)]
pub fn make_glue_args(g: &TypeGraph, input: &Vec<DotNetArgInfo>) -> (r: String)
    requires
        forall|i: int|
            0 <= i < input@.len() ==> (#[trigger] input@[i]).rust_intermediate_type < g.n_len(),
    ensures
        r@ == glue_args_text(*g, input@, input@.len() as int),
{
    let mut s = String::new();
    let mut i: usize = 0;
    while i < input.len()
        invariant
            i <= input@.len(),
            s@ == glue_args_text(*g, input@, i as int),
        decreases input@.len() - i,
    {
        if i > 0 {
            s.append(", ");
        }
        s.append(input[i].arg_name.as_str());
        s.append(": ");
        let ty = input[i].rust_intermediate_type;
        s.append(g.ntypes[ty].text.as_str());
        proof {
            assert(s@ =~= glue_args_text(*g, input@, i + 1));
        }
        i += 1;
    }
    s
}

/// Renders the inbound conversions of the native export.
#[verifier::loop_isolation(false)]
pub fn make_glue_input_conv(g: &TypeGraph, input: &Vec<DotNetArgInfo>) -> (r: String)
    requires
        forall|i: int, e: int|
            0 <= i < input@.len() && 0 <= e < (#[trigger] input@[i]).rust_conversion_path@.len()
                ==> (#[trigger] input@[i].rust_conversion_path@[e]) < g.edges@.len(),
    ensures
        r@ == glue_input_conv_text(*g, input@, input@.len() as int),
{
    let mut s = String::new();
    let mut i: usize = 0;
    while i < input.len()
        invariant
            i <= input@.len(),
            s@ == glue_input_conv_text(*g, input@, i as int),
        decreases input@.len() - i,
    {
        let piece = render_chain(g, &input[i].rust_conversion_path, input[i].arg_name.as_str());
        s.append(piece.as_str());
        proof {
            assert(s@ =~= glue_input_conv_text(*g, input@, i + 1));
        }
        i += 1;
    }
    s
}

/// Renders the call arguments of the real native implementation.
#[verifier::loop_isolation(false)]
pub fn make_call_args(input: &Vec<DotNetArgInfo>) -> (r: String)
    ensures
        r@ == call_args_text(input@, input@.len() as int),
{
    let mut s = String::new();
    let mut i: usize = 0;
    while i < input.len()
        invariant
            i <= input@.len(),
            s@ == call_args_text(input@, i as int),
        decreases input@.len() - i,
    {
        if i > 0 {
            s.append(", ");
        }
        let v = var_name(
            input[i].arg_name.as_str(),
            input[i].rust_conversion_path.len() as u64,
        );
        s.append(v.as_str());
        proof {
            assert(s@ =~= call_args_text(input@, i + 1));
        }
        i += 1;
    }
    s
}

/// Renders the wrapper's declared parameter list.
#[verifier::loop_isolation(false)]
pub fn make_wrapper_args(input: &Vec<DotNetArgInfo>, skip: usize) -> (r: String)
    ensures
        r@ == wrapper_args_text(input@, skip as int, input@.len() as int),
{
    let mut s = String::new();
    let mut i: usize = skip;
    proof {
        if skip >= input@.len() {
            assert(wrapper_args_text(input@, skip as int, input@.len() as int)
                == Seq::<char>::empty()) by {
                if input@.len() > skip {
                }
            }
        }
    }
    while i < input.len()
        invariant
            skip <= i,
            i <= input@.len() || i == skip,
            s@ == wrapper_args_text(input@, skip as int, i as int),
        decreases input@.len() - i,
    {
        if i > skip {
            s.append(", ");
        }
        s.append(input[i].dotnet_type.as_str());
        s.append(" ");
        s.append(input[i].arg_name.as_str());
        s.append("_0");
        proof {
            assert(s@ =~= wrapper_args_text(input@, skip as int, i + 1));
        }
        i += 1;
    }
    s
}

/// Renders the wrapper's managed-side conversions.
#[verifier::loop_isolation(false)]
pub fn make_wrapper_input_conv(input: &Vec<DotNetArgInfo>, skip: usize) -> (r: String)
    ensures
        r@ == wrapper_input_conv_text(input@, skip as int, input@.len() as int),
{
    let mut s = String::new();
    let mut i: usize = skip;
    proof {
        reveal_strlit("{from_var}");
    }
    while i < input.len()
        invariant
            skip <= i,
            i <= input@.len() || i == skip,
            s@ == wrapper_input_conv_text(input@, skip as int, i as int),
        decreases input@.len() - i,
    {
        match &input[i].dotnet_conversion {
            Some(tmpl) => {
                s.append("var ");
                s.append(input[i].arg_name.as_str());
                s.append("_1 = ");
                let mut from0 = input[i].arg_name.clone();
                from0.append("_0");
                let conv = replace_all(tmpl.as_str(), "{from_var}", from0.as_str());
                s.append(conv.as_str());
                s.append(";\n            ");
            },
            None => {},
        }
        proof {
            assert(s@ =~= wrapper_input_conv_text(input@, skip as int, i + 1));
        }
        i += 1;
    }
    s
}

/// Renders the wrapper's call arguments.
#[verifier::loop_isolation(false)]
pub fn make_wrapper_call_args(input: &Vec<DotNetArgInfo>, skip: usize) -> (r: String)
    ensures
        r@ == wrapper_call_args_text(input@, skip as int, input@.len() as int),
{
    let mut s = String::new();
    let mut i: usize = 0;
    while i < input.len()
        invariant
            i <= input@.len(),
            s@ == wrapper_call_args_text(input@, skip as int, i as int),
        decreases input@.len() - i,
    {
        if i > 0 {
            s.append(", ");
        }
        let converted = i >= skip && input[i].dotnet_conversion.is_some();
        if converted {
            s.append(input[i].arg_name.as_str());
            s.append("_1");
        } else {
            s.append(input[i].arg_name.as_str());
            s.append("_0");
        }
        proof {
            assert(s@ =~= wrapper_call_args_text(input@, skip as int, i + 1));
        }
        i += 1;
    }
    s
}


/// The declared return-type text of a method; unit when absent.
pub open spec fn ret_text_of(method: ForeignMethod) -> Seq<char> {
    match method.ret_type {
        Some(t) => t@,
        None => "()"@,
    }
}

/// One declared type text resolves against the graph in the given
/// direction.
pub open spec fn text_resolves(g: TypeGraph, dir: Direction, t: Seq<char>) -> bool {
    match crate::sig::spec_first_native(g, t, 0) {
        None => false,
        Some(n) => dotnet_resolve_kind(g, dir, n) is None,
    }
}

/// Every argument and the return type of the method resolve against
/// the graph.
pub open spec fn method_resolves(g: TypeGraph, method: ForeignMethod) -> bool {
    &&& forall|i: int|
        0 <= i < method.arg_types@.len() ==> text_resolves(
            g,
            Direction::Incoming,
            (#[trigger] method.arg_types@[i])@,
        )
&&& text_resolves(g, Direction::Outgoing, ret_text_of(method))
}

/// Everything a successfully resolved method signature pins against
/// the graph: name, kind, call text, docstring, and every argument
/// and the return value resolved per `dotnet_info_ok`.
pub open spec fn sig_resolved_ok(
    g: TypeGraph,
    method: ForeignMethod,
    sig: DotNetForeignMethodSignature,
) -> bool {
    &&& sig.input@.len() == method.arg_types@.len()
&&& sig.name@ == method.name@
&&& sig.variant == method.variant
&&& sig.rust_function_call@ == method.rust_call@
&&& sig.docstring@ == docstring_text(method.doc_comments@, method.doc_comments@.len() as int)
&&& forall|i: int|
        0 <= i < sig.input@.len() ==> dotnet_info_ok(
            g,
            Direction::Incoming,
            (#[trigger] sig.input@[i]).rust_type as int,
            method.arg_names@[i]@,
            sig.input@[i],
        )
&&& forall|i: int|
        0 <= i < sig.input@.len() ==> (#[trigger] sig.input@[i]).rust_type < g.n_len() && g.ntext(
            sig.input@[i].rust_type as int,
        ) == method.arg_types@[i]@
&&& sig.output.rust_type < g.n_len()
&&& g.ntext(sig.output.rust_type as int) == ret_text_of(method)
&&& dotnet_info_ok(g, Direction::Outgoing, sig.output.rust_type as int, "__ret"@, sig.output)
&&& forall|i: int|
        0 <= i < sig.input@.len() ==> (#[trigger] sig.input@[i]).rust_intermediate_type < g.n_len()
&&& forall|i: int, e: int|
        0 <= i < sig.input@.len() && 0 <= e < (#[trigger] sig.input@[i]).rust_conversion_path@.len()
            ==> (#[trigger] sig.input@[i].rust_conversion_path@[e]) < g.edges@.len()
&&& sig.output.rust_intermediate_type < g.n_len()
&&& forall|e: int|
        0 <= e < sig.output.rust_conversion_path@.len()
            ==> #[trigger] sig.output.rust_conversion_path@[e] < g.edges@.len()
}

/// The concatenation of the first `k` stored per-type helper codes.
pub open spec fn extra_codes_text(extra: Seq<(String, String)>, k: int) -> Seq<char>
    decreases k,
{
    if k <= 0 {
        Seq::<char>::empty()
    } else {
        extra_codes_text(extra, k - 1) + extra[k - 1].1@
    }
}

/// The output of one managed-runtime generation run: the native glue
/// items, the managed source file and the project manifest, the
/// warnings the run produced, and the conversion graph with every
/// class and enum of the run registered.
pub struct DotNetOutput {
    pub rust_code: Vec<String>,
    pub cs_file_content: String,
    pub csproj_content: String,
    pub warnings: Vec<String>,
    pub conv_map: TypeGraph,
}

/// Whether a parametric rule applies to a declared type text over
/// the graph: the text matches the pattern the rule's first
/// outgoing arm names, and the concrete type is a known native
/// with an outgoing foreign image.  The result is the concrete
/// type's native index — the memo key.
pub open spec fn spec_rule_applies(
    g: TypeGraph,
    rule: TypeMapConvRuleInfo,
    param: Seq<char>,
    t: Seq<char>,
) -> Option<int> {
    if rule.ftype_left_to_right@.len() == 0 || param.len() == 0 {
        None
    } else {
        match crate::rules::pattern_match_spec(
            t,
            rule.ftype_left_to_right@[0].rust_ty@,
            param,
        ) {
            None => None,
            Some(c) => match crate::sig::spec_first_native(g, c, 0) {
                None => None,
                Some(n) => if crate::sig::spec_first_target(g, Direction::Outgoing, n, 0)
                    is Some {
                    Some(n)
                } else {
                    None
                },
            },
        }
    }
}

/// Every parametric rule applicable to one of the method's declared
/// type texts is memoized under its key.
pub open spec fn generics_memoized(
    g: TypeGraph,
    rules: Seq<(TypeMapConvRuleInfo, String)>,
    cache: InstantiationCache,
    method: ForeignMethod,
) -> bool {
    &&& (forall|rx: int, i: int|
        0 <= rx < rules.len() && 0 <= i < method.arg_types@.len() ==> (match spec_rule_applies(
            g,
            (#[trigger] rules[rx]).0,
            rules[rx].1@,
            (#[trigger] method.arg_types@[i])@,
        ) {
            Some(n) => cache.spec_has(rx, seq![n as usize]),
            None => true,
        }))
&&& (forall|rx: int|
        0 <= rx < rules.len() ==> (match spec_rule_applies(
            g,
            (#[trigger] rules[rx]).0,
            rules[rx].1@,
            ret_text_of(method),
        ) {
            Some(n) => cache.spec_has(rx, seq![n as usize]),
            None => true,
        }))
}

/// The concrete type text a rule binds its parameter to for a
/// declared text.
pub open spec fn rule_concrete(
    rule: TypeMapConvRuleInfo,
    param: Seq<char>,
    t: Seq<char>,
) -> Option<Seq<char>> {
    if rule.ftype_left_to_right@.len() == 0 || param.len() == 0 {
        None
    } else {
        crate::rules::pattern_match_spec(t, rule.ftype_left_to_right@[0].rust_ty@, param)
    }
}

/// Some glue item in the range reads `txt`.
pub open spec fn item_emitted(code: Seq<String>, lo: int, hi: int, txt: Seq<char>) -> bool {
    exists|k: int| lo <= k < hi && (#[trigger] code[k])@ == txt
}

/// Every native glue item of the rule, substituted on the concrete
/// type and the foreign name, stands in the emitted range.
pub open spec fn rule_items_emitted(
    code: Seq<String>,
    lo: int,
    hi: int,
    rule: TypeMapConvRuleInfo,
    param: Seq<char>,
    c: Seq<char>,
    fname: Seq<char>,
) -> bool {
    forall|j: int|
        0 <= j < rule.rust_items@.len() ==> item_emitted(
            code,
            lo,
            hi,
            crate::rules::subst_text((#[trigger] rule.rust_items@[j])@, param, c, fname),
        )
}

/// Growing the graph keeps every applicable rule applicable, with the
/// same memo key.
proof fn lemma_applies_stable(
    g0: TypeGraph,
    g1: TypeGraph,
    rules: Seq<(TypeMapConvRuleInfo, String)>,
    t: Seq<char>,
)
    requires
        g1.n_len() >= g0.n_len(),
        forall|j: int| 0 <= j < g0.n_len() ==> #[trigger] g1.ntypes@[j] == g0.ntypes@[j],
        g1.ftypes@.len() >= g0.ftypes@.len(),
        forall|k: int, n2: int|
            0 <= k < g0.ftypes@.len() && (#[trigger] g0.ftypes@[k].targets(
                Direction::Outgoing,
                n2,
            )) ==> g1.ftypes@[k].targets(Direction::Outgoing, n2),
    ensures
        forall|rx: int|
            0 <= rx < rules.len() && spec_rule_applies(
                g0,
                (#[trigger] rules[rx]).0,
                rules[rx].1@,
                t,
            ) is Some ==> spec_rule_applies(g1, rules[rx].0, rules[rx].1@, t) == spec_rule_applies(
                g0,
                rules[rx].0,
                rules[rx].1@,
                t,
            ),
{
    assert forall|rx: int|
        0 <= rx < rules.len() && spec_rule_applies(
            g0,
            (#[trigger] rules[rx]).0,
            rules[rx].1@,
            t,
        ) is Some implies spec_rule_applies(g1, rules[rx].0, rules[rx].1@, t) == spec_rule_applies(
        g0,
        rules[rx].0,
        rules[rx].1@,
        t,
    ) by {
        let rule = rules[rx].0;
        let param = rules[rx].1@;
        match crate::rules::pattern_match_spec(t, rule.ftype_left_to_right@[0].rust_ty@, param) {
            Some(c) => {
                let n = crate::sig::spec_first_native(g0, c, 0)->0;
                crate::sig::lemma_first_native_extend(g0, g1, c);
                let f0 = spec_first_target(g0, Direction::Outgoing, n, 0)->0;
                crate::sig::lemma_first_target_props(g0, Direction::Outgoing, n, 0);
                assert(g0.ftypes@[f0].targets(Direction::Outgoing, n));
                assert(g1.ftypes@[f0].targets(Direction::Outgoing, n));
                crate::sig::lemma_target_exists_first_some(g1, Direction::Outgoing, n, 0, f0);
            },
            None => {},
        }
    }
}

/// The managed-runtime generator: the configuration, the type graph,
/// the native glue collected so far and the managed source buffer.
pub struct DotNetGenerator {
    pub config: DotNetConfig,
    pub conv_map: TypeGraph,
    pub rust_code: Vec<String>,
    pub cs_file: String,
    pub csproj: String,
    pub additional_cs_code_for_types: Vec<(String, String)>,
    pub known_c_items_modules: Vec<String>,
    /// Parametric rules, each with its parameter token, expanded on
    /// demand when a declared type matches.
    pub generic_rules: Vec<(TypeMapConvRuleInfo, String)>,
    pub instantiation_cache: InstantiationCache,
}

impl DotNetGenerator {
    /// The generator's graph is well formed.
    pub open spec fn wf(self) -> bool {
        self.conv_map.wf()
    }

    /// The project manifest and the opening of the managed source
    /// file.
    pub fn create_cs_project(config: &DotNetConfig) -> (r: (String, String))
        ensures
            r.0@ == csproj_text(),
            r.1@ == cs_prologue_text(config.managed_lib_name@, config.native_lib_name@),
    {
        let csproj = make_csproj();
        let cs_file = make_cs_prologue(
            config.managed_lib_name.as_str(),
            config.native_lib_name.as_str(),
        );
        (csproj, cs_file)
    }

    /// A fresh generator over a seeded type graph.
    pub fn new(config: DotNetConfig, conv_map: TypeGraph) -> (r: DotNetGenerator)
        requires
            conv_map.wf(),
        ensures
            r.wf(),
            r.config == config,
            r.conv_map == conv_map,
            r.csproj@ == csproj_text(),
            r.cs_file@ == cs_prologue_text(config.managed_lib_name@, config.native_lib_name@),
            r.rust_code@.len() == 0,
    {
        let (csproj, cs_file) = Self::create_cs_project(&config);
        DotNetGenerator {
            config,
            conv_map,
            rust_code: Vec::new(),
            cs_file,
            csproj,
            additional_cs_code_for_types: Vec::new(),
            known_c_items_modules: Vec::new(),
            generic_rules: Vec::new(),
            instantiation_cache: InstantiationCache::new(),
        }
    }

    /// Registers a parametric rule with its parameter token; the rule
    /// is instantiated on demand when a declared type text matches the
    /// pattern its first outgoing arm names.
    pub fn add_generic_rule(&mut self, rule: TypeMapConvRuleInfo, param: String)
        requires
            old(self).wf(),
        ensures
            final(self).wf(),
            final(self).config == old(self).config,
            final(self).conv_map == old(self).conv_map,
            final(self).cs_file == old(self).cs_file,
            final(self).csproj == old(self).csproj,
            final(self).rust_code == old(self).rust_code,
            final(self).generic_rules@.len() == old(self).generic_rules@.len() + 1,
    {
        self.generic_rules.push((rule, param));
    }

    /// Emits one foreign enumeration: the managed declaration with
    /// variants numbered upward from zero, the two foreign images in
    /// the graph (the enum itself crossing the ABI as the integer
    /// carrier, and the carrier's own direct image), the native glue
    /// implementing the wire mapping, and the two conversion edges.
    /// An enum whose name, or whose carrier name, is already
    /// registered is refused and nothing changes.
    #[verifier::rlimit(50)]
    pub fn generate_enum(&mut self, fenum: &ForeignEnumInfo) -> (r: Result<(), Diagnostic>)
        requires
            old(self).wf(),
        ensures
            final(self).wf(),
            final(self).config == old(self).config,
            final(self).csproj == old(self).csproj,
            crate::graph::foreign_names_preserved(old(self).conv_map, final(self).conv_map),
            match r {
                Ok(_) => {
                    &&& !old(self).conv_map.has_foreign_name(fenum.name@)
                &&& !old(self).conv_map.has_foreign_name(enum_carrier_name_text(fenum.name@))
                &&& final(self).cs_file@ == old(self).cs_file@ + enum_decl_text(*fenum)
                &&& final(self).rust_code@.len() == old(self).rust_code@.len() + 1
                &&& final(self).rust_code@.last()@ == enum_glue_text(*fenum)
                &&& forall|k: int|
                        0 <= k < old(self).rust_code@.len()
                            ==> #[trigger] final(self).rust_code@[k] == old(self).rust_code@[k]
                &&& final(self).conv_map.has_foreign_name(fenum.name@)
                &&& ({
                    let g = final(self).conv_map;
                    let fi = old(self).conv_map.ftypes@.len() as int;
                    &&& g.ftypes@.len() == fi + 2
                    &&& g.ftypes@[fi].name@ == fenum.name@
                    &&& (match (g.ftypes@[fi].into_from_rust, g.ftypes@[fi].from_into_rust) {
                        (Some(a), Some(b)) => {
                            &&& a.rust_ty == b.rust_ty
                        &&& g.ntext(a.rust_ty as int) == fenum.name@
                        &&& (match (a.intermediate, b.intermediate) {
                                (Some(ia), Some(ib)) => {
                                    &&& ia.intermediate_ty == ib.intermediate_ty
                                &&& g.ntext(ia.intermediate_ty as int) == "u32"@
                                &&& ia.conv_code@ == "("@ + fenum.name@ + "){from_var}"@
                                &&& ib.conv_code@ == "(uint){from_var}"@
                                },
                                _ => false,
                            })
                        },
                        _ => false,
                    })
                    &&& g.ftypes@[fi + 1].name@ == enum_carrier_name_text(fenum.name@)
                })
                &&& ({
                    let g = final(self).conv_map;
                    let e = old(self).conv_map.edges@.len() as int;
                    &&& g.edges@.len() == e + 2
                    &&& forall|k: int| 0 <= k < e ==> #[trigger] g.edges@[k] == old(self).conv_map.edges@[k]
                    &&& g.edges@[e].code@ == enum_from_wire_code(fenum.name@)
                    &&& g.ntext(g.edges@[e].from as int) == "u32"@
                    &&& g.ntext(g.edges@[e].to as int) == fenum.name@
                    &&& g.edges@[e + 1].code@ == enum_to_wire_code()
                    &&& g.ntext(g.edges@[e + 1].from as int) == fenum.name@
                    &&& g.ntext(g.edges@[e + 1].to as int) == "u32"@
                })
                },
                Err(d) => {
                    &&& d.kind == DiagKind::DuplicateForeignType
                &&& (old(self).conv_map.has_foreign_name(fenum.name@) || old(
                        self,
                    ).conv_map.has_foreign_name(enum_carrier_name_text(fenum.name@)))
                &&& *final(self) == *old(self)
                },
            },
    {
        let mut carrier_name = "/* ".to_owned();
        carrier_name.append(fenum.name.as_str());
        carrier_name.append(" */ uint");
        proof {
            assert(carrier_name@ =~= enum_carrier_name_text(fenum.name@));
        }
        if self.conv_map.find_foreign_by_name(fenum.name.as_str()).is_some()
            || self.conv_map.find_foreign_by_name(carrier_name.as_str()).is_some() {
            return Err(
                Diagnostic::new(
                    fenum.src_id,
                    fenum.span,
                    DiagKind::DuplicateForeignType,
                    "enum is already registered".to_owned(),
                ),
            );
        }
        let doc = make_docstring(&fenum.doc_comments);
        let variants = make_enum_variants(&fenum.items);
        let mut decl = "\n    ".to_owned();
        decl.append(doc.as_str());
        decl.append("\n    public enum ");
        decl.append(fenum.name.as_str());
        decl.append(" {\n        ");
        decl.append(variants.as_str());
        decl.append("\n    }");
        proof {
            assert(decl@ =~= enum_decl_text(*fenum));
        }
        self.cs_file.append(decl.as_str());
        let enum_type = self.conv_map.find_or_alloc_native(fenum.name.as_str(), fenum.src_id);
        let intermediate_type = self.conv_map.find_or_alloc_native("u32", fenum.src_id);
        let mut out_conv = "(".to_owned();
        out_conv.append(fenum.name.as_str());
        out_conv.append("){from_var}");
        let direct = ForeignTypeRec {
            name: fenum.name.clone(),
            provides_by_module: Vec::new(),
            into_from_rust: Some(
                ConvRule {
                    rust_ty: enum_type,
                    intermediate: Some(
                        Intermediate {
                            intermediate_ty: intermediate_type,
                            conv_code: out_conv,
                            input_to_output: false,
                        },
                    ),
                },
            ),
            from_into_rust: Some(
                ConvRule {
                    rust_ty: enum_type,
                    intermediate: Some(
                        Intermediate {
                            intermediate_ty: intermediate_type,
                            conv_code: "(uint){from_var}".to_owned(),
                            input_to_output: false,
                        },
                    ),
                },
            ),
            name_prefix: None,
            src_id: fenum.src_id,
            span: fenum.span,
        };
        match self.conv_map.alloc_foreign(direct) {
            Ok(_) => {},
            Err(d) => {
                proof {
                    assert(false);
                }
                return Err(d);
            },
        }
        let ghost gafter1 = self.conv_map;
        let carrier = ForeignTypeRec {
            name: carrier_name,
            provides_by_module: Vec::new(),
            into_from_rust: Some(ConvRule { rust_ty: intermediate_type, intermediate: None }),
            from_into_rust: Some(ConvRule { rust_ty: intermediate_type, intermediate: None }),
            name_prefix: None,
            src_id: fenum.src_id,
            span: fenum.span,
        };
        match self.conv_map.alloc_foreign(carrier) {
            Ok(_) => {},
            Err(d) => {
                proof {
                    reveal_strlit("/* ");
                    reveal_strlit(" */ uint");
                    let cname = enum_carrier_name_text(fenum.name@);
                    let w = choose|f: int|
                        0 <= f < gafter1.ftypes@.len() && #[trigger] gafter1.ftypes@[f].name@
                            == cname;
                    if w < gafter1.ftypes@.len() - 1 {
                        assert(gafter1.ftypes@[w] == old(self).conv_map.ftypes@[w]);
                        assert(old(self).conv_map.ftypes@[w].name@ == cname);
                        assert(old(self).conv_map.has_foreign_name(cname));
                    } else {
                        assert(gafter1.ftypes@[w].name@ == fenum.name@);
                        assert(cname.len() == fenum.name@.len() + 10);
                    }
                    assert(false);
                }
                return Err(d);
            },
        }
        let ghost gmid = self.conv_map;
        proof {
            assert(gmid.ftypes@[gmid.ftypes@.len() - 2].name@ == fenum.name@);
            assert(gmid.has_foreign_name(fenum.name@));
        }
        let arms_to = make_enum_arms_to(&fenum.items);
        let arms_from = make_enum_arms_from(&fenum.items);
        let mut glue = "impl SwigForeignEnum for ".to_owned();
        glue.append(fenum.name.as_str());
        glue.append(" {\n    fn as_u32(&self) -> u32 {\n        match *self {\n            ");
        glue.append(arms_to.as_str());
        glue.append(
            "\n        }\n    }\n    fn from_u32(x: u32) -> Self {\n        match x {\n            ",
        );
        glue.append(arms_from.as_str());
        glue.append("_ => panic!(\"{} not expected for ");
        glue.append(fenum.name.as_str());
        glue.append("\", x),\n        }\n    }\n}\n");
        proof {
            assert(glue@ =~= enum_glue_text(*fenum));
        }
        self.rust_code.push(glue);
        let mut from_u32_code = "let {to_var} = ".to_owned();
        from_u32_code.append(fenum.name.as_str());
        from_u32_code.append("::from_u32({from_var});");
        proof {
            assert(from_u32_code@ =~= enum_from_wire_code(fenum.name@));
        }
        self.conv_map.add_conversion(intermediate_type, enum_type, from_u32_code);
        self.conv_map.add_conversion(
            enum_type,
            intermediate_type,
            "let {to_var} = {from_var}.as_u32();".to_owned(),
        );
        proof {
            crate::graph::lemma_foreign_name_preserved(gmid, self.conv_map, fenum.name@);
            let e = old(self).conv_map.edges@.len() as int;
            assert(self.conv_map.edges@[e].code@ == enum_from_wire_code(fenum.name@));
            assert(self.conv_map.edges@[e + 1].code@ == enum_to_wire_code());
        }
        Ok(())
    }

    /// Expands every parametric rule matching one declared type text:
    /// instantiates the rule on the concrete type (memoized per rule
    /// and concrete native type), installs its foreign types and
    /// native edges, collects its managed helper class once per
    /// module, and emits its native glue items.  Afterwards every
    /// applicable rule is memoized for this text.  Glue that does not
    /// parse as Rust items is refused.
    #[verifier::loop_isolation(false)]
    #[verifier::rlimit(100)]
    pub fn expand_generics_for_text(
        &mut self,
        text: &str,
        src_id: crate::SourceId,
        span: crate::Span,
    ) -> (r: Result<(), Diagnostic>)
        requires
            old(self).wf(),
        ensures
            final(self).wf(),
            final(self).config == old(self).config,
            final(self).cs_file == old(self).cs_file,
            final(self).csproj == old(self).csproj,
            final(self).generic_rules == old(self).generic_rules,
            final(self).conv_map.n_len() >= old(self).conv_map.n_len(),
            forall|j: int|
                0 <= j < old(self).conv_map.n_len() ==> #[trigger] final(self).conv_map.ntypes@[j]
                    == old(self).conv_map.ntypes@[j],
            final(self).conv_map.ftypes@.len() >= old(self).conv_map.ftypes@.len(),
            crate::graph::foreign_names_preserved(old(self).conv_map, final(self).conv_map),
            forall|k: int, n2: int|
                0 <= k < old(self).conv_map.ftypes@.len()
                    && (#[trigger] old(self).conv_map.ftypes@[k].targets(
                    Direction::Outgoing,
                    n2,
                )) ==> final(self).conv_map.ftypes@[k].targets(Direction::Outgoing, n2),
            forall|id: int, p: Seq<usize>|
                #[trigger] old(self).instantiation_cache.spec_has(id, p)
                    ==> final(self).instantiation_cache.spec_has(id, p),
            final(self).rust_code@.len() >= old(self).rust_code@.len(),
            forall|k: int|
                0 <= k < old(self).rust_code@.len()
                    ==> #[trigger] final(self).rust_code@[k] == old(self).rust_code@[k],
            forall|k: int|
                old(self).rust_code@.len() <= k < final(self).rust_code@.len()
                    ==> item_parses((#[trigger] final(self).rust_code@[k])@),
            match r {
                Ok(_) => forall|rx: int|
                    0 <= rx < old(self).generic_rules@.len()
                        ==> (match spec_rule_applies(
                        old(self).conv_map,
                        (#[trigger] old(self).generic_rules@[rx]).0,
                        old(self).generic_rules@[rx].1@,
                        text@,
                    ) {
                        Some(n) => final(self).instantiation_cache.spec_has(rx, seq![n as usize])
                            && (!old(self).instantiation_cache.spec_has(rx, seq![n as usize])
                            ==> (exists|fname: Seq<char>|
                            #[trigger] rule_items_emitted(
                                final(self).rust_code@,
                                old(self).rust_code@.len() as int,
                                final(self).rust_code@.len() as int,
                                old(self).generic_rules@[rx].0,
                                old(self).generic_rules@[rx].1@,
                                rule_concrete(
                                    old(self).generic_rules@[rx].0,
                                    old(self).generic_rules@[rx].1@,
                                    text@,
                                )->0,
                                fname,
                            ))),
                        None => true,
                    }),
                Err(d) => d.kind == DiagKind::GlueParse,
            },
    {
        let ghost g0 = old(self).conv_map;
        let mut r_idx: usize = 0;
        while r_idx < self.generic_rules.len()
            invariant
                self.wf(),
                self.config == old(self).config,
                self.cs_file == old(self).cs_file,
                self.csproj == old(self).csproj,
                self.generic_rules == old(self).generic_rules,
                self.conv_map.n_len() >= g0.n_len(),
                forall|j: int|
                    0 <= j < g0.n_len() ==> #[trigger] self.conv_map.ntypes@[j] == g0.ntypes@[j],
                self.conv_map.ftypes@.len() >= g0.ftypes@.len(),
                crate::graph::foreign_names_preserved(g0, self.conv_map),
                forall|k: int, n2: int|
                    0 <= k < g0.ftypes@.len() && (#[trigger] g0.ftypes@[k].targets(
                        Direction::Outgoing,
                        n2,
                    )) ==> self.conv_map.ftypes@[k].targets(Direction::Outgoing, n2),
                forall|id: int, p: Seq<usize>|
                    #[trigger] old(self).instantiation_cache.spec_has(id, p)
                        ==> self.instantiation_cache.spec_has(id, p),
                forall|id: int, p: Seq<usize>|
                    id >= r_idx ==> ((#[trigger] self.instantiation_cache.spec_has(id, p))
                        <==> old(self).instantiation_cache.spec_has(id, p)),
                self.rust_code@.len() >= old(self).rust_code@.len(),
                forall|k: int|
                    0 <= k < old(self).rust_code@.len()
                        ==> #[trigger] self.rust_code@[k] == old(self).rust_code@[k],
                forall|k: int|
                    old(self).rust_code@.len() <= k < self.rust_code@.len() ==> item_parses(
                        (#[trigger] self.rust_code@[k])@,
                    ),
                r_idx <= self.generic_rules@.len(),
                forall|rx: int|
                    0 <= rx < r_idx ==> (match spec_rule_applies(
                        g0,
                        (#[trigger] old(self).generic_rules@[rx]).0,
                        old(self).generic_rules@[rx].1@,
                        text@,
                    ) {
                        Some(n) => self.instantiation_cache.spec_has(rx, seq![n as usize]) && (
                        !old(self).instantiation_cache.spec_has(rx, seq![n as usize]) ==> (exists|
                            fname: Seq<char>,
                        |
                            #[trigger] rule_items_emitted(
                                self.rust_code@,
                                old(self).rust_code@.len() as int,
                                self.rust_code@.len() as int,
                                old(self).generic_rules@[rx].0,
                                old(self).generic_rules@[rx].1@,
                                rule_concrete(
                                    old(self).generic_rules@[rx].0,
                                    old(self).generic_rules@[rx].1@,
                                    text@,
                                )->0,
                                fname,
                            ))),
                        None => true,
                    }),
            decreases self.generic_rules@.len() - r_idx,
        {
            let ghost applies = spec_rule_applies(
                g0,
                old(self).generic_rules@[r_idx as int].0,
                old(self).generic_rules@[r_idx as int].1@,
                text@,
            );
            let rp = &self.generic_rules[r_idx];
            if rp.0.ftype_left_to_right.len() == 0 || rp.1.as_str().unicode_len() == 0 {
                r_idx += 1;
                continue ;
            }
            let concrete = match match_pattern(
                text,
                rp.0.ftype_left_to_right[0].rust_ty.as_str(),
                rp.1.as_str(),
            ) {
                Some(c) => c,
                None => {
                    r_idx += 1;
                    continue ;
                },
            };
            let cidx = match self.conv_map.find_native(concrete.as_str()) {
                Some(c) => c,
                None => {
                    proof {
                        if applies is Some {
                            crate::sig::lemma_first_native_props(g0, concrete@, 0);
                            let n = applies->0;
                            assert(self.conv_map.ntext(n) == concrete@);
                            assert(self.conv_map.has_native(concrete@));
                        }
                    }
                    r_idx += 1;
                    continue ;
                },
            };
            let fname = match self.conv_map.find_foreign_for_native(
                cidx,
                Direction::Outgoing,
            ) {
                Some(fidx) => self.conv_map.ftypes[fidx].name.clone(),
                None => {
                    proof {
                        if applies is Some {
                            let n = applies->0;
                            crate::sig::lemma_first_native_props(g0, concrete@, 0);
                            assert(self.conv_map.ntext(n) == concrete@);
                            assert(n == cidx as int) by {
                                crate::graph::lemma_native_index_unique(
                                    self.conv_map,
                                    n,
                                    cidx as int,
                                );
                            }
                            let f0 = spec_first_target(g0, Direction::Outgoing, n, 0)->0;
                            crate::sig::lemma_first_target_props(
                                g0,
                                Direction::Outgoing,
                                n,
                                0,
                            );
                            assert(g0.ftypes@[f0].targets(Direction::Outgoing, n));
                            assert(self.conv_map.ftypes@[f0].targets(Direction::Outgoing, n));
                            assert(false);
                        }
                    }
                    r_idx += 1;
                    continue ;
                },
            };
            proof {
                if applies is Some {
                    crate::sig::lemma_first_native_props(g0, concrete@, 0);
                    assert(self.conv_map.ntext(applies->0) == concrete@);
                    crate::graph::lemma_native_index_unique(
                        self.conv_map,
                        applies->0,
                        cidx as int,
                    );
                    assert(applies->0 == cidx as int);
                }
            }
            let mut cache_key: Vec<usize> = Vec::new();
            cache_key.push(cidx);
            proof {
                assert(cache_key@ =~= seq![cidx]);
            }
            if self.instantiation_cache.contains(r_idx, &cache_key) {
                r_idx += 1;
                continue ;
            }
            let inst = instantiate_generic_rule(&rp.0, rp.1.as_str(), concrete.as_str(), fname.as_str());
            self.instantiation_cache.record(r_idx, cache_key);
            let ghost cache1 = self.instantiation_cache;
            let ghost rc1 = self.rust_code;
            let mut a: usize = 0;
            while a < inst.ftype_left_to_right.len()
                invariant
                    self.wf(),
                    self.config == old(self).config,
                    self.cs_file == old(self).cs_file,
                    self.csproj == old(self).csproj,
                    self.generic_rules == old(self).generic_rules,
                    self.instantiation_cache == cache1,
                    self.rust_code == rc1,
                    self.conv_map.n_len() >= g0.n_len(),
                    forall|j: int|
                        0 <= j < g0.n_len() ==> #[trigger] self.conv_map.ntypes@[j]
                            == g0.ntypes@[j],
                    self.conv_map.ftypes@.len() >= g0.ftypes@.len(),
                    crate::graph::foreign_names_preserved(g0, self.conv_map),
                    forall|k: int, n2: int|
                        0 <= k < g0.ftypes@.len() && (#[trigger] g0.ftypes@[k].targets(
                            Direction::Outgoing,
                            n2,
                        )) ==> self.conv_map.ftypes@[k].targets(Direction::Outgoing, n2),
                    self.rust_code@.len() >= old(self).rust_code@.len(),
                    forall|k: int|
                        0 <= k < old(self).rust_code@.len()
                            ==> #[trigger] self.rust_code@[k] == old(self).rust_code@[k],
                    forall|k: int|
                        old(self).rust_code@.len() <= k < self.rust_code@.len() ==> item_parses(
                            (#[trigger] self.rust_code@[k])@,
                        ),
                    a <= inst.ftype_left_to_right@.len(),
                decreases inst.ftype_left_to_right@.len() - a,
            {
                let ghost gstep = self.conv_map;
                // a name clash means this image is already installed
                let _ = crate::rules::install_ftype_arm(
                    &mut self.conv_map,
                    &inst.ftype_left_to_right[a],
                    true,
                    src_id,
                    span,
                );
                proof {
                    assert forall|k: int, n2: int|
                        0 <= k < g0.ftypes@.len() && (#[trigger] g0.ftypes@[k].targets(
                            Direction::Outgoing,
                            n2,
                        )) implies self.conv_map.ftypes@[k].targets(Direction::Outgoing, n2) by {
                        assert(gstep.ftypes@[k].targets(Direction::Outgoing, n2));
                    }
                }
                a += 1;
            }
            let mut a: usize = 0;
            while a < inst.ftype_right_to_left.len()
                invariant
                    self.wf(),
                    self.config == old(self).config,
                    self.cs_file == old(self).cs_file,
                    self.csproj == old(self).csproj,
                    self.generic_rules == old(self).generic_rules,
                    self.instantiation_cache == cache1,
                    self.rust_code == rc1,
                    self.conv_map.n_len() >= g0.n_len(),
                    forall|j: int|
                        0 <= j < g0.n_len() ==> #[trigger] self.conv_map.ntypes@[j]
                            == g0.ntypes@[j],
                    self.conv_map.ftypes@.len() >= g0.ftypes@.len(),
                    crate::graph::foreign_names_preserved(g0, self.conv_map),
                    forall|k: int, n2: int|
                        0 <= k < g0.ftypes@.len() && (#[trigger] g0.ftypes@[k].targets(
                            Direction::Outgoing,
                            n2,
                        )) ==> self.conv_map.ftypes@[k].targets(Direction::Outgoing, n2),
                    self.rust_code@.len() >= old(self).rust_code@.len(),
                    forall|k: int|
                        0 <= k < old(self).rust_code@.len()
                            ==> #[trigger] self.rust_code@[k] == old(self).rust_code@[k],
                    forall|k: int|
                        old(self).rust_code@.len() <= k < self.rust_code@.len() ==> item_parses(
                            (#[trigger] self.rust_code@[k])@,
                        ),
                    a <= inst.ftype_right_to_left@.len(),
                decreases inst.ftype_right_to_left@.len() - a,
            {
                let ghost gstep = self.conv_map;
                let _ = crate::rules::install_ftype_arm(
                    &mut self.conv_map,
                    &inst.ftype_right_to_left[a],
                    false,
                    src_id,
                    span,
                );
                proof {
                    assert forall|k: int, n2: int|
                        0 <= k < g0.ftypes@.len() && (#[trigger] g0.ftypes@[k].targets(
                            Direction::Outgoing,
                            n2,
                        )) implies self.conv_map.ftypes@[k].targets(Direction::Outgoing, n2) by {
                        assert(gstep.ftypes@[k].targets(Direction::Outgoing, n2));
                    }
                }
                a += 1;
            }
            match &inst.rtype_left_to_right {
                Some(rt) => {
                    let l = self.conv_map.find_or_alloc_native(rt.left_ty.as_str(), src_id);
                    let rr = self.conv_map.find_or_alloc_native(rt.right_ty.as_str(), src_id);
                    self.conv_map.add_conversion(l, rr, rt.code.clone());
                },
                None => {},
            }
            match &inst.rtype_right_to_left {
                Some(rt) => {
                    let l = self.conv_map.find_or_alloc_native(rt.left_ty.as_str(), src_id);
                    let rr = self.conv_map.find_or_alloc_native(rt.right_ty.as_str(), src_id);
                    self.conv_map.add_conversion(rr, l, rt.code.clone());
                },
                None => {},
            }
            let mut fc: usize = 0;
            while fc < inst.f_code.len()
                invariant
                    self.wf(),
                    self.config == old(self).config,
                    self.cs_file == old(self).cs_file,
                    self.csproj == old(self).csproj,
                    self.generic_rules == old(self).generic_rules,
                    self.instantiation_cache == cache1,
                    self.rust_code == rc1,
                    self.conv_map.n_len() >= g0.n_len(),
                    forall|j: int|
                        0 <= j < g0.n_len() ==> #[trigger] self.conv_map.ntypes@[j]
                            == g0.ntypes@[j],
                    self.conv_map.ftypes@.len() >= g0.ftypes@.len(),
                    crate::graph::foreign_names_preserved(g0, self.conv_map),
                    forall|k: int, n2: int|
                        0 <= k < g0.ftypes@.len() && (#[trigger] g0.ftypes@[k].targets(
                            Direction::Outgoing,
                            n2,
                        )) ==> self.conv_map.ftypes@[k].targets(Direction::Outgoing, n2),
                    self.rust_code@.len() >= old(self).rust_code@.len(),
                    forall|k: int|
                        0 <= k < old(self).rust_code@.len()
                            ==> #[trigger] self.rust_code@[k] == old(self).rust_code@[k],
                    forall|k: int|
                        old(self).rust_code@.len() <= k < self.rust_code@.len() ==> item_parses(
                            (#[trigger] self.rust_code@[k])@,
                        ),
                    fc <= inst.f_code@.len(),
                decreases inst.f_code@.len() - fc,
            {
                let module = &inst.f_code[fc].module_name;
                if !crate::text::vec_has_text(&self.known_c_items_modules, module.as_str()) {
                    self.known_c_items_modules.push(module.clone());
                    self.additional_cs_code_for_types.push(
                        (module.clone(), inst.f_code[fc].code.clone()),
                    );
                }
                fc += 1;
            }
            let ghost code_start = self.rust_code@.len();
            let ghost csnap = self.rust_code@;
            let ghost rulev = old(self).generic_rules@[r_idx as int].0;
            let ghost paramv = old(self).generic_rules@[r_idx as int].1@;
            let ghost cv = concrete@;
            let ghost fv = fname@;
            let mut it: usize = 0;
            while it < inst.rust_items.len()
                invariant
                    self.wf(),
                    self.config == old(self).config,
                    self.cs_file == old(self).cs_file,
                    self.csproj == old(self).csproj,
                    self.generic_rules == old(self).generic_rules,
                    self.instantiation_cache == cache1,
                    self.conv_map.n_len() >= g0.n_len(),
                    forall|j: int|
                        0 <= j < g0.n_len() ==> #[trigger] self.conv_map.ntypes@[j]
                            == g0.ntypes@[j],
                    self.conv_map.ftypes@.len() >= g0.ftypes@.len(),
                    crate::graph::foreign_names_preserved(g0, self.conv_map),
                    forall|k: int, n2: int|
                        0 <= k < g0.ftypes@.len() && (#[trigger] g0.ftypes@[k].targets(
                            Direction::Outgoing,
                            n2,
                        )) ==> self.conv_map.ftypes@[k].targets(Direction::Outgoing, n2),
                    self.rust_code@.len() >= old(self).rust_code@.len(),
                    forall|k: int|
                        0 <= k < old(self).rust_code@.len()
                            ==> #[trigger] self.rust_code@[k] == old(self).rust_code@[k],
                    forall|k: int|
                        old(self).rust_code@.len() <= k < self.rust_code@.len() ==> item_parses(
                            (#[trigger] self.rust_code@[k])@,
                        ),
                    it <= inst.rust_items@.len(),
                    inst.rust_items@.len() == rulev.rust_items@.len(),
                    forall|j: int|
                        0 <= j < inst.rust_items@.len() ==> (#[trigger] inst.rust_items@[j])@
                            == crate::rules::subst_text(rulev.rust_items@[j]@, paramv, cv, fv),
                    self.rust_code@.len() == code_start + it,
                    code_start >= old(self).rust_code@.len(),
                    forall|k: int| 0 <= k < code_start ==> #[trigger] self.rust_code@[k] == csnap[k],
                    forall|j: int|
                        0 <= j < it ==> (#[trigger] self.rust_code@[code_start + j])@
                            == crate::rules::subst_text(rulev.rust_items@[j]@, paramv, cv, fv),
                decreases inst.rust_items@.len() - it,
            {
                let item = &inst.rust_items[it];
                if !crate::ext::rust_item_parses(item.as_str()) {
                    return Err(
                        Diagnostic::new(
                            src_id,
                            span,
                            DiagKind::GlueParse,
                            "instantiated glue does not parse as a Rust item".to_owned(),
                        ),
                    );
                }
                self.rust_code.push(item.clone());
                it += 1;
            }
            proof {
                // this rule's instantiation is now memoized and its glue
                // items stand in the freshly appended range
                assert forall|rx: int|
                    0 <= rx < r_idx + 1 implies (match spec_rule_applies(
                    g0,
                    (#[trigger] old(self).generic_rules@[rx]).0,
                    old(self).generic_rules@[rx].1@,
                    text@,
                ) {
                    Some(n) => self.instantiation_cache.spec_has(rx, seq![n as usize]) && (
                    !old(self).instantiation_cache.spec_has(rx, seq![n as usize]) ==> (exists|
                        fname2: Seq<char>,
                    |
                        #[trigger] rule_items_emitted(
                            self.rust_code@,
                            old(self).rust_code@.len() as int,
                            self.rust_code@.len() as int,
                            old(self).generic_rules@[rx].0,
                            old(self).generic_rules@[rx].1@,
                            rule_concrete(
                                old(self).generic_rules@[rx].0,
                                old(self).generic_rules@[rx].1@,
                                text@,
                            )->0,
                            fname2,
                        ))),
                    None => true,
                }) by {
                    match spec_rule_applies(
                        g0,
                        old(self).generic_rules@[rx].0,
                        old(self).generic_rules@[rx].1@,
                        text@,
                    ) {
                        Some(n) => {
                            if rx == r_idx {
                                assert(rule_concrete(rulev, paramv, text@) == Some(cv));
                                assert(rule_items_emitted(
                                    self.rust_code@,
                                    old(self).rust_code@.len() as int,
                                    self.rust_code@.len() as int,
                                    rulev,
                                    paramv,
                                    cv,
                                    fv,
                                )) by {
                                    assert forall|j: int|
                                        0 <= j < rulev.rust_items@.len() implies item_emitted(
                                        self.rust_code@,
                                        old(self).rust_code@.len() as int,
                                        self.rust_code@.len() as int,
                                        crate::rules::subst_text(
                                            (#[trigger] rulev.rust_items@[j])@,
                                            paramv,
                                            cv,
                                            fv,
                                        ),
                                    ) by {
                                        assert(self.rust_code@[code_start + j]@
                                            == crate::rules::subst_text(
                                            rulev.rust_items@[j]@,
                                            paramv,
                                            cv,
                                            fv,
                                        ));
                                    }
                                }
                            } else {
                                if !old(self).instantiation_cache.spec_has(
                                    rx,
                                    seq![n as usize],
                                ) {
                                    let prev_fname = choose|fname2: Seq<char>|
                                        #[trigger] rule_items_emitted(
                                            csnap,
                                            old(self).rust_code@.len() as int,
                                            csnap.len() as int,
                                            old(self).generic_rules@[rx].0,
                                            old(self).generic_rules@[rx].1@,
                                            rule_concrete(
                                                old(self).generic_rules@[rx].0,
                                                old(self).generic_rules@[rx].1@,
                                                text@,
                                            )->0,
                                            fname2,
                                        );
                                    assert(rule_items_emitted(
                                        self.rust_code@,
                                        old(self).rust_code@.len() as int,
                                        self.rust_code@.len() as int,
                                        old(self).generic_rules@[rx].0,
                                        old(self).generic_rules@[rx].1@,
                                        rule_concrete(
                                            old(self).generic_rules@[rx].0,
                                            old(self).generic_rules@[rx].1@,
                                            text@,
                                        )->0,
                                        prev_fname,
                                    )) by {
                                        assert forall|j: int|
                                            0 <= j
                                                < old(self).generic_rules@[rx].0.rust_items@.len()
                                            implies item_emitted(
                                            self.rust_code@,
                                            old(self).rust_code@.len() as int,
                                            self.rust_code@.len() as int,
                                            crate::rules::subst_text(
                                                (#[trigger] old(
                                                    self,
                                                ).generic_rules@[rx].0.rust_items@[j])@,
                                                old(self).generic_rules@[rx].1@,
                                                rule_concrete(
                                                    old(self).generic_rules@[rx].0,
                                                    old(self).generic_rules@[rx].1@,
                                                    text@,
                                                )->0,
                                                prev_fname,
                                            ),
                                        ) by {
                                            let k = choose|k: int|
                                                old(self).rust_code@.len() <= k < csnap.len()
                                                    && (#[trigger] csnap[k])@
                                                    == crate::rules::subst_text(
                                                    old(
                                                        self,
                                                    ).generic_rules@[rx].0.rust_items@[j]@,
                                                    old(self).generic_rules@[rx].1@,
                                                    rule_concrete(
                                                        old(self).generic_rules@[rx].0,
                                                        old(self).generic_rules@[rx].1@,
                                                        text@,
                                                    )->0,
                                                    prev_fname,
                                                );
                                            assert(self.rust_code@[k] == csnap[k]);
                                        }
                                    }
                                }
                            }
                        },
                        None => {},
                    }
                }
            }
            r_idx += 1;
        }
        Ok(())
    }


    /// Expands the parametric rules for every declared type text of a
    /// method, the return type included: afterwards every rule
    /// applicable to one of the method's texts is memoized and
    /// installed.
    #[verifier::loop_isolation(false)]
    #[verifier::rlimit(60)]
    pub fn expand_generics_for_method(
        &mut self,
        class: &ForeignClassInfo,
        method: &ForeignMethod,
    ) -> (r: Result<(), Diagnostic>)
        requires
            old(self).wf(),
        ensures
            final(self).wf(),
            final(self).config == old(self).config,
            final(self).cs_file == old(self).cs_file,
            final(self).csproj == old(self).csproj,
            final(self).generic_rules == old(self).generic_rules,
            crate::graph::foreign_names_preserved(old(self).conv_map, final(self).conv_map),
            forall|id: int, p: Seq<usize>|
                #[trigger] old(self).instantiation_cache.spec_has(id, p)
                    ==> final(self).instantiation_cache.spec_has(id, p),
            final(self).rust_code@.len() >= old(self).rust_code@.len(),
            forall|k: int|
                0 <= k < old(self).rust_code@.len()
                    ==> #[trigger] final(self).rust_code@[k] == old(self).rust_code@[k],
            forall|k: int|
                old(self).rust_code@.len() <= k < final(self).rust_code@.len()
                    ==> item_parses((#[trigger] final(self).rust_code@[k])@),
            match r {
                Ok(_) => {
                    &&& (forall|rx: int, i: int|
                        0 <= rx < old(self).generic_rules@.len() && 0 <= i
                            < method.arg_types@.len() ==> (match spec_rule_applies(
                            old(self).conv_map,
                            (#[trigger] old(self).generic_rules@[rx]).0,
                            old(self).generic_rules@[rx].1@,
                            (#[trigger] method.arg_types@[i])@,
                        ) {
                            Some(n) => final(self).instantiation_cache.spec_has(
                                rx,
                                seq![n as usize],
                            ),
                            None => true,
                        }))
                &&& (forall|rx: int|
                        0 <= rx < old(self).generic_rules@.len() ==> (match spec_rule_applies(
                            old(self).conv_map,
                            (#[trigger] old(self).generic_rules@[rx]).0,
                            old(self).generic_rules@[rx].1@,
                            ret_text_of(*method),
                        ) {
                            Some(n) => final(self).instantiation_cache.spec_has(
                                rx,
                                seq![n as usize],
                            ),
                            None => true,
                        }))
                },
                Err(d) => d.kind == DiagKind::GlueParse,
            },
    {
        let ghost g0 = old(self).conv_map;
        let mut i: usize = 0;
        while i < method.arg_types.len()
            invariant
                self.wf(),
                self.config == old(self).config,
                self.cs_file == old(self).cs_file,
                self.csproj == old(self).csproj,
                self.generic_rules == old(self).generic_rules,
                self.conv_map.n_len() >= g0.n_len(),
                forall|j: int|
                    0 <= j < g0.n_len() ==> #[trigger] self.conv_map.ntypes@[j] == g0.ntypes@[j],
                self.conv_map.ftypes@.len() >= g0.ftypes@.len(),
                crate::graph::foreign_names_preserved(g0, self.conv_map),
                forall|k: int, n2: int|
                    0 <= k < g0.ftypes@.len() && (#[trigger] g0.ftypes@[k].targets(
                        Direction::Outgoing,
                        n2,
                    )) ==> self.conv_map.ftypes@[k].targets(Direction::Outgoing, n2),
                forall|id: int, p: Seq<usize>|
                    #[trigger] old(self).instantiation_cache.spec_has(id, p)
                        ==> self.instantiation_cache.spec_has(id, p),
                self.rust_code@.len() >= old(self).rust_code@.len(),
                forall|k: int|
                    0 <= k < old(self).rust_code@.len()
                        ==> #[trigger] self.rust_code@[k] == old(self).rust_code@[k],
                forall|k: int|
                    old(self).rust_code@.len() <= k < self.rust_code@.len() ==> item_parses(
                        (#[trigger] self.rust_code@[k])@,
                    ),
                i <= method.arg_types@.len(),
                forall|rx: int, i2: int|
                    0 <= rx < old(self).generic_rules@.len() && 0 <= i2 < i ==> (
                    match spec_rule_applies(
                        g0,
                        (#[trigger] old(self).generic_rules@[rx]).0,
                        old(self).generic_rules@[rx].1@,
                        (#[trigger] method.arg_types@[i2])@,
                    ) {
                        Some(n) => self.instantiation_cache.spec_has(rx, seq![n as usize]),
                        None => true,
                    }),
            decreases method.arg_types@.len() - i,
        {
            let ghost pre = *self;
            match self.expand_generics_for_text(method.arg_types[i].as_str(), class.src_id, class.span) {
                Ok(_) => {},
                Err(d) => {
                    return Err(d);
                },
            }
            proof {
                lemma_applies_stable(g0, pre.conv_map, pre.generic_rules@, method.arg_types@[i as int]@);
                assert forall|rx: int, i2: int|
                    0 <= rx < old(self).generic_rules@.len() && 0 <= i2 < i + 1 implies (
                    match spec_rule_applies(
                        g0,
                        (#[trigger] old(self).generic_rules@[rx]).0,
                        old(self).generic_rules@[rx].1@,
                        (#[trigger] method.arg_types@[i2])@,
                    ) {
                        Some(n) => self.instantiation_cache.spec_has(rx, seq![n as usize]),
                        None => true,
                    }) by {
                    if i2 == i {
                        match spec_rule_applies(
                            g0,
                            old(self).generic_rules@[rx].0,
                            old(self).generic_rules@[rx].1@,
                            method.arg_types@[i2]@,
                        ) {
                            Some(n) => {
                                assert(spec_rule_applies(
                                    pre.conv_map,
                                    old(self).generic_rules@[rx].0,
                                    old(self).generic_rules@[rx].1@,
                                    method.arg_types@[i2]@,
                                ) == Some(n));
                            },
                            None => {},
                        }
                    }
                }
            }
            i += 1;
        }
        let ret_text: &str = match &method.ret_type {
            Some(t) => t.as_str(),
            None => "()",
        };
        proof {
            assert(ret_text@ == ret_text_of(*method));
        }
        let ghost pre = *self;
        match self.expand_generics_for_text(ret_text, class.src_id, class.span) {
            Ok(_) => {},
            Err(d) => {
                return Err(d);
            },
        }
        proof {
            lemma_applies_stable(g0, pre.conv_map, pre.generic_rules@, ret_text_of(*method));
            assert forall|rx: int|
                0 <= rx < old(self).generic_rules@.len() implies (match spec_rule_applies(
                g0,
                (#[trigger] old(self).generic_rules@[rx]).0,
                old(self).generic_rules@[rx].1@,
                ret_text_of(*method),
            ) {
                Some(n) => self.instantiation_cache.spec_has(rx, seq![n as usize]),
                None => true,
            }) by {
                match spec_rule_applies(
                    g0,
                    old(self).generic_rules@[rx].0,
                    old(self).generic_rules@[rx].1@,
                    ret_text_of(*method),
                ) {
                    Some(n) => {
                        assert(spec_rule_applies(
                            pre.conv_map,
                            old(self).generic_rules@[rx].0,
                            old(self).generic_rules@[rx].1@,
                            ret_text_of(*method),
                        ) == Some(n));
                    },
                    None => {},
                }
            }
        }
        Ok(())
    }

    /// Resolves a declared method against the graph: every argument
    /// incoming, the return type outgoing, each pinned by
    /// `dotnet_info_ok`.  Success is owed exactly when every declared
    /// type text resolves; for instance methods the receiver stands
    /// first among the declared arguments under the name `__this`.
    #[verifier::loop_isolation(false)]
    #[verifier::rlimit(100)]
    pub fn make_dotnet_signature(
        &mut self,
        class: &ForeignClassInfo,
        method: &ForeignMethod,
    ) -> (r: Result<DotNetForeignMethodSignature, Diagnostic>)
        requires
            old(self).wf(),
            method.arg_names@.len() == method.arg_types@.len(),
        ensures
            final(self).wf(),
            final(self).config == old(self).config,
            final(self).cs_file == old(self).cs_file,
            final(self).csproj == old(self).csproj,
            final(self).rust_code == old(self).rust_code,
            final(self).conv_map.ftypes@ == old(self).conv_map.ftypes@,
            final(self).conv_map.edges@ == old(self).conv_map.edges@,
            final(self).conv_map.n_len() >= old(self).conv_map.n_len(),
            forall|j: int|
                0 <= j < old(self).conv_map.n_len() ==> #[trigger] final(self).conv_map.ntypes@[j]
                    == old(self).conv_map.ntypes@[j],
            final(self).instantiation_cache == old(self).instantiation_cache,
            final(self).generic_rules == old(self).generic_rules,
            match r {
                Ok(sig) => {
                    &&& method_resolves(old(self).conv_map, *method)
                &&& method_resolves(final(self).conv_map, *method)
                &&& sig_resolved_ok(final(self).conv_map, *method, sig)
                },
                Err(d) => {
                    &&& !method_resolves(old(self).conv_map, *method)
                &&& !method_resolves(final(self).conv_map, *method)
                &&& (d.kind == DiagKind::NoForeignImage || d.kind == DiagKind::NoConversionRule
                        || d.kind == DiagKind::TransitiveIntermediate)
                },
            },
    {
        let ghost g0 = old(self).conv_map;
        let mut input: Vec<DotNetArgInfo> = Vec::new();
        let mut i: usize = 0;
        while i < method.arg_types.len()
            invariant
                self.wf(),
                self.config == old(self).config,
                self.cs_file == old(self).cs_file,
                self.csproj == old(self).csproj,
                self.rust_code == old(self).rust_code,
                self.conv_map.ftypes@ == g0.ftypes@,
                self.conv_map.edges@ == g0.edges@,
                self.conv_map.n_len() >= g0.n_len(),
                self.instantiation_cache == old(self).instantiation_cache,
                self.generic_rules == old(self).generic_rules,
                forall|j: int|
                    0 <= j < g0.n_len() ==> #[trigger] self.conv_map.ntypes@[j] == g0.ntypes@[j],
                method.arg_names@.len() == method.arg_types@.len(),
                i <= method.arg_types@.len(),
                input@.len() == i,
                forall|k: int|
                    0 <= k < i ==> text_resolves(
                        g0,
                        Direction::Incoming,
                        (#[trigger] method.arg_types@[k])@,
                    ),
                forall|k: int|
                    0 <= k < input@.len() ==> dotnet_info_ok(
                        self.conv_map,
                        Direction::Incoming,
                        (#[trigger] input@[k]).rust_type as int,
                        method.arg_names@[k]@,
                        input@[k],
                    ),
                forall|k: int|
                    0 <= k < input@.len() ==> dotnet_resolve_kind(
                        self.conv_map,
                        Direction::Incoming,
                        (#[trigger] input@[k]).rust_type as int,
                    ) is None,
                forall|k: int|
                    0 <= k < input@.len() ==> (#[trigger] input@[k]).rust_type
                        < self.conv_map.n_len() && self.conv_map.ntext(input@[k].rust_type as int)
                        == method.arg_types@[k]@,
                forall|k: int|
                    0 <= k < input@.len() ==> (#[trigger] input@[k]).rust_intermediate_type
                        < self.conv_map.n_len(),
                forall|k: int, e: int|
                    0 <= k < input@.len() && 0 <= e < (#[trigger] input@[k]).rust_conversion_path@.len()
                        ==> (#[trigger] input@[k].rust_conversion_path@[e])
                        < self.conv_map.edges@.len(),
            decreases method.arg_types@.len() - i,
        {
            let ghost gpre = self.conv_map;
            let nidx = self.conv_map.find_or_alloc_native(
                method.arg_types[i].as_str(),
                class.src_id,
            );
            proof {
                assert forall|k: int|
                    0 <= k < input@.len() implies dotnet_info_ok(
                    self.conv_map,
                    Direction::Incoming,
                    (#[trigger] input@[k]).rust_type as int,
                    method.arg_names@[k]@,
                    input@[k],
                ) by {
                    lemma_dotnet_info_congruent(
                        gpre,
                        self.conv_map,
                        Direction::Incoming,
                        input@[k].rust_type as int,
                        method.arg_names@[k]@,
                        input@[k],
                    );
                }
                assert forall|k: int|
                    0 <= k < input@.len() implies dotnet_resolve_kind(
                    self.conv_map,
                    Direction::Incoming,
                    (#[trigger] input@[k]).rust_type as int,
                ) is None by {
                    lemma_dotnet_kind_congruent(
                        gpre,
                        self.conv_map,
                        Direction::Incoming,
                        input@[k].rust_type as int,
                    );
                }
            }
            let info = match resolve_dotnet_type(
                &self.conv_map,
                nidx,
                Direction::Incoming,
                method.arg_names[i].as_str(),
                class.src_id,
                class.span,
            ) {
                Ok(info) => info,
                Err(d) => {
                    proof {
                        let t = method.arg_types@[i as int]@;
                        if nidx < g0.n_len() {
                            assert(g0.ntext(nidx as int) == t);
                            crate::sig::lemma_first_native_unique(g0, t, nidx as int, 0);
                            lemma_dotnet_kind_congruent(
                                self.conv_map,
                                g0,
                                Direction::Incoming,
                                nidx as int,
                            );
                            assert(!text_resolves(g0, Direction::Incoming, t));
                        } else {
                            assert(!g0.has_native(t)) by {
                                if g0.has_native(t) {
                                    let j = choose|j: int|
                                        0 <= j < g0.n_len() && #[trigger] g0.ntext(j) == t;
                                    assert(self.conv_map.ntext(j) == t);
                                    assert(self.conv_map.ntext(nidx as int) == t);
                                }
                            }
                            crate::sig::lemma_first_native_none(g0, t, 0);
                        }
                        assert(!method_resolves(g0, *method));
                        crate::sig::lemma_first_native_unique(self.conv_map, t, nidx as int, 0);
                        assert(!text_resolves(self.conv_map, Direction::Incoming, t));
                        assert(!method_resolves(self.conv_map, *method));
                    }
                    return Err(d);
                },
            };
            proof {
                let t = method.arg_types@[i as int]@;
                let fi = spec_first_target(self.conv_map, Direction::Incoming, nidx as int, 0)->0;
                crate::sig::lemma_first_target_props(
                    self.conv_map,
                    Direction::Incoming,
                    nidx as int,
                    0,
                );
                assert(g0.ftypes@[fi].valid(g0.n_len()));
                assert(self.conv_map.ftypes@[fi].targets(Direction::Incoming, nidx as int));
                assert(nidx < g0.n_len());
                assert(g0.ntext(nidx as int) == t);
                crate::sig::lemma_first_native_unique(g0, t, nidx as int, 0);
                lemma_dotnet_kind_congruent(self.conv_map, g0, Direction::Incoming, nidx as int);
                assert(text_resolves(g0, Direction::Incoming, t));
            }
            input.push(info);
            i += 1;
        }
        let ret_text: &str = match &method.ret_type {
            Some(t) => t.as_str(),
            None => "()",
        };
        proof {
            assert(ret_text@ == ret_text_of(*method));
        }
        let ghost gpre = self.conv_map;
        let ridx = self.conv_map.find_or_alloc_native(ret_text, class.src_id);
        proof {
            assert forall|k: int|
                0 <= k < input@.len() implies dotnet_info_ok(
                self.conv_map,
                Direction::Incoming,
                (#[trigger] input@[k]).rust_type as int,
                method.arg_names@[k]@,
                input@[k],
            ) by {
                lemma_dotnet_info_congruent(
                    gpre,
                    self.conv_map,
                    Direction::Incoming,
                    input@[k].rust_type as int,
                    method.arg_names@[k]@,
                    input@[k],
                );
            }
            assert forall|k: int|
                0 <= k < input@.len() implies dotnet_resolve_kind(
                self.conv_map,
                Direction::Incoming,
                (#[trigger] input@[k]).rust_type as int,
            ) is None by {
                lemma_dotnet_kind_congruent(
                    gpre,
                    self.conv_map,
                    Direction::Incoming,
                    input@[k].rust_type as int,
                );
            }
        }
        let output = match resolve_dotnet_type(
            &self.conv_map,
            ridx,
            Direction::Outgoing,
            "__ret",
            class.src_id,
            class.span,
        ) {
            Ok(info) => info,
            Err(d) => {
                proof {
                    let t = ret_text_of(*method);
                    if ridx < g0.n_len() {
                        assert(g0.ntext(ridx as int) == t);
                        crate::sig::lemma_first_native_unique(g0, t, ridx as int, 0);
                        lemma_dotnet_kind_congruent(
                            self.conv_map,
                            g0,
                            Direction::Outgoing,
                            ridx as int,
                        );
                        assert(!text_resolves(g0, Direction::Outgoing, t));
                    } else {
                        assert(!g0.has_native(t)) by {
                            if g0.has_native(t) {
                                let j = choose|j: int|
                                    0 <= j < g0.n_len() && #[trigger] g0.ntext(j) == t;
                                assert(self.conv_map.ntext(j) == t);
                                assert(self.conv_map.ntext(ridx as int) == t);
                            }
                        }
                        crate::sig::lemma_first_native_none(g0, t, 0);
                    }
                    assert(!method_resolves(g0, *method));
                    crate::sig::lemma_first_native_unique(self.conv_map, t, ridx as int, 0);
                    assert(!text_resolves(self.conv_map, Direction::Outgoing, t));
                    assert(!method_resolves(self.conv_map, *method));
                }
                return Err(d);
            },
        };
        proof {
            let t = ret_text_of(*method);
            let fi = spec_first_target(self.conv_map, Direction::Outgoing, ridx as int, 0)->0;
            crate::sig::lemma_first_target_props(
                self.conv_map,
                Direction::Outgoing,
                ridx as int,
                0,
            );
            assert(g0.ftypes@[fi].valid(g0.n_len()));
            assert(self.conv_map.ftypes@[fi].targets(Direction::Outgoing, ridx as int));
            assert(ridx < g0.n_len());
            assert(g0.ntext(ridx as int) == t);
            crate::sig::lemma_first_native_unique(g0, t, ridx as int, 0);
            lemma_dotnet_kind_congruent(self.conv_map, g0, Direction::Outgoing, ridx as int);
            assert(text_resolves(g0, Direction::Outgoing, t));
            assert(method_resolves(g0, *method));
            crate::sig::lemma_first_native_unique(self.conv_map, t, ridx as int, 0);
            assert(text_resolves(self.conv_map, Direction::Outgoing, t));
            assert forall|ii: int|
                0 <= ii < method.arg_types@.len() implies text_resolves(
                self.conv_map,
                Direction::Incoming,
                (#[trigger] method.arg_types@[ii])@,
            ) by {
                assert(self.conv_map.ntext(input@[ii].rust_type as int)
                    == method.arg_types@[ii]@);
                crate::sig::lemma_first_native_unique(
                    self.conv_map,
                    method.arg_types@[ii]@,
                    input@[ii].rust_type as int,
                    0,
                );
            }
            assert(method_resolves(self.conv_map, *method));
        }
        let docstring = make_docstring(&method.doc_comments);
        Ok(
            DotNetForeignMethodSignature {
                name: method.name.clone(),
                variant: method.variant,
                docstring,
                input,
                output,
                rust_function_call: method.rust_call.clone(),
            },
        )
    }


    /// Emits the native C-ABI export of one resolved method and
    /// demands that the text parses as one Rust item; glue that does
    /// not parse is refused and nothing is recorded.
    pub fn write_rust_glue_code(
        &mut self,
        class: &ForeignClassInfo,
        sig: &DotNetForeignMethodSignature,
    ) -> (r: Result<(), Diagnostic>)
        requires
            old(self).wf(),
            forall|i: int|
                0 <= i < sig.input@.len() ==> (#[trigger] sig.input@[i]).rust_intermediate_type
                    < old(self).conv_map.n_len(),
            forall|i: int, e: int|
                0 <= i < sig.input@.len() && 0 <= e < (#[trigger] sig.input@[i]).rust_conversion_path@.len()
                    ==> (#[trigger] sig.input@[i].rust_conversion_path@[e])
                    < old(self).conv_map.edges@.len(),
            sig.output.rust_intermediate_type < old(self).conv_map.n_len(),
            forall|e: int|
                0 <= e < sig.output.rust_conversion_path@.len()
                    ==> #[trigger] sig.output.rust_conversion_path@[e]
                    < old(self).conv_map.edges@.len(),
        ensures
            final(self).wf(),
            final(self).conv_map == old(self).conv_map,
            final(self).config == old(self).config,
            final(self).cs_file == old(self).cs_file,
            final(self).csproj == old(self).csproj,
            final(self).instantiation_cache == old(self).instantiation_cache,
            final(self).generic_rules == old(self).generic_rules,
            ({
                let full = class.name@ + "_"@ + sig.name@;
                let text = glue_fn_text(old(self).conv_map, full, *sig);
                match r {
                    Ok(_) => {
                        &&& item_parses(text)
                    &&& final(self).rust_code@.len() == old(self).rust_code@.len() + 1
                    &&& final(self).rust_code@.last()@ == text
                    &&& forall|k: int|
                            0 <= k < old(self).rust_code@.len()
                                ==> #[trigger] final(self).rust_code@[k] == old(self).rust_code@[k]
                    },
                    Err(d) => !item_parses(text) && d.kind == DiagKind::GlueParse
                        && final(self).rust_code == old(self).rust_code,
                }
            }),
    {
        let mut full = class.name.clone();
        full.append("_");
        full.append(sig.name.as_str());
        let args = make_glue_args(&self.conv_map, &sig.input);
        let input_conv = make_glue_input_conv(&self.conv_map, &sig.input);
        let call_args = make_call_args(&sig.input);
        let out_chain = render_chain(
            &self.conv_map,
            &sig.output.rust_conversion_path,
            sig.output.arg_name.as_str(),
        );
        let ret_var = var_name(
            sig.output.arg_name.as_str(),
            sig.output.rust_conversion_path.len() as u64,
        );
        let mut s = "\n#[allow(non_snake_case, unused_variables, unused_mut)]\n#[no_mangle]\npub ext".to_owned();
        s.append("ern \"C\" fn ");
        s.append(full.as_str());
        s.append("(");
        s.append(args.as_str());
        s.append(") -> ");
        let rty = sig.output.rust_intermediate_type;
        s.append(self.conv_map.ntypes[rty].text.as_str());
        s.append(" {\n        ");
        s.append(input_conv.as_str());
        s.append("let mut ");
        s.append(sig.output.arg_name.as_str());
        s.append(" = ");
        s.append(sig.rust_function_call.as_str());
        s.append("(");
        s.append(call_args.as_str());
        s.append(");\n        ");
        s.append(out_chain.as_str());
        s.append(ret_var.as_str());
        s.append("\n}\n");
        proof {
            assert(s@ =~= glue_fn_text(self.conv_map, class.name@ + "_"@ + sig.name@, *sig));
        }
        if rust_item_parses(s.as_str()) {
            self.rust_code.push(s);
            Ok(())
        } else {
            Err(
                Diagnostic::new(
                    class.src_id,
                    class.span,
                    DiagKind::GlueParse,
                    "generated glue does not parse as a Rust item".to_owned(),
                ),
            )
        }
    }

    /// Emits the P/Invoke declaration of one resolved method into the
    /// managed source buffer.
    pub fn write_pinvoke_function_signature(
        &mut self,
        class: &ForeignClassInfo,
        sig: &DotNetForeignMethodSignature,
    )
        requires
            old(self).wf(),
        ensures
            final(self).wf(),
            final(self).conv_map == old(self).conv_map,
            final(self).config == old(self).config,
            final(self).rust_code == old(self).rust_code,
            final(self).csproj == old(self).csproj,
            final(self).instantiation_cache == old(self).instantiation_cache,
            final(self).generic_rules == old(self).generic_rules,
            final(self).cs_file@ == old(self).cs_file@ + pinvoke_text(
                old(self).config.native_lib_name@,
                sig.output.dotnet_intermediate_type@,
                class.name@ + "_"@ + sig.name@,
                pinvoke_args_text(sig.input@, sig.input@.len() as int),
            ),
    {
        let args = make_pinvoke_args(&sig.input);
        let mut s = "\n        [DllImport(\"".to_owned();
        s.append(self.config.native_lib_name.as_str());
        s.append("\", CallingConvention = CallingConvention.Cdecl)]\n        internal static ext");
        s.append("ern ");
        s.append(sig.output.dotnet_intermediate_type.as_str());
        s.append(" ");
        s.append(class.name.as_str());
        s.append("_");
        s.append(sig.name.as_str());
        s.append("(");
        s.append(args.as_str());
        s.append(");\n");
        proof {
            assert(s@ =~= pinvoke_text(
                self.config.native_lib_name@,
                sig.output.dotnet_intermediate_type@,
                class.name@ + "_"@ + sig.name@,
                pinvoke_args_text(sig.input@, sig.input@.len() as int),
            ));
        }
        self.cs_file.append(s.as_str());
    }

    /// Emits the managed wrapper of one resolved method: foreign-typed
    /// parameters, the managed-side conversions, the P/Invoke call,
    /// the return conversion and the return statement; instance
    /// methods thread the hidden receiver as the first argument, and
    /// constructors bind the returned pointer.
    #[verifier::rlimit(30)]
    pub fn write_dotnet_wrapper_function(
        &mut self,
        class: &ForeignClassInfo,
        sig: &DotNetForeignMethodSignature,
    )
        requires
            old(self).wf(),
        ensures
            final(self).wf(),
            final(self).conv_map == old(self).conv_map,
            final(self).config == old(self).config,
            final(self).rust_code == old(self).rust_code,
            final(self).csproj == old(self).csproj,
            final(self).instantiation_cache == old(self).instantiation_cache,
            final(self).generic_rules == old(self).generic_rules,
            final(self).cs_file@ == old(self).cs_file@ + wrapper_text(class.name@, *sig),
    {
        let is_constructor = matches!(sig.variant, MethodVariant::Constructor);
        let is_instance = matches!(sig.variant, MethodVariant::Method);
        let is_static = matches!(sig.variant, MethodVariant::StaticMethod);
        let skip: usize = if is_instance {
            1
        } else {
            0
        };
        let args = make_wrapper_args(&sig.input, skip);
        let input_conv = make_wrapper_input_conv(&sig.input, skip);
        let call_args = make_wrapper_call_args(&sig.input, skip);
        let method_name = if is_constructor {
            String::new()
        } else {
            to_camel_case(sig.name.as_str())
        };
        let returns_something = !crate::text::str_eq(sig.output.dotnet_type.as_str(), "void")
            && !is_constructor;
        let mut s = "\n        ".to_owned();
        s.append(sig.docstring.as_str());
        s.append("\n        public ");
        if is_static {
            s.append("static");
        }
        s.append(" ");
        s.append(sig.output.dotnet_type.as_str());
        s.append(" ");
        s.append(method_name.as_str());
        s.append("(");
        s.append(args.as_str());
        s.append(") {\n            ");
        if is_instance {
            s.append("var __this_0 = this.nativePtr;\n            ");
        }
        s.append(input_conv.as_str());
        if returns_something {
            s.append("var __ret_0 = ");
        } else if is_constructor {
            s.append("this.nativePtr = ");
        }
        s.append(class.name.as_str());
        s.append("_");
        s.append(sig.name.as_str());
        s.append("(");
        s.append(call_args.as_str());
        s.append(");\n            ");
        if returns_something {
            match &sig.output.dotnet_conversion {
                Some(tmpl) => {
                    proof {
                        reveal_strlit("{from_var}");
                    }
                    s.append("var __ret_1 = ");
                    let conv = replace_all(tmpl.as_str(), "{from_var}", "__ret_0");
                    s.append(conv.as_str());
                    s.append(";\n            return __ret_1;");
                },
                None => {
                    s.append("return __ret_0;");
                },
            }
        }
        s.append("\n        }\n");
        proof {
            assert(s@ =~= wrapper_text(class.name@, *sig));
        }
        self.cs_file.append(s.as_str());
    }
}

/// The managed wrapper of one resolved method.
pub open spec fn wrapper_text(class_name: Seq<char>, sig: DotNetForeignMethodSignature) -> Seq<char> {
    let is_constructor = sig.variant == MethodVariant::Constructor;
    let is_instance = sig.variant == MethodVariant::Method;
    let is_static = sig.variant == MethodVariant::StaticMethod;
    let skip: int = if is_instance {
        1
    } else {
        0
    };
    let method_name = if is_constructor {
        Seq::<char>::empty()
    } else {
        camel_of(sig.name@)
    };
    let returns_something = sig.output.dotnet_type@ != "void"@ && !is_constructor;
    "\n        "@ + sig.docstring@ + "\n        public "@ + (if is_static {
        "static"@
    } else {
        Seq::<char>::empty()
    }) + " "@ + sig.output.dotnet_type@ + " "@ + method_name + "("@ + wrapper_args_text(
        sig.input@,
        skip,
        sig.input@.len() as int,
    ) + ") {\n            "@ + (if is_instance {
        "var __this_0 = this.nativePtr;\n            "@
    } else {
        Seq::<char>::empty()
    }) + wrapper_input_conv_text(sig.input@, skip, sig.input@.len() as int) + (if returns_something {
        "var __ret_0 = "@
    } else if is_constructor {
        "this.nativePtr = "@
    } else {
        Seq::<char>::empty()
    }) + class_name + "_"@ + sig.name@ + "("@ + wrapper_call_args_text(
        sig.input@,
        skip,
        sig.input@.len() as int,
    ) + ");\n            "@ + (if returns_something {
        match sig.output.dotnet_conversion {
            Some(tmpl) => "var __ret_1 = "@ + replace_spec(tmpl@, "{from_var}"@, "__ret_0"@)
                + ";\n            return __ret_1;"@,
            None => "return __ret_0;"@,
        }
    } else {
        Seq::<char>::empty()
    }) + "\n        }\n"@
}


impl DotNetGenerator {
    /// Emits the native destructor export of a class with storage: it
    /// takes the owning pointer and drops the box.  Static classes get
    /// none.
    pub fn generate_rust_destructor(&mut self, class: &ForeignClassInfo) -> (r: Result<
        (),
        Diagnostic,
    >)
        requires
            old(self).wf(),
        ensures
            final(self).wf(),
            final(self).conv_map == old(self).conv_map,
            final(self).config == old(self).config,
            final(self).cs_file == old(self).cs_file,
            final(self).csproj == old(self).csproj,
            final(self).rust_code@.len() >= old(self).rust_code@.len(),
            forall|k: int|
                0 <= k < old(self).rust_code@.len()
                    ==> #[trigger] final(self).rust_code@[k] == old(self).rust_code@[k],
            match r {
                Ok(_) => match class.self_desc {
                    Some(sd) => {
                        &&& crate::ext::canon_type_of(sd.constructor_ret_type@) is Some
                    &&& final(self).rust_code@.len() == old(self).rust_code@.len() + (
                        if class.smart_ptr_copy_derived {
                            2int
                        } else {
                            1int
                        })
                    &&& final(self).rust_code@[old(self).rust_code@.len() as int]@
                            == destructor_text(
                            class.name@,
                            crate::ext::canon_type_of(sd.constructor_ret_type@)->0,
                        )
                    &&& (class.smart_ptr_copy_derived ==> final(self).rust_code@.last()@
                            == clone_export_text(
                            class.name@,
                            crate::ext::canon_type_of(sd.constructor_ret_type@)->0,
                        ))
                    &&& forall|k: int|
                            0 <= k < old(self).rust_code@.len()
                                ==> #[trigger] final(self).rust_code@[k] == old(self).rust_code@[k]
                    },
                    None => final(self).rust_code == old(self).rust_code,
                },
                Err(d) => {
                    &&& d.kind == DiagKind::InvalidTypeText
                &&& class.self_desc is Some
                &&& crate::ext::canon_type_of(class.self_desc->0.constructor_ret_type@) is None
                },
            },
    {
        match &class.self_desc {
            Some(sd) => {
                let canon = match crate::ext::canonical_type_text(
                    sd.constructor_ret_type.as_str(),
                ) {
                    Some(c) => c,
                    None => {
                        return Err(
                            Diagnostic::new(
                                class.src_id,
                                class.span,
                                DiagKind::InvalidTypeText,
                                "constructor return type does not parse as a type".to_owned(),
                            ),
                        );
                    },
                };
                let d = make_destructor(class.name.as_str(), canon.as_str());
                self.rust_code.push(d);
                if class.smart_ptr_copy_derived {
                    let c = make_clone_export(class.name.as_str(), canon.as_str());
                    self.rust_code.push(c);
                }
                Ok(())
            },
            None => Ok(()),
        }
    }

    /// Emits the managed-side class opening: for a class with storage
    /// the disposable wrapper holding the native pointer, for a static
    /// class the bare static class header.
    pub fn generate_dotnet_class_code(&mut self, class: &ForeignClassInfo)
        requires
            old(self).wf(),
        ensures
            final(self).wf(),
            final(self).conv_map == old(self).conv_map,
            final(self).config == old(self).config,
            final(self).rust_code == old(self).rust_code,
            final(self).csproj == old(self).csproj,
            final(self).cs_file@ == old(self).cs_file@ + (match class.self_desc {
                Some(sd) => class_code_text(
                    docstring_text(class.doc_comments@, class.doc_comments@.len() as int),
                    class.name@,
                    old(self).config.native_lib_name@,
                ),
                None => static_class_code_text(
                    docstring_text(class.doc_comments@, class.doc_comments@.len() as int),
                    class.name@,
                ),
            }),
    {
        let doc = make_docstring(&class.doc_comments);
        match &class.self_desc {
            Some(_) => {
                let mut s = "\n    ".to_owned();
                s.append(doc.as_str());
                s.append("\n    public class ");
                s.append(class.name.as_str());
                s.append(": IDisposable {\n        internal IntPtr nativePtr;\n\n        internal ");
                s.append(class.name.as_str());
                s.append(
                    "(IntPtr nativePtr) {\n            this.nativePtr = nativePtr;\n        }\n\n        public void Dispose() {\n            DoDispose();\n            GC.SuppressFinalize(this);\n        }\n\n        private void DoDispose() {\n            if (nativePtr != IntPtr.Zero) {\n                ",
                );
                s.append(class.name.as_str());
                s.append(
                    "_delete(nativePtr);\n                nativePtr = IntPtr.Zero;\n            }\n        }\n\n        [DllImport(\"",
                );
                s.append(self.config.native_lib_name.as_str());
                s.append("\", CallingConvention = CallingConvention.Cdecl)]\n        internal static ext");
                s.append("ern void ");
                s.append(class.name.as_str());
                s.append("_delete(IntPtr __this);\n\n        ~");
                s.append(class.name.as_str());
                s.append("() {\n            DoDispose();\n        }\n");
                proof {
                    assert(s@ =~= class_code_text(
                        docstring_text(class.doc_comments@, class.doc_comments@.len() as int),
                        class.name@,
                        self.config.native_lib_name@,
                    ));
                }
                self.cs_file.append(s.as_str());
            },
            None => {
                let mut s = doc;
                s.append("\npublic static class ");
                s.append(class.name.as_str());
                s.append(" {\n");
                proof {
                    assert(s@ =~= static_class_code_text(
                        docstring_text(class.doc_comments@, class.doc_comments@.len() as int),
                        class.name@,
                    ));
                }
                self.cs_file.append(s.as_str());
            },
        }
    }

    /// Emits one declared method: the native export, the P/Invoke
    /// declaration and the managed wrapper.  A placeholder constructor
    /// produces nothing.
    pub fn generate_method(&mut self, class: &ForeignClassInfo, method: &ForeignMethod) -> (r:
        Result<(), Diagnostic>)
        requires
            old(self).wf(),
            method.arg_names@.len() == method.arg_types@.len(),
        ensures
            final(self).wf(),
            final(self).config == old(self).config,
            final(self).csproj == old(self).csproj,
            old(self).cs_file@.is_prefix_of(final(self).cs_file@),
            crate::graph::foreign_names_preserved(old(self).conv_map, final(self).conv_map),
            final(self).rust_code@.len() >= old(self).rust_code@.len(),
            forall|k: int|
                0 <= k < old(self).rust_code@.len()
                    ==> #[trigger] final(self).rust_code@[k] == old(self).rust_code@[k],
            match r {
                Ok(_) => {
                    &&& (method.spec_is_dummy_constructor() ==> *final(self) == *old(self))
                &&& (!method.spec_is_dummy_constructor() ==> {
                        &&& method_resolves(final(self).conv_map, *method)
                    &&& final(self).rust_code@.len() >= old(self).rust_code@.len() + 1
                    &&& (forall|k: int|
                            0 <= k < old(self).rust_code@.len()
                                ==> #[trigger] final(self).rust_code@[k] == old(self).rust_code@[k])
                    &&& (forall|k: int|
                            old(self).rust_code@.len() <= k < final(self).rust_code@.len()
                                ==> item_parses((#[trigger] final(self).rust_code@[k])@))
                    &&& (exists|sig: DotNetForeignMethodSignature|
                            {
                                &&& #[trigger] sig_resolved_ok(final(self).conv_map, *method, sig)
                            &&& final(self).rust_code@.last()@ == glue_fn_text(
                                    final(self).conv_map,
                                    class.name@ + "_"@ + method.name@,
                                    sig,
                                )
                            &&& final(self).cs_file@ == old(self).cs_file@ + pinvoke_text(
                                    old(self).config.native_lib_name@,
                                    sig.output.dotnet_intermediate_type@,
                                    class.name@ + "_"@ + method.name@,
                                    pinvoke_args_text(sig.input@, sig.input@.len() as int),
                                ) + wrapper_text(class.name@, sig)
                            })
                    })
                },
                Err(d) => {
                    &&& (d.kind == DiagKind::NoForeignImage || d.kind == DiagKind::NoConversionRule
                        || d.kind == DiagKind::TransitiveIntermediate || d.kind
                        == DiagKind::GlueParse)
                &&& (d.kind != DiagKind::GlueParse ==> !method_resolves(
                        final(self).conv_map,
                        *method,
                    ))
                &&& (d.kind != DiagKind::GlueParse ==> generics_memoized(
                        old(self).conv_map,
                        old(self).generic_rules@,
                        final(self).instantiation_cache,
                        *method,
                    ))
                },
            },
            match r {
                Ok(_) => !method.spec_is_dummy_constructor() ==> generics_memoized(
                    old(self).conv_map,
                    old(self).generic_rules@,
                    final(self).instantiation_cache,
                    *method,
                ),
                Err(_) => true,
            },
    {
        if method.is_dummy_constructor() {
            return Ok(());
        }
        match self.expand_generics_for_method(class, method) {
            Ok(_) => {},
            Err(d) => {
                return Err(d);
            },
        }
        let sig = match self.make_dotnet_signature(class, method) {
            Ok(s) => s,
            Err(d) => {
                return Err(d);
            },
        };
        match self.write_rust_glue_code(class, &sig) {
            Ok(_) => {},
            Err(d) => {
                return Err(d);
            },
        }
        self.write_pinvoke_function_signature(class, &sig);
        self.write_dotnet_wrapper_function(class, &sig);
        proof {
            let ghost sigv = sig;
            assert(sig_resolved_ok(self.conv_map, *method, sigv));
            assert(sigv.name@ == method.name@);
            assert(self.rust_code@.last()@ == glue_fn_text(
                self.conv_map,
                class.name@ + "_"@ + method.name@,
                sigv,
            ));
            assert(self.cs_file@ =~= old(self).cs_file@ + pinvoke_text(
                old(self).config.native_lib_name@,
                sigv.output.dotnet_intermediate_type@,
                class.name@ + "_"@ + method.name@,
                pinvoke_args_text(sigv.input@, sigv.input@.len() as int),
            ) + wrapper_text(class.name@, sigv));
            assert(old(self).cs_file@.is_prefix_of(self.cs_file@)) by {
                assert(self.cs_file@.subrange(0, old(self).cs_file@.len() as int)
                    =~= old(self).cs_file@);
            }
        }
        Ok(())
    }

    /// Emits one class: destructor, managed class opening, every
    /// method, and the closing brace.
    pub fn generate_class_methods(&mut self, class: &ForeignClassInfo) -> (r: Result<
        (),
        Diagnostic,
    >)
        requires
            old(self).wf(),
            forall|m: int|
                0 <= m < class.methods@.len() ==> (#[trigger] class.methods@[m]).arg_names@.len()
                    == class.methods@[m].arg_types@.len(),
        ensures
            final(self).wf(),
            final(self).config == old(self).config,
            final(self).csproj == old(self).csproj,
            old(self).cs_file@.is_prefix_of(final(self).cs_file@),
            crate::graph::foreign_names_preserved(old(self).conv_map, final(self).conv_map),
            forall|k: int|
                0 <= k < old(self).rust_code@.len()
                    ==> #[trigger] final(self).rust_code@[k] == old(self).rust_code@[k],
            match r {
                Ok(_) => match class.self_desc {
                    Some(sd) => {
                        &&& crate::ext::canon_type_of(sd.constructor_ret_type@) is Some
                    &&& final(self).rust_code@.len() > old(self).rust_code@.len()
                    &&& final(self).rust_code@[old(self).rust_code@.len() as int]@
                            == destructor_text(
                            class.name@,
                            crate::ext::canon_type_of(sd.constructor_ret_type@)->0,
                        )
                    },
                    None => true,
                },
                Err(d) => d.kind == DiagKind::NoForeignImage || d.kind
                    == DiagKind::NoConversionRule || d.kind == DiagKind::TransitiveIntermediate
                    || d.kind == DiagKind::GlueParse || d.kind == DiagKind::InvalidTypeText,
            },
    {
        match self.generate_rust_destructor(class) {
            Ok(_) => {},
            Err(d) => {
                return Err(d);
            },
        }
        self.generate_dotnet_class_code(class);
        let ghost post_head = *self;
        let mut m: usize = 0;
        while m < class.methods.len()
            invariant
                self.wf(),
                self.config == old(self).config,
                self.csproj == old(self).csproj,
                old(self).cs_file@.is_prefix_of(self.cs_file@),
                crate::graph::foreign_names_preserved(old(self).conv_map, self.conv_map),
                self.rust_code@.len() >= post_head.rust_code@.len(),
                forall|k: int|
                    0 <= k < post_head.rust_code@.len()
                        ==> #[trigger] self.rust_code@[k] == post_head.rust_code@[k],
                post_head.rust_code@.len() >= old(self).rust_code@.len(),
                forall|k: int|
                    0 <= k < old(self).rust_code@.len()
                        ==> #[trigger] post_head.rust_code@[k] == old(self).rust_code@[k],
                m <= class.methods@.len(),
                forall|k: int|
                    0 <= k < class.methods@.len() ==> (#[trigger] class.methods@[k]).arg_names@.len()
                        == class.methods@[k].arg_types@.len(),
            decreases class.methods@.len() - m,
        {
            match self.generate_method(class, &class.methods[m]) {
                Ok(_) => {},
                Err(d) => {
                    return Err(d);
                },
            }
            m += 1;
        }
        self.cs_file.append("    } // class\n");
        Ok(())
    }

    /// Finishes the managed source file: flushes the per-type helper
    /// classes and closes the namespace.
    pub fn finish(&mut self)
        requires
            old(self).wf(),
        ensures
            final(self).wf(),
            final(self).config == old(self).config,
            final(self).csproj == old(self).csproj,
            final(self).rust_code == old(self).rust_code,
            final(self).conv_map == old(self).conv_map,
            final(self).additional_cs_code_for_types@.len() == 0,
            final(self).cs_file@ == old(self).cs_file@ + extra_codes_text(
                old(self).additional_cs_code_for_types@,
                old(self).additional_cs_code_for_types@.len() as int,
            ) + "} // namespace\n"@,
            old(self).cs_file@.is_prefix_of(final(self).cs_file@),
    {
        let mut extra: Vec<(String, String)> = Vec::new();
        core::mem::swap(&mut extra, &mut self.additional_cs_code_for_types);
        let mut i: usize = 0;
        while i < extra.len()
            invariant
                self.wf(),
                self.config == old(self).config,
                self.csproj == old(self).csproj,
                self.rust_code == old(self).rust_code,
                self.conv_map == old(self).conv_map,
                self.additional_cs_code_for_types@.len() == 0,
                extra@ == old(self).additional_cs_code_for_types@,
                self.cs_file@ == old(self).cs_file@ + extra_codes_text(extra@, i as int),
                i <= extra@.len(),
            decreases extra@.len() - i,
        {
            self.cs_file.append(extra[i].1.as_str());
            proof {
                assert(self.cs_file@ =~= old(self).cs_file@ + extra_codes_text(extra@, i + 1));
            }
            i += 1;
        }
        self.cs_file.append("} // namespace\n");
        proof {
            assert(old(self).cs_file@.is_prefix_of(self.cs_file@)) by {
                assert(self.cs_file@.subrange(0, old(self).cs_file@.len() as int)
                    =~= old(self).cs_file@);
            }
        }
    }

    /// Runs the whole managed-runtime generation: first registers
    /// every class and emits every enumeration, then emits every
    /// class's methods, and finally closes the managed source file.
    /// Interface items are refused: this target does not support
    /// them.
    pub fn generate(self, items: &Vec<ItemToExpand>) -> (r: Result<DotNetOutput, Diagnostic>)
        requires
            self.wf(),
            self.csproj@ == csproj_text(),
            cs_prologue_text(
                self.config.managed_lib_name@,
                self.config.native_lib_name@,
            ).is_prefix_of(self.cs_file@),
            forall|i: int, m: int|
                0 <= i < items@.len() && (#[trigger] items@[i]) is Class && 0 <= m
                    < items@[i]->Class_0.methods@.len()
                    ==> (#[trigger] items@[i]->Class_0.methods@[m]).arg_names@.len()
                    == items@[i]->Class_0.methods@[m].arg_types@.len(),
        ensures
            match r {
                Ok(out) => {
                    &&& forall|i: int|
                        0 <= i < items@.len() ==> !((#[trigger] items@[i]) is Interface)
                &&& out.csproj_content@ == csproj_text()
                &&& cs_prologue_text(
                        self.config.managed_lib_name@,
                        self.config.native_lib_name@,
                    ).is_prefix_of(out.cs_file_content@)
                &&& "} // namespace\n"@.is_suffix_of(out.cs_file_content@)
                &&& out.conv_map.wf()
                &&& (forall|i: int|
                        0 <= i < items@.len() && (#[trigger] items@[i]) is Class
                            && items@[i]->Class_0.self_desc is Some
                            ==> out.conv_map.has_foreign_name(items@[i]->Class_0.name@))
                &&& (forall|i: int|
                        0 <= i < items@.len() && (#[trigger] items@[i]) is Enum
                            ==> out.conv_map.has_foreign_name(items@[i]->Enum_0.name@))
                },
                Err(d) => d.kind == DiagKind::InvalidClass || d.kind == DiagKind::InvalidTypeText || d.kind
                    == DiagKind::DuplicateForeignType || d.kind == DiagKind::SmartPtrCopyWrongType
                    || d.kind == DiagKind::SmartPtrCopyHasClone || d.kind
                    == DiagKind::NoForeignImage || d.kind == DiagKind::NoConversionRule || d.kind
                    == DiagKind::TransitiveIntermediate || d.kind == DiagKind::GlueParse || d.kind
                    == DiagKind::InterfaceNotSupported,
            },
    {
        let mut gen = self;
        let mut warnings: Vec<String> = Vec::new();
        let mut i: usize = 0;
        while i < items.len()
            invariant
                gen.wf(),
                gen.config == self.config,
                gen.csproj == self.csproj,
                self.csproj@ == csproj_text(),
                cs_prologue_text(
                    self.config.managed_lib_name@,
                    self.config.native_lib_name@,
                ).is_prefix_of(gen.cs_file@),
                i <= items@.len(),
                forall|i2: int, m: int|
                    0 <= i2 < items@.len() && (#[trigger] items@[i2]) is Class && 0 <= m
                        < items@[i2]->Class_0.methods@.len()
                        ==> (#[trigger] items@[i2]->Class_0.methods@[m]).arg_names@.len()
                        == items@[i2]->Class_0.methods@[m].arg_types@.len(),
                forall|i2: int| 0 <= i2 < i ==> !((#[trigger] items@[i2]) is Interface),
                forall|i2: int|
                    0 <= i2 < i && (#[trigger] items@[i2]) is Class
                        && items@[i2]->Class_0.self_desc is Some
                        ==> gen.conv_map.has_foreign_name(items@[i2]->Class_0.name@),
                forall|i2: int|
                    0 <= i2 < i && (#[trigger] items@[i2]) is Enum
                        ==> gen.conv_map.has_foreign_name(items@[i2]->Enum_0.name@),
            decreases items@.len() - i,
        {
            let ghost gpre = gen.conv_map;
            match &items[i] {
                ItemToExpand::Class(class) => {
                    match crate::registrar::register_class(&mut gen.conv_map, class) {
                        Ok(mut w) => {
                            crate::sig::extend_strings(&mut warnings, &w);
                        },
                        Err(d) => {
                            return Err(d);
                        },
                    }
                },
                ItemToExpand::Enum(fenum) => {
                    match gen.generate_enum(fenum) {
                        Ok(_) => {},
                        Err(d) => {
                            return Err(d);
                        },
                    }
                },
                ItemToExpand::Interface(fi) => {
                    return Err(
                        Diagnostic::new(
                            fi.src_id,
                            fi.span,
                            DiagKind::InterfaceNotSupported,
                            "Interfaces not supported yet for this target".to_owned(),
                        ),
                    );
                },
            }
            proof {
                let gv = gen.conv_map;
                assert(crate::graph::foreign_names_preserved(gpre, gv));
                assert forall|i2: int|
                    0 <= i2 < i + 1 && (#[trigger] items@[i2]) is Class
                        && items@[i2]->Class_0.self_desc is Some implies gv.has_foreign_name(
                    items@[i2]->Class_0.name@,
                ) by {
                    if i2 < i {
                        crate::graph::lemma_foreign_name_kept(
                            gpre,
                            gv,
                            items@[i2]->Class_0.name@,
                        );
                    }
                }
                assert forall|i2: int|
                    0 <= i2 < i + 1 && (#[trigger] items@[i2]) is Enum implies gv.has_foreign_name(
                    items@[i2]->Enum_0.name@,
                ) by {
                    if i2 < i {
                        crate::graph::lemma_foreign_name_kept(gpre, gv, items@[i2]->Enum_0.name@);
                    }
                }
            }
            i += 1;
        }
        let mut j: usize = 0;
        while j < items.len()
            invariant
                gen.wf(),
                gen.config == self.config,
                gen.csproj == self.csproj,
                self.csproj@ == csproj_text(),
                cs_prologue_text(
                    self.config.managed_lib_name@,
                    self.config.native_lib_name@,
                ).is_prefix_of(gen.cs_file@),
                j <= items@.len(),
                forall|i2: int, m: int|
                    0 <= i2 < items@.len() && (#[trigger] items@[i2]) is Class && 0 <= m
                        < items@[i2]->Class_0.methods@.len()
                        ==> (#[trigger] items@[i2]->Class_0.methods@[m]).arg_names@.len()
                        == items@[i2]->Class_0.methods@[m].arg_types@.len(),
                forall|i2: int| 0 <= i2 < items@.len() ==> !((#[trigger] items@[i2]) is Interface),
                forall|i2: int|
                    0 <= i2 < items@.len() && (#[trigger] items@[i2]) is Class
                        && items@[i2]->Class_0.self_desc is Some
                        ==> gen.conv_map.has_foreign_name(items@[i2]->Class_0.name@),
                forall|i2: int|
                    0 <= i2 < items@.len() && (#[trigger] items@[i2]) is Enum
                        ==> gen.conv_map.has_foreign_name(items@[i2]->Enum_0.name@),
            decreases items@.len() - j,
        {
            let ghost gpre = gen.conv_map;
            match &items[j] {
                ItemToExpand::Class(class) => {
                    match gen.generate_class_methods(class) {
                        Ok(_) => {},
                        Err(d) => {
                            return Err(d);
                        },
                    }
                },
                ItemToExpand::Enum(_) => {},
                ItemToExpand::Interface(_) => {},
            }
            proof {
                let gv = gen.conv_map;
                assert(crate::graph::foreign_names_preserved(gpre, gv));
                assert forall|i2: int|
                    0 <= i2 < items@.len() && (#[trigger] items@[i2]) is Class
                        && items@[i2]->Class_0.self_desc is Some implies gv.has_foreign_name(
                    items@[i2]->Class_0.name@,
                ) by {
                    crate::graph::lemma_foreign_name_kept(gpre, gv, items@[i2]->Class_0.name@);
                }
                assert forall|i2: int|
                    0 <= i2 < items@.len() && (#[trigger] items@[i2]) is Enum
                        implies gv.has_foreign_name(items@[i2]->Enum_0.name@) by {
                    crate::graph::lemma_foreign_name_kept(gpre, gv, items@[i2]->Enum_0.name@);
                }
            }
            j += 1;
        }
        gen.finish();
        proof {
            let closing = "} // namespace\n"@;
            assert(closing.is_suffix_of(gen.cs_file@)) by {
                assert(gen.cs_file@.subrange(
                    gen.cs_file@.len() - closing.len(),
                    gen.cs_file@.len() as int,
                ) =~= closing);
            }
        }
        Ok(
            DotNetOutput {
                rust_code: gen.rust_code,
                cs_file_content: gen.cs_file,
                csproj_content: gen.csproj,
                warnings,
                conv_map: gen.conv_map,
            },
        )
    }
}

impl DotNetConfig {
    /// Expands a run of items for the managed-runtime target over a
    /// seeded type graph.
    pub fn expand_items(self, conv_map: TypeGraph, items: &Vec<ItemToExpand>) -> (r: Result<
        DotNetOutput,
        Diagnostic,
    >)
        requires
            conv_map.wf(),
            forall|i: int, m: int|
                0 <= i < items@.len() && (#[trigger] items@[i]) is Class && 0 <= m
                    < items@[i]->Class_0.methods@.len()
                    ==> (#[trigger] items@[i]->Class_0.methods@[m]).arg_names@.len()
                    == items@[i]->Class_0.methods@[m].arg_types@.len(),
        ensures
            match r {
                Ok(out) => {
                    &&& forall|i: int|
                        0 <= i < items@.len() ==> !((#[trigger] items@[i]) is Interface)
                &&& out.csproj_content@ == csproj_text()
                &&& cs_prologue_text(
                        self.managed_lib_name@,
                        self.native_lib_name@,
                    ).is_prefix_of(out.cs_file_content@)
                &&& "} // namespace\n"@.is_suffix_of(out.cs_file_content@)
                &&& out.conv_map.wf()
                &&& (forall|i: int|
                        0 <= i < items@.len() && (#[trigger] items@[i]) is Class
                            && items@[i]->Class_0.self_desc is Some
                            ==> out.conv_map.has_foreign_name(items@[i]->Class_0.name@))
                &&& (forall|i: int|
                        0 <= i < items@.len() && (#[trigger] items@[i]) is Enum
                            ==> out.conv_map.has_foreign_name(items@[i]->Enum_0.name@))
                },
                Err(d) => d.kind == DiagKind::InvalidClass || d.kind == DiagKind::InvalidTypeText || d.kind
                    == DiagKind::DuplicateForeignType || d.kind == DiagKind::SmartPtrCopyWrongType
                    || d.kind == DiagKind::SmartPtrCopyHasClone || d.kind
                    == DiagKind::NoForeignImage || d.kind == DiagKind::NoConversionRule || d.kind
                    == DiagKind::TransitiveIntermediate || d.kind == DiagKind::GlueParse || d.kind
                    == DiagKind::InterfaceNotSupported,
            },
    {
        let mut gen = DotNetGenerator::new(self, conv_map);
        proof {
            assert(gen.cs_file@.subrange(0, gen.cs_file@.len() as int) =~= gen.cs_file@);
        }
        let mut rules = crate::seed::dotnet_generic_rules();
        let ghost gstart = gen;
        loop
            invariant
                gen.wf(),
                gen.config == gstart.config,
                gen.csproj == gstart.csproj,
                gen.cs_file == gstart.cs_file,
            decreases rules@.len(),
        {
            match rules.pop() {
                Some((rule, param)) => {
                    gen.add_generic_rule(rule, param);
                },
                None => {
                    break ;
                },
            }
        }
        gen.generate(items)
    }
}

/// Builds one error message out of an error's own message and the
/// messages of its sources, joined the way the glue reports errors
/// across the ABI.
pub fn swig_collect_error_message(chain: &Vec<String>) -> (r: String)
    ensures
        r@ == crate::text::join_of(crate::text::texts_of(chain@), "\nCaused by:\n"@),
{
    crate::ext::join_strings(chain, "\nCaused by:\n")
}

} // verus!
