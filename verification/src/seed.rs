//! The seeded type map of the managed-runtime target: the primitive
//! conversion rules every run starts from.  Each primitive pair maps a
//! native type to its managed image in both directions; the pairs that
//! cross the ABI as another type (machine-sized integers, booleans,
//! strings) carry their intermediate and the native-side edges.
use vstd::prelude::*;

verus! {

use crate::graph::{ConvRule, ForeignTypeRec, Intermediate, TypeGraph};
use crate::Span;

/// A foreign type makes a round trip: it has rules for both
/// directions and both terminate at one and the same native type.
pub open spec fn round_trip_ok(g: TypeGraph, name: Seq<char>) -> bool {
    exists|f: int|
        0 <= f < g.ftypes@.len() && (#[trigger] g.ftypes@[f]).name@ == name && (match (
        g.ftypes@[f].into_from_rust,
        g.ftypes@[f].from_into_rust,
    ) {
            (Some(a), Some(b)) => a.rust_ty == b.rust_ty,
            _ => false,
        })
}

/// A seeded direct pair: the foreign type named `fname` maps native
/// `rust` in both directions without an intermediate.
pub open spec fn seeded_direct_ok(g: TypeGraph, fname: Seq<char>, rust: Seq<char>) -> bool {
    exists|f: int|
        0 <= f < g.ftypes@.len() && (#[trigger] g.ftypes@[f]).name@ == fname && (match (
        g.ftypes@[f].into_from_rust,
        g.ftypes@[f].from_into_rust,
    ) {
            (Some(a), Some(b)) => {
                &&& a.rust_ty == b.rust_ty
            &&& a.rust_ty < g.n_len()
            &&& g.ntext(a.rust_ty as int) == rust
            &&& a.intermediate is None
            &&& b.intermediate is None
            },
            _ => false,
        })
}

/// A seeded pair through an intermediate: the foreign type named
/// `fname` maps native `rust` in both directions, crossing the ABI as
/// native `inter`, with the two foreign-side templates.
pub open spec fn seeded_intermediate_ok(
    g: TypeGraph,
    fname: Seq<char>,
    rust: Seq<char>,
    inter_out: Seq<char>,
    inter_in: Seq<char>,
    out_conv: Seq<char>,
    in_conv: Seq<char>,
) -> bool {
    exists|f: int|
        0 <= f < g.ftypes@.len() && (#[trigger] g.ftypes@[f]).name@ == fname && (match (
        g.ftypes@[f].into_from_rust,
        g.ftypes@[f].from_into_rust,
    ) {
            (Some(a), Some(b)) => {
                &&& a.rust_ty == b.rust_ty
            &&& a.rust_ty < g.n_len()
            &&& g.ntext(a.rust_ty as int) == rust
            &&& (match (a.intermediate, b.intermediate) {
                    (Some(ia), Some(ib)) => {
                        &&& ia.intermediate_ty < g.n_len()
                    &&& ib.intermediate_ty < g.n_len()
                    &&& g.ntext(ia.intermediate_ty as int) == inter_out
                    &&& g.ntext(ib.intermediate_ty as int) == inter_in
                    &&& ia.conv_code@ == out_conv
                    &&& ib.conv_code@ == in_conv
                    },
                    _ => false,
                })
            },
            _ => false,
        })
}

/// Seeding steps only push foreign types, so earlier round trips
/// survive each step, and a name present afterwards was present
/// before or is the one just installed.
proof fn lemma_seed_step_preserves(a: TypeGraph, b: TypeGraph, fname: Seq<char>)
    requires
        a.ftypes@.len() + 1 == b.ftypes@.len(),
        forall|k: int| 0 <= k < a.ftypes@.len() ==> #[trigger] b.ftypes@[k] == a.ftypes@[k],
        b.ftypes@.last().name@ == fname,
        b.n_len() >= a.n_len(),
        forall|j: int| 0 <= j < a.n_len() ==> #[trigger] b.ntypes@[j] == a.ntypes@[j],
    ensures
        forall|n: Seq<char>| #[trigger] round_trip_ok(a, n) ==> round_trip_ok(b, n),
        forall|n: Seq<char>|
            #[trigger] b.has_foreign_name(n) ==> a.has_foreign_name(n) || n == fname,
        forall|n: Seq<char>, ru: Seq<char>|
            #[trigger] seeded_direct_ok(a, n, ru) ==> seeded_direct_ok(b, n, ru),
        forall|n: Seq<char>, ru: Seq<char>, io: Seq<char>, ii: Seq<char>, oc: Seq<char>, ic: Seq<char>|
            #[trigger] seeded_intermediate_ok(a, n, ru, io, ii, oc, ic) ==> seeded_intermediate_ok(
                b,
                n,
                ru,
                io,
                ii,
                oc,
                ic,
            ),
{
    assert forall|n: Seq<char>, ru: Seq<char>| #[trigger]
        seeded_direct_ok(a, n, ru) implies seeded_direct_ok(b, n, ru) by {
        let f = choose|f: int|
            0 <= f < a.ftypes@.len() && (#[trigger] a.ftypes@[f]).name@ == n && (match (
            a.ftypes@[f].into_from_rust,
            a.ftypes@[f].from_into_rust,
        ) {
                (Some(x), Some(y)) => {
                    &&& x.rust_ty == y.rust_ty
                &&& x.rust_ty < a.n_len()
                &&& a.ntext(x.rust_ty as int) == ru
                &&& x.intermediate is None
                &&& y.intermediate is None
                },
                _ => false,
            });
        assert(b.ftypes@[f] == a.ftypes@[f]);
        match a.ftypes@[f].into_from_rust {
            Some(x) => {
                assert(b.ntypes@[x.rust_ty as int] == a.ntypes@[x.rust_ty as int]);
            },
            None => {},
        }
    }
    assert forall|n: Seq<char>, ru: Seq<char>, io: Seq<char>, ii: Seq<char>, oc: Seq<char>, ic: Seq<char>|
        #[trigger] seeded_intermediate_ok(a, n, ru, io, ii, oc, ic) implies seeded_intermediate_ok(
        b,
        n,
        ru,
        io,
        ii,
        oc,
        ic,
    ) by {
        let f = choose|f: int|
            0 <= f < a.ftypes@.len() && (#[trigger] a.ftypes@[f]).name@ == n && (match (
            a.ftypes@[f].into_from_rust,
            a.ftypes@[f].from_into_rust,
        ) {
                (Some(x), Some(y)) => {
                    &&& x.rust_ty == y.rust_ty
                &&& x.rust_ty < a.n_len()
                &&& a.ntext(x.rust_ty as int) == ru
                &&& (match (x.intermediate, y.intermediate) {
                        (Some(ia), Some(ib)) => {
                            &&& ia.intermediate_ty < a.n_len()
                        &&& ib.intermediate_ty < a.n_len()
                        &&& a.ntext(ia.intermediate_ty as int) == io
                        &&& a.ntext(ib.intermediate_ty as int) == ii
                        &&& ia.conv_code@ == oc
                        &&& ib.conv_code@ == ic
                        },
                        _ => false,
                    })
                },
                _ => false,
            });
        assert(b.ftypes@[f] == a.ftypes@[f]);
        match a.ftypes@[f].into_from_rust {
            Some(x) => {
                assert(b.ntypes@[x.rust_ty as int] == a.ntypes@[x.rust_ty as int]);
                match x.intermediate {
                    Some(ia) => {
                        assert(b.ntypes@[ia.intermediate_ty as int]
                            == a.ntypes@[ia.intermediate_ty as int]);
                    },
                    None => {},
                }
            },
            None => {},
        }
        match a.ftypes@[f].from_into_rust {
            Some(y) => {
                match y.intermediate {
                    Some(ib) => {
                        assert(b.ntypes@[ib.intermediate_ty as int]
                            == a.ntypes@[ib.intermediate_ty as int]);
                    },
                    None => {},
                }
            },
            None => {},
        }
    }
    assert forall|n: Seq<char>| #[trigger] round_trip_ok(a, n) implies round_trip_ok(b, n) by {
        let f = choose|f: int|
            0 <= f < a.ftypes@.len() && (#[trigger] a.ftypes@[f]).name@ == n && (match (
            a.ftypes@[f].into_from_rust,
            a.ftypes@[f].from_into_rust,
        ) {
                (Some(x), Some(y)) => x.rust_ty == y.rust_ty,
                _ => false,
            });
        assert(b.ftypes@[f] == a.ftypes@[f]);
    }
    assert forall|n: Seq<char>|
        #[trigger] b.has_foreign_name(n) implies a.has_foreign_name(n) || n == fname by {
        let f = choose|f: int| 0 <= f < b.ftypes@.len() && (#[trigger] b.ftypes@[f]).name@ == n;
        if f < a.ftypes@.len() {
            assert(a.ftypes@[f].name@ == n);
        } else {
            assert(b.ftypes@[f].name@ == fname);
        }
    }
}

/// Installs one primitive pair: a foreign type under `fname` whose
/// rules in both directions terminate directly at native type `rust`.
fn seed_direct(g: &mut TypeGraph, rust: &str, fname: &str) -> (r: Result<
    (),
    crate::diag::Diagnostic,
>)
    requires
        old(g).wf(),
    ensures
        final(g).wf(),
        r is Ok ==> {
            &&& round_trip_ok(*final(g), fname@)
        &&& seeded_direct_ok(*final(g), fname@, rust@)
        &&& forall|n: Seq<char>|
                #[trigger] round_trip_ok(*old(g), n) ==> round_trip_ok(*final(g), n)
        &&& forall|n: Seq<char>, ru: Seq<char>|
                #[trigger] seeded_direct_ok(*old(g), n, ru) ==> seeded_direct_ok(*final(g), n, ru)
        &&& forall|n: Seq<char>, ru: Seq<char>, io: Seq<char>, ii: Seq<char>, oc: Seq<char>, ic: Seq<char>|
                #[trigger] seeded_intermediate_ok(*old(g), n, ru, io, ii, oc, ic)
                    ==> seeded_intermediate_ok(*final(g), n, ru, io, ii, oc, ic)
        &&& forall|n: Seq<char>|
                #[trigger] final(g).has_foreign_name(n) ==> old(g).has_foreign_name(n) || n
                    == fname@
        },
        r is Err ==> old(g).has_foreign_name(fname@),
{
    let n = g.find_or_alloc_native(rust, 0);
    let ft = ForeignTypeRec {
        name: fname.to_owned(),
        provides_by_module: Vec::new(),
        into_from_rust: Some(ConvRule { rust_ty: n, intermediate: None }),
        from_into_rust: Some(ConvRule { rust_ty: n, intermediate: None }),
        name_prefix: None,
        src_id: 0,
        span: (Span { lo: 0, hi: 0 }),
    };
    match g.alloc_foreign(ft) {
        Ok(_) => {
            proof {
                assert(g.ftypes@.last().name@ == fname@);
                assert(round_trip_ok(*g, fname@));
                assert(g.ntext(n as int) == rust@);
                assert(seeded_direct_ok(*g, fname@, rust@));
                lemma_seed_step_preserves(*old(g), *g, fname@);
            }
            Ok(())
        },
        Err(d) => Err(d),
    }
}

/// Installs one primitive pair that crosses the ABI through an
/// intermediate native type, with its foreign-side templates and its
/// two native-side conversion edges.
fn seed_intermediate(
    g: &mut TypeGraph,
    rust: &str,
    inter: &str,
    fname: &str,
    out_conv: &str,
    in_conv: &str,
    out_edge: String,
    in_edge: String,
) -> (r: Result<(), crate::diag::Diagnostic>)
    requires
        old(g).wf(),
    ensures
        final(g).wf(),
        r is Ok ==> {
            &&& round_trip_ok(*final(g), fname@)
        &&& seeded_intermediate_ok(*final(g), fname@, rust@, inter@, inter@, out_conv@, in_conv@)
        &&& forall|n: Seq<char>|
                #[trigger] round_trip_ok(*old(g), n) ==> round_trip_ok(*final(g), n)
        &&& forall|n: Seq<char>, ru: Seq<char>|
                #[trigger] seeded_direct_ok(*old(g), n, ru) ==> seeded_direct_ok(*final(g), n, ru)
        &&& forall|n: Seq<char>, ru: Seq<char>, io: Seq<char>, ii: Seq<char>, oc: Seq<char>, ic: Seq<char>|
                #[trigger] seeded_intermediate_ok(*old(g), n, ru, io, ii, oc, ic)
                    ==> seeded_intermediate_ok(*final(g), n, ru, io, ii, oc, ic)
        &&& forall|n: Seq<char>|
                #[trigger] final(g).has_foreign_name(n) ==> old(g).has_foreign_name(n) || n
                    == fname@
        },
        r is Err ==> old(g).has_foreign_name(fname@),
{
    let n = g.find_or_alloc_native(rust, 0);
    let m = g.find_or_alloc_native(inter, 0);
    let ft = ForeignTypeRec {
        name: fname.to_owned(),
        provides_by_module: Vec::new(),
        into_from_rust: Some(
            ConvRule {
                rust_ty: n,
                intermediate: Some(
                    Intermediate {
                        intermediate_ty: m,
                        conv_code: out_conv.to_owned(),
                        input_to_output: false,
                    },
                ),
            },
        ),
        from_into_rust: Some(
            ConvRule {
                rust_ty: n,
                intermediate: Some(
                    Intermediate {
                        intermediate_ty: m,
                        conv_code: in_conv.to_owned(),
                        input_to_output: false,
                    },
                ),
            },
        ),
        name_prefix: None,
        src_id: 0,
        span: (Span { lo: 0, hi: 0 }),
    };
    match g.alloc_foreign(ft) {
        Ok(_) => {
            let ghost gmid = *g;
            proof {
                assert(gmid.ftypes@.last().name@ == fname@);
            }
            g.add_conversion(n, m, out_edge);
            g.add_conversion(m, n, in_edge);
            proof {
                assert(g.ftypes@ == gmid.ftypes@);
                assert(g.ftypes@.last().name@ == fname@);
                assert(round_trip_ok(*g, fname@));
                assert(g.ntext(n as int) == rust@);
                assert(g.ntext(m as int) == inter@);
                assert(seeded_intermediate_ok(*g, fname@, rust@, inter@, inter@, out_conv@, in_conv@));
                lemma_seed_step_preserves(*old(g), *g, fname@);
            }
            Ok(())
        },
        Err(d) => Err(d),
    }
}

/// The names the seeding installs are pairwise distinct: unequal
/// lengths separate most pairs, a first differing character the rest.
proof fn lemma_seed_names_distinct()
    ensures
        "float"@ != "double"@,
        "float"@ != "void"@,
        "float"@ != "sbyte"@,
        "float"@ != "byte"@,
        "float"@ != "short"@,
        "float"@ != "ushort"@,
        "float"@ != "int"@,
        "float"@ != "uint"@,
        "float"@ != "long"@,
        "float"@ != "ulong"@,
        "float"@ != "/* mut c_str_u16 */ IntPtr"@,
        "float"@ != "/* const c_str_u16 */ IntPtr"@,
        "float"@ != "/* RustString */ IntPtr"@,
        "float"@ != "/* usize */ ulong"@,
        "float"@ != "/* isize */ long"@,
        "float"@ != "bool"@,
        "float"@ != "string"@,
        "double"@ != "void"@,
        "double"@ != "sbyte"@,
        "double"@ != "byte"@,
        "double"@ != "short"@,
        "double"@ != "ushort"@,
        "double"@ != "int"@,
        "double"@ != "uint"@,
        "double"@ != "long"@,
        "double"@ != "ulong"@,
        "double"@ != "/* mut c_str_u16 */ IntPtr"@,
        "double"@ != "/* const c_str_u16 */ IntPtr"@,
        "double"@ != "/* RustString */ IntPtr"@,
        "double"@ != "/* usize */ ulong"@,
        "double"@ != "/* isize */ long"@,
        "double"@ != "bool"@,
        "double"@ != "string"@,
        "void"@ != "sbyte"@,
        "void"@ != "byte"@,
        "void"@ != "short"@,
        "void"@ != "ushort"@,
        "void"@ != "int"@,
        "void"@ != "uint"@,
        "void"@ != "long"@,
        "void"@ != "ulong"@,
        "void"@ != "/* mut c_str_u16 */ IntPtr"@,
        "void"@ != "/* const c_str_u16 */ IntPtr"@,
        "void"@ != "/* RustString */ IntPtr"@,
        "void"@ != "/* usize */ ulong"@,
        "void"@ != "/* isize */ long"@,
        "void"@ != "bool"@,
        "void"@ != "string"@,
        "sbyte"@ != "byte"@,
        "sbyte"@ != "short"@,
        "sbyte"@ != "ushort"@,
        "sbyte"@ != "int"@,
        "sbyte"@ != "uint"@,
        "sbyte"@ != "long"@,
        "sbyte"@ != "ulong"@,
        "sbyte"@ != "/* mut c_str_u16 */ IntPtr"@,
        "sbyte"@ != "/* const c_str_u16 */ IntPtr"@,
        "sbyte"@ != "/* RustString */ IntPtr"@,
        "sbyte"@ != "/* usize */ ulong"@,
        "sbyte"@ != "/* isize */ long"@,
        "sbyte"@ != "bool"@,
        "sbyte"@ != "string"@,
        "byte"@ != "short"@,
        "byte"@ != "ushort"@,
        "byte"@ != "int"@,
        "byte"@ != "uint"@,
        "byte"@ != "long"@,
        "byte"@ != "ulong"@,
        "byte"@ != "/* mut c_str_u16 */ IntPtr"@,
        "byte"@ != "/* const c_str_u16 */ IntPtr"@,
        "byte"@ != "/* RustString */ IntPtr"@,
        "byte"@ != "/* usize */ ulong"@,
        "byte"@ != "/* isize */ long"@,
        "byte"@ != "bool"@,
        "byte"@ != "string"@,
        "short"@ != "ushort"@,
        "short"@ != "int"@,
        "short"@ != "uint"@,
        "short"@ != "long"@,
        "short"@ != "ulong"@,
        "short"@ != "/* mut c_str_u16 */ IntPtr"@,
        "short"@ != "/* const c_str_u16 */ IntPtr"@,
        "short"@ != "/* RustString */ IntPtr"@,
        "short"@ != "/* usize */ ulong"@,
        "short"@ != "/* isize */ long"@,
        "short"@ != "bool"@,
        "short"@ != "string"@,
        "ushort"@ != "int"@,
        "ushort"@ != "uint"@,
        "ushort"@ != "long"@,
        "ushort"@ != "ulong"@,
        "ushort"@ != "/* mut c_str_u16 */ IntPtr"@,
        "ushort"@ != "/* const c_str_u16 */ IntPtr"@,
        "ushort"@ != "/* RustString */ IntPtr"@,
        "ushort"@ != "/* usize */ ulong"@,
        "ushort"@ != "/* isize */ long"@,
        "ushort"@ != "bool"@,
        "ushort"@ != "string"@,
        "int"@ != "uint"@,
        "int"@ != "long"@,
        "int"@ != "ulong"@,
        "int"@ != "/* mut c_str_u16 */ IntPtr"@,
        "int"@ != "/* const c_str_u16 */ IntPtr"@,
        "int"@ != "/* RustString */ IntPtr"@,
        "int"@ != "/* usize */ ulong"@,
        "int"@ != "/* isize */ long"@,
        "int"@ != "bool"@,
        "int"@ != "string"@,
        "uint"@ != "long"@,
        "uint"@ != "ulong"@,
        "uint"@ != "/* mut c_str_u16 */ IntPtr"@,
        "uint"@ != "/* const c_str_u16 */ IntPtr"@,
        "uint"@ != "/* RustString */ IntPtr"@,
        "uint"@ != "/* usize */ ulong"@,
        "uint"@ != "/* isize */ long"@,
        "uint"@ != "bool"@,
        "uint"@ != "string"@,
        "long"@ != "ulong"@,
        "long"@ != "/* mut c_str_u16 */ IntPtr"@,
        "long"@ != "/* const c_str_u16 */ IntPtr"@,
        "long"@ != "/* RustString */ IntPtr"@,
        "long"@ != "/* usize */ ulong"@,
        "long"@ != "/* isize */ long"@,
        "long"@ != "bool"@,
        "long"@ != "string"@,
        "ulong"@ != "/* mut c_str_u16 */ IntPtr"@,
        "ulong"@ != "/* const c_str_u16 */ IntPtr"@,
        "ulong"@ != "/* RustString */ IntPtr"@,
        "ulong"@ != "/* usize */ ulong"@,
        "ulong"@ != "/* isize */ long"@,
        "ulong"@ != "bool"@,
        "ulong"@ != "string"@,
        "/* mut c_str_u16 */ IntPtr"@ != "/* const c_str_u16 */ IntPtr"@,
        "/* mut c_str_u16 */ IntPtr"@ != "/* RustString */ IntPtr"@,
        "/* mut c_str_u16 */ IntPtr"@ != "/* usize */ ulong"@,
        "/* mut c_str_u16 */ IntPtr"@ != "/* isize */ long"@,
        "/* mut c_str_u16 */ IntPtr"@ != "bool"@,
        "/* mut c_str_u16 */ IntPtr"@ != "string"@,
        "/* const c_str_u16 */ IntPtr"@ != "/* RustString */ IntPtr"@,
        "/* const c_str_u16 */ IntPtr"@ != "/* usize */ ulong"@,
        "/* const c_str_u16 */ IntPtr"@ != "/* isize */ long"@,
        "/* const c_str_u16 */ IntPtr"@ != "bool"@,
        "/* const c_str_u16 */ IntPtr"@ != "string"@,
        "/* RustString */ IntPtr"@ != "/* usize */ ulong"@,
        "/* RustString */ IntPtr"@ != "/* isize */ long"@,
        "/* RustString */ IntPtr"@ != "bool"@,
        "/* RustString */ IntPtr"@ != "string"@,
        "/* usize */ ulong"@ != "/* isize */ long"@,
        "/* usize */ ulong"@ != "bool"@,
        "/* usize */ ulong"@ != "string"@,
        "/* isize */ long"@ != "bool"@,
        "/* isize */ long"@ != "string"@,
        "bool"@ != "string"@,
{
    reveal_strlit("float");
    reveal_strlit("double");
    reveal_strlit("void");
    reveal_strlit("sbyte");
    reveal_strlit("byte");
    reveal_strlit("short");
    reveal_strlit("ushort");
    reveal_strlit("int");
    reveal_strlit("uint");
    reveal_strlit("long");
    reveal_strlit("ulong");
    reveal_strlit("/* mut c_str_u16 */ IntPtr");
    reveal_strlit("/* const c_str_u16 */ IntPtr");
    reveal_strlit("/* RustString */ IntPtr");
    reveal_strlit("/* usize */ ulong");
    reveal_strlit("/* isize */ long");
    reveal_strlit("bool");
    reveal_strlit("string");
    assert("float"@.len() == 5);
    assert("double"@.len() == 6);
    assert("void"@.len() == 4);
    assert("sbyte"@.len() == 5);
    assert("byte"@.len() == 4);
    assert("short"@.len() == 5);
    assert("ushort"@.len() == 6);
    assert("int"@.len() == 3);
    assert("uint"@.len() == 4);
    assert("long"@.len() == 4);
    assert("ulong"@.len() == 5);
    assert("/* mut c_str_u16 */ IntPtr"@.len() == 26);
    assert("/* const c_str_u16 */ IntPtr"@.len() == 28);
    assert("/* RustString */ IntPtr"@.len() == 23);
    assert("/* usize */ ulong"@.len() == 17);
    assert("/* isize */ long"@.len() == 16);
    assert("bool"@.len() == 4);
    assert("string"@.len() == 6);
    assert("float"@[0] != "sbyte"@[0]);
    assert("float"@[0] != "short"@[0]);
    assert("float"@[0] != "ulong"@[0]);
    assert("double"@[0] != "ushort"@[0]);
    assert("double"@[0] != "string"@[0]);
    assert("void"@[0] != "byte"@[0]);
    assert("void"@[0] != "uint"@[0]);
    assert("void"@[0] != "long"@[0]);
    assert("void"@[0] != "bool"@[0]);
    assert("sbyte"@[1] != "short"@[1]);
    assert("sbyte"@[0] != "ulong"@[0]);
    assert("byte"@[0] != "uint"@[0]);
    assert("byte"@[0] != "long"@[0]);
    assert("byte"@[1] != "bool"@[1]);
    assert("short"@[0] != "ulong"@[0]);
    assert("ushort"@[0] != "string"@[0]);
    assert("uint"@[0] != "long"@[0]);
    assert("uint"@[0] != "bool"@[0]);
    assert("long"@[0] != "bool"@[0]);
}

/// Builds the seeded type map of the managed-runtime target: every
/// primitive pair in both directions, the machine-sized integers and
/// booleans through their fixed-width intermediates, and strings
/// through the UTF-16 ABI.  Every seeded foreign type makes a round
/// trip: both of its directions terminate at one native type.
#[verifier::rlimit(100)]
pub fn seed_dotnet_typemap() -> (r: Result<TypeGraph, crate::diag::Diagnostic>)
    ensures
        match r {
            Ok(g) => {
                &&& g.wf()
            &&& round_trip_ok(g, "float"@)
            &&& round_trip_ok(g, "double"@)
            &&& round_trip_ok(g, "void"@)
            &&& round_trip_ok(g, "sbyte"@)
            &&& round_trip_ok(g, "byte"@)
            &&& round_trip_ok(g, "short"@)
            &&& round_trip_ok(g, "ushort"@)
            &&& round_trip_ok(g, "int"@)
            &&& round_trip_ok(g, "uint"@)
            &&& round_trip_ok(g, "long"@)
            &&& round_trip_ok(g, "ulong"@)
            &&& round_trip_ok(g, "/* usize */ ulong"@)
            &&& round_trip_ok(g, "/* isize */ long"@)
            &&& round_trip_ok(g, "bool"@)
            &&& round_trip_ok(g, "string"@)
            &&& seeded_direct_ok(g, "int"@, "i32"@)
            &&& seeded_direct_ok(g, "byte"@, "u8"@)
            &&& seeded_direct_ok(g, "ulong"@, "u64"@)
            &&& seeded_direct_ok(g, "void"@, "()"@)
            &&& seeded_intermediate_ok(
                    g,
                    "bool"@,
                    "bool"@,
                    "u8"@,
                    "u8"@,
                    "({from_var} != 0)"@,
                    "(byte) ({from_var} ? 1 : 0)"@,
                )
            &&& seeded_intermediate_ok(
                    g,
                    "/* usize */ ulong"@,
                    "usize"@,
                    "u64"@,
                    "u64"@,
                    "{from_var}"@,
                    "{from_var}"@,
                )
            &&& seeded_intermediate_ok(
                    g,
                    "string"@,
                    "String"@,
                    "* const u16"@,
                    "* mut String"@,
                    "RustString.rust_to_dotnet({from_var})"@,
                    "RustString.dotnet_to_rust({from_var})"@,
                )
            },
            Err(_) => false,
        },
{
    let mut g = TypeGraph::new();
    match seed_direct(&mut g, "f32", "float") {
        Ok(_) => {},
        Err(d) => {
            proof {
                lemma_seed_names_distinct();
                assert(false);
            }
            return Err(d);
        },
    }
    match seed_direct(&mut g, "f64", "double") {
        Ok(_) => {},
        Err(d) => {
            proof {
                lemma_seed_names_distinct();
                assert(false);
            }
            return Err(d);
        },
    }
    match seed_direct(&mut g, "()", "void") {
        Ok(_) => {},
        Err(d) => {
            proof {
                lemma_seed_names_distinct();
                assert(false);
            }
            return Err(d);
        },
    }
    match seed_direct(&mut g, "i8", "sbyte") {
        Ok(_) => {},
        Err(d) => {
            proof {
                lemma_seed_names_distinct();
                assert(false);
            }
            return Err(d);
        },
    }
    match seed_direct(&mut g, "u8", "byte") {
        Ok(_) => {},
        Err(d) => {
            proof {
                lemma_seed_names_distinct();
                assert(false);
            }
            return Err(d);
        },
    }
    match seed_direct(&mut g, "i16", "short") {
        Ok(_) => {},
        Err(d) => {
            proof {
                lemma_seed_names_distinct();
                assert(false);
            }
            return Err(d);
        },
    }
    match seed_direct(&mut g, "u16", "ushort") {
        Ok(_) => {},
        Err(d) => {
            proof {
                lemma_seed_names_distinct();
                assert(false);
            }
            return Err(d);
        },
    }
    match seed_direct(&mut g, "i32", "int") {
        Ok(_) => {},
        Err(d) => {
            proof {
                lemma_seed_names_distinct();
                assert(false);
            }
            return Err(d);
        },
    }
    match seed_direct(&mut g, "u32", "uint") {
        Ok(_) => {},
        Err(d) => {
            proof {
                lemma_seed_names_distinct();
                assert(false);
            }
            return Err(d);
        },
    }
    match seed_direct(&mut g, "i64", "long") {
        Ok(_) => {},
        Err(d) => {
            proof {
                lemma_seed_names_distinct();
                assert(false);
            }
            return Err(d);
        },
    }
    match seed_direct(&mut g, "u64", "ulong") {
        Ok(_) => {},
        Err(d) => {
            proof {
                lemma_seed_names_distinct();
                assert(false);
            }
            return Err(d);
        },
    }
    match seed_direct(&mut g, "* mut u16", "/* mut c_str_u16 */ IntPtr") {
        Ok(_) => {},
        Err(d) => {
            proof {
                lemma_seed_names_distinct();
                assert(false);
            }
            return Err(d);
        },
    }
    match seed_direct(&mut g, "* const u16", "/* const c_str_u16 */ IntPtr") {
        Ok(_) => {},
        Err(d) => {
            proof {
                lemma_seed_names_distinct();
                assert(false);
            }
            return Err(d);
        },
    }
    match seed_direct(&mut g, "* mut String", "/* RustString */ IntPtr") {
        Ok(_) => {},
        Err(d) => {
            proof {
                lemma_seed_names_distinct();
                assert(false);
            }
            return Err(d);
        },
    }
    match seed_intermediate(
        &mut g,
        "usize",
        "u64",
        "/* usize */ ulong",
        "{from_var}",
        "{from_var}",
        "let {to_var} = {from_var} as u64;".to_owned(),
        "let {to_var} = {from_var} as usize;".to_owned(),
    ) {
        Ok(_) => {},
        Err(d) => {
            proof {
                lemma_seed_names_distinct();
                assert(false);
            }
            return Err(d);
        },
    }
    match seed_intermediate(
        &mut g,
        "isize",
        "i64",
        "/* isize */ long",
        "{from_var}",
        "{from_var}",
        "let {to_var} = {from_var} as i64;".to_owned(),
        "let {to_var} = {from_var} as isize;".to_owned(),
    ) {
        Ok(_) => {},
        Err(d) => {
            proof {
                lemma_seed_names_distinct();
                assert(false);
            }
            return Err(d);
        },
    }
    match seed_intermediate(
        &mut g,
        "bool",
        "u8",
        "bool",
        "({from_var} != 0)",
        "(byte) ({from_var} ? 1 : 0)",
        "let {to_var} = if {from_var} { 1 } else { 0 };".to_owned(),
        "let {to_var} = {from_var} != 0;".to_owned(),
    ) {
        Ok(_) => {},
        Err(d) => {
            proof {
                lemma_seed_names_distinct();
                assert(false);
            }
            return Err(d);
        },
    }
    let mut string_in_edge = "let {to_var} = uns".to_owned();
    string_in_edge.append("afe { *Box::from_raw({from_var}) };");
    match seed_string(&mut g, string_in_edge) {
        Ok(_) => {},
        Err(d) => {
            proof {
                lemma_seed_names_distinct();
                assert(false);
            }
            return Err(d);
        },
    }
    Ok(g)
}

/// Seeds the string pair: UTF-16 out, boxed string in, with the
/// managed marshalling helpers on the foreign side.
fn seed_string(g: &mut TypeGraph, in_edge: String) -> (r: Result<(), crate::diag::Diagnostic>)
    requires
        old(g).wf(),
    ensures
        final(g).wf(),
        r is Ok ==> {
            &&& round_trip_ok(*final(g), "string"@)
        &&& seeded_intermediate_ok(
                *final(g),
                "string"@,
                "String"@,
                "* const u16"@,
                "* mut String"@,
                "RustString.rust_to_dotnet({from_var})"@,
                "RustString.dotnet_to_rust({from_var})"@,
            )
        &&& forall|n: Seq<char>|
                #[trigger] round_trip_ok(*old(g), n) ==> round_trip_ok(*final(g), n)
        &&& forall|n: Seq<char>, ru: Seq<char>|
                #[trigger] seeded_direct_ok(*old(g), n, ru) ==> seeded_direct_ok(*final(g), n, ru)
        &&& forall|n: Seq<char>, ru: Seq<char>, io: Seq<char>, ii: Seq<char>, oc: Seq<char>, ic: Seq<char>|
                #[trigger] seeded_intermediate_ok(*old(g), n, ru, io, ii, oc, ic)
                    ==> seeded_intermediate_ok(*final(g), n, ru, io, ii, oc, ic)
        },
        r is Err ==> old(g).has_foreign_name("string"@),
{
    let n = g.find_or_alloc_native("String", 0);
    let m_out = g.find_or_alloc_native("* const u16", 0);
    let m_in = g.find_or_alloc_native("* mut String", 0);
    let ft = ForeignTypeRec {
        name: "string".to_owned(),
        provides_by_module: Vec::new(),
        into_from_rust: Some(
            ConvRule {
                rust_ty: n,
                intermediate: Some(
                    Intermediate {
                        intermediate_ty: m_out,
                        conv_code: "RustString.rust_to_dotnet({from_var})".to_owned(),
                        input_to_output: false,
                    },
                ),
            },
        ),
        from_into_rust: Some(
            ConvRule {
                rust_ty: n,
                intermediate: Some(
                    Intermediate {
                        intermediate_ty: m_in,
                        conv_code: "RustString.dotnet_to_rust({from_var})".to_owned(),
                        input_to_output: false,
                    },
                ),
            },
        ),
        name_prefix: None,
        src_id: 0,
        span: (Span { lo: 0, hi: 0 }),
    };
    match g.alloc_foreign(ft) {
        Ok(_) => {
            let ghost gmid = *g;
            proof {
                assert(gmid.ftypes@.last().name@ == "string"@);
            }
            g.add_conversion(n, m_out, "let {to_var} = alloc_c_str_u16(&{from_var});".to_owned());
            g.add_conversion(m_in, n, in_edge);
            proof {
                assert(g.ftypes@ == gmid.ftypes@);
                assert(g.ftypes@.last().name@ == "string"@);
                assert(round_trip_ok(*g, "string"@));
                assert(g.ntext(n as int) == "String"@);
                assert(g.ntext(m_out as int) == "* const u16"@);
                assert(g.ntext(m_in as int) == "* mut String"@);
                assert(seeded_intermediate_ok(
                    *g,
                    "string"@,
                    "String"@,
                    "* const u16"@,
                    "* mut String"@,
                    "RustString.rust_to_dotnet({from_var})"@,
                    "RustString.dotnet_to_rust({from_var})"@,
                ));
                lemma_seed_step_preserves(*old(g), *g, "string"@);
            }
            Ok(())
        },
        Err(d) => Err(d),
    }
}


/// The parametric rules of the managed-runtime target, each with its
/// parameter token: the vector-of-`T` group, expanded on demand into
/// the per-element iterator ABI (`RustVec<element>` exports, the
/// managed drain helper, and the iterator handle crossing as a
/// pointer).
pub fn dotnet_generic_rules() -> (r: Vec<(crate::rules::TypeMapConvRuleInfo, String)>)
    ensures
        r@.len() == 1,
{
    let mut list_name = "System.Collections.Generic.List<swig_f_type!(".to_owned();
    list_name.append("T)>");
    let mut iter_ty = "* mut RustVecIterswig_f_type!(".to_owned();
    iter_ty.append("T)");
    let mut iter_image = "/* Iter RustVecswig_f_type!(".to_owned();
    iter_image.append("T) */ IntPtr");
    let mut out_conv = "RustVecswig_f_type!(".to_owned();
    out_conv.append("T).rust_to_dotnet({from_var})");
    let mut ltr: Vec<crate::rules::FTypeArm> = Vec::new();
    ltr.push(
        crate::rules::FTypeArm {
            cfg_option: None,
            name: list_name,
            rust_ty: "Vec < T >".to_owned(),
            req_modules: Vec::new(),
            intermediate: Some((iter_ty.clone(), out_conv, false)),
        },
    );
    ltr.push(
        crate::rules::FTypeArm {
            cfg_option: None,
            name: iter_image,
            rust_ty: iter_ty.clone(),
            req_modules: Vec::new(),
            intermediate: None,
        },
    );
    let mut iter_edge = "let {to_var} = Box::into_raw(Box::new({from_var}.into_iter())) as ".to_owned();
    iter_edge.append(iter_ty.as_str());
    iter_edge.append(";");
    let rt = crate::rules::RTypeRule {
        left_ty: "Vec < T >".to_owned(),
        right_ty: iter_ty,
        code: iter_edge,
    };
    let mut handle_ty = "* mut RustVecHandleswig_f_type!(".to_owned();
    handle_ty.append("T)");
    let mut handle_image = "/* RustVecswig_f_type!(".to_owned();
    handle_image.append("T) */ IntPtr");
    let mut in_conv = "RustVecswig_f_type!(".to_owned();
    in_conv.append("T).dotnet_to_rust({from_var})");
    let mut rtl: Vec<crate::rules::FTypeArm> = Vec::new();
    rtl.push(
        crate::rules::FTypeArm {
            cfg_option: None,
            name: {
                let mut n = "System.Collections.Generic.List<swig_f_type!(".to_owned();
                n.append("T)>");
                n
            },
            rust_ty: "Vec < T >".to_owned(),
            req_modules: Vec::new(),
            intermediate: Some((handle_ty.clone(), in_conv, false)),
        },
    );
    rtl.push(
        crate::rules::FTypeArm {
            cfg_option: None,
            name: handle_image,
            rust_ty: handle_ty.clone(),
            req_modules: Vec::new(),
            intermediate: None,
        },
    );
    let mut unbox_edge = "let {to_var} = uns".to_owned();
    unbox_edge.append("afe { *Box::from_raw({from_var}) };");
    let rt_in = crate::rules::RTypeRule {
        left_ty: "Vec < T >".to_owned(),
        right_ty: handle_ty,
        code: unbox_edge,
    };
    let mut rust_items: Vec<String> = Vec::new();
    let mut alias = "#[allow(non_camel_case_types)]\npub type RustVecIterswig_f_type!(".to_owned();
    alias.append("T) = ::std::vec::IntoIter<T>;");
    rust_items.push(alias);
    let mut halias = "#[allow(non_camel_case_types)]\npub type RustVecHandleswig_f_type!(".to_owned();
    halias.append("T) = Vec<T>;");
    rust_items.push(halias);
    let mut i_new = "#[allow(non_snake_case)]\n#[no_mangle]\npub ext".to_owned();
    i_new.append("ern \"C\" fn RustVecswig_f_type!(");
    i_new.append("T)_new() -> * mut Vec<T> {\n    Box::into_raw(Box::new(Vec::new()))\n}");
    rust_items.push(i_new);
    let mut i_push = "#[allow(non_snake_case)]\n#[no_mangle]\npub ext".to_owned();
    i_push.append("ern \"C\" fn RustVecswig_f_type!(");
    i_push.append("T)_push(vec: * mut Vec<T>, element: T) {\n    uns");
    i_push.append("afe { (*vec).push(element) }\n}");
    rust_items.push(i_push);
    let mut i_next = "#[allow(non_snake_case)]\n#[no_mangle]\npub ext".to_owned();
    i_next.append("ern \"C\" fn RustVecswig_f_type!(");
    i_next.append("T)_iter_next(iter: * mut RustVecIterswig_f_type!(");
    i_next.append("T)) -> * mut Option<T> {\n    Box::into_raw(Box::new(uns");
    i_next.append("afe { &mut *iter }.next()))\n}");
    rust_items.push(i_next);
    let mut i_del = "#[allow(non_snake_case)]\n#[no_mangle]\npub ext".to_owned();
    i_del.append("ern \"C\" fn RustVecswig_f_type!(");
    i_del.append("T)_iter_delete(iter: * mut RustVecIterswig_f_type!(");
    i_del.append("T)) {\n    drop(uns");
    i_del.append("afe { Box::from_raw(iter) })\n}");
    rust_items.push(i_del);
    let mut i_some = "#[allow(non_snake_case)]\n#[no_mangle]\npub ext".to_owned();
    i_some.append("ern \"C\" fn RustVecswig_f_type!(");
    i_some.append("T)_option_is_some(opt: * mut Option<T>) -> u8 {\n    if uns");
    i_some.append("afe { (*opt).is_some() } {\n        1\n    } else {\n        0\n    }\n}");
    rust_items.push(i_some);
    let mut i_take = "#[allow(non_snake_case)]\n#[no_mangle]\npub ext".to_owned();
    i_take.append("ern \"C\" fn RustVecswig_f_type!(");
    i_take.append("T)_option_take(opt: * mut Option<T>) -> T {\n    uns");
    i_take.append("afe { Box::from_raw(opt) }.expect(\"empty option across the vector ABI\")\n}");
    rust_items.push(i_take);
    let mut helper = "\n    public static class RustVecswig_f_type!(".to_owned();
    helper.append("T) {\n        [DllImport(\"{native_lib_name}\", CallingConvention = CallingConvention.Cdecl)]\n        internal static ext");
    helper.append("ern IntPtr RustVecswig_f_type!(");
    helper.append("T)_iter_next(IntPtr iterPtr);\n        [DllImport(\"{native_lib_name}\", CallingConvention = CallingConvention.Cdecl)]\n        internal static ext");
    helper.append("ern void RustVecswig_f_type!(");
    helper.append("T)_iter_delete(IntPtr iterPtr);\n        [DllImport(\"{native_lib_name}\", CallingConvention = CallingConvention.Cdecl)]\n        internal static ext");
    helper.append("ern swig_f_type!(");
    helper.append("T) RustVecswig_f_type!(");
    helper.append("T)_option_take(IntPtr optPtr);\n        [DllImport(\"{native_lib_name}\", CallingConvention = CallingConvention.Cdecl)]\n        internal static ext");
    helper.append("ern byte RustVecswig_f_type!(");
    helper.append("T)_option_is_some(IntPtr optPtr);\n\n        internal static System.Collections.Generic.List<swig_f_type!(");
    helper.append("T)> rust_to_dotnet(IntPtr iterPtr)\n        {\n            var list = new System.Collections.Generic.List<swig_f_type!(");
    helper.append("T)>();\n            while (true)\n            {\n                var next_rust_opt = RustVecswig_f_type!(");
    helper.append("T)_iter_next(iterPtr);\n                if (RustVecswig_f_type!(");
    helper.append("T)_option_is_some(next_rust_opt) == 0)\n                {\n                    break;\n                }\n                var value = RustVecswig_f_type!(");
    helper.append("T)_option_take(next_rust_opt);\n                list.Add(value);\n            }\n            RustVecswig_f_type!(");
    helper.append("T)_iter_delete(iterPtr);\n            return list;\n        }\n    }\n");
    let mut module = "RustVecswig_f_type!(".to_owned();
    module.append("T)");
    let mut f_code: Vec<crate::rules::FCode> = Vec::new();
    f_code.push(crate::rules::FCode { module_name: module, cfg_option: None, code: helper });
    let rule = crate::rules::TypeMapConvRuleInfo {
        src_id: 0,
        span: (Span { lo: 0, hi: 0 }),
        c_types: None,
        f_code,
        ftype_left_to_right: ltr,
        ftype_right_to_left: rtl,
        rtype_left_to_right: Some(rt),
        rtype_right_to_left: Some(rt_in),
        rust_items,
    };
    let mut r: Vec<(crate::rules::TypeMapConvRuleInfo, String)> = Vec::new();
    r.push((rule, "T".to_owned()));
    r
}

} // verus!
