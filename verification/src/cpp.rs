//! The C/C++ target: configuration, rule merging into the type graph
//! and the per-module header buffers, registration of raw C items, and
//! the expansion entry point.  The aggregator computes file contents;
//! reading and writing the output directory is the caller's part.
use vstd::prelude::*;

verus! {

use crate::SourceId;
use crate::diag::{DiagKind, Diagnostic};
use crate::graph::{ConvRule, ForeignTypeRec, TypeGraph};
use crate::out::{OutputModules, WriteAction};
use crate::registrar::register_class;
use crate::rules::{
    CItem,
    CItems,
    CppOptional,
    CppStrView,
    CppVariant,
    TypeMapConvRuleInfo,
    configure_ftype_rule,
    install_ftype_arm,
    optional_token,
    str_view_token,
    validate_cfg_options,
    variant_token,
};
use crate::text::{replace_spec, replace_all, seq_has_text, str_eq};
use crate::types::ItemToExpand;

/// Configuration of the C/C++ target.
pub struct CppConfig {
    pub output_dir: String,
    pub namespace_name: String,
    pub cpp_optional: CppOptional,
    pub cpp_variant: CppVariant,
    pub cpp_str_view: CppStrView,
}

/// The three active option tokens of a configuration.
pub open spec fn active_option_texts(cfg: CppConfig) -> Seq<Seq<char>> {
    seq![
        crate::rules::variant_token_text(cfg.cpp_variant),
        crate::rules::optional_token_text(cfg.cpp_optional),
        crate::rules::str_view_token_text(cfg.cpp_str_view),
    ]
}

impl CppConfig {
    /// Builds the set of active option tokens.
    pub fn active_options(&self) -> (r: Vec<String>)
        ensures
            crate::text::texts_of(r@) == active_option_texts(*self),
    {
        let mut r: Vec<String> = Vec::new();
        r.push(variant_token(self.cpp_variant).to_owned());
        r.push(optional_token(self.cpp_optional).to_owned());
        r.push(str_view_token(self.cpp_str_view).to_owned());
        proof {
            assert(crate::text::texts_of(r@) =~= active_option_texts(*self));
        }
        r
    }
}

/// Whether a fragment's guard admits it under the configuration: no
/// guard, or a guard naming one of the three active option tokens.
pub open spec fn fcode_active(fc: crate::rules::FCode, cfg: CppConfig) -> bool {
    match fc.cfg_option {
        None => true,
        Some(t) => active_option_texts(cfg).contains(t@),
    }
}

/// The text the first `k` fragments of a rule append to the module
/// named `name`: each fragment routed there whose guard is absent or
/// active, namespace-substituted, in order.
pub open spec fn fcode_append_text(
    fragments: Seq<crate::rules::FCode>,
    name: Seq<char>,
    cfg: CppConfig,
    k: int,
) -> Seq<char>
    decreases k,
{
    if k <= 0 {
        Seq::<char>::empty()
    } else {
        let pre = fcode_append_text(fragments, name, cfg, k - 1);
        let fc = fragments[k - 1];
        if fc.module_name@ == name && fcode_active(fc, cfg) {
            pre + replace_spec(fc.code@, "$RUST_SWIG_USER_NAMESPACE"@, cfg.namespace_name@)
        } else {
            pre
        }
    }
}

/// A module no fragment routes to receives nothing.
proof fn lemma_fcode_append_absent(
    fragments: Seq<crate::rules::FCode>,
    name: Seq<char>,
    cfg: CppConfig,
    k: int,
)
    requires
        forall|p: int| 0 <= p < k ==> (#[trigger] fragments[p]).module_name@ != name,
    ensures
        fcode_append_text(fragments, name, cfg, k) == Seq::<char>::empty(),
    decreases k,
{
    if k > 0 {
        lemma_fcode_append_absent(fragments, name, cfg, k - 1);
    }
}

/// A prelude source-code snippet in the target language, written to
/// the output directory after one namespace substitution.
pub struct SourceCode {
    pub id_of_code: String,
    pub code: String,
}

/// The working state of one C/C++ generation run.
pub struct CppContext {
    pub cfg: CppConfig,
    pub conv_map: TypeGraph,
    pub out: OutputModules,
    pub rust_code: Vec<String>,
    pub src_files: Vec<WriteAction>,
    pub not_merged_rules: Vec<TypeMapConvRuleInfo>,
}

impl CppContext {
    /// The graph and the module buffers are well formed.
    pub open spec fn wf(self) -> bool {
        &&& self.conv_map.wf()
    &&& self.out.wf()
    }
}

/// A header name as it is recorded among a type's required modules.
pub open spec fn quoted_header(header: Seq<char>) -> Seq<char> {
    "\""@ + header + "\""@
}

/// The item carries a registered foreign image: unless the module
/// already declared it, some foreign type bears its declaration name,
/// its outgoing rule terminates at the item's identifier, and the
/// header stands among the image's required modules.
pub open spec fn citem_image_ok(
    g: TypeGraph,
    defined: Seq<String>,
    header: Seq<char>,
    it: CItem,
) -> bool {
    match it {
        CItem::Struct(s) => seq_has_text(defined, "struct "@ + s@) || citem_image_at(
            g,
            header,
            "struct "@ + s@,
            s@,
        ),
        CItem::Union(u) => seq_has_text(defined, "union "@ + u@) || citem_image_at(
            g,
            header,
            "union "@ + u@,
            u@,
        ),
        CItem::Fn(_) => true,
    }
}

/// Some foreign type bears the declaration name, targets the
/// identifier's native type outgoing, and lists the header.
pub open spec fn citem_image_at(
    g: TypeGraph,
    header: Seq<char>,
    cname: Seq<char>,
    ident: Seq<char>,
) -> bool {
    exists|f: int|
        0 <= f < g.ftypes@.len() && (#[trigger] g.ftypes@[f]).name@ == cname && (match g.ftypes@[f].into_from_rust {
            Some(rl) => rl.rust_ty < g.n_len() && g.ntext(rl.rust_ty as int) == ident,
            None => false,
        }) && seq_has_text(g.ftypes@[f].provides_by_module@, quoted_header(header))
}

/// A preserved image: the foreign arena only grows, rules and names
/// at old indices are kept, and required-module lists only gain.
proof fn lemma_citem_image_preserved(
    a: TypeGraph,
    b: TypeGraph,
    header: Seq<char>,
    cname: Seq<char>,
    ident: Seq<char>,
)
    requires
        citem_image_at(a, header, cname, ident),
        b.ftypes@.len() >= a.ftypes@.len(),
        b.n_len() >= a.n_len(),
        forall|j: int| 0 <= j < a.n_len() ==> #[trigger] b.ntypes@[j] == a.ntypes@[j],
        forall|f: int|
            0 <= f < a.ftypes@.len() ==> (#[trigger] b.ftypes@[f]).name == a.ftypes@[f].name
                && b.ftypes@[f].into_from_rust == a.ftypes@[f].into_from_rust && (forall|t: Seq<char>|
                #[trigger] seq_has_text(a.ftypes@[f].provides_by_module@, t) ==> seq_has_text(
                    b.ftypes@[f].provides_by_module@,
                    t,
                )),
    ensures
        citem_image_at(b, header, cname, ident),
{
    let f = choose|f: int|
        0 <= f < a.ftypes@.len() && (#[trigger] a.ftypes@[f]).name@ == cname && (match a.ftypes@[f].into_from_rust {
            Some(rl) => rl.rust_ty < a.n_len() && a.ntext(rl.rust_ty as int) == ident,
            None => false,
        }) && seq_has_text(a.ftypes@[f].provides_by_module@, quoted_header(header));
    assert(b.ftypes@[f].name@ == cname);
    match a.ftypes@[f].into_from_rust {
        Some(rl) => {
            assert(b.ntypes@[rl.rust_ty as int] == a.ntypes@[rl.rust_ty as int]);
        },
        None => {},
    }
    assert(seq_has_text(b.ftypes@[f].provides_by_module@, quoted_header(header)));
}

/// Some not-yet-declared item's identifier is no Rust identifier.
pub open spec fn citem_bad_ident(defined: Seq<String>, items: Seq<CItem>) -> bool {
    exists|i: int|
        0 <= i < items.len() && (match #[trigger] items[i] {
            CItem::Struct(s) => !seq_has_text(defined, "struct "@ + s@) && !crate::ext::ident_parses(
                s@,
            ),
            CItem::Union(u) => !seq_has_text(defined, "union "@ + u@) && !crate::ext::ident_parses(
                u@,
            ),
            CItem::Fn(_) => false,
        })
}

/// The identifier's native type already carries a differently-named
/// outgoing image, or the declaration name is already taken.
pub open spec fn citem_conflict(g: TypeGraph, cname: Seq<char>, ident: Seq<char>) -> bool {
    ||| (exists|f: int|
        0 <= f < g.ftypes@.len() && (match (#[trigger] g.ftypes@[f]).into_from_rust {
            Some(rl) => rl.rust_ty < g.n_len() && g.ntext(rl.rust_ty as int) == ident
                && g.ftypes@[f].name@ != cname,
            None => false,
        }))
    ||| g.has_foreign_name(cname)
}

/// Some not-yet-declared item conflicts with the graph.
pub open spec fn citem_conflicted(g: TypeGraph, defined: Seq<String>, items: Seq<CItem>) -> bool {
    exists|i: int|
        0 <= i < items.len() && (match #[trigger] items[i] {
            CItem::Struct(s) => !seq_has_text(defined, "struct "@ + s@) && citem_conflict(
                g,
                "struct "@ + s@,
                s@,
            ),
            CItem::Union(u) => !seq_has_text(defined, "union "@ + u@) && citem_conflict(
                g,
                "union "@ + u@,
                u@,
            ),
            CItem::Fn(_) => false,
        })
}

/// The item's native type is registered, unless the module already
/// held its declaration and it was skipped.
pub open spec fn citem_registered(g: TypeGraph, defined: Seq<String>, it: CItem) -> bool {
    match it {
        CItem::Struct(s) => g.has_native(s@) || seq_has_text(defined, "struct "@ + s@),
        CItem::Union(u) => g.has_native(u@) || seq_has_text(defined, "union "@ + u@),
        CItem::Fn(_) => true,
    }
}

/// Every struct or union of the items is already declared in the
/// module.
pub open spec fn all_citems_defined(defined: Seq<String>, items: Seq<CItem>) -> bool {
    forall|i: int|
        0 <= i < items.len() ==> (match #[trigger] items[i] {
            CItem::Struct(s) => seq_has_text(defined, "struct "@ + s@),
            CItem::Union(u) => seq_has_text(defined, "union "@ + u@),
            CItem::Fn(_) => true,
        })
}

/// Whether merging the raw C items declares at least one item that the
/// header does not hold yet.
pub open spec fn some_c_item_new(defined: Seq<String>, items: Seq<CItem>) -> bool {
    exists|i: int|
        0 <= i < items.len() && (match #[trigger] items[i] {
            CItem::Struct(s) => !seq_has_text(defined, "struct "@ + s@),
            CItem::Union(u) => !seq_has_text(defined, "union "@ + u@),
            CItem::Fn(_) => false,
        })
}

/// The C declaration name of an item, when it declares one.
fn citem_cname(it: &CItem) -> (r: Option<String>)
    ensures
        match *it {
            CItem::Struct(s) => r is Some && r->0@ == "struct "@ + s@,
            CItem::Union(u) => r is Some && r->0@ == "union "@ + u@,
            CItem::Fn(_) => r is None,
        },
{
    match it {
        CItem::Struct(s) => {
            let mut n = "struct ".to_owned();
            n.append(s.as_str());
            Some(n)
        },
        CItem::Union(u) => {
            let mut n = "union ".to_owned();
            n.append(u.as_str());
            Some(n)
        },
        CItem::Fn(_) => None,
    }
}

/// The bare identifier of an item, when it declares one.
fn citem_ident<'a>(it: &'a CItem) -> (r: Option<&'a String>)
    ensures
        match *it {
            CItem::Struct(s) => r is Some && r->0@ == s@,
            CItem::Union(u) => r is Some && r->0@ == u@,
            CItem::Fn(_) => r is None,
        },
{
    match it {
        CItem::Struct(s) => Some(s),
        CItem::Union(u) => Some(u),
        CItem::Fn(_) => None,
    }
}

/// Registers the raw C items of a rule in the type graph: each struct
/// or union not yet declared in its header gets a native type under
/// its identifier and a foreign type under its C declaration name,
/// noting the header among the modules its use needs.  Returns whether
/// anything new was declared.  An identifier that is not a Rust
/// identifier, or an identifier whose native type already has a
/// foreign image under a different name, is refused.
#[verifier::loop_isolation(false)]
pub fn register_c_type(
    tmap: &mut TypeGraph,
    c_types: &CItems,
    out: &OutputModules,
    midx: usize,
    src_id: SourceId,
) -> (r: Result<bool, Diagnostic>)
    requires
        old(tmap).wf(),
        midx < out.files@.len(),
    ensures
        final(tmap).wf(),
        final(tmap).edges@ == old(tmap).edges@,
        final(tmap).n_len() >= old(tmap).n_len(),
        forall|j: int|
            0 <= j < old(tmap).n_len() ==> #[trigger] final(tmap).ntypes@[j] == old(
                tmap,
            ).ntypes@[j],
        all_citems_defined(out.files@[midx as int].defined_items@, c_types.items@) ==> (
        r is Ok && *final(tmap) == *old(tmap)),
        match r {
            Ok(b) => b == some_c_item_new(
                out.files@[midx as int].defined_items@,
                c_types.items@,
            ) && (forall|i: int|
                0 <= i < c_types.items@.len() ==> citem_registered(
                    *final(tmap),
                    out.files@[midx as int].defined_items@,
                    #[trigger] c_types.items@[i],
                )) && (forall|i: int|
                0 <= i < c_types.items@.len() ==> citem_image_ok(
                    *final(tmap),
                    out.files@[midx as int].defined_items@,
                    c_types.header_name@,
                    #[trigger] c_types.items@[i],
                )),
            Err(d) => {
                &&& (d.kind == DiagKind::InvalidIdent || d.kind
                    == DiagKind::ForeignTypeNameConflict)
            &&& (d.kind == DiagKind::InvalidIdent ==> citem_bad_ident(
                    out.files@[midx as int].defined_items@,
                    c_types.items@,
                ))
            &&& (d.kind == DiagKind::ForeignTypeNameConflict ==> citem_conflicted(
                    *final(tmap),
                    out.files@[midx as int].defined_items@,
                    c_types.items@,
                ))
            },
        },
{
    let mut something_defined = false;
    let mut i: usize = 0;
    while i < c_types.items.len()
        invariant
            tmap.wf(),
            all_citems_defined(out.files@[midx as int].defined_items@, c_types.items@)
                ==> *tmap == *old(tmap),
            tmap.edges@ == old(tmap).edges@,
            tmap.n_len() >= old(tmap).n_len(),
            forall|j: int|
                0 <= j < old(tmap).n_len() ==> #[trigger] tmap.ntypes@[j] == old(tmap).ntypes@[j],
            forall|k: int|
                0 <= k < i ==> citem_registered(
                    *tmap,
                    out.files@[midx as int].defined_items@,
                    #[trigger] c_types.items@[k],
                ),
            forall|k: int|
                0 <= k < i ==> citem_image_ok(
                    *tmap,
                    out.files@[midx as int].defined_items@,
                    c_types.header_name@,
                    #[trigger] c_types.items@[k],
                ),
            i <= c_types.items@.len(),
            something_defined == some_c_item_new(
                out.files@[midx as int].defined_items@.subrange(
                    0,
                    out.files@[midx as int].defined_items@.len() as int,
                ),
                c_types.items@.subrange(0, i as int),
            ),
        decreases c_types.items@.len() - i,
    {
        let it = &c_types.items[i];
        let ghost tpre = *tmap;
        let ghost pre_sd = something_defined;
        match citem_cname(it) {
            None => {},
            Some(c_name) => {
                let f_ident = match citem_ident(it) {
                    Some(id) => id,
                    None => {
                        proof {
                            assert(false);
                        }
                        return Err(
                            Diagnostic::new(
                                src_id,
                                crate::Span { lo: 0, hi: 0 },
                                DiagKind::InvalidIdent,
                                String::new(),
                            ),
                        );
                    },
                };
                if !out.is_item_defined(midx, c_name.as_str()) {
                    something_defined = true;
                    if !crate::ext::is_rust_ident(f_ident.as_str()) {
                        proof {
                            assert(citem_bad_ident(
                                out.files@[midx as int].defined_items@,
                                c_types.items@,
                            )) by {
                                assert(c_types.items@[i as int] == *it);
                            }
                        }
                        let mut msg = "not a valid identifier: ".to_owned();
                        msg.append(f_ident.as_str());
                        return Err(
                            Diagnostic::new(
                                src_id,
                                crate::Span { lo: 0, hi: 0 },
                                DiagKind::InvalidIdent,
                                msg,
                            ),
                        );
                    }
                    let rust_ty = tmap.find_or_alloc_native(f_ident.as_str(), src_id);
                    let existing_out = tmap.find_foreign_for_native(
                        rust_ty,
                        crate::graph::Direction::Outgoing,
                    );
                    match existing_out {
                        Some(fidx) => {
                            if str_eq(tmap.ftypes[fidx].name.as_str(), c_name.as_str()) {
                                let mut header = "\"".to_owned();
                                header.append(c_types.header_name.as_str());
                                header.append("\"");
                                proof {
                                    assert(header@ =~= quoted_header(c_types.header_name@));
                                }
                                let ghost tmid = *tmap;
                                tmap.add_foreign_provides(fidx, header.as_str());
                                proof {
                                    assert(tmap.ftypes@[fidx as int].name@ == c_name@);
                                    assert(tmap.ftypes@[fidx as int].into_from_rust
                                        == tmid.ftypes@[fidx as int].into_from_rust);
                                    assert(tmid.ftypes@[fidx as int].targets(
                                        crate::graph::Direction::Outgoing,
                                        rust_ty as int,
                                    ));
                                    assert(tmap.ntext(rust_ty as int) == f_ident@);
                                    assert(seq_has_text(
                                        tmap.ftypes@[fidx as int].provides_by_module@,
                                        quoted_header(c_types.header_name@),
                                    ));
                                    assert(citem_image_at(
                                        *tmap,
                                        c_types.header_name@,
                                        c_name@,
                                        f_ident@,
                                    ));
                                }
                            } else {
                                proof {
                                    assert(citem_conflict(*tmap, c_name@, f_ident@)) by {
                                        assert(tmap.ftypes@[fidx as int].targets(
                                            crate::graph::Direction::Outgoing,
                                            rust_ty as int,
                                        ));
                                        assert(tmap.ntext(rust_ty as int) == f_ident@);
                                        assert(tmap.ftypes@[fidx as int].name@ != c_name@);
                                    }
                                    assert(citem_conflicted(
                                        *tmap,
                                        out.files@[midx as int].defined_items@,
                                        c_types.items@,
                                    )) by {
                                        assert(c_types.items@[i as int] == *it);
                                    }
                                }
                                let mut msg =
                                    "There is already exists foreign type related to rust type '".to_owned();
                                msg.append(f_ident.as_str());
                                msg.append("', but name is different: should be ");
                                msg.append(c_name.as_str());
                                return Err(
                                    Diagnostic::new(
                                        src_id,
                                        crate::Span { lo: 0, hi: 0 },
                                        DiagKind::ForeignTypeNameConflict,
                                        msg,
                                    ),
                                );
                            }
                        },
                        None => {
                            let mut header = "\"".to_owned();
                            header.append(c_types.header_name.as_str());
                            header.append("\"");
                            proof {
                                assert(header@ =~= quoted_header(c_types.header_name@));
                            }
                            let mut provides: Vec<String> = Vec::new();
                            provides.push(header);
                            let rule_a = ConvRule { rust_ty, intermediate: None };
                            let rule_b = ConvRule { rust_ty, intermediate: None };
                            let ghost cnv = c_name@;
                            let ft = ForeignTypeRec {
                                name: c_name,
                                provides_by_module: provides,
                                into_from_rust: Some(rule_a),
                                from_into_rust: Some(rule_b),
                                name_prefix: None,
                                src_id,
                                span: (crate::Span { lo: 0, hi: 0 }),
                            };
                            match tmap.alloc_foreign(ft) {
                                Ok(_) => {
                                    proof {
                                        let f = tmap.ftypes@.len() - 1;
                                        assert(tmap.ftypes@[f].name@ == cnv);
                                        assert(tmap.ftypes@[f].provides_by_module@[0]@
                                            == quoted_header(c_types.header_name@));
                                        assert(seq_has_text(
                                            tmap.ftypes@[f].provides_by_module@,
                                            quoted_header(c_types.header_name@),
                                        ));
                                        assert(tmap.ntext(rust_ty as int) == f_ident@);
                                        assert(citem_image_at(
                                            *tmap,
                                            c_types.header_name@,
                                            cnv,
                                            f_ident@,
                                        ));
                                    }
                                },
                                Err(_) => {
                                    // A second foreign type under this name can
                                    // only mean another native type already
                                    // claimed the declaration name.
                                    proof {
                                        assert(tmap.has_foreign_name(cnv));
                                        assert(citem_conflict(*tmap, cnv, f_ident@));
                                        assert(citem_conflicted(
                                            *tmap,
                                            out.files@[midx as int].defined_items@,
                                            c_types.items@,
                                        )) by {
                                            assert(c_types.items@[i as int] == *it);
                                        }
                                    }
                                    let mut msg = "foreign type name already taken: ".to_owned();
                                    msg.append(f_ident.as_str());
                                    return Err(
                                        Diagnostic::new(
                                            src_id,
                                            crate::Span { lo: 0, hi: 0 },
                                            DiagKind::ForeignTypeNameConflict,
                                            msg,
                                        ),
                                    );
                                },
                            }
                        },
                    }
                    proof {
                        assert(tmap.ntext(rust_ty as int) == f_ident@);
                        assert(tmap.has_native(f_ident@));
                    }
                }
            },
        }
        proof {
            assert forall|j: int|
                0 <= j < tpre.n_len() implies #[trigger] tmap.ntypes@[j] == tpre.ntypes@[j] by {}
            assert forall|k: int|
                0 <= k < i + 1 implies citem_registered(
                *tmap,
                out.files@[midx as int].defined_items@,
                #[trigger] c_types.items@[k],
            ) by {
                if k < i {
                    match c_types.items@[k] {
                        CItem::Struct(s) => {
                            if tpre.has_native(s@) {
                                crate::graph::lemma_native_preserved(tpre, *tmap, s@);
                            }
                        },
                        CItem::Union(u) => {
                            if tpre.has_native(u@) {
                                crate::graph::lemma_native_preserved(tpre, *tmap, u@);
                            }
                        },
                        CItem::Fn(_) => {},
                    }
                }
            }
            assert forall|f: int|
                0 <= f < tpre.ftypes@.len() implies (#[trigger] tmap.ftypes@[f]).name
                == tpre.ftypes@[f].name && tmap.ftypes@[f].into_from_rust
                == tpre.ftypes@[f].into_from_rust && (forall|t: Seq<char>|
                #[trigger] seq_has_text(tpre.ftypes@[f].provides_by_module@, t) ==> seq_has_text(
                    tmap.ftypes@[f].provides_by_module@,
                    t,
                )) by {}
            assert forall|k: int|
                0 <= k < i + 1 implies citem_image_ok(
                *tmap,
                out.files@[midx as int].defined_items@,
                c_types.header_name@,
                #[trigger] c_types.items@[k],
            ) by {
                if k < i {
                    match c_types.items@[k] {
                        CItem::Struct(s) => {
                            if !seq_has_text(
                                out.files@[midx as int].defined_items@,
                                "struct "@ + s@,
                            ) {
                                lemma_citem_image_preserved(
                                    tpre,
                                    *tmap,
                                    c_types.header_name@,
                                    "struct "@ + s@,
                                    s@,
                                );
                            }
                        },
                        CItem::Union(u) => {
                            if !seq_has_text(
                                out.files@[midx as int].defined_items@,
                                "union "@ + u@,
                            ) {
                                lemma_citem_image_preserved(
                                    tpre,
                                    *tmap,
                                    c_types.header_name@,
                                    "union "@ + u@,
                                    u@,
                                );
                            }
                        },
                        CItem::Fn(_) => {},
                    }
                } else {
                    assert(c_types.items@[k] == *it);
                }
            }
            let defined = out.files@[midx as int].defined_items@;
            assert(defined.subrange(0, defined.len() as int) =~= defined);
            assert forall|j: int|
                0 <= j < i + 1 implies ((match #[trigger] c_types.items@.subrange(0, i + 1)[j] {
                CItem::Struct(s) => !seq_has_text(defined, "struct "@ + s@),
                CItem::Union(u) => !seq_has_text(defined, "union "@ + u@),
                CItem::Fn(_) => false,
            }) ==> something_defined) by {
                if j < i {
                    assert(c_types.items@.subrange(0, i + 1)[j] == c_types.items@.subrange(
                        0,
                        i as int,
                    )[j]);
                }
            }
            if something_defined {
                if !pre_sd {
                    assert(c_types.items@.subrange(0, i + 1)[i as int] == c_types.items@[i as int]);
                    assert(some_c_item_new(defined, c_types.items@.subrange(0, i + 1)));
                } else {
                    let w = choose|j: int|
                        0 <= j < i && (match #[trigger] c_types.items@.subrange(0, i as int)[j] {
                            CItem::Struct(s) => !seq_has_text(defined, "struct "@ + s@),
                            CItem::Union(u) => !seq_has_text(defined, "union "@ + u@),
                            CItem::Fn(_) => false,
                        });
                    assert(c_types.items@.subrange(0, i + 1)[w] == c_types.items@.subrange(
                        0,
                        i as int,
                    )[w]);
                    assert(some_c_item_new(defined, c_types.items@.subrange(0, i + 1)));
                }
            }
        }
        i += 1;
    }
    proof {
        assert(c_types.items@.subrange(0, c_types.items@.len() as int) =~= c_types.items@);
        let defined = out.files@[midx as int].defined_items@;
        assert(defined.subrange(0, defined.len() as int) =~= defined);
    }
    Ok(something_defined)
}

/// The declaration names the first `k` items add to a module whose
/// declared set starts as `defined`: in order, skipping names the
/// module or an earlier item already declared.
pub open spec fn citems_new_names(
    defined: Seq<Seq<char>>,
    items: Seq<CItem>,
    k: int,
) -> Seq<Seq<char>>
    decreases k,
{
    if k <= 0 {
        Seq::<Seq<char>>::empty()
    } else {
        let pre = citems_new_names(defined, items, k - 1);
        match items[k - 1] {
            CItem::Struct(s) => {
                let c = "struct "@ + s@;
                if crate::text::texts_contain(defined, c) || crate::text::texts_contain(pre, c) {
                    pre
                } else {
                    pre.push(c)
                }
            },
            CItem::Union(u) => {
                let c = "union "@ + u@;
                if crate::text::texts_contain(defined, c) || crate::text::texts_contain(pre, c) {
                    pre
                } else {
                    pre.push(c)
                }
            },
            CItem::Fn(_) => pre,
        }
    }
}

/// The text the new declarations append: each name followed by a
/// semicolon and a line break.
pub open spec fn citems_decl_text(names: Seq<Seq<char>>, k: int) -> Seq<char>
    decreases k,
{
    if k <= 0 {
        Seq::<char>::empty()
    } else {
        citems_decl_text(names, k - 1) + names[k - 1] + ";\n"@
    }
}

/// How raw C items are merged: with or without a native-side type
/// definition in the glue.
#[derive(Clone, Copy, PartialEq, Eq, Structural)]
pub enum MergeCItemsFlags {
    DefineAlsoRustType,
    DefineOnlyCItem,
}

/// Merges the raw C items of a rule: registers them in the graph and
/// writes each new declaration once into its header, recording it so
/// a second rule declaring the same item writes nothing more.
pub fn merge_c_types(
    ctx: &mut CppContext,
    c_types: &CItems,
    flags: MergeCItemsFlags,
    rule_src_id: SourceId,
) -> (r: Result<(), Diagnostic>)
    requires
        old(ctx).wf(),
    ensures
        final(ctx).wf(),
        final(ctx).cfg == old(ctx).cfg,
        final(ctx).src_files == old(ctx).src_files,
        final(ctx).rust_code == old(ctx).rust_code,
        final(ctx).not_merged_rules == old(ctx).not_merged_rules,
        final(ctx).conv_map.edges@ == old(ctx).conv_map.edges@,
        final(ctx).conv_map.n_len() >= old(ctx).conv_map.n_len(),
        forall|j: int|
            0 <= j < old(ctx).conv_map.n_len() ==> #[trigger] final(ctx).conv_map.ntypes@[j]
                == old(ctx).conv_map.ntypes@[j],
        match r {
            Ok(_) => ({
                let out0 = old(ctx).out;
                let out1 = final(ctx).out;
                let header = c_types.header_name@;
                &&& (old(ctx).out.has_module(header) ==> (exists|j: int|
                    {
                        let names = citems_new_names(
                            crate::text::texts_of(out0.files@[j].defined_items@),
                            c_types.items@,
                            c_types.items@.len() as int,
                        );
                        &&& 0 <= j < out0.files@.len()
                    &&& (#[trigger] out0.files@[j]).name@ == header
                    &&& out1.files@.len() == out0.files@.len()
                    &&& (forall|k: int|
                            0 <= k < out1.files@.len() && k != j ==> #[trigger] out1.files@[k]
                                == out0.files@[k])
                    &&& out1.files@[j].name == out0.files@[j].name
                    &&& out1.files@[j].content@ == out0.files@[j].content@ + citems_decl_text(
                            names,
                            names.len() as int,
                        )
                    &&& crate::text::texts_of(out1.files@[j].defined_items@)
                            == crate::text::texts_of(out0.files@[j].defined_items@) + names
                    }))
            &&& (!old(ctx).out.has_module(header) ==> ({
                    let names = citems_new_names(
                        Seq::<Seq<char>>::empty(),
                        c_types.items@,
                        c_types.items@.len() as int,
                    );
                    &&& out1.files@.len() == out0.files@.len() + 1
                &&& (forall|k: int|
                        0 <= k < out0.files@.len() ==> #[trigger] out1.files@[k]
                            == out0.files@[k])
                &&& out1.files@.last().name@ == header
                &&& out1.files@.last().content@ == crate::out::prologue_text(
                        out0.target_pointer_width as nat,
                    ) + citems_decl_text(names, names.len() as int)
                &&& crate::text::texts_of(out1.files@.last().defined_items@) == names
                }))
            }),
            Err(d) => d.kind == DiagKind::InvalidIdent || d.kind
                == DiagKind::ForeignTypeNameConflict,
        },
{
    let ghost out_pre = ctx.out;
    let midx = ctx.out.open_module(c_types.header_name.as_str());
    proof {
        if !out_pre.has_module(c_types.header_name@) {
            assert(midx as int == out_pre.files@.len());
        }
    }
    match register_c_type(&mut ctx.conv_map, c_types, &ctx.out, midx, rule_src_id) {
        Ok(_) => {},
        Err(d) => {
            return Err(d);
        },
    }
    let ghost cpost = ctx.conv_map;
    let ghost out_open = ctx.out;
    let ghost defined0 = crate::text::texts_of(ctx.out.files@[midx as int].defined_items@);
    let ghost items = c_types.items@;
    let mut i: usize = 0;
    proof {
        assert(ctx.out.files@[midx as int].content@ + Seq::<char>::empty()
            =~= ctx.out.files@[midx as int].content@);
        assert(crate::text::texts_of(ctx.out.files@[midx as int].defined_items@) + Seq::<
            Seq<char>,
        >::empty() =~= defined0);
    }
    while i < c_types.items.len()
        invariant
            ctx.wf(),
            ctx.cfg == old(ctx).cfg,
            ctx.src_files == old(ctx).src_files,
            ctx.rust_code == old(ctx).rust_code,
            ctx.not_merged_rules == old(ctx).not_merged_rules,
            ctx.conv_map == cpost,
            items == c_types.items@,
            defined0 == crate::text::texts_of(out_open.files@[midx as int].defined_items@),
            midx < ctx.out.files@.len(),
            ctx.out.files@.len() == out_open.files@.len(),
            forall|k: int|
                0 <= k < ctx.out.files@.len() && k != midx ==> #[trigger] ctx.out.files@[k]
                    == out_open.files@[k],
            ctx.out.files@[midx as int].name == out_open.files@[midx as int].name,
            ctx.out.target_pointer_width == out_open.target_pointer_width,
            i <= items.len(),
            ctx.out.files@[midx as int].content@ == out_open.files@[midx as int].content@
                + citems_decl_text(
                citems_new_names(defined0, items, i as int),
                citems_new_names(defined0, items, i as int).len() as int,
            ),
            crate::text::texts_of(ctx.out.files@[midx as int].defined_items@) == defined0
                + citems_new_names(defined0, items, i as int),
        decreases items.len() - i,
    {
        let ghost names_i = citems_new_names(defined0, items, i as int);
        match citem_cname(&c_types.items[i]) {
            None => {},
            Some(c_name) => {
                let was_defined = ctx.out.is_item_defined(midx, c_name.as_str());
                proof {
                    let cur = ctx.out.files@[midx as int].defined_items@;
                    // membership in the current set splits over the base
                    // set and the names added so far
                    if crate::text::seq_has_text(cur, c_name@) {
                        let w = choose|w: int|
                            0 <= w < cur.len() && #[trigger] cur[w]@ == c_name@;
                        assert(crate::text::texts_of(cur)[w] == c_name@);
                        assert((defined0 + names_i)[w] == c_name@);
                        assert(crate::text::texts_of(cur).len() == cur.len());
                        assert(cur.len() == defined0.len() + names_i.len());
                        if w < defined0.len() {
                            assert(crate::text::texts_contain(defined0, c_name@));
                        } else {
                            assert(names_i[w - defined0.len()] == c_name@);
                            assert(crate::text::texts_contain(names_i, c_name@));
                        }
                    } else {
                        assert(crate::text::texts_of(cur).len() == cur.len());
                        assert(cur.len() == defined0.len() + names_i.len());
                        if crate::text::texts_contain(defined0, c_name@) {
                            let w = choose|w: int|
                                0 <= w < defined0.len() && #[trigger] defined0[w] == c_name@;
                            assert((defined0 + names_i)[w] == c_name@);
                            assert(crate::text::texts_of(cur)[w] == cur[w]@);
                            assert(crate::text::seq_has_text(cur, c_name@));
                        }
                        if crate::text::texts_contain(names_i, c_name@) {
                            let w = choose|w: int|
                                0 <= w < names_i.len() && #[trigger] names_i[w] == c_name@;
                            assert((defined0 + names_i)[defined0.len() + w] == c_name@);
                            assert(crate::text::texts_of(cur)[defined0.len() + w] == cur[
                                defined0.len() + w
                            ]@);
                            assert(crate::text::seq_has_text(cur, c_name@));
                        }
                    }
                }
                if !was_defined {
                    let ghost cur_pre = ctx.out.files@[midx as int].defined_items@;
                    let mut decl = c_name.clone();
                    decl.append(";\n");
                    ctx.out.write_module(midx, decl.as_str());
                    ctx.out.define_item(midx, c_name.as_str());
                    proof {
                        reveal_strlit(";\n");
                        let names_n = citems_new_names(defined0, items, i + 1);
                        assert(names_n =~= names_i.push(c_name@));
                        assert(citems_decl_text(names_n, names_n.len() as int) =~= citems_decl_text(
                            names_i,
                            names_i.len() as int,
                        ) + c_name@ + ";\n"@) by {
                            assert(citems_decl_text(names_n, names_n.len() as int)
                                == citems_decl_text(names_n, names_n.len() - 1) + names_n[
                                names_n.len() - 1
                            ] + ";\n"@);
                            lemma_decl_text_prefix(names_i, names_n);
                        }
                        assert(ctx.out.files@[midx as int].content@
                            =~= out_open.files@[midx as int].content@ + citems_decl_text(
                            names_n,
                            names_n.len() as int,
                        ));
                        let dn = ctx.out.files@[midx as int].defined_items@;
                        assert(dn == cur_pre.push(dn.last()));
                        assert(forall|q: int|
                            0 <= q < dn.len() ==> #[trigger] crate::text::texts_of(dn)[q]
                                == dn[q]@);
                        assert(forall|q: int|
                            0 <= q < cur_pre.len() ==> #[trigger] crate::text::texts_of(cur_pre)[q]
                                == cur_pre[q]@);
                        assert(cur_pre.len() == defined0.len() + names_i.len());
                        assert forall|q: int|
                            0 <= q < dn.len() implies crate::text::texts_of(dn)[q] == (defined0
                            + names_n)[q] by {
                            if q < cur_pre.len() {
                                assert(dn[q] == cur_pre[q]);
                                assert(crate::text::texts_of(cur_pre)[q] == (defined0 + names_i)[q]);
                                if q < defined0.len() {
                                    assert((defined0 + names_i)[q] == defined0[q]);
                                    assert((defined0 + names_n)[q] == defined0[q]);
                                } else {
                                    assert((defined0 + names_i)[q] == names_i[q - defined0.len()]);
                                    assert(names_n[q - defined0.len()] == names_i[q
                                        - defined0.len()]);
                                    assert((defined0 + names_n)[q] == names_n[q - defined0.len()]);
                                }
                            } else {
                                assert(dn[q] == dn.last());
                                assert((defined0 + names_n)[q] == names_n[names_n.len() - 1]);
                                assert(names_n[names_n.len() - 1] == c_name@);
                            }
                        }
                        assert(crate::text::texts_of(dn) =~= defined0 + names_n);
                    }
                }
            },
        }
        proof {
            if citems_new_names(defined0, items, i + 1) != citems_new_names(
                defined0,
                items,
                i as int,
            ) {
            } else {
                assert(ctx.out.files@[midx as int].content@ == out_open.files@[midx as int].content@
                    + citems_decl_text(
                    citems_new_names(defined0, items, i + 1),
                    citems_new_names(defined0, items, i + 1).len() as int,
                ));
            }
        }
        i += 1;
    }
    proof {
        assert(items.subrange(0, items.len() as int) =~= items);
        if out_pre.has_module(c_types.header_name@) {
            assert(out_open == out_pre);
            assert(out_open.files@[midx as int].name@ == c_types.header_name@);
        }
    }
    Ok(())
}

/// A prefix of the names contributes a prefix of the declaration
/// text.
proof fn lemma_decl_text_prefix(pre: Seq<Seq<char>>, whole: Seq<Seq<char>>)
    requires
        whole.len() == pre.len() + 1,
        forall|j: int| 0 <= j < pre.len() ==> #[trigger] whole[j] == pre[j],
    ensures
        citems_decl_text(whole, pre.len() as int) == citems_decl_text(pre, pre.len() as int),
    decreases pre.len(),
{
    lemma_decl_text_agree(pre, whole, pre.len() as int);
}

/// Declaration text depends only on the names below the cut.
proof fn lemma_decl_text_agree(a: Seq<Seq<char>>, b: Seq<Seq<char>>, k: int)
    requires
        forall|j: int| 0 <= j < k ==> #[trigger] b[j] == a[j],
    ensures
        citems_decl_text(b, k) == citems_decl_text(a, k),
    decreases k,
{
    if k > 0 {
        lemma_decl_text_agree(a, b, k - 1);
    }
}

/// Whether one fragment's guard admits it, tested against the active
/// token list.
fn fragment_active(
    fc: &crate::rules::FCode,
    active: &Vec<String>,
    Ghost(cfg): Ghost<CppConfig>,
) -> (r: bool)
    requires
        crate::text::texts_of(active@) == active_option_texts(cfg),
    ensures
        r == fcode_active(*fc, cfg),
{
    match &fc.cfg_option {
        None => true,
        Some(t) => {
            let b = crate::text::vec_has_text(active, t.as_str());
            proof {
                if b {
                    let w = choose|w: int| 0 <= w < active@.len() && #[trigger] active@[w]@ == t@;
                    assert(crate::text::texts_of(active@)[w] == t@);
                    assert(active_option_texts(cfg).contains(t@));
                } else {
                    if active_option_texts(cfg).contains(t@) {
                        let w = choose|w: int|
                            0 <= w < active_option_texts(cfg).len() && #[trigger] active_option_texts(
                                cfg,
                            )[w] == t@;
                        assert(crate::text::texts_of(active@)[w] == active@[w]@);
                        assert(crate::text::seq_has_text(active@, t@));
                    }
                }
            }
            b
        },
    }
}

/// Merges one parsed conversion rule: rejects an empty rule and one
/// naming an unknown option; routes its raw C items and its foreign
/// code fragments (after namespace substitution, keeping only the
/// fragments whose guard is absent or active) to their modules; and
/// installs its directional type rules and native edges into the
/// graph.
pub fn merge_rule(ctx: &mut CppContext, rule: &TypeMapConvRuleInfo) -> (r: Result<(), Diagnostic>)
    requires
        old(ctx).wf(),
    ensures
        final(ctx).wf(),
        final(ctx).cfg == old(ctx).cfg,
        final(ctx).src_files == old(ctx).src_files,
        final(ctx).rust_code == old(ctx).rust_code,
        final(ctx).not_merged_rules == old(ctx).not_merged_rules,
        (!rule.spec_is_empty() && crate::rules::rule_options_known(*rule) && rule.c_types is None
            && rule.ftype_left_to_right@.len() == 0 && rule.ftype_right_to_left@.len() == 0)
            ==> r is Ok,
        final(ctx).conv_map.n_len() >= old(ctx).conv_map.n_len(),
        forall|j: int|
            0 <= j < old(ctx).conv_map.n_len() ==> #[trigger] final(ctx).conv_map.ntypes@[j]
                == old(ctx).conv_map.ntypes@[j],
        match r {
            Ok(_) => {
                &&& !rule.spec_is_empty()
            &&& crate::rules::rule_options_known(*rule)
            &&& (rule.c_types is None ==> ({
                let out0 = old(ctx).out;
                let out1 = final(ctx).out;
                let nf = rule.f_code@.len() as int;
                &&& out1.target_pointer_width == out0.target_pointer_width
                &&& out1.files@.len() >= out0.files@.len()
                &&& (forall|j: int|
                    0 <= j < out0.files@.len() ==> (#[trigger] out1.files@[j]).name
                        == out0.files@[j].name && out1.files@[j].defined_items
                        == out0.files@[j].defined_items && out1.files@[j].content@
                        == out0.files@[j].content@ + fcode_append_text(
                        rule.f_code@,
                        out0.files@[j].name@,
                        old(ctx).cfg,
                        nf,
                    ))
                &&& (forall|j: int|
                    out0.files@.len() <= j < out1.files@.len()
                        ==> (#[trigger] out1.files@[j]).defined_items@.len() == 0
                        && out1.files@[j].content@ == crate::out::prologue_text(
                        out0.target_pointer_width as nat,
                    ) + fcode_append_text(rule.f_code@, out1.files@[j].name@, old(ctx).cfg, nf))
            }))
            &&& ({
                let e0 = old(ctx).conv_map.edges@;
                let g = final(ctx).conv_map;
                let n_ltr: int = if rule.rtype_left_to_right is Some {
                    1
                } else {
                    0
                };
                let n_rtl: int = if rule.rtype_right_to_left is Some {
                    1
                } else {
                    0
                };
                &&& g.edges@.len() == e0.len() + n_ltr + n_rtl
                &&& forall|k: int| 0 <= k < e0.len() ==> #[trigger] g.edges@[k] == e0[k]
                &&& (match rule.rtype_left_to_right {
                    Some(rt) => {
                        &&& g.edges@[e0.len() as int].code@ == rt.code@
                    &&& g.ntext(g.edges@[e0.len() as int].from as int) == rt.left_ty@
                    &&& g.ntext(g.edges@[e0.len() as int].to as int) == rt.right_ty@
                    },
                    None => true,
                })
                &&& (match rule.rtype_right_to_left {
                    Some(rt) => {
                        &&& g.edges@[e0.len() + n_ltr].code@ == rt.code@
                    &&& g.ntext(g.edges@[e0.len() + n_ltr].from as int) == rt.right_ty@
                    &&& g.ntext(g.edges@[e0.len() + n_ltr].to as int) == rt.left_ty@
                    },
                    None => true,
                })
            })
            },
            Err(d) => {
                &&& (d.kind == DiagKind::EmptyRule <==> rule.spec_is_empty())
            &&& (d.kind == DiagKind::UnknownOption <==> (!rule.spec_is_empty()
                    && !crate::rules::rule_options_known(*rule)))
            &&& ((d.kind == DiagKind::EmptyRule || d.kind == DiagKind::UnknownOption)
                    ==> *final(ctx) == *old(ctx))
            &&& (d.kind == DiagKind::EmptyRule || d.kind == DiagKind::UnknownOption || d.kind
                    == DiagKind::InvalidIdent || d.kind == DiagKind::ForeignTypeNameConflict
                    || d.kind == DiagKind::DuplicateForeignType)
            },
        },
{
    if rule.is_empty() {
        return Err(
            Diagnostic::new(rule.src_id, rule.span, DiagKind::EmptyRule, "rule is empty".to_owned()),
        );
    }
    match validate_cfg_options(rule) {
        Ok(_) => {},
        Err(d) => {
            return Err(d);
        },
    }
    match &rule.c_types {
        Some(ct) => {
            match merge_c_types(ctx, ct, MergeCItemsFlags::DefineOnlyCItem, rule.src_id) {
                Ok(_) => {},
                Err(d) => {
                    return Err(d);
                },
            }
        },
        None => {},
    }
    let active = ctx.cfg.active_options();
    let ghost cpost = ctx.conv_map;
    let ghost out0 = ctx.out;
    let ghost frags = rule.f_code@;
    let ghost cfg0 = old(ctx).cfg;
    let mut i: usize = 0;
    while i < rule.f_code.len()
        invariant
            ctx.wf(),
            ctx.cfg == old(ctx).cfg,
            ctx.src_files == old(ctx).src_files,
            ctx.rust_code == old(ctx).rust_code,
            ctx.not_merged_rules == old(ctx).not_merged_rules,
            ctx.conv_map == cpost,
            frags == rule.f_code@,
            cfg0 == old(ctx).cfg,
            crate::text::texts_of(active@) == active_option_texts(cfg0),
            ctx.out.target_pointer_width == out0.target_pointer_width,
            ctx.out.files@.len() >= out0.files@.len(),
            i <= rule.f_code@.len(),
            forall|j: int|
                0 <= j < out0.files@.len() ==> (#[trigger] ctx.out.files@[j]).name
                    == out0.files@[j].name && ctx.out.files@[j].defined_items
                    == out0.files@[j].defined_items && ctx.out.files@[j].content@
                    == out0.files@[j].content@ + fcode_append_text(
                    frags,
                    out0.files@[j].name@,
                    cfg0,
                    i as int,
                ),
            forall|j: int|
                out0.files@.len() <= j < ctx.out.files@.len()
                    ==> (#[trigger] ctx.out.files@[j]).defined_items@.len() == 0
                    && ctx.out.files@[j].content@ == crate::out::prologue_text(
                    out0.target_pointer_width as nat,
                ) + fcode_append_text(frags, ctx.out.files@[j].name@, cfg0, i as int),
            forall|p: int| 0 <= p < i ==> ctx.out.has_module((#[trigger] frags[p]).module_name@),
        decreases rule.f_code@.len() - i,
    {
        proof {
            if i == 0 {
                assert forall|j: int|
                    0 <= j < out0.files@.len() implies (#[trigger] ctx.out.files@[j]).content@
                    == out0.files@[j].content@ + fcode_append_text(
                    frags,
                    out0.files@[j].name@,
                    cfg0,
                    0,
                ) by {
                    assert(ctx.out.files@[j].content@ + Seq::<char>::empty()
                        =~= ctx.out.files@[j].content@);
                }
            }
        }
        let fcode = &rule.f_code[i];
        let ghost opre = ctx.out;
        let midx = ctx.out.open_module(fcode.module_name.as_str());
        proof {
            if !opre.has_module(frags[i as int].module_name@) {
                // a fresh module: no earlier fragment routed to it
                assert forall|p: int|
                    0 <= p < i implies (#[trigger] frags[p]).module_name@
                    != frags[i as int].module_name@ by {
                    assert(opre.has_module(frags[p].module_name@));
                }
                lemma_fcode_append_absent(frags, frags[i as int].module_name@, cfg0, i as int);
            }
        }
        let use_fcode = fragment_active(fcode, &active, Ghost(cfg0));
        let ghost omid = ctx.out;
        proof {
            assert(omid.files@[midx as int].name@ == frags[i as int].module_name@);
            if (midx as int) < opre.files@.len() {
                if !opre.has_module(frags[i as int].module_name@) {
                    assert(midx as int == opre.files@.len());
                }
                assert(omid == opre);
            }
        }
        if use_fcode {
            proof {
                reveal_strlit("$RUST_SWIG_USER_NAMESPACE");
            }
            let text = replace_all(
                fcode.code.as_str(),
                "$RUST_SWIG_USER_NAMESPACE",
                ctx.cfg.namespace_name.as_str(),
            );
            ctx.out.write_module(midx, text.as_str());
        }
        proof {
            let name_i = frags[i as int].module_name@;
            assert forall|j: int|
                0 <= j < out0.files@.len() implies (#[trigger] ctx.out.files@[j]).name
                == out0.files@[j].name && ctx.out.files@[j].defined_items
                == out0.files@[j].defined_items && ctx.out.files@[j].content@
                == out0.files@[j].content@ + fcode_append_text(
                frags,
                out0.files@[j].name@,
                cfg0,
                i + 1,
            ) by {
                let nm = out0.files@[j].name@;
                assert(opre.files@[j].name@ == nm);
                if j == midx && use_fcode {
                    assert(omid == opre);
                    assert(nm == name_i);
                    assert(ctx.out.files@[j].content@ =~= out0.files@[j].content@
                        + fcode_append_text(frags, nm, cfg0, i as int) + replace_spec(
                        frags[i as int].code@,
                        "$RUST_SWIG_USER_NAMESPACE"@,
                        cfg0.namespace_name@,
                    ));
                } else {
                    if nm == name_i && fcode_active(frags[i as int], cfg0) {
                        // the routed module can only be midx: names are unique
                        assert(use_fcode);
                        assert(omid.files@[midx as int].name@ == name_i);
                        assert(omid.files@[j].name@ == nm);
                        if j != midx {
                            if j < midx {
                                assert(omid.files@[j].name@ != omid.files@[midx as int].name@);
                            } else {
                                assert(omid.files@[midx as int].name@ != omid.files@[j].name@);
                            }
                        }
                    }
                    assert(ctx.out.files@[j] == omid.files@[j]);
                    assert(omid.files@[j] == opre.files@[j]) by {
                        if (midx as int) < opre.files@.len() {
                        } else {
                            assert(omid.files@[j] == opre.files@[j]);
                        }
                    }
                }
            }
            assert forall|j: int|
                out0.files@.len() <= j < ctx.out.files@.len()
                    implies (#[trigger] ctx.out.files@[j]).defined_items@.len() == 0
                && ctx.out.files@[j].content@ == crate::out::prologue_text(
                out0.target_pointer_width as nat,
            ) + fcode_append_text(frags, ctx.out.files@[j].name@, cfg0, i + 1) by {
                let nm = ctx.out.files@[j].name@;
                if j == midx && use_fcode {
                    assert(omid.files@[midx as int].name@ == name_i);
                    assert(nm == name_i);
                    if (midx as int) < opre.files@.len() {
                        assert(omid.files@[j].content@ == crate::out::prologue_text(
                            out0.target_pointer_width as nat,
                        ) + fcode_append_text(frags, name_i, cfg0, i as int));
                    } else {
                        assert(omid.files@[j].content@ == crate::out::prologue_text(
                            out0.target_pointer_width as nat,
                        ));
                        assert(fcode_append_text(frags, name_i, cfg0, i as int)
                            == Seq::<char>::empty());
                        assert(omid.files@[j].content@ =~= crate::out::prologue_text(
                            out0.target_pointer_width as nat,
                        ) + fcode_append_text(frags, name_i, cfg0, i as int));
                    }
                    assert(ctx.out.files@[j].content@ =~= crate::out::prologue_text(
                        out0.target_pointer_width as nat,
                    ) + fcode_append_text(frags, nm, cfg0, i as int) + replace_spec(
                        frags[i as int].code@,
                        "$RUST_SWIG_USER_NAMESPACE"@,
                        cfg0.namespace_name@,
                    ));
                } else {
                    if j < omid.files@.len() {
                        assert(ctx.out.files@[j] == omid.files@[j]);
                        if nm == name_i && fcode_active(frags[i as int], cfg0) {
                            assert(use_fcode);
                            assert(omid.files@[midx as int].name@ == name_i);
                            if j != midx {
                                if j < midx {
                                    assert(omid.files@[j].name@
                                        != omid.files@[midx as int].name@);
                                } else {
                                    assert(omid.files@[midx as int].name@
                                        != omid.files@[j].name@);
                                }
                            }
                        }
                        if j < opre.files@.len() {
                            assert(omid.files@[j] == opre.files@[j]) by {
                                if (midx as int) >= opre.files@.len() {
                                }
                            }
                            assert(opre.files@[j].content@ == crate::out::prologue_text(
                                out0.target_pointer_width as nat,
                            ) + fcode_append_text(frags, opre.files@[j].name@, cfg0, i as int));
                        } else {
                            // created by this iteration's open: midx == j
                            assert(j == midx as int);
                            assert(omid.files@[j].content@ == crate::out::prologue_text(
                                out0.target_pointer_width as nat,
                            ));
                            assert(fcode_append_text(frags, name_i, cfg0, i as int)
                                == Seq::<char>::empty());
                            assert(!use_fcode || nm != name_i || !fcode_active(
                                frags[i as int],
                                cfg0,
                            ));
                            assert(ctx.out.files@[j].content@ =~= crate::out::prologue_text(
                                out0.target_pointer_width as nat,
                            ) + fcode_append_text(frags, nm, cfg0, i as int));
                        }
                    }
                }
            }
            assert forall|p: int|
                0 <= p < i + 1 implies ctx.out.has_module((#[trigger] frags[p]).module_name@) by {
                if p < i {
                    let w = choose|w: int|
                        0 <= w < opre.files@.len() && #[trigger] opre.files@[w].name@
                            == frags[p].module_name@;
                    assert(omid.files@[w] == opre.files@[w]) by {
                        if (midx as int) >= opre.files@.len() {
                        }
                    }
                    assert(ctx.out.files@[w].name == omid.files@[w].name);
                    assert(ctx.out.files@[w].name@ == frags[p].module_name@);
                } else {
                    assert(omid.files@[midx as int].name@ == frags[p].module_name@);
                    assert(ctx.out.files@[midx as int].name == omid.files@[midx as int].name);
                    assert(ctx.out.files@[midx as int].name@ == frags[p].module_name@);
                }
            }
        }
        i += 1;
    }
    match configure_ftype_rule(&rule.ftype_left_to_right, &active) {
        Some(arm) => {
            match install_ftype_arm(&mut ctx.conv_map, arm, true, rule.src_id, rule.span) {
                Ok(_) => {},
                Err(d) => {
                    return Err(d);
                },
            }
        },
        None => {},
    }
    match configure_ftype_rule(&rule.ftype_right_to_left, &active) {
        Some(arm) => {
            match install_ftype_arm(&mut ctx.conv_map, arm, false, rule.src_id, rule.span) {
                Ok(_) => {},
                Err(d) => {
                    return Err(d);
                },
            }
        },
        None => {},
    }
    match &rule.rtype_left_to_right {
        Some(rt) => {
            let l = ctx.conv_map.find_or_alloc_native(rt.left_ty.as_str(), rule.src_id);
            let rr = ctx.conv_map.find_or_alloc_native(rt.right_ty.as_str(), rule.src_id);
            ctx.conv_map.add_conversion(l, rr, rt.code.clone());
        },
        None => {},
    }
    match &rule.rtype_right_to_left {
        Some(rt) => {
            let l = ctx.conv_map.find_or_alloc_native(rt.left_ty.as_str(), rule.src_id);
            let rr = ctx.conv_map.find_or_alloc_native(rt.right_ty.as_str(), rule.src_id);
            ctx.conv_map.add_conversion(rr, l, rt.code.clone());
        },
        None => {},
    }
    Ok(())
}

/// Prepares a run: requires the output directory (checked by the
/// caller, who owns the file system), allocates the enum ABI carrier
/// type, renders the prelude snippets after namespace substitution,
/// and merges every not-yet-merged rule the seeded map holds.
#[verifier::loop_isolation(false)]
pub fn init(ctx: &mut CppContext, code: &Vec<SourceCode>, output_dir_ok: bool) -> (r: Result<
    (),
    Diagnostic,
>)
    requires
        old(ctx).wf(),
    ensures
        final(ctx).wf(),
        final(ctx).cfg == old(ctx).cfg,
        final(ctx).rust_code == old(ctx).rust_code,
        !output_dir_ok <==> (r is Err && r->Err_0.kind == DiagKind::MissingOutputDir),
        output_dir_ok && old(ctx).not_merged_rules@.len() == 0 ==> r is Ok,
        r is Ok ==> final(ctx).not_merged_rules@.len() == 0 && final(ctx).conv_map.has_native(
            "u32"@,
        ),
        r is Ok ==> final(ctx).src_files@.len() == old(ctx).src_files@.len() + code@.len()
            && forall|i: int|
            0 <= i < code@.len() ==> (#[trigger] final(ctx).src_files@[old(
                ctx,
            ).src_files@.len() + i]).name@ == code@[i].id_of_code@ && final(ctx).src_files@[old(
                ctx,
            ).src_files@.len() + i].content@ == replace_spec(
                code@[i].code@,
                "RUST_SWIG_USER_NAMESPACE"@,
                old(ctx).cfg.namespace_name@,
            ),
    decreases 1int,
{
    if !output_dir_ok {
        let mut msg = "Path ".to_owned();
        msg.append(ctx.cfg.output_dir.as_str());
        msg.append(" not exists or not directory");
        return Err(
            Diagnostic::new(0, (crate::Span { lo: 0, hi: 0 }), DiagKind::MissingOutputDir, msg),
        );
    }
    let u32_idx = ctx.conv_map.find_or_alloc_native("u32", 0);
    proof {
        assert(ctx.conv_map.ntext(u32_idx as int) == "u32"@);
        assert(ctx.conv_map.has_native("u32"@));
    }
    let ghost base = ctx.src_files@.len();
    let ghost ns = ctx.cfg.namespace_name@;
    let mut i: usize = 0;
    while i < code.len()
        invariant
            ctx.wf(),
            i <= code@.len(),
            ctx.cfg == old(ctx).cfg,
            ctx.rust_code == old(ctx).rust_code,
            ctx.not_merged_rules == old(ctx).not_merged_rules,
            ctx.conv_map.has_native("u32"@),
            ctx.cfg.namespace_name@ == ns,
            ctx.src_files@.len() == base + i,
            forall|k: int|
                0 <= k < base ==> #[trigger] ctx.src_files@[k] == old(ctx).src_files@[k],
            forall|k: int|
                0 <= k < i ==> (#[trigger] ctx.src_files@[base + k]).name@ == code@[k].id_of_code@
                    && ctx.src_files@[base + k].content@ == replace_spec(
                    code@[k].code@,
                    "RUST_SWIG_USER_NAMESPACE"@,
                    ns,
                ),
        decreases code@.len() - i,
    {
        let cu = &code[i];
        proof {
            reveal_strlit("RUST_SWIG_USER_NAMESPACE");
        }
        let content = replace_all(
            cu.code.as_str(),
            "RUST_SWIG_USER_NAMESPACE",
            ctx.cfg.namespace_name.as_str(),
        );
        ctx.src_files.push(WriteAction { name: cu.id_of_code.clone(), content });
        i += 1;
    }
    let mut rules: Vec<TypeMapConvRuleInfo> = Vec::new();
    core::mem::swap(&mut rules, &mut ctx.not_merged_rules);
    let mut j: usize = 0;
    while j < rules.len()
        invariant
            ctx.wf(),
            j <= rules@.len(),
            ctx.cfg == old(ctx).cfg,
            ctx.rust_code == old(ctx).rust_code,
            ctx.not_merged_rules@.len() == 0,
            ctx.conv_map.has_native("u32"@),
            ctx.cfg.namespace_name@ == ns,
            ctx.src_files@.len() == base + code@.len(),
            forall|k: int|
                0 <= k < base ==> #[trigger] ctx.src_files@[k] == old(ctx).src_files@[k],
            forall|k: int|
                0 <= k < code@.len() ==> (#[trigger] ctx.src_files@[base + k]).name@
                    == code@[k].id_of_code@ && ctx.src_files@[base + k].content@ == replace_spec(
                    code@[k].code@,
                    "RUST_SWIG_USER_NAMESPACE"@,
                    ns,
                ),
        decreases rules@.len() - j,
    {
        let ghost cpre = ctx.conv_map;
        match merge_rule(ctx, &rules[j]) {
            Ok(_) => {},
            Err(d) => {
                return Err(d);
            },
        }
        proof {
            crate::graph::lemma_native_preserved(cpre, ctx.conv_map, "u32"@);
        }
        j += 1;
    }
    Ok(())
}


/// The output of one C/C++ expansion run: the native glue items, the
/// per-module header buffers, the rendered prelude files, the
/// warnings, and whether the caller asked for stale files to be
/// removed.
pub struct CppExpandOutput {
    pub rust_code: Vec<String>,
    pub modules: OutputModules,
    pub src_files: Vec<WriteAction>,
    pub warnings: Vec<String>,
    pub remove_stale: bool,
    /// The graph after rule merging and class registration, for the
    /// per-item emitters that consume what the core feeds.
    pub conv_map: TypeGraph,
}

impl CppConfig {
    /// Expands a run of items for the C/C++ target: prepares the run
    /// (prelude files, seeded rules), registers every class before any
    /// generation so forward references resolve, and hands back the
    /// buffers for the caller to flush against the disk.  The per-item
    /// C++ textual emitters stand outside this core and consume what
    /// the graph and the buffers hold.
    #[verifier::loop_isolation(false)]
    pub fn expand_items(
        self,
        conv_map: TypeGraph,
        not_merged_rules: Vec<TypeMapConvRuleInfo>,
        target_pointer_width: u64,
        code: &Vec<SourceCode>,
        items: &Vec<ItemToExpand>,
        output_dir_ok: bool,
        remove_not_generated_files: bool,
    ) -> (r: Result<CppExpandOutput, Diagnostic>)
        requires
            conv_map.wf(),
        ensures
            output_dir_ok && not_merged_rules@.len() == 0 && items@.len() == 0 ==> r is Ok,
            match r {
                Ok(out) => {
                    &&& output_dir_ok
                &&& out.modules.wf()
                &&& out.conv_map.wf()
                &&& out.remove_stale == remove_not_generated_files
                &&& (forall|i: int|
                        0 <= i < items@.len() ==> (match #[trigger] items@[i] {
                            ItemToExpand::Class(c) => c.self_desc is Some
                                ==> out.conv_map.has_foreign_name(c.name@)
                                && out.conv_map.has_foreign_name(
                                crate::registrar::ptr_image_name_text(c.name@),
                            ) && out.conv_map.has_foreign_name(
                                crate::registrar::ref_image_name_text(c.name@),
                            ),
                            _ => true,
                        }))
                &&& out.rust_code@.len() == 0
                &&& out.src_files@.len() == code@.len()
                &&& forall|i: int|
                        0 <= i < code@.len() ==> (#[trigger] out.src_files@[i]).name@
                            == code@[i].id_of_code@ && out.src_files@[i].content@ == replace_spec(
                            code@[i].code@,
                            "RUST_SWIG_USER_NAMESPACE"@,
                            self.namespace_name@,
                        )
                },
                Err(d) => (d.kind == DiagKind::MissingOutputDir <==> !output_dir_ok),
            },
    {
        let mut ctx = CppContext {
            cfg: self,
            conv_map,
            out: OutputModules::new(target_pointer_width),
            rust_code: Vec::new(),
            src_files: Vec::new(),
            not_merged_rules,
        };
        match init(&mut ctx, code, output_dir_ok) {
            Ok(_) => {},
            Err(d) => {
                return Err(d);
            },
        }
        let mut warnings: Vec<String> = Vec::new();
        let ghost post_init = ctx;
        let mut i: usize = 0;
        while i < items.len()
            invariant
                ctx.wf(),
                ctx.cfg == post_init.cfg,
                ctx.src_files == post_init.src_files,
                ctx.rust_code == post_init.rust_code,
                ctx.out == post_init.out,
                i <= items@.len(),
                forall|i2: int|
                    0 <= i2 < i ==> (match #[trigger] items@[i2] {
                        ItemToExpand::Class(c) => c.self_desc is Some
                            ==> ctx.conv_map.has_foreign_name(c.name@)
                            && ctx.conv_map.has_foreign_name(
                            crate::registrar::ptr_image_name_text(c.name@),
                        ) && ctx.conv_map.has_foreign_name(
                            crate::registrar::ref_image_name_text(c.name@),
                        ),
                        _ => true,
                    }),
            decreases items@.len() - i,
        {
            let ghost gpre = ctx.conv_map;
            match &items[i] {
                ItemToExpand::Class(fclass) => {
                    match register_class(&mut ctx.conv_map, fclass) {
                        Ok(w) => {
                            crate::sig::extend_strings(&mut warnings, &w);
                        },
                        Err(d) => {
                            proof {
                                assert(d.kind != DiagKind::MissingOutputDir);
                            }
                            return Err(d);
                        },
                    }
                },
                ItemToExpand::Enum(fenum) => {
                    ctx.conv_map.find_or_alloc_native(fenum.name.as_str(), fenum.src_id);
                },
                ItemToExpand::Interface(_) => {},
            }
            proof {
                assert forall|i2: int|
                    0 <= i2 < i + 1 implies (match #[trigger] items@[i2] {
                    ItemToExpand::Class(c) => c.self_desc is Some
                        ==> ctx.conv_map.has_foreign_name(c.name@)
                        && ctx.conv_map.has_foreign_name(
                        crate::registrar::ptr_image_name_text(c.name@),
                    ) && ctx.conv_map.has_foreign_name(
                        crate::registrar::ref_image_name_text(c.name@),
                    ),
                    _ => true,
                }) by {
                    if i2 < i {
                        match items@[i2] {
                            ItemToExpand::Class(c) => {
                                if c.self_desc is Some {
                                    crate::graph::lemma_foreign_name_preserved(
                                        gpre,
                                        ctx.conv_map,
                                        c.name@,
                                    );
                                    crate::graph::lemma_foreign_name_preserved(
                                        gpre,
                                        ctx.conv_map,
                                        crate::registrar::ptr_image_name_text(c.name@),
                                    );
                                    crate::graph::lemma_foreign_name_preserved(
                                        gpre,
                                        ctx.conv_map,
                                        crate::registrar::ref_image_name_text(c.name@),
                                    );
                                }
                            },
                            _ => {},
                        }
                    }
                }
            }
            i += 1;
        }
        proof {
            assert(ctx.rust_code@.len() == 0);
            assert(ctx.src_files@.len() == code@.len());
            assert forall|k: int|
                0 <= k < code@.len() implies (#[trigger] ctx.src_files@[k]).name@
                == code@[k].id_of_code@ && ctx.src_files@[k].content@ == replace_spec(
                code@[k].code@,
                "RUST_SWIG_USER_NAMESPACE"@,
                self.namespace_name@,
            ) by {
                assert((post_init.src_files@[0 + k]).name@ == code@[k].id_of_code@);
                assert(post_init.src_files@[0 + k].content@ == replace_spec(
                    code@[k].code@,
                    "RUST_SWIG_USER_NAMESPACE"@,
                    self.namespace_name@,
                ));
                assert(ctx.src_files@[k] == post_init.src_files@[k]);
            }
        }
        Ok(
            CppExpandOutput {
                rust_code: ctx.rust_code,
                modules: ctx.out,
                src_files: ctx.src_files,
                warnings,
                remove_stale: remove_not_generated_files,
                conv_map: ctx.conv_map,
            },
        )
    }
}

} // verus!
