//! The class registrar: installs each class's self-storage type into
//! the type graph with the capability set its flags call for, and
//! rejects the attribute combinations the rules forbid.
use vstd::prelude::*;

verus! {

use crate::diag::{DiagKind, Diagnostic};
use crate::ext::{canon_type_of, canonical_type_text};
use crate::graph::{ConvRule, ForeignTypeRec, Intermediate, TypeGraph};
use crate::text::opt_text;
use crate::types::ForeignClassInfo;

/// The inner type of a smart-pointer type text: for canonical token
/// text `"Rc < T >"` and pointer name `"Rc"`, the text of `T`.
pub open spec fn sp_inner_spec(text: Seq<char>, ptr_name: Seq<char>) -> Option<Seq<char>> {
    let pre = ptr_name + " < "@;
    if text.len() > pre.len() + 2 && text.subrange(0, pre.len() as int) == pre && text.subrange(
        text.len() - 2,
        text.len() as int,
    ) == " >"@ {
        Some(text.subrange(pre.len() as int, text.len() - 2))
    } else {
        None
    }
}

/// Extracts the inner type from a smart-pointer type text.
pub fn smart_pointer_inner(text: &str, ptr_name: &str) -> (r: Option<String>)
    ensures
        opt_text(r) == sp_inner_spec(text@, ptr_name@),
{
    let mut pre = ptr_name.to_owned();
    pre.append(" < ");
    let tlen: usize = text.unicode_len();
    let plen: usize = pre.as_str().unicode_len();
    if tlen <= plen || tlen - plen <= 2 {
        return None;
    }
    let starts = crate::text::str_starts_with(text, pre.as_str());
    let ends = crate::text::str_ends_with(text, " >");
    proof {
        reveal_strlit(" >");
    }
    if starts && ends {
        let inner = text.substring_char(plen, tlen - 2);
        Some(inner.to_owned())
    } else {
        None
    }
}

/// What registering a class must produce: `None` for success, or the
/// kind of the diagnostic it is refused with.  The checks run in this
/// order: class shape, storage type text, duplicate registration,
/// shared-pointer storage shape, clash with a declared `clone`.
pub open spec fn register_outcome(g: TypeGraph, class: ForeignClassInfo) -> Option<DiagKind> {
    if !class.spec_valid_class() {
        Some(DiagKind::InvalidClass)
    } else {
        match class.self_desc {
            None => None,
            Some(sd) => {
                match canon_type_of(sd.constructor_ret_type@) {
                    None => Some(DiagKind::InvalidTypeText),
                    Some(canon) => {
                        if g.has_foreign_name(class.name@) || g.has_foreign_name(
                            ptr_image_name_text(class.name@),
                        ) || g.has_foreign_name(ref_image_name_text(class.name@)) {
                            Some(DiagKind::DuplicateForeignType)
                        } else if class.smart_ptr_copy_derived && sp_inner_spec(canon, "Rc"@)
                            is None && sp_inner_spec(canon, "Arc"@) is None {
                            Some(DiagKind::SmartPtrCopyWrongType)
                        } else if class.smart_ptr_copy_derived && class.spec_has_method_named(
                            "clone"@,
                        ) {
                            Some(DiagKind::SmartPtrCopyHasClone)
                        } else {
                            None
                        }
                    },
                }
            },
        }
    }
}

/// The name of the owning-pointer foreign image of a class.
pub open spec fn ptr_image_name_text(class_name: Seq<char>) -> Seq<char> {
    "/* "@ + class_name + " */ IntPtr"@
}

/// The name of the reference foreign image of a class.
pub open spec fn ref_image_name_text(class_name: Seq<char>) -> Seq<char> {
    "/* ref "@ + class_name + " */ IntPtr"@
}

/// The storage type's capability set after registration: exactly the
/// flag-derived names, joined with whatever the entry already carried.
pub open spec fn storage_traits_ok(
    g0: TypeGraph,
    g1: TypeGraph,
    class: ForeignClassInfo,
    canon: Seq<char>,
) -> bool {
    exists|n: int|
        0 <= n < g1.n_len() && #[trigger] g1.ntext(n) == canon && (forall|t: Seq<char>|
            #[trigger] crate::text::seq_has_text(g1.ntypes@[n].traits@, t) <==> (
            crate::text::texts_contain(traits_for_class(class), t) || (
            match crate::sig::spec_first_native(g0, canon, 0) {
                Some(m) => crate::text::seq_has_text(g0.ntypes@[m].traits@, t),
                None => false,
            })))
}

/// The capability names a class's flags assemble, in order: the
/// foreign-class marker always; `Clone` when cloning or copying is
/// derived; `Copy` when copying is; the shared-pointer marker when
/// shared-pointer copying is.
pub open spec fn traits_for_class(class: ForeignClassInfo) -> Seq<Seq<char>> {
    let base = seq!["SwigForeignClass"@];
    let base = if class.clone_derived || class.copy_derived {
        base.push("Clone"@)
    } else {
        base
    };
    let base = if class.copy_derived {
        base.push("Copy"@)
    } else {
        base
    };
    if class.smart_ptr_copy_derived {
        base.push("SmartPtrCopy"@)
    } else {
        base
    }
}

/// Builds the capability list for a class.
fn build_traits(class: &ForeignClassInfo) -> (r: Vec<String>)
    ensures
        crate::text::texts_of(r@) == traits_for_class(*class),
{
    let mut r: Vec<String> = Vec::new();
    r.push("SwigForeignClass".to_owned());
    if class.clone_derived || class.copy_derived {
        r.push("Clone".to_owned());
    }
    if class.copy_derived {
        r.push("Copy".to_owned());
    }
    if class.smart_ptr_copy_derived {
        r.push("SmartPtrCopy".to_owned());
    }
    proof {
        assert(crate::text::texts_of(r@) =~= traits_for_class(*class));
    }
    r
}

/// Builds the owning-pointer image name of a class.
fn ptr_image_name(class_name: &str) -> (r: String)
    ensures
        r@ == ptr_image_name_text(class_name@),
{
    let mut s = "/* ".to_owned();
    s.append(class_name);
    s.append(" */ IntPtr");
    proof {
        assert(s@ =~= ptr_image_name_text(class_name@));
    }
    s
}

/// Builds the reference image name of a class.
fn ref_image_name(class_name: &str) -> (r: String)
    ensures
        r@ == ref_image_name_text(class_name@),
{
    let mut s = "/* ref ".to_owned();
    s.append(class_name);
    s.append(" */ IntPtr");
    proof {
        assert(s@ =~= ref_image_name_text(class_name@));
    }
    s
}

/// Registers a class's self-storage type into the graph with the
/// capability set its flags call for, installs its direct, reference
/// and owning-pointer foreign images, and rejects the flag
/// combinations the rules forbid.  On success the returned list holds
/// the warnings of the run: one when `Copy` is ignored because
/// shared-pointer copying is also derived.
#[verifier::loop_isolation(false)]
#[verifier::rlimit(30)]
pub fn register_class(conv_map: &mut TypeGraph, class: &ForeignClassInfo) -> (r: Result<
    Vec<String>,
    Diagnostic,
>)
    requires
        old(conv_map).wf(),
    ensures
        final(conv_map).wf(),
        final(conv_map).ftypes@.len() >= old(conv_map).ftypes@.len(),
        forall|f: int|
            0 <= f < old(conv_map).ftypes@.len() ==> #[trigger] final(conv_map).ftypes@[f] == old(
                conv_map,
            ).ftypes@[f],
        match r {
            Ok(warnings) => {
                &&& register_outcome(*old(conv_map), *class) is None
            &&& warnings@.len() == (if class.self_desc is Some && class.copy_derived
                    && class.smart_ptr_copy_derived {
                    1int
                } else {
                    0int
                })
            &&& (class.self_desc is Some ==> final(conv_map).has_foreign_name(class.name@)
                    && final(conv_map).has_foreign_name(ptr_image_name_text(class.name@))
                    && final(conv_map).has_foreign_name(ref_image_name_text(class.name@)))
            &&& (match class.self_desc {
                    Some(sd) => storage_traits_ok(
                        *old(conv_map),
                        *final(conv_map),
                        *class,
                        crate::ext::canon_type_of(sd.constructor_ret_type@)->0,
                    ),
                    None => true,
                })
            },
            Err(d) => {
                &&& Some(d.kind) == register_outcome(*old(conv_map), *class)
            &&& *final(conv_map) == *old(conv_map)
            },
        },
{
    if !class.validate_class() {
        return Err(
            Diagnostic::new(
                class.src_id,
                class.span,
                DiagKind::InvalidClass,
                "class shape is invalid: a static class cannot declare a constructor".to_owned(),
            ),
        );
    }
    let mut warnings: Vec<String> = Vec::new();
    match &class.self_desc {
        Some(self_desc) => {
            let canon = match canonical_type_text(self_desc.constructor_ret_type.as_str()) {
                Some(c) => c,
                None => {
                    return Err(
                        Diagnostic::new(
                            class.src_id,
                            class.span,
                            DiagKind::InvalidTypeText,
                            "constructor return type does not parse as a type".to_owned(),
                        ),
                    );
                },
            };
            let ptr_name = ptr_image_name(class.name.as_str());
            let ref_name = ref_image_name(class.name.as_str());
            if conv_map.find_foreign_by_name(class.name.as_str()).is_some()
                || conv_map.find_foreign_by_name(ptr_name.as_str()).is_some()
                || conv_map.find_foreign_by_name(ref_name.as_str()).is_some() {
                return Err(
                    Diagnostic::new(
                        class.src_id,
                        class.span,
                        DiagKind::DuplicateForeignType,
                        "class is already registered".to_owned(),
                    ),
                );
            }
            if class.smart_ptr_copy_derived {
                if class.copy_derived {
                    let mut w = "class ".to_owned();
                    w.append(class.name.as_str());
                    w.append(" marked as Copy and SmartPtrCopy, ignore Copy");
                    warnings.push(w);
                }
                if smart_pointer_inner(canon.as_str(), "Rc").is_none() && smart_pointer_inner(
                    canon.as_str(),
                    "Arc",
                ).is_none() {
                    let mut msg = "class ".to_owned();
                    msg.append(class.name.as_str());
                    msg.append(" marked as SmartPtrCopy, but type '");
                    msg.append(canon.as_str());
                    msg.append("' is not Arc<> or Rc<>");
                    return Err(
                        Diagnostic::new(
                            class.src_id,
                            class.span,
                            DiagKind::SmartPtrCopyWrongType,
                            msg,
                        ),
                    );
                }
                if class.has_method_named("clone") {
                    let mut msg = "class ".to_owned();
                    msg.append(class.name.as_str());
                    msg.append(
                        " marked as SmartPtrCopy, but has clone method. Error: can not generate clone method.",
                    );
                    return Err(
                        Diagnostic::new(
                            class.src_id,
                            class.span,
                            DiagKind::SmartPtrCopyHasClone,
                            msg,
                        ),
                    );
                }
            }
            let traits = build_traits(class);
            let ghost gpre_traits = *conv_map;
            let this_type = conv_map.find_or_alloc_native_with_traits(
                canon.as_str(),
                &traits,
                class.src_id,
            );
            proof {
                assert(gpre_traits == *old(conv_map));
                assert forall|t: Seq<char>|
                    #[trigger] crate::text::seq_has_text(
                        conv_map.ntypes@[this_type as int].traits@,
                        t,
                    ) <==> (crate::text::texts_contain(traits_for_class(*class), t) || (
                    match crate::sig::spec_first_native(*old(conv_map), canon@, 0) {
                        Some(m) => crate::text::seq_has_text(
                            old(conv_map).ntypes@[m].traits@,
                            t,
                        ),
                        None => false,
                    })) by {
                    // the given names' texts are the flag-derived set
                    if crate::text::seq_has_text(traits@, t) {
                        let w = choose|w: int|
                            0 <= w < traits@.len() && #[trigger] traits@[w]@ == t;
                        assert(crate::text::texts_of(traits@)[w] == t);
                        assert(crate::text::texts_contain(traits_for_class(*class), t));
                    }
                    if crate::text::texts_contain(traits_for_class(*class), t) {
                        let w = choose|w: int|
                            0 <= w < traits_for_class(*class).len()
                                && #[trigger] traits_for_class(*class)[w] == t;
                        assert(crate::text::texts_of(traits@)[w] == traits@[w]@);
                        assert(crate::text::seq_has_text(traits@, t));
                    }
                    // a pre-existing entry is the first index holding the text
                    if old(conv_map).has_native(canon@) {
                        assert(this_type < old(conv_map).n_len());
                        let j = choose|j: int|
                            0 <= j < old(conv_map).n_len() && #[trigger] old(conv_map).ntext(j)
                                == canon@;
                        if j != this_type {
                            assert(conv_map.ntypes@[j] == old(conv_map).ntypes@[j]);
                            assert(conv_map.ntext(j) == canon@);
                            crate::graph::lemma_native_index_unique(
                                *conv_map,
                                j,
                                this_type as int,
                            );
                        }
                        assert(old(conv_map).ntext(this_type as int) == canon@);
                        crate::sig::lemma_first_native_unique(
                            *old(conv_map),
                            canon@,
                            this_type as int,
                            0,
                        );
                    } else {
                        crate::sig::lemma_first_native_none(*old(conv_map), canon@, 0);
                    }
                }
            }
            let ghost traits_entry = conv_map.ntypes@[this_type as int];
            let mut ptr_ty_text = "* mut ".to_owned();
            ptr_ty_text.append(canon.as_str());
            let ptr_ty = conv_map.find_or_alloc_native(ptr_ty_text.as_str(), class.src_id);
            let mut ref_ty_text = "& ".to_owned();
            ref_ty_text.append(canon.as_str());
            let ref_ty = conv_map.find_or_alloc_native(ref_ty_text.as_str(), class.src_id);
            let mut out_conv = "new ".to_owned();
            out_conv.append(class.name.as_str());
            out_conv.append("({from_var})");
            let direct_image = ForeignTypeRec {
                name: class.name.clone(),
                provides_by_module: Vec::new(),
                into_from_rust: Some(
                    ConvRule {
                        rust_ty: this_type,
                        intermediate: Some(
                            Intermediate {
                                intermediate_ty: ptr_ty,
                                conv_code: out_conv,
                                input_to_output: false,
                            },
                        ),
                    },
                ),
                from_into_rust: Some(
                    ConvRule {
                        rust_ty: this_type,
                        intermediate: Some(
                            Intermediate {
                                intermediate_ty: ptr_ty,
                                conv_code: "{from_var}.nativePtr".to_owned(),
                                input_to_output: false,
                            },
                        ),
                    },
                ),
                name_prefix: None,
                src_id: class.src_id,
                span: class.span,
            };
            proof {
                reveal_strlit("/* ");
                reveal_strlit("/* ref ");
                reveal_strlit(" */ IntPtr");
                assert(ptr_image_name_text(class.name@).len() == class.name@.len() + 13);
                assert(ref_image_name_text(class.name@).len() == class.name@.len() + 17);
            }
            let ghost di = direct_image;
            let ghost g0 = *conv_map;
            match conv_map.alloc_foreign(direct_image) {
                Ok(_) => {},
                Err(d) => {
                    proof {
                        assert(false);
                    }
                    return Err(d);
                },
            }
            let ptr_image = ForeignTypeRec {
                name: ptr_name,
                provides_by_module: Vec::new(),
                into_from_rust: Some(ConvRule { rust_ty: ptr_ty, intermediate: None }),
                from_into_rust: Some(ConvRule { rust_ty: ptr_ty, intermediate: None }),
                name_prefix: None,
                src_id: class.src_id,
                span: class.span,
            };
            let ghost g1 = *conv_map;
            let ghost pi = ptr_image;
            match conv_map.alloc_foreign(ptr_image) {
                Ok(_) => {},
                Err(d) => {
                    proof {
                        reveal_strlit("/* ");
                        reveal_strlit(" */ IntPtr");
                        let pname = ptr_image_name_text(class.name@);
                        let w = choose|f: int|
                            0 <= f < g1.ftypes@.len() && #[trigger] g1.ftypes@[f].name@ == pname;
                        assert(g1.ftypes@ == g0.ftypes@.push(di));
                        if w < g0.ftypes@.len() {
                            assert(g1.ftypes@[w] == g0.ftypes@[w]);
                            assert(g0.ftypes@[w].name@ == old(conv_map).ftypes@[w].name@);
                            assert(old(conv_map).has_foreign_name(pname));
                        } else {
                            assert(g1.ftypes@[w].name@ == class.name@);
                            assert(pname.len() == class.name@.len() + 13);
                        }
                        assert(false);
                    }
                    return Err(d);
                },
            }
            let ref_image = ForeignTypeRec {
                name: ref_name,
                provides_by_module: Vec::new(),
                into_from_rust: Some(ConvRule { rust_ty: ref_ty, intermediate: None }),
                from_into_rust: Some(ConvRule { rust_ty: ref_ty, intermediate: None }),
                name_prefix: None,
                src_id: class.src_id,
                span: class.span,
            };
            let ghost g2 = *conv_map;
            match conv_map.alloc_foreign(ref_image) {
                Ok(_) => {},
                Err(d) => {
                    proof {
                        reveal_strlit("/* ");
                        reveal_strlit("/* ref ");
                        reveal_strlit(" */ IntPtr");
                        let rname = ref_image_name_text(class.name@);
                        let w = choose|f: int|
                            0 <= f < g2.ftypes@.len() && #[trigger] g2.ftypes@[f].name@ == rname;
                        assert(g2.ftypes@ == g0.ftypes@.push(di).push(pi));
                        if w < g0.ftypes@.len() {
                            assert(g2.ftypes@[w] == g0.ftypes@[w]);
                            assert(g0.ftypes@[w].name@ == old(conv_map).ftypes@[w].name@);
                            assert(old(conv_map).has_foreign_name(rname));
                        } else if w == g0.ftypes@.len() {
                            assert(g2.ftypes@[w].name@ == class.name@);
                            assert(rname.len() == class.name@.len() + 17);
                        } else {
                            assert(g2.ftypes@[w].name@ == ptr_image_name_text(class.name@));
                            assert(rname.len() == ptr_image_name_text(class.name@).len() + 4);
                        }
                        assert(false);
                    }
                    return Err(d);
                },
            }
            let box_conv = "let {to_var} = Box::into_raw(Box::new({from_var}));".to_owned();
            conv_map.add_conversion(this_type, ptr_ty, box_conv);
            let mut unbox_conv = "let {to_var} = un".to_owned();
            unbox_conv.append("safe { *Box::from_raw({from_var}) };");
            conv_map.add_conversion(ptr_ty, this_type, unbox_conv);
            let mut deref_conv = "let {to_var} = un".to_owned();
            deref_conv.append("safe { &*{from_var} };");
            conv_map.add_conversion(ptr_ty, ref_ty, deref_conv);
            let ghost g3 = *conv_map;
            proof {
                assert(g3.ftypes@[g3.ftypes@.len() - 3].name@ == class.name@);
                assert(g3.ftypes@[g3.ftypes@.len() - 2].name@ == ptr_image_name_text(
                    class.name@,
                ));
                assert(g3.ftypes@[g3.ftypes@.len() - 1].name@ == ref_image_name_text(
                    class.name@,
                ));
                assert(g3.has_foreign_name(class.name@));
                assert(g3.has_foreign_name(ptr_image_name_text(class.name@)));
                assert(g3.has_foreign_name(ref_image_name_text(class.name@)));
            }
            conv_map.find_or_alloc_native(class.self_type_as_ty(), class.src_id);
            proof {
                assert(conv_map.ntypes@[this_type as int] == traits_entry);
                assert(conv_map.ntext(this_type as int) == canon@);
                assert(storage_traits_ok(*old(conv_map), *conv_map, *class, canon@));
                crate::graph::lemma_foreign_name_preserved(g3, *conv_map, class.name@);
                crate::graph::lemma_foreign_name_preserved(
                    g3,
                    *conv_map,
                    ptr_image_name_text(class.name@),
                );
                crate::graph::lemma_foreign_name_preserved(
                    g3,
                    *conv_map,
                    ref_image_name_text(class.name@),
                );
            }
            Ok(warnings)
        },
        None => {
            conv_map.find_or_alloc_native(class.self_type_as_ty(), class.src_id);
            Ok(warnings)
        },
    }
}

} // verus!
