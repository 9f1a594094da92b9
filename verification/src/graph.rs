//! The type graph: flat arenas of native types and foreign types, and
//! labeled directed conversion edges between native types.  Records
//! refer to each other by index, never by reference; the breadth-first
//! path search works over the edge list with a per-index distance map.
use vstd::prelude::*;

verus! {

use crate::{SourceId, Span};
use crate::diag::{DiagKind, Diagnostic};
use crate::text::{seq_has_text, str_eq, vec_has_text};

/// Which side of the boundary a conversion serves: `Outgoing` turns a
/// native value into its foreign image (return values), `Incoming` the
/// reverse (arguments).
#[derive(Clone, Copy, PartialEq, Eq, Structural, Debug)]
pub enum Direction {
    Outgoing,
    Incoming,
}

/// A native type, identified by its canonical textual representation.
#[derive(Clone)]
pub struct NativeType {
    /// Canonical token text; the identity of the record.
    pub text: String,
    /// Where the type was first mentioned.
    pub src_id: SourceId,
    /// Names of the capabilities declared for this type.
    pub traits: Vec<String>,
}

/// The optional intermediate part of a conversion rule: the C-ABI type
/// actually crossing the boundary and the foreign-side code template
/// converting between it and the declared foreign type.
#[derive(Clone)]
pub struct Intermediate {
    pub intermediate_ty: usize,
    pub conv_code: String,
    pub input_to_output: bool,
}

/// A directional conversion rule of a foreign type: which native type
/// it terminates at, and through which intermediate, if any.
#[derive(Clone)]
pub struct ConvRule {
    pub rust_ty: usize,
    pub intermediate: Option<Intermediate>,
}

/// A foreign type: its name in the target language and its rules for
/// the two directions.
#[derive(Clone)]
pub struct ForeignTypeRec {
    pub name: String,
    /// Module or header names whose inclusion the type needs.
    pub provides_by_module: Vec<String>,
    /// How a native value becomes this foreign type.
    pub into_from_rust: Option<ConvRule>,
    /// How this foreign type becomes a native value.
    pub from_into_rust: Option<ConvRule>,
    /// Adornment applied when the name is formatted.
    pub name_prefix: Option<String>,
    pub src_id: SourceId,
    pub span: Span,
}

/// A directed conversion edge between two native types, carrying the
/// native-side code template.
#[derive(Clone)]
pub struct ConvEdge {
    pub from: usize,
    pub to: usize,
    pub code: String,
}

/// The arenas and the edge multigraph.
pub struct TypeGraph {
    pub ntypes: Vec<NativeType>,
    pub ftypes: Vec<ForeignTypeRec>,
    pub edges: Vec<ConvEdge>,
}

impl ConvRule {
    /// Index validity against an arena of `n` native types.
    pub open spec fn valid(self, n: nat) -> bool {
        &&& self.rust_ty < n
    &&& match self.intermediate {
            Some(im) => im.intermediate_ty < n,
            None => true,
        }
    }
}

impl ForeignTypeRec {
    /// The rule serving the given direction.
    pub open spec fn rule(self, dir: Direction) -> Option<ConvRule> {
        match dir {
            Direction::Outgoing => self.into_from_rust,
            Direction::Incoming => self.from_into_rust,
        }
    }

    /// Index validity of both rules.
    pub open spec fn valid(self, n: nat) -> bool {
        &&& match self.into_from_rust {
            Some(r) => r.valid(n),
            None => true,
        }
    &&& match self.from_into_rust {
            Some(r) => r.valid(n),
            None => true,
        }
    }

    /// Whether the rule in `dir` terminates at native type `nidx`.
    pub open spec fn targets(self, dir: Direction, nidx: int) -> bool {
        match self.rule(dir) {
            Some(r) => r.rust_ty == nidx,
            None => false,
        }
    }
}

/// Well-formedness is untouched by changes that keep the native texts,
/// the edges and the foreign types.
proof fn lemma_wf_same(a: TypeGraph, b: TypeGraph)
    requires
        a.wf(),
        b.n_len() == a.n_len(),
        forall|i: int| 0 <= i < b.n_len() ==> #[trigger] b.ntext(i) == a.ntext(i),
        b.edges@ == a.edges@,
        b.ftypes@ == a.ftypes@,
    ensures
        b.wf(),
{
    assert forall|i: int, j: int|
        0 <= i < j < b.n_len() implies #[trigger] b.ntext(i) != #[trigger] b.ntext(j) by {
        assert(a.ntext(i) != a.ntext(j));
    }
    assert forall|e: int|
        0 <= e < b.edges@.len() implies (#[trigger] b.edges@[e].from < b.n_len() && b.edges@[e].to
            < b.n_len()) by {
        assert(0 <= e < a.edges@.len());
        assert(b.edges@[e] == a.edges@[e]);
        assert(a.edges@[e].from < a.n_len() && a.edges@[e].to < a.n_len());
    }
    assert forall|f: int|
        0 <= f < b.ftypes@.len() implies (#[trigger] b.ftypes@[f]).valid(b.n_len()) by {
        assert(a.ftypes@[f].valid(a.n_len()));
    }
}

/// Appending one in-range edge keeps a graph well-formed.
proof fn lemma_wf_push_edge(a: TypeGraph, b: TypeGraph, e: ConvEdge)
    requires
        a.wf(),
        b.ntypes@ == a.ntypes@,
        b.ftypes@ == a.ftypes@,
        b.edges@ == a.edges@.push(e),
        e.from < a.n_len(),
        e.to < a.n_len(),
    ensures
        b.wf(),
{
    assert forall|k: int|
        0 <= k < b.edges@.len() implies (#[trigger] b.edges@[k].from < b.n_len() && b.edges@[k].to
            < b.n_len()) by {
        if k < a.edges@.len() {
            assert(b.edges@[k] == a.edges@[k]);
            assert(a.edges@[k].from < a.n_len() && a.edges@[k].to < a.n_len());
        }
    }
    assert forall|i: int, j: int|
        0 <= i < j < b.n_len() implies #[trigger] b.ntext(i) != #[trigger] b.ntext(j) by {
        assert(a.ntext(i) != a.ntext(j));
    }
    assert forall|f: int|
        0 <= f < b.ftypes@.len() implies (#[trigger] b.ftypes@[f]).valid(b.n_len()) by {
        assert(a.ftypes@[f].valid(a.n_len()));
    }
}

/// Appending one valid foreign type keeps a graph well-formed.
proof fn lemma_wf_push_ftype(a: TypeGraph, b: TypeGraph, f: ForeignTypeRec)
    requires
        a.wf(),
        b.ntypes@ == a.ntypes@,
        b.edges@ == a.edges@,
        b.ftypes@ == a.ftypes@.push(f),
        f.valid(a.n_len()),
    ensures
        b.wf(),
{
    assert forall|k: int|
        0 <= k < b.ftypes@.len() implies (#[trigger] b.ftypes@[k]).valid(b.n_len()) by {
        if k < a.ftypes@.len() {
            assert(b.ftypes@[k] == a.ftypes@[k]);
            assert(a.ftypes@[k].valid(a.n_len()));
        }
    }
    assert forall|i: int, j: int|
        0 <= i < j < b.n_len() implies #[trigger] b.ntext(i) != #[trigger] b.ntext(j) by {
        assert(a.ntext(i) != a.ntext(j));
    }
    assert forall|e: int|
        0 <= e < b.edges@.len() implies (#[trigger] b.edges@[e].from < b.n_len() && b.edges@[e].to
            < b.n_len()) by {
        assert(a.edges@[e].from < a.n_len() && a.edges@[e].to < a.n_len());
    }
}

impl TypeGraph {
    /// Number of native types.
    pub open spec fn n_len(self) -> nat {
        self.ntypes@.len()
    }

    /// The canonical text of native type `i`.
    pub open spec fn ntext(self, i: int) -> Seq<char> {
        self.ntypes@[i].text@
    }

    /// Whether some native type reads `t`.
    pub open spec fn has_native(self, t: Seq<char>) -> bool {
        exists|i: int| 0 <= i < self.n_len() && #[trigger] self.ntext(i) == t
    }

    /// Whether some foreign type is named `name`.
    pub open spec fn has_foreign_name(self, name: Seq<char>) -> bool {
        exists|f: int| 0 <= f < self.ftypes@.len() && #[trigger] self.ftypes@[f].name@ == name
    }

    /// Well-formedness: native texts are unique and every stored index
    /// points inside the native arena.
    pub open spec fn wf(self) -> bool {
        &&& forall|i: int, j: int|
            0 <= i < j < self.n_len() ==> #[trigger] self.ntext(i) != #[trigger] self.ntext(j)
    &&& forall|e: int|
            0 <= e < self.edges@.len() ==> (#[trigger] self.edges@[e].from < self.n_len()
                && self.edges@[e].to < self.n_len())
    &&& forall|f: int|
            0 <= f < self.ftypes@.len() ==> (#[trigger] self.ftypes@[f]).valid(self.n_len())
    }

    /// `p` is a chain of edge indices leading from `from` to `to`.
    pub open spec fn path_valid(self, from: int, to: int, p: Seq<usize>) -> bool
        decreases p.len(),
    {
        if p.len() == 0 {
            from == to
        } else {
            &&& 0 <= p[0] < self.edges@.len()
        &&& self.edges@[p[0] as int].from == from
        &&& self.path_valid(self.edges@[p[0] as int].to as int, to, p.subrange(1, p.len() as int))
        }
    }

    /// An empty graph.
    pub fn new() -> (g: TypeGraph)
        ensures
            g.wf(),
            g.n_len() == 0,
            g.ftypes@.len() == 0,
            g.edges@.len() == 0,
    {
        TypeGraph { ntypes: Vec::new(), ftypes: Vec::new(), edges: Vec::new() }
    }

    /// Finds the native type with the given canonical text.
    pub fn find_native(&self, text: &str) -> (r: Option<usize>)
        ensures
            match r {
                Some(i) => i < self.n_len() && self.ntext(i as int) == text@,
                None => !self.has_native(text@),
            },
    {
        let mut i: usize = 0;
        while i < self.ntypes.len()
            invariant
                i <= self.n_len(),
                forall|k: int| 0 <= k < i ==> #[trigger] self.ntext(k) != text@,
            decreases self.n_len() - i,
        {
            if str_eq(self.ntypes[i].text.as_str(), text) {
                return Some(i);
            }
            i += 1;
        }
        None
    }

    /// Returns the index of the native type with this canonical text,
    /// allocating a fresh record when none exists.  Lookups with the
    /// same text always yield the same index.
    pub fn find_or_alloc_native(&mut self, text: &str, src_id: SourceId) -> (idx: usize)
        requires
            old(self).wf(),
        ensures
            final(self).wf(),
            idx < final(self).n_len(),
            final(self).ntext(idx as int) == text@,
            final(self).ftypes@ == old(self).ftypes@,
            final(self).edges@ == old(self).edges@,
            old(self).has_native(text@) ==> *final(self) == *old(self),
            !old(self).has_native(text@) ==> {
                &&& idx == old(self).n_len()
            &&& final(self).ntypes@ == old(self).ntypes@.push(final(self).ntypes@[idx as int])
            &&& final(self).ntypes@[idx as int].src_id == src_id
            &&& final(self).ntypes@[idx as int].traits@.len() == 0
            },
    {
        match self.find_native(text) {
            Some(i) => i,
            None => {
                let idx = self.ntypes.len();
                self.ntypes.push(NativeType { text: text.to_owned(), src_id, traits: Vec::new() });
                proof {
                    assert forall|i: int, j: int| 0 <= i < j < self.n_len() implies #[trigger] self
                        .ntext(i) != #[trigger] self.ntext(j) by {
                        if j < old(self).n_len() {
                            assert(old(self).ntext(i) != old(self).ntext(j));
                        } else {
                            assert(self.ntext(j) == text@);
                            assert(self.ntext(i) == old(self).ntext(i));
                            assert(!old(self).has_native(text@));
                        }
                    }
                }
                idx
            },
        }
    }

    /// As `find_or_alloc_native`, and additionally records the given
    /// capability names on the entry, keeping those already present:
    /// afterwards the entry's capability set is the union of the old
    /// set and the given names.
    #[verifier::loop_isolation(false)]
    pub fn find_or_alloc_native_with_traits(
        &mut self,
        text: &str,
        traits: &Vec<String>,
        src_id: SourceId,
    ) -> (idx: usize)
        requires
            old(self).wf(),
        ensures
            final(self).wf(),
            idx < final(self).n_len(),
            final(self).ntext(idx as int) == text@,
            final(self).ftypes@ == old(self).ftypes@,
            final(self).edges@ == old(self).edges@,
            old(self).has_native(text@) ==> final(self).n_len() == old(self).n_len() && forall|
                k: int,
            |
                0 <= k < final(self).n_len() && k != idx ==> final(self).ntypes@[k] == old(
                    self,
                ).ntypes@[k],
            !old(self).has_native(text@) ==> idx == old(self).n_len() && final(self).n_len() == old(
                self,
            ).n_len() + 1 && forall|k: int|
                0 <= k < old(self).n_len() ==> final(self).ntypes@[k] == old(self).ntypes@[k],
            forall|t: Seq<char>|
                #[trigger] seq_has_text(final(self).ntypes@[idx as int].traits@, t) <==> (
                seq_has_text(traits@, t) || (old(self).has_native(text@) && seq_has_text(
                    old(self).ntypes@[idx as int].traits@,
                    t,
                ))),
    {
        let idx = self.find_or_alloc_native(text, src_id);
        let ghost base = self.ntypes@[idx as int].traits@;
        let ghost pre = *self;
        let mut k: usize = 0;
        while k < traits.len()
            invariant
                self.n_len() == pre.n_len(),
                k <= traits@.len(),
                self.ntypes@[idx as int].text == pre.ntypes@[idx as int].text,
                self.ntypes@[idx as int].src_id == pre.ntypes@[idx as int].src_id,
                self.ftypes@ == pre.ftypes@,
                self.edges@ == pre.edges@,
                forall|j: int|
                    0 <= j < self.n_len() && j != idx ==> self.ntypes@[j] == pre.ntypes@[j],
                forall|t: Seq<char>|
                    #[trigger] seq_has_text(self.ntypes@[idx as int].traits@, t) <==> (seq_has_text(
                        base,
                        t,
                    ) || seq_has_text(traits@.subrange(0, k as int), t)),
            decreases traits@.len() - k,
        {
            let t = &traits[k];
            let ghost cur = self.ntypes@[idx as int].traits@;
            if !vec_has_text(&self.ntypes[idx].traits, t.as_str()) {
                let owned = t.clone();
                let ghost ow = owned@;
                self.ntypes[idx].traits.push(owned);
                proof {
                    let post = self.ntypes@[idx as int].traits@;
                    assert(post == cur.push(self.ntypes@[idx as int].traits@.last()));
                    assert(post.last()@ == ow);
                    assert forall|tt: Seq<char>| #[trigger]
                        seq_has_text(post, tt) implies (seq_has_text(base, tt) || seq_has_text(
                        traits@.subrange(0, k + 1),
                        tt,
                    )) by {
                        let w = choose|j: int| 0 <= j < post.len() && #[trigger] post[j]@ == tt;
                        if w < cur.len() {
                            assert(cur[w]@ == tt);
                            assert(seq_has_text(cur, tt));
                            if seq_has_text(traits@.subrange(0, k as int), tt) {
                                let v = choose|j: int|
                                    0 <= j < k && #[trigger] traits@.subrange(0, k as int)[j]@
                                        == tt;
                                assert(traits@.subrange(0, k + 1)[v]@ == tt);
                            }
                        } else {
                            assert(tt == ow);
                            assert(ow == t@);
                            assert(traits@.subrange(0, k + 1)[k as int]@ == tt);
                        }
                    }
                    assert forall|tt: Seq<char>|
                        (seq_has_text(base, tt) || seq_has_text(
                            traits@.subrange(0, k + 1),
                            tt,
                        )) implies #[trigger] seq_has_text(post, tt) by {
                        if seq_has_text(base, tt) || seq_has_text(
                            traits@.subrange(0, k as int),
                            tt,
                        ) {
                            assert(seq_has_text(cur, tt));
                            let w = choose|j: int| 0 <= j < cur.len() && #[trigger] cur[j]@ == tt;
                            assert(post[w]@ == tt);
                        } else {
                            let w = choose|j: int|
                                0 <= j < k + 1 && #[trigger] traits@.subrange(0, k + 1)[j]@ == tt;
                            if w < k {
                                assert(traits@.subrange(0, k as int)[w]@ == tt);
                            } else {
                                assert(tt == t@);
                                assert(post[post.len() - 1]@ == tt);
                            }
                        }
                    }
                }
            } else {
                proof {
                    assert(seq_has_text(cur, t@));
                    assert forall|tt: Seq<char>| #[trigger]
                        seq_has_text(cur, tt) implies (seq_has_text(base, tt) || seq_has_text(
                        traits@.subrange(0, k + 1),
                        tt,
                    )) by {
                        if seq_has_text(traits@.subrange(0, k as int), tt) {
                            let v = choose|j: int|
                                0 <= j < k && #[trigger] traits@.subrange(0, k as int)[j]@ == tt;
                            assert(traits@.subrange(0, k + 1)[v]@ == tt);
                        }
                    }
                    assert forall|tt: Seq<char>|
                        (seq_has_text(base, tt) || seq_has_text(
                            traits@.subrange(0, k + 1),
                            tt,
                        )) implies #[trigger] seq_has_text(cur, tt) by {
                        if seq_has_text(base, tt) || seq_has_text(
                            traits@.subrange(0, k as int),
                            tt,
                        ) {
                        } else {
                            let w = choose|j: int|
                                0 <= j < k + 1 && #[trigger] traits@.subrange(0, k + 1)[j]@ == tt;
                            if w < k {
                                assert(traits@.subrange(0, k as int)[w]@ == tt);
                            } else {
                                assert(tt == t@);
                            }
                        }
                    }
                }
            }
            k += 1;
        }
        proof {
            assert(traits@.subrange(0, traits@.len() as int) =~= traits@);
            assert forall|i: int| 0 <= i < self.n_len() implies #[trigger] self.ntext(i)
                == pre.ntext(i) by {
                if i != idx {
                    assert(self.ntypes@[i] == pre.ntypes@[i]);
                }
            }
            lemma_wf_same(pre, *self);
            if !old(self).has_native(text@) {
                assert forall|k: int|
                    0 <= k < old(self).n_len() implies self.ntypes@[k] == old(self).ntypes@[k] by {
                    assert(pre.ntypes@[k] == old(self).ntypes@.push(pre.ntypes@[idx as int])[k]);
                }
            }
        }
        idx
    }

    /// Registers a foreign type; a second foreign type under an
    /// already-used name is refused.
    #[verifier::loop_isolation(false)]
    pub fn alloc_foreign(&mut self, f: ForeignTypeRec) -> (r: Result<usize, Diagnostic>)
        requires
            old(self).wf(),
            f.valid(old(self).n_len()),
        ensures
            final(self).wf(),
            match r {
                Ok(i) => {
                    &&& !old(self).has_foreign_name(f.name@)
                &&& i == old(self).ftypes@.len()
                &&& final(self).ftypes@ == old(self).ftypes@.push(f)
                &&& final(self).ntypes@ == old(self).ntypes@
                &&& final(self).edges@ == old(self).edges@
                },
                Err(d) => {
                    &&& old(self).has_foreign_name(f.name@)
                &&& *final(self) == *old(self)
                &&& d.kind == DiagKind::DuplicateForeignType
                },
            },
    {
        let mut i: usize = 0;
        while i < self.ftypes.len()
            invariant
                i <= self.ftypes@.len(),
                forall|k: int| 0 <= k < i ==> #[trigger] self.ftypes@[k].name@ != f.name@,
            decreases self.ftypes@.len() - i,
        {
            if str_eq(self.ftypes[i].name.as_str(), f.name.as_str()) {
                let mut msg = "duplicate foreign type ".to_owned();
                msg.append(f.name.as_str());
                return Err(Diagnostic::new(f.src_id, f.span, DiagKind::DuplicateForeignType, msg));
            }
            i += 1;
        }
        let idx = self.ftypes.len();
        let ghost fv = f;
        self.ftypes.push(f);
        proof {
            lemma_wf_push_ftype(*old(self), *self, fv);
        }
        Ok(idx)
    }

    /// Finds the foreign type registered under this name.
    pub fn find_foreign_by_name(&self, name: &str) -> (r: Option<usize>)
        ensures
            match r {
                Some(i) => i < self.ftypes@.len() && self.ftypes@[i as int].name@ == name@,
                None => !self.has_foreign_name(name@),
            },
    {
        let mut i: usize = 0;
        while i < self.ftypes.len()
            invariant
                i <= self.ftypes@.len(),
                forall|k: int| 0 <= k < i ==> #[trigger] self.ftypes@[k].name@ != name@,
            decreases self.ftypes@.len() - i,
        {
            if str_eq(self.ftypes[i].name.as_str(), name) {
                return Some(i);
            }
            i += 1;
        }
        None
    }

    /// The first-registered foreign type whose rule in `dir` terminates
    /// at native type `nidx`.
    pub fn find_foreign_for_native(&self, nidx: usize, dir: Direction) -> (r: Option<usize>)
        ensures
            match r {
                Some(fi) => fi < self.ftypes@.len() && self.ftypes@[fi as int].targets(
                    dir,
                    nidx as int,
                ) && forall|g: int| 0 <= g < fi ==> !self.ftypes@[g].targets(dir, nidx as int),
                None => forall|g: int|
                    0 <= g < self.ftypes@.len() ==> !self.ftypes@[g].targets(dir, nidx as int),
            },
    {
        let mut fi: usize = 0;
        while fi < self.ftypes.len()
            invariant
                fi <= self.ftypes@.len(),
                forall|g: int| 0 <= g < fi ==> !self.ftypes@[g].targets(dir, nidx as int),
            decreases self.ftypes@.len() - fi,
        {
            let ft = &self.ftypes[fi];
            let rule = match dir {
                Direction::Outgoing => &ft.into_from_rust,
                Direction::Incoming => &ft.from_into_rust,
            };
            match rule {
                Some(r) => {
                    if r.rust_ty == nidx {
                        return Some(fi);
                    }
                },
                None => {},
            }
            fi += 1;
        }
        None
    }

    /// Notes one more module among those a foreign type's use needs,
    /// unless it is already listed.
    pub fn add_foreign_provides(&mut self, fidx: usize, module: &str)
        requires
            old(self).wf(),
            fidx < old(self).ftypes@.len(),
        ensures
            final(self).wf(),
            final(self).ntypes@ == old(self).ntypes@,
            final(self).edges@ == old(self).edges@,
            final(self).ftypes@.len() == old(self).ftypes@.len(),
            forall|k: int|
                0 <= k < final(self).ftypes@.len() && k != fidx
                    ==> #[trigger] final(self).ftypes@[k] == old(self).ftypes@[k],
            final(self).ftypes@[fidx as int].name == old(self).ftypes@[fidx as int].name,
            final(self).ftypes@[fidx as int].into_from_rust
                == old(self).ftypes@[fidx as int].into_from_rust,
            final(self).ftypes@[fidx as int].from_into_rust
                == old(self).ftypes@[fidx as int].from_into_rust,
            seq_has_text(final(self).ftypes@[fidx as int].provides_by_module@, module@),
            forall|t: Seq<char>|
                #[trigger] seq_has_text(final(self).ftypes@[fidx as int].provides_by_module@, t)
                    <==> (seq_has_text(old(self).ftypes@[fidx as int].provides_by_module@, t) || t
                    == module@),
    {
        let ghost pre = *self;
        if !vec_has_text(&self.ftypes[fidx].provides_by_module, module) {
            self.ftypes[fidx].provides_by_module.push(module.to_owned());
            proof {
                let newp = self.ftypes@[fidx as int].provides_by_module@;
                let oldp = pre.ftypes@[fidx as int].provides_by_module@;
                assert(newp.last()@ == module@);
                assert(seq_has_text(newp, module@));
                assert forall|t: Seq<char>| #[trigger]
                    seq_has_text(newp, t) implies (seq_has_text(oldp, t) || t == module@) by {
                    let j = choose|j: int| 0 <= j < newp.len() && #[trigger] newp[j]@ == t;
                    if j < oldp.len() {
                        assert(oldp[j]@ == t);
                    }
                }
                assert forall|t: Seq<char>|
                    (seq_has_text(oldp, t) || t == module@) implies #[trigger] seq_has_text(
                    newp,
                    t,
                ) by {
                    if seq_has_text(oldp, t) {
                        let j = choose|j: int| 0 <= j < oldp.len() && #[trigger] oldp[j]@ == t;
                        assert(newp[j]@ == t);
                    } else {
                        assert(newp.last()@ == t);
                    }
                }
                assert forall|i: int, j: int|
                    0 <= i < j < self.n_len() implies #[trigger] self.ntext(i)
                    != #[trigger] self.ntext(j) by {
                    assert(pre.ntext(i) != pre.ntext(j));
                }
                assert forall|f: int|
                    0 <= f < self.ftypes@.len() implies (#[trigger] self.ftypes@[f]).valid(
                    self.n_len(),
                ) by {
                    assert(pre.ftypes@[f].valid(pre.n_len()));
                    if f != fidx {
                        assert(self.ftypes@[f] == pre.ftypes@[f]);
                    }
                }
            }
        } else {
            proof {
                assert forall|t: Seq<char>|
                    (seq_has_text(pre.ftypes@[fidx as int].provides_by_module@, t) || t
                        == module@) implies #[trigger] seq_has_text(
                    self.ftypes@[fidx as int].provides_by_module@,
                    t,
                ) by {}
            }
        }
    }

    /// Fills the empty direction of a foreign type's rules; the name,
    /// the modules and the other direction stay as they were.
    pub fn set_foreign_rule(&mut self, fidx: usize, outgoing: bool, rule: ConvRule)
        requires
            old(self).wf(),
            fidx < old(self).ftypes@.len(),
            rule.valid(old(self).n_len()),
            (if outgoing {
                old(self).ftypes@[fidx as int].into_from_rust is None
            } else {
                old(self).ftypes@[fidx as int].from_into_rust is None
            }),
        ensures
            final(self).wf(),
            final(self).ntypes@ == old(self).ntypes@,
            final(self).edges@ == old(self).edges@,
            final(self).ftypes@.len() == old(self).ftypes@.len(),
            forall|k: int|
                0 <= k < final(self).ftypes@.len() && k != fidx
                    ==> #[trigger] final(self).ftypes@[k] == old(self).ftypes@[k],
            final(self).ftypes@[fidx as int].name == old(self).ftypes@[fidx as int].name,
            final(self).ftypes@[fidx as int].provides_by_module == old(
                self,
            ).ftypes@[fidx as int].provides_by_module,
            (if outgoing {
                final(self).ftypes@[fidx as int].into_from_rust == Some(rule)
                    && final(self).ftypes@[fidx as int].from_into_rust == old(
                    self,
                ).ftypes@[fidx as int].from_into_rust
            } else {
                final(self).ftypes@[fidx as int].from_into_rust == Some(rule)
                    && final(self).ftypes@[fidx as int].into_from_rust == old(
                    self,
                ).ftypes@[fidx as int].into_from_rust
            }),
    {
        if outgoing {
            self.ftypes[fidx].into_from_rust = Some(rule);
        } else {
            self.ftypes[fidx].from_into_rust = Some(rule);
        }
        proof {
            assert forall|i: int, j: int|
                0 <= i < j < self.n_len() implies #[trigger] self.ntext(i)
                != #[trigger] self.ntext(j) by {
                assert(old(self).ntext(i) != old(self).ntext(j));
            }
            assert forall|f: int|
                0 <= f < self.ftypes@.len() implies (#[trigger] self.ftypes@[f]).valid(
                self.n_len(),
            ) by {
                if f != fidx {
                    assert(self.ftypes@[f] == old(self).ftypes@[f]);
                }
                assert(old(self).ftypes@[f].valid(old(self).n_len()));
            }
            assert forall|e: int|
                0 <= e < self.edges@.len() implies (#[trigger] self.edges@[e].from < self.n_len()
                    && self.edges@[e].to < self.n_len()) by {
                assert(old(self).edges@[e].from < old(self).n_len());
            }
        }
    }

    /// Adds a conversion edge carrying `code` between two native types.
    pub fn add_conversion(&mut self, from: usize, to: usize, code: String)
        requires
            old(self).wf(),
            from < old(self).n_len(),
            to < old(self).n_len(),
        ensures
            final(self).wf(),
            final(self).ntypes@ == old(self).ntypes@,
            final(self).ftypes@ == old(self).ftypes@,
            final(self).edges@ == old(self).edges@.push((ConvEdge { from, to, code })),
    {
        self.edges.push(ConvEdge { from, to, code });
        proof {
            lemma_wf_push_edge(*old(self), *self, self.edges@.last());
        }
    }
}

/// Distance-map abbreviation for the breadth-first search: whether a
/// distance is recorded for `v`.
pub open spec fn dsome(d: Seq<Option<usize>>, v: int) -> bool {
    d[v] is Some
}

/// The distance recorded for `v`.
pub open spec fn dv(d: Seq<Option<usize>>, v: int) -> int {
    d[v]->0 as int
}

/// Writes one slot of an index map.
fn set_opt(v: &mut Vec<Option<usize>>, i: usize, x: Option<usize>)
    requires
        i < old(v)@.len(),
    ensures
        final(v)@ == old(v)@.update(i as int, x),
{
    let slot = &mut v[i];
    *slot = x;
}

/// The working state of the breadth-first search: `d` the distance
/// map, `p` the parent-edge map, `q` the discovery queue of which the
/// first `qh` entries are processed.
pub open spec fn bfs_inv(
    g: TypeGraph,
    d: Seq<Option<usize>>,
    p: Seq<Option<usize>>,
    q: Seq<usize>,
    from: int,
    qh: int,
) -> bool {
    let n = g.n_len() as int;
    &&& d.len() == n
&&& p.len() == n
&&& 0 <= from < n
&&& 0 <= qh <= q.len()
&&& q.len() <= n
&&& q.no_duplicates()
&&& forall|k: int| 0 <= k < q.len() ==> #[trigger] q[k] < n && dsome(d, q[k] as int)
&&& forall|v: int|
        0 <= v < n ==> (dsome(d, v) <==> exists|k: int| 0 <= k < q.len() && #[trigger] q[k] == v)
&&& d[from] == Some(0usize)
&&& p[from] is None
&&& forall|v: int| 0 <= v < n && dsome(d, v) && dv(d, v) == 0 ==> v == from
&&& forall|v: int| 0 <= v < n && v != from && dsome(d, v) ==> p[v] is Some
&&& forall|v: int|
        0 <= v < n && #[trigger] p[v] is Some ==> {
            let e = p[v]->0 as int;
            &&& 0 <= e < g.edges@.len()
        &&& g.edges@[e].to == v
        &&& dsome(d, g.edges@[e].from as int)
        &&& dsome(d, v)
        &&& dv(d, v) == dv(d, g.edges@[e].from as int) + 1
        }
&&& forall|k1: int, k2: int|
        0 <= k1 <= k2 < q.len() ==> dv(d, #[trigger] q[k1] as int) <= dv(d, #[trigger] q[k2] as int)
&&& forall|k: int| 0 <= k < q.len() ==> dv(d, #[trigger] q[k] as int) <= k
&&& (qh < q.len() ==> dv(d, q[q.len() - 1] as int) <= dv(d, q[qh] as int) + 1)
}

/// Every edge leaving one of the first `qh` queue entries has been
/// relaxed.
pub open spec fn bfs_closed_upto(
    g: TypeGraph,
    d: Seq<Option<usize>>,
    q: Seq<usize>,
    qh: int,
) -> bool {
    forall|k: int, e: int|
        0 <= k < qh && 0 <= e < g.edges@.len() && (#[trigger] g.edges@[e].from) == (
        #[trigger] q[k]) ==> dsome(d, g.edges@[e].to as int) && dv(d, g.edges@[e].to as int) <= dv(
            d,
            q[k] as int,
        ) + 1
}

/// Edges below `ecnt` leaving `u` have been relaxed against bound
/// `du + 1`.
pub open spec fn bfs_u_closed(
    g: TypeGraph,
    d: Seq<Option<usize>>,
    u: usize,
    du: usize,
    ecnt: int,
) -> bool {
    forall|e: int|
        0 <= e < ecnt && #[trigger] g.edges@[e].from == u ==> dsome(d, g.edges@[e].to as int) && dv(
            d,
            g.edges@[e].to as int,
        ) <= du + 1
}

/// The shared premise of the discovery-step lemmas.
pub open spec fn bfs_step_pre(
    g: TypeGraph,
    d0: Seq<Option<usize>>,
    p0: Seq<Option<usize>>,
    q0: Seq<usize>,
    d1: Seq<Option<usize>>,
    p1: Seq<Option<usize>>,
    q1: Seq<usize>,
    from: int,
    qh: int,
    u: usize,
    du: usize,
    e: usize,
    v: usize,
) -> bool {
    &&& g.wf()
&&& bfs_inv(g, d0, p0, q0, from, qh)
&&& qh < q0.len()
&&& u == q0[qh]
&&& d0[u as int] == Some(du)
&&& du + 1 <= usize::MAX
&&& e < g.edges@.len()
&&& g.edges@[e as int].from == u
&&& g.edges@[e as int].to == v
&&& !dsome(d0, v as int)
&&& d1 == d0.update(v as int, Some((du + 1) as usize))
&&& p1 == p0.update(v as int, Some(e))
&&& q1 == q0.push(v)
}

/// Discovery step, first part: queue bookkeeping.
#[verifier::rlimit(100)]
proof fn lemma_bfs_enqueue_a(
    g: TypeGraph,
    d0: Seq<Option<usize>>,
    p0: Seq<Option<usize>>,
    q0: Seq<usize>,
    d1: Seq<Option<usize>>,
    p1: Seq<Option<usize>>,
    q1: Seq<usize>,
    from: int,
    qh: int,
    u: usize,
    du: usize,
    e: usize,
    v: usize,
)
    requires
        bfs_step_pre(g, d0, p0, q0, d1, p1, q1, from, qh, u, du, e, v),
    ensures
        q1.no_duplicates(),
        q1.len() <= g.n_len(),
        forall|k: int| 0 <= k < q1.len() ==> #[trigger] q1[k] < g.n_len() && dsome(d1, q1[k] as int),
        forall|w: int|
            0 <= w < g.n_len() ==> (dsome(d1, w) <==> exists|k: int|
                0 <= k < q1.len() && #[trigger] q1[k] == w),
{
    let n = g.n_len() as int;
    assert(v < n);
    assert forall|k: int| 0 <= k < q1.len() implies #[trigger] q1[k] < n && dsome(
        d1,
        q1[k] as int,
    ) by {
        if k < q0.len() {
            assert(q1[k] == q0[k]);
        }
    }
    assert(q1.no_duplicates()) by {
        assert forall|k1: int, k2: int| 0 <= k1 < k2 < q1.len() implies q1[k1] != q1[k2] by {
            if k2 == q0.len() {
                if q1[k1] == v {
                    assert(dsome(d0, v as int));
                }
            }
        }
    }
    assert(q1.len() <= n) by {
        lemma_distinct_bounded(q1, g.n_len());
    }
    assert forall|w: int| 0 <= w < n implies (dsome(d1, w) <==> exists|k: int|
        0 <= k < q1.len() && #[trigger] q1[k] == w) by {
        if w == v {
            assert(q1[q0.len() as int] == v);
        } else {
            if dsome(d1, w) {
                assert(dsome(d0, w));
                let k = choose|k: int| 0 <= k < q0.len() && #[trigger] q0[k] == w;
                assert(q1[k] == w);
            } else {
                if exists|k: int| 0 <= k < q1.len() && #[trigger] q1[k] == w {
                    let k = choose|k: int| 0 <= k < q1.len() && #[trigger] q1[k] == w;
                    assert(q0[k] == w);
                }
            }
        }
    }
}

/// Discovery step, second part: parent-edge facts.
#[verifier::rlimit(100)]
proof fn lemma_bfs_enqueue_b(
    g: TypeGraph,
    d0: Seq<Option<usize>>,
    p0: Seq<Option<usize>>,
    q0: Seq<usize>,
    d1: Seq<Option<usize>>,
    p1: Seq<Option<usize>>,
    q1: Seq<usize>,
    from: int,
    qh: int,
    u: usize,
    du: usize,
    e: usize,
    v: usize,
)
    requires
        bfs_step_pre(g, d0, p0, q0, d1, p1, q1, from, qh, u, du, e, v),
    ensures
        d1[from] == Some(0usize),
        p1[from] is None,
        forall|w: int| 0 <= w < g.n_len() && dsome(d1, w) && dv(d1, w) == 0 ==> w == from,
        forall|w: int| 0 <= w < g.n_len() && w != from && dsome(d1, w) ==> p1[w] is Some,
        forall|w: int|
            0 <= w < g.n_len() && #[trigger] p1[w] is Some ==> {
                let pe = p1[w]->0 as int;
                &&& 0 <= pe < g.edges@.len()
            &&& g.edges@[pe].to == w
            &&& dsome(d1, g.edges@[pe].from as int)
            &&& dsome(d1, w)
            &&& dv(d1, w) == dv(d1, g.edges@[pe].from as int) + 1
            },
        d1[u as int] == Some(du),
{
    let n = g.n_len() as int;
    assert(v != from) by {
        assert(dsome(d0, from));
    }
    assert(v != u) by {
        assert(dsome(d0, u as int));
    }
    assert(dv(d1, v as int) == du + 1);
    assert forall|w: int| 0 <= w < n && dsome(d1, w) && dv(d1, w) == 0 implies w == from by {
        if w != v {
            assert(dsome(d0, w) && dv(d0, w) == 0);
        }
    }
    assert forall|w: int|
        0 <= w < n && w != from && dsome(d1, w) implies p1[w] is Some by {
        if w == v {
            assert(p1[v as int] == Some(e));
        } else {
            assert(dsome(d0, w));
            assert(p1[w] == p0[w]);
        }
    }
    assert forall|w: int| 0 <= w < n && #[trigger] p1[w] is Some implies {
        let pe = p1[w]->0 as int;
        &&& 0 <= pe < g.edges@.len()
    &&& g.edges@[pe].to == w
    &&& dsome(d1, g.edges@[pe].from as int)
    &&& dsome(d1, w)
    &&& dv(d1, w) == dv(d1, g.edges@[pe].from as int) + 1
    } by {
        if w == v {
            assert(p1[w] == Some(e));
            assert(p1[w]->0 == e);
            assert(g.edges@[e as int].from == u);
            assert(g.edges@[e as int].to == v);
            assert(d1[u as int] == Some(du));
            assert(dsome(d1, u as int));
            assert(dsome(d1, v as int));
            assert(dv(d1, u as int) == du);
            assert(dv(d1, v as int) == du + 1);
        } else {
            assert(p1[w] == p0[w]);
            assert(p0[w] is Some);
            let pe = p0[w]->0 as int;
            assert(dsome(d0, g.edges@[pe].from as int));
            assert(g.edges@[pe].from != v);
            assert(d1[g.edges@[pe].from as int] == d0[g.edges@[pe].from as int]);
            assert(d1[w] == d0[w]);
        }
    }
}

/// Discovery step, third part: order, position bounds and closure.
#[verifier::rlimit(100)]
proof fn lemma_bfs_enqueue_c(
    g: TypeGraph,
    d0: Seq<Option<usize>>,
    p0: Seq<Option<usize>>,
    q0: Seq<usize>,
    d1: Seq<Option<usize>>,
    p1: Seq<Option<usize>>,
    q1: Seq<usize>,
    from: int,
    qh: int,
    u: usize,
    du: usize,
    e: usize,
    v: usize,
)
    requires
        bfs_step_pre(g, d0, p0, q0, d1, p1, q1, from, qh, u, du, e, v),
        bfs_closed_upto(g, d0, q0, qh),
        bfs_u_closed(g, d0, u, du, e as int),
    ensures
        forall|k1: int, k2: int|
            0 <= k1 <= k2 < q1.len() ==> dv(d1, #[trigger] q1[k1] as int) <= dv(
                d1,
                #[trigger] q1[k2] as int,
            ),
        forall|k: int| 0 <= k < q1.len() ==> dv(d1, #[trigger] q1[k] as int) <= k,
        qh < q1.len() ==> dv(d1, q1[q1.len() - 1] as int) <= dv(d1, q1[qh] as int) + 1,
        bfs_closed_upto(g, d1, q1, qh),
        bfs_u_closed(g, d1, u, du, e as int + 1),
{
    let n = g.n_len() as int;
    assert(v != u) by {
        assert(dsome(d0, u as int));
    }
    assert(du <= qh) by {
        assert(dv(d0, q0[qh] as int) <= qh);
    }
    assert(dv(d0, q0[(q0.len() - 1) as int] as int) <= du + 1);
    assert forall|k1: int, k2: int|
        0 <= k1 <= k2 < q1.len() implies dv(d1, #[trigger] q1[k1] as int) <= dv(
        d1,
        #[trigger] q1[k2] as int,
    ) by {
        if k2 < q0.len() {
            assert(q0[k1] != v && q0[k2] != v);
            assert(dv(d0, q0[k1] as int) <= dv(d0, q0[k2] as int));
        } else {
            assert(dv(d1, q1[k2] as int) == du + 1);
            if k1 < q0.len() {
                assert(q0[k1] != v);
                assert(dv(d0, q0[k1] as int) <= dv(d0, q0[(q0.len() - 1) as int] as int));
            }
        }
    }
    assert forall|k: int| 0 <= k < q1.len() implies dv(d1, #[trigger] q1[k] as int) <= k by {
        if k < q0.len() {
            assert(q0[k] != v);
            assert(dv(d0, q0[k] as int) <= k);
        } else {
            assert(dv(d1, q1[k] as int) == du + 1);
            assert(du <= qh);
            assert(qh < q0.len());
        }
    }
    assert(q1[qh] == q0[qh]);
    assert(q0[qh] != v);
    assert(dv(d1, q1[(q1.len() - 1) as int] as int) == du + 1);
    assert(dv(d1, q1[qh] as int) == du);
    assert forall|k: int, e2: int|
        0 <= k < qh && 0 <= e2 < g.edges@.len() && (#[trigger] g.edges@[e2].from) == (
        #[trigger] q1[k]) implies dsome(d1, g.edges@[e2].to as int) && dv(
        d1,
        g.edges@[e2].to as int,
    ) <= dv(d1, q1[k] as int) + 1 by {
        assert(q1[k] == q0[k]);
        assert(dsome(d0, g.edges@[e2].to as int));
        assert(g.edges@[e2].to != v);
        assert(q0[k] != v);
    }
    assert forall|e2: int|
        0 <= e2 < e as int + 1 && #[trigger] g.edges@[e2].from == u implies dsome(
        d1,
        g.edges@[e2].to as int,
    ) && dv(d1, g.edges@[e2].to as int) <= du + 1 by {
        if e2 < e as int {
            assert(dsome(d0, g.edges@[e2].to as int));
            assert(g.edges@[e2].to != v);
        }
    }
}

/// A distinct sequence of indices below `n` has at most `n` elements.
proof fn lemma_distinct_bounded(q: Seq<usize>, n: nat)
    requires
        q.no_duplicates(),
        forall|k: int| 0 <= k < q.len() ==> q[k] < n,
    ensures
        q.len() <= n,
{
    let f = |v: usize| v as int;
    assert(vstd::relations::injective(f)) by {
        assert forall|x: usize, y: usize| #[trigger] f(x) == #[trigger] f(y) implies x == y by {}
    }
    q.lemma_no_duplicates_injective(f);
    let qi = q.map_values(f);
    qi.unique_seq_to_set();
    assert forall|x: int| qi.to_set().contains(x) implies vstd::set_lib::set_int_range(
        0,
        n as int,
    ).contains(x) by {
        let k = choose|k: int| 0 <= k < qi.len() && qi[k] == x;
        assert(q[k] < n);
    }
    vstd::set_lib::lemma_int_range(0, n as int);
    vstd::set_lib::lemma_len_subset(qi.to_set(), vstd::set_lib::set_int_range(0, n as int));
}

/// Under a relaxed distance map, every valid path bounds the distance
/// of its endpoint: recorded distances are shortest-path lower bounds.
proof fn lemma_path_bound(g: TypeGraph, d: Seq<Option<usize>>, start: int, v: int, p: Seq<usize>)
    requires
        g.wf(),
        d.len() == g.n_len(),
        0 <= start < g.n_len(),
        dsome(d, start),
        forall|e: int|
            0 <= e < g.edges@.len() && dsome(d, #[trigger] g.edges@[e].from as int) ==> dsome(
                d,
                g.edges@[e].to as int,
            ) && dv(d, g.edges@[e].to as int) <= dv(d, g.edges@[e].from as int) + 1,
        g.path_valid(start, v, p),
    ensures
        0 <= v < g.n_len(),
        dsome(d, v),
        dv(d, v) <= dv(d, start) + p.len(),
    decreases p.len(),
{
    if p.len() == 0 {
    } else {
        let e = p[0] as int;
        assert(g.edges@[e].from < g.n_len() && g.edges@[e].to < g.n_len());
        lemma_path_bound(g, d, g.edges@[e].to as int, v, p.subrange(1, p.len() as int));
    }
}

/// Assembled discovery step: all three parts together.
proof fn lemma_bfs_enqueue(
    g: TypeGraph,
    d0: Seq<Option<usize>>,
    p0: Seq<Option<usize>>,
    q0: Seq<usize>,
    d1: Seq<Option<usize>>,
    p1: Seq<Option<usize>>,
    q1: Seq<usize>,
    from: int,
    qh: int,
    u: usize,
    du: usize,
    e: usize,
    v: usize,
)
    requires
        bfs_step_pre(g, d0, p0, q0, d1, p1, q1, from, qh, u, du, e, v),
        bfs_closed_upto(g, d0, q0, qh),
        bfs_u_closed(g, d0, u, du, e as int),
    ensures
        bfs_inv(g, d1, p1, q1, from, qh),
        bfs_closed_upto(g, d1, q1, qh),
        bfs_u_closed(g, d1, u, du, e as int + 1),
        qh < q1.len(),
        q1[qh] == u,
        d1[u as int] == Some(du),
{
    lemma_bfs_enqueue_a(g, d0, p0, q0, d1, p1, q1, from, qh, u, du, e, v);
    lemma_bfs_enqueue_b(g, d0, p0, q0, d1, p1, q1, from, qh, u, du, e, v);
    lemma_bfs_enqueue_c(g, d0, p0, q0, d1, p1, q1, from, qh, u, du, e, v);
    assert(q1[qh] == q0[qh]);
}

/// Relaxing an edge whose target is already discovered needs no write.
proof fn lemma_bfs_skip(
    g: TypeGraph,
    d: Seq<Option<usize>>,
    p: Seq<Option<usize>>,
    q: Seq<usize>,
    from: int,
    qh: int,
    u: usize,
    du: usize,
    e: int,
)
    requires
        g.wf(),
        bfs_inv(g, d, p, q, from, qh),
        bfs_u_closed(g, d, u, du, e),
        qh < q.len(),
        u == q[qh],
        d[u as int] == Some(du),
        0 <= e < g.edges@.len(),
        g.edges@[e].from == u,
        dsome(d, g.edges@[e].to as int),
    ensures
        bfs_u_closed(g, d, u, du, e + 1),
{
    let w = g.edges@[e].to as int;
    let k = choose|k: int| 0 <= k < q.len() && #[trigger] q[k] == w as usize;
    assert(dv(d, q[qh] as int) == du);
    if k <= qh {
        assert(dv(d, q[k] as int) <= dv(d, q[qh] as int));
    } else {
        assert(dv(d, q[k] as int) <= dv(d, q[(q.len() - 1) as int] as int));
        assert(dv(d, q[(q.len() - 1) as int] as int) <= dv(d, q[qh] as int) + 1);
    }
    assert(dv(d, w) <= du + 1);
    assert forall|e2: int|
        0 <= e2 < e + 1 && #[trigger] g.edges@[e2].from == u implies dsome(
        d,
        g.edges@[e2].to as int,
    ) && dv(d, g.edges@[e2].to as int) <= du + 1 by {}
}

/// Once every edge of the head is relaxed, the head counts as
/// processed.
proof fn lemma_bfs_advance(
    g: TypeGraph,
    d: Seq<Option<usize>>,
    p: Seq<Option<usize>>,
    q: Seq<usize>,
    from: int,
    qh: int,
    u: usize,
    du: usize,
)
    requires
        g.wf(),
        bfs_inv(g, d, p, q, from, qh),
        bfs_closed_upto(g, d, q, qh),
        bfs_u_closed(g, d, u, du, g.edges@.len() as int),
        qh < q.len(),
        u == q[qh],
        d[u as int] == Some(du),
    ensures
        bfs_inv(g, d, p, q, from, qh + 1),
        bfs_closed_upto(g, d, q, qh + 1),
{
    assert forall|k: int, e: int|
        0 <= k < qh + 1 && 0 <= e < g.edges@.len() && (#[trigger] g.edges@[e].from) == (
        #[trigger] q[k]) implies dsome(d, g.edges@[e].to as int) && dv(d, g.edges@[e].to as int)
        <= dv(d, q[k] as int) + 1 by {
        if k == qh {
            assert(g.edges@[e].from == u);
            assert(dv(d, q[k] as int) == du);
        }
    }
    if qh + 1 < q.len() {
        assert(dv(d, q[qh] as int) <= dv(d, q[(qh + 1) as int] as int));
    }
}

/// The starting state of the search satisfies its invariant.
proof fn lemma_bfs_init(
    g: TypeGraph,
    d_init: Seq<Option<usize>>,
    d: Seq<Option<usize>>,
    p: Seq<Option<usize>>,
    q: Seq<usize>,
    from: usize,
)
    requires
        g.wf(),
        from < g.n_len(),
        d_init.len() == g.n_len(),
        p.len() == g.n_len(),
        forall|v: int| 0 <= v < g.n_len() ==> !dsome(d_init, v),
        forall|v: int| 0 <= v < g.n_len() ==> p[v] is None,
        d == d_init.update(from as int, Some(0usize)),
        q == seq![from],
    ensures
        bfs_inv(g, d, p, q, from as int, 0),
        bfs_closed_upto(g, d, q, 0),
{
    let n = g.n_len() as int;
    assert(q.len() == 1);
    assert(q[0] == from);
    assert forall|v: int| 0 <= v < n implies (dsome(d, v) <==> exists|k: int|
        0 <= k < q.len() && #[trigger] q[k] == v) by {
        if v == from as int {
            assert(q[0] == v);
        } else {
            assert(d[v] == d_init[v]);
            assert(!dsome(d_init, v));
            if exists|k: int| 0 <= k < q.len() && #[trigger] q[k] == v {
                let k = choose|k: int| 0 <= k < q.len() && #[trigger] q[k] == v;
                assert(k == 0);
            }
        }
    }
    assert forall|v: int|
        0 <= v < n && dsome(d, v) && dv(d, v) == 0 implies v == from as int by {
        if v != from as int {
            assert(d[v] == d_init[v]);
            assert(!dsome(d_init, v));
        }
    }
    assert(bfs_inv(g, d, p, q, from as int, 0));
}

/// When the queue is exhausted the distance map is relaxed over every
/// edge leaving a discovered node.
proof fn lemma_bfs_final(
    g: TypeGraph,
    d: Seq<Option<usize>>,
    p: Seq<Option<usize>>,
    q: Seq<usize>,
    from: int,
)
    requires
        g.wf(),
        bfs_inv(g, d, p, q, from, q.len() as int),
        bfs_closed_upto(g, d, q, q.len() as int),
    ensures
        forall|e: int|
            0 <= e < g.edges@.len() && dsome(d, #[trigger] g.edges@[e].from as int) ==> dsome(
                d,
                g.edges@[e].to as int,
            ) && dv(d, g.edges@[e].to as int) <= dv(d, g.edges@[e].from as int) + 1,
{
    assert forall|e: int|
        0 <= e < g.edges@.len() && dsome(d, #[trigger] g.edges@[e].from as int) implies dsome(
        d,
        g.edges@[e].to as int,
    ) && dv(d, g.edges@[e].to as int) <= dv(d, g.edges@[e].from as int) + 1 by {
        let w = g.edges@[e].from as int;
        let k = choose|k: int| 0 <= k < q.len() && #[trigger] q[k] == w as usize;
        assert(q[k] == w as usize);
    }
}

impl TypeGraph {
    /// Breadth-first search from `from` over the conversion edges,
    /// producing the distance map and, for every reached node other
    /// than `from`, the edge it was first reached through.
    #[verifier::loop_isolation(false)]
    #[verifier::rlimit(100)]
    #[verifier::spinoff_prover]
    fn bfs(&self, from: usize) -> (r: (Vec<Option<usize>>, Vec<Option<usize>>))
        requires
            self.wf(),
            from < self.n_len(),
        ensures
            r.0@.len() == self.n_len(),
            r.1@.len() == self.n_len(),
            r.0@[from as int] == Some(0usize),
            forall|v: int|
                0 <= v < self.n_len() && dsome(r.0@, v) && dv(r.0@, v) == 0 ==> v == from,
            forall|v: int|
                0 <= v < self.n_len() && v != from && dsome(r.0@, v) ==> r.1@[v] is Some,
            forall|v: int|
                0 <= v < self.n_len() && #[trigger] r.1@[v] is Some ==> {
                    let e = r.1@[v]->0 as int;
                    &&& 0 <= e < self.edges@.len()
                &&& self.edges@[e].to == v
                &&& dsome(r.0@, self.edges@[e].from as int)
                &&& dsome(r.0@, v)
                &&& dv(r.0@, v) == dv(r.0@, self.edges@[e].from as int) + 1
                },
            forall|e: int|
                0 <= e < self.edges@.len() && dsome(r.0@, #[trigger] self.edges@[e].from as int)
                    ==> dsome(r.0@, self.edges@[e].to as int) && dv(r.0@, self.edges@[e].to as int)
                    <= dv(r.0@, self.edges@[e].from as int) + 1,
    {
        let n = self.ntypes.len();
        let m = self.edges.len();
        let mut dist: Vec<Option<usize>> = Vec::new();
        let mut parent: Vec<Option<usize>> = Vec::new();
        let mut i: usize = 0;
        while i < n
            invariant
                i <= n,
                dist@.len() == i,
                parent@.len() == i,
                forall|v: int| 0 <= v < i ==> !dsome(dist@, v),
                forall|v: int| 0 <= v < i ==> parent@[v] is None,
            decreases n - i,
        {
            let ghost dpre = dist@;
            let ghost ppre = parent@;
            dist.push(None);
            parent.push(None);
            proof {
                assert forall|v: int| 0 <= v < i + 1 implies !dsome(dist@, v) by {
                    if v < i {
                        assert(dist@[v] == dpre[v]);
                        assert(!dsome(dpre, v));
                    } else {
                        assert(dist@[v] is None);
                    }
                }
                assert forall|v: int| 0 <= v < i + 1 implies parent@[v] is None by {
                    if v < i {
                        assert(parent@[v] == ppre[v]);
                    }
                }
            }
            i += 1;
        }
        let ghost d_init = dist@;
        set_opt(&mut dist, from, Some(0));
        let mut queue: Vec<usize> = Vec::new();
        queue.push(from);
        let mut qh: usize = 0;
        proof {
            assert(queue@ =~= seq![from]);
            lemma_bfs_init(*self, d_init, dist@, parent@, queue@, from);
        }
        while qh < queue.len()
            invariant
                bfs_inv(*self, dist@, parent@, queue@, from as int, qh as int),
                bfs_closed_upto(*self, dist@, queue@, qh as int),
            decreases n - qh,
        {
            let u = queue[qh];
            let du = dist[u].unwrap();
            let mut e: usize = 0;
            while e < m
                invariant
                    bfs_inv(*self, dist@, parent@, queue@, from as int, qh as int),
                    bfs_closed_upto(*self, dist@, queue@, qh as int),
                    bfs_u_closed(*self, dist@, u, du, e as int),
                    qh < queue@.len(),
                    u == queue@[qh as int],
                    dist@[u as int] == Some(du),
                    e <= m,
                decreases m - e,
            {
                if self.edges[e].from == u {
                    let v = self.edges[e].to;
                    if dist[v].is_none() {
                        let ghost d0 = dist@;
                        let ghost p0 = parent@;
                        let ghost q0 = queue@;
                        proof {
                            assert(du <= qh) by {
                                assert(dv(dist@, queue@[qh as int] as int) <= qh);
                            }
                        }
                        set_opt(&mut dist, v, Some(du + 1));
                        set_opt(&mut parent, v, Some(e));
                        queue.push(v);
                        proof {
                            lemma_bfs_enqueue(
                                *self, d0, p0, q0, dist@, parent@, queue@,
                                from as int, qh as int, u, du, e, v,
                            );
                        }
                    } else {
                        proof {
                            lemma_bfs_skip(
                                *self, dist@, parent@, queue@,
                                from as int, qh as int, u, du, e as int,
                            );
                        }
                    }
                }
                e += 1;
            }
            proof {
                lemma_bfs_advance(
                    *self, dist@, parent@, queue@, from as int, qh as int, u, du,
                );
            }
            qh += 1;
        }
        proof {
            lemma_bfs_final(*self, dist@, parent@, queue@, from as int);
        }
        (dist, parent)
    }
}

impl TypeGraph {
    /// Whether some chain of conversion edges leads from `a` to `b`.
    pub open spec fn reachable(self, a: int, b: int) -> bool {
        exists|p: Seq<usize>| self.path_valid(a, b, p)
    }

    /// Searches for a chain of conversion edges from `from` to `to`.
    /// A returned path is valid and no valid chain is shorter; `None`
    /// means no chain exists at all.
    #[verifier::loop_isolation(false)]
    pub fn search_path(&self, from: usize, to: usize) -> (r: Option<Vec<usize>>)
        requires
            self.wf(),
            from < self.n_len(),
            to < self.n_len(),
        ensures
            match r {
                Some(p) => self.path_valid(from as int, to as int, p@) && forall|q: Seq<usize>|
                    self.path_valid(from as int, to as int, q) ==> p@.len() <= q.len(),
                None => forall|q: Seq<usize>| !self.path_valid(from as int, to as int, q),
            },
    {
        let (dist, parent) = self.bfs(from);
        let dto = dist[to];
        match dto {
            None => {
                proof {
                    assert forall|q: Seq<usize>| !self.path_valid(from as int, to as int, q) by {
                        if self.path_valid(from as int, to as int, q) {
                            lemma_path_bound(*self, dist@, from as int, to as int, q);
                        }
                    }
                }
                None
            },
            Some(d) => {
                let mut cur: usize = to;
                let mut path: Vec<usize> = Vec::new();
                while cur != from
                    invariant
                        cur < self.n_len(),
                        dsome(dist@, cur as int),
                        self.path_valid(cur as int, to as int, path@),
                        dv(dist@, cur as int) + path@.len() == d,
                    decreases dv(dist@, cur as int),
                {
                    let e = parent[cur].unwrap();
                    let ghost pold = path@;
                    path.insert(0, e);
                    proof {
                        assert(path@ =~= seq![e] + pold);
                        assert(path@.subrange(1, path@.len() as int) =~= pold);
                    }
                    cur = self.edges[e].from;
                    proof {
                        assert(self.path_valid(cur as int, to as int, path@));
                    }
                }
                proof {
                    assert(dv(dist@, from as int) == 0);
                    assert(path@.len() == d);
                    assert forall|q: Seq<usize>|
                        self.path_valid(from as int, to as int, q) implies path@.len()
                        <= q.len() by {
                        lemma_path_bound(*self, dist@, from as int, to as int, q);
                    }
                }
                Some(path)
            },
        }
    }

    /// Whether foreign type `f` has a rule in `dir` whose native
    /// target can be reached from `from` by conversion edges.
    pub open spec fn ft_reachable(self, dir: Direction, f: int, from: int) -> bool {
        match self.ftypes@[f].rule(dir) {
            Some(rl) => self.reachable(from, rl.rust_ty as int),
            None => false,
        }
    }

    /// `s` names a foreign type whose native target is reachable from
    /// `from` in direction `dir`.
    pub open spec fn name_witnessed(self, s: Seq<char>, dir: Direction, from: int) -> bool {
        exists|f: int|
            0 <= f < self.ftypes@.len() && s == (#[trigger] self.ftypes@[f]).name@
                && self.ft_reachable(dir, f, from)
    }

    /// Every name of `r` belongs to a foreign type whose native target
    /// is reachable from `from` in direction `dir`.
    pub open spec fn names_witnessed(self, r: Seq<String>, dir: Direction, from: int) -> bool {
        forall|k: int| 0 <= k < r.len() ==> self.name_witnessed((#[trigger] r[k])@, dir, from)
    }

    /// The names of the foreign types whose native target, in the given
    /// direction, can be reached from `from` by conversion edges: the
    /// candidates listed when a resolution fails.
    #[verifier::loop_isolation(false)]
    pub fn reachable_foreign_names(&self, from: usize, dir: Direction) -> (r: Vec<String>)
        requires
            self.wf(),
            from < self.n_len(),
        ensures
            forall|f: int|
                0 <= f < self.ftypes@.len() && #[trigger] self.ft_reachable(dir, f, from as int)
                    ==> seq_has_text(r@, self.ftypes@[f].name@),
            self.names_witnessed(r@, dir, from as int),
    {
        let mut r: Vec<String> = Vec::new();
        let ghost mut wits: Seq<int> = Seq::empty();
        let mut f: usize = 0;
        while f < self.ftypes.len()
            invariant
                f <= self.ftypes@.len(),
                wits.len() == r@.len(),
                forall|g: int|
                    0 <= g < f && #[trigger] self.ft_reachable(dir, g, from as int)
                        ==> seq_has_text(r@, self.ftypes@[g].name@),
                forall|k: int|
                    0 <= k < r@.len() ==> 0 <= #[trigger] wits[k] < self.ftypes@.len()
                        && r@[k]@ == self.ftypes@[wits[k]].name@ && self.ft_reachable(
                        dir,
                        wits[k],
                        from as int,
                    ),
            decreases self.ftypes@.len() - f,
        {
            let ft = &self.ftypes[f];
            let rule = match dir {
                Direction::Outgoing => &ft.into_from_rust,
                Direction::Incoming => &ft.from_into_rust,
            };
            let ghost rprev = r@;
            match rule {
                Some(rl) => {
                    match self.search_path(from, rl.rust_ty) {
                        Some(p) => {
                            proof {
                                assert(self.path_valid(from as int, rl.rust_ty as int, p@));
                                assert(self.ft_reachable(dir, f as int, from as int));
                            }
                            r.push(ft.name.clone());
                            proof {
                                wits = wits.push(f as int);
                                assert(r@[r@.len() - 1]@ == self.ftypes@[f as int].name@);
                                assert forall|k: int|
                                    0 <= k < r@.len() implies 0 <= #[trigger] wits[k]
                                        < self.ftypes@.len() && r@[k]@
                                        == self.ftypes@[wits[k]].name@ && self.ft_reachable(
                                        dir,
                                        wits[k],
                                        from as int,
                                    ) by {
                                    if k < rprev.len() {
                                        assert(r@[k] == rprev[k]);
                                    }
                                }
                                assert forall|g: int|
                                    0 <= g < f + 1 && #[trigger] self.ft_reachable(
                                        dir,
                                        g,
                                        from as int,
                                    ) implies seq_has_text(r@, self.ftypes@[g].name@) by {
                                    if g < f {
                                        assert(seq_has_text(rprev, self.ftypes@[g].name@));
                                        let k = choose|k: int|
                                            0 <= k < rprev.len() && #[trigger] rprev[k]@
                                                == self.ftypes@[g].name@;
                                        assert(r@[k]@ == self.ftypes@[g].name@);
                                    } else {
                                        assert(r@[r@.len() - 1]@ == self.ftypes@[g].name@);
                                    }
                                }
                            }
                        },
                        None => {
                            proof {
                                assert(!self.ft_reachable(dir, f as int, from as int)) by {
                                    if self.reachable(from as int, rl.rust_ty as int) {
                                        let p = choose|p: Seq<usize>|
                                            self.path_valid(from as int, rl.rust_ty as int, p);
                                        assert(false);
                                    }
                                }
                            }
                        },
                    }
                },
                None => {
                    proof {
                        assert(!self.ft_reachable(dir, f as int, from as int));
                    }
                },
            }
            f += 1;
        }
        proof {
            assert forall|k: int| 0 <= k < r@.len() implies self.name_witnessed(
                (#[trigger] r@[k])@,
                dir,
                from as int,
            ) by {
                let g = wits[k];
                assert(0 <= g < self.ftypes@.len() && r@[k]@ == self.ftypes@[g].name@
                    && self.ft_reachable(dir, g, from as int));
            }
        }
        r
    }
}

/// Path validity reads the edges alone: two graphs with the same
/// edges agree on every path.
pub proof fn lemma_path_valid_congruent(g1: TypeGraph, g2: TypeGraph, from: int, to: int, p: Seq<usize>)
    requires
        g1.edges@ == g2.edges@,
    ensures
        g1.path_valid(from, to, p) == g2.path_valid(from, to, p),
    decreases p.len(),
{
    if p.len() > 0 {
        if 0 <= p[0] < g1.edges@.len() {
            lemma_path_valid_congruent(
                g1,
                g2,
                g1.edges@[p[0] as int].to as int,
                to,
                p.subrange(1, p.len() as int),
            );
        }
    }
}

/// Reachability reads the edges alone.
pub proof fn lemma_reachable_congruent(g1: TypeGraph, g2: TypeGraph, from: int, to: int)
    requires
        g1.edges@ == g2.edges@,
    ensures
        g1.reachable(from, to) == g2.reachable(from, to),
{
    if g1.reachable(from, to) {
        let p = choose|p: Seq<usize>| g1.path_valid(from, to, p);
        lemma_path_valid_congruent(g1, g2, from, to, p);
    }
    if g2.reachable(from, to) {
        let p = choose|p: Seq<usize>| g2.path_valid(from, to, p);
        lemma_path_valid_congruent(g1, g2, from, to, p);
    }
}

/// Every edge index of a valid path lies inside the edge arena.
pub proof fn lemma_path_edges_in_range(g: TypeGraph, from: int, to: int, p: Seq<usize>)
    requires
        g.path_valid(from, to, p),
    ensures
        forall|i: int| 0 <= i < p.len() ==> #[trigger] p[i] < g.edges@.len(),
    decreases p.len(),
{
    if p.len() > 0 {
        let rest = p.subrange(1, p.len() as int);
        lemma_path_edges_in_range(g, g.edges@[p[0] as int].to as int, to, rest);
        assert forall|i: int| 0 <= i < p.len() implies #[trigger] p[i] < g.edges@.len() by {
            if i >= 1 {
                assert(rest[i - 1] == p[i]);
            }
        }
    }
}

/// A registered native text stays registered while the native arena
/// only grows.
pub proof fn lemma_native_preserved(a: TypeGraph, b: TypeGraph, t: Seq<char>)
    requires
        a.has_native(t),
        b.n_len() >= a.n_len(),
        forall|j: int| 0 <= j < a.n_len() ==> #[trigger] b.ntypes@[j] == a.ntypes@[j],
    ensures
        b.has_native(t),
{
    let w = choose|i: int| 0 <= i < a.n_len() && #[trigger] a.ntext(i) == t;
    assert(b.ntypes@[w] == a.ntypes@[w]);
    assert(b.ntext(w) == t);
}

/// A registered foreign name stays registered while the foreign arena
/// only grows.
pub proof fn lemma_foreign_name_preserved(a: TypeGraph, b: TypeGraph, name: Seq<char>)
    requires
        a.has_foreign_name(name),
        a.ftypes@.len() <= b.ftypes@.len(),
        forall|f: int| 0 <= f < a.ftypes@.len() ==> #[trigger] b.ftypes@[f] == a.ftypes@[f],
    ensures
        b.has_foreign_name(name),
{
    let w = choose|f: int| 0 <= f < a.ftypes@.len() && #[trigger] a.ftypes@[f].name@ == name;
    assert(b.ftypes@[w].name@ == name);
}

/// The relation method generation preserves on the graph: the foreign
/// arena only grows, and every record already there keeps its name.
/// Rule installation may still fill a record's empty direction.
pub open spec fn foreign_names_preserved(a: TypeGraph, b: TypeGraph) -> bool {
    &&& a.ftypes@.len() <= b.ftypes@.len()
    &&& forall|f: int|
        0 <= f < a.ftypes@.len() ==> (#[trigger] b.ftypes@[f]).name == a.ftypes@[f].name
}

/// A registered foreign name survives any change that keeps names.
pub proof fn lemma_foreign_name_kept(a: TypeGraph, b: TypeGraph, name: Seq<char>)
    requires
        a.has_foreign_name(name),
        foreign_names_preserved(a, b),
    ensures
        b.has_foreign_name(name),
{
    let w = choose|f: int| 0 <= f < a.ftypes@.len() && #[trigger] a.ftypes@[f].name@ == name;
    assert(b.ftypes@[w].name@ == name);
}

impl TypeGraph {
    /// Checks well-formedness at run time: for callers outside the
    /// verified world that assemble a graph before handing it in.
    #[verifier::loop_isolation(false)]
    pub fn check_wf(&self) -> (r: bool)
        ensures
            r == self.wf(),
    {
        let n = self.ntypes.len();
        let mut i: usize = 0;
        while i < n
            invariant
                n == self.n_len(),
                i <= n,
                forall|a: int, b: int|
                    0 <= a < b < i ==> #[trigger] self.ntext(a) != #[trigger] self.ntext(b),
                forall|a: int, b: int|
                    0 <= a < i && a < b < n ==> #[trigger] self.ntext(a) != #[trigger] self.ntext(
                        b,
                    ),
            decreases n - i,
        {
            let mut j: usize = i + 1;
            while j < n
                invariant
                    i < j,
                    j <= n,
                    i < n,
                    forall|b: int| i < b < j ==> self.ntext(i as int) != #[trigger] self.ntext(b),
                decreases n - j,
            {
                if str_eq(self.ntypes[i].text.as_str(), self.ntypes[j].text.as_str()) {
                    proof {
                        assert(self.ntext(i as int) == self.ntext(j as int));
                        assert(!self.wf());
                    }
                    return false;
                }
                j += 1;
            }
            i += 1;
        }
        let mut e: usize = 0;
        while e < self.edges.len()
            invariant
                n == self.n_len(),
                e <= self.edges@.len(),
                forall|a: int, b: int|
                    0 <= a < b < n ==> #[trigger] self.ntext(a) != #[trigger] self.ntext(b),
                forall|k: int|
                    0 <= k < e ==> (#[trigger] self.edges@[k].from < n && self.edges@[k].to < n),
            decreases self.edges@.len() - e,
        {
            if self.edges[e].from >= n || self.edges[e].to >= n {
                return false;
            }
            e += 1;
        }
        let mut f: usize = 0;
        while f < self.ftypes.len()
            invariant
                n == self.n_len(),
                f <= self.ftypes@.len(),
                forall|a: int, b: int|
                    0 <= a < b < n ==> #[trigger] self.ntext(a) != #[trigger] self.ntext(b),
                forall|k: int|
                    0 <= k < self.edges@.len() ==> (#[trigger] self.edges@[k].from < n
                        && self.edges@[k].to < n),
                forall|k: int| 0 <= k < f ==> (#[trigger] self.ftypes@[k]).valid(n as nat),
            decreases self.ftypes@.len() - f,
        {
            let ft = &self.ftypes[f];
            let mut ok = true;
            match &ft.into_from_rust {
                Some(rl) => {
                    if rl.rust_ty >= n {
                        ok = false;
                    }
                    match &rl.intermediate {
                        Some(im) => {
                            if im.intermediate_ty >= n {
                                ok = false;
                            }
                        },
                        None => {},
                    }
                },
                None => {},
            }
            match &ft.from_into_rust {
                Some(rl) => {
                    if rl.rust_ty >= n {
                        ok = false;
                    }
                    match &rl.intermediate {
                        Some(im) => {
                            if im.intermediate_ty >= n {
                                ok = false;
                            }
                        },
                        None => {},
                    }
                },
                None => {},
            }
            if !ok {
                return false;
            }
            f += 1;
        }
        true
    }
}

/// In a well-formed graph two native types with the same text are one:
/// looking a text up twice yields the same index.
pub proof fn lemma_native_index_unique(g: TypeGraph, i: int, j: int)
    requires
        g.wf(),
        0 <= i < g.n_len(),
        0 <= j < g.n_len(),
        g.ntext(i) == g.ntext(j),
    ensures
        i == j,
{
}

} // verus!
