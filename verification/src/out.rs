//! The output aggregator: per-module in-memory buffers, item
//! deduplication inside a module, and the write/delete plan computed
//! against what is already on disk.  The aggregator never touches the
//! file system itself; the caller reads and writes files and hands the
//! contents in and out as plain values.
use vstd::prelude::*;

verus! {

use crate::text::{dec_of, dec_u64, seq_has_text, str_eq, vec_has_text};

/// One output module: a buffered file and the names of the items
/// already defined in it.
pub struct ModuleFile {
    pub name: String,
    pub content: String,
    pub defined_items: Vec<String>,
}

/// The fixed text opening every generated header: fixed-width integer
/// header inclusion and a pointer-width compile-time assertion.
pub open spec fn prologue_text(tpw: nat) -> Seq<char> {
    "// Automatically generated by flapigen\n#pragma once\n\n//for (u)intX_t types\n#inc"@
        + "lude <stdint.h>\n\n#ifdef __cplusplus\nstatic_assert(sizeof(uintptr_t) == sizeof(uint8_t) * "@
        + dec_of(tpw / 8) + ",\n   \"our conversation usize <-> uintptr_t is wrong\");\n#endif\n"@
}

/// Renders the fixed module prologue for a pointer width in bits.
pub fn make_prologue(target_pointer_width: u64) -> (r: String)
    ensures
        r@ == prologue_text(target_pointer_width as nat),
{
    let mut s =
        "// Automatically generated by flapigen\n#pragma once\n\n//for (u)intX_t types\n#inc".to_owned();
    s.append("lude <stdint.h>\n\n#ifdef __cplusplus\nstatic_assert(sizeof(uintptr_t) == sizeof(uint8_t) * ");
    let w = dec_u64(target_pointer_width / 8);
    s.append(w.as_str());
    s.append(",\n   \"our conversation usize <-> uintptr_t is wrong\");\n#endif\n");
    proof {
        assert(s@ =~= prologue_text(target_pointer_width as nat));
    }
    s
}

/// The per-module buffers of one generation run.
pub struct OutputModules {
    pub files: Vec<ModuleFile>,
    pub target_pointer_width: u64,
}

impl OutputModules {
    /// Whether a module of this name is open.
    pub open spec fn has_module(self, name: Seq<char>) -> bool {
        exists|i: int| 0 <= i < self.files@.len() && #[trigger] self.files@[i].name@ == name
    }

    /// Module names are unique.
    pub open spec fn wf(self) -> bool {
        forall|i: int, j: int|
            0 <= i < j < self.files@.len() ==> #[trigger] self.files@[i].name@ != #[trigger] self.files@[j].name@
    }

    /// An aggregator with no modules yet.
    pub fn new(target_pointer_width: u64) -> (r: OutputModules)
        ensures
            r.wf(),
            r.files@.len() == 0,
            r.target_pointer_width == target_pointer_width,
    {
        OutputModules { files: Vec::new(), target_pointer_width }
    }

    /// Finds the module of this name.
    pub fn find_module(&self, name: &str) -> (r: Option<usize>)
        ensures
            match r {
                Some(i) => i < self.files@.len() && self.files@[i as int].name@ == name@,
                None => !self.has_module(name@),
            },
    {
        let mut i: usize = 0;
        while i < self.files.len()
            invariant
                i <= self.files@.len(),
                forall|k: int| 0 <= k < i ==> #[trigger] self.files@[k].name@ != name@,
            decreases self.files@.len() - i,
        {
            if str_eq(self.files[i].name.as_str(), name) {
                return Some(i);
            }
            i += 1;
        }
        None
    }

    /// Opens the module of this name, creating it with the fixed
    /// prologue when it does not exist yet; a repeat open changes
    /// nothing.
    #[verifier::loop_isolation(false)]
    pub fn open_module(&mut self, name: &str) -> (idx: usize)
        requires
            old(self).wf(),
        ensures
            final(self).wf(),
            final(self).target_pointer_width == old(self).target_pointer_width,
            idx < final(self).files@.len(),
            final(self).files@[idx as int].name@ == name@,
            old(self).has_module(name@) ==> *final(self) == *old(self),
            !old(self).has_module(name@) ==> {
                &&& idx == old(self).files@.len()
            &&& final(self).files@ == old(self).files@.push(final(self).files@[idx as int])
            &&& final(self).files@[idx as int].content@ == prologue_text(
                    old(self).target_pointer_width as nat,
                )
            &&& final(self).files@[idx as int].defined_items@.len() == 0
            },
    {
        match self.find_module(name) {
            Some(i) => i,
            None => {
                let idx = self.files.len();
                let content = make_prologue(self.target_pointer_width);
                self.files.push(
                    ModuleFile { name: name.to_owned(), content, defined_items: Vec::new() },
                );
                proof {
                    assert forall|i: int, j: int|
                        0 <= i < j < self.files@.len() implies #[trigger] self.files@[i].name@
                        != #[trigger] self.files@[j].name@ by {
                        if j < old(self).files@.len() {
                            assert(old(self).files@[i].name@ != old(self).files@[j].name@);
                        } else {
                            assert(self.files@[j].name@ == name@);
                            assert(self.files@[i] == old(self).files@[i]);
                            assert(!old(self).has_module(name@));
                        }
                    }
                }
                idx
            },
        }
    }

    /// Appends text to an open module.
    pub fn write_module(&mut self, idx: usize, text: &str)
        requires
            old(self).wf(),
            idx < old(self).files@.len(),
        ensures
            final(self).wf(),
            final(self).target_pointer_width == old(self).target_pointer_width,
            final(self).files@.len() == old(self).files@.len(),
            forall|k: int|
                0 <= k < final(self).files@.len() && k != idx ==> final(self).files@[k] == old(
                    self,
                ).files@[k],
            final(self).files@[idx as int].name == old(self).files@[idx as int].name,
            final(self).files@[idx as int].defined_items == old(
                self,
            ).files@[idx as int].defined_items,
            final(self).files@[idx as int].content@ == old(self).files@[idx as int].content@
                + text@,
    {
        let fref = &mut self.files[idx];
        fref.content.append(text);
        proof {
            assert forall|i: int, j: int|
                0 <= i < j < self.files@.len() implies #[trigger] self.files@[i].name@
                != #[trigger] self.files@[j].name@ by {
                assert(old(self).files@[i].name@ != old(self).files@[j].name@);
                assert(self.files@[i].name == old(self).files@[i].name);
                assert(self.files@[j].name == old(self).files@[j].name);
            }
        }
    }

    /// Whether an item of this name was already defined in the module:
    /// lets the merger suppress duplicate forward declarations.
    pub fn is_item_defined(&self, idx: usize, item: &str) -> (r: bool)
        requires
            idx < self.files@.len(),
        ensures
            r == seq_has_text(self.files@[idx as int].defined_items@, item@),
    {
        vec_has_text(&self.files[idx].defined_items, item)
    }

    /// Records that an item of this name is now defined in the module.
    pub fn define_item(&mut self, idx: usize, item: &str)
        requires
            old(self).wf(),
            idx < old(self).files@.len(),
        ensures
            final(self).wf(),
            final(self).target_pointer_width == old(self).target_pointer_width,
            final(self).files@.len() == old(self).files@.len(),
            forall|k: int|
                0 <= k < final(self).files@.len() && k != idx ==> final(self).files@[k] == old(
                    self,
                ).files@[k],
            final(self).files@[idx as int].name == old(self).files@[idx as int].name,
            final(self).files@[idx as int].content == old(self).files@[idx as int].content,
            final(self).files@[idx as int].defined_items@ == old(
                self,
            ).files@[idx as int].defined_items@.push(
                final(self).files@[idx as int].defined_items@.last(),
            ),
            final(self).files@[idx as int].defined_items@.last()@ == item@,
    {
        let fref = &mut self.files[idx];
        fref.defined_items.push(item.to_owned());
        proof {
            assert forall|i: int, j: int|
                0 <= i < j < self.files@.len() implies #[trigger] self.files@[i].name@
                != #[trigger] self.files@[j].name@ by {
                assert(old(self).files@[i].name@ != old(self).files@[j].name@);
                assert(self.files@[i].name == old(self).files@[i].name);
                assert(self.files@[j].name == old(self).files@[j].name);
            }
        }
    }
}

/// One entry of the write plan: the file of this name must be written
/// with this content.
pub struct WriteAction {
    pub name: String,
    pub content: String,
}

/// What is on disk for one module before the run flushes.
pub struct DiskState {
    pub name: String,
    pub content: Option<String>,
}

/// Whether the disk already holds exactly the buffered content.
pub open spec fn disk_matches(d: DiskState, content: Seq<char>) -> bool {
    match d.content {
        Some(c) => c@ == content,
        None => false,
    }
}

impl OutputModules {
    /// `a` writes the buffered content of one of the modules, and that
    /// module's content is not already on disk.
    pub open spec fn action_is_due(self, a: WriteAction, disk: Seq<DiskState>) -> bool {
        exists|i: int|
            0 <= i < self.files@.len() && a.name@ == (#[trigger] self.files@[i]).name@
                && a.content@ == self.files@[i].content@ && !disk_matches(
                disk[i],
                self.files@[i].content@,
            )
    }

    /// Computes which files must be written: exactly those whose
    /// buffered content differs from what is on disk.  `disk` lists,
    /// in module order, what the caller found on disk for each module.
    /// Running over unchanged inputs therefore writes nothing and
    /// leaves every modification time alone.
    #[verifier::loop_isolation(false)]
    pub fn flush_plan(&self, disk: &Vec<DiskState>) -> (plan: Vec<WriteAction>)
        requires
            disk@.len() == self.files@.len(),
            forall|i: int|
                0 <= i < disk@.len() ==> (#[trigger] disk@[i].name)@ == self.files@[i].name@,
        ensures
            forall|i: int|
                0 <= i < self.files@.len() && !disk_matches(
                    #[trigger] disk@[i],
                    self.files@[i].content@,
                ) ==> exists|k: int|
                    0 <= k < plan@.len() && (#[trigger] plan@[k]).name@ == self.files@[i].name@
                        && plan@[k].content@ == self.files@[i].content@,
            forall|k: int|
                0 <= k < plan@.len() ==> self.action_is_due(#[trigger] plan@[k], disk@),
            forall|i: int|
                0 <= i < self.files@.len() && disk_matches(
                    #[trigger] disk@[i],
                    self.files@[i].content@,
                ) && self.wf() ==> !seq_has_text_names(plan@, self.files@[i].name@),
    {
        let mut plan: Vec<WriteAction> = Vec::new();
        let ghost mut wits: Seq<int> = Seq::empty();
        let mut i: usize = 0;
        while i < self.files.len()
            invariant
                i <= self.files@.len(),
                wits.len() == plan@.len(),
                forall|j: int|
                    0 <= j < i && !disk_matches(#[trigger] disk@[j], self.files@[j].content@)
                        ==> exists|k: int|
                        0 <= k < plan@.len() && (#[trigger] plan@[k]).name@
                            == self.files@[j].name@ && plan@[k].content@
                            == self.files@[j].content@,
                forall|k: int|
                    0 <= k < plan@.len() ==> 0 <= #[trigger] wits[k] < self.files@.len()
                        && plan@[k].name@ == self.files@[wits[k]].name@ && plan@[k].content@
                        == self.files@[wits[k]].content@ && !disk_matches(
                        disk@[wits[k]],
                        self.files@[wits[k]].content@,
                    ),
            decreases self.files@.len() - i,
        {
            let f = &self.files[i];
            let d = &disk[i];
            let same = match &d.content {
                Some(c) => str_eq(c.as_str(), f.content.as_str()),
                None => false,
            };
            if !same {
                let ghost pprev = plan@;
                plan.push(
                    WriteAction { name: f.name.clone(), content: f.content.clone() },
                );
                proof {
                    wits = wits.push(i as int);
                    assert forall|k: int|
                        0 <= k < plan@.len() implies 0 <= #[trigger] wits[k] < self.files@.len()
                            && plan@[k].name@ == self.files@[wits[k]].name@ && plan@[k].content@
                            == self.files@[wits[k]].content@ && !disk_matches(
                            disk@[wits[k]],
                            self.files@[wits[k]].content@,
                        ) by {
                        if k < pprev.len() {
                            assert(plan@[k] == pprev[k]);
                        }
                    }
                    assert forall|j: int|
                        0 <= j < i + 1 && !disk_matches(
                            #[trigger] disk@[j],
                            self.files@[j].content@,
                        ) implies exists|k: int|
                        0 <= k < plan@.len() && (#[trigger] plan@[k]).name@
                            == self.files@[j].name@ && plan@[k].content@
                            == self.files@[j].content@ by {
                        if j < i {
                            let k = choose|k: int|
                                0 <= k < pprev.len() && (#[trigger] pprev[k]).name@
                                    == self.files@[j].name@ && pprev[k].content@
                                    == self.files@[j].content@;
                            assert(plan@[k] == pprev[k]);
                        } else {
                            assert((plan@[plan@.len() - 1]).name@ == self.files@[j].name@
                                && plan@[plan@.len() - 1].content@ == self.files@[j].content@);
                        }
                    }
                }
            }
            i += 1;
        }
        proof {
            assert forall|k: int| 0 <= k < plan@.len() implies self.action_is_due(
                #[trigger] plan@[k],
                disk@,
            ) by {
                let w = wits[k];
                assert(0 <= w < self.files@.len() && plan@[k].name@
                    == (self.files@[w]).name@ && plan@[k].content@ == self.files@[w].content@
                    && !disk_matches(disk@[w], self.files@[w].content@));
            }
            assert forall|i2: int|
                0 <= i2 < self.files@.len() && disk_matches(
                    #[trigger] disk@[i2],
                    self.files@[i2].content@,
                ) && self.wf() implies !seq_has_text_names(plan@, self.files@[i2].name@) by {
                if seq_has_text_names(plan@, self.files@[i2].name@) {
                    let k = choose|k: int|
                        0 <= k < plan@.len() && (#[trigger] plan@[k]).name@
                            == self.files@[i2].name@;
                    let w = wits[k];
                    assert(self.files@[w].name@ == self.files@[i2].name@);
                    if w != i2 {
                        if w < i2 {
                            assert(self.files@[w].name@ != self.files@[i2].name@);
                        } else {
                            assert(self.files@[i2].name@ != self.files@[w].name@);
                        }
                    }
                }
            }
        }
        plan
    }
}

/// Whether some action of `plan` names `x`.
pub open spec fn seq_has_text_names(plan: Seq<WriteAction>, x: Seq<char>) -> bool {
    exists|k: int| 0 <= k < plan.len() && (#[trigger] plan[k]).name@ == x
}

/// A run over unchanged inputs writes nothing: when every module's
/// buffered content already stands on disk, the write plan is empty.
pub proof fn lemma_no_change_no_write(m: OutputModules, disk: Seq<DiskState>, plan: Seq<WriteAction>)
    requires
        disk.len() == m.files@.len(),
        forall|k: int| 0 <= k < plan.len() ==> m.action_is_due(#[trigger] plan[k], disk),
        forall|i: int| 0 <= i < disk.len() ==> disk_matches(#[trigger] disk[i], m.files@[i].content@),
    ensures
        plan.len() == 0,
{
    if plan.len() > 0 {
        assert(m.action_is_due(plan[0], disk));
        let i = choose|i: int|
            0 <= i < m.files@.len() && plan[0].name@ == (#[trigger] m.files@[i]).name@
                && plan[0].content@ == m.files@[i].content@ && !disk_matches(
                disk[i],
                m.files@[i].content@,
            );
        assert(disk_matches(disk[i], m.files@[i].content@));
    }
}

/// Computes which files in the output directory are stale: present,
/// carrying one of the configured extensions, and not produced by this
/// run.  `listing` holds the names found in the directory and
/// `generated` those the run emitted.
pub fn stale_files(listing: &Vec<String>, extensions: &Vec<String>, generated: &Vec<String>) -> (r:
    Vec<String>)
    ensures
        forall|k: int|
            0 <= k < r@.len() ==> seq_has_text(listing@, (#[trigger] r@[k])@) && has_listed_ext(
                extensions@,
                r@[k]@,
            ) && !seq_has_text(generated@, r@[k]@),
        forall|j: int|
            0 <= j < listing@.len() && has_listed_ext(extensions@, (#[trigger] listing@[j])@)
                && !seq_has_text(generated@, listing@[j]@) ==> seq_has_text(r@, listing@[j]@),
{
    let mut r: Vec<String> = Vec::new();
    let mut j: usize = 0;
    while j < listing.len()
        invariant
            j <= listing@.len(),
            forall|k: int|
                0 <= k < r@.len() ==> seq_has_text(listing@, (#[trigger] r@[k])@)
                    && has_listed_ext(extensions@, r@[k]@) && !seq_has_text(generated@, r@[k]@),
            forall|j2: int|
                0 <= j2 < j && has_listed_ext(extensions@, (#[trigger] listing@[j2])@)
                    && !seq_has_text(generated@, listing@[j2]@) ==> seq_has_text(
                    r@,
                    listing@[j2]@,
                ),
        decreases listing@.len() - j,
    {
        let name = &listing[j];
        let ghost rprev = r@;
        if has_extension_in(name.as_str(), extensions) && !vec_has_text(generated, name.as_str()) {
            r.push(name.clone());
            proof {
                assert(r@[r@.len() - 1]@ == listing@[j as int]@);
                assert(seq_has_text(listing@, r@[r@.len() - 1]@));
                assert forall|k: int|
                    0 <= k < r@.len() implies seq_has_text(listing@, (#[trigger] r@[k])@)
                        && has_listed_ext(extensions@, r@[k]@) && !seq_has_text(
                        generated@,
                        r@[k]@,
                    ) by {
                    if k < rprev.len() {
                        assert(r@[k] == rprev[k]);
                    }
                }
                assert forall|j2: int|
                    0 <= j2 < j + 1 && has_listed_ext(extensions@, (#[trigger] listing@[j2])@)
                        && !seq_has_text(generated@, listing@[j2]@) implies seq_has_text(
                    r@,
                    listing@[j2]@,
                ) by {
                    if j2 < j {
                        let k = choose|k: int|
                            0 <= k < rprev.len() && #[trigger] rprev[k]@ == listing@[j2]@;
                        assert(r@[k]@ == listing@[j2]@);
                    } else {
                        assert(r@[r@.len() - 1]@ == listing@[j2]@);
                    }
                }
            }
        }
        j += 1;
    }
    r
}

/// Whether `name` ends in a dot followed by one of the extensions.
pub open spec fn ext_matches(name: Seq<char>, ext: Seq<char>) -> bool {
    &&& name.len() > ext.len()
&&& name.subrange(name.len() - ext.len(), name.len() as int) == ext
&&& name[name.len() - ext.len() - 1] == '.'
}

/// Whether `name` carries one of the listed extensions.
pub open spec fn has_listed_ext(extensions: Seq<String>, name: Seq<char>) -> bool {
    exists|x: int| 0 <= x < extensions.len() && ext_matches(name, (#[trigger] extensions[x])@)
}

/// Extension test against a list of extensions.
pub fn has_extension_in(name: &str, extensions: &Vec<String>) -> (r: bool)
    ensures
        r == has_listed_ext(extensions@, name@),
{
    let nlen: usize = name.unicode_len();
    let mut x: usize = 0;
    while x < extensions.len()
        invariant
            nlen == name@.len(),
            x <= extensions@.len(),
            forall|x2: int| 0 <= x2 < x ==> !ext_matches(name@, (#[trigger] extensions@[x2])@),
        decreases extensions@.len() - x,
    {
        let ext = &extensions[x];
        let elen: usize = ext.as_str().unicode_len();
        if elen < nlen {
            let tail_ok = crate::text::matches_at(name, ext.as_str(), nlen - elen);
            if tail_ok && name.get_char(nlen - elen - 1) == '.' {
                proof {
                    assert(ext_matches(name@, extensions@[x as int]@));
                }
                return true;
            }
        }
        x += 1;
    }
    false
}

} // verus!
