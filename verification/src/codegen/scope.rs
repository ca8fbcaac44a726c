//! The scoped symbol table used during code generation: the same stack
//! discipline as the semantic table, with a payload that additionally
//! carries the storage name the binding was lowered to (distinct from the
//! source name when renaming is needed for the IR).

use vstd::prelude::*;
use crate::types::{str_eq, Type, TypeV};

verus! {

/// The payload of one code-generation binding: declared type and lowered
/// storage name.
#[derive(Debug)]
pub struct CodegenSymbolInfo {
    pub name: String,
    pub symbol_type: Type,
    pub storage: String,
}

/// Specification view of [`CodegenSymbolInfo`].
pub struct CodegenSymbolInfoV {
    pub name: Seq<char>,
    pub symbol_type: TypeV,
    pub storage: Seq<char>,
}

impl View for CodegenSymbolInfo {
    type V = CodegenSymbolInfoV;

    open spec fn view(&self) -> CodegenSymbolInfoV {
        CodegenSymbolInfoV {
            name: self.name@,
            symbol_type: self.symbol_type@,
            storage: self.storage@,
        }
    }
}

impl Clone for CodegenSymbolInfo {
    fn clone(&self) -> (r: Self)
        ensures
            r@ == self@,
    {
        CodegenSymbolInfo {
            name: self.name.clone(),
            symbol_type: self.symbol_type.clone(),
            storage: self.storage.clone(),
        }
    }
}

/// One frame, folded into a map where a later binding of a name wins.
pub open spec fn cg_frame_map(fr: Seq<CodegenSymbolInfoV>) -> Map<Seq<char>, CodegenSymbolInfoV>
    decreases fr.len(),
{
    if fr.len() == 0 {
        Map::empty()
    } else {
        cg_frame_map(fr.drop_last()).insert(fr.last().name, fr.last())
    }
}

/// Lookup through a frame stack, innermost (last) frame first.
pub open spec fn cg_scopes_lookup(
    v: Seq<Map<Seq<char>, CodegenSymbolInfoV>>,
    name: Seq<char>,
) -> Option<CodegenSymbolInfoV>
    decreases v.len(),
{
    if v.len() == 0 {
        None
    } else if v.last().contains_key(name) {
        Some(v.last()[name])
    } else {
        cg_scopes_lookup(v.drop_last(), name)
    }
}

/// The last entry of a frame bearing a name is what the frame map holds for
/// that name.
pub proof fn lemma_cg_frame_map_found(fr: Seq<CodegenSymbolInfoV>, i: int)
    requires
        0 <= i < fr.len(),
        forall|j: int| i < j < fr.len() ==> fr[j].name != fr[i].name,
    ensures
        cg_frame_map(fr).contains_key(fr[i].name),
        cg_frame_map(fr)[fr[i].name] == fr[i],
    decreases fr.len(),
{
    if i < fr.len() - 1 {
        lemma_cg_frame_map_found(fr.drop_last(), i);
        assert(forall|j: int| 0 <= j < fr.len() - 1 ==> fr.drop_last()[j] == fr[j]);
    }
}

/// A name borne by no entry of a frame is absent from its map.
pub proof fn lemma_cg_frame_map_absent(fr: Seq<CodegenSymbolInfoV>, name: Seq<char>)
    requires
        forall|j: int| 0 <= j < fr.len() ==> fr[j].name != name,
    ensures
        !cg_frame_map(fr).contains_key(name),
    decreases fr.len(),
{
    if fr.len() > 0 {
        lemma_cg_frame_map_absent(fr.drop_last(), name);
    }
}

/// Frames above `k` that lack a name do not affect its lookup.
pub proof fn lemma_cg_scopes_lookup_skip(
    v: Seq<Map<Seq<char>, CodegenSymbolInfoV>>,
    name: Seq<char>,
    k: int,
)
    requires
        0 <= k <= v.len(),
        forall|j: int| k <= j < v.len() ==> !v[j].contains_key(name),
    ensures
        cg_scopes_lookup(v, name) == cg_scopes_lookup(v.subrange(0, k), name),
    decreases v.len(),
{
    if k == v.len() {
        assert(v.subrange(0, k) =~= v);
    } else {
        lemma_cg_scopes_lookup_skip(v.drop_last(), name, k);
        assert(v.drop_last().subrange(0, k) =~= v.subrange(0, k));
    }
}

/// Scans one frame for the latest entry bearing `name`.
fn cg_frame_find(frame: &Vec<CodegenSymbolInfo>, name: &str) -> (r: Option<usize>)
    ensures
        ({
            let frv = frame@.map_values(|s: CodegenSymbolInfo| s@);
            match r {
                Some(j) => (j as int) < frv.len() && frv[j as int].name == name@ && forall|t: int|
                    j < t < frv.len() ==> frv[t].name != name@,
                None => forall|t: int| 0 <= t < frv.len() ==> frv[t].name != name@,
            }
        }),
{
    let ghost frv = frame@.map_values(|s: CodegenSymbolInfo| s@);
    let mut j = frame.len();
    while j > 0
        invariant
            0 <= j <= frv.len(),
            frv == frame@.map_values(|s: CodegenSymbolInfo| s@),
            frv.len() == frame@.len(),
            forall|t: int| j <= t < frv.len() ==> frv[t].name != name@,
        decreases j,
    {
        j -= 1;
        if str_eq(frame[j].name.as_str(), name) {
            return Some(j);
        }
    }
    None
}

/// The scoped symbol table of the code generator.
#[derive(Debug)]
pub struct CodegenSymbolTable {
    pub scopes: Vec<Vec<CodegenSymbolInfo>>,
}

impl View for CodegenSymbolTable {
    type V = Seq<Map<Seq<char>, CodegenSymbolInfoV>>;

    open spec fn view(&self) -> Seq<Map<Seq<char>, CodegenSymbolInfoV>> {
        self.scopes@.map_values(
            |fr: Vec<CodegenSymbolInfo>| cg_frame_map(
                fr@.map_values(|s: CodegenSymbolInfo| s@),
            ),
        )
    }
}

impl CodegenSymbolTable {
    /// A fresh table with a single empty scope.
    pub fn new() -> (r: Self)
        ensures
            r@ =~= seq![Map::<Seq<char>, CodegenSymbolInfoV>::empty()],
    {
        let mut scopes: Vec<Vec<CodegenSymbolInfo>> = Vec::new();
        scopes.push(Vec::new());
        let r = CodegenSymbolTable { scopes };
        proof {
            assert(r@.len() == 1);
            assert(r@[0] =~= Map::<Seq<char>, CodegenSymbolInfoV>::empty());
        }
        r
    }

    /// Pushes a fresh innermost scope.
    pub fn enter_scope(&mut self)
        ensures
            final(self)@ =~= old(self)@.push(Map::empty()),
    {
        self.scopes.push(Vec::new());
        proof {
            assert(final(self)@.len() == old(self)@.len() + 1);
            assert(forall|j: int|
                0 <= j < old(self)@.len() ==> final(self)@[j] == old(self)@[j]);
            assert(final(self)@.last() =~= Map::<Seq<char>, CodegenSymbolInfoV>::empty());
        }
    }

    /// Pops the innermost scope; the outermost scope is never popped.
    pub fn exit_scope(&mut self)
        ensures
            old(self)@.len() > 1 ==> final(self)@ =~= old(self)@.drop_last(),
            old(self)@.len() <= 1 ==> final(self)@ == old(self)@,
    {
        if self.scopes.len() > 1 {
            self.scopes.pop();
            proof {
                assert(final(self)@ =~= old(self)@.drop_last());
            }
        }
    }

    /// Binds a name in the innermost scope, shadowing any outer binding.
    pub fn declare(&mut self, name: String, info: CodegenSymbolInfo)
        requires
            info@.name == name@,
        ensures
            old(self)@.len() > 0 ==> final(self)@ =~= old(self)@.update(
                old(self)@.len() - 1,
                old(self)@.last().insert(name@, info@),
            ),
            old(self)@.len() == 0 ==> final(self)@ == old(self)@,
    {
        let n = self.scopes.len();
        if n > 0 {
            self.scopes[n - 1].push(info);
            proof {
                let fr_old = old(self).scopes@[n - 1]@.map_values(|s: CodegenSymbolInfo| s@);
                let fr_new = self.scopes@[n - 1]@.map_values(|s: CodegenSymbolInfo| s@);
                assert(fr_new =~= fr_old.push(info@));
                assert(fr_new.drop_last() =~= fr_old);
                assert(forall|j: int|
                    0 <= j < n - 1 ==> final(self)@[j] == old(self)@[j]);
            }
        }
    }

    /// Finds the nearest binding of a name, walking scopes inside out.
    pub fn lookup(&self, name: &str) -> (r: Option<&CodegenSymbolInfo>)
        ensures
            match r {
                Some(info) => cg_scopes_lookup(self@, name@) == Some(info@),
                None => cg_scopes_lookup(self@, name@) is None,
            },
    {
        let mut k = self.scopes.len();
        while k > 0
            invariant
                0 <= k <= self@.len(),
                self@.len() == self.scopes@.len(),
                forall|j: int| k <= j < self@.len() ==> !self@[j].contains_key(name@),
            decreases k,
        {
            k -= 1;
            let frame = &self.scopes[k];
            let ghost frv = frame@.map_values(|s: CodegenSymbolInfo| s@);
            proof {
                assert(self@[k as int] == cg_frame_map(frv));
            }
            match cg_frame_find(frame, name) {
                Some(j) => {
                    proof {
                        lemma_cg_frame_map_found(frv, j as int);
                        lemma_cg_scopes_lookup_skip(self@, name@, k as int + 1);
                        assert(self@.subrange(0, k as int + 1).last() == self@[k as int]);
                        assert(self@.subrange(0, k as int + 1).drop_last() =~= self@.subrange(
                            0,
                            k as int,
                        ));
                    }
                    return Some(&frame[j]);
                },
                None => {
                    proof {
                        lemma_cg_frame_map_absent(frv, name@);
                    }
                },
            }
        }
        proof {
            lemma_cg_scopes_lookup_skip(self@, name@, 0);
            assert(self@.subrange(0, 0) =~= Seq::<Map<Seq<char>, CodegenSymbolInfoV>>::empty());
        }
        None
    }
}

} // verus!
