//! The scoped symbol table used during semantic analysis.
//!
//! A stack of frames, pushed on block entry and popped on exit; the innermost
//! frame shadows outer ones; `declare` binds in the innermost frame (legal
//! shadowing, never an error); `update` replaces the payload of the nearest
//! existing binding and never declares implicitly. The view is a stack of
//! maps from name to payload, where a frame's later binding of a name wins.

use vstd::prelude::*;
use crate::types::{str_eq, Type, TypeV};

verus! {

/// The payload of one semantic binding: declared type, finality, and whether
/// a first assignment has been observed.
#[derive(Debug)]
pub struct SemanticSymbolInfo {
    pub name: String,
    pub symbol_type: Type,
    pub is_final: bool,
    pub is_initialized: bool,
}

/// Specification view of [`SemanticSymbolInfo`].
pub struct SemanticSymbolInfoV {
    pub name: Seq<char>,
    pub symbol_type: TypeV,
    pub is_final: bool,
    pub is_initialized: bool,
}

impl View for SemanticSymbolInfo {
    type V = SemanticSymbolInfoV;

    open spec fn view(&self) -> SemanticSymbolInfoV {
        SemanticSymbolInfoV {
            name: self.name@,
            symbol_type: self.symbol_type@,
            is_final: self.is_final,
            is_initialized: self.is_initialized,
        }
    }
}

impl Clone for SemanticSymbolInfo {
    fn clone(&self) -> (r: Self)
        ensures
            r@ == self@,
    {
        SemanticSymbolInfo {
            name: self.name.clone(),
            symbol_type: self.symbol_type.clone(),
            is_final: self.is_final,
            is_initialized: self.is_initialized,
        }
    }
}

/// One frame, folded into a map where a later binding of a name wins.
pub open spec fn frame_map(fr: Seq<SemanticSymbolInfoV>) -> Map<Seq<char>, SemanticSymbolInfoV>
    decreases fr.len(),
{
    if fr.len() == 0 {
        Map::empty()
    } else {
        frame_map(fr.drop_last()).insert(fr.last().name, fr.last())
    }
}

/// Lookup through a frame stack, innermost (last) frame first.
pub open spec fn scopes_lookup(
    v: Seq<Map<Seq<char>, SemanticSymbolInfoV>>,
    name: Seq<char>,
) -> Option<SemanticSymbolInfoV>
    decreases v.len(),
{
    if v.len() == 0 {
        None
    } else if v.last().contains_key(name) {
        Some(v.last()[name])
    } else {
        scopes_lookup(v.drop_last(), name)
    }
}

/// Index of the innermost frame holding a binding for `name`, or `-1`.
pub open spec fn nearest_frame(
    v: Seq<Map<Seq<char>, SemanticSymbolInfoV>>,
    name: Seq<char>,
) -> int
    decreases v.len(),
{
    if v.len() == 0 {
        -1
    } else if v.last().contains_key(name) {
        v.len() - 1
    } else {
        nearest_frame(v.drop_last(), name)
    }
}

/// The last entry of a frame bearing a name is what the frame map holds for
/// that name.
pub proof fn lemma_frame_map_found(fr: Seq<SemanticSymbolInfoV>, i: int)
    requires
        0 <= i < fr.len(),
        forall|j: int| i < j < fr.len() ==> fr[j].name != fr[i].name,
    ensures
        frame_map(fr).contains_key(fr[i].name),
        frame_map(fr)[fr[i].name] == fr[i],
    decreases fr.len(),
{
    if i < fr.len() - 1 {
        lemma_frame_map_found(fr.drop_last(), i);
        assert(forall|j: int| 0 <= j < fr.len() - 1 ==> fr.drop_last()[j] == fr[j]);
    }
}

/// A name borne by no entry of a frame is absent from its map.
pub proof fn lemma_frame_map_absent(fr: Seq<SemanticSymbolInfoV>, name: Seq<char>)
    requires
        forall|j: int| 0 <= j < fr.len() ==> fr[j].name != name,
    ensures
        !frame_map(fr).contains_key(name),
    decreases fr.len(),
{
    if fr.len() > 0 {
        lemma_frame_map_absent(fr.drop_last(), name);
    }
}

/// Frames above `k` that lack a name do not affect its lookup.
pub proof fn lemma_scopes_lookup_skip(
    v: Seq<Map<Seq<char>, SemanticSymbolInfoV>>,
    name: Seq<char>,
    k: int,
)
    requires
        0 <= k <= v.len(),
        forall|j: int| k <= j < v.len() ==> !v[j].contains_key(name),
    ensures
        scopes_lookup(v, name) == scopes_lookup(v.subrange(0, k), name),
        nearest_frame(v, name) == nearest_frame(v.subrange(0, k), name),
    decreases v.len(),
{
    if k == v.len() {
        assert(v.subrange(0, k) =~= v);
    } else {
        lemma_scopes_lookup_skip(v.drop_last(), name, k);
        assert(v.drop_last().subrange(0, k) =~= v.subrange(0, k));
    }
}


/// Scans one frame for the latest entry bearing `name`.
fn frame_find(frame: &Vec<SemanticSymbolInfo>, name: &str) -> (r: Option<usize>)
    ensures
        ({
            let frv = frame@.map_values(|s: SemanticSymbolInfo| s@);
            match r {
                Some(j) => (j as int) < frv.len() && frv[j as int].name == name@ && forall|t: int|
                    j < t < frv.len() ==> frv[t].name != name@,
                None => forall|t: int| 0 <= t < frv.len() ==> frv[t].name != name@,
            }
        }),
{
    let ghost frv = frame@.map_values(|s: SemanticSymbolInfo| s@);
    let mut j = frame.len();
    while j > 0
        invariant
            0 <= j <= frv.len(),
            frv == frame@.map_values(|s: SemanticSymbolInfo| s@),
            frv.len() == frame@.len(),
            forall|t: int| j <= t < frv.len() ==> frv[t].name != name@,
        decreases j,
    {
        j -= 1;
        if str_eq(frame[j].name.as_str(), name) {
            return Some(j);
        }
    }
    None
}

/// The scoped symbol table of the semantic analyzer.
#[derive(Debug)]
pub struct SemanticSymbolTable {
    pub scopes: Vec<Vec<SemanticSymbolInfo>>,
}

impl View for SemanticSymbolTable {
    type V = Seq<Map<Seq<char>, SemanticSymbolInfoV>>;

    open spec fn view(&self) -> Seq<Map<Seq<char>, SemanticSymbolInfoV>> {
        self.scopes@.map_values(
            |fr: Vec<SemanticSymbolInfo>| frame_map(fr@.map_values(|s: SemanticSymbolInfo| s@)),
        )
    }
}

impl SemanticSymbolTable {
    /// A fresh table with a single empty scope.
    pub fn new() -> (r: Self)
        ensures
            r@ =~= seq![Map::<Seq<char>, SemanticSymbolInfoV>::empty()],
    {
        let mut scopes: Vec<Vec<SemanticSymbolInfo>> = Vec::new();
        scopes.push(Vec::new());
        let r = SemanticSymbolTable { scopes };
        proof {
            assert(r@.len() == 1);
            assert(r@[0] =~= Map::<Seq<char>, SemanticSymbolInfoV>::empty());
        }
        r
    }

    /// Pushes a fresh innermost scope.
    pub fn enter_scope(&mut self)
        ensures
            final(self)@ =~= old(self)@.push(Map::empty()),
    {
        self.scopes.push(Vec::new());
        proof {
            assert(final(self)@.len() == old(self)@.len() + 1);
            assert(forall|j: int|
                0 <= j < old(self)@.len() ==> final(self)@[j] == old(self)@[j]);
            assert(final(self)@.last() =~= Map::<Seq<char>, SemanticSymbolInfoV>::empty());
        }
    }

    /// Pops the innermost scope; the outermost scope is never popped.
    pub fn exit_scope(&mut self)
        ensures
            old(self)@.len() > 1 ==> final(self)@ =~= old(self)@.drop_last(),
            old(self)@.len() <= 1 ==> final(self)@ == old(self)@,
    {
        if self.scopes.len() > 1 {
            self.scopes.pop();
            proof {
                assert(final(self)@ =~= old(self)@.drop_last());
            }
        }
    }

    /// Binds a name in the innermost scope, shadowing any outer binding.
    pub fn declare(&mut self, name: String, info: SemanticSymbolInfo)
        requires
            info@.name == name@,
        ensures
            old(self)@.len() > 0 ==> final(self)@ =~= old(self)@.update(
                old(self)@.len() - 1,
                old(self)@.last().insert(name@, info@),
            ),
            old(self)@.len() == 0 ==> final(self)@ == old(self)@,
    {
        let n = self.scopes.len();
        if n > 0 {
            self.scopes[n - 1].push(info);
            proof {
                let fr_old = old(self).scopes@[n - 1]@.map_values(
                    |s: SemanticSymbolInfo| s@,
                );
                let fr_new = self.scopes@[n - 1]@.map_values(|s: SemanticSymbolInfo| s@);
                assert(fr_new =~= fr_old.push(info@));
                assert(fr_new.drop_last() =~= fr_old);
                assert(forall|j: int|
                    0 <= j < n - 1 ==> final(self)@[j] == old(self)@[j]);
            }
        }
    }

    /// Finds the nearest binding of a name, walking scopes inside out.
    pub fn lookup(&self, name: &str) -> (r: Option<&SemanticSymbolInfo>)
        ensures
            match r {
                Some(info) => scopes_lookup(self@, name@) == Some(info@),
                None => scopes_lookup(self@, name@) is None,
            },
    {
        let mut k = self.scopes.len();
        while k > 0
            invariant
                0 <= k <= self@.len(),
                self@.len() == self.scopes@.len(),
                forall|j: int| k <= j < self@.len() ==> !self@[j].contains_key(name@),
            decreases k,
        {
            k -= 1;
            let frame = &self.scopes[k];
            let ghost frv = frame@.map_values(|s: SemanticSymbolInfo| s@);
            proof {
                assert(self@[k as int] == frame_map(frv));
            }
            match frame_find(frame, name) {
                Some(j) => {
                    proof {
                        lemma_frame_map_found(frv, j as int);
                        lemma_scopes_lookup_skip(self@, name@, k as int + 1);
                        assert(self@.subrange(0, k as int + 1).last() == self@[k as int]);
                        assert(self@.subrange(0, k as int + 1).drop_last() =~= self@.subrange(
                            0,
                            k as int,
                        ));
                    }
                    return Some(&frame[j]);
                },
                None => {
                    proof {
                        lemma_frame_map_absent(frv, name@);
                    }
                },
            }
        }
        proof {
            lemma_scopes_lookup_skip(self@, name@, 0);
            assert(self@.subrange(0, 0) =~= Seq::<Map<Seq<char>, SemanticSymbolInfoV>>::empty());
        }
        None
    }

    /// Finds a binding in the innermost scope only.
    pub fn lookup_current(&self, name: &str) -> (r: Option<&SemanticSymbolInfo>)
        ensures
            ({
                let v = self@;
                match r {
                    Some(info) => v.len() > 0 && v.last().contains_key(name@) && v.last()[name@]
                        == info@,
                    None => v.len() == 0 || !v.last().contains_key(name@),
                }
            }),
    {
        let n = self.scopes.len();
        if n == 0 {
            return None;
        }
        let frame = &self.scopes[n - 1];
        let ghost frv = frame@.map_values(|s: SemanticSymbolInfo| s@);
        proof {
            assert(self@.last() == frame_map(frv));
        }
        match frame_find(frame, name) {
            Some(j) => {
                proof {
                    lemma_frame_map_found(frv, j as int);
                }
                Some(&frame[j])
            },
            None => {
                proof {
                    lemma_frame_map_absent(frv, name@);
                }
                None
            },
        }
    }

    /// Replaces the payload of the nearest existing binding of `name` in
    /// place. Returns `false`, changing nothing, when no scope binds the
    /// name: `update` never declares.
    pub fn update(&mut self, name: &str, info: SemanticSymbolInfo) -> (r: bool)
        requires
            info@.name == name@,
        ensures
            r == (nearest_frame(old(self)@, name@) >= 0),
            r ==> final(self)@ =~= old(self)@.update(
                nearest_frame(old(self)@, name@),
                old(self)@[nearest_frame(old(self)@, name@)].insert(name@, info@),
            ),
            !r ==> final(self)@ == old(self)@,
    {
        let mut k = self.scopes.len();
        while k > 0
            invariant
                0 <= k <= self@.len(),
                self@.len() == self.scopes@.len(),
                *self == *old(self),
                info@.name == name@,
                forall|j: int| k <= j < self@.len() ==> !self@[j].contains_key(name@),
            decreases k,
        {
            k -= 1;
            let ghost frv = self.scopes@[k as int]@.map_values(|s: SemanticSymbolInfo| s@);
            let ghost infov = info@;
            proof {
                assert(self@[k as int] == frame_map(frv));
            }
            let found = frame_find(&self.scopes[k], name);
            match found {
                Some(j) => {
                    proof {
                        lemma_frame_map_found(frv, j as int);
                        lemma_scopes_lookup_skip(old(self)@, name@, k as int + 1);
                        assert(old(self)@.subrange(0, k as int + 1).last() == old(
                            self,
                        )@[k as int]);
                        assert(old(self)@.subrange(0, k as int + 1).drop_last() =~= old(
                            self,
                        )@.subrange(0, k as int));
                        assert(nearest_frame(old(self)@, name@) == k as int);
                    }
                    self.scopes[k][j] = info;
                    proof {
                        let fr_new = self.scopes@[k as int]@.map_values(
                            |s: SemanticSymbolInfo| s@,
                        );
                        assert(fr_new =~= frv.update(j as int, infov));
                        lemma_frame_map_update_last(frv, j as int, infov);
                        assert(frame_map(fr_new) =~= frame_map(frv).insert(name@, infov));
                        assert(forall|t: int|
                            0 <= t < old(self)@.len() && t != k as int ==> final(self)@[t]
                                == old(self)@[t]);
                        assert(final(self)@[k as int] == frame_map(fr_new));
                    }
                    return true;
                },
                None => {
                    proof {
                        lemma_frame_map_absent(frv, name@);
                    }
                },
            }
        }
        proof {
            lemma_scopes_lookup_skip(self@, name@, 0);
            assert(self@.subrange(0, 0) =~= Seq::<Map<Seq<char>, SemanticSymbolInfoV>>::empty());
        }
        false
    }
}

/// Replacing the last entry bearing a name rewrites exactly that name's
/// image in the frame map.
pub proof fn lemma_frame_map_update_last(
    fr: Seq<SemanticSymbolInfoV>,
    i: int,
    info: SemanticSymbolInfoV,
)
    requires
        0 <= i < fr.len(),
        forall|j: int| i < j < fr.len() ==> fr[j].name != fr[i].name,
        info.name == fr[i].name,
    ensures
        frame_map(fr.update(i, info)) =~= frame_map(fr).insert(fr[i].name, info),
    decreases fr.len(),
{
    if i == fr.len() - 1 {
        assert(fr.update(i, info).drop_last() =~= fr.drop_last());
        assert(fr.update(i, info).last() == info);
    } else {
        lemma_frame_map_update_last(fr.drop_last(), i, info);
        assert(fr.update(i, info).drop_last() =~= fr.drop_last().update(i, info));
        assert(fr.update(i, info).last() == fr.last());
        assert(forall|j: int| 0 <= j < fr.len() - 1 ==> fr.drop_last()[j] == fr[j]);
    }
}

} // verus!
