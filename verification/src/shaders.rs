//! Shaders: the references a pipeline is built from, and the library of
//! named sources that games and materials register.

use vstd::prelude::*;

verus! {

/// The shaders the engine ships (their sources live in the backend).
#[derive(Clone, Copy, Debug, PartialEq, Eq, Structural)]
pub enum BuiltinShader {
    VertexColor,
    Unlit,
    Lit,
    Pbr,
    Sky,
    Debug,
    Shadow,
}

/// Where a pipeline's shader comes from.
#[derive(Debug)]
pub enum ShaderRef {
    /// An engine shader.
    Builtin(BuiltinShader),
    /// A source registered in the library under this name.
    Named(String),
    /// WGSL code given in place.
    Inline(String),
}

/// The value of a shader reference.
pub enum ShaderRefView {
    Builtin(BuiltinShader),
    Named(Seq<char>),
    Inline(Seq<char>),
}

impl View for ShaderRef {
    type V = ShaderRefView;

    open spec fn view(&self) -> ShaderRefView {
        match self {
            ShaderRef::Builtin(b) => ShaderRefView::Builtin(*b),
            ShaderRef::Named(n) => ShaderRefView::Named(n@),
            ShaderRef::Inline(code) => ShaderRefView::Inline(code@),
        }
    }
}

/// The shader handed to the backend: an engine shader or WGSL code.
#[derive(Debug)]
pub enum ShaderSource {
    Builtin(BuiltinShader),
    Wgsl(String),
}

/// The value of a shader source.
pub enum ShaderSourceView {
    Builtin(BuiltinShader),
    Wgsl(Seq<char>),
}

impl View for ShaderSource {
    type V = ShaderSourceView;

    open spec fn view(&self) -> ShaderSourceView {
        match self {
            ShaderSource::Builtin(b) => ShaderSourceView::Builtin(*b),
            ShaderSource::Wgsl(code) => ShaderSourceView::Wgsl(code@),
        }
    }
}

impl ShaderRef {
    /// A copy of the reference.
    pub fn duplicate(&self) -> (copy: ShaderRef)
        ensures
            copy@ == self@,
    {
        match self {
            ShaderRef::Builtin(b) => ShaderRef::Builtin(*b),
            ShaderRef::Named(n) => ShaderRef::Named(n.clone()),
            ShaderRef::Inline(code) => ShaderRef::Inline(code.clone()),
        }
    }

    /// Whether two references designate the same shader.
    pub fn same_as(&self, other: &ShaderRef) -> (same: bool)
        ensures
            same == (self@ == other@),
    {
        match (self, other) {
            (ShaderRef::Builtin(a), ShaderRef::Builtin(b)) => *a == *b,
            (ShaderRef::Named(a), ShaderRef::Named(b)) => *a == *b,
            (ShaderRef::Inline(a), ShaderRef::Inline(b)) => *a == *b,
            _ => false,
        }
    }
}

/// The named shader sources, each name at most once.
pub struct ShaderLibrary {
    names: Vec<String>,
    sources: Vec<String>,
}

/// The name is registered in `names` at most once.
pub open spec fn distinct_names(names: Seq<Seq<char>>) -> bool {
    forall|a: int, b: int| 0 <= a < b < names.len() ==> names[a] != names[b]
}

impl ShaderLibrary {
    pub closed spec fn wf(&self) -> bool {
        &&& self.names@.len() == self.sources@.len()
        &&& distinct_names(self.name_seq())
    }

    closed spec fn name_seq(&self) -> Seq<Seq<char>> {
        Seq::new(self.names@.len(), |i: int| self.names@[i]@)
    }

    /// The registered sources by name.
    pub closed spec fn view(&self) -> Map<Seq<char>, Seq<char>> {
        Map::new(
            |name: Seq<char>| self.name_seq().contains(name),
            |name: Seq<char>| self.sources@[self.name_seq().index_of(name)]@,
        )
    }

    /// An empty library.
    pub fn new() -> (library: Self)
        ensures
            library.wf(),
            library@ == Map::<Seq<char>, Seq<char>>::empty(),
    {
        let library = ShaderLibrary { names: Vec::new(), sources: Vec::new() };
        assert(library@ =~= Map::<Seq<char>, Seq<char>>::empty());
        library
    }

    fn position(&self, name: &String) -> (position: Option<usize>)
        requires
            self.wf(),
        ensures
            match position {
                Some(i) => i < self.names@.len() && self.names@[i as int]@ == name@,
                None => !self.name_seq().contains(name@),
            },
    {
        let mut i: usize = 0;
        while i < self.names.len()
            invariant
                i <= self.names@.len(),
                forall|k: int| 0 <= k < i ==> self.names@[k]@ != name@,
            decreases self.names@.len() - i,
        {
            if self.names[i] == *name {
                return Some(i);
            }
            i = i + 1;
        }
        proof {
            if self.name_seq().contains(name@) {
                let k = self.name_seq().index_of(name@);
                assert(self.name_seq()[k] == self.names@[k]@);
            }
        }
        None
    }

    /// The source registered under `name`.
    pub fn get(&self, name: &String) -> (source: Option<&String>)
        requires
            self.wf(),
        ensures
            source is Some == self@.contains_key(name@),
            source matches Some(s) ==> s@ == self@[name@],
    {
        match self.position(name) {
            Some(i) => {
                proof {
                    let names = self.name_seq();
                    assert(names[i as int] == name@);
                    assert(names.contains(name@));
                    let j = names.index_of(name@);
                    if j != i as int {
                        if j < i {
                            assert(names[j] != names[i as int]);
                        } else {
                            assert(names[i as int] != names[j]);
                        }
                    }
                }
                Some(&self.sources[i])
            },
            None => None,
        }
    }

    /// Registers (or replaces) the source of `name`.
    pub fn register(&mut self, name: String, source: String)
        requires
            old(self).wf(),
        ensures
            final(self).wf(),
            final(self)@ == old(self)@.insert(name@, source@),
    {
        let ghost before = self.name_seq();
        let ghost name_view = name@;
        let ghost source_view = source@;
        match self.position(&name) {
            Some(i) => {
                self.sources.set(i, source);
                proof {
                    assert(self.name_seq() =~= before);
                    lemma_unique_index(before, i as int);
                    assert forall|n: Seq<char>| #[trigger] before.contains(n) implies self@[n] == old(self)@.insert(
                        name_view,
                        source_view,
                    )[n] by {
                        let j = before.index_of(n);
                        lemma_unique_index(before, j);
                    }
                    assert(self@ =~= old(self)@.insert(name_view, source_view));
                }
            },
            None => {
                self.names.push(name);
                self.sources.push(source);
                proof {
                    let after = self.name_seq();
                    assert(after =~= before.push(name_view));
                    assert(distinct_names(after)) by {
                        assert forall|a: int, b: int| 0 <= a < b < after.len() implies after[a] != after[b] by {
                            if b == before.len() {
                                assert(before[a] == after[a]);
                            }
                        }
                    }
                    lemma_unique_index(after, before.len() as int);
                    assert forall|n: Seq<char>| #[trigger] after.contains(n) implies n == name_view
                        || before.contains(n) by {
                        let j = after.index_of(n);
                        if j < before.len() {
                            assert(before[j] == n);
                        }
                    }
                    assert forall|n: Seq<char>| #[trigger] before.contains(n) implies after.contains(n)
                        && after.index_of(n) == before.index_of(n) by {
                        let j = before.index_of(n);
                        assert(after[j] == n);
                        lemma_unique_index(after, j);
                    }
                    assert(self@ =~= old(self)@.insert(name_view, source_view));
                }
            },
        }
    }
}

/// With distinct names, the position of the name at `i` is `i`.
proof fn lemma_unique_index(names: Seq<Seq<char>>, i: int)
    requires
        distinct_names(names),
        0 <= i < names.len(),
    ensures
        names.contains(names[i]),
        names.index_of(names[i]) == i,
{
    assert(names[i] == names[i]);
    let j = names.index_of(names[i]);
    if j != i {
        if j < i {
            assert(names[j] != names[i]);
        } else {
            assert(names[i] != names[j]);
        }
    }
}

} // verus!
