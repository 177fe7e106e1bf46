//! Lexically scoped symbol table: a stack of frames, innermost last.
use vstd::prelude::*;

verus! {

/// What a name is bound to.
#[derive(Debug, Clone, Copy, PartialEq, Eq, Structural)]
pub enum SymVal {
    /// A compile-time constant, inlined at every use.
    ConstVal(i32),
    /// A variable with its shadow index `k`, printed `@name_k`.
    VarName(i32),
}

/// A frame's bindings in insertion order; a later binding of a name hides an earlier one.
pub type FrameModel = Seq<(Seq<char>, SymVal)>;

/// The frames of a table, outermost first.
pub type ScopesModel = Seq<FrameModel>;

/// The binding of `name` in one frame: its latest insertion.
pub open spec fn frame_query(f: FrameModel, name: Seq<char>) -> Option<SymVal>
    decreases f.len(),
{
    if f.len() == 0 {
        None
    } else if f.last().0 == name {
        Some(f.last().1)
    } else {
        frame_query(f.drop_last(), name)
    }
}

/// The binding of `name` in the innermost frame that binds it.
pub open spec fn scopes_query(s: ScopesModel, name: Seq<char>) -> Option<SymVal>
    decreases s.len(),
{
    if s.len() == 0 {
        None
    } else {
        match frame_query(s.last(), name) {
            Some(v) => Some(v),
            None => scopes_query(s.drop_last(), name),
        }
    }
}

/// The frames after binding `name` to `v` in the innermost frame
/// (a table with no frame gets one).
pub open spec fn scopes_insert(s: ScopesModel, name: Seq<char>, v: SymVal) -> ScopesModel {
    if s.len() == 0 {
        seq![seq![(name, v)]]
    } else {
        s.drop_last().push(s.last().push((name, v)))
    }
}

pub open spec fn frame_model(f: Vec<(String, SymVal)>) -> FrameModel {
    f@.map_values(|e: (String, SymVal)| (e.0@, e.1))
}

pub struct SymTable {
    frames: Vec<Vec<(String, SymVal)>>,
}

impl View for SymTable {
    type V = ScopesModel;

    closed spec fn view(&self) -> ScopesModel {
        self.frames@.map_values(|f: Vec<(String, SymVal)>| frame_model(f))
    }
}

fn frame_lookup(f: &Vec<(String, SymVal)>, name: &String) -> (r: Option<SymVal>)
    ensures
        r == frame_query(frame_model(*f), name@),
{
    let ghost m = frame_model(*f);
    let mut j: usize = f.len();
    assert(m.subrange(0, j as int) =~= m);
    while j > 0
        invariant
            j <= f@.len(),
            m == frame_model(*f),
            frame_query(m, name@) == frame_query(m.subrange(0, j as int), name@),
        decreases j,
    {
        let ghost sub = m.subrange(0, j as int);
        assert(sub.last() == (f@[j - 1].0@, f@[j - 1].1));
        if f[j - 1].0 == *name {
            return Some(f[j - 1].1);
        }
        assert(sub.drop_last() =~= m.subrange(0, j - 1));
        j = j - 1;
    }
    None
}

impl SymTable {
    /// A table with one empty frame, the global scope.
    pub fn new() -> (r: SymTable)
        ensures
            r@ == seq![FrameModel::empty()],
    {
        let mut frames: Vec<Vec<(String, SymVal)>> = Vec::new();
        let global: Vec<(String, SymVal)> = Vec::new();
        assert(frame_model(global) =~= FrameModel::empty());
        frames.push(global);
        let r = SymTable { frames };
        assert(r@ =~= seq![FrameModel::empty()]);
        r
    }

    /// Binds `name` to `val` in the innermost frame.
    pub fn insert(&mut self, name: String, val: SymVal)
        ensures
            final(self)@ == scopes_insert(old(self)@, name@, val),
    {
        let ghost n = name@;
        let mut f = match self.frames.pop() {
            Some(f) => f,
            None => Vec::new(),
        };
        f.push((name, val));
        self.frames.push(f);
        proof {
            let s = old(self)@;
            assert(frame_model(f) =~= (if s.len() == 0 { FrameModel::empty() } else { s.last() }).push((n, val)));
            assert(final(self)@ =~= scopes_insert(old(self)@, n, val));
        }
    }

    /// The binding of `name` in the innermost frame that has one.
    pub fn query(&self, name: String) -> (r: Option<SymVal>)
        ensures
            r == scopes_query(self@, name@),
    {
        let ghost s = self@;
        let mut i: usize = self.frames.len();
        assert(s.subrange(0, i as int) =~= s);
        while i > 0
            invariant
                i <= self.frames@.len(),
                s == self@,
                scopes_query(s, name@) == scopes_query(s.subrange(0, i as int), name@),
            decreases i,
        {
            let ghost sub = s.subrange(0, i as int);
            assert(sub.last() == frame_model(self.frames@[i - 1]));
            let found = frame_lookup(&self.frames[i - 1], &name);
            if found.is_some() {
                return found;
            }
            assert(sub.drop_last() =~= s.subrange(0, i - 1));
            i = i - 1;
        }
        None
    }

    /// Opens a new, empty innermost frame.
    pub fn insert_table(&mut self)
        ensures
            final(self)@ == old(self)@.push(FrameModel::empty()),
    {
        let empty: Vec<(String, SymVal)> = Vec::new();
        assert(frame_model(empty) =~= FrameModel::empty());
        self.frames.push(empty);
        assert(final(self)@ =~= old(self)@.push(FrameModel::empty()));
    }

    /// Discards the innermost frame; `false` when there was none.
    pub fn delete_table(&mut self) -> (r: bool)
        ensures
            r == (old(self)@.len() > 0),
            final(self)@ == if r { old(self)@.drop_last() } else { old(self)@ },
    {
        let r = self.frames.pop().is_some();
        assert(final(self)@ =~= if r { old(self)@.drop_last() } else { old(self)@ });
        r
    }
}

} // verus!

verus! {

/// A name just inserted is found with the value it was inserted with.
pub proof fn lemma_query_after_insert(s: ScopesModel, name: Seq<char>, v: SymVal)
    ensures
        scopes_query(scopes_insert(s, name, v), name) == Some(v),
{
    let t = scopes_insert(s, name, v);
    let f = if s.len() == 0 { FrameModel::empty() } else { s.last() };
    assert(t.last() == f.push((name, v)));
    assert(frame_query(f.push((name, v)), name) == Some(v));
}

} // verus!
