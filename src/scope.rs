use vstd::prelude::*;
use crate::ast::{EvaluationError, IdentifierExpression, Val, Value, cant_resolve_msg};

verus! {

/// A name bound to a value in one frame.
pub struct Binding {
    pub name: String,
    pub value: Value,
}

/// One frame of names: its bindings and the frame it is nested in.
pub struct Frame {
    pub parent: Option<usize>,
    pub bindings: Vec<Binding>,
}

/// The mathematical form of a frame.
pub struct FrameModel {
    pub parent: Option<usize>,
    pub bindings: Seq<(Seq<char>, Val)>,
}

/// The mathematical form of a scope: all frames, the frame that evaluation
/// is in, and the text that the program has written so far.
pub struct ScopeModel {
    pub frames: Seq<FrameModel>,
    pub current: int,
    pub output: Seq<char>,
}

pub open spec fn binding_models(bs: Seq<Binding>) -> Seq<(Seq<char>, Val)> {
    bs.map_values(|b: Binding| (b.name@, b.value@))
}

pub open spec fn frame_model(f: Frame) -> FrameModel {
    FrameModel { parent: f.parent, bindings: binding_models(f.bindings@) }
}

/// The index of the binding of `name` in a frame (the last one, should
/// there be several).
pub open spec fn find_binding(bs: Seq<(Seq<char>, Val)>, name: Seq<char>) -> Option<int>
    decreases bs.len(),
{
    if bs.len() == 0 {
        None
    } else if bs.last().0 == name {
        Some(bs.len() - 1)
    } else {
        find_binding(bs.drop_last(), name)
    }
}

/// The frame, from `f` outwards through the parents, that binds `name`.
/// A parent link that does not point to an earlier frame ends the chain.
pub open spec fn owner_frame(frames: Seq<FrameModel>, f: int, name: Seq<char>) -> Option<int>
    decreases f,
{
    if f < 0 || f >= frames.len() {
        None
    } else if find_binding(frames[f].bindings, name) is Some {
        Some(f)
    } else {
        match frames[f].parent {
            Some(p) => if (p as int) < f {
                owner_frame(frames, p as int, name)
            } else {
                None
            },
            None => None,
        }
    }
}

/// The value of `name` seen from frame `f`.
pub open spec fn resolve_in(frames: Seq<FrameModel>, f: int, name: Seq<char>) -> Option<Val> {
    match owner_frame(frames, f, name) {
        Some(g) => Some(frames[g].bindings[find_binding(frames[g].bindings, name)->0].1),
        None => None,
    }
}

/// Bindings after `name` is set to `v`: an existing binding is overwritten,
/// else a new one is added.
pub open spec fn store_binding(bs: Seq<(Seq<char>, Val)>, name: Seq<char>, v: Val) -> Seq<
    (Seq<char>, Val),
> {
    match find_binding(bs, name) {
        Some(k) => bs.update(k, (name, v)),
        None => bs.push((name, v)),
    }
}

pub open spec fn store_in_frame(frames: Seq<FrameModel>, f: int, name: Seq<char>, v: Val) -> Seq<
    FrameModel,
> {
    frames.update(
        f,
        FrameModel { bindings: store_binding(frames[f].bindings, name, v), ..frames[f] },
    )
}

pub proof fn lemma_find_binding(bs: Seq<(Seq<char>, Val)>, name: Seq<char>)
    ensures
        match find_binding(bs, name) {
            Some(k) => 0 <= k < bs.len() && bs[k].0 == name && forall|j: int|
                k < j < bs.len() ==> bs[j].0 != name,
            None => forall|i: int| 0 <= i < bs.len() ==> bs[i].0 != name,
        },
    decreases bs.len(),
{
    if bs.len() > 0 {
        lemma_find_binding(bs.drop_last(), name);
        if bs.last().0 != name {
            assert forall|i: int| 0 <= i < bs.len() - 1 implies bs[i] == bs.drop_last()[i] by {}
        }
    }
}

/// The binding that `find_binding` finds is the last one with that name.
proof fn lemma_find_last(bs: Seq<(Seq<char>, Val)>, name: Seq<char>, k: int)
    requires
        0 <= k < bs.len(),
        bs[k].0 == name,
        forall|j: int| k < j < bs.len() ==> bs[j].0 != name,
    ensures
        find_binding(bs, name) == Some(k),
    decreases bs.len(),
{
    if k < bs.len() - 1 {
        assert forall|j: int| k < j < bs.len() - 1 implies bs.drop_last()[j].0 != name by {
            assert(bs.drop_last()[j] == bs[j]);
        }
        lemma_find_last(bs.drop_last(), name, k);
    }
}

/// After `store`, `resolve` of the same name gives the stored value.
pub proof fn lemma_store_then_resolve(st: ScopeModel, name: Seq<char>, v: Val)
    requires
        st.wf(),
    ensures
        st.store(name, v).resolve(name) == Some(v),
{
    let bs = st.frames[st.current].bindings;
    lemma_find_binding(bs, name);
    let nb = store_binding(bs, name, v);
    match find_binding(bs, name) {
        Some(k) => {
            lemma_find_last(nb, name, k);
        },
        None => {
            lemma_find_last(nb, name, bs.len() as int);
        },
    }
    let after = st.store(name, v);
    assert(after.frames[st.current].bindings == nb);
}

pub proof fn lemma_owner_frame(frames: Seq<FrameModel>, f: int, name: Seq<char>)
    ensures
        owner_frame(frames, f, name) is Some ==> {
            let g = owner_frame(frames, f, name)->0;
            0 <= g < frames.len() && find_binding(frames[g].bindings, name) is Some
        },
    decreases f,
{
    if 0 <= f < frames.len() && find_binding(frames[f].bindings, name) is None {
        match frames[f].parent {
            Some(p) => if (p as int) < f {
                lemma_owner_frame(frames, p as int, name);
            },
            None => {},
        }
    }
}

proof fn lemma_models_push(s: Seq<Binding>, b: Binding)
    ensures
        binding_models(s.push(b)) =~= binding_models(s).push((b.name@, b.value@)),
{
    assert forall|i: int| 0 <= i < s.len() implies s.push(b)[i] == s[i] by {}
}

proof fn lemma_frames_push(s: Seq<Frame>, f: Frame)
    ensures
        s.push(f).map_values(|f: Frame| frame_model(f)) =~= s.map_values(|f: Frame| frame_model(f)).push(
            frame_model(f),
        ),
{
    assert forall|i: int| 0 <= i < s.len() implies s.push(f)[i] == s[i] by {}
}

/// The names of a parameter list.
pub open spec fn param_names(ps: Seq<IdentifierExpression>) -> Seq<Seq<char>> {
    ps.map_values(|p: IdentifierExpression| p.name@)
}

impl ScopeModel {
    /// Binds the first `n` names to the first `n` values, in order, in the
    /// current frame.
    pub open spec fn bind_params(self, names: Seq<Seq<char>>, vals: Seq<Val>, n: nat) -> ScopeModel
        decreases n,
    {
        if n == 0 {
            self
        } else {
            self.bind_params(names, vals, (n - 1) as nat).store(names[n - 1], vals[n - 1])
        }
    }

    /// A call's frame: a new frame nested in `parent` becomes current, with
    /// the parameters bound to the arguments.
    pub open spec fn enter(self, parent: Option<usize>, names: Seq<Seq<char>>, vals: Seq<Val>) -> ScopeModel {
        ScopeModel {
            frames: self.frames.push(FrameModel { parent, bindings: Seq::empty() }),
            current: self.frames.len() as int,
            ..self
        }.bind_params(names, vals, names.len())
    }

    pub open spec fn wf(self) -> bool {
        0 <= self.current < self.frames.len()
    }

    pub open spec fn resolve(self, name: Seq<char>) -> Option<Val> {
        resolve_in(self.frames, self.current, name)
    }

    /// `let`: binds in the current frame.
    pub open spec fn store(self, name: Seq<char>, v: Val) -> ScopeModel {
        ScopeModel { frames: store_in_frame(self.frames, self.current, name, v), ..self }
    }

    /// Assignment: overwrites the binding in the frame where `name` is found.
    pub open spec fn reassign(self, name: Seq<char>, v: Val) -> ScopeModel {
        match owner_frame(self.frames, self.current, name) {
            Some(g) => ScopeModel { frames: store_in_frame(self.frames, g, name, v), ..self },
            None => self,
        }
    }
}

/// Lexically nested frames of names. Frames are kept in one arena and refer
/// to their parent by index; function values refer to the frame they were
/// defined in the same way, so a frame lives as long as the scope. What the
/// program writes is kept here too, until the host takes it.
pub struct Scope {
    frames: Vec<Frame>,
    current: usize,
    output: String,
}

impl View for Scope {
    type V = ScopeModel;

    closed spec fn view(&self) -> ScopeModel {
        ScopeModel {
            frames: self.frames@.map_values(|f: Frame| frame_model(f)),
            current: self.current as int,
            output: self.output@,
        }
    }
}

fn copy_bindings(bs: &Vec<Binding>) -> (r: Vec<Binding>)
    ensures
        binding_models(r@) == binding_models(bs@),
{
    let mut r: Vec<Binding> = Vec::new();
    let mut i: usize = 0;
    while i < bs.len()
        invariant
            i <= bs@.len(),
            binding_models(r@) == binding_models(bs@.subrange(0, i as int)),
        decreases bs@.len() - i,
    {
        let b = &bs[i];
        let nb = Binding { name: b.name.clone(), value: b.value.copy() };
        let ghost old_r = r@;
        r.push(nb);
        proof {
            assert(bs@.subrange(0, i + 1) == bs@.subrange(0, i as int).push(bs@[i as int]));
            lemma_models_push(old_r, nb);
            lemma_models_push(bs@.subrange(0, i as int), bs@[i as int]);
        }
        i = i + 1;
    }
    proof {
        assert(bs@.subrange(0, bs@.len() as int) == bs@);
    }
    r
}

fn find_in(bs: &Vec<Binding>, name: &String) -> (r: Option<usize>)
    ensures
        r is Some <==> find_binding(binding_models(bs@), name@) is Some,
        r is Some ==> r->0 as int == find_binding(binding_models(bs@), name@)->0,
{
    let ghost m = binding_models(bs@);
    let mut i = bs.len();
    proof {
        assert(m.subrange(0, m.len() as int) == m);
    }
    while i > 0
        invariant
            i <= bs@.len(),
            m == binding_models(bs@),
            find_binding(m, name@) == find_binding(m.subrange(0, i as int), name@),
        decreases i,
    {
        proof {
            let p = m.subrange(0, i as int);
            assert(p.drop_last() == m.subrange(0, i - 1));
            assert(p.last() == m[i - 1]);
        }
        if bs[i - 1].name == *name {
            return Some(i - 1);
        }
        i = i - 1;
    }
    proof {
        assert(m.subrange(0, 0) =~= Seq::<(Seq<char>, Val)>::empty());
    }
    None
}

impl Scope {
    pub open spec fn wf(&self) -> bool {
        self@.wf()
    }

    /// A scope with one empty top-level frame.
    pub fn new() -> (r: Scope)
        ensures
            r.wf(),
            r@.frames == seq![FrameModel { parent: None, bindings: Seq::empty() }],
            r@.current == 0,
            r@.output == Seq::<char>::empty(),
    {
        let mut frames: Vec<Frame> = Vec::new();
        frames.push(Frame { parent: None, bindings: Vec::new() });
        let r = Scope { frames, current: 0, output: String::new() };
        proof {
            assert(binding_models(Seq::<Binding>::empty()) =~= Seq::empty());
            assert(r@.frames =~= seq![FrameModel { parent: None, bindings: Seq::empty() }]);
        }
        r
    }

    /// A scope whose current frame is a new empty frame nested in the
    /// current frame of `scope`: a copy of `scope`'s frames with that frame
    /// added, so what `scope` binds stays visible and `scope` is unchanged.
    pub fn sub(scope: &Scope) -> (r: Scope)
        requires
            scope.wf(),
        ensures
            r.wf(),
            r@.frames == scope@.frames.push(
                FrameModel { parent: Some(scope@.current as usize), bindings: Seq::empty() },
            ),
            r@.current == scope@.frames.len(),
            r@.output == scope@.output,
    {
        let mut frames: Vec<Frame> = Vec::new();
        let mut i: usize = 0;
        while i < scope.frames.len()
            invariant
                i <= scope.frames@.len(),
                frames@.map_values(|f: Frame| frame_model(f)) == scope.frames@.subrange(
                    0,
                    i as int,
                ).map_values(|f: Frame| frame_model(f)),
            decreases scope.frames@.len() - i,
        {
            let f = &scope.frames[i];
            let nf = Frame { parent: f.parent, bindings: copy_bindings(&f.bindings) };
            let ghost old_frames = frames@;
            frames.push(nf);
            proof {
                assert(scope.frames@.subrange(0, i + 1) == scope.frames@.subrange(0, i as int).push(
                    scope.frames@[i as int],
                ));
                lemma_frames_push(old_frames, nf);
                lemma_frames_push(scope.frames@.subrange(0, i as int), scope.frames@[i as int]);
                assert(frame_model(nf) == frame_model(scope.frames@[i as int]));
            }
            i = i + 1;
        }
        let n = frames.len();
        frames.push(Frame { parent: Some(scope.current), bindings: Vec::new() });
        let r = Scope { frames, current: n, output: scope.output.clone() };
        proof {
            assert(scope.frames@.subrange(0, scope.frames@.len() as int) == scope.frames@);
            assert(binding_models(Seq::<Binding>::empty()) =~= Seq::empty());
            assert(r@.frames =~= scope@.frames.push(
                FrameModel { parent: Some(scope@.current as usize), bindings: Seq::empty() },
            ));
        }
        r
    }

    /// Binds `name` to `value` in the current frame.
    pub fn store(&mut self, name: String, value: Value)
        requires
            old(self).wf(),
        ensures
            final(self).wf(),
            final(self)@.frames.len() == old(self)@.frames.len(),
            final(self)@ == old(self)@.store(name@, value@),
    {
        self.store_at(self.current, name, value);
    }

    fn store_at(&mut self, f: usize, name: String, value: Value)
        requires
            f < old(self)@.frames.len(),
            old(self).wf(),
        ensures
            final(self).wf(),
            final(self)@ == (ScopeModel {
                frames: store_in_frame(old(self)@.frames, f as int, name@, value@),
                ..old(self)@
            }),
    {
        let ghost old_frames = self@.frames;
        let ghost old_vec = self.frames@;
        let found = find_in(&self.frames[f].bindings, &name);
        proof {
            assert(frame_model(self.frames@[f as int]) == old_frames[f as int]);
            lemma_find_binding(old_frames[f as int].bindings, name@);
        }
        let mut frame = Frame { parent: None, bindings: Vec::new() };
        std::mem::swap(&mut frame, &mut self.frames[f]);
        proof {
            assert(frame_model(frame) == old_frames[f as int]);
        }
        let ghost old_bindings = frame.bindings@;
        match found {
            Some(k) => {
                frame.bindings.set(k, Binding { name, value });
                proof {
                    assert(binding_models(frame.bindings@) =~= binding_models(old_bindings).update(
                        k as int,
                        (name@, value@),
                    ));
                }
            },
            None => {
                frame.bindings.push(Binding { name, value });
                proof {
                    assert(binding_models(frame.bindings@) =~= binding_models(old_bindings).push(
                        (name@, value@),
                    ));
                }
            },
        }
        let ghost new_frame = frame;
        self.frames.set(f, frame);
        proof {
            assert(self.frames@ =~= old_vec.update(f as int, new_frame));
            assert(new_frame.parent == old_frames[f as int].parent);
            assert(binding_models(new_frame.bindings@) == store_binding(old_frames[f as int].bindings, name@, value@));
            assert(frame_model(new_frame) == store_in_frame(old_frames, f as int, name@, value@)[f as int]);
            assert forall|i: int| 0 <= i < old_vec.len() && i != f implies self@.frames[i]
                == store_in_frame(old_frames, f as int, name@, value@)[i] by {
                assert(self.frames@[i] == old_vec[i]);
            }
            assert(self@.frames =~= store_in_frame(old_frames, f as int, name@, value@));
        }
    }

    /// The frame that binds `name`, from the current frame outwards.
    fn owner(&self, name: &String) -> (r: Option<usize>)
        requires
            self.wf(),
        ensures
            r is Some <==> owner_frame(self@.frames, self@.current, name@) is Some,
            r is Some ==> r->0 as int == owner_frame(self@.frames, self@.current, name@)->0,
    {
        let mut f = self.current;
        while f < self.frames.len()
            invariant
                owner_frame(self@.frames, self@.current, name@) == owner_frame(
                    self@.frames,
                    f as int,
                    name@,
                ),
            decreases f,
        {
            let frame = &self.frames[f];
            proof {
                assert(frame_model(*frame) == self@.frames[f as int]);
            }
            if find_in(&frame.bindings, name).is_some() {
                return Some(f);
            }
            match frame.parent {
                Some(p) => {
                    if p < f {
                        f = p;
                    } else {
                        return None;
                    }
                },
                None => {
                    return None;
                },
            }
        }
        None
    }

    /// The value of `name`, from the current frame outwards.
    pub fn resolve(&self, name: &String) -> (r: Option<Value>)
        requires
            self.wf(),
        ensures
            match self@.resolve(name@) {
                Some(v) => r is Some && r->0@ == v,
                None => r is None,
            },
    {
        proof {
            lemma_owner_frame(self@.frames, self@.current, name@);
        }
        match self.owner(name) {
            Some(g) => {
                let frame = &self.frames[g];
                proof {
                    assert(frame_model(*frame) == self@.frames[g as int]);
                }
                proof {
                    lemma_find_binding(binding_models(frame.bindings@), name@);
                }
                match find_in(&frame.bindings, name) {
                    Some(k) => {
                        proof {
                            assert(binding_models(frame.bindings@)[k as int] == (
                                frame.bindings@[k as int].name@,
                                frame.bindings@[k as int].value@,
                            ));
                        }
                        let v = frame.bindings[k].value.copy();
                        proof {
                            let gi = owner_frame(self@.frames, self@.current, name@)->0;
                            assert(gi == g as int);
                            assert(self@.frames[gi].bindings == binding_models(frame.bindings@));
                            assert(find_binding(self@.frames[gi].bindings, name@)->0 == k as int);
                            assert(v@ == self@.resolve(name@)->0);
                        }
                        Some(v)
                    },
                    None => None,
                }
            },
            None => None,
        }
    }

    /// `resolve`, with a missing name as an error.
    pub fn resolve_result(&self, name: &String) -> (r: Result<Value, EvaluationError>)
        requires
            self.wf(),
        ensures
            match self@.resolve(name@) {
                Some(v) => r is Ok && r->Ok_0@ == v,
                None => r is Err && r->Err_0.msg@ == cant_resolve_msg(name@),
            },
    {
        match self.resolve(name) {
            Some(v) => Ok(v),
            None => Err(EvaluationError::cant_resolve(name.as_str())),
        }
    }

    /// Overwrites `name` in the frame where it is found. Returns whether it
    /// was found.
    pub fn reassign(&mut self, name: String, value: Value) -> (found: bool)
        requires
            old(self).wf(),
        ensures
            final(self).wf(),
            final(self)@.frames.len() == old(self)@.frames.len(),
            found == (old(self)@.resolve(name@) is Some),
            final(self)@ == old(self)@.reassign(name@, value@),
    {
        proof {
            lemma_owner_frame(self@.frames, self@.current, name@);
        }
        match self.owner(&name) {
            Some(g) => {
                let ghost nv = name@;
                let ghost vv = value@;
                self.store_at(g, name, value);
                proof {
                    let gi = owner_frame(old(self)@.frames, old(self)@.current, nv)->0;
                    assert(gi == g as int);
                    assert(final(self)@ == old(self)@.reassign(nv, vv));
                }
                true
            },
            None => false,
        }
    }

    /// The index of the current frame.
    pub fn current_frame(&self) -> (r: usize)
        ensures
            r as int == self@.current,
    {
        self.current
    }

    /// Enters a call: a new frame nested in `parent` becomes current and the
    /// parameters are bound to the arguments. Returns the frame to go back to.
    pub fn enter(&mut self, parent: Option<usize>, names: &Vec<IdentifierExpression>, values: &Vec<Value>) -> (saved: usize)
        requires
            old(self).wf(),
            names@.len() == values@.len(),
        ensures
            final(self).wf(),
            saved as int == old(self)@.current,
            final(self)@.frames.len() == old(self)@.frames.len() + 1,
            final(self)@ == old(self)@.enter(
                parent,
                param_names(names@),
                values@.map_values(|v: Value| v@),
            ),
    {
        let saved = self.current;
        let n = self.frames.len();
        let ghost start = self@;
        let fresh = Frame { parent, bindings: Vec::new() };
        let ghost fresh_g = fresh;
        self.frames.push(fresh);
        self.current = n;
        let ghost names_m = param_names(names@);
        let ghost vals_m = values@.map_values(|v: Value| v@);
        proof {
            lemma_frames_push(old(self).frames@, fresh_g);
            assert(binding_models(Seq::<Binding>::empty()) =~= Seq::empty());
            assert(self@ == ScopeModel {
                frames: start.frames.push(FrameModel { parent, bindings: Seq::empty() }),
                current: start.frames.len() as int,
                ..start
            });
        }
        let ghost entered = self@;
        let mut i: usize = 0;
        while i < names.len()
            invariant
                i <= names@.len(),
                names@.len() == values@.len(),
                names_m == param_names(names@),
                vals_m == values@.map_values(|v: Value| v@),
                self.wf(),
                self@.frames.len() == entered.frames.len(),
                self@ == entered.bind_params(names_m, vals_m, i as nat),
            decreases names@.len() - i,
        {
            let name = names[i].name.clone();
            let value = values[i].copy();
            proof {
                assert(names_m[i as int] == name@);
                assert(vals_m[i as int] == value@);
            }
            self.store(name, value);
            i = i + 1;
        }
        saved
    }

    /// Returns from a call to the frame `saved`.
    pub fn leave(&mut self, saved: usize)
        requires
            saved < old(self)@.frames.len(),
        ensures
            final(self).wf(),
            final(self)@ == (ScopeModel { current: saved as int, ..old(self)@ }),
    {
        self.current = saved;
    }

    /// Adds text to what the program has written.
    pub fn write_output(&mut self, text: &str)
        ensures
            final(self)@ == (ScopeModel { output: old(self)@.output + text@, ..old(self)@ }),
            final(self).wf() == old(self).wf(),
    {
        self.output.append(text);
    }

    /// Hands out what the program has written so far, and forgets it.
    pub fn take_output(&mut self) -> (r: String)
        ensures
            r@ == old(self)@.output,
            final(self)@ == (ScopeModel { output: Seq::empty(), ..old(self)@ }),
            final(self).wf() == old(self).wf(),
    {
        let mut r = String::new();
        std::mem::swap(&mut r, &mut self.output);
        r
    }
}

} // verus!
