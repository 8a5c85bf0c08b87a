//! The compilation context: the circuit being built (inputs and outputs),
//! the lexical scope stack, the path-condition stack for conditional
//! assignment, and the function frame with its return slot.
//!
//! Every operation's contract states the exact new state over the views,
//! through the `spec_*` mirror functions; the lowering engine's own
//! contracts are composed from them.
use vstd::prelude::*;
use vstd::pervasive::VecAdditionalExecFns;
use crate::ir::Sort;
use crate::ir::Term;
use crate::ir::TermV;
use crate::ir::term_view_list;
use crate::ir::lemma_term_view_list;
use crate::term::PyTerm;
use crate::term::PyTermV;
use crate::term::Pyt;
use crate::term::spec_type_of;
use crate::term::spec_cast;
use crate::ty::Ty;
use crate::ty::spec_default;
use crate::strutil::str_eq;

verus! {

/// Why a context operation was rejected.
#[derive(Clone, Copy, Debug, PartialEq, Eq, Structural)]
pub enum CircError {
    /// The name is not bound in any scope.
    Undeclared,
    /// The name is already bound in the innermost scope.
    Rebound,
    /// The two sides of a merge carry different tags.
    TypeMismatch,
    /// No function frame (or no return slot) is active.
    NoFrame,
}

/// The circuit under construction.
#[derive(Debug, PartialEq, Eq)]
pub struct CirCtx {
    /// The declared symbolic inputs, in declaration order.
    pub inputs: Vec<(String, Sort)>,
    /// The emitted outputs.
    pub outputs: Vec<Term>,
}

/// The model of the circuit.
pub struct CirCtxV {
    pub inputs: Seq<(Seq<char>, Sort)>,
    pub outputs: Seq<TermV>,
}

/// The models of the input list.
pub open spec fn input_views(ps: Seq<(String, Sort)>) -> Seq<(Seq<char>, Sort)>
    decreases ps,
{
    if ps.len() == 0 {
        Seq::empty()
    } else {
        input_views(ps.drop_last()).push((ps.last().0@, ps.last().1))
    }
}

/// `input_views` maps the view over the list.
pub broadcast proof fn lemma_input_views(ps: Seq<(String, Sort)>)
    ensures
        (#[trigger] input_views(ps)).len() == ps.len(),
        forall|i: int| 0 <= i < ps.len() ==> input_views(ps)[i] == (ps[i].0@, ps[i].1),
    decreases ps,
{
    if ps.len() > 0 {
        lemma_input_views(ps.drop_last());
    }
}

impl View for CirCtx {
    type V = CirCtxV;

    open spec fn view(&self) -> CirCtxV {
        CirCtxV { inputs: input_views(self.inputs@), outputs: term_view_list(self.outputs@) }
    }
}

impl CirCtx {
    /// An empty circuit.
    pub fn new() -> (r: Self)
        ensures
            r@.inputs == Seq::<(Seq<char>, Sort)>::empty(),
            r@.outputs == Seq::<TermV>::empty(),
    {
        CirCtx { inputs: Vec::new(), outputs: Vec::new() }
    }

    /// Registers a symbolic input.
    pub fn push_input(&mut self, name: String, sort: Sort)
        ensures
            final(self)@.inputs == old(self)@.inputs.push((name@, sort)),
            final(self)@.outputs == old(self)@.outputs,
    {
        let ghost n = name@;
        self.inputs.push((name, sort));
        proof {
            assert(self.inputs@.drop_last() =~= old(self).inputs@);
            assert(input_views(self.inputs@) =~= input_views(old(self).inputs@).push((n, sort)));
        }
    }

    /// Emits an output term.
    pub fn push_output(&mut self, t: Term)
        ensures
            final(self)@.outputs == old(self)@.outputs.push(t@),
            final(self)@.inputs == old(self)@.inputs,
    {
        let ghost v = t@;
        self.outputs.push(t);
        proof {
            assert(self.outputs@.drop_last() =~= old(self).outputs@);
            assert(term_view_list(self.outputs@) =~= term_view_list(old(self).outputs@).push(v));
        }
    }
}

/// One scope: name-to-value bindings, later entries shadowing earlier.
pub type Scope = Vec<(String, PyTerm)>;

/// The model of one scope.
pub open spec fn scope_view(s: Seq<(String, PyTerm)>) -> Seq<(Seq<char>, PyTermV)>
    decreases s,
{
    if s.len() == 0 {
        Seq::empty()
    } else {
        scope_view(s.drop_last()).push((s.last().0@, s.last().1@))
    }
}

/// `scope_view` maps the view over the scope.
pub broadcast proof fn lemma_scope_view(s: Seq<(String, PyTerm)>)
    ensures
        (#[trigger] scope_view(s)).len() == s.len(),
        forall|i: int| 0 <= i < s.len() ==> scope_view(s)[i] == (s[i].0@, s[i].1@),
    decreases s,
{
    if s.len() > 0 {
        lemma_scope_view(s.drop_last());
    }
}

/// The models of the scope stack.
pub open spec fn scopes_view(ss: Seq<Scope>) -> Seq<Seq<(Seq<char>, PyTermV)>>
    decreases ss,
{
    if ss.len() == 0 {
        Seq::empty()
    } else {
        scopes_view(ss.drop_last()).push(scope_view(ss.last()@))
    }
}

/// `scopes_view` maps the view over the stack.
pub broadcast proof fn lemma_scopes_view(ss: Seq<Scope>)
    ensures
        (#[trigger] scopes_view(ss)).len() == ss.len(),
        forall|i: int| 0 <= i < ss.len() ==> scopes_view(ss)[i] == scope_view(ss[i]@),
    decreases ss,
{
    if ss.len() > 0 {
        lemma_scopes_view(ss.drop_last());
    }
}

/// The binding of `n` in one scope: the latest entry wins.
pub open spec fn scope_lookup(s: Seq<(Seq<char>, PyTermV)>, n: Seq<char>) -> Option<PyTermV>
    decreases s,
{
    if s.len() == 0 {
        None
    } else if s.last().0 == n {
        Some(s.last().1)
    } else {
        scope_lookup(s.drop_last(), n)
    }
}

/// One scope with the visible binding of `n` replaced by `v`.
pub open spec fn scope_update(
    s: Seq<(Seq<char>, PyTermV)>,
    n: Seq<char>,
    v: PyTermV,
) -> Seq<(Seq<char>, PyTermV)>
    decreases s,
{
    if s.len() == 0 {
        s
    } else if s.last().0 == n {
        s.drop_last().push((n, v))
    } else {
        scope_update(s.drop_last(), n, v).push(s.last())
    }
}

/// The binding of `n` in the scope stack: the innermost scope wins.
pub open spec fn scopes_lookup(
    ss: Seq<Seq<(Seq<char>, PyTermV)>>,
    n: Seq<char>,
) -> Option<PyTermV>
    decreases ss,
{
    if ss.len() == 0 {
        None
    } else {
        match scope_lookup(ss.last(), n) {
            Some(v) => Some(v),
            None => scopes_lookup(ss.drop_last(), n),
        }
    }
}

/// The scope stack with the visible binding of `n` replaced by `v` in the
/// innermost scope that binds it.
pub open spec fn scopes_update(
    ss: Seq<Seq<(Seq<char>, PyTermV)>>,
    n: Seq<char>,
    v: PyTermV,
) -> Seq<Seq<(Seq<char>, PyTermV)>>
    decreases ss,
{
    if ss.len() == 0 {
        ss
    } else if scope_lookup(ss.last(), n) is Some {
        ss.drop_last().push(scope_update(ss.last(), n, v))
    } else {
        scopes_update(ss.drop_last(), n, v).push(ss.last())
    }
}

/// The function frame.
pub struct FnFrame {
    /// The function's name.
    pub name: String,
    /// The return type and the current value of the return slot.
    pub ret: Option<(Ty, PyTerm)>,
}

/// The model of the function frame.
pub struct FrameV {
    pub name: Seq<char>,
    pub ret: Option<(Ty, PyTermV)>,
}

impl View for FnFrame {
    type V = FrameV;

    open spec fn view(&self) -> FrameV {
        FrameV {
            name: self.name@,
            ret: match self.ret {
                Some((ty, ref slot)) => Some((ty, slot@)),
                None => None,
            },
        }
    }
}

/// The model of the whole context.
pub struct CircifyV {
    pub ctx: CirCtxV,
    pub scopes: Seq<Seq<(Seq<char>, PyTermV)>>,
    pub conditions: Seq<TermV>,
    pub frame: Option<FrameV>,
}

/// The compilation context.
pub struct Circify {
    /// The language definition.
    pub lang: Pyt,
    /// The circuit under construction.
    pub ctx: CirCtx,
    /// The lexical scope stack; the last scope is the innermost.
    pub scopes: Vec<Scope>,
    /// The path-condition stack; each entry is ANDed into the guard.
    pub conditions: Vec<Term>,
    /// The active function frame, if any.
    pub frame: Option<FnFrame>,
}

impl View for Circify {
    type V = CircifyV;

    open spec fn view(&self) -> CircifyV {
        CircifyV {
            ctx: self.ctx@,
            scopes: scopes_view(self.scopes@),
            conditions: term_view_list(self.conditions@),
            frame: match self.frame {
                Some(ref f) => Some(f@),
                None => None,
            },
        }
    }
}

/// The guard of the current path: the sole condition, or their conjunction.
pub open spec fn spec_guard(conds: Seq<TermV>) -> TermV {
    if conds.len() == 1 {
        conds[0]
    } else {
        TermV::NaryAnd(conds)
    }
}

/// The merge of a new value over an old one under a guard; the tags must
/// already agree.
pub open spec fn spec_merge(guard: TermV, v: PyTermV, old_v: PyTermV) -> PyTermV {
    match (v, old_v) {
        (PyTermV::Bool(a), PyTermV::Bool(b)) => PyTermV::Bool(
            TermV::Ite(Box::new(guard), Box::new(a), Box::new(b)),
        ),
        (PyTermV::Int(a), PyTermV::Int(b)) => PyTermV::Int(
            TermV::Ite(Box::new(guard), Box::new(a), Box::new(b)),
        ),
        _ => v,
    }
}

/// The state after `enter_fn`: a frame with a defaulted return slot, and
/// one fresh scope.
pub open spec fn spec_enter_fn(c: CircifyV, name: Seq<char>, ret_ty: Option<Ty>) -> CircifyV {
    CircifyV {
        scopes: c.scopes.push(Seq::empty()),
        frame: Some(
            FrameV {
                name: name,
                ret: match ret_ty {
                    Some(ty) => Some((ty, spec_default(ty))),
                    None => None,
                },
            },
        ),
        ..c
    }
}

/// The state and result of `exit_fn`: the innermost scope and the frame
/// are discarded, and the return slot's value (if any) is handed back.
pub open spec fn spec_exit_fn(c: CircifyV) -> (CircifyV, Option<PyTermV>) {
    (
        CircifyV { scopes: c.scopes.drop_last(), frame: None, ..c },
        match c.frame->Some_0.ret {
            Some((_, slot)) => Some(slot),
            None => None,
        },
    )
}

/// The state after `declare_init`: the binding is pushed onto the
/// innermost scope; rebinding a name there is refused, as is an
/// initializer whose tag differs from the declared type.
pub open spec fn spec_declare_init(c: CircifyV, name: Seq<char>, ty: Ty, val: PyTermV) -> Result<
    CircifyV,
    CircError,
> {
    if scope_lookup(c.scopes.last(), name) is Some {
        Err(CircError::Rebound)
    } else if spec_type_of(val) != ty {
        Err(CircError::TypeMismatch)
    } else {
        Ok(
            CircifyV {
                scopes: c.scopes.drop_last().push(c.scopes.last().push((name, val))),
                ..c
            },
        )
    }
}

/// The state and value after `declare_input`: the variable is registered
/// as a circuit input and bound in the innermost scope.
pub open spec fn spec_declare_input(c: CircifyV, name: Seq<char>, ty: Ty) -> Result<
    (CircifyV, PyTermV),
    CircError,
> {
    if scope_lookup(c.scopes.last(), name) is Some {
        Err(CircError::Rebound)
    } else {
        let term = crate::term::spec_input_term(ty, name);
        Ok(
            (
                CircifyV {
                    ctx: CirCtxV {
                        inputs: c.ctx.inputs.push((name, crate::ty::spec_sort(ty))),
                        ..c.ctx
                    },
                    scopes: c.scopes.drop_last().push(c.scopes.last().push((name, term))),
                    ..c
                },
                term,
            ),
        )
    }
}

/// The state and value after `assign`: under an empty condition stack the
/// new value replaces the old; otherwise the stored value becomes
/// `ite(guard, new, old)`. The tags must agree and the name must be bound.
pub open spec fn spec_assign(c: CircifyV, name: Seq<char>, val: PyTermV) -> Result<
    (CircifyV, PyTermV),
    CircError,
> {
    match scopes_lookup(c.scopes, name) {
        None => Err(CircError::Undeclared),
        Some(old_v) => if spec_type_of(val) != spec_type_of(old_v) {
            Err(CircError::TypeMismatch)
        } else {
            let merged = if c.conditions.len() == 0 {
                val
            } else {
                spec_merge(spec_guard(c.conditions), val, old_v)
            };
            Ok((CircifyV { scopes: scopes_update(c.scopes, name, merged), ..c }, merged))
        },
    }
}

/// The state after `return_`: the returned value is coerced to the
/// declared return type and merged into the return slot under the guard.
pub open spec fn spec_return_(c: CircifyV, val: Option<PyTermV>) -> Result<CircifyV, CircError> {
    match c.frame {
        None => Err(CircError::NoFrame),
        Some(fr) => match fr.ret {
            None => Err(CircError::NoFrame),
            Some((ty, slot)) => match val {
                None => Ok(c),
                Some(v) => {
                    let coerced = spec_cast(ty, v);
                    if c.conditions.len() == 0 {
                        Ok(
                            CircifyV {
                                frame: Some(FrameV { ret: Some((ty, coerced)), ..fr }),
                                ..c
                            },
                        )
                    } else if spec_type_of(slot) != ty {
                        Err(CircError::TypeMismatch)
                    } else {
                        let merged = spec_merge(spec_guard(c.conditions), coerced, slot);
                        Ok(
                            CircifyV {
                                frame: Some(FrameV { ret: Some((ty, merged)), ..fr }),
                                ..c
                            },
                        )
                    }
                },
            },
        },
    }
}

impl Circify {
    /// A fresh context: no scopes, no conditions, no frame.
    pub fn new(lang: Pyt) -> (r: Self)
        ensures
            r@.ctx.inputs == Seq::<(Seq<char>, Sort)>::empty(),
            r@.ctx.outputs == Seq::<TermV>::empty(),
            r@.scopes == Seq::<Seq<(Seq<char>, PyTermV)>>::empty(),
            r@.conditions == Seq::<TermV>::empty(),
            r@.frame is None,
    {
        Circify {
            lang: lang,
            ctx: CirCtx::new(),
            scopes: Vec::new(),
            conditions: Vec::new(),
            frame: None,
        }
    }

    /// Gives up the context and hands back the built circuit.
    pub fn consume(self) -> (r: CirCtx)
        ensures
            r@ == self@.ctx,
    {
        self.ctx
    }

    /// Opens a function frame with a defaulted return slot and one scope.
    pub fn enter_fn(&mut self, f_name: String, ret_ty: Option<Ty>)
        ensures
            final(self)@ == spec_enter_fn(old(self)@, f_name@, ret_ty),
    {
        let ghost n = f_name@;
        let ret = match ret_ty {
            Some(ty) => Some((ty, self.lang.initialize_return(&ty))),
            None => None,
        };
        self.frame = Some(FnFrame { name: f_name, ret: ret });
        self.scopes.push(Vec::new());
        proof {
            assert(self.scopes@.drop_last() =~= old(self).scopes@);
            assert(scope_view(self.scopes@.last()@) =~= Seq::<(Seq<char>, PyTermV)>::empty());
            assert(scopes_view(self.scopes@) =~= scopes_view(old(self).scopes@).push(
                Seq::empty(),
            ));
        }
    }

    /// Closes the function frame and hands back the return slot's value.
    pub fn exit_fn(&mut self) -> (r: Option<PyTerm>)
        requires
            old(self)@.frame is Some,
            old(self)@.scopes.len() >= 1,
        ensures
            final(self)@ == spec_exit_fn(old(self)@).0,
            match spec_exit_fn(old(self)@).1 {
                Some(v) => r matches Some(p) && p@ == v,
                None => r is None,
            },
    {
        let r = match &self.frame {
            Some(f) => match &f.ret {
                Some((_, slot)) => Some(slot.clone()),
                None => None,
            },
            None => None,
        };
        self.frame = None;
        let _ = self.scopes.pop();
        proof {
            assert(self.scopes@ =~= old(self).scopes@.drop_last());
            assert(scopes_view(self.scopes@) =~= scopes_view(old(self).scopes@).drop_last());
        }
        r
    }

    /// Opens a lexical scope.
    pub fn enter_scope(&mut self)
        ensures
            final(self)@ == (CircifyV {
                scopes: old(self)@.scopes.push(Seq::empty()),
                ..old(self)@
            }),
    {
        self.scopes.push(Vec::new());
        proof {
            assert(self.scopes@.drop_last() =~= old(self).scopes@);
            assert(scope_view(self.scopes@.last()@) =~= Seq::<(Seq<char>, PyTermV)>::empty());
            assert(scopes_view(self.scopes@) =~= scopes_view(old(self).scopes@).push(
                Seq::empty(),
            ));
        }
    }

    /// Closes the innermost lexical scope; its bindings vanish.
    pub fn exit_scope(&mut self)
        requires
            old(self)@.scopes.len() >= 1,
        ensures
            final(self)@ == (CircifyV { scopes: old(self)@.scopes.drop_last(), ..old(self)@ }),
    {
        let _ = self.scopes.pop();
        proof {
            assert(self.scopes@ =~= old(self).scopes@.drop_last());
            assert(scopes_view(self.scopes@) =~= scopes_view(old(self).scopes@).drop_last());
        }
    }

    /// Pushes a path condition; it is ANDed into the governing guard.
    pub fn enter_condition(&mut self, cond: Term)
        ensures
            final(self)@ == (CircifyV {
                conditions: old(self)@.conditions.push(cond@),
                ..old(self)@
            }),
    {
        let ghost v = cond@;
        self.conditions.push(cond);
        proof {
            assert(self.conditions@.drop_last() =~= old(self).conditions@);
            assert(term_view_list(self.conditions@) =~= term_view_list(
                old(self).conditions@,
            ).push(v));
        }
    }

    /// Pops the innermost path condition.
    pub fn exit_condition(&mut self)
        requires
            old(self)@.conditions.len() >= 1,
        ensures
            final(self)@ == (CircifyV {
                conditions: old(self)@.conditions.drop_last(),
                ..old(self)@
            }),
    {
        let _ = self.conditions.pop();
        proof {
            assert(self.conditions@ =~= old(self).conditions@.drop_last());
            lemma_term_view_list(old(self).conditions@);
            lemma_term_view_list(self.conditions@);
            assert(term_view_list(self.conditions@) =~= term_view_list(
                old(self).conditions@,
            ).drop_last());
        }
    }

    /// Whether a name is bound in any open scope.
    pub fn already_declared(&self, name: &str) -> (r: bool)
        ensures
            r == (scopes_lookup(self@.scopes, name@) is Some),
    {
        match self.find_binding(name) {
            Some(_) => true,
            None => false,
        }
    }

    /// The value bound to a name, from the innermost scope that binds it.
    pub fn get_value(&self, name: &str) -> (r: Result<PyTerm, CircError>)
        ensures
            match scopes_lookup(self@.scopes, name@) {
                Some(v) => r matches Ok(p) && p@ == v,
                None => r == Err::<PyTerm, CircError>(CircError::Undeclared),
            },
    {
        match self.find_binding(name) {
            Some((k, j)) => {
                proof {
                    lemma_scopes_view(self.scopes@);
                    lemma_scope_view(self.scopes@[k as int]@);
                }
                Ok(self.scopes[k][j].1.clone())
            },
            None => Err(CircError::Undeclared),
        }
    }

    /// Finds the position of the visible binding of `name`: the innermost
    /// scope that binds it, and the latest entry there.
    fn find_binding(&self, name: &str) -> (r: Option<(usize, usize)>)
        ensures
            match r {
                Some((k, j)) => {
                    &&& k < self@.scopes.len()
                    &&& j < self@.scopes[k as int].len()
                    &&& self@.scopes[k as int][j as int].0 == name@
                    &&& scopes_lookup(self@.scopes, name@) == Some(
                        self@.scopes[k as int][j as int].1,
                    )
                    &&& forall|i: int|
                        j < i < self@.scopes[k as int].len() ==> self@.scopes[k as int][i].0
                            != name@
                    &&& forall|i: int|
                        k < i < self@.scopes.len() ==> scope_lookup(
                            #[trigger] self@.scopes[i],
                            name@,
                        ) is None
                },
                None => scopes_lookup(self@.scopes, name@) is None,
            },
    {
        let ghost ss = self@.scopes;
        let mut k: usize = self.scopes.len();
        proof {
            lemma_scopes_view(self.scopes@);
            assert(ss.take(k as int) =~= ss);
        }
        while k > 0
            invariant
                k <= self.scopes@.len(),
                ss == self@.scopes,
                ss.len() == self.scopes@.len(),
                forall|i: int| 0 <= i < ss.len() ==> ss[i] == scope_view(self.scopes@[i]@),
                scopes_lookup(ss, name@) == scopes_lookup(ss.take(k as int), name@),
                forall|i: int|
                    k <= i < ss.len() ==> scope_lookup(#[trigger] ss[i], name@) is None,
            decreases k,
        {
            k = k - 1;
            proof {
                assert(ss.take(k + 1 as int).drop_last() =~= ss.take(k as int));
                assert(ss.take(k + 1 as int).last() == ss[k as int]);
            }
            match scope_find(&self.scopes[k], name) {
                Some(j) => {
                    proof {
                        lemma_scope_view(self.scopes@[k as int]@);
                    }
                    return Some((k, j));
                },
                None => {
                },
            }
        }
        proof {
            assert(ss.take(0) =~= Seq::<Seq<(Seq<char>, PyTermV)>>::empty());
        }
        None
    }

    /// Declares a fresh binding in the innermost scope, initialized to
    /// `val`, whose tag must be the declared type.
    pub fn declare_init(&mut self, name: String, ty: Ty, val: PyTerm) -> (r: Result<
        (),
        CircError,
    >)
        requires
            old(self)@.scopes.len() >= 1,
        ensures
            match spec_declare_init(old(self)@, name@, ty, val@) {
                Ok(c2) => r is Ok && final(self)@ == c2,
                Err(e) => r == Err::<(), CircError>(e) && final(self)@ == old(self)@,
            },
    {
        proof {
            lemma_scopes_view(self.scopes@);
        }
        let top = self.scopes.len() - 1;
        let bound = match scope_find(&self.scopes[top], name.as_str()) {
            Some(_) => true,
            None => false,
        };
        proof {
            assert(self@.scopes.last() == scope_view(self.scopes@[top as int]@));
        }
        if bound {
            return Err(CircError::Rebound);
        }
        if val.type_() != ty {
            return Err(CircError::TypeMismatch);
        }
        let ghost old_scopes = self.scopes@;
        let entry = (name, val);
        let ghost eview = (entry.0@, entry.1@);
        let scope: &mut Scope = &mut self.scopes[top];
        scope.push(entry);
        proof {
            lemma_scopes_view(old_scopes);
            lemma_scopes_view(self.scopes@);
            assert(self.scopes@[top as int]@.drop_last() =~= old_scopes[top as int]@);
            assert(scope_view(self.scopes@[top as int]@) =~= scope_view(
                old_scopes[top as int]@,
            ).push(eview));
            assert(scopes_view(self.scopes@) =~= scopes_view(old_scopes).drop_last().push(
                scope_view(old_scopes[top as int]@).push(eview),
            ));
        }
        Ok(())
    }

    /// Declares a symbolic input of the given type: registers it in the
    /// circuit and binds the variable term in the innermost scope.
    pub fn declare_input(&mut self, name: String, ty: &Ty) -> (r: Result<PyTerm, CircError>)
        requires
            old(self)@.scopes.len() >= 1,
        ensures
            match spec_declare_input(old(self)@, name@, *ty) {
                Ok((c2, v)) => r matches Ok(p) && p@ == v && final(self)@ == c2,
                Err(e) => r == Err::<PyTerm, CircError>(e) && final(self)@ == old(self)@,
            },
    {
        proof {
            lemma_scopes_view(self.scopes@);
        }
        let top = self.scopes.len() - 1;
        let bound = match scope_find(&self.scopes[top], name.as_str()) {
            Some(_) => true,
            None => false,
        };
        proof {
            assert(self@.scopes.last() == scope_view(self.scopes@[top as int]@));
        }
        if bound {
            return Err(CircError::Rebound);
        }
        let term = self.lang.declare_input(&mut self.ctx, ty, name.clone());
        let out = term.clone();
        let ghost old_scopes = self.scopes@;
        let entry = (name, term);
        let ghost eview = (entry.0@, entry.1@);
        let scope: &mut Scope = &mut self.scopes[top];
        scope.push(entry);
        proof {
            lemma_scopes_view(old_scopes);
            lemma_scopes_view(self.scopes@);
            assert(self.scopes@[top as int]@.drop_last() =~= old_scopes[top as int]@);
            assert(scope_view(self.scopes@[top as int]@) =~= scope_view(
                old_scopes[top as int]@,
            ).push(eview));
            assert(scopes_view(self.scopes@) =~= scopes_view(old_scopes).drop_last().push(
                scope_view(old_scopes[top as int]@).push(eview),
            ));
        }
        Ok(out)
    }

    /// Assigns to a bound name; under path conditions the stored value
    /// becomes an if-then-else over the guard. Hands back the stored value.
    pub fn assign(&mut self, name: &str, val: PyTerm) -> (r: Result<PyTerm, CircError>)
        ensures
            match spec_assign(old(self)@, name@, val@) {
                Ok((c2, merged)) => r matches Ok(p) && p@ == merged && final(self)@ == c2,
                Err(e) => r == Err::<PyTerm, CircError>(e) && final(self)@ == old(self)@,
            },
    {
        let ghost ss = self@.scopes;
        match self.find_binding(name) {
            None => Err(CircError::Undeclared),
            Some((k, j)) => {
                proof {
                    lemma_scopes_view(self.scopes@);
                    lemma_scope_view(self.scopes@[k as int]@);
                }
                let old_val = self.scopes[k][j].1.clone();
                if val.type_() != old_val.type_() {
                    return Err(CircError::TypeMismatch);
                }
                let merged = if self.conditions.len() == 0 {
                    val
                } else {
                    let g = self.guard();
                    match self.lang.ite(g, val, old_val) {
                        Ok(m) => m,
                        Err(_) => {
                            return Err(CircError::TypeMismatch);
                        },
                    }
                };
                let ghost mview = merged@;
                let ghost old_scopes = self.scopes@;
                let key = self.scopes[k][j].0.clone();
                let out = merged.clone();
                let scope: &mut Scope = &mut self.scopes[k];
                scope.set(j, (key, merged));
                proof {
                    lemma_scopes_view(old_scopes);
                    lemma_scopes_view(self.scopes@);
                    lemma_scope_view(old_scopes[k as int]@);
                    lemma_scope_view(self.scopes@[k as int]@);
                    assert(scope_view(self.scopes@[k as int]@) =~= ss[k as int].update(
                        j as int,
                        (name@, mview),
                    ));
                    assert(scopes_view(self.scopes@) =~= ss.update(
                        k as int,
                        ss[k as int].update(j as int, (name@, mview)),
                    ));
                    lemma_scopes_update_at(ss, name@, mview, k as int, j as int);
                }
                Ok(out)
            },
        }
    }

    /// The guard of the current path.
    fn guard(&self) -> (r: Term)
        requires
            self@.conditions.len() >= 1,
        ensures
            r@ == spec_guard(self@.conditions),
    {
        proof {
            lemma_term_view_list(self.conditions@);
        }
        if self.conditions.len() == 1 {
            self.conditions[0].clone()
        } else {
            let cs = crate::ir::clone_term_list(&self.conditions);
            Term::NaryAnd(cs)
        }
    }

    /// Stages a return: the value is coerced to the declared return type
    /// and merged into the return slot under the current guard.
    pub fn return_(&mut self, val: Option<PyTerm>) -> (r: Result<(), CircError>)
        ensures
            match spec_return_(old(self)@, match val {
                Some(ref p) => Some(p@),
                None => None::<PyTermV>,
            }) {
                Ok(c2) => r is Ok && final(self)@ == c2,
                Err(e) => r == Err::<(), CircError>(e) && final(self)@ == old(self)@,
            },
    {
        let ty_slot: Option<(Ty, PyTerm)> = match &self.frame {
            Some(f) => match &f.ret {
                Some((t, s)) => Some((*t, s.clone())),
                None => None,
            },
            None => None,
        };
        match ty_slot {
            None => Err(CircError::NoFrame),
            Some((ty, slot)) => {
                let v = match val {
                    None => {
                        return Ok(());
                    },
                    Some(v) => v,
                };
                let coerced = crate::term::cast(Some(ty), v);
                proof {
                    crate::term::lemma_cast_type(ty, v@);
                }
                let merged = if self.conditions.len() == 0 {
                    coerced
                } else {
                    let g = self.guard();
                    let ghost sv = slot@;
                    match self.lang.ite(g, coerced, slot) {
                        Ok(m) => m,
                        Err(_) => {
                            return Err(CircError::TypeMismatch);
                        },
                    }
                };
                let name2 = match &self.frame {
                    Some(f) => f.name.clone(),
                    None => String::new(),
                };
                self.frame = Some(FnFrame { name: name2, ret: Some((ty, merged)) });
                Ok(())
            },
        }
    }
}

/// Finds the latest entry for `name` in one scope.
fn scope_find(s: &Scope, name: &str) -> (r: Option<usize>)
    ensures
        match r {
            Some(j) => {
                &&& j < s@.len()
                &&& scope_view(s@)[j as int].0 == name@
                &&& scope_lookup(scope_view(s@), name@) == Some(scope_view(s@)[j as int].1)
                &&& forall|i: int| j < i < s@.len() ==> scope_view(s@)[i].0 != name@
            },
            None => scope_lookup(scope_view(s@), name@) is None,
        },
{
    let ghost sv = scope_view(s@);
    proof {
        lemma_scope_view(s@);
    }
    let mut j: usize = s.len();
    proof {
        assert(sv.take(j as int) =~= sv);
    }
    while j > 0
        invariant
            j <= s@.len(),
            sv == scope_view(s@),
            sv.len() == s@.len(),
            forall|i: int| 0 <= i < s@.len() ==> sv[i] == (s@[i].0@, s@[i].1@),
            scope_lookup(sv, name@) == scope_lookup(sv.take(j as int), name@),
            forall|i: int| j <= i < s@.len() ==> sv[i].0 != name@,
        decreases j,
    {
        j = j - 1;
        proof {
            assert(sv.take(j + 1 as int).drop_last() =~= sv.take(j as int));
            assert(sv.take(j + 1 as int).last() == sv[j as int]);
        }
        if str_eq(s[j].0.as_str(), name) {
            proof {
                lemma_scope_lookup_at(sv, name@, j as int);
            }
            return Some(j);
        }
    }
    proof {
        assert(sv.take(0) =~= Seq::<(Seq<char>, PyTermV)>::empty());
    }
    None
}

/// After an update, the updated binding is what the lookup sees.
pub proof fn lemma_scope_lookup_update(s: Seq<(Seq<char>, PyTermV)>, n: Seq<char>, v: PyTermV)
    requires
        scope_lookup(s, n) is Some,
    ensures
        scope_lookup(scope_update(s, n, v), n) == Some(v),
    decreases s,
{
    if s.len() > 0 {
        if s.last().0 == n {
            assert(scope_update(s, n, v) == s.drop_last().push((n, v)));
            assert(scope_update(s, n, v).last() == (n, v));
        } else {
            lemma_scope_lookup_update(s.drop_last(), n, v);
            assert(scope_update(s, n, v) == scope_update(s.drop_last(), n, v).push(s.last()));
            assert(scope_update(s, n, v).last() == s.last());
            assert(scope_update(s, n, v).drop_last() == scope_update(s.drop_last(), n, v));
        }
    }
}

/// After a stack update, the updated binding is what the lookup sees.
pub proof fn lemma_scopes_lookup_update(
    ss: Seq<Seq<(Seq<char>, PyTermV)>>,
    n: Seq<char>,
    v: PyTermV,
)
    requires
        scopes_lookup(ss, n) is Some,
    ensures
        scopes_lookup(scopes_update(ss, n, v), n) == Some(v),
    decreases ss,
{
    if ss.len() > 0 {
        if scope_lookup(ss.last(), n) is Some {
            lemma_scope_lookup_update(ss.last(), n, v);
            assert(scopes_update(ss, n, v) == ss.drop_last().push(scope_update(ss.last(), n, v)));
            assert(scopes_update(ss, n, v).last() == scope_update(ss.last(), n, v));
        } else {
            lemma_scopes_lookup_update(ss.drop_last(), n, v);
            assert(scopes_update(ss, n, v) == scopes_update(ss.drop_last(), n, v).push(ss.last()));
            assert(scopes_update(ss, n, v).last() == ss.last());
            assert(scopes_update(ss, n, v).drop_last() == scopes_update(ss.drop_last(), n, v));
        }
    }
}

/// Path-condition soundness for the `if` branch: an assignment staged
/// between `enter_condition(cond)` and `exit_condition` leaves the
/// variable bound to `ite(cond, new, old)` — under any environment the
/// stored value is the new one exactly when the condition holds, and
/// the old one otherwise.
pub proof fn lemma_path_condition_soundness(
    c: CircifyV,
    cond: TermV,
    name: Seq<char>,
    v: PyTermV,
    env: Map<Seq<char>, crate::ir::Val>,
)
    requires
        c.conditions.len() == 0,
        scopes_lookup(c.scopes, name) is Some,
        spec_type_of(scopes_lookup(c.scopes, name)->Some_0) == spec_type_of(v),
    ensures
        ({
            let c1 = CircifyV { conditions: c.conditions.push(cond), ..c };
            let old_v = scopes_lookup(c.scopes, name)->Some_0;
            &&& spec_assign(c1, name, v) is Ok
            &&& ({
                let c2 = spec_assign(c1, name, v)->Ok_0.0;
                let merged = spec_assign(c1, name, v)->Ok_0.1;
                let c3 = CircifyV { conditions: c2.conditions.drop_last(), ..c2 };
                &&& c3.conditions == c.conditions
                &&& merged == spec_merge(cond, v, old_v)
                &&& scopes_lookup(c3.scopes, name) == Some(merged)
                &&& (match (
                    crate::ir::eval(cond, env),
                    crate::ir::eval(crate::term::spec_inner(v), env),
                    crate::ir::eval(crate::term::spec_inner(old_v), env),
                ) {
                    (
                        Some(crate::ir::Val::B(cb)),
                        Some(va),
                        Some(vb),
                    ) => crate::ir::val_sort(va) == crate::ir::val_sort(vb)
                        ==> crate::ir::eval(crate::term::spec_inner(merged), env) == Some(
                        if cb {
                            va
                        } else {
                            vb
                        },
                    ),
                    _ => true,
                })
            })
        }),
{
    let c1 = CircifyV { conditions: c.conditions.push(cond), ..c };
    let old_v = scopes_lookup(c.scopes, name)->Some_0;
    assert(c1.conditions.len() == 1);
    assert(spec_guard(c1.conditions) == cond);
    let merged = spec_merge(cond, v, old_v);
    lemma_scopes_lookup_update(c.scopes, name, merged);
}

/// Path-condition soundness for the `else` branch: under the negated
/// condition, the stored value is the new one exactly when the
/// condition fails.
pub proof fn lemma_path_condition_soundness_else(
    c: CircifyV,
    cond: TermV,
    name: Seq<char>,
    v: PyTermV,
    env: Map<Seq<char>, crate::ir::Val>,
)
    requires
        c.conditions.len() == 0,
        scopes_lookup(c.scopes, name) is Some,
        spec_type_of(scopes_lookup(c.scopes, name)->Some_0) == spec_type_of(v),
    ensures
        ({
            let nt = TermV::Not(Box::new(cond));
            let c1 = CircifyV { conditions: c.conditions.push(nt), ..c };
            let old_v = scopes_lookup(c.scopes, name)->Some_0;
            &&& spec_assign(c1, name, v) is Ok
            &&& ({
                let merged = spec_assign(c1, name, v)->Ok_0.1;
                &&& merged == spec_merge(nt, v, old_v)
                &&& (match (
                    crate::ir::eval(cond, env),
                    crate::ir::eval(crate::term::spec_inner(v), env),
                    crate::ir::eval(crate::term::spec_inner(old_v), env),
                ) {
                    (
                        Some(crate::ir::Val::B(cb)),
                        Some(va),
                        Some(vb),
                    ) => crate::ir::val_sort(va) == crate::ir::val_sort(vb)
                        ==> crate::ir::eval(crate::term::spec_inner(merged), env) == Some(
                        if cb {
                            vb
                        } else {
                            va
                        },
                    ),
                    _ => true,
                })
            })
        }),
{
    let nt = TermV::Not(Box::new(cond));
    let c1 = CircifyV { conditions: c.conditions.push(nt), ..c };
    let old_v = scopes_lookup(c.scopes, name)->Some_0;
    assert(c1.conditions.len() == 1);
    assert(spec_guard(c1.conditions) == nt);
    let merged = spec_merge(nt, v, old_v);
    lemma_scopes_lookup_update(c.scopes, name, merged);
    match crate::ir::eval(cond, env) {
        Some(crate::ir::Val::B(cb)) => {
            assert(crate::ir::eval(nt, env) == Some(crate::ir::Val::B(!cb)));
        },
        _ => {},
    }
}

/// Updating a binding never changes the shape of the scope stack.
pub proof fn lemma_scopes_update_len(ss: Seq<Seq<(Seq<char>, PyTermV)>>, n: Seq<char>)
    ensures
        forall|v: PyTermV| (#[trigger] scopes_update(ss, n, v)).len() == ss.len(),
    decreases ss,
{
    if ss.len() > 0 {
        lemma_scopes_update_len(ss.drop_last(), n);
    }
    assert forall|v: PyTermV| (#[trigger] scopes_update(ss, n, v)).len() == ss.len() by {
        if ss.len() > 0 {
            if scope_lookup(ss.last(), n) is Some {
                assert(scopes_update(ss, n, v) == ss.drop_last().push(
                    scope_update(ss.last(), n, v),
                ));
            } else {
                assert(scopes_update(ss, n, v) == scopes_update(ss.drop_last(), n, v).push(
                    ss.last(),
                ));
            }
        }
    }
}

/// If entry `j` is the latest for `n`, the lookup yields its value.
proof fn lemma_scope_lookup_at(s: Seq<(Seq<char>, PyTermV)>, n: Seq<char>, j: int)
    requires
        0 <= j < s.len(),
        s[j].0 == n,
        forall|i: int| j < i < s.len() ==> s[i].0 != n,
    ensures
        scope_lookup(s, n) == Some(s[j].1),
    decreases s,
{
    if j == s.len() - 1 {
    } else {
        lemma_scope_lookup_at(s.drop_last(), n, j);
    }
}

/// If entry `j` is the latest for `n`, the update rewrites exactly it.
proof fn lemma_scope_update_at(s: Seq<(Seq<char>, PyTermV)>, n: Seq<char>, v: PyTermV, j: int)
    requires
        0 <= j < s.len(),
        s[j].0 == n,
        forall|i: int| j < i < s.len() ==> s[i].0 != n,
    ensures
        scope_update(s, n, v) =~= s.update(j, (n, v)),
    decreases s,
{
    if j == s.len() - 1 {
        assert(s.drop_last().push((n, v)) =~= s.update(j, (n, v)));
    } else {
        lemma_scope_update_at(s.drop_last(), n, v, j);
        assert(scope_update(s.drop_last(), n, v).push(s.last()) =~= s.update(j, (n, v)));
    }
}

/// If scope `k` holds the visible binding at entry `j`, the stack update
/// rewrites exactly that entry.
proof fn lemma_scopes_update_at(
    ss: Seq<Seq<(Seq<char>, PyTermV)>>,
    n: Seq<char>,
    v: PyTermV,
    k: int,
    j: int,
)
    requires
        0 <= k < ss.len(),
        0 <= j < ss[k].len(),
        ss[k][j].0 == n,
        forall|i: int| j < i < ss[k].len() ==> ss[k][i].0 != n,
        forall|i: int| k < i < ss.len() ==> scope_lookup(#[trigger] ss[i], n) is None,
    ensures
        scopes_update(ss, n, v) =~= ss.update(k, ss[k].update(j, (n, v))),
    decreases ss,
{
    if k == ss.len() - 1 {
        lemma_scope_lookup_at(ss[k], n, j);
        lemma_scope_update_at(ss[k], n, v, j);
        assert(ss.drop_last().push(scope_update(ss.last(), n, v)) =~= ss.update(
            k,
            ss[k].update(j, (n, v)),
        ));
    } else {
        lemma_scopes_update_at(ss.drop_last(), n, v, k, j);
        assert(scopes_update(ss.drop_last(), n, v).push(ss.last()) =~= ss.update(
            k,
            ss[k].update(j, (n, v)),
        ));
    }
}

} // verus!
