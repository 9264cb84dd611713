use vstd::prelude::*;

use crate::builtin::get_builtin_fns;
use crate::object::{Object, ValueV};
use vstd::string::StrSliceExecFns;
use vstd::string::StringExecFns;

verus! {

/// One lexical scope: its bindings in insertion order, and the index of the
/// enclosing scope, if any.
#[derive(Debug)]
pub struct Scope {
    bindings: Vec<(String, Object)>,
    outer: Option<usize>,
}

/// The model of one scope.
pub struct ScopeV {
    pub bindings: Seq<(Seq<char>, ValueV)>,
    pub outer: Option<int>,
}

/// The model of a binding list.
pub open spec fn bindings_view(s: Seq<(String, Object)>) -> Seq<(Seq<char>, ValueV)>
    decreases s,
{
    if s.len() == 0 {
        Seq::empty()
    } else {
        bindings_view(s.drop_last()).push((s.last().0@, s.last().1@))
    }
}

/// `bindings_view` maps the list entry by entry.
pub proof fn lemma_bindings_view(s: Seq<(String, Object)>)
    ensures
        bindings_view(s).len() == s.len(),
        forall|i: int| 0 <= i < s.len() ==> bindings_view(s)[i] == (s[i].0@, s[i].1@),
    decreases s.len(),
{
    if s.len() > 0 {
        lemma_bindings_view(s.drop_last());
    }
}

/// Appending one binding appends its model.
pub proof fn lemma_bindings_view_push(s: Seq<(String, Object)>, x: (String, Object))
    ensures
        bindings_view(s.push(x)) == bindings_view(s).push((x.0@, x.1@)),
{
    assert(s.push(x).drop_last() =~= s);
    assert(s.push(x).last() == x);
}

/// Updating one binding updates its model.
pub proof fn lemma_bindings_view_update(s: Seq<(String, Object)>, i: int, x: (String, Object))
    requires
        0 <= i < s.len(),
    ensures
        bindings_view(s.update(i, x)) =~= bindings_view(s).update(i, (x.0@, x.1@)),
{
    lemma_bindings_view(s.update(i, x));
    lemma_bindings_view(s);
}

/// The first binding for `name`, scanning from the front.
pub open spec fn assoc_lookup(b: Seq<(Seq<char>, ValueV)>, name: Seq<char>) -> Option<ValueV>
    decreases b.len(),
{
    if b.len() == 0 {
        None
    } else if b[0].0 == name {
        Some(b[0].1)
    } else {
        assoc_lookup(b.drop_first(), name)
    }
}

/// The binding list after `name` is set to `v`: the first existing binding
/// for `name` is replaced in place, or a new binding is appended at the
/// end.
pub open spec fn assoc_set(
    b: Seq<(Seq<char>, ValueV)>,
    name: Seq<char>,
    v: ValueV,
) -> Seq<(Seq<char>, ValueV)>
    decreases b.len(),
{
    if b.len() == 0 {
        seq![(name, v)]
    } else if b[0].0 == name {
        seq![(name, v)] + b.drop_first()
    } else {
        seq![b[0]] + assoc_set(b.drop_first(), name, v)
    }
}

/// When the first match sits at index `j`, a lookup finds exactly that
/// binding.
pub proof fn lemma_assoc_lookup_found(b: Seq<(Seq<char>, ValueV)>, name: Seq<char>, j: int)
    requires
        0 <= j < b.len(),
        b[j].0 == name,
        forall|k: int| 0 <= k < j ==> b[k].0 != name,
    ensures
        assoc_lookup(b, name) == Some(b[j].1),
    decreases j,
{
    if j > 0 {
        lemma_assoc_lookup_found(b.drop_first(), name, j - 1);
    }
}

/// When no binding matches, a lookup finds nothing.
pub proof fn lemma_assoc_lookup_missing(b: Seq<(Seq<char>, ValueV)>, name: Seq<char>)
    requires
        forall|k: int| 0 <= k < b.len() ==> b[k].0 != name,
    ensures
        assoc_lookup(b, name) is None,
    decreases b.len(),
{
    if b.len() > 0 {
        lemma_assoc_lookup_missing(b.drop_first(), name);
    }
}

/// When the first match sits at index `j`, setting replaces that binding in
/// place.
pub proof fn lemma_assoc_set_found(
    b: Seq<(Seq<char>, ValueV)>,
    name: Seq<char>,
    v: ValueV,
    j: int,
)
    requires
        0 <= j < b.len(),
        b[j].0 == name,
        forall|k: int| 0 <= k < j ==> b[k].0 != name,
    ensures
        assoc_set(b, name, v) =~= b.update(j, (name, v)),
    decreases j,
{
    if j > 0 {
        lemma_assoc_set_found(b.drop_first(), name, v, j - 1);
        assert(seq![b[0]] + b.drop_first().update(j - 1, (name, v)) =~= b.update(j, (name, v)));
    } else {
        assert(seq![(name, v)] + b.drop_first() =~= b.update(0, (name, v)));
    }
}

/// When no binding matches, setting appends a new one.
pub proof fn lemma_assoc_set_missing(b: Seq<(Seq<char>, ValueV)>, name: Seq<char>, v: ValueV)
    requires
        forall|k: int| 0 <= k < b.len() ==> b[k].0 != name,
    ensures
        assoc_set(b, name, v) =~= b.push((name, v)),
    decreases b.len(),
{
    if b.len() > 0 {
        lemma_assoc_set_missing(b.drop_first(), name, v);
        assert(seq![b[0]] + b.drop_first().push((name, v)) =~= b.push((name, v)));
    }
}

/// Every scope's outer pointer leads strictly downward in the arena, so
/// chains of scopes always reach the root.
pub open spec fn env_wf(envs: Seq<ScopeV>) -> bool {
    forall|i: int|
        0 <= i < envs.len() ==> match (#[trigger] envs[i]).outer {
            Some(j) => 0 <= j < i,
            None => true,
        }
}

/// Lexical lookup: the current scope's bindings first, then outward along
/// the chain; `None` only once the whole chain is exhausted.
pub open spec fn env_lookup(envs: Seq<ScopeV>, scope: int, name: Seq<char>) -> Option<ValueV>
    decreases scope,
{
    if !(0 <= scope < envs.len()) {
        None
    } else {
        match assoc_lookup(envs[scope].bindings, name) {
            Some(v) => Some(v),
            None => match envs[scope].outer {
                Some(j) => if 0 <= j < scope {
                    env_lookup(envs, j, name)
                } else {
                    None
                },
                None => None,
            },
        }
    }
}

/// Character-by-character string equality, decided without any assumption
/// beyond the standard character accessors.
pub fn str_eq(a: &str, b: &str) -> (r: bool)
    ensures
        r == (a@ == b@),
{
    let la = a.unicode_len();
    let lb = b.unicode_len();
    if la != lb {
        proof {
            assert(a@ != b@);
        }
        return false;
    }
    let mut i: usize = 0;
    while i < la
        invariant
            i <= la,
            la == a@.len(),
            la == b@.len(),
            forall|k: int| 0 <= k < i ==> a@[k] == b@[k],
        decreases la - i,
    {
        if a.get_char(i) != b.get_char(i) {
            return false;
        }
        i = i + 1;
    }
    proof {
        assert(a@ =~= b@);
    }
    true
}

/// The arena of scopes.  Scope `0` is the root; a scope is created for each
/// function call and survives as long as a closure refers to it; `set`
/// writes only into the named scope, which is what makes inner `let`
/// bindings shadow rather than assign.
#[derive(Debug)]
pub struct Environment {
    scopes: Vec<Scope>,
}

/// The model of the arena.
spec fn scopes_view(s: Seq<Scope>) -> Seq<ScopeV>
    decreases s,
{
    if s.len() == 0 {
        Seq::empty()
    } else {
        scopes_view(s.drop_last()).push(
            ScopeV {
                bindings: bindings_view(s.last().bindings@),
                outer: match s.last().outer {
                    Some(j) => Some(j as int),
                    None => None,
                },
            },
        )
    }
}

/// `scopes_view` maps the arena scope by scope.
proof fn lemma_scopes_view(s: Seq<Scope>)
    ensures
        scopes_view(s).len() == s.len(),
        forall|i: int|
            0 <= i < s.len() ==> scopes_view(s)[i] == (ScopeV {
                bindings: bindings_view(s[i].bindings@),
                outer: match s[i].outer {
                    Some(j) => Some(j as int),
                    None => None,
                },
            }),
    decreases s.len(),
{
    if s.len() > 0 {
        lemma_scopes_view(s.drop_last());
    }
}

/// Appending one scope appends its model.
proof fn lemma_scopes_view_push(s: Seq<Scope>, x: Scope)
    ensures
        scopes_view(s.push(x)) == scopes_view(s).push(
            ScopeV {
                bindings: bindings_view(x.bindings@),
                outer: match x.outer {
                    Some(j) => Some(j as int),
                    None => None,
                },
            },
        ),
{
    assert(s.push(x).drop_last() =~= s);
    assert(s.push(x).last() == x);
}

/// Updating one scope updates its model.
proof fn lemma_scopes_view_update(s: Seq<Scope>, i: int, x: Scope)
    requires
        0 <= i < s.len(),
    ensures
        scopes_view(s.update(i, x)) =~= scopes_view(s).update(
            i,
            ScopeV {
                bindings: bindings_view(x.bindings@),
                outer: match x.outer {
                    Some(j) => Some(j as int),
                    None => None,
                },
            },
        ),
{
    lemma_scopes_view(s.update(i, x));
    lemma_scopes_view(s);
}

impl View for Environment {
    type V = Seq<ScopeV>;

    closed spec fn view(&self) -> Seq<ScopeV> {
        scopes_view(self.scopes@)
    }
}

/// The bindings every root environment starts with: the five built-in
/// functions under their names.
pub open spec fn builtin_bindings() -> Seq<(Seq<char>, ValueV)> {
    seq![
        ("len"@, ValueV::Builtin(crate::object::BuiltinKind::Len)),
        ("first"@, ValueV::Builtin(crate::object::BuiltinKind::First)),
        ("last"@, ValueV::Builtin(crate::object::BuiltinKind::Last)),
        ("rest"@, ValueV::Builtin(crate::object::BuiltinKind::Rest)),
        ("push"@, ValueV::Builtin(crate::object::BuiltinKind::Push)),
    ]
}

impl Environment {
    /// A fresh arena holding one empty root scope.
    pub fn new() -> (r: Environment)
        ensures
            r@.len() == 1,
            r@[0].bindings == Seq::<(Seq<char>, ValueV)>::empty(),
            r@[0].outer is None,
            env_wf(r@),
    {
        let mut scopes: Vec<Scope> = Vec::new();
        let sc = Scope { bindings: Vec::new(), outer: None };
        proof {
            lemma_scopes_view_push(scopes@, sc);
        }
        scopes.push(sc);
        let r = Environment { scopes };
        proof {
            lemma_scopes_view(r.scopes@);
        }
        r
    }

    /// A fresh arena whose root scope holds the built-in functions.
    pub fn new_with_builtin() -> (r: Environment)
        ensures
            r@.len() == 1,
            r@[0].bindings == builtin_bindings(),
            r@[0].outer is None,
            env_wf(r@),
    {
        let bindings = get_builtin_fns();
        let mut scopes: Vec<Scope> = Vec::new();
        let sc = Scope { bindings, outer: None };
        proof {
            lemma_scopes_view_push(scopes@, sc);
        }
        scopes.push(sc);
        let r = Environment { scopes };
        proof {
            lemma_scopes_view(r.scopes@);
        }
        r
    }

    /// The number of scopes in the arena.
    pub fn scope_count(&self) -> (n: usize)
        ensures
            n == self@.len(),
    {
        proof {
            lemma_scopes_view(self.scopes@);
        }
        self.scopes.len()
    }

    /// Creates a new empty scope whose outer scope is `outer`, and hands
    /// back its index.
    pub fn new_closed(&mut self, outer: usize) -> (idx: usize)
        requires
            outer < old(self)@.len(),
        ensures
            idx == old(self)@.len(),
            final(self)@ == old(self)@.push(
                ScopeV { bindings: Seq::empty(), outer: Some(outer as int) },
            ),
            env_wf(old(self)@) ==> env_wf(final(self)@),
    {
        proof {
            lemma_scopes_view(self.scopes@);
        }
        let idx = self.scopes.len();
        let sc = Scope { bindings: Vec::new(), outer: Some(outer) };
        proof {
            lemma_scopes_view_push(self.scopes@, sc);
        }
        self.scopes.push(sc);
        proof {
            lemma_scopes_view(self.scopes@);
            if env_wf(old(self)@) {
                assert forall|i: int| 0 <= i < self@.len() implies match (#[trigger] self@[i]).outer {
                    Some(j) => 0 <= j < i,
                    None => true,
                } by {
                    if i < old(self)@.len() {
                        assert(self@[i] == old(self)@[i]);
                        assert(match old(self)@[i].outer {
                            Some(j) => 0 <= j < i,
                            None => true,
                        });
                    }
                }
            }
        }
        idx
    }

    /// Looks `key` up in scope `scope`, then outward along the chain.
    pub fn get(&self, scope: usize, key: &str) -> (r: Option<Object>)
        requires
            env_wf(self@),
            scope < self@.len(),
        ensures
            match r {
                Some(o) => env_lookup(self@, scope as int, key@) == Some(o@),
                None => env_lookup(self@, scope as int, key@) is None,
            },
    {
        proof {
            lemma_scopes_view(self.scopes@);
        }
        let mut cur: usize = scope;
        loop
            invariant
                env_wf(self@),
                cur < self@.len(),
                self@.len() == self.scopes@.len(),
                env_lookup(self@, scope as int, key@) == env_lookup(self@, cur as int, key@),
            decreases cur,
        {
            proof {
                lemma_scopes_view(self.scopes@);
                lemma_bindings_view(self.scopes@[cur as int].bindings@);
            }
            let bindings = &self.scopes[cur].bindings;
            let n = bindings.len();
            let mut j: usize = 0;
            let mut found: bool = false;
            while j < n && !found
                invariant
                    j <= n,
                    n == bindings@.len(),
                    bindings_view(bindings@) == self@[cur as int].bindings,
                    bindings_view(bindings@).len() == n,
                    forall|k: int|
                        0 <= k < bindings@.len() ==> bindings_view(bindings@)[k] == (
                            bindings@[k].0@,
                            bindings@[k].1@,
                        ),
                    !found ==> forall|k: int| 0 <= k < j ==> bindings@[k].0@ != key@,
                    found ==> j < n && bindings@[j as int].0@ == key@ && forall|k: int|
                        0 <= k < j ==> bindings@[k].0@ != key@,
                decreases n - j, (if found { 0int } else { 1int }),
            {
                if str_eq(bindings[j].0.as_str(), key) {
                    found = true;
                } else {
                    j = j + 1;
                }
            }
            if found {
                proof {
                    lemma_assoc_lookup_found(self@[cur as int].bindings, key@, j as int);
                }
                return Some(self.scopes[cur].bindings[j].1.duplicate());
            }
            proof {
                lemma_assoc_lookup_missing(self@[cur as int].bindings, key@);
            }
            match self.scopes[cur].outer {
                Some(o) => {
                    proof {
                        lemma_scopes_view(self.scopes@);
                        assert(self@[cur as int].outer == Some(o as int));
                    }
                    cur = o;
                },
                None => {
                    proof {
                        assert(self@[cur as int].outer is None);
                    }
                    return None;
                },
            }
        }
    }

    /// Binds `key` to `value` in scope `scope` and nowhere else: an
    /// existing binding in that scope is overwritten, and outer scopes are
    /// never touched.
    pub fn set(&mut self, scope: usize, key: &str, value: Object)
        requires
            scope < old(self)@.len(),
        ensures
            final(self)@ =~= old(self)@.update(
                scope as int,
                ScopeV {
                    bindings: assoc_set(old(self)@[scope as int].bindings, key@, value@),
                    outer: old(self)@[scope as int].outer,
                },
            ),
    {
        proof {
            lemma_scopes_view(self.scopes@);
            lemma_bindings_view(self.scopes@[scope as int].bindings@);
        }
        let ghost old_scopes = self.scopes@;
        let ghost old_bindings_v = self@[scope as int].bindings;
        let n = self.scopes[scope].bindings.len();
        let mut j: usize = 0;
        let mut found: bool = false;
        while j < n && !found
            invariant
                j <= n,
                self.scopes@ == old_scopes,
                scope < self.scopes@.len(),
                n == self.scopes@[scope as int].bindings@.len(),
                bindings_view(self.scopes@[scope as int].bindings@) == old_bindings_v,
                forall|k: int|
                    0 <= k < n ==> old_bindings_v[k] == (
                        self.scopes@[scope as int].bindings@[k].0@,
                        self.scopes@[scope as int].bindings@[k].1@,
                    ),
                old_bindings_v.len() == n,
                !found ==> forall|k: int|
                    0 <= k < j ==> self.scopes@[scope as int].bindings@[k].0@ != key@,
                found ==> j < n && self.scopes@[scope as int].bindings@[j as int].0@ == key@
                    && forall|k: int|
                    0 <= k < j ==> self.scopes@[scope as int].bindings@[k].0@ != key@,
            decreases n - j, (if found { 0int } else { 1int }),
        {
            if str_eq(self.scopes[scope].bindings[j].0.as_str(), key) {
                found = true;
            } else {
                j = j + 1;
            }
        }
        let entry = (key.to_owned(), value);
        let ghost entry_v = (key@, value@);
        if found {
            let sc = &mut self.scopes[scope];
            sc.bindings.set(j, entry);
            proof {
                lemma_bindings_view_update(old_scopes[scope as int].bindings@, j as int, (
                    final(sc).bindings@[j as int].0,
                    final(sc).bindings@[j as int].1,
                ));
            }
        } else {
            let sc = &mut self.scopes[scope];
            sc.bindings.push(entry);
        }
        proof {
            let new_scope = self.scopes@[scope as int];
            if found {
                lemma_bindings_view_update(old_scopes[scope as int].bindings@, j as int, new_scope.bindings@[j as int]);
                assert(bindings_view(new_scope.bindings@) =~= assoc_set(old_bindings_v, key@, value@)) by {
                    lemma_assoc_set_found(old_bindings_v, key@, value@, j as int);
                    lemma_bindings_view(new_scope.bindings@);
                    lemma_bindings_view(old_scopes[scope as int].bindings@);
                    assert(new_scope.bindings@ =~= old_scopes[scope as int].bindings@.update(
                        j as int,
                        (entry.0, entry.1),
                    ));
                }
            } else {
                assert(new_scope.bindings@ =~= old_scopes[scope as int].bindings@.push(entry));
                lemma_bindings_view_push(old_scopes[scope as int].bindings@, entry);
                lemma_assoc_set_missing(old_bindings_v, key@, value@);
                assert(bindings_view(new_scope.bindings@) =~= assoc_set(old_bindings_v, key@, value@));
            }
            assert(self.scopes@ =~= old_scopes.update(scope as int, new_scope));
            lemma_scopes_view_update(old_scopes, scope as int, new_scope);
            lemma_scopes_view(old_scopes);
        }
    }
}

/// `set` never changes any scope but the one it names: what shadowing
/// means, stated once and for all.
pub proof fn lemma_set_preserves_other_scopes(
    envs: Seq<ScopeV>,
    scope: int,
    name: Seq<char>,
    v: ValueV,
)
    requires
        0 <= scope < envs.len(),
    ensures
        forall|i: int|
            0 <= i < envs.len() && i != scope ==> envs.update(
                scope,
                ScopeV {
                    bindings: assoc_set(envs[scope].bindings, name, v),
                    outer: envs[scope].outer,
                },
            )[i] == envs[i],
{
}

/// The arena after `name` is bound to `v` in scope `scope` (and nothing
/// else changes); out-of-range scopes leave the arena as it is.
pub open spec fn env_set(envs: Seq<ScopeV>, scope: int, name: Seq<char>, v: ValueV) -> Seq<
    ScopeV,
> {
    if 0 <= scope < envs.len() {
        envs.update(
            scope,
            ScopeV { bindings: assoc_set(envs[scope].bindings, name, v), outer: envs[scope].outer },
        )
    } else {
        envs
    }
}

/// Binding a name never breaks the arena's downward-pointing shape.
pub proof fn lemma_env_set_wf(envs: Seq<ScopeV>, scope: int, name: Seq<char>, v: ValueV)
    requires
        env_wf(envs),
    ensures
        env_wf(env_set(envs, scope, name, v)),
{
    let envs2 = env_set(envs, scope, name, v);
    assert forall|i: int| 0 <= i < envs2.len() implies match (#[trigger] envs2[i]).outer {
        Some(j) => 0 <= j < i,
        None => true,
    } by {
        assert(envs2[i].outer == envs[i].outer);
    }
}

/// Growing the arena by one scope whose outer pointer stays below it keeps
/// the arena well-formed.
pub proof fn lemma_env_push_wf(envs: Seq<ScopeV>, sc: ScopeV)
    requires
        env_wf(envs),
        match sc.outer {
            Some(j) => 0 <= j < envs.len(),
            None => true,
        },
    ensures
        env_wf(envs.push(sc)),
{
    let envs2 = envs.push(sc);
    assert forall|i: int| 0 <= i < envs2.len() implies match (#[trigger] envs2[i]).outer {
        Some(j) => 0 <= j < i,
        None => true,
    } by {
        if i < envs.len() {
            assert(envs2[i] == envs[i]);
        } else {
            assert(envs2[i] == sc);
        }
    }
}

} // verus!
