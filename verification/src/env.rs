//! The environment: a store of frames, each a mutable mapping from
//! names to values plus a link to its parent frame.
//!
//! Frames are held in one growing store and referred to by index, so
//! a closure can share its captured frame with every later activation:
//! a child frame links to its parent rather than copying it, `define`
//! writes only into the frame it is given, and lookup walks the parent
//! chain outward. A parent always has a smaller index than its
//! children, so chains are acyclic by construction.

use crate::value::{BuiltinFunc, BuiltinOp, SpecVal, Value};
use vstd::prelude::*;

verus! {

/// The mathematical shape of one frame: its local bindings and the
/// index of its parent, if any.
#[verifier::ext_equal]
pub struct SpecFrame {
    pub vars: Map<Seq<char>, SpecVal>,
    pub parent: Option<int>,
}

/// One level of the lexical-scope chain. Bindings are appended; the
/// latest binding for a name wins, which makes `define` an overwrite.
#[derive(Debug)]
pub struct Frame {
    pub vars: Vec<(String, Value)>,
    pub parent: Option<usize>,
}

/// The binding list read as a map: later entries overwrite earlier
/// ones.
pub open spec fn assoc_map(s: Seq<(String, Value)>) -> Map<Seq<char>, SpecVal>
    decreases s.len(),
{
    if s.len() == 0 {
        Map::empty()
    } else {
        assoc_map(s.drop_last()).insert(s.last().0@, s.last().1.deep())
    }
}

impl Frame {
    /// The mathematical shape of this frame.
    pub open spec fn deep(&self) -> SpecFrame {
        SpecFrame {
            vars: assoc_map(self.vars@),
            parent: match self.parent {
                Some(p) => Some(p as int),
                None => None,
            },
        }
    }
}

/// The store of every frame created so far. Frame 0 is the root
/// environment holding the builtin library.
#[derive(Debug)]
pub struct Env {
    pub frames: Vec<Frame>,
}

/// Well-formedness of a frame store: every parent link points to an
/// earlier frame, and every stored value is well-formed against the
/// store (numbers are 64-bit rationals, captured frames exist).
pub open spec fn env_wf(frames: Seq<SpecFrame>) -> bool {
    &&& (forall|i: int|
        0 <= i < frames.len() ==> match #[trigger] frames[i].parent {
            Some(p) => 0 <= p < i,
            None => true,
        })
    &&& (forall|i: int, k: Seq<char>|
        0 <= i < frames.len() && #[trigger] frames[i].vars.dom().contains(k)
            ==> frames[i].vars[k].wf(frames.len() as int))
}

/// Look a name up from the given frame outward along the parent
/// chain; the first match wins.
pub open spec fn spec_lookup(frames: Seq<SpecFrame>, cur: int, name: Seq<char>) -> Option<SpecVal>
    decreases cur,
{
    if 0 <= cur < frames.len() {
        if frames[cur].vars.dom().contains(name) {
            Some(frames[cur].vars[name])
        } else {
            match frames[cur].parent {
                Some(p) => if 0 <= p < cur {
                    spec_lookup(frames, p, name)
                } else {
                    None
                },
                None => None,
            }
        }
    } else {
        None
    }
}

/// The bindings pre-installed in the root frame: the builtin
/// procedures, and the two boolean constants.
pub open spec fn initial_bindings() -> Map<Seq<char>, SpecVal> {
    Map::empty().insert("+"@, SpecVal::Builtin { name: "+"@, op: BuiltinOp::Add }).insert(
        "-"@,
        SpecVal::Builtin { name: "-"@, op: BuiltinOp::Sub },
    ).insert("*"@, SpecVal::Builtin { name: "*"@, op: BuiltinOp::Mul }).insert(
        "/"@,
        SpecVal::Builtin { name: "/"@, op: BuiltinOp::Div },
    ).insert("<"@, SpecVal::Builtin { name: "<"@, op: BuiltinOp::Lt }).insert(
        "<="@,
        SpecVal::Builtin { name: "<="@, op: BuiltinOp::Le },
    ).insert(">"@, SpecVal::Builtin { name: ">"@, op: BuiltinOp::Gt }).insert(
        ">="@,
        SpecVal::Builtin { name: ">="@, op: BuiltinOp::Ge },
    ).insert("="@, SpecVal::Builtin { name: "="@, op: BuiltinOp::NumEq }).insert(
        "!="@,
        SpecVal::Builtin { name: "!="@, op: BuiltinOp::NumNe },
    ).insert("true"@, SpecVal::Bool(true)).insert("false"@, SpecVal::Bool(false))
}

/// The store a fresh environment starts from: one root frame holding
/// the builtin library.
pub open spec fn initial_env() -> Seq<SpecFrame> {
    seq![SpecFrame { vars: initial_bindings(), parent: None }]
}

impl Env {
    /// The mathematical shape of the whole store.
    pub open spec fn deep(&self) -> Seq<SpecFrame> {
        Seq::new(self.frames@.len(), |i: int| self.frames@[i].deep())
    }

    /// A fresh environment: one root frame pre-populated with the
    /// builtin library.
    pub fn new() -> (e: Env)
        ensures
            e.deep() =~~= initial_env(),
            env_wf(e.deep()),
    {
        let root = Frame { vars: Vec::new(), parent: None };
        let mut frames = Vec::new();
        frames.push(root);
        let mut e = Env { frames };
        e.define_builtin();
        proof {
            lemma_initial_env_wf();
        }
        e
    }

    /// Install the builtin library into the root frame: the
    /// arithmetic and comparison procedures, and the boolean
    /// constants.
    fn define_builtin(&mut self)
        requires
            old(self).frames@.len() == 1,
            old(self).frames@[0].vars@.len() == 0,
            old(self).frames@[0].parent is None,
        ensures
            final(self).deep() =~~= initial_env(),
    {
        self.define(
            0,
            "+",
            Value::BuiltinFunction(BuiltinFunc { name: "+".to_owned(), op: BuiltinOp::Add }),
        );
        self.define(
            0,
            "-",
            Value::BuiltinFunction(BuiltinFunc { name: "-".to_owned(), op: BuiltinOp::Sub }),
        );
        self.define(
            0,
            "*",
            Value::BuiltinFunction(BuiltinFunc { name: "*".to_owned(), op: BuiltinOp::Mul }),
        );
        self.define(
            0,
            "/",
            Value::BuiltinFunction(BuiltinFunc { name: "/".to_owned(), op: BuiltinOp::Div }),
        );
        self.define(
            0,
            "<",
            Value::BuiltinFunction(BuiltinFunc { name: "<".to_owned(), op: BuiltinOp::Lt }),
        );
        self.define(
            0,
            "<=",
            Value::BuiltinFunction(BuiltinFunc { name: "<=".to_owned(), op: BuiltinOp::Le }),
        );
        self.define(
            0,
            ">",
            Value::BuiltinFunction(BuiltinFunc { name: ">".to_owned(), op: BuiltinOp::Gt }),
        );
        self.define(
            0,
            ">=",
            Value::BuiltinFunction(BuiltinFunc { name: ">=".to_owned(), op: BuiltinOp::Ge }),
        );
        self.define(
            0,
            "=",
            Value::BuiltinFunction(BuiltinFunc { name: "=".to_owned(), op: BuiltinOp::NumEq }),
        );
        self.define(
            0,
            "!=",
            Value::BuiltinFunction(BuiltinFunc { name: "!=".to_owned(), op: BuiltinOp::NumNe }),
        );
        self.define(0, "true", Value::Bool(true));
        self.define(0, "false", Value::Bool(false));
    }

    /// Create a new frame whose parent is the given frame: the child
    /// starts with no local bindings and shares (never copies) its
    /// parent, so outer bindings stay visible through lookup while
    /// writes stay local to the child.
    pub fn new_child(&mut self, parent: usize) -> (child: usize)
        requires
            parent < old(self).deep().len(),
        ensures
            child == old(self).deep().len(),
            final(self).deep() =~~= old(self).deep().push(
                SpecFrame { vars: Map::empty(), parent: Some(parent as int) },
            ),
    {
        let child = self.frames.len();
        self.frames.push(Frame { vars: Vec::new(), parent: Some(parent) });
        child
    }

    /// Insert or overwrite a binding in the given frame only; no
    /// other frame changes.
    pub fn define(&mut self, frame: usize, name: &str, value: Value)
        requires
            frame < old(self).deep().len(),
        ensures
            final(self).deep() =~~= old(self).deep().update(
                frame as int,
                SpecFrame {
                    vars: old(self).deep()[frame as int].vars.insert(name@, value.deep()),
                    parent: old(self).deep()[frame as int].parent,
                },
            ),
    {
        let owned: String = name.to_owned();
        let ghost old_vars = self.frames@[frame as int].vars@;
        self.frames[frame].vars.push((owned, value));
        proof {
            assert(self.frames@[frame as int].vars@.drop_last() =~= old_vars);
        }
    }

    /// Look a name up from the given frame outward along the parent
    /// chain; the first binding found wins, and an exhausted chain
    /// reports no value at all.
    #[verifier::loop_isolation(false)]
    pub fn get(&self, frame: usize, name: &str) -> (r: Option<Value>)
        requires
            env_wf(self.deep()),
            frame < self.deep().len(),
        ensures
            match r {
                Some(v) => spec_lookup(self.deep(), frame as int, name@) == Some(v.deep()),
                None => spec_lookup(self.deep(), frame as int, name@) is None,
            },
    {
        let owned: String = name.to_owned();
        let mut cur = frame;
        loop
            invariant
                env_wf(self.deep()),
                cur < self.deep().len(),
                spec_lookup(self.deep(), frame as int, name@) == spec_lookup(
                    self.deep(),
                    cur as int,
                    name@,
                ),
            decreases cur,
        {
            let vars = &self.frames[cur].vars;
            let ghost vs = vars@;
            let mut i = vars.len();
            proof {
                assert(vs.take(i as int) =~= vs);
            }
            while i > 0
                invariant
                    i <= vs.len(),
                    vs == vars@,
                    assoc_get(vs, name@) == assoc_get(vs.take(i as int), name@),
                decreases i,
            {
                let entry = &vars[i - 1];
                proof {
                    assert(vs.take(i as int).drop_last() =~= vs.take(i as int - 1));
                    assert(vs.take(i as int).last() == vs[i as int - 1]);
                }
                if entry.0 == owned {
                    proof {
                        lemma_assoc_get_is_map_get(vs, name@);
                    }
                    return Some(entry.1.clone());
                }
                i = i - 1;
            }
            proof {
                assert(vs.take(0) =~= Seq::<(String, Value)>::empty());
                lemma_assoc_get_is_map_get(vs, name@);
            }
            match self.frames[cur].parent {
                Some(p) => {
                    cur = p;
                },
                None => {
                    return None;
                },
            }
        }
    }
}

/// The binding list scanned backward: the latest binding for a name.
pub open spec fn assoc_get(s: Seq<(String, Value)>, name: Seq<char>) -> Option<SpecVal>
    decreases s.len(),
{
    if s.len() == 0 {
        None
    } else if s.last().0@ == name {
        Some(s.last().1.deep())
    } else {
        assoc_get(s.drop_last(), name)
    }
}

/// Scanning the binding list backward reads exactly the map the list
/// denotes.
pub proof fn lemma_assoc_get_is_map_get(s: Seq<(String, Value)>, name: Seq<char>)
    ensures
        assoc_get(s, name) == (if assoc_map(s).dom().contains(name) {
            Some(assoc_map(s)[name])
        } else {
            None::<SpecVal>
        }),
    decreases s.len(),
{
    if s.len() == 0 {
        assert(!assoc_map(s).dom().contains(name));
    } else {
        lemma_assoc_get_is_map_get(s.drop_last(), name);
    }
}

/// Insert or overwrite one binding in the given frame, leaving every
/// other frame as it was.
pub open spec fn def_frame(frames: Seq<SpecFrame>, cur: int, name: Seq<char>, v: SpecVal) -> Seq<
    SpecFrame,
> {
    if 0 <= cur < frames.len() {
        frames.update(
            cur,
            SpecFrame { vars: frames[cur].vars.insert(name, v), parent: frames[cur].parent },
        )
    } else {
        frames
    }
}

/// Whatever lookup finds in a well-formed store is itself
/// well-formed.
pub proof fn lemma_lookup_wf(frames: Seq<SpecFrame>, cur: int, name: Seq<char>)
    requires
        env_wf(frames),
        spec_lookup(frames, cur, name) is Some,
    ensures
        spec_lookup(frames, cur, name).unwrap().wf(frames.len() as int),
    decreases cur,
{
    if 0 <= cur < frames.len() {
        if frames[cur].vars.dom().contains(name) {
        } else {
            match frames[cur].parent {
                Some(p) => {
                    if 0 <= p < cur {
                        lemma_lookup_wf(frames, p, name);
                    }
                },
                None => {},
            }
        }
    }
}

/// Defining a well-formed value keeps the store well-formed.
pub proof fn lemma_def_frame_wf(frames: Seq<SpecFrame>, cur: int, name: Seq<char>, v: SpecVal)
    requires
        env_wf(frames),
        v.wf(frames.len() as int),
    ensures
        env_wf(def_frame(frames, cur, name, v)),
{
    let out = def_frame(frames, cur, name, v);
    assert forall|i: int, k: Seq<char>|
        0 <= i < out.len() && #[trigger] out[i].vars.dom().contains(k) implies out[i].vars[k].wf(
        out.len() as int,
    ) by {
        if 0 <= cur < frames.len() && i == cur {
            if k != name {
                assert(frames[i].vars.dom().contains(k));
            }
        } else {
            assert(out[i] == frames[i]);
        }
    }
}

/// Pushing a frame whose parent exists and whose bindings are
/// well-formed keeps the store well-formed.
pub proof fn lemma_push_frame_wf(frames: Seq<SpecFrame>, vars: Map<Seq<char>, SpecVal>, parent: int)
    requires
        env_wf(frames),
        0 <= parent < frames.len(),
        forall|k: Seq<char>|
            #[trigger] vars.dom().contains(k) ==> vars[k].wf(frames.len() as int + 1),
    ensures
        env_wf(frames.push(SpecFrame { vars, parent: Some(parent) })),
{
    let out = frames.push(SpecFrame { vars, parent: Some(parent) });
    assert forall|i: int, k: Seq<char>|
        0 <= i < out.len() && #[trigger] out[i].vars.dom().contains(k) implies out[i].vars[k].wf(
        out.len() as int,
    ) by {
        if i < frames.len() {
            assert(out[i] == frames[i]);
            assert(frames[i].vars[k].wf(frames.len() as int));
            crate::value::lemma_val_wf_monotone(
                frames[i].vars[k],
                frames.len() as int,
                out.len() as int,
            );
        }
    }
}

/// The initial environment is well-formed: it has one frame, no
/// parent links, and only builtin procedures and booleans in it.
pub proof fn lemma_initial_env_wf()
    ensures
        env_wf(initial_env()),
{
    assert forall|i: int, k: Seq<char>|
        0 <= i < initial_env().len() && #[trigger] initial_env()[i].vars.dom().contains(
            k,
        ) implies initial_env()[i].vars[k].wf(initial_env().len() as int) by {
        assert(initial_env()[i].vars == initial_bindings());
    }
}

} // verus!
