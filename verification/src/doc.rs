//! The canonical document: every watched resource is normalized into
//! this tree of maps, sequences and scalars at cache-ingestion time,
//! and the evaluator only ever touches this form.

use vstd::prelude::*;

verus! {

/// One node of a canonical document.
#[derive(Debug)]
pub enum Doc {
    Null,
    Bool(bool),
    Int(i64),
    Str(Vec<u8>),
    Arr(Vec<Doc>),
    Obj(Vec<(Vec<u8>, Doc)>),
}

/// One step of a compiled field path. `Wild` is the wildcard array
/// step of the surface syntax; the compiler splits paths at it, so a
/// stored comparison path never contains it (and resolution treats a
/// leftover `Wild` as unresolvable).
#[derive(Debug)]
pub enum PathStep {
    Key(Vec<u8>),
    Index(usize),
    Wild,
}

/// Mathematical form of a path step.
pub enum StepS {
    Key(Seq<u8>),
    Index(int),
    Wild,
}

impl View for PathStep {
    type V = StepS;

    open spec fn view(&self) -> StepS {
        match self {
            PathStep::Key(k) => StepS::Key(k@),
            PathStep::Index(n) => StepS::Index(*n as int),
            PathStep::Wild => StepS::Wild,
        }
    }
}

/// The view of a whole path.
pub open spec fn path_view(steps: Seq<PathStep>) -> Seq<StepS> {
    steps.map_values(|p: PathStep| p@)
}

/// First value bound to `key` in a map's entry list, scanning from
/// position `i`.
pub open spec fn map_get_from(es: Seq<(Vec<u8>, Doc)>, key: Seq<u8>, i: int) -> Option<Doc>
    decreases es.len() - i,
{
    if !(0 <= i < es.len()) {
        None
    } else if es[i].0@ == key {
        Some(es[i].1)
    } else {
        map_get_from(es, key, i + 1)
    }
}

/// First value bound to `key` in a map's entry list.
pub open spec fn map_get(es: Seq<(Vec<u8>, Doc)>, key: Seq<u8>) -> Option<Doc> {
    map_get_from(es, key, 0)
}

/// One navigation step into a document.
pub open spec fn step_get(d: Doc, st: StepS) -> Option<Doc> {
    match st {
        StepS::Key(k) => match d {
            Doc::Obj(es) => map_get(es@, k),
            _ => None,
        },
        StepS::Index(n) => match d {
            Doc::Arr(v) => if 0 <= n < v@.len() {
                Some(v@[n])
            } else {
                None
            },
            _ => None,
        },
        StepS::Wild => None,
    }
}

/// Resolution of the path suffix starting at step `i` against `d`.
/// A missing intermediate field resolves to `None`.
pub open spec fn resolve_from(d: Doc, steps: Seq<StepS>, i: int) -> Option<Doc>
    decreases steps.len() - i,
{
    if !(0 <= i < steps.len()) {
        Some(d)
    } else {
        match step_get(d, steps[i]) {
            Some(c) => resolve_from(c, steps, i + 1),
            None => None,
        }
    }
}

/// Full path resolution against `d`.
pub open spec fn resolve(d: Doc, steps: Seq<StepS>) -> Option<Doc> {
    resolve_from(d, steps, 0)
}

/// Byte-string equality.
pub fn bytes_eq(a: &Vec<u8>, b: &Vec<u8>) -> (r: bool)
    ensures
        r == (a@ == b@),
{
    if a.len() != b.len() {
        assert(a@.len() != b@.len());
        return false;
    }
    let mut i: usize = 0;
    while i < a.len()
        invariant
            a@.len() == b@.len(),
            i <= a@.len(),
            forall|j: int| 0 <= j < i ==> a@[j] == b@[j],
        decreases a@.len() - i,
    {
        if a[i] != b[i] {
            assert(a@[i as int] != b@[i as int]);
            return false;
        }
        i += 1;
    }
    proof {
        assert(a@ =~= b@);
    }
    true
}

/// A fresh copy of a byte string.
pub fn copy_bytes(a: &Vec<u8>) -> (r: Vec<u8>)
    ensures
        r@ == a@,
{
    let mut out: Vec<u8> = Vec::new();
    let mut i: usize = 0;
    while i < a.len()
        invariant
            i <= a@.len(),
            out@ == a@.take(i as int),
        decreases a@.len() - i,
    {
        out.push(a[i]);
        i += 1;
        proof {
            assert(out@ =~= a@.take(i as int));
        }
    }
    proof {
        assert(a@.take(a@.len() as int) =~= a@);
    }
    out
}

/// Looks a key up in a map's entry list.
pub fn map_lookup<'a>(es: &'a Vec<(Vec<u8>, Doc)>, key: &Vec<u8>) -> (r: Option<&'a Doc>)
    ensures
        match r {
            Some(c) => map_get(es@, key@) == Some(*c),
            None => map_get(es@, key@) is None,
        },
{
    let mut i: usize = 0;
    while i < es.len()
        invariant
            i <= es@.len(),
            map_get(es@, key@) == map_get_from(es@, key@, i as int),
        decreases es@.len() - i,
    {
        if bytes_eq(&es[i].0, key) {
            return Some(&es[i].1);
        }
        i += 1;
    }
    None
}

/// Performs one navigation step.
pub fn step_lookup<'a>(d: &'a Doc, st: &PathStep) -> (r: Option<&'a Doc>)
    ensures
        match r {
            Some(c) => step_get(*d, st@) == Some(*c),
            None => step_get(*d, st@) is None,
        },
{
    match st {
        PathStep::Key(k) => match d {
            Doc::Obj(es) => map_lookup(es, k),
            _ => None,
        },
        PathStep::Index(n) => match d {
            Doc::Arr(v) => if *n < v.len() {
                Some(&v[*n])
            } else {
                None
            },
            _ => None,
        },
        PathStep::Wild => None,
    }
}

/// Resolves the first `end` steps of a path against a document.
pub fn resolve_prefix<'a>(d: &'a Doc, steps: &Vec<PathStep>, end: usize) -> (r: Option<&'a Doc>)
    requires
        end <= steps@.len(),
    ensures
        match r {
            Some(c) => resolve(*d, path_view(steps@).take(end as int)) == Some(*c),
            None => resolve(*d, path_view(steps@).take(end as int)) is None,
        },
{
    let ghost pv = path_view(steps@).take(end as int);
    let mut cur: &Doc = d;
    let mut i: usize = 0;
    while i < end
        invariant
            pv == path_view(steps@).take(end as int),
            end <= steps@.len(),
            i <= end,
            resolve(*d, pv) == resolve_from(*cur, pv, i as int),
        decreases end - i,
    {
        assert(pv[i as int] == steps@[i as int]@);
        match step_lookup(cur, &steps[i]) {
            Some(c) => {
                cur = c;
            },
            None => {
                return None;
            },
        }
        i += 1;
    }
    Some(cur)
}

/// Resolves a whole path against a document.
pub fn resolve_path<'a>(d: &'a Doc, steps: &Vec<PathStep>) -> (r: Option<&'a Doc>)
    ensures
        match r {
            Some(c) => resolve(*d, path_view(steps@)) == Some(*c),
            None => resolve(*d, path_view(steps@)) is None,
        },
{
    proof {
        assert(path_view(steps@).take(steps@.len() as int) =~= path_view(steps@));
    }
    resolve_prefix(d, steps, steps.len())
}

} // verus!
