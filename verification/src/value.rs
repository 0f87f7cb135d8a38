use vstd::prelude::*;

verus! {

/// A dynamically-typed value: the type of bind parameters and of
/// INSERT/UPDATE payloads.
///
/// A floating-point number is carried as its IEEE-754 bit pattern, so the
/// compiler itself never computes on floats; an object is an ordered list of
/// key/value pairs.
#[derive(Debug, PartialEq, Eq)]
pub enum Value {
    Null,
    Bool(bool),
    Int(i64),
    UInt(u64),
    /// An `f64`, as its bit pattern (`f64::to_bits`).
    Float(u64),
    Str(String),
    Array(Vec<Value>),
    Object(Vec<(String, Value)>),
}

/// The mathematical shape of a [`Value`]: strings as character sequences and
/// collections as sequences.  Contracts compare values through this view, so
/// that two values built independently from the same text are equal.
pub enum DVal {
    Null,
    Bool(bool),
    Int(i64),
    UInt(u64),
    Float(u64),
    Str(Seq<char>),
    Array(Seq<DVal>),
    Object(Seq<(Seq<char>, DVal)>),
}

/// The mathematical view of a value.
pub open spec fn val_deep(v: Value) -> DVal
    decreases v,
{
    match v {
        Value::Null => DVal::Null,
        Value::Bool(b) => DVal::Bool(b),
        Value::Int(i) => DVal::Int(i),
        Value::UInt(u) => DVal::UInt(u),
        Value::Float(bits) => DVal::Float(bits),
        Value::Str(s) => DVal::Str(s@),
        Value::Array(items) => DVal::Array(vals_deep(items@)),
        Value::Object(fields) => DVal::Object(obj_deep(fields@)),
    }
}

/// The mathematical view of a sequence of values.
pub open spec fn vals_deep(s: Seq<Value>) -> Seq<DVal>
    decreases s,
{
    if s.len() == 0 {
        Seq::empty()
    } else {
        vals_deep(s.drop_last()).push(val_deep(s.last()))
    }
}

/// The mathematical view of an object's field list.
pub open spec fn obj_deep(s: Seq<(String, Value)>) -> Seq<(Seq<char>, DVal)>
    decreases s,
{
    if s.len() == 0 {
        Seq::empty()
    } else {
        obj_deep(s.drop_last()).push((s.last().0@, val_deep(s.last().1)))
    }
}

/// The view of a sequence of values is its pointwise view.
pub broadcast proof fn lemma_vals_deep(s: Seq<Value>)
    ensures
        (#[trigger] vals_deep(s)).len() == s.len(),
        forall|i: int| 0 <= i < s.len() ==> vals_deep(s)[i] == val_deep(s[i]),
    decreases s.len(),
{
    if s.len() > 0 {
        lemma_vals_deep(s.drop_last());
    }
}

/// The view of an object's field list is its pointwise view.
pub broadcast proof fn lemma_obj_deep(s: Seq<(String, Value)>)
    ensures
        (#[trigger] obj_deep(s)).len() == s.len(),
        forall|i: int| 0 <= i < s.len() ==> obj_deep(s)[i] == (s[i].0@, val_deep(s[i].1)),
    decreases s.len(),
{
    if s.len() > 0 {
        lemma_obj_deep(s.drop_last());
    }
}

/// Views distribute over concatenation of value sequences.
pub broadcast proof fn lemma_vals_deep_concat(a: Seq<Value>, b: Seq<Value>)
    ensures
        #[trigger] vals_deep(a + b) == vals_deep(a) + vals_deep(b),
    decreases b.len(),
{
    lemma_vals_deep(a);
    lemma_vals_deep(b);
    lemma_vals_deep(a + b);
    assert(vals_deep(a + b) =~= vals_deep(a) + vals_deep(b));
}

/// The views of optional bind lists, the empty sequence when absent.
pub open spec fn opt_vals_deep(o: Option<Vec<Value>>) -> Seq<DVal> {
    match o {
        Option::None => Seq::empty(),
        Option::Some(v) => vals_deep(v@),
    }
}

impl Value {
    /// A structural copy with the same mathematical value.
    #[verifier::loop_isolation(false)]
    pub fn duplicate(&self) -> (r: Value)
        ensures
            val_deep(r) == val_deep(*self),
        decreases self,
    {
        broadcast use lemma_vals_deep, lemma_obj_deep, vstd::std_specs::vec::axiom_vec_index_decreases;

        match self {
            Value::Null => Value::Null,
            Value::Bool(b) => Value::Bool(*b),
            Value::Int(i) => Value::Int(*i),
            Value::UInt(u) => Value::UInt(*u),
            Value::Float(bits) => Value::Float(*bits),
            Value::Str(s) => Value::Str(s.clone()),
            Value::Array(items) => {
                let mut out: Vec<Value> = Vec::new();
                let mut i: usize = 0;
                while i < items.len()
                    invariant
                        i <= items@.len(),
                        out@.len() == i,
                        forall|j: int| 0 <= j < i ==> val_deep(out@[j]) == val_deep(items@[j]),
                    decreases items@.len() - i,
                {
                    out.push(items[i].duplicate());
                    i += 1;
                }
                proof {
                    assert(vals_deep(out@) =~= vals_deep(items@));
                }
                Value::Array(out)
            },
            Value::Object(fields) => {
                let mut out: Vec<(String, Value)> = Vec::new();
                let mut i: usize = 0;
                while i < fields.len()
                    invariant
                        i <= fields@.len(),
                        out@.len() == i,
                        forall|j: int|
                            0 <= j < i ==> out@[j].0@ == fields@[j].0@ && val_deep(out@[j].1)
                                == val_deep(fields@[j].1),
                    decreases fields@.len() - i,
                {
                    let pair = &fields[i];
                    out.push((pair.0.clone(), pair.1.duplicate()));
                    i += 1;
                }
                proof {
                    assert(obj_deep(out@) =~= obj_deep(fields@));
                }
                Value::Object(out)
            },
        }
    }
}

impl Clone for Value {
    /// A clone is a structural copy: it has the same mathematical value.
    fn clone(&self) -> (r: Value)
        ensures
            val_deep(r) == val_deep(*self),
    {
        self.duplicate()
    }
}

/// Appends a copy of every value of `src` to `dst`.
pub fn push_dup_values(dst: &mut Vec<Value>, src: &Vec<Value>)
    ensures
        vals_deep(final(dst)@) == vals_deep(old(dst)@) + vals_deep(src@),
{
    broadcast use lemma_vals_deep;

    let mut i: usize = 0;
    while i < src.len()
        invariant
            i <= src@.len(),
            dst@.len() == old(dst)@.len() + i,
            forall|j: int| 0 <= j < old(dst)@.len() ==> val_deep(dst@[j]) == val_deep(old(dst)@[j]),
            forall|j: int| 0 <= j < i ==> val_deep(dst@[old(dst)@.len() + j]) == val_deep(src@[j]),
        decreases src@.len() - i,
    {
        dst.push(src[i].duplicate());
        i += 1;
    }
    proof {
        assert(vals_deep(dst@) =~= vals_deep(old(dst)@) + vals_deep(src@));
    }
}

/// A copy of a value list with the same mathematical values.
pub fn dup_values(src: &Vec<Value>) -> (r: Vec<Value>)
    ensures
        vals_deep(r@) == vals_deep(src@),
{
    let mut v: Vec<Value> = Vec::new();
    proof {
        assert(vals_deep(v@) =~= Seq::<DVal>::empty());
    }
    push_dup_values(&mut v, src);
    proof {
        assert(Seq::<DVal>::empty() + vals_deep(src@) =~= vals_deep(src@));
    }
    v
}

/// A copy of an optional value list with the same mathematical values.
pub fn dup_opt_values(src: &Option<Vec<Value>>) -> (r: Option<Vec<Value>>)
    ensures
        r is Some <==> *src is Some,
        opt_vals_deep(r) == opt_vals_deep(*src),
{
    match src {
        Option::None => Option::None,
        Option::Some(v) => Option::Some(dup_values(v)),
    }
}

/// Appends a copy of every value of `src` to `dst` when present.
pub fn push_dup_opt_values(dst: &mut Vec<Value>, src: &Option<Vec<Value>>)
    ensures
        vals_deep(final(dst)@) == vals_deep(old(dst)@) + opt_vals_deep(*src),
{
    match src {
        Option::Some(v) => push_dup_values(dst, v),
        Option::None => {
            proof {
                assert(vals_deep(dst@) =~= vals_deep(dst@) + Seq::<DVal>::empty());
            }
        },
    }
}

} // verus!
