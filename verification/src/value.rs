use vstd::prelude::*;

verus! {

/// Mathematical model of a JSON-like tag value. Mappings are ordered
/// sequences of key/value pairs, so that insertion order is part of the
/// model and structural equality is plain equality on `Tv`.
pub enum Tv {
    Null,
    Bool(bool),
    Num(int),
    Str(Seq<char>),
    Arr(Seq<Tv>),
    Obj(Seq<(Seq<char>, Tv)>),
}

/// A JSON-like value for one tag of one file: null, boolean, integer,
/// string, array, or mapping. Mappings keep their insertion order.
#[derive(Debug)]
pub enum TagValue {
    Null,
    Bool(bool),
    Num(i64),
    Str(String),
    Arr(Vec<TagValue>),
    Obj(Vec<(String, TagValue)>),
}

impl TagValue {
    /// The mathematical value that this tag value stands for.
    pub open spec fn tv(self) -> Tv
        decreases self,
    {
        match self {
            TagValue::Null => Tv::Null,
            TagValue::Bool(b) => Tv::Bool(b),
            TagValue::Num(n) => Tv::Num(n as int),
            TagValue::Str(s) => Tv::Str(s@),
            TagValue::Arr(items) => Tv::Arr(tvs(items@)),
            TagValue::Obj(entries) => Tv::Obj(pairs_v(entries@)),
        }
    }
}

/// Pointwise model of a sequence of tag values.
pub open spec fn tvs(s: Seq<TagValue>) -> Seq<Tv>
    decreases s,
{
    Seq::new(
        s.len(),
        |i: int|
            if 0 <= i < s.len() {
                s[i].tv()
            } else {
                Tv::Null
            },
    )
}

/// Pointwise model of a sequence of named tag values.
pub open spec fn pairs_v(s: Seq<(String, TagValue)>) -> Seq<(Seq<char>, Tv)>
    decreases s,
{
    Seq::new(
        s.len(),
        |i: int|
            if 0 <= i < s.len() {
                (s[i].0@, s[i].1.tv())
            } else {
                (Seq::<char>::empty(), Tv::Null)
            },
    )
}

impl View for TagValue {
    type V = Tv;

    open spec fn view(&self) -> Tv {
        self.tv()
    }
}

/// Two `Tv::Str` values are equal exactly when their character sequences are.
pub proof fn lemma_str_inj(s1: Seq<char>, s2: Seq<char>)
    ensures
        (Tv::Str(s1) == Tv::Str(s2)) <==> (s1 == s2),
{
    if Tv::Str(s1) == Tv::Str(s2) {
        assert(Tv::Str(s1)->Str_0 == Tv::Str(s2)->Str_0);
    }
}

/// Two `Tv::Arr` values are equal exactly when their element sequences are.
pub proof fn lemma_arr_inj(s1: Seq<Tv>, s2: Seq<Tv>)
    ensures
        (Tv::Arr(s1) == Tv::Arr(s2)) <==> (s1 == s2),
{
    if Tv::Arr(s1) == Tv::Arr(s2) {
        assert(Tv::Arr(s1)->Arr_0 == Tv::Arr(s2)->Arr_0);
    }
}

/// Two `Tv::Obj` values are equal exactly when their entry sequences are.
pub proof fn lemma_obj_inj(s1: Seq<(Seq<char>, Tv)>, s2: Seq<(Seq<char>, Tv)>)
    ensures
        (Tv::Obj(s1) == Tv::Obj(s2)) <==> (s1 == s2),
{
    if Tv::Obj(s1) == Tv::Obj(s2) {
        assert(Tv::Obj(s1)->Obj_0 == Tv::Obj(s2)->Obj_0);
    }
}

/// Structural equality of two tag values, decided on the models.
#[verifier::loop_isolation(false)]
pub fn tv_eq(a: &TagValue, b: &TagValue) -> (r: bool)
    ensures
        r == (a.tv() == b.tv()),
    decreases *a,
{
    match a {
        TagValue::Null => match b {
            TagValue::Null => true,
            _ => false,
        },
        TagValue::Bool(x) => match b {
            TagValue::Bool(y) => *x == *y,
            _ => false,
        },
        TagValue::Num(x) => match b {
            TagValue::Num(y) => *x == *y,
            _ => false,
        },
        TagValue::Str(x) => match b {
            TagValue::Str(y) => {
                proof {
                    lemma_str_inj(x@, y@);
                }
                *x == *y
            },
            _ => false,
        },
        TagValue::Arr(x) => match b {
            TagValue::Arr(y) => {
                proof {
                    lemma_arr_inj(tvs(x@), tvs(y@));
                }
                arr_eq(x, y)
            },
            _ => false,
        },
        TagValue::Obj(x) => match b {
            TagValue::Obj(y) => {
                proof {
                    lemma_obj_inj(pairs_v(x@), pairs_v(y@));
                }
                obj_eq(x, y)
            },
            _ => false,
        },
    }
}

/// Structural equality of two value sequences, element by element.
#[verifier::loop_isolation(false)]
fn arr_eq(x: &Vec<TagValue>, y: &Vec<TagValue>) -> (r: bool)
    ensures
        r == (tvs(x@) == tvs(y@)),
    decreases *x,
{
    if x.len() != y.len() {
        proof {
            assert(tvs(x@).len() != tvs(y@).len());
        }
        return false;
    }
    let mut i: usize = 0;
    while i < x.len()
        invariant
            0 <= i <= x@.len(),
            x@.len() == y@.len(),
            forall|j: int| 0 <= j < i ==> x@[j].tv() == y@[j].tv(),
        decreases x@.len() - i,
    {
        if !tv_eq(&x[i], &y[i]) {
            proof {
                assert(tvs(x@)[i as int] != tvs(y@)[i as int]);
            }
            return false;
        }
        i += 1;
    }
    proof {
        assert(tvs(x@) =~= tvs(y@));
    }
    true
}

/// Structural equality of two entry sequences: keys and values in order.
#[verifier::loop_isolation(false)]
fn obj_eq(x: &Vec<(String, TagValue)>, y: &Vec<(String, TagValue)>) -> (r: bool)
    ensures
        r == (pairs_v(x@) == pairs_v(y@)),
    decreases *x,
{
    if x.len() != y.len() {
        proof {
            assert(pairs_v(x@).len() != pairs_v(y@).len());
        }
        return false;
    }
    let mut i: usize = 0;
    while i < x.len()
        invariant
            0 <= i <= x@.len(),
            x@.len() == y@.len(),
            forall|j: int| 0 <= j < i ==> pairs_v(x@)[j] == pairs_v(y@)[j],
        decreases x@.len() - i,
    {
        let xe = &x[i];
        let ye = &y[i];
        if !(xe.0 == ye.0) {
            proof {
                assert(pairs_v(x@)[i as int].0 != pairs_v(y@)[i as int].0);
            }
            return false;
        }
        if !tv_eq(&xe.1, &ye.1) {
            proof {
                assert(pairs_v(x@)[i as int].1 != pairs_v(y@)[i as int].1);
            }
            return false;
        }
        i += 1;
    }
    proof {
        assert(pairs_v(x@) =~= pairs_v(y@));
    }
    true
}

/// A deep copy of a tag value, equal to the original in the model.
#[verifier::loop_isolation(false)]
pub fn tv_clone(v: &TagValue) -> (r: TagValue)
    ensures
        r.tv() == v.tv(),
    decreases *v,
{
    match v {
        TagValue::Null => TagValue::Null,
        TagValue::Bool(b) => TagValue::Bool(*b),
        TagValue::Num(n) => TagValue::Num(*n),
        TagValue::Str(s) => TagValue::Str(s.clone()),
        TagValue::Arr(items) => {
            let mut out: Vec<TagValue> = Vec::new();
            let mut i: usize = 0;
            while i < items.len()
                invariant
                    0 <= i <= items@.len(),
                    v == TagValue::Arr(*items),
                    out@.len() == i,
                    forall|j: int| 0 <= j < i ==> out@[j].tv() == items@[j].tv(),
                decreases items@.len() - i,
            {
                let c = tv_clone(&items[i]);
                out.push(c);
                i += 1;
            }
            proof {
                assert(tvs(out@) =~= tvs(items@));
            }
            TagValue::Arr(out)
        },
        TagValue::Obj(entries) => {
            let mut out: Vec<(String, TagValue)> = Vec::new();
            let mut i: usize = 0;
            while i < entries.len()
                invariant
                    0 <= i <= entries@.len(),
                    v == TagValue::Obj(*entries),
                    out@.len() == i,
                    forall|j: int| 0 <= j < i ==> pairs_v(out@)[j] == pairs_v(entries@)[j],
                decreases entries@.len() - i,
            {
                let e = &entries[i];
                let c = tv_clone(&e.1);
                let k = e.0.clone();
                out.push((k, c));
                i += 1;
            }
            proof {
                assert(pairs_v(out@) =~= pairs_v(entries@));
            }
            TagValue::Obj(out)
        },
    }
}

} // verus!
