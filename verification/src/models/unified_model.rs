use vstd::prelude::*;

use crate::text::{decimal_digits, usize_to_string};

verus! {

/// What a timestep says about its objects: how many it declares, and the names of the
/// objects it holds, in order.
pub struct TimestepObjects {
    pub declared: usize,
    pub names: Vec<String>,
}

/// An object followed through the timesteps: its name and the timesteps that hold it,
/// in order.
pub struct ObjectTrack {
    pub name: String,
    pub steps: Vec<usize>,
}

/// The largest number of objects a timestep declares (0 without timesteps).
pub open spec fn max_declared(steps: Seq<TimestepObjects>) -> nat
    decreases steps.len(),
{
    if steps.len() == 0 {
        0
    } else {
        let m = max_declared(steps.drop_last());
        if steps.last().declared > m {
            steps.last().declared as nat
        } else {
            m
        }
    }
}

/// The first timestep that holds object `i`, if any.
pub open spec fn first_holding(steps: Seq<TimestepObjects>, i: int) -> Option<int>
    decreases steps.len(),
{
    if steps.len() == 0 {
        None
    } else {
        match first_holding(steps.drop_last(), i) {
            Some(t) => Some(t),
            None => if i < steps.last().names@.len() {
                Some(steps.len() - 1)
            } else {
                None
            },
        }
    }
}

/// The timesteps that hold object `i`, in order.
pub open spec fn holding_steps(steps: Seq<TimestepObjects>, i: int) -> Seq<int>
    decreases steps.len(),
{
    if steps.len() == 0 {
        Seq::empty()
    } else {
        let rest = holding_steps(steps.drop_last(), i);
        if i < steps.last().names@.len() {
            rest.push(steps.len() - 1)
        } else {
            rest
        }
    }
}

/// The name of object `i`: its name in the first timestep that holds it, or `object_`
/// and its number counted from 1 when no timestep does.
pub open spec fn object_name(steps: Seq<TimestepObjects>, i: int) -> Seq<char> {
    match first_holding(steps, i) {
        Some(t) => steps[t].names@[i]@,
        None => "object_"@ + decimal_digits((i + 1) as nat),
    }
}

/// The positions of a sequence of indices.
pub open spec fn indices_view(s: Seq<usize>) -> Seq<int> {
    Seq::new(s.len(), |k: int| s[k] as int)
}

fn max_declared_of(steps: &Vec<TimestepObjects>) -> (r: usize)
    ensures
        r == max_declared(steps@),
{
    let mut m: usize = 0;
    let mut t: usize = 0;
    while t < steps.len()
        invariant
            t <= steps.len(),
            m == max_declared(steps@.take(t as int)),
        decreases steps.len() - t,
    {
        assert(steps@.take(t + 1).drop_last() =~= steps@.take(t as int));
        if steps[t].declared > m {
            m = steps[t].declared;
        }
        t += 1;
    }
    assert(steps@.take(t as int) =~= steps@);
    m
}

proof fn lemma_first_holding_bounds(steps: Seq<TimestepObjects>, i: int)
    ensures
        first_holding(steps, i) matches Some(t) ==> 0 <= t < steps.len() && i < steps[t].names@.len(),
    decreases steps.len(),
{
    if steps.len() > 0 {
        lemma_first_holding_bounds(steps.drop_last(), i);
    }
}

fn track_of(steps: &Vec<TimestepObjects>, i: usize) -> (r: ObjectTrack)
    requires
        i < usize::MAX,
    ensures
        r.name@ == object_name(steps@, i as int),
        indices_view(r.steps@) == holding_steps(steps@, i as int),
{
    let mut found: Option<usize> = None;
    let mut held: Vec<usize> = Vec::new();
    let mut t: usize = 0;
    while t < steps.len()
        invariant
            t <= steps.len(),
            found == (match first_holding(steps@.take(t as int), i as int) {
                Some(x) => Some(x as usize),
                None => None::<usize>,
            }),
            first_holding(steps@.take(t as int), i as int) matches Some(x) ==> 0 <= x < t,
            indices_view(held@) == holding_steps(steps@.take(t as int), i as int),
        decreases steps.len() - t,
    {
        let ghost prefix = steps@.take(t as int);
        assert(steps@.take(t + 1).drop_last() =~= prefix);
        assert(steps@.take(t + 1).last() == steps@[t as int]);
        if i < steps[t].names.len() {
            if found.is_none() {
                found = Some(t);
            }
            let ghost before = indices_view(held@);
            held.push(t);
            assert(indices_view(held@) =~= before.push(t as int));
        }
        t += 1;
    }
    assert(steps@.take(t as int) =~= steps@);
    let name = match found {
        Some(x) => {
            proof {
                lemma_first_holding_bounds(steps@, i as int);
            }
            steps[x].names[i].clone()
        },
        None => {
            let mut n = "object_".to_owned();
            n.append(usize_to_string(i + 1).as_str());
            n
        },
    };
    ObjectTrack { name, steps: held }
}

/// The objects followed through `steps`: as many as the most any timestep declares, each
/// with its name and the timesteps that hold it.
pub fn object_tracks(steps: &Vec<TimestepObjects>) -> (r: Vec<ObjectTrack>)
    ensures
        r@.len() == max_declared(steps@),
        forall|i: int|
            0 <= i < r@.len() ==> (#[trigger] r@[i]).name@ == object_name(steps@, i) && indices_view(
                r@[i].steps@,
            ) == holding_steps(steps@, i),
{
    let n = max_declared_of(steps);
    let mut out: Vec<ObjectTrack> = Vec::new();
    let mut i: usize = 0;
    while i < n
        invariant
            i <= n == max_declared(steps@),
            out@.len() == i,
            forall|k: int|
                0 <= k < i ==> (#[trigger] out@[k]).name@ == object_name(steps@, k) && indices_view(
                    out@[k].steps@,
                ) == holding_steps(steps@, k),
        decreases n - i,
    {
        out.push(track_of(steps, i));
        i += 1;
    }
    out
}

} // verus!
