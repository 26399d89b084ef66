use vstd::prelude::*;

verus! {

/// What a selector accumulator must do after seeing a batch: take the new
/// value and its time, refresh only the time, or nothing.
#[derive(Debug, Clone, Copy, PartialEq, Eq, Structural)]
pub enum ActionNeeded {
    UpdateValueAndTime,
    UpdateTime,
    Nothing,
}

impl ActionNeeded {
    /// Whether the value must be replaced.
    pub fn update_value(&self) -> (r: bool)
        ensures
            r == (*self is UpdateValueAndTime),
    {
        match self {
            ActionNeeded::UpdateValueAndTime => true,
            ActionNeeded::UpdateTime => false,
            ActionNeeded::Nothing => false,
        }
    }

    /// Whether the time must be refreshed.
    pub fn update_time(&self) -> (r: bool)
        ensures
            r == (*self is UpdateValueAndTime || *self is UpdateTime),
    {
        match self {
            ActionNeeded::UpdateValueAndTime => true,
            ActionNeeded::UpdateTime => true,
            ActionNeeded::Nothing => false,
        }
    }
}

/// The decision for an extremum selector: a strictly better batch value takes
/// value and time, an equal one refreshes the time, anything else is left.
pub fn extremum_action(have_value: bool, batch_better: bool, batch_equal: bool) -> (r:
    ActionNeeded)
    requires
        !(batch_better && batch_equal),
    ensures
        r == (if batch_better || !have_value {
            ActionNeeded::UpdateValueAndTime
        } else if batch_equal {
            ActionNeeded::UpdateTime
        } else {
            ActionNeeded::Nothing
        }),
{
    if !have_value {
        ActionNeeded::UpdateValueAndTime
    } else if batch_better {
        ActionNeeded::UpdateValueAndTime
    } else if batch_equal {
        ActionNeeded::UpdateTime
    } else {
        ActionNeeded::Nothing
    }
}

/// Whether the first selector must adopt a batch minimum time: any time beats
/// none, and only a strictly earlier one beats a held time.
pub fn first_needs_update(held: Option<i64>, batch_min: Option<i64>) -> (r: bool)
    ensures
        r == match (held, batch_min) {
            (Option::Some(t), Option::Some(m)) => m < t,
            (Option::None, Option::Some(_)) => true,
            (_, Option::None) => false,
        },
{
    match (held, batch_min) {
        (Option::Some(t), Option::Some(m)) => m < t,
        (Option::None, Option::Some(_)) => true,
        (_, Option::None) => false,
    }
}

/// Whether the last selector must adopt a batch maximum time.
pub fn last_needs_update(held: Option<i64>, batch_max: Option<i64>) -> (r: bool)
    ensures
        r == match (held, batch_max) {
            (Option::Some(t), Option::Some(m)) => t < m,
            (Option::None, Option::Some(_)) => true,
            (_, Option::None) => false,
        },
{
    match (held, batch_max) {
        (Option::Some(t), Option::Some(m)) => t < m,
        (Option::None, Option::Some(_)) => true,
        (_, Option::None) => false,
    }
}

/// The smallest of the candidate times and the held one, if any: what an
/// extremum selector keeps as the timestamp of its value.
#[verifier::loop_isolation(false)]
pub fn min_candidate_time(candidates: &Vec<i64>, held: Option<i64>) -> (r: Option<i64>)
    ensures
        match r {
            Option::Some(m) => {
                &&& (candidates@.contains(m) || held == Option::Some(m))
                &&& forall|i: int| 0 <= i < candidates@.len() ==> m <= #[trigger] candidates@[i]
                &&& (held matches Some(h) ==> m <= h)
            },
            Option::None => candidates@.len() == 0 && held is None,
        },
{
    let mut best: Option<i64> = held;
    let mut i: usize = 0;
    while i < candidates.len()
        invariant
            i <= candidates@.len(),
            match best {
                Option::Some(m) => {
                    &&& (candidates@.contains(m) || held == Option::Some(m))
                    &&& forall|j: int| 0 <= j < i ==> m <= #[trigger] candidates@[j]
                    &&& (held matches Some(h) ==> m <= h)
                },
                Option::None => i == 0 && held is None,
            },
        decreases candidates@.len() - i,
    {
        let c = candidates[i];
        best = match best {
            Option::Some(m) => if c < m {
                Some(c)
            } else {
                Some(m)
            },
            Option::None => Some(c),
        };
        i = i + 1;
    }
    best
}

} // verus!
