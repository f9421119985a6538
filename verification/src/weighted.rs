//! Checks on the weights that choose markers by title. A set of weights that
//! fails them stops the weighted picker; the checks say which failure comes
//! first and with which message, and the picker stops with it.

use vstd::prelude::*;
use vstd::string::*;
use crate::markers::Marker;

verus! {

/// Why a set of weights cannot be used.
#[derive(Debug)]
pub enum WeightError {
    /// The weight for this title is not greater than 0.
    NotPositive { title: String },
    /// No marker has this title.
    NoMarkers { title: String },
    /// Some marker's title has no weight.
    MissingWeight,
}

/// The message that the weighted picker stops with on a failed check.
pub open spec fn weight_message(e: WeightError) -> Seq<char> {
    match e {
        WeightError::NotPositive { title } => "weight for title "@ + title@ + " must be greater than 0"@,
        WeightError::NoMarkers { title } => "no markers found for title "@ + title@,
        WeightError::MissingWeight => "all markers must have a weight"@,
    }
}

impl WeightError {
    /// The message that the weighted picker stops with.
    pub fn message(&self) -> (r: String)
        ensures
            r@ == weight_message(*self),
    {
        match self {
            WeightError::NotPositive { title } => {
                let mut m = String::from_str("weight for title ");
                m.append(title.as_str());
                m.append(" must be greater than 0");
                m
            },
            WeightError::NoMarkers { title } => {
                let mut m = String::from_str("no markers found for title ");
                m.append(title.as_str());
                m
            },
            WeightError::MissingWeight => String::from_str("all markers must have a weight"),
        }
    }
}

/// Some marker has the title.
pub open spec fn has_marker<T>(markers: Seq<Marker<T>>, title: Seq<char>) -> bool {
    exists|i: int| 0 <= i < markers.len() && #[trigger] markers[i].title@ == title
}

/// Some weight is for the title.
pub open spec fn has_weight(weights: Seq<(String, bool)>, title: Seq<char>) -> bool {
    exists|i: int| 0 <= i < weights.len() && #[trigger] weights[i].0@ == title
}

/// A weight is usable: it is greater than 0 (the flag) and some marker has
/// its title.
pub open spec fn weight_ok<T>(markers: Seq<Marker<T>>, w: (String, bool)) -> bool {
    w.1 && has_marker(markers, w.0@)
}

/// The first unusable weight at or after `start`.
pub open spec fn first_bad_weight<T>(markers: Seq<Marker<T>>, weights: Seq<(String, bool)>, start: int) -> Option<int>
    decreases weights.len() - start,
{
    if start < 0 || start >= weights.len() {
        None
    } else if !weight_ok(markers, weights[start]) {
        Some(start)
    } else {
        first_bad_weight(markers, weights, start + 1)
    }
}

/// The outcome of the checks: the first unusable weight, in the order of the
/// weights, is reported (a weight not above 0 before a title without markers);
/// then a marker without weight; else the weights are fine.
pub open spec fn weights_verdict<T>(markers: Seq<Marker<T>>, weights: Seq<(String, bool)>) -> Result<(), (int, Seq<char>)> {
    match first_bad_weight(markers, weights, 0) {
        Some(i) => Err((if !weights[i].1 { 0int } else { 1int }, weights[i].0@)),
        None => if forall|m: int| 0 <= m < markers.len() ==> has_weight(weights, #[trigger] markers[m].title@) {
            Ok(())
        } else {
            Err((2int, Seq::empty()))
        },
    }
}

/// The mathematical value of a check's outcome.
pub open spec fn outcome_view(r: Result<(), WeightError>) -> Result<(), (int, Seq<char>)> {
    match r {
        Ok(()) => Ok(()),
        Err(WeightError::NotPositive { title }) => Err((0int, title@)),
        Err(WeightError::NoMarkers { title }) => Err((1int, title@)),
        Err(WeightError::MissingWeight) => Err((2int, Seq::empty())),
    }
}

fn count_with_title<T>(markers: &Vec<Marker<T>>, title: &String) -> (r: bool)
    ensures
        r == has_marker(markers@, title@),
{
    let n = markers.len();
    let mut i: usize = 0;
    while i < n
        invariant
            n == markers@.len(),
            0 <= i <= n,
            forall|k: int| 0 <= k < i ==> #[trigger] markers@[k].title@ != title@,
        decreases n - i,
    {
        if markers[i].title.eq(title) {
            return true;
        }
        i = i + 1;
    }
    false
}

fn has_weight_for(weights: &Vec<(String, bool)>, title: &String) -> (r: bool)
    ensures
        r == has_weight(weights@, title@),
{
    let n = weights.len();
    let mut i: usize = 0;
    while i < n
        invariant
            n == weights@.len(),
            0 <= i <= n,
            forall|k: int| 0 <= k < i ==> #[trigger] weights@[k].0@ != title@,
        decreases n - i,
    {
        if weights[i].0.eq(title) {
            return true;
        }
        i = i + 1;
    }
    false
}

/// A marker has a weight for its title.
pub open spec fn weighted_title<T>(weights: Seq<(String, bool)>) -> spec_fn(Marker<T>) -> bool {
    |m: Marker<T>| has_weight(weights, m.title@)
}

/// The markers that have a weight for their title, in their order.
pub open spec fn weighted_markers<T>(markers: Seq<Marker<T>>, weights: Seq<(String, bool)>) -> Seq<Marker<T>> {
    markers.filter(weighted_title(weights))
}

/// Keeps the markers that have a weight for their title.
pub fn retain_weighted<T: Copy>(markers: &Vec<Marker<T>>, weights: &Vec<(String, bool)>) -> (r: Vec<Marker<T>>)
    ensures
        r@ == weighted_markers(markers@, weights@),
{
    let mut out: Vec<Marker<T>> = Vec::new();
    let n = markers.len();
    let mut i: usize = 0;
    while i < n
        invariant
            n == markers@.len(),
            0 <= i <= n,
            out@ == markers@.take(i as int).filter(weighted_title(weights@)),
        decreases n - i,
    {
        let ghost p = weighted_title::<T>(weights@);
        let ghost next = markers@.take(i as int + 1);
        proof {
            reveal(Seq::filter);
            assert(next.drop_last() =~= markers@.take(i as int));
            assert(next.last() == markers@[i as int]);
            assert(next.filter(p) == (if p(next.last()) {
                next.drop_last().filter(p).push(next.last())
            } else {
                next.drop_last().filter(p)
            }));
            assert(p(markers@[i as int]) == has_weight(weights@, markers@[i as int].title@));
        }
        let keep = has_weight_for(weights, &markers[i].title);
        if keep {
            out.push(markers[i].duplicate());
        }
        assert(out@ == next.filter(p));
        i = i + 1;
    }
    proof {
        assert(markers@.take(n as int) =~= markers@);
    }
    out
}

/// Once only the markers with a weight are kept, every kept marker has a
/// weight, so the checks never report a marker without one.
pub proof fn lemma_retained_markers_have_weights<T>(markers: Seq<Marker<T>>, weights: Seq<(String, bool)>)
    ensures
        forall|m: int|
            0 <= m < weighted_markers(markers, weights).len() ==> has_weight(
                weights,
                (#[trigger] weighted_markers(markers, weights)[m]).title@,
            ),
        weights_verdict(weighted_markers(markers, weights), weights) != Err::<(), (int, Seq<char>)>(
            (2int, Seq::<char>::empty()),
        ),
{
    let kept = weighted_markers(markers, weights);
    assert forall|m: int| 0 <= m < kept.len() implies has_weight(weights, (#[trigger] kept[m]).title@) by {
        markers.lemma_filter_pred(weighted_title(weights), m);
    }
}

/// Checks that every weight is greater than 0 (`weights[i].1` says whether
/// weight `i` is) and names the title of some marker, and that every marker's
/// title has a weight. `Ok` exactly when the weighted picker may go on; else
/// the first failure, whose [`WeightError::message`] the picker stops with.
pub fn validate_weights<T>(markers: &Vec<Marker<T>>, weights: &Vec<(String, bool)>) -> (r: Result<(), WeightError>)
    ensures
        outcome_view(r) == weights_verdict(markers@, weights@),
{
    let n = weights.len();
    let mut i: usize = 0;
    while i < n
        invariant
            n == weights@.len(),
            0 <= i <= n,
            first_bad_weight(markers@, weights@, 0) == first_bad_weight(markers@, weights@, i as int),
        decreases n - i,
    {
        let w = &weights[i];
        if !w.1 {
            return Err(WeightError::NotPositive { title: w.0.clone() });
        }
        if !count_with_title(markers, &w.0) {
            return Err(WeightError::NoMarkers { title: w.0.clone() });
        }
        i = i + 1;
    }
    let m = markers.len();
    let mut k: usize = 0;
    while k < m
        invariant
            m == markers@.len(),
            0 <= k <= m,
            first_bad_weight(markers@, weights@, 0) is None,
            forall|q: int| 0 <= q < k ==> has_weight(weights@, #[trigger] markers@[q].title@),
        decreases m - k,
    {
        if !has_weight_for(weights, &markers[k].title) {
            assert(!has_weight(weights@, markers@[k as int].title@));
            return Err(WeightError::MissingWeight);
        }
        k = k + 1;
    }
    Ok(())
}

} // verus!
