//! Telling anomalous traffic from normal traffic by its nearest cluster.
//!
//! Coordinates, rates and distances are double precision numbers. The model
//! only ever asks which of two is smaller, so it holds them as their bit
//! patterns.

use crate::units::{exceeds, law_rounding_crosses_no_threshold, nearest_double};
use vstd::arithmetic::power2::{
    lemma_pow2_pos, lemma_pow2_strictly_increases, lemma_pow2_unfold, pow2,
};
use vstd::prelude::*;

verus! {

/// The bit pattern of the greatest finite number.
pub const MAX_FINITE: u64 = 0x7fef_ffff_ffff_ffff;

/// The bit pattern without its sign.
pub open spec fn magnitude(bits: u64) -> int {
    (bits % 0x8000_0000_0000_0000) as int
}

/// A pattern that stands for no number: all bits of the exponent set, and some
/// bit of the significand.
pub open spec fn is_nan(bits: u64) -> bool {
    magnitude(bits) > 0x7ff0_0000_0000_0000
}

/// An integer by which the numbers are ordered as the patterns' values are.
pub open spec fn rank(bits: u64) -> int {
    if bits >= 0x8000_0000_0000_0000 {
        -magnitude(bits)
    } else {
        magnitude(bits)
    }
}

/// Less-than on double precision numbers: false of a pattern that stands for
/// none, and of the two zeros.
pub open spec fn double_lt(a: u64, b: u64) -> bool {
    !is_nan(a) && !is_nan(b) && rank(a) < rank(b)
}

/// The distance of a cluster that can be the closest one.
pub open spec fn is_candidate(distance: u64) -> bool {
    double_lt(distance, MAX_FINITE)
}

/// The first of the clusters at the smallest distance; the first cluster where
/// no distance is a finite number below the greatest.
pub open spec fn is_closest(distances: Seq<u64>, c: int) -> bool {
    if exists|j: int| 0 <= j < distances.len() && is_candidate(#[trigger] distances[j]) {
        &&& 0 <= c < distances.len()
        &&& is_candidate(distances[c])
        &&& forall|j: int|
            0 <= j < distances.len() && is_candidate(#[trigger] distances[j]) ==> {
                &&& rank(distances[c]) <= rank(distances[j])
                &&& j < c ==> rank(distances[c]) < rank(distances[j])
            }
    } else {
        c == 0
    }
}

pub open spec fn closest_cluster(distances: Seq<u64>) -> int {
    choose|c: int| is_closest(distances, c)
}

/// There is never more than one closest cluster.
pub proof fn law_the_closest_cluster_is_unique(distances: Seq<u64>, c: int)
    requires
        is_closest(distances, c),
    ensures
        closest_cluster(distances) == c,
{
    let other = closest_cluster(distances);
    assert(is_closest(distances, other));
    if exists|j: int| 0 <= j < distances.len() && is_candidate(#[trigger] distances[j]) {
        assert(is_candidate(distances[c]));
        assert(is_candidate(distances[other]));
    }
}

/// There is always a closest cluster.
pub proof fn law_there_is_a_closest_cluster(distances: Seq<u64>)
    ensures
        is_closest(distances, closest_cluster(distances)),
    decreases distances.len(),
{
    if exists|j: int| 0 <= j < distances.len() && is_candidate(#[trigger] distances[j]) {
        let last = distances.len() - 1;
        let before = distances.drop_last();
        law_there_is_a_closest_cluster(before);
        let c = closest_cluster(before);
        if exists|j: int| 0 <= j < before.len() && is_candidate(#[trigger] before[j]) {
            let j = choose|j: int| 0 <= j < before.len() && is_candidate(#[trigger] before[j]);
            assert(is_candidate(distances[j]));
            assert(distances[c] == before[c]);
            assert forall|j: int| 0 <= j < last implies before[j] == #[trigger] distances[j] by {}
            if double_lt(distances[last], distances[c]) {
                assert(is_closest(distances, last));
            } else {
                assert(is_closest(distances, c));
            }
        } else {
            assert forall|j: int| 0 <= j < last implies !is_candidate(#[trigger] distances[j]) by {
                assert(!is_candidate(before[j]));
            }
            assert(is_closest(distances, last));
        }
    } else {
        assert(is_closest(distances, 0));
    }
}

/// Compares two double precision numbers.
fn lt(a: u64, b: u64) -> (less: bool)
    ensures
        less == double_lt(a, b),
{
    let mag_a: u64 = a % 0x8000_0000_0000_0000;
    let mag_b: u64 = b % 0x8000_0000_0000_0000;
    if mag_a > 0x7ff0_0000_0000_0000 || mag_b > 0x7ff0_0000_0000_0000 {
        false
    } else if a < 0x8000_0000_0000_0000 {
        b < 0x8000_0000_0000_0000 && mag_a < mag_b
    } else if b < 0x8000_0000_0000_0000 {
        mag_a > 0 || mag_b > 0
    } else {
        mag_b < mag_a
    }
}

/// Finds the closest cluster.
fn find_closest(distances: &[u64]) -> (c: usize)
    ensures
        c == closest_cluster(distances@),
{
    let mut min: u64 = MAX_FINITE;
    let mut closest: usize = 0;
    let mut i: usize = 0;
    while i < distances.len()
        invariant
            i <= distances@.len(),
            min == MAX_FINITE ==> closest == 0 && forall|j: int|
                0 <= j < i ==> !is_candidate(#[trigger] distances@[j]),
            min != MAX_FINITE ==> {
                &&& closest < i
                &&& min == distances@[closest as int]
                &&& is_candidate(min)
                &&& forall|j: int|
                    0 <= j < i && is_candidate(#[trigger] distances@[j]) ==> {
                        &&& rank(min) <= rank(distances@[j])
                        &&& j < closest ==> rank(min) < rank(distances@[j])
                    }
            },
        decreases distances@.len() - i,
    {
        if lt(distances[i], min) {
            min = distances[i];
            closest = i;
        }
        i = i + 1;
    }
    proof {
        if min != MAX_FINITE {
            assert(is_candidate(distances@[closest as int]));
        }
        law_the_closest_cluster_is_unique(distances@, closest as int);
    }
    closest
}

/// Centroids of clusters of traffic, one of which is the anomalous one.
#[derive(Clone, Debug)]
pub struct ModelConfig {
    pub centroids: Vec<Vec<u64>>,
    pub anomaly_cluster_index: usize,
}

impl ModelConfig {
    /// Whether traffic is anomalous, given its distance from each centroid:
    /// whether the anomalous cluster is the closest.
    pub fn predict_anomaly(&self, distances: &[u64]) -> (anomaly: bool)
        requires
            distances@.len() == self.centroids@.len(),
        ensures
            anomaly == (closest_cluster(distances@) == self.anomaly_cluster_index),
    {
        find_closest(distances) == self.anomaly_cluster_index
    }

    /// The model of two clusters, of which the one with the higher packet rate,
    /// the first coordinate, is the anomalous one.
    pub fn from_centroids(centroids: Vec<Vec<u64>>) -> (model: ModelConfig)
        requires
            centroids@.len() >= 2,
            centroids@[0]@.len() >= 1,
            centroids@[1]@.len() >= 1,
        ensures
            model.centroids == centroids,
            model.anomaly_cluster_index == (if double_lt(
                centroids@[1]@[0],
                centroids@[0]@[0],
            ) {
                0int
            } else {
                1int
            }),
            centroids@[0]@[0] <= 0x7ff0_0000_0000_0000 && centroids@[1]@[0]
                <= 0x7ff0_0000_0000_0000 ==> (model.anomaly_cluster_index == 0 <==> centroids@[0]@[0]
                > centroids@[1]@[0]),
    {
        let anomaly_cluster_index: usize = if lt(centroids[1][0], centroids[0][0]) {
            0
        } else {
            1
        };
        ModelConfig { centroids, anomaly_cluster_index }
    }
}

/// The judgement of a source: by the model where there is one, else by whether
/// its packet rate exceeds the threshold.
pub open spec fn judged(
    model: Option<ModelConfig>,
    distances: Seq<u64>,
    packet_count: u64,
    threshold: u32,
) -> bool {
    match model {
        Some(model) => closest_cluster(distances) == model.anomaly_cluster_index,
        None => nearest_double(packet_count as nat) > threshold,
    }
}

/// Judges a source by its distance from each centroid of the model, or by its
/// packet rate.
pub fn is_anomaly(
    model: &Option<ModelConfig>,
    distances: &[u64],
    packet_count: u64,
    threshold: u32,
) -> (anomaly: bool)
    requires
        model matches Some(model) ==> distances@.len() == model.centroids@.len(),
    ensures
        anomaly == judged(*model, distances@, packet_count, threshold),
        *model is None ==> anomaly == (packet_count > threshold),
{
    match model {
        Some(model) => model.predict_anomaly(distances),
        None => exceeds(packet_count, threshold),
    }
}

/// The patterns of numbers without a negative sign are ordered as the patterns
/// are; with a negative sign the order is reversed. A negative number is less
/// than any other, but for the two zeros, which are equal. A pattern that
/// stands for no number is neither less nor greater than another.
pub proof fn law_numbers_are_ordered_as_their_patterns(a: u64, b: u64)
    ensures
        a <= 0x7ff0_0000_0000_0000 && b <= 0x7ff0_0000_0000_0000 ==> (double_lt(a, b) <==> a < b),
        0x8000_0000_0000_0000 <= a <= 0xfff0_0000_0000_0000 && 0x8000_0000_0000_0000 <= b
            <= 0xfff0_0000_0000_0000 ==> (double_lt(a, b) <==> b < a),
        0x8000_0000_0000_0000 <= a <= 0xfff0_0000_0000_0000 && b <= 0x7ff0_0000_0000_0000 ==> (
        double_lt(a, b) <==> !(a == 0x8000_0000_0000_0000 && b == 0)),
        a <= 0x7ff0_0000_0000_0000 && 0x8000_0000_0000_0000 <= b <= 0xfff0_0000_0000_0000
            ==> !double_lt(a, b),
        0x7ff0_0000_0000_0000 < a < 0x8000_0000_0000_0000 || a > 0xfff0_0000_0000_0000
            ==> !double_lt(a, b) && !double_lt(b, a),
{
}

/// The value of the number that a pattern stands for, in units of 2^-1074, the
/// smallest number of the format. Behind the sign stand eleven bits of exponent
/// and fifty-two of significand, which has a leading one but for the exponent
/// zero.
pub open spec fn double_value(bits: u64) -> int {
    let exponent = bits / 0x10_0000_0000_0000 % 0x800;
    let significand = bits % 0x10_0000_0000_0000;
    let size = if exponent == 0 {
        significand as int
    } else {
        (0x10_0000_0000_0000 + significand) * pow2((exponent - 1) as nat)
    };
    if bits >= 0x8000_0000_0000_0000 {
        -size
    } else {
        size
    }
}

/// A pattern that stands for a finite number: not all bits of the exponent are
/// set.
pub open spec fn is_finite(bits: u64) -> bool {
    bits / 0x10_0000_0000_0000 % 0x800 < 0x7ff
}

proof fn lemma_greater_patterns_have_greater_values(a: u64, b: u64)
    requires
        a < b < 0x7ff0_0000_0000_0000,
    ensures
        0 <= double_value(a) < double_value(b),
{
    let m: int = 0x10_0000_0000_0000;
    let ea = a / 0x10_0000_0000_0000;
    let eb = b / 0x10_0000_0000_0000;
    let sa = a % 0x10_0000_0000_0000;
    let sb = b % 0x10_0000_0000_0000;
    assert(ea % 0x800 == ea && eb % 0x800 == eb);
    assert(ea <= eb);
    assert(ea == eb ==> sa < sb);
    if ea > 0 {
        lemma_pow2_pos((ea - 1) as nat);
        assert(0 <= (m + sa) * pow2((ea - 1) as nat)) by (nonlinear_arith)
            requires
                m + sa >= 0,
                pow2((ea - 1) as nat) > 0,
        ;
    }
    if eb > 0 {
        let pb = pow2((eb - 1) as nat);
        lemma_pow2_pos((eb - 1) as nat);
        assert((m + sb) * pb >= m * pb) by (nonlinear_arith)
            requires
                pb > 0,
                sb >= 0,
        ;
        assert(m * pb >= m) by (nonlinear_arith)
            requires
                pb >= 1,
                m >= 0,
        ;
        if ea == eb {
            assert((m + sa) * pb < (m + sb) * pb) by (nonlinear_arith)
                requires
                    pb > 0,
                    sa < sb,
            ;
        } else if ea > 0 {
            let pa = pow2((ea - 1) as nat);
            lemma_pow2_unfold(ea as nat);
            if ea < eb - 1 {
                lemma_pow2_strictly_increases(ea as nat, (eb - 1) as nat);
            }
            assert((m + sa) * pa < m * (2 * pa)) by (nonlinear_arith)
                requires
                    sa < m,
                    pa > 0,
            ;
            assert(m * (2 * pa) <= m * pb) by (nonlinear_arith)
                requires
                    2 * pa <= pb,
                    m >= 0,
            ;
        }
    }
}

proof fn lemma_values_of_signs(bits: u64)
    ensures
        bits >= 0x8000_0000_0000_0000 ==> double_value(bits) == -double_value(
            (bits - 0x8000_0000_0000_0000) as u64,
        ),
        bits >= 0x8000_0000_0000_0000 ==> is_finite(bits) == is_finite(
            (bits - 0x8000_0000_0000_0000) as u64,
        ),
        bits < 0x8000_0000_0000_0000 ==> (is_finite(bits) <==> bits < 0x7ff0_0000_0000_0000),
{
    if bits >= 0x8000_0000_0000_0000 {
        let rest = (bits - 0x8000_0000_0000_0000) as u64;
        assert(bits / 0x10_0000_0000_0000 == rest / 0x10_0000_0000_0000 + 0x800);
        assert(bits / 0x10_0000_0000_0000 % 0x800 == rest / 0x10_0000_0000_0000 % 0x800);
        assert(bits % 0x10_0000_0000_0000 == rest % 0x10_0000_0000_0000);
    }
}

proof fn lemma_values_of_sizes(a: u64, b: u64)
    requires
        a < 0x7ff0_0000_0000_0000,
        b < 0x7ff0_0000_0000_0000,
    ensures
        double_value(a) >= 0,
        double_value(a) == 0 <==> a == 0,
        double_value(a) < double_value(b) <==> a < b,
{
    assert(double_value(0) == 0);
    if a > 0 {
        lemma_greater_patterns_have_greater_values(0, a);
    }
    if a < b {
        lemma_greater_patterns_have_greater_values(a, b);
    }
    if b < a {
        lemma_greater_patterns_have_greater_values(b, a);
    }
}

/// One finite number is less than another if and only if its value is.
pub proof fn law_less_is_less_in_value(a: u64, b: u64)
    requires
        is_finite(a),
        is_finite(b),
    ensures
        double_lt(a, b) <==> double_value(a) < double_value(b),
{
    let x = if a >= 0x8000_0000_0000_0000 {
        (a - 0x8000_0000_0000_0000) as u64
    } else {
        a
    };
    let y = if b >= 0x8000_0000_0000_0000 {
        (b - 0x8000_0000_0000_0000) as u64
    } else {
        b
    };
    lemma_values_of_signs(a);
    lemma_values_of_signs(b);
    lemma_values_of_signs(x);
    lemma_values_of_signs(y);
    lemma_values_of_sizes(x, y);
    lemma_values_of_sizes(y, x);
    law_numbers_are_ordered_as_their_patterns(a, b);
}

/// The cluster that is found is the first of those at the smallest distance.
/// Distances are not negative, so they are ordered as their patterns; those
/// that are no number, infinite or the greatest number of all are passed over.
pub proof fn law_the_closest_cluster_is_at_the_smallest_distance(distances: Seq<u64>, j: int)
    requires
        forall|i: int| 0 <= i < distances.len() ==> #[trigger] distances[i]
            < 0x8000_0000_0000_0000,
        0 <= j < distances.len(),
        distances[j] < 0x7fef_ffff_ffff_ffff,
    ensures
        ({
            let c = closest_cluster(distances);
            &&& 0 <= c < distances.len()
            &&& distances[c] <= distances[j]
            &&& distances[c] == distances[j] ==> c <= j
        }),
{
    law_there_is_a_closest_cluster(distances);
    assert(is_candidate(distances[j]));
}

/// The same for numbers of any sign: no finite distance below the greatest
/// number is less in value than that of the cluster that is found, and none
/// before it is as small.
pub proof fn law_no_cluster_is_closer(distances: Seq<u64>, j: int)
    requires
        0 <= j < distances.len(),
        is_finite(distances[j]),
        distances[j] != 0x7fef_ffff_ffff_ffff,
    ensures
        ({
            let c = closest_cluster(distances);
            &&& 0 <= c < distances.len()
            &&& !is_finite(distances[c]) ==> distances[c] == 0xfff0_0000_0000_0000
            &&& is_finite(distances[c]) ==> double_value(distances[c]) <= double_value(
                distances[j],
            )
            &&& is_finite(distances[c]) && double_value(distances[c]) == double_value(
                distances[j],
            ) ==> c <= j
        }),
{
    law_there_is_a_closest_cluster(distances);
    let c = closest_cluster(distances);
    lemma_values_of_signs(distances[j]);
    if distances[j] >= 0x8000_0000_0000_0000 {
        lemma_values_of_signs((distances[j] - 0x8000_0000_0000_0000) as u64);
    }
    assert(is_candidate(distances[j]));
    lemma_values_of_signs(distances[c]);
    if distances[c] >= 0x8000_0000_0000_0000 {
        lemma_values_of_signs((distances[c] - 0x8000_0000_0000_0000) as u64);
    }
    if is_finite(distances[c]) {
        law_less_is_less_in_value(distances[j], distances[c]);
        law_less_is_less_in_value(distances[c], distances[j]);
    }
}

/// Where every distance is no number, infinite or the greatest number of all,
/// the first cluster is taken.
pub proof fn law_without_a_distance_the_first_cluster_is_taken(distances: Seq<u64>)
    requires
        forall|i: int|
            0 <= i < distances.len() ==> 0x7fef_ffff_ffff_ffff <= #[trigger] distances[i]
                < 0x8000_0000_0000_0000 || distances[i] > 0xfff0_0000_0000_0000,
    ensures
        closest_cluster(distances) == 0,
{
    law_there_is_a_closest_cluster(distances);
    assert forall|i: int| 0 <= i < distances.len() implies !is_candidate(#[trigger] distances[i]) by {
    }
}

/// With a model, a source is anomalous if and only if the anomalous cluster is
/// the first of those at the smallest distance. Its packet rate and the
/// threshold play no part.
pub proof fn law_the_model_judges_by_the_closest_cluster(
    model: ModelConfig,
    distances: Seq<u64>,
    packet_count: u64,
    threshold: u32,
)
    requires
        model.anomaly_cluster_index < distances.len(),
        forall|i: int| 0 <= i < distances.len() ==> #[trigger] distances[i]
            < 0x7fef_ffff_ffff_ffff,
    ensures
        judged(Some(model), distances, packet_count, threshold) <==> forall|i: int|
            0 <= i < distances.len() ==> {
                &&& distances[model.anomaly_cluster_index as int] <= #[trigger] distances[i]
                &&& i < model.anomaly_cluster_index
                    ==> distances[model.anomaly_cluster_index as int] < distances[i]
            },
{
    let a = model.anomaly_cluster_index as int;
    let c = closest_cluster(distances);
    law_there_is_a_closest_cluster(distances);
    assert(is_candidate(distances[a]));
    assert(0 <= c < distances.len());
    assert forall|i: int| 0 <= i < distances.len() implies distances[c] <= #[trigger] distances[i]
        && (i < c ==> distances[c] < distances[i]) by {
        law_the_closest_cluster_is_at_the_smallest_distance(distances, i);
    }
    if c != a {
        assert(distances[c] <= distances[a]);
        assert(!(distances[a] <= distances[c] && (c < a ==> distances[a] < distances[c])));
    }
}

/// Without a model, a source is anomalous if and only if it sent more packets
/// than the threshold. Distances play no part.
pub proof fn law_without_a_model_the_threshold_decides(
    distances: Seq<u64>,
    packet_count: u64,
    threshold: u32,
)
    ensures
        judged(None, distances, packet_count, threshold) <==> packet_count > threshold,
{
    law_rounding_crosses_no_threshold(packet_count as nat, threshold);
}

/// Whatever the numbers are, none of those that are less than the greatest
/// finite number is less than the distance of the cluster that is found, and
/// every one before it is greater.
pub proof fn law_the_closest_cluster_is_the_first_of_the_least(distances: Seq<u64>, j: int)
    requires
        0 <= j < distances.len(),
        distances[j] < 0x7fef_ffff_ffff_ffff || 0x8000_0000_0000_0000 <= distances[j]
            <= 0xfff0_0000_0000_0000,
    ensures
        ({
            let c = closest_cluster(distances);
            &&& 0 <= c < distances.len()
            &&& !double_lt(distances[j], distances[c])
            &&& j < c ==> double_lt(distances[c], distances[j])
        }),
{
    law_there_is_a_closest_cluster(distances);
    assert(is_candidate(distances[j]));
}

/// A model finds traffic anomalous if and only if the closest cluster is the
/// anomalous one, whatever the distances, the packet rate and the threshold.
pub proof fn law_the_closest_cluster_decides(
    model: ModelConfig,
    distances: Seq<u64>,
    packet_count: u64,
    threshold: u32,
)
    ensures
        judged(Some(model), distances, packet_count, threshold) <==> model.anomaly_cluster_index
            == closest_cluster(distances),
{
}

} // verus!
