//! Small routines on integers and integer lists: a doubling rule, a scoring
//! pass that rejects non-positive entries, and a filter-then-double pass.
use vstd::prelude::*;

verus! {

broadcast use vstd::string::group_string_axioms;

/// Twice `x` when `x` is positive, else zero.
pub open spec fn doubled_if_positive(x: int) -> int {
    if x > 0 {
        2 * x
    } else {
        0
    }
}

/// Doubles a positive number; every other number gives zero.
///
/// The doubled value must fit in an `i32`.
pub fn simple_function(x: i32) -> (r: i32)
    requires
        doubled_if_positive(x as int) <= i32::MAX,
    ensures
        r == doubled_if_positive(x as int),
{
    if x > 0 {
        x * 2
    } else {
        0
    }
}

/// The score of one entry: an even entry above ten counts twice its value, an
/// odd one above ten its value, and any other entry one.
pub open spec fn entry_score(x: int) -> int {
    if x > 10 {
        if x % 2 == 0 {
            2 * x
        } else {
            x
        }
    } else {
        1
    }
}

/// The sum of the scores of all entries of `s`.
pub open spec fn total_score(s: Seq<i32>) -> int
    decreases s.len(),
{
    if s.len() == 0 {
        0
    } else {
        total_score(s.drop_last()) + entry_score(s.last() as int)
    }
}

/// Every entry of `s` is positive.
pub open spec fn all_positive(s: Seq<i32>) -> bool {
    forall|i: int| 0 <= i < s.len() ==> s[i] > 0
}

/// Every run of positive entries at the start of `s` scores within `i32`.
pub open spec fn scores_fit(s: Seq<i32>) -> bool {
    forall|k: int|
        0 <= k <= s.len() && #[trigger] all_positive(s.take(k)) ==> total_score(s.take(k))
            <= i32::MAX
}

/// The message of the error for a list with a non-positive entry.
pub open spec fn invalid_data_message() -> Seq<char> {
    "Invalid data"@
}

/// A score is never negative: each entry adds at least one.
proof fn lemma_total_score_nonneg(s: Seq<i32>)
    ensures
        total_score(s) >= s.len(),
    decreases s.len(),
{
    if s.len() > 0 {
        lemma_total_score_nonneg(s.drop_last());
    }
}

/// The total score of `data` when every entry is positive, else the error
/// "Invalid data".
///
/// The running total must fit in an `i32` over the positive entries that come
/// before the first non-positive one.
pub fn complex_function(data: Vec<i32>) -> (r: Result<i32, String>)
    requires
        scores_fit(data@),
    ensures
        match r {
            Ok(v) => all_positive(data@) && v == total_score(data@),
            Err(e) => !all_positive(data@) && e@ == invalid_data_message(),
        },
{
    let mut result: i32 = 0;
    let mut i: usize = 0;
    while i < data.len()
        invariant
            i <= data@.len(),
            scores_fit(data@),
            all_positive(data@.take(i as int)),
            result == total_score(data@.take(i as int)),
        decreases data@.len() - i,
    {
        let item = data[i];
        let ghost next = data@.take(i + 1);
        proof {
            assert(next.drop_last() =~= data@.take(i as int));
        }
        if item <= 0 {
            proof {
                assert(data@[i as int] <= 0);
            }
            return Err("Invalid data".to_string());
        }
        proof {
            assert(all_positive(next));
            assert(total_score(next) <= i32::MAX);
            lemma_total_score_nonneg(data@.take(i as int));
        }
        if item > 10 {
            if item % 2 == 0 {
                result += item * 2;
            } else {
                result += item;
            }
        } else {
            result += 1;
        }
        i = i + 1;
    }
    proof {
        assert(data@.take(i as int) =~= data@);
    }
    Ok(result)
}

/// The entries of `s` above two, each doubled, in their order in `s`.
pub open spec fn doubled_above_two(s: Seq<i32>) -> Seq<int>
    decreases s.len(),
{
    if s.len() == 0 {
        Seq::empty()
    } else if s.last() > 2 {
        doubled_above_two(s.drop_last()).push(2 * s.last())
    } else {
        doubled_above_two(s.drop_last())
    }
}

/// Keeps the numbers one to five that are above two, doubled: six, eight and
/// ten.
pub fn higher_order_function() -> (r: Vec<i32>)
    ensures
        r@ == seq![6i32, 8, 10],
{
    let numbers: Vec<i32> = vec![1, 2, 3, 4, 5];
    let mut doubled: Vec<i32> = Vec::new();
    let mut i: usize = 0;
    while i < numbers.len()
        invariant
            i <= numbers@.len(),
            numbers@ == seq![1i32, 2, 3, 4, 5],
            doubled@.map_values(|x: i32| x as int) == doubled_above_two(numbers@.take(i as int)),
        decreases numbers@.len() - i,
    {
        let x = numbers[i];
        proof {
            assert(numbers@.take(i + 1).drop_last() =~= numbers@.take(i as int));
        }
        if x > 2 {
            doubled.push(x * 2);
            proof {
                assert(doubled@.map_values(|x: i32| x as int) =~= doubled_above_two(
                    numbers@.take(i as int),
                ).push(2 * x));
            }
        }
        i = i + 1;
    }
    proof {
        assert(numbers@.take(i as int) =~= numbers@);
        reveal_with_fuel(doubled_above_two, 6);
        assert(numbers@.drop_last() =~= seq![1i32, 2, 3, 4]);
        assert(numbers@.drop_last().drop_last() =~= seq![1i32, 2, 3]);
        assert(seq![1i32, 2, 3].drop_last() =~= seq![1i32, 2]);
        assert(seq![1i32, 2].drop_last() =~= seq![1i32]);
        assert(seq![1i32].drop_last() =~= Seq::<i32>::empty());
        assert(doubled_above_two(numbers@) =~= seq![6int, 8, 10]);
        assert(doubled@ =~= seq![6i32, 8, 10]) by {
            assert(doubled@.len() == 3);
            assert(doubled@.map_values(|x: i32| x as int)[0] == 6);
            assert(doubled@.map_values(|x: i32| x as int)[1] == 8);
            assert(doubled@.map_values(|x: i32| x as int)[2] == 10);
        }
    }
    doubled
}

} // verus!
