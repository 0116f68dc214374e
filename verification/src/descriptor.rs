//! Reading a column's type descriptor: is it a vector, and of which dimension.

use crate::text::{
    all_digits, chars_of, contains, decimal_digits, decimal_value, find, first_occurrence,
    is_digit, lemma_decimal_digits, lemma_first_occurrence, lemma_first_occurrence_is,
    occurs_at, parse_usize, parse_usize_in, slice_of, spells_number, trim, trim_bounds, trim_end,
    trim_start, unsigned_digits,
};
use vstd::prelude::*;

verus! {

/// The text that opens the descriptor of a fixed-width list.
pub open spec fn marker() -> Seq<char> {
    "FixedSizeList("@
}

/// The text between the first marker of `descriptor` and the first comma after it.
pub open spec fn first_argument(descriptor: Seq<char>) -> Option<Seq<char>> {
    match first_occurrence(descriptor, marker()) {
        None => None,
        Some(i) => {
            let tail = descriptor.subrange(i + marker().len(), descriptor.len() as int);
            match first_occurrence(tail, seq![',']) {
                None => None,
                Some(j) => Some(tail.subrange(0, j)),
            }
        },
    }
}

/// The dimension that a descriptor encodes: the number that the first argument of
/// its first marker spells, white space at its ends aside.
pub open spec fn dimension_of(descriptor: Seq<char>) -> Option<usize> {
    match first_argument(descriptor) {
        None => None,
        Some(argument) => parse_usize(trim(argument)),
    }
}

/// A descriptor is that of a vector when it names a list of either kind.
pub open spec fn is_vector_descriptor(descriptor: Seq<char>) -> bool {
    contains(descriptor, "FixedSizeList"@) || contains(descriptor, "List"@)
}

/// A descriptor made of `prefix`, the marker, `argument`, a comma and `rest`.
pub open spec fn descriptor_with(prefix: Seq<char>, argument: Seq<char>, rest: Seq<char>) -> Seq<
    char,
> {
    prefix + marker() + argument + seq![','] + rest
}

/// Where the marker first stands right after `prefix` and `argument` holds no
/// comma, `argument` is the first argument of the descriptor.
pub proof fn lemma_first_argument(prefix: Seq<char>, argument: Seq<char>, rest: Seq<char>)
    requires
        first_occurrence(descriptor_with(prefix, argument, rest), marker()) == Some(
            prefix.len() as int,
        ),
        forall|k: int| 0 <= k < argument.len() ==> argument[k] != ',',
    ensures
        first_argument(descriptor_with(prefix, argument, rest)) == Some(argument),
{
    let d = descriptor_with(prefix, argument, rest);
    let tail = d.subrange((prefix.len() + marker().len()) as int, d.len() as int);
    assert(tail =~= argument + seq![','] + rest);
    let at = argument.len() as int;
    assert(tail.subrange(at, at + 1) =~= seq![',']);
    assert forall|j: int| 0 <= j < at implies !occurs_at(tail, seq![','], j) by {
        if occurs_at(tail, seq![','], j) {
            assert(tail.subrange(j, j + 1)[0] == ',');
            assert(tail[j] == argument[j]);
        }
    }
    lemma_first_occurrence_is(tail, seq![','], at);
    assert(tail.subrange(0, at) =~= argument);
}

/// A descriptor whose first marker is followed at once by decimal digits and a
/// comma encodes the number that the digits spell, if it fits in `usize`.
pub proof fn lemma_dimension_of_digits(prefix: Seq<char>, digits: Seq<char>, rest: Seq<char>)
    requires
        first_occurrence(descriptor_with(prefix, digits, rest), marker()) == Some(
            prefix.len() as int,
        ),
        digits.len() > 0,
        all_digits(digits),
        decimal_value(digits) <= usize::MAX,
    ensures
        dimension_of(descriptor_with(prefix, digits, rest)) == Some(
            decimal_value(digits) as usize,
        ),
{
    assert forall|k: int| 0 <= k < digits.len() implies digits[k] != ',' by {
        assert(is_digit(digits[k]));
    }
    lemma_first_argument(prefix, digits, rest);
    assert(is_digit(digits[0]));
    assert(is_digit(digits.last()));
    assert(trim_start(digits) == digits);
    assert(trim_end(digits) == digits);
    assert(unsigned_digits(digits) == digits);
}

/// A descriptor whose first marker is followed at once by the decimal digits of
/// `n` and a comma encodes `n`, if `n` fits in `usize`.
pub proof fn lemma_dimension_of_number(prefix: Seq<char>, n: nat, rest: Seq<char>)
    requires
        first_occurrence(descriptor_with(prefix, decimal_digits(n), rest), marker()) == Some(
            prefix.len() as int,
        ),
        n <= usize::MAX,
    ensures
        dimension_of(descriptor_with(prefix, decimal_digits(n), rest)) == Some(n as usize),
{
    lemma_decimal_digits(n);
    lemma_dimension_of_digits(prefix, decimal_digits(n), rest);
}

/// A descriptor that holds no marker encodes no dimension.
pub proof fn lemma_dimension_without_marker(descriptor: Seq<char>)
    requires
        !contains(descriptor, marker()),
    ensures
        dimension_of(descriptor) is None,
{
    lemma_first_occurrence(descriptor, marker());
}

/// A descriptor whose marker is never followed by a comma encodes no dimension.
pub proof fn lemma_dimension_without_comma(descriptor: Seq<char>)
    requires
        forall|k: int| 0 <= k < descriptor.len() ==> descriptor[k] != ',',
    ensures
        dimension_of(descriptor) is None,
{
    match first_occurrence(descriptor, marker()) {
        None => {},
        Some(i) => {
            lemma_first_occurrence(descriptor, marker());
            let tail = descriptor.subrange(i + marker().len(), descriptor.len() as int);
            lemma_first_occurrence(tail, seq![',']);
            if let Some(j) = first_occurrence(tail, seq![',']) {
                assert(tail.subrange(j, j + 1)[0] == ',');
                assert(tail[j] == descriptor[i + marker().len() + j]);
            }
        },
    }
}

/// A descriptor whose first argument, white space at its ends aside, spells no
/// number encodes no dimension.
pub proof fn lemma_dimension_non_numeric(prefix: Seq<char>, argument: Seq<char>, rest: Seq<char>)
    requires
        first_occurrence(descriptor_with(prefix, argument, rest), marker()) == Some(
            prefix.len() as int,
        ),
        forall|m: int| 0 <= m < argument.len() ==> argument[m] != ',',
        !spells_number(trim(argument)),
    ensures
        dimension_of(descriptor_with(prefix, argument, rest)) is None,
{
    lemma_first_argument(prefix, argument, rest);
}

/// The width of the fixed-size list that a type descriptor names, if it names one
/// and the width can be read.
pub fn extract_dimension(data_type: &str) -> (dimension: Option<usize>)
    ensures
        dimension == dimension_of(data_type@),
{
    let text = chars_of(data_type);
    let opening = chars_of("FixedSizeList(");
    let at = match find(&text, &opening) {
        Some(i) => i,
        None => {
            return None;
        },
    };
    let tail = slice_of(&text, at + opening.len(), text.len());
    let mut comma: Vec<char> = Vec::new();
    comma.push(',');
    assert(comma@ =~= seq![',']);
    let end = match find(&tail, &comma) {
        Some(j) => j,
        None => {
            return None;
        },
    };
    let (from, to) = trim_bounds(&tail, 0, end);
    parse_usize_in(&tail, from, to)
}

/// Tells whether a type descriptor is that of a vector column.
pub fn is_vector_type(data_type: &str) -> (vector: bool)
    ensures
        vector == is_vector_descriptor(data_type@),
{
    let text = chars_of(data_type);
    let fixed = chars_of("FixedSizeList");
    let list = chars_of("List");
    proof {
        lemma_first_occurrence(text@, fixed@);
        lemma_first_occurrence(text@, list@);
    }
    find(&text, &fixed).is_some() || find(&text, &list).is_some()
}

} // verus!
