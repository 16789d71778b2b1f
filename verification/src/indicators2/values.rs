//! The values that the indicators show at a tick.

use crate::text::range_is;
use vstd::prelude::*;

verus! {

/// One output of an indicator with its value, which is fixed-point.
#[derive(Debug, Clone)]
pub struct OutputValue {
    pub name: String,
    pub value: i128,
}

/// The outputs that one indicator shows.
#[derive(Debug, Clone)]
pub struct IndicatorReading {
    pub id: String,
    pub outputs: Vec<OutputValue>,
}

/// Why a value cannot be read.
#[derive(Debug, Clone, Copy, PartialEq, Eq, Structural)]
pub enum ReadingError {
    /// No indicator has the name.
    IndicatorNotFound,
    /// The indicator shows no output of the name.
    UnknownOutput,
}

/// The value of the first output of the name; `None` where there is none.
pub open spec fn output_value(outputs: Seq<OutputValue>, name: Seq<char>) -> Option<i128>
    decreases outputs.len(),
{
    if outputs.len() == 0 {
        None
    } else if outputs[0].name@ == name {
        Some(outputs[0].value)
    } else {
        output_value(outputs.drop_first(), name)
    }
}

/// The value that the first indicator of the name `id` shows for `output`.
pub open spec fn reading_value(readings: Seq<IndicatorReading>, id: Seq<char>, output: Seq<char>) -> Result<
    i128,
    ReadingError,
>
    decreases readings.len(),
{
    if readings.len() == 0 {
        Err(ReadingError::IndicatorNotFound)
    } else if readings[0].id@ == id {
        match output_value(readings[0].outputs@, output) {
            Some(v) => Ok(v),
            None => Err(ReadingError::UnknownOutput),
        }
    } else {
        reading_value(readings.drop_first(), id, output)
    }
}

/// Finds the value of the output whose name is the characters from `from`
/// up to `to`.
pub fn find_output(outputs: &Vec<OutputValue>, chars: &Vec<char>, from: usize, to: usize) -> (r:
    Option<i128>)
    requires
        from <= to <= chars@.len(),
    ensures
        r == output_value(outputs@, chars@.subrange(from as int, to as int)),
{
    let ghost output = chars@.subrange(from as int, to as int);
    let m = outputs.len();
    let mut j: usize = 0;
    proof {
        assert(outputs@.skip(0) =~= outputs@);
    }
    while j < m
        invariant
            j <= m,
            m == outputs@.len(),
            from <= to <= chars@.len(),
            output == chars@.subrange(from as int, to as int),
            output_value(outputs@, output) == output_value(outputs@.skip(j as int), output),
        decreases m - j,
    {
        proof {
            assert(outputs@.skip(j as int)[0] == outputs@[j as int]);
            assert(outputs@.skip(j as int).drop_first() =~= outputs@.skip(j + 1));
        }
        if range_is(chars, from, to, outputs[j].name.as_str()) {
            return Some(outputs[j].value);
        }
        j = j + 1;
    }
    None
}

/// Reads the value of an output of an indicator. The names are ranges of
/// `chars`: the indicator's from `id_from` up to `id_to`, the output's from
/// `out_from` up to `out_to`.
pub fn read_value(
    readings: &Vec<IndicatorReading>,
    chars: &Vec<char>,
    id_from: usize,
    id_to: usize,
    out_from: usize,
    out_to: usize,
) -> (r: Result<i128, ReadingError>)
    requires
        id_from <= id_to <= chars@.len(),
        out_from <= out_to <= chars@.len(),
    ensures
        r == reading_value(
            readings@,
            chars@.subrange(id_from as int, id_to as int),
            chars@.subrange(out_from as int, out_to as int),
        ),
{
    let ghost id = chars@.subrange(id_from as int, id_to as int);
    let ghost output = chars@.subrange(out_from as int, out_to as int);
    let n = readings.len();
    let mut i: usize = 0;
    proof {
        assert(readings@.skip(0) =~= readings@);
    }
    while i < n
        invariant
            i <= n,
            n == readings@.len(),
            id_from <= id_to <= chars@.len(),
            out_from <= out_to <= chars@.len(),
            id == chars@.subrange(id_from as int, id_to as int),
            output == chars@.subrange(out_from as int, out_to as int),
            reading_value(readings@, id, output) == reading_value(
                readings@.skip(i as int),
                id,
                output,
            ),
        decreases n - i,
    {
        proof {
            assert(readings@.skip(i as int)[0] == readings@[i as int]);
            assert(readings@.skip(i as int).drop_first() =~= readings@.skip(i + 1));
        }
        if range_is(chars, id_from, id_to, readings[i].id.as_str()) {
            return match find_output(&readings[i].outputs, chars, out_from, out_to) {
                Some(v) => Ok(v),
                None => Err(ReadingError::UnknownOutput),
            };
        }
        i = i + 1;
    }
    Err(ReadingError::IndicatorNotFound)
}

} // verus!
